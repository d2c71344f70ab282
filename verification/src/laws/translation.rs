//! Types that layouts have been translated to.
use crate::layout::{Abi, FieldsShape, Scalar, TyAndLayout, TyKind, Variants};
use crate::lower::{
    empty_struct, lower, lower_aggregate, lower_fields, lower_generic, lower_pair, lower_scalar,
    lower_struct, Shape,
};
use crate::printer::{
    debug_at, debug_id_at, debug_tree, debugs_at, display, display_at, display_id_at, displays_at,
    lemma_debug_found, lemma_debug_id_deeper, lemma_debugs_deeper, lemma_display_found,
    lemma_display_id_deeper, lemma_displays, lemma_displays_deeper,
};
use crate::sizes::{lemma_size_found, size_at, size_in_bits, sizes_at};
use crate::spirv_type::Ty;
use crate::state::{lemma_define, lemma_submap_at, lemma_u32_constant, State};
use crate::trans::{
    intern, intern_all, lemma_intern, lemma_intern_all, lemma_intern_grows, lemma_lower_fields,
};
use rspirv::spirv::Word;
use vstd::prelude::*;

verus! {

/// Whether an id stands for a type that is put together as a shape says.
pub open spec fn denotes(s: State, id: Word, shape: Shape) -> bool
    decreases shape,
{
    s.type_defs.contains_key(id) && match (shape, s.type_defs[id]) {
        (Shape::Void, Ty::Void) => true,
        (Shape::Bool, Ty::Bool) => true,
        (Shape::Integer(width, signedness), Ty::Integer(w, sign)) => width == w && signedness
            == sign,
        (Shape::Float(width), Ty::Float(w)) => width == w,
        (
            Shape::Adt { name, fields, field_offsets, field_names },
            Ty::Adt { name: n, field_types, field_offsets: offsets, field_names: names },
        ) => name == n && field_offsets == offsets && field_names == names && denote_all(
            s,
            field_types,
            fields,
        ),
        (Shape::Vector { element, count }, Ty::Vector { element: e, count: c }) => count == c
            && denotes(s, e, *element),
        (Shape::Array { element, count }, Ty::Array { element: e, count: c }) => {
            s.constants.contains_key(c) && s.constants[c] == count && denotes(s, e, *element)
        },
        (
            Shape::Pointer { storage_class, pointee },
            Ty::Pointer { storage_class: class, pointee: p },
        ) => storage_class == class && denotes(s, p, *pointee),
        _ => false,
    }
}

/// Whether some ids stand for types that are put together as some shapes say, one for one.
pub open spec fn denote_all(s: State, ids: Seq<Word>, shapes: Seq<Shape>) -> bool
    decreases shapes,
{
    ids.len() == shapes.len() && (shapes.len() == 0 || denote_all(
        s,
        ids.drop_last(),
        shapes.drop_last(),
    ) && denotes(s, ids.last(), shapes.last()))
}

/// Whether an array occurs in a type.
pub open spec fn has_array(shape: Shape) -> bool
    decreases shape,
{
    match shape {
        Shape::Adt { fields, .. } => any_array(fields),
        Shape::Array { .. } => true,
        Shape::Vector { element, .. } => has_array(*element),
        Shape::Pointer { pointee, .. } => has_array(*pointee),
        _ => false,
    }
}

/// Whether an array occurs in one of several types.
pub open spec fn any_array(shapes: Seq<Shape>) -> bool
    decreases shapes,
{
    if shapes.len() == 0 {
        false
    } else {
        any_array(shapes.drop_last()) || has_array(shapes.last())
    }
}

/// What an id stands for is kept, whatever is added to the module later.
pub proof fn law_denotes_kept(s: State, later: State, id: Word, shape: Shape)
    requires
        s.extended_by(later),
        denotes(s, id, shape),
    ensures
        denotes(later, id, shape),
    decreases shape,
{
    lemma_submap_at(s.type_defs, later.type_defs, id);
    match (shape, s.type_defs[id]) {
        (Shape::Adt { fields, .. }, Ty::Adt { field_types, .. }) => {
            lemma_denote_all_kept(s, later, field_types, fields);
        },
        (Shape::Vector { element, .. }, Ty::Vector { element: e, .. }) => {
            law_denotes_kept(s, later, e, *element);
        },
        (Shape::Array { element, .. }, Ty::Array { element: e, count }) => {
            lemma_submap_at(s.constants, later.constants, count);
            law_denotes_kept(s, later, e, *element);
        },
        (Shape::Pointer { pointee, .. }, Ty::Pointer { pointee: p, .. }) => {
            law_denotes_kept(s, later, p, *pointee);
        },
        _ => {},
    }
}

/// What several ids stand for is kept.
pub proof fn lemma_denote_all_kept(s: State, later: State, ids: Seq<Word>, shapes: Seq<Shape>)
    requires
        s.extended_by(later),
        denote_all(s, ids, shapes),
    ensures
        denote_all(later, ids, shapes),
    decreases shapes,
{
    if shapes.len() > 0 {
        lemma_denote_all_kept(s, later, ids.drop_last(), shapes.drop_last());
        law_denotes_kept(s, later, ids.last(), shapes.last());
    }
}

/// The id that a translation gives stands for the type that the layout is translated to. The
/// state stays well formed, and what is there is kept.
pub proof fn law_translation_denotes(s: State, shape: Shape)
    requires
        s.wf(),
        intern(s, shape).0.fits(),
    ensures
        denotes(intern(s, shape).0, intern(s, shape).1, shape),
        intern(s, shape).0.wf(),
        s.extended_by(intern(s, shape).0),
    decreases shape,
{
    lemma_intern(s, shape);
    match shape {
        Shape::Void => lemma_define(s, Ty::Void),
        Shape::Bool => lemma_define(s, Ty::Bool),
        Shape::Integer(width, signedness) => lemma_define(s, Ty::Integer(width, signedness)),
        Shape::Float(width) => lemma_define(s, Ty::Float(width)),
        Shape::Adt { name, fields, field_offsets, field_names } => {
            let (t, field_types) = intern_all(s, fields);
            let ty = Ty::Adt { name, field_types, field_offsets, field_names };
            lemma_intern_all(s, fields);
            lemma_translations_denote(s, fields);
            lemma_define(t, ty);
            lemma_denote_all_kept(t, t.define(ty).0, field_types, fields);
        },
        Shape::Vector { element, count } => {
            let (t, id) = intern(s, *element);
            let ty = Ty::Vector { element: id, count };
            law_translation_denotes(s, *element);
            lemma_define(t, ty);
            law_denotes_kept(t, t.define(ty).0, id, *element);
        },
        Shape::Array { element, count } => {
            let (t, id) = intern(s, *element);
            let (u, length) = t.u32_constant(count);
            let ty = Ty::Array { element: id, count: length };
            law_translation_denotes(s, *element);
            lemma_u32_constant(t, count);
            lemma_define(u, ty);
            law_denotes_kept(t, u, id, *element);
            law_denotes_kept(u, u.define(ty).0, id, *element);
        },
        Shape::Pointer { storage_class, pointee } => {
            let (t, id) = intern(s, *pointee);
            let ty = Ty::Pointer { storage_class, pointee: id };
            law_translation_denotes(s, *pointee);
            lemma_define(t, ty);
            law_denotes_kept(t, t.define(ty).0, id, *pointee);
        },
    }
}

/// The same of several types that are translated one after the other.
pub proof fn lemma_translations_denote(s: State, shapes: Seq<Shape>)
    requires
        s.wf(),
        intern_all(s, shapes).0.fits(),
    ensures
        denote_all(intern_all(s, shapes).0, intern_all(s, shapes).1, shapes),
    decreases shapes,
{
    if shapes.len() > 0 {
        let (t, ids) = intern_all(s, shapes.drop_last());
        let (u, id) = intern(t, shapes.last());
        lemma_intern_grows(t, shapes.last());
        lemma_translations_denote(s, shapes.drop_last());
        lemma_intern_all(s, shapes.drop_last());
        law_translation_denotes(t, shapes.last());
        lemma_denote_all_kept(t, u, ids, shapes.drop_last());
        assert(ids.push(id).drop_last() =~= ids);
    }
}

/// An id stands for one type only, down to the last part of it.
pub proof fn law_denotes_one(s: State, id: Word, a: Shape, b: Shape)
    requires
        denotes(s, id, a),
        denotes(s, id, b),
    ensures
        a == b,
    decreases a,
{
    match (a, b) {
        (Shape::Adt { fields: f, .. }, Shape::Adt { fields: g, .. }) => {
            lemma_denote_one(s, s.type_defs[id]->field_types, f, g);
        },
        (Shape::Vector { element: e, .. }, Shape::Vector { element: f, .. }) => {
            law_denotes_one(s, s.type_defs[id]->Vector_element, *e, *f);
        },
        (Shape::Array { element: e, .. }, Shape::Array { element: f, .. }) => {
            law_denotes_one(s, s.type_defs[id]->Array_element, *e, *f);
        },
        (Shape::Pointer { pointee: p, .. }, Shape::Pointer { pointee: q, .. }) => {
            law_denotes_one(s, s.type_defs[id]->pointee, *p, *q);
        },
        _ => {},
    }
}

proof fn lemma_denote_one(s: State, ids: Seq<Word>, a: Seq<Shape>, b: Seq<Shape>)
    requires
        denote_all(s, ids, a),
        denote_all(s, ids, b),
    ensures
        a == b,
    decreases a,
{
    if a.len() > 0 {
        lemma_denote_one(s, ids.drop_last(), a.drop_last(), b.drop_last());
        law_denotes_one(s, ids.last(), a.last(), b.last());
        assert(a =~= a.drop_last().push(a.last()));
        assert(b =~= b.drop_last().push(b.last()));
    } else {
        assert(a =~= b);
    }
}

/// A type without arrays that is in the module is found again: its id is given out, and
/// nothing is added. For an array a new constant is emitted each time.
pub proof fn law_known_type_reused(s: State, id: Word, shape: Shape)
    requires
        s.wf(),
        denotes(s, id, shape),
        !has_array(shape),
    ensures
        intern(s, shape) == (s, id),
    decreases shape,
{
    match (shape, s.type_defs[id]) {
        (Shape::Adt { fields, .. }, Ty::Adt { field_types, .. }) => {
            lemma_known_types_reused(s, field_types, fields);
        },
        (Shape::Vector { element, .. }, Ty::Vector { element: e, .. }) => {
            law_known_type_reused(s, e, *element);
        },
        (Shape::Pointer { pointee, .. }, Ty::Pointer { pointee: p, .. }) => {
            law_known_type_reused(s, p, *pointee);
        },
        _ => {},
    }
}

proof fn lemma_known_types_reused(s: State, ids: Seq<Word>, shapes: Seq<Shape>)
    requires
        s.wf(),
        denote_all(s, ids, shapes),
        !any_array(shapes),
    ensures
        intern_all(s, shapes) == (s, ids),
    decreases shapes,
{
    if shapes.len() > 0 {
        lemma_known_types_reused(s, ids.drop_last(), shapes.drop_last());
        law_known_type_reused(s, ids.last(), shapes.last());
        assert(ids.drop_last().push(ids.last()) =~= ids);
    } else {
        assert(ids =~= seq![]);
    }
}

/// Translating the same type again, now or later, gives the same id, and adds nothing, if
/// the type contains no array.
pub proof fn law_translation_stable(s: State, later: State, shape: Shape)
    requires
        s.wf(),
        intern(s, shape).0.fits(),
        intern(s, shape).0.extended_by(later),
        later.wf(),
        !has_array(shape),
    ensures
        intern(later, shape) == (later, intern(s, shape).1),
{
    law_translation_denotes(s, shape);
    law_denotes_kept(intern(s, shape).0, later, intern(s, shape).1, shape);
    law_known_type_reused(later, intern(s, shape).1, shape);
}

/// What has no size in Rust has size 0.
pub proof fn law_zero_sized_size(s: State, id: Word)
    requires
        denotes(s, id, empty_struct()),
    ensures
        size_in_bits(s, s.type_defs[id]) == Some(0nat),
{
    let ty = s.type_defs[id];
    assert(denote_all(s, ty->field_types, seq![]));
    assert(sizes_at(s, ty->field_types, 0) == Some(0nat));
    assert(size_at(s, ty, 1) == Some(0nat));
    lemma_size_found(s, ty, 1);
}

/// Whether a vector occurs in a type.
pub open spec fn has_vector(shape: Shape) -> bool
    decreases shape,
{
    match shape {
        Shape::Adt { fields, .. } => any_vector(fields),
        Shape::Vector { .. } => true,
        Shape::Array { element, .. } => has_vector(*element),
        Shape::Pointer { pointee, .. } => has_vector(*pointee),
        _ => false,
    }
}

/// Whether a vector occurs in one of several types.
pub open spec fn any_vector(shapes: Seq<Shape>) -> bool
    decreases shapes,
{
    if shapes.len() == 0 {
        false
    } else {
        any_vector(shapes.drop_last()) || has_vector(shapes.last())
    }
}

/// Whether each struct in a type has as many names as fields, if it has names.
pub open spec fn names_match(shape: Shape) -> bool
    decreases shape,
{
    match shape {
        Shape::Adt { fields, field_names, .. } => (field_names is None || field_names->0.len()
            == fields.len()) && all_names_match(fields),
        Shape::Vector { element, .. } | Shape::Array { element, .. } => names_match(*element),
        Shape::Pointer { pointee, .. } => names_match(*pointee),
        _ => true,
    }
}

/// Whether the names match in all of several types.
pub open spec fn all_names_match(shapes: Seq<Shape>) -> bool
    decreases shapes,
{
    if shapes.len() == 0 {
        true
    } else {
        all_names_match(shapes.drop_last()) && names_match(shapes.last())
    }
}

proof fn lemma_printable(s: State, id: Word, shape: Shape) -> (depth: nat)
    requires
        denotes(s, id, shape),
        names_match(shape),
        !has_vector(shape),
    ensures
        display_id_at(s, id, depth) is Some,
        debug_id_at(s, id, depth) is Some,
    decreases shape,
{
    let ty = s.type_defs[id];
    match (shape, ty) {
        (Shape::Adt { fields, .. }, Ty::Adt { field_types, field_names, .. }) => {
            let inner = lemma_all_printable(s, field_types, fields);
            lemma_displays(s, field_types, inner);
            assert(display_at(s, ty, inner + 1) is Some);
            assert(debug_at(s, ty, inner + 1) is Some);
            inner + 1
        },
        (Shape::Array { element, .. }, Ty::Array { element: e, .. }) => {
            let inner = lemma_printable(s, e, *element);
            assert(display_at(s, ty, inner + 1) is Some);
            assert(debug_at(s, ty, inner + 1) is Some);
            inner + 1
        },
        (Shape::Pointer { pointee, .. }, Ty::Pointer { pointee: p, .. }) => {
            let inner = lemma_printable(s, p, *pointee);
            assert(display_at(s, ty, inner + 1) is Some);
            assert(debug_at(s, ty, inner + 1) is Some);
            inner + 1
        },
        _ => {
            assert(display_at(s, ty, 1) is Some);
            assert(debug_at(s, ty, 1) is Some);
            1
        },
    }
}

proof fn lemma_all_printable(s: State, ids: Seq<Word>, shapes: Seq<Shape>) -> (depth: nat)
    requires
        denote_all(s, ids, shapes),
        all_names_match(shapes),
        !any_vector(shapes),
    ensures
        ids.len() == shapes.len(),
        displays_at(s, ids, depth) is Some,
        debugs_at(s, ids, depth) is Some,
    decreases shapes,
{
    if shapes.len() == 0 {
        0
    } else {
        let one = lemma_all_printable(s, ids.drop_last(), shapes.drop_last());
        let two = lemma_printable(s, ids.last(), shapes.last());
        let depth = if one <= two {
            two
        } else {
            one
        };
        lemma_displays_deeper(s, ids.drop_last(), one, depth);
        lemma_debugs_deeper(s, ids.drop_last(), one, depth);
        lemma_display_id_deeper(s, ids.last(), two, depth);
        lemma_debug_id_deeper(s, ids.last(), two, depth);
        depth
    }
}

proof fn lemma_all_names_match(shapes: Seq<Shape>)
    requires
        forall|i: int| 0 <= i < shapes.len() ==> names_match(#[trigger] shapes[i]),
    ensures
        all_names_match(shapes),
    decreases shapes.len(),
{
    if shapes.len() > 0 {
        let rest = shapes.drop_last();
        assert forall|i: int| 0 <= i < rest.len() implies names_match(#[trigger] rest[i]) by {
            assert(rest[i] == shapes[i]);
        }
        lemma_all_names_match(rest);
        assert(names_match(shapes[shapes.len() - 1]));
    }
}

proof fn lemma_generic_names(scalar: Scalar, is_immediate: bool)
    ensures
        names_match(lower_generic(scalar, is_immediate)),
{
    reveal_with_fuel(names_match, 2);
}

proof fn lemma_lower_names(ty: TyAndLayout, is_immediate: bool)
    ensures
        lower(ty, is_immediate) matches Ok(shape) ==> names_match(shape),
    decreases ty, 3nat,
{
    if ty.is_zst {
        lemma_all_names_match(seq![]);
    } else {
        match ty.abi {
            Abi::Uninhabited => {},
            Abi::Scalar(scalar) => lemma_scalar_names(ty, scalar, is_immediate),
            Abi::ScalarPair(one, two) => {
                lemma_pair_names(ty, one, 0, is_immediate);
                lemma_pair_names(ty, two, 1, is_immediate);
                if lower(ty, is_immediate) is Ok {
                    lemma_all_names_match(lower(ty, is_immediate)->Ok_0->fields);
                }
            },
            Abi::Vector { element, .. } => lemma_scalar_names(ty, element, is_immediate),
            Abi::Aggregate => lemma_aggregate_names(ty),
        }
    }
}

proof fn lemma_scalar_names(ty: TyAndLayout, scalar: Scalar, is_immediate: bool)
    ensures
        lower_scalar(ty, scalar, is_immediate) matches Ok(shape) ==> names_match(shape),
    decreases ty, 2nat,
{
    lemma_generic_names(scalar, is_immediate);
    match ty.kind {
        TyKind::Ref { pointee } | TyKind::RawPtr { pointee } => lemma_lower_names(*pointee, false),
        TyKind::Adt { boxed: Some(pointer), .. } => lemma_lower_names(*pointer, false),
        _ => {},
    }
}

proof fn lemma_pair_names(ty: TyAndLayout, scalar: Scalar, index: nat, is_immediate: bool)
    ensures
        lower_pair(ty, scalar, index, is_immediate) matches Ok(shape) ==> names_match(shape),
    decreases ty, 1nat,
{
    lemma_generic_names(scalar, is_immediate);
    match ty.kind {
        TyKind::Ref { .. } | TyKind::RawPtr { .. } => if index < ty.field_layouts@.len() {
            lemma_lower_names(ty.field_layouts@[index as int], false);
        },
        TyKind::Adt { boxed: Some(pointer), .. } => lemma_pair_names(
            *pointer,
            scalar,
            index,
            is_immediate,
        ),
        _ => {},
    }
}

proof fn lemma_aggregate_names(ty: TyAndLayout)
    ensures
        lower_aggregate(ty) matches Ok(shape) ==> names_match(shape),
    decreases ty, 2nat,
{
    match ty.fields {
        FieldsShape::Primitive => {},
        FieldsShape::Union => {
            reveal_with_fuel(names_match, 2);
        },
        FieldsShape::Array { .. } => if ty.field_layouts@.len() > 0 {
            lemma_lower_names(ty.field_layouts@[0], false);
        },
        FieldsShape::Arbitrary { offsets, by_increasing_offset } => lemma_struct_names(
            ty,
            offsets@,
            by_increasing_offset@,
        ),
    }
}

proof fn lemma_struct_names(ty: TyAndLayout, offsets: Seq<u64>, order: Seq<usize>)
    ensures
        lower_struct(ty, offsets, order) matches Ok(shape) ==> names_match(shape),
    decreases ty, 1nat,
{
    match ty.kind {
        TyKind::Adt { variants, .. } => match ty.variants {
            Variants::Single { index } => if index < variants@.len() {
                let variant = variants@[index as int];
                if lower_fields(variant, offsets, order) is Ok {
                    let fields = lower_fields(variant, offsets, order)->Ok_0;
                    lemma_lower_fields(variant, offsets, order);
                    assert forall|i: int| 0 <= i < fields.len() implies names_match(
                        #[trigger] fields[i],
                    ) by {
                        let k = order[i] as int;
                        assert(decreases_to!(ty => variant));
                        lemma_lower_names(variant.fields@[k].layout, false);
                    }
                    lemma_all_names_match(fields);
                }
            },
            Variants::Multiple => {},
        },
        _ => {},
    }
}

/// The type that a layout is translated to can be printed in both ways, if it contains no
/// vector. The count of a vector is no constant of the module, so its value is not known
/// there.
pub proof fn law_translation_printable(s: State, ty: TyAndLayout, is_immediate: bool)
    requires
        s.wf(),
        lower(ty, is_immediate) is Ok,
        intern(s, lower(ty, is_immediate)->Ok_0).0.fits(),
        !has_vector(lower(ty, is_immediate)->Ok_0),
    ensures
        ({
            let (t, id) = intern(s, lower(ty, is_immediate)->Ok_0);
            display(t, t.type_defs[id]) is Some && debug_tree(t, t.type_defs[id]) is Some
        }),
{
    let shape = lower(ty, is_immediate)->Ok_0;
    let (t, id) = intern(s, shape);
    law_translation_denotes(s, shape);
    lemma_lower_names(ty, is_immediate);
    let depth = lemma_printable(t, id, shape);
    lemma_display_found(t, t.type_defs[id], depth);
    lemma_debug_found(t, t.type_defs[id], depth);
}

} // verus!
