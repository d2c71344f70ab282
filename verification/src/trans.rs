//! Translation of layouts: the types are defined on the way.
use crate::codegen_cx::CodegenCx;
use crate::layout::{
    Abi, FieldDef, FieldsShape, Primitive, Scalar, TyAndLayout, TyKind, Unsupported, VariantDef,
    Variants,
};
use crate::lower::{
    low32, lower, lower_aggregate, lower_fields, lower_generic, lower_pair, lower_scalar,
    lower_struct, Shape,
};
use crate::spirv_type::{texts, SpirvType, Ty};
use crate::state::{lemma_define, lemma_extended_transitive, lemma_u32_constant, State};
use crate::storage::StorageClass;
use rspirv::spirv::Word;
use vstd::pervasive::unreached;
use vstd::prelude::*;

verus! {

/// Defining a type and everything that it is made of, the parts first. The length of an array
/// is a constant of its own.
pub open spec fn intern(s: State, shape: Shape) -> (State, Word)
    decreases shape,
{
    match shape {
        Shape::Void => s.define(Ty::Void),
        Shape::Bool => s.define(Ty::Bool),
        Shape::Integer(width, signedness) => s.define(Ty::Integer(width, signedness)),
        Shape::Float(width) => s.define(Ty::Float(width)),
        Shape::Adt { name, fields, field_offsets, field_names } => {
            let (t, field_types) = intern_all(s, fields);
            t.define(Ty::Adt { name, field_types, field_offsets, field_names })
        },
        Shape::Vector { element, count } => {
            let (t, element) = intern(s, *element);
            t.define(Ty::Vector { element, count })
        },
        Shape::Array { element, count } => {
            let (t, element) = intern(s, *element);
            let (u, count) = t.u32_constant(count);
            u.define(Ty::Array { element, count })
        },
        Shape::Pointer { storage_class, pointee } => {
            let (t, pointee) = intern(s, *pointee);
            t.define(Ty::Pointer { storage_class, pointee })
        },
    }
}

/// Defining several types, one after the other.
pub open spec fn intern_all(s: State, shapes: Seq<Shape>) -> (State, Seq<Word>)
    decreases shapes,
{
    if shapes.len() == 0 {
        (s, seq![])
    } else {
        let (t, ids) = intern_all(s, shapes.drop_last());
        let (u, id) = intern(t, shapes.last());
        (u, ids.push(id))
    }
}

/// Ids are only ever added.
pub proof fn lemma_intern_grows(s: State, shape: Shape)
    ensures
        s.module.next_id <= intern(s, shape).0.module.next_id,
    decreases shape,
{
    match shape {
        Shape::Adt { fields, .. } => {
            lemma_intern_all_grows(s, fields);
        },
        Shape::Vector { element, .. } | Shape::Array { element, .. } => {
            lemma_intern_grows(s, *element);
        },
        Shape::Pointer { pointee, .. } => {
            lemma_intern_grows(s, *pointee);
        },
        _ => {},
    }
}

/// Ids are only ever added, and each type gets one.
pub proof fn lemma_intern_all_grows(s: State, shapes: Seq<Shape>)
    ensures
        s.module.next_id <= intern_all(s, shapes).0.module.next_id,
        intern_all(s, shapes).1.len() == shapes.len(),
    decreases shapes,
{
    if shapes.len() > 0 {
        lemma_intern_all_grows(s, shapes.drop_last());
        lemma_intern_grows(intern_all(s, shapes.drop_last()).0, shapes.last());
    }
}

/// Interning keeps the state well formed and everything that is known, and the id that it
/// gives stands for a type.
pub proof fn lemma_intern(s: State, shape: Shape)
    requires
        s.wf(),
        intern(s, shape).0.fits(),
    ensures
        intern(s, shape).0.wf(),
        s.extended_by(intern(s, shape).0),
        intern(s, shape).0.module.block == s.module.block,
        intern(s, shape).0.type_defs.contains_key(intern(s, shape).1),
    decreases shape,
{
    match shape {
        Shape::Void => lemma_define(s, Ty::Void),
        Shape::Bool => lemma_define(s, Ty::Bool),
        Shape::Integer(width, signedness) => lemma_define(s, Ty::Integer(width, signedness)),
        Shape::Float(width) => lemma_define(s, Ty::Float(width)),
        Shape::Adt { name, fields, field_offsets, field_names } => {
            let (t, field_types) = intern_all(s, fields);
            let ty = Ty::Adt { name, field_types, field_offsets, field_names };
            lemma_intern_all(s, fields);
            lemma_define(t, ty);
            lemma_extended_transitive(s, t, t.define(ty).0);
        },
        Shape::Vector { element, count } => {
            let (t, id) = intern(s, *element);
            let ty = Ty::Vector { element: id, count };
            lemma_intern(s, *element);
            lemma_define(t, ty);
            lemma_extended_transitive(s, t, t.define(ty).0);
        },
        Shape::Array { element, count } => {
            let (t, id) = intern(s, *element);
            let (u, length) = t.u32_constant(count);
            let ty = Ty::Array { element: id, count: length };
            lemma_intern(s, *element);
            lemma_u32_constant(t, count);
            lemma_define(u, ty);
            lemma_extended_transitive(s, t, u);
            lemma_extended_transitive(s, u, u.define(ty).0);
        },
        Shape::Pointer { storage_class, pointee } => {
            let (t, id) = intern(s, *pointee);
            let ty = Ty::Pointer { storage_class, pointee: id };
            lemma_intern(s, *pointee);
            lemma_define(t, ty);
            lemma_extended_transitive(s, t, t.define(ty).0);
        },
    }
}

/// Interning several types, as in [`lemma_intern`].
pub proof fn lemma_intern_all(s: State, shapes: Seq<Shape>)
    requires
        s.wf(),
        intern_all(s, shapes).0.fits(),
    ensures
        intern_all(s, shapes).0.wf(),
        s.extended_by(intern_all(s, shapes).0),
        intern_all(s, shapes).0.module.block == s.module.block,
        intern_all(s, shapes).1.len() == shapes.len(),
    decreases shapes,
{
    if shapes.len() > 0 {
        let (t, ids) = intern_all(s, shapes.drop_last());
        lemma_intern_grows(t, shapes.last());
        lemma_intern_all(s, shapes.drop_last());
        lemma_intern(t, shapes.last());
        lemma_extended_transitive(s, t, intern(t, shapes.last()).0);
    }
}

/// Interning the first types is no more than interning all of them.
pub proof fn lemma_intern_all_take(s: State, shapes: Seq<Shape>, n: int)
    requires
        0 <= n <= shapes.len(),
    ensures
        intern_all(s, shapes.take(n)).0.module.next_id
            <= intern_all(s, shapes).0.module.next_id,
        n < shapes.len() ==> intern_all(s, shapes.take(n + 1)) == ({
            let (t, ids) = intern_all(s, shapes.take(n));
            let (u, id) = intern(t, shapes[n]);
            (u, ids.push(id))
        }),
    decreases shapes.len(),
{
    if n == shapes.len() {
        assert(shapes.take(n) =~= shapes);
    } else {
        assert(shapes.take(n + 1).drop_last() =~= shapes.take(n));
        assert(shapes.take(n + 1).last() == shapes[n]);
        lemma_intern_all_take(s, shapes.drop_last(), n);
        assert(shapes.drop_last().take(n) =~= shapes.take(n));
        lemma_intern_grows(intern_all(s, shapes.drop_last()).0, shapes.last());
    }
}

/// The low 32 bits of a number.
pub(crate) fn truncate(n: u64) -> (r: u32)
    ensures
        r == low32(n),
{
    assert(n as u32 == (n % 0x1_0000_0000) as u32) by (bit_vector);
    n as u32
}

/// Translates the layout of a value that is held in memory.
pub fn trans_type(cx: &mut CodegenCx, ty: &TyAndLayout) -> (r: Word)
    requires
        old(cx).wf(),
        lower(*ty, false) is Ok,
        intern(old(cx)@, lower(*ty, false)->Ok_0).0.fits(),
    ensures
        (final(cx)@, r) == intern(old(cx)@, lower(*ty, false)->Ok_0),
        final(cx).wf(),
    decreases *ty, 4nat,
{
    trans_type_impl(cx, ty, false)
}

/// Translates the layout of a value that is immediate.
pub fn trans_type_immediate(cx: &mut CodegenCx, ty: &TyAndLayout) -> (r: Word)
    requires
        old(cx).wf(),
        lower(*ty, true) is Ok,
        intern(old(cx)@, lower(*ty, true)->Ok_0).0.fits(),
    ensures
        (final(cx)@, r) == intern(old(cx)@, lower(*ty, true)->Ok_0),
        final(cx).wf(),
{
    trans_type_impl(cx, ty, true)
}

fn trans_type_impl(cx: &mut CodegenCx, ty: &TyAndLayout, is_immediate: bool) -> (r: Word)
    requires
        old(cx).wf(),
        lower(*ty, is_immediate) is Ok,
        intern(old(cx)@, lower(*ty, is_immediate)->Ok_0).0.fits(),
    ensures
        (final(cx)@, r) == intern(old(cx)@, lower(*ty, is_immediate)->Ok_0),
        final(cx).wf(),
    decreases *ty, 3nat,
{
    if ty.is_zst {
        // An empty struct is zero-sized.
        let empty = SpirvType::Adt {
            name: None,
            field_types: Vec::new(),
            field_offsets: None,
            field_names: None,
        };
        assert(empty@ =~= Ty::Adt {
            name: None,
            field_types: seq![],
            field_offsets: None,
            field_names: None,
        });
        assert(intern_all(cx@, seq![]) == (cx@, Seq::<Word>::empty()));
        return empty.def(cx);
    }
    let ghost s = cx@;
    match &ty.abi {
        Abi::Uninhabited => unreached(),
        Abi::Scalar(scalar) => trans_scalar_known_ty(cx, ty, scalar, is_immediate),
        Abi::ScalarPair(one, two) => {
            let ghost first = lower_pair(*ty, *one, 0, is_immediate)->Ok_0;
            let ghost second = lower_pair(*ty, *two, 1, is_immediate)->Ok_0;
            proof {
                lemma_intern_two(s, first, second);
                lemma_intern_grows(intern(s, first).0, second);
            }
            let one_spirv: Word = trans_scalar_pair(cx, ty, one, 0, is_immediate);
            let two_spirv: Word = trans_scalar_pair(cx, ty, two, 1, is_immediate);
            let mut field_types: Vec<Word> = Vec::new();
            field_types.push(one_spirv);
            field_types.push(two_spirv);
            let pair = SpirvType::Adt {
                name: Some(ty.name.clone()),
                field_types,
                field_offsets: None,
                field_names: None,
            };
            assert(field_types@ =~= seq![one_spirv, two_spirv]);
            pair.def(cx)
        },
        Abi::Vector { element, count } => {
            let elem_spirv: Word = trans_scalar_known_ty(cx, ty, element, is_immediate);
            SpirvType::Vector { element: elem_spirv, count: truncate(*count) }.def(cx)
        },
        Abi::Aggregate => trans_aggregate(cx, ty),
    }
}

/// Interning a pair of types.
proof fn lemma_intern_two(s: State, first: Shape, second: Shape)
    ensures
        intern_all(s, seq![first, second]) == ({
            let (t, one) = intern(s, first);
            let (u, two) = intern(t, second);
            (u, seq![one, two])
        }),
{
    let both = seq![first, second];
    assert(both.drop_last() =~= seq![first]);
    assert(seq![first].drop_last() =~= seq![]);
    let (t, one) = intern(s, first);
    let (u, two) = intern(t, second);
    assert(intern_all(s, seq![]) == (s, Seq::<Word>::empty()));
    assert(intern_all(s, seq![first]) == (t, Seq::<Word>::empty().push(one)));
    assert(Seq::<Word>::empty().push(one).push(two) =~= seq![one, two]);
}

fn trans_scalar_known_ty(
    cx: &mut CodegenCx,
    ty: &TyAndLayout,
    scalar: &Scalar,
    is_immediate: bool,
) -> (r: Word)
    requires
        old(cx).wf(),
        lower_scalar(*ty, *scalar, is_immediate) is Ok,
        intern(old(cx)@, lower_scalar(*ty, *scalar, is_immediate)->Ok_0).0.fits(),
    ensures
        (final(cx)@, r) == intern(old(cx)@, lower_scalar(*ty, *scalar, is_immediate)->Ok_0),
        final(cx).wf(),
    decreases *ty, 2nat,
{
    // When we know the ty, try to fill in the pointer type in case we have it, instead of
    // defaulting to pointer to u8.
    if scalar.value == Primitive::Pointer {
        match &ty.kind {
            TyKind::Ref { pointee } => {
                let pointee: Word = trans_type(cx, pointee);
                return SpirvType::Pointer { storage_class: StorageClass::Generic, pointee }.def(cx);
            },
            TyKind::RawPtr { pointee } => {
                let pointee: Word = trans_type(cx, pointee);
                return SpirvType::Pointer { storage_class: StorageClass::Generic, pointee }.def(cx);
            },
            TyKind::Adt { boxed: Some(pointer), .. } => {
                return trans_type(cx, pointer);
            },
            TyKind::Adt { boxed: None, .. } => {},
            _ => {
                return unreached();
            },
        }
    }
    trans_scalar_generic(cx, scalar, is_immediate)
}

fn trans_scalar_pair(
    cx: &mut CodegenCx,
    ty: &TyAndLayout,
    scalar: &Scalar,
    index: usize,
    is_immediate: bool,
) -> (r: Word)
    requires
        old(cx).wf(),
        lower_pair(*ty, *scalar, index as nat, is_immediate) is Ok,
        intern(old(cx)@, lower_pair(*ty, *scalar, index as nat, is_immediate)->Ok_0).0.fits(),
    ensures
        (final(cx)@, r) == intern(
            old(cx)@,
            lower_pair(*ty, *scalar, index as nat, is_immediate)->Ok_0,
        ),
        final(cx).wf(),
    decreases *ty, 2nat,
{
    match &ty.kind {
        TyKind::Ref { .. } | TyKind::RawPtr { .. } => {
            return trans_type(cx, &ty.field_layouts[index]);
        },
        TyKind::Adt { boxed: Some(pointer), .. } => {
            return trans_scalar_pair(cx, pointer, scalar, index, is_immediate);
        },
        TyKind::Adt { boxed: None, .. } => {},
        _ => {
            return unreached();
        },
    }
    trans_scalar_generic(cx, scalar, is_immediate)
}

fn trans_scalar_generic(cx: &mut CodegenCx, scalar: &Scalar, is_immediate: bool) -> (r: Word)
    requires
        old(cx).wf(),
        intern(old(cx)@, lower_generic(*scalar, is_immediate)).0.fits(),
    ensures
        (final(cx)@, r) == intern(old(cx)@, lower_generic(*scalar, is_immediate)),
        final(cx).wf(),
{
    if is_immediate && scalar.is_bool {
        return SpirvType::Bool.def(cx);
    }
    match scalar.value {
        Primitive::Int(width, signedness) => SpirvType::Integer(width, signedness).def(cx),
        Primitive::F32 => SpirvType::Float(32).def(cx),
        Primitive::F64 => SpirvType::Float(64).def(cx),
        Primitive::Pointer => {
            // The type that is pointed to is not known here. A pointer to u8 is emitted, and
            // cast to the right type where it is used.
            proof {
                reveal_with_fuel(intern, 2);
            }
            let pointee: Word = SpirvType::Integer(8, false).def(cx);
            SpirvType::Pointer { storage_class: StorageClass::Generic, pointee }.def(cx)
        },
    }
}

fn trans_aggregate(cx: &mut CodegenCx, ty: &TyAndLayout) -> (r: Word)
    requires
        old(cx).wf(),
        lower_aggregate(*ty) is Ok,
        intern(old(cx)@, lower_aggregate(*ty)->Ok_0).0.fits(),
    ensures
        (final(cx)@, r) == intern(old(cx)@, lower_aggregate(*ty)->Ok_0),
        final(cx).wf(),
    decreases *ty, 2nat,
{
    match &ty.fields {
        FieldsShape::Primitive => unreached(),
        FieldsShape::Union => {
            proof {
                reveal_with_fuel(intern, 2);
            }
            let byte: Word = SpirvType::Integer(8, false).def(cx);
            let count: Word = cx.constant_u32(truncate(ty.size)).def;
            SpirvType::Array { element: byte, count }.def(cx)
        },
        FieldsShape::Array { count } => {
            // SPIR-V doesn't support zero-sized arrays.
            let nonzero_count: u64 = if *count == 0 {
                1
            } else {
                *count
            };
            let element_type: Word = trans_type(cx, &ty.field_layouts[0]);
            let count_const: Word = cx.constant_u32(truncate(nonzero_count)).def;
            SpirvType::Array { element: element_type, count: count_const }.def(cx)
        },
        FieldsShape::Arbitrary { offsets, by_increasing_offset } => trans_struct(
            cx,
            ty,
            offsets,
            by_increasing_offset,
        ),
    }
}

/// What holds of the fields that are translated.
pub proof fn lemma_lower_fields(variant: VariantDef, offsets: Seq<u64>, order: Seq<usize>)
    requires
        lower_fields(variant, offsets, order) is Ok,
    ensures
        lower_fields(variant, offsets, order)->Ok_0.len() == order.len(),
        forall|i: int|
            0 <= i < order.len() ==> (#[trigger] order[i]) < variant.fields@.len() && order[i]
                < offsets.len() && lower(variant.fields@[order[i] as int].layout, false) == Ok::<
                Shape,
                Unsupported,
            >(lower_fields(variant, offsets, order)->Ok_0[i]),
    decreases order.len(),
{
    if order.len() > 0 {
        let rest = order.drop_last();
        lemma_lower_fields(variant, offsets, rest);
        let fields = lower_fields(variant, offsets, order)->Ok_0;
        assert forall|i: int| 0 <= i < order.len() implies (#[trigger] order[i])
            < variant.fields@.len() && order[i] < offsets.len() && lower(
            variant.fields@[order[i] as int].layout,
            false,
        ) == Ok::<Shape, Unsupported>(fields[i]) by {
            if i < rest.len() {
                assert(rest[i] == order[i]);
                assert(lower_fields(variant, offsets, rest)->Ok_0[i] == fields[i]);
            }
        }
    }
}

fn trans_struct(
    cx: &mut CodegenCx,
    ty: &TyAndLayout,
    offsets: &Vec<u64>,
    order: &Vec<usize>,
) -> (r: Word)
    requires
        old(cx).wf(),
        lower_struct(*ty, offsets@, order@) is Ok,
        intern(old(cx)@, lower_struct(*ty, offsets@, order@)->Ok_0).0.fits(),
    ensures
        (final(cx)@, r) == intern(old(cx)@, lower_struct(*ty, offsets@, order@)->Ok_0),
        final(cx).wf(),
    decreases *ty, 1nat,
{
    let variants: &Vec<VariantDef> = match &ty.kind {
        TyKind::Adt { variants, .. } => variants,
        // "An unsized FFI type that is opaque to Rust"
        TyKind::Foreign => {
            return SpirvType::Void.def(cx);
        },
        _ => {
            return unreached();
        },
    };
    let variant: &VariantDef = match ty.variants {
        Variants::Single { index } => &variants[index],
        Variants::Multiple => {
            return unreached();
        },
    };
    let ghost s = cx@;
    let ghost fields = lower_fields(*variant, offsets@, order@)->Ok_0;
    let ghost all_offsets = Seq::new(order@.len(), |i: int| low32(offsets@[order@[i] as int]));
    let ghost all_names = Seq::new(
        order@.len(),
        |i: int| variant.fields@[order@[i] as int].name@,
    );
    proof {
        lemma_lower_fields(*variant, offsets@, order@);
        assert(fields.take(0) =~= seq![]);
    }
    assert(decreases_to!(*ty => *variant));
    let mut field_types: Vec<Word> = Vec::new();
    let mut field_offsets: Vec<u32> = Vec::new();
    let mut field_names: Vec<String> = Vec::new();
    for k in 0..order.len()
        invariant
            decreases_to!(*ty => *variant),
            cx.wf(),
            intern_all(s, fields).0.fits(),
            fields.len() == order@.len(),
            forall|i: int|
                0 <= i < order@.len() ==> (#[trigger] order@[i]) < variant.fields@.len()
                    && order@[i] < offsets@.len() && lower(
                    variant.fields@[order@[i] as int].layout,
                    false,
                ) == Ok::<Shape, Unsupported>(fields[i]),
            all_offsets == Seq::new(
                order@.len(),
                |i: int| low32(offsets@[order@[i] as int]),
            ),
            all_names == Seq::new(
                order@.len(),
                |i: int| variant.fields@[order@[i] as int].name@,
            ),
            (cx@, field_types@) == intern_all(s, fields.take(k as int)),
            field_offsets@ == all_offsets.take(k as int),
            texts(field_names@) == all_names.take(k as int),
    {
        proof {
            lemma_intern_all_take(s, fields, k as int);
            lemma_intern_all_take(s, fields, k + 1);
        }
        let i: usize = order[k];
        let field: &FieldDef = &variant.fields[i];
        field_types.push(trans_type(cx, &field.layout));
        field_offsets.push(truncate(offsets[i]));
        let ghost names = field_names@;
        field_names.push(field.name.clone());
        assert(field_offsets@ =~= all_offsets.take(k + 1));
        assert(texts(field_names@) =~= texts(names).push(field.name@));
        assert(all_names.take(k + 1) =~= all_names.take(k as int).push(all_names[k as int]));
    }
    assert(fields.take(order@.len() as int) =~= fields);
    assert(all_offsets.take(order@.len() as int) =~= all_offsets);
    assert(all_names.take(order@.len() as int) =~= all_names);
    let adt = SpirvType::Adt {
        name: Some(variant.name.clone()),
        field_types,
        field_offsets: Some(field_offsets),
        field_names: Some(field_names),
    };
    adt.def(cx)
}

} // verus!
