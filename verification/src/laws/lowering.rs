//! Which types layouts are translated to.
use crate::layout::{
    Abi, FieldsShape, Primitive, Scalar, TyAndLayout, TyKind, Unsupported, Variants,
};
use crate::lower::{
    empty_struct, low32, lower, lower_aggregate, lower_fields, lower_generic, lower_pair,
    lower_scalar, lower_struct, Shape,
};
use crate::trans::lemma_lower_fields;
use vstd::prelude::*;

verus! {

/// Whether `bool` occurs in a type.
pub open spec fn has_bool(shape: Shape) -> bool
    decreases shape,
{
    match shape {
        Shape::Bool => true,
        Shape::Adt { fields, .. } => any_bool(fields),
        Shape::Vector { element, .. } | Shape::Array { element, .. } => has_bool(*element),
        Shape::Pointer { pointee, .. } => has_bool(*pointee),
        _ => false,
    }
}

/// Whether `bool` occurs in one of several types.
pub open spec fn any_bool(shapes: Seq<Shape>) -> bool
    decreases shapes,
{
    if shapes.len() == 0 {
        false
    } else {
        any_bool(shapes.drop_last()) || has_bool(shapes.last())
    }
}

/// Whether `bool` occurs in a type only as the type itself, as a field, or as an element of a
/// vector, and not further inside.
pub open spec fn bools_outermost(shape: Shape) -> bool {
    match shape {
        Shape::Bool => true,
        Shape::Adt { fields, .. } => forall|i: int|
            0 <= i < fields.len() ==> (#[trigger] fields[i]) is Bool || !has_bool(fields[i]),
        Shape::Vector { element, .. } => *element is Bool || !has_bool(*element),
        _ => !has_bool(shape),
    }
}

proof fn lemma_any_bool(shapes: Seq<Shape>)
    ensures
        any_bool(shapes) <==> exists|i: int| 0 <= i < shapes.len() && has_bool(
            #[trigger] shapes[i],
        ),
    decreases shapes.len(),
{
    if shapes.len() > 0 {
        let rest = shapes.drop_last();
        lemma_any_bool(rest);
        assert forall|i: int| 0 <= i < shapes.len() && has_bool(
            #[trigger] shapes[i],
        ) implies any_bool(shapes) by {
            if i < rest.len() {
                assert(rest[i] == shapes[i]);
            }
        }
        if any_bool(rest) {
            let i = choose|i: int| 0 <= i < rest.len() && has_bool(#[trigger] rest[i]);
            assert(shapes[i] == rest[i]);
        } else if has_bool(shapes.last()) {
            assert(has_bool(shapes[shapes.len() - 1]));
        }
    }
}

proof fn lemma_generic_bools(scalar: Scalar)
    ensures
        !has_bool(lower_generic(scalar, false)),
        lower_generic(scalar, true) is Bool || !has_bool(lower_generic(scalar, true)),
{
    reveal_with_fuel(has_bool, 2);
}

proof fn lemma_lower_bools(ty: TyAndLayout)
    ensures
        lower(ty, false) matches Ok(shape) ==> !has_bool(shape),
        lower(ty, true) matches Ok(shape) ==> bools_outermost(shape),
    decreases ty, 3nat,
{
    if ty.is_zst {
        lemma_any_bool(seq![]);
    } else {
        match ty.abi {
            Abi::Uninhabited => {},
            Abi::Scalar(scalar) => {
                lemma_scalar_bools(ty, scalar);
                if lower_scalar(ty, scalar, true) is Ok {
                    let shape = lower_scalar(ty, scalar, true)->Ok_0;
                    assert(shape is Bool || !has_bool(shape));
                    match shape {
                        Shape::Adt { fields, .. } => lemma_any_bool(fields),
                        _ => {},
                    }
                }
            },
            Abi::ScalarPair(one, two) => {
                lemma_pair_bools(ty, one, 0);
                lemma_pair_bools(ty, two, 1);
                if lower(ty, false) is Ok {
                    lemma_any_bool(lower(ty, false)->Ok_0->fields);
                }
            },
            Abi::Vector { element, .. } => lemma_scalar_bools(ty, element),
            Abi::Aggregate => {
                lemma_aggregate_bools(ty);
                if lower_aggregate(ty) is Ok {
                    match lower_aggregate(ty)->Ok_0 {
                        Shape::Adt { fields, .. } => lemma_any_bool(fields),
                        _ => {},
                    }
                }
            },
        }
    }
}

proof fn lemma_scalar_bools(ty: TyAndLayout, scalar: Scalar)
    ensures
        lower_scalar(ty, scalar, false) matches Ok(shape) ==> !has_bool(shape),
        lower_scalar(ty, scalar, true) matches Ok(shape) ==> shape is Bool || !has_bool(shape),
    decreases ty, 2nat,
{
    lemma_generic_bools(scalar);
    match ty.kind {
        TyKind::Ref { pointee } | TyKind::RawPtr { pointee } => lemma_lower_bools(*pointee),
        TyKind::Adt { boxed: Some(pointer), .. } => lemma_lower_bools(*pointer),
        _ => {},
    }
}

proof fn lemma_pair_bools(ty: TyAndLayout, scalar: Scalar, index: nat)
    ensures
        lower_pair(ty, scalar, index, false) matches Ok(shape) ==> !has_bool(shape),
        lower_pair(ty, scalar, index, true) matches Ok(shape) ==> shape is Bool || !has_bool(
            shape,
        ),
    decreases ty, 1nat,
{
    lemma_generic_bools(scalar);
    match ty.kind {
        TyKind::Ref { .. } | TyKind::RawPtr { .. } => if index < ty.field_layouts@.len() {
            lemma_lower_bools(ty.field_layouts@[index as int]);
        },
        TyKind::Adt { boxed: Some(pointer), .. } => lemma_pair_bools(*pointer, scalar, index),
        _ => {},
    }
}

proof fn lemma_aggregate_bools(ty: TyAndLayout)
    ensures
        lower_aggregate(ty) matches Ok(shape) ==> !has_bool(shape),
    decreases ty, 2nat,
{
    match ty.fields {
        FieldsShape::Primitive => {},
        FieldsShape::Union => {
            reveal_with_fuel(has_bool, 2);
        },
        FieldsShape::Array { .. } => if ty.field_layouts@.len() > 0 {
            lemma_lower_bools(ty.field_layouts@[0]);
        },
        FieldsShape::Arbitrary { offsets, by_increasing_offset } => lemma_struct_bools(
            ty,
            offsets@,
            by_increasing_offset@,
        ),
    }
}

proof fn lemma_struct_bools(ty: TyAndLayout, offsets: Seq<u64>, order: Seq<usize>)
    ensures
        lower_struct(ty, offsets, order) matches Ok(shape) ==> !has_bool(shape),
    decreases ty, 1nat,
{
    match ty.kind {
        TyKind::Adt { variants, .. } => match ty.variants {
            Variants::Single { index } => if index < variants@.len() {
                let variant = variants@[index as int];
                if lower_fields(variant, offsets, order) is Ok {
                    let fields = lower_fields(variant, offsets, order)->Ok_0;
                    lemma_lower_fields(variant, offsets, order);
                    assert forall|i: int| 0 <= i < fields.len() implies !has_bool(
                        #[trigger] fields[i],
                    ) by {
                        let k = order[i] as int;
                        assert(decreases_to!(ty => variant));
                        lemma_lower_bools(variant.fields@[k].layout);
                    }
                    lemma_any_bool(fields);
                }
            },
            Variants::Multiple => {},
        },
        _ => {},
    }
}

/// A value that is held in memory contains no `bool`: SPIR-V leaves open what a `bool` looks
/// like in memory.
pub proof fn law_no_bool_in_memory(ty: TyAndLayout)
    requires
        lower(ty, false) is Ok,
    ensures
        !has_bool(lower(ty, false)->Ok_0),
{
    lemma_lower_bools(ty);
}

/// A value that is immediate is a `bool`, or has `bool`s for parts, but what it points to or
/// what lies deeper in it contains none.
pub proof fn law_immediate_bools(ty: TyAndLayout)
    requires
        lower(ty, true) is Ok,
    ensures
        bools_outermost(lower(ty, true)->Ok_0),
{
    lemma_lower_bools(ty);
}

/// Whether a value is immediate makes no difference to an aggregate, nor to what has no size.
pub proof fn law_immediate_aggregate(ty: TyAndLayout)
    requires
        ty.is_zst || ty.abi is Aggregate,
    ensures
        lower(ty, true) == lower(ty, false),
{
}

/// A type without size is translated to a struct without fields, whatever else its layout
/// says.
pub proof fn law_zero_sized(ty: TyAndLayout, is_immediate: bool)
    requires
        ty.is_zst,
    ensures
        lower(ty, is_immediate) == Ok::<Shape, Unsupported>(empty_struct()),
{
}

/// An array is never translated to an array of length 0. Lengths of 2 to the power of 32 and
/// more are cut off.
pub proof fn law_arrays_not_empty(ty: TyAndLayout, is_immediate: bool)
    requires
        !ty.is_zst,
        ty.abi is Aggregate,
        ty.fields is Array && ty.fields->count <= u32::MAX || ty.fields is Union && ty.size
            <= u32::MAX,
        lower(ty, is_immediate) is Ok,
    ensures
        lower(ty, is_immediate)->Ok_0 is Array,
        lower(ty, is_immediate)->Ok_0->Array_count > 0,
        ty.fields is Array && ty.fields->count > 0 ==> lower(
            ty,
            is_immediate,
        )->Ok_0->Array_count == ty.fields->count,
        ty.fields is Union ==> lower(ty, is_immediate)->Ok_0->Array_count == ty.size,
{
}

/// A box is translated like the raw pointer to its contents.
pub proof fn law_box_like_pointer(ty: TyAndLayout, pointer: TyAndLayout, is_immediate: bool)
    requires
        !ty.is_zst,
        ty.kind matches TyKind::Adt { boxed: Some(inner), .. } && *inner == pointer,
    ensures
        ty.abi matches Abi::Scalar(scalar) && scalar.value == Primitive::Pointer ==> lower(
            ty,
            is_immediate,
        ) == lower(pointer, false),
        ty.abi matches Abi::ScalarPair(one, two) ==> lower_pair(ty, one, 0, is_immediate)
            == lower_pair(pointer, one, 0, is_immediate) && lower_pair(ty, two, 1, is_immediate)
            == lower_pair(pointer, two, 1, is_immediate),
{
}

/// The fields of a struct stand in the order of their offsets, each with its type, its
/// offset, and its name.
pub proof fn law_struct_fields(ty: TyAndLayout, is_immediate: bool)
    requires
        !ty.is_zst,
        ty.abi is Aggregate,
        ty.fields is Arbitrary,
        ty.kind is Adt,
        lower(ty, is_immediate) is Ok,
    ensures
        ({
            let order = ty.fields->by_increasing_offset@;
            let offsets = ty.fields->offsets@;
            let variant = ty.kind->variants@[ty.variants->index as int];
            let shape = lower(ty, is_immediate)->Ok_0;
            &&& ty.variants is Single
            &&& ty.variants->index < ty.kind->variants@.len()
            &&& shape is Adt
            &&& shape->name == Some(variant.name@)
            &&& shape->fields.len() == order.len()
            &&& shape->field_offsets is Some
            &&& shape->field_offsets->0.len() == order.len()
            &&& shape->field_names is Some
            &&& shape->field_names->0.len() == order.len()
            &&& forall|i: int|
                0 <= i < order.len() ==> (#[trigger] order[i]) < variant.fields@.len() && order[i]
                    < offsets.len() && lower(variant.fields@[order[i] as int].layout, false)
                    == Ok::<Shape, Unsupported>(shape->fields[i]) && shape->field_offsets->0[i]
                    == low32(offsets[order[i] as int]) && shape->field_names->0[i]
                    == variant.fields@[order[i] as int].name@
        }),
{
    let variant = ty.kind->variants@[ty.variants->index as int];
    let offsets = ty.fields->offsets@;
    let order = ty.fields->by_increasing_offset@;
    assert(lower(ty, is_immediate) == lower_aggregate(ty));
    assert(lower_aggregate(ty) == lower_struct(ty, offsets, order));
    assert(lower_fields(variant, offsets, order) is Ok);
    lemma_lower_fields(variant, offsets, order);
}

/// The offsets of the fields of a struct increase, if the layout gives the fields in the
/// order of their offsets, and the offsets fit 32 bits.
pub proof fn law_offsets_increase(ty: TyAndLayout, is_immediate: bool, i: int, j: int)
    requires
        !ty.is_zst,
        ty.abi is Aggregate,
        ty.fields is Arbitrary,
        ty.kind is Adt,
        lower(ty, is_immediate) is Ok,
        0 <= i <= j < ty.fields->by_increasing_offset@.len(),
        forall|k: int|
            0 <= k < ty.fields->offsets@.len() ==> (#[trigger] ty.fields->offsets@[k]) <= u32::MAX,
        forall|a: int, b: int|
            0 <= a <= b < ty.fields->by_increasing_offset@.len() ==> ty.fields->offsets@[(
            #[trigger] ty.fields->by_increasing_offset@[a]) as int] <= ty.fields->offsets@[(
            #[trigger] ty.fields->by_increasing_offset@[b]) as int],
    ensures
        lower(ty, is_immediate)->Ok_0->field_offsets->0[i] <= lower(
            ty,
            is_immediate,
        )->Ok_0->field_offsets->0[j],
{
    law_struct_fields(ty, is_immediate);
    let order = ty.fields->by_increasing_offset@;
    assert(order[i] < ty.fields->offsets@.len());
    assert(order[j] < ty.fields->offsets@.len());
}

} // verus!
