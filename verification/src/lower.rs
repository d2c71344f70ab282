//! Which SPIR-V type a layout is translated to.
use crate::layout::{
    Abi, FieldsShape, Primitive, Scalar, TyAndLayout, TyKind, Unsupported, VariantDef, Variants,
};
use crate::storage::StorageClass;
use vstd::prelude::*;

verus! {

/// A SPIR-V type without ids.
#[verifier::ext_equal]
pub enum Shape {
    Void,
    Bool,
    Integer(u32, bool),
    Float(u32),
    Adt {
        name: Option<Seq<char>>,
        fields: Seq<Shape>,
        field_offsets: Option<Seq<u32>>,
        field_names: Option<Seq<Seq<char>>>,
    },
    Vector { element: Box<Shape>, count: u32 },
    Array { element: Box<Shape>, count: u32 },
    Pointer { storage_class: StorageClass, pointee: Box<Shape> },
}

/// The low 32 bits of a number.
pub open spec fn low32(n: u64) -> u32 {
    (n % 0x1_0000_0000) as u32
}

/// A generic pointer.
pub open spec fn pointer_to(pointee: Shape) -> Shape {
    Shape::Pointer { storage_class: StorageClass::Generic, pointee: Box::new(pointee) }
}

/// A struct without fields.
pub open spec fn empty_struct() -> Shape {
    Shape::Adt { name: None, fields: seq![], field_offsets: None, field_names: None }
}

/// What a layout is translated to. A value that is immediate can be a `bool`.
pub open spec fn lower(ty: TyAndLayout, is_immediate: bool) -> Result<Shape, Unsupported>
    decreases ty, 3nat, 0nat,
{
    if ty.is_zst {
        Ok(empty_struct())
    } else {
        match ty.abi {
            Abi::Uninhabited => Err(Unsupported::Uninhabited),
            Abi::Scalar(scalar) => lower_scalar(ty, scalar, is_immediate),
            Abi::ScalarPair(one, two) => match lower_pair(ty, one, 0, is_immediate) {
                Ok(one) => match lower_pair(ty, two, 1, is_immediate) {
                    Ok(two) => Ok(
                        Shape::Adt {
                            name: Some(ty.name@),
                            fields: seq![one, two],
                            field_offsets: None,
                            field_names: None,
                        },
                    ),
                    Err(error) => Err(error),
                },
                Err(error) => Err(error),
            },
            Abi::Vector { element, count } => match lower_scalar(ty, element, is_immediate) {
                Ok(element) => Ok(
                    Shape::Vector { element: Box::new(element), count: low32(count) },
                ),
                Err(error) => Err(error),
            },
            Abi::Aggregate => lower_aggregate(ty),
        }
    }
}

/// What a scalar of a known type is translated to: a pointer keeps the type that it points
/// to.
pub open spec fn lower_scalar(ty: TyAndLayout, scalar: Scalar, is_immediate: bool) -> Result<
    Shape,
    Unsupported,
>
    decreases ty, 2nat, 0nat,
{
    if scalar.value == Primitive::Pointer {
        match ty.kind {
            TyKind::Ref { pointee } | TyKind::RawPtr { pointee } => match lower(*pointee, false) {
                Ok(pointee) => Ok(pointer_to(pointee)),
                Err(error) => Err(error),
            },
            TyKind::Adt { boxed: Some(pointer), .. } => lower(*pointer, false),
            TyKind::Adt { boxed: None, .. } => Ok(lower_generic(scalar, is_immediate)),
            _ => Err(Unsupported::PointerKind),
        }
    } else {
        Ok(lower_generic(scalar, is_immediate))
    }
}

/// What one half of a pair is translated to.
pub open spec fn lower_pair(
    ty: TyAndLayout,
    scalar: Scalar,
    index: nat,
    is_immediate: bool,
) -> Result<Shape, Unsupported>
    decreases ty, 1nat, 0nat,
{
    match ty.kind {
        TyKind::Ref { .. } | TyKind::RawPtr { .. } => if index < ty.field_layouts@.len() {
            lower(ty.field_layouts@[index as int], false)
        } else {
            Err(Unsupported::Missing)
        },
        TyKind::Adt { boxed: Some(pointer), .. } => lower_pair(
            *pointer,
            scalar,
            index,
            is_immediate,
        ),
        TyKind::Adt { boxed: None, .. } => Ok(lower_generic(scalar, is_immediate)),
        _ => Err(Unsupported::PointerKind),
    }
}

/// What a scalar is translated to if nothing else is known of it.
pub open spec fn lower_generic(scalar: Scalar, is_immediate: bool) -> Shape {
    if is_immediate && scalar.is_bool {
        Shape::Bool
    } else {
        match scalar.value {
            Primitive::Int(width, signedness) => Shape::Integer(width, signedness),
            Primitive::F32 => Shape::Float(32),
            Primitive::F64 => Shape::Float(64),
            Primitive::Pointer => pointer_to(Shape::Integer(8, false)),
        }
    }
}

/// What an aggregate is translated to. SPIR-V has no arrays of length 0, so that an empty
/// array becomes one of length 1.
pub open spec fn lower_aggregate(ty: TyAndLayout) -> Result<Shape, Unsupported>
    decreases ty, 2nat, 0nat,
{
    match ty.fields {
        FieldsShape::Primitive => Err(Unsupported::PrimitiveFields),
        FieldsShape::Union => if ty.size == 0 {
            Err(Unsupported::EmptyUnion)
        } else {
            Ok(
                Shape::Array {
                    element: Box::new(Shape::Integer(8, false)),
                    count: low32(ty.size),
                },
            )
        },
        FieldsShape::Array { count } => if ty.field_layouts@.len() == 0 {
            Err(Unsupported::Missing)
        } else {
            match lower(ty.field_layouts@[0], false) {
                Ok(element) => Ok(
                    Shape::Array {
                        element: Box::new(element),
                        count: low32(
                            if count == 0 {
                                1
                            } else {
                                count
                            },
                        ),
                    },
                ),
                Err(error) => Err(error),
            }
        },
        FieldsShape::Arbitrary { offsets, by_increasing_offset } => lower_struct(
            ty,
            offsets@,
            by_increasing_offset@,
        ),
    }
}

/// What a struct is translated to: its fields in the order of their offsets.
pub open spec fn lower_struct(ty: TyAndLayout, offsets: Seq<u64>, order: Seq<usize>) -> Result<
    Shape,
    Unsupported,
>
    decreases ty, 1nat, 0nat,
{
    match ty.kind {
        TyKind::Adt { variants, .. } => match ty.variants {
            Variants::Single { index } => if index < variants@.len() {
                match lower_fields(variants@[index as int], offsets, order) {
                    Ok(fields) => Ok(
                        Shape::Adt {
                            name: Some(variants@[index as int].name@),
                            fields,
                            field_offsets: Some(
                                Seq::new(
                                    order.len(),
                                    |i: int| low32(offsets[order[i] as int]),
                                ),
                            ),
                            field_names: Some(
                                Seq::new(
                                    order.len(),
                                    |i: int|
                                        variants@[index as int].fields@[order[i] as int].name@,
                                ),
                            ),
                        },
                    ),
                    Err(error) => Err(error),
                }
            } else {
                Err(Unsupported::Missing)
            },
            Variants::Multiple => Err(Unsupported::MultipleVariants),
        },
        TyKind::Foreign => Ok(Shape::Void),
        _ => Err(Unsupported::StructKind),
    }
}

/// What the fields of a variant are translated to, in the given order.
pub open spec fn lower_fields(
    variant: VariantDef,
    offsets: Seq<u64>,
    order: Seq<usize>,
) -> Result<Seq<Shape>, Unsupported>
    decreases variant, 0nat, order.len(),
{
    if order.len() == 0 {
        Ok(seq![])
    } else {
        match lower_fields(variant, offsets, order.drop_last()) {
            Ok(fields) => {
                let i = order.last() as int;
                if i < variant.fields@.len() {
                    match lower(variant.fields@[i].layout, false) {
                        Ok(field) => if i < offsets.len() {
                            Ok(fields.push(field))
                        } else {
                            Err(Unsupported::Missing)
                        },
                        Err(error) => Err(error),
                    }
                } else {
                    Err(Unsupported::Missing)
                }
            },
            Err(error) => Err(error),
        }
    }
}

} // verus!
