//! What each kind of layout is translated to, said of the layout itself.
use crate::check::{found, lemma_shapes, shape_of, shapes_of, Lowered};
use crate::laws::lowering::law_struct_fields;
use crate::layout::{Abi, Primitive, Scalar, TyAndLayout, TyKind, Unsupported, VariantDef};
use crate::lower::{
    lower, lower_aggregate, lower_fields, lower_pair, lower_scalar, lower_struct, Shape,
};
use crate::storage::StorageClass;
use crate::trans::lemma_lower_fields;
use vstd::prelude::*;

verus! {

/// What has no size is a struct without name and fields, before anything else is looked at.
/// What has no values is refused.
pub proof fn law_zero_sized_or_uninhabited(ty: TyAndLayout, is_immediate: bool)
    ensures
        ty.is_zst ==> lower(ty, is_immediate) == Ok::<Shape, Unsupported>(
            Shape::Adt {
                name: None,
                fields: Seq::<Shape>::empty(),
                field_offsets: None,
                field_names: None,
            },
        ),
        !ty.is_zst && ty.abi is Uninhabited ==> lower(ty, is_immediate) == Err::<
            Shape,
            Unsupported,
        >(Unsupported::Uninhabited),
{
}

/// A scalar that is no pointer is a `bool` if it is immediate and one, and an integer or float
/// of its width otherwise, whatever kind of type it is.
pub proof fn law_scalar(ty: TyAndLayout, scalar: Scalar, is_immediate: bool)
    requires
        !ty.is_zst,
        ty.abi == Abi::Scalar(scalar),
        !(scalar.value is Pointer),
    ensures
        lower(ty, is_immediate) is Ok,
        lower(ty, is_immediate)->Ok_0 is Bool <==> is_immediate && scalar.is_bool,
        !(is_immediate && scalar.is_bool) ==> match scalar.value {
            Primitive::Int(width, signedness) => lower(ty, is_immediate)->Ok_0 == Shape::Integer(
                width,
                signedness,
            ),
            Primitive::F32 => lower(ty, is_immediate)->Ok_0 == Shape::Float(32),
            Primitive::F64 => lower(ty, is_immediate)->Ok_0 == Shape::Float(64),
            Primitive::Pointer => true,
        },
{
}

/// A reference or raw pointer is a generic pointer to what its pointee is in memory, whatever
/// that is. It is refused exactly if its pointee is, and for the same reason.
pub proof fn law_pointer(
    ty: TyAndLayout,
    scalar: Scalar,
    pointee: TyAndLayout,
    is_immediate: bool,
)
    requires
        !ty.is_zst,
        ty.abi == Abi::Scalar(scalar),
        scalar.value is Pointer,
        ty.kind == (TyKind::Ref { pointee: Box::new(pointee) }) || ty.kind == (TyKind::RawPtr {
            pointee: Box::new(pointee),
        }),
    ensures
        lower(pointee, false) is Ok ==> lower(ty, is_immediate) is Ok,
        lower(pointee, false) is Ok ==> lower(ty, is_immediate)->Ok_0 == (Shape::Pointer {
            storage_class: StorageClass::Generic,
            pointee: Box::new(lower(pointee, false)->Ok_0),
        }),
        lower(pointee, false) is Err ==> lower(ty, is_immediate) == lower(pointee, false),
{
}

/// A pointer of another kind: a box is what the raw pointer to its contents is in memory. In
/// another struct, enum, or union, it points to bytes. All other kinds are refused.
pub proof fn law_other_pointer(ty: TyAndLayout, scalar: Scalar, is_immediate: bool)
    requires
        !ty.is_zst,
        ty.abi == Abi::Scalar(scalar),
        scalar.value is Pointer,
        !(ty.kind is Ref),
        !(ty.kind is RawPtr),
    ensures
        ty.kind is Adt && ty.kind->boxed is Some ==> lower(ty, is_immediate) == lower(
            *ty.kind->boxed->0,
            false,
        ),
        ty.kind is Adt && ty.kind->boxed is None ==> lower(ty, is_immediate) == Ok::<
            Shape,
            Unsupported,
        >(
            if is_immediate && scalar.is_bool {
                Shape::Bool
            } else {
                Shape::Pointer {
                    storage_class: StorageClass::Generic,
                    pointee: Box::new(Shape::Integer(8, false)),
                }
            },
        ),
        !(ty.kind is Adt) ==> lower(ty, is_immediate) == Err::<Shape, Unsupported>(
            Unsupported::PointerKind,
        ),
{
}

/// Whether a type is that of one half of a pair, of which nothing but the scalar is known.
pub open spec fn is_half(half: Shape, scalar: Scalar, is_immediate: bool) -> bool {
    if is_immediate && scalar.is_bool {
        half is Bool
    } else {
        match scalar.value {
            Primitive::Int(width, signedness) => half == Shape::Integer(width, signedness),
            Primitive::F32 => half == Shape::Float(32),
            Primitive::F64 => half == Shape::Float(64),
            Primitive::Pointer => half == (Shape::Pointer {
                storage_class: StorageClass::Generic,
                pointee: Box::new(Shape::Integer(8, false)),
            }),
        }
    }
}

/// A pair is a struct of two fields, named like the type, without offsets and field names.
/// Each field is the one of its own scalar, and each is a `bool` exactly if it is immediate
/// and one.
pub proof fn law_pair(ty: TyAndLayout, one: Scalar, two: Scalar, is_immediate: bool)
    requires
        !ty.is_zst,
        ty.abi == Abi::ScalarPair(one, two),
        ty.kind is Adt,
        ty.kind->boxed is None,
    ensures
        lower(ty, is_immediate) is Ok,
        ({
            let shape = lower(ty, is_immediate)->Ok_0;
            &&& shape is Adt
            &&& shape->name == Some(ty.name@)
            &&& shape->field_offsets is None
            &&& shape->field_names is None
            &&& shape->fields.len() == 2
            &&& is_half(shape->fields[0], one, is_immediate)
            &&& is_half(shape->fields[1], two, is_immediate)
            &&& shape->fields[0] is Bool <==> is_immediate && one.is_bool
            &&& shape->fields[1] is Bool <==> is_immediate && two.is_bool
        }),
{
}

/// A wide reference or raw pointer is a struct of what its two fields are in memory. If one of
/// them is not there, or is refused, so is the pointer, and the first of them gives the
/// reason.
pub proof fn law_wide_pointer(ty: TyAndLayout, is_immediate: bool)
    requires
        !ty.is_zst,
        ty.abi is ScalarPair,
        ty.kind is Ref || ty.kind is RawPtr,
    ensures
        ({
            let parts = ty.field_layouts@;
            let result = lower(ty, is_immediate);
            if parts.len() == 0 {
                result == Err::<Shape, Unsupported>(Unsupported::Missing)
            } else if lower(parts[0], false) is Err {
                result == lower(parts[0], false)
            } else if parts.len() == 1 {
                result == Err::<Shape, Unsupported>(Unsupported::Missing)
            } else if lower(parts[1], false) is Err {
                result == lower(parts[1], false)
            } else {
                &&& result is Ok
                &&& result->Ok_0 is Adt
                &&& result->Ok_0->name == Some(ty.name@)
                &&& result->Ok_0->field_offsets is None
                &&& result->Ok_0->field_names is None
                &&& result->Ok_0->fields.len() == 2
                &&& result->Ok_0->fields[0] == lower(parts[0], false)->Ok_0
                &&& result->Ok_0->fields[1] == lower(parts[1], false)->Ok_0
            }
        }),
{
}

/// A box that is passed as a pair is translated like the pointer to its contents, passed as
/// the same pair and under the box's name. Pairs of other kinds are refused.
pub proof fn law_other_pair(ty: TyAndLayout, is_immediate: bool)
    requires
        !ty.is_zst,
        ty.abi is ScalarPair,
    ensures
        ty.kind is Adt && ty.kind->boxed is Some ==> lower(ty, is_immediate) == lower(
            (TyAndLayout { name: ty.name, is_zst: false, abi: ty.abi, ..*ty.kind->boxed->0 }),
            is_immediate,
        ),
        ty.kind is Foreign || ty.kind is Other ==> lower(ty, is_immediate) == Err::<
            Shape,
            Unsupported,
        >(Unsupported::PointerKind),
{
    if ty.kind is Adt && ty.kind->boxed is Some {
        let inner = *ty.kind->boxed->0;
        let renamed = TyAndLayout { name: ty.name, is_zst: false, abi: ty.abi, ..inner };
        let one = ty.abi->ScalarPair_0;
        let two = ty.abi->ScalarPair_1;
        assert(lower_pair(ty, one, 0, is_immediate) == lower_pair(inner, one, 0, is_immediate));
        assert(lower_pair(ty, two, 1, is_immediate) == lower_pair(inner, two, 1, is_immediate));
        lemma_pair_same(inner, renamed, one, 0, is_immediate);
        lemma_pair_same(inner, renamed, two, 1, is_immediate);
    }
}

/// Only kind and fields of a layout count for a half of a pair.
proof fn lemma_pair_same(
    a: TyAndLayout,
    b: TyAndLayout,
    scalar: Scalar,
    index: nat,
    is_immediate: bool,
)
    requires
        a.kind == b.kind,
        a.field_layouts == b.field_layouts,
    ensures
        lower_pair(a, scalar, index, is_immediate) == lower_pair(b, scalar, index, is_immediate),
{
}

/// A vector is a vector of what its element alone would be, with its count cut off at 32 bits.
/// It is refused exactly if the element is.
pub proof fn law_vector(ty: TyAndLayout, element: Scalar, count: u64, is_immediate: bool)
    requires
        !ty.is_zst,
        ty.abi == (Abi::Vector { element, count }),
    ensures
        ({
            let alone = lower((TyAndLayout { abi: Abi::Scalar(element), ..ty }), is_immediate);
            let result = lower(ty, is_immediate);
            if alone is Ok {
                &&& result is Ok
                &&& result->Ok_0 is Vector
                &&& *result->Ok_0->Vector_element == alone->Ok_0
                &&& result->Ok_0->Vector_count == count % 0x1_0000_0000
            } else {
                result == alone
            }
        }),
{
    let single = TyAndLayout { abi: Abi::Scalar(element), ..ty };
    assert(lower_scalar(ty, element, is_immediate) == lower_scalar(
        single,
        element,
        is_immediate,
    ));
}

/// A union is an array of as many bytes as it has. An aggregate that is primitive is refused,
/// and so is a union without size.
pub proof fn law_union(ty: TyAndLayout, is_immediate: bool)
    requires
        !ty.is_zst,
        ty.abi is Aggregate,
    ensures
        ty.fields is Primitive ==> lower(ty, is_immediate) == Err::<Shape, Unsupported>(
            Unsupported::PrimitiveFields,
        ),
        ty.fields is Union && ty.size == 0 ==> lower(ty, is_immediate) == Err::<
            Shape,
            Unsupported,
        >(Unsupported::EmptyUnion),
        ty.fields is Union && ty.size != 0 ==> {
            &&& lower(ty, is_immediate) is Ok
            &&& lower(ty, is_immediate)->Ok_0 is Array
            &&& *lower(ty, is_immediate)->Ok_0->Array_element == Shape::Integer(8, false)
            &&& lower(ty, is_immediate)->Ok_0->Array_count == ty.size % 0x1_0000_0000
        },
{
}

/// An array is an array of what its element is in memory, with its count cut off at 32 bits,
/// and 1 if it is 0. It is refused exactly if the element is not there, or is refused.
pub proof fn law_array(ty: TyAndLayout, is_immediate: bool)
    requires
        !ty.is_zst,
        ty.abi is Aggregate,
        ty.fields is Array,
    ensures
        ({
            let result = lower(ty, is_immediate);
            if ty.field_layouts@.len() == 0 {
                result == Err::<Shape, Unsupported>(Unsupported::Missing)
            } else if lower(ty.field_layouts@[0], false) is Err {
                result == lower(ty.field_layouts@[0], false)
            } else {
                &&& result is Ok
                &&& result->Ok_0 is Array
                &&& *result->Ok_0->Array_element == lower(ty.field_layouts@[0], false)->Ok_0
                &&& ty.fields->count == 0 ==> result->Ok_0->Array_count == 1
                &&& ty.fields->count != 0 ==> result->Ok_0->Array_count == ty.fields->count
                    % 0x1_0000_0000
            }
        }),
{
}

/// Whether a field can be translated as a part of a variant.
pub open spec fn field_found(variant: VariantDef, offsets: Seq<u64>, field: usize) -> bool {
    &&& field < variant.fields@.len()
    &&& field < offsets.len()
    &&& lower(variant.fields@[field as int].layout, false) is Ok
}

proof fn lemma_fields_found(variant: VariantDef, offsets: Seq<u64>, order: Seq<usize>)
    ensures
        lower_fields(variant, offsets, order) is Ok <==> forall|i: int|
            0 <= i < order.len() ==> field_found(variant, offsets, #[trigger] order[i]),
    decreases order.len(),
{
    if order.len() > 0 {
        let rest = order.drop_last();
        lemma_fields_found(variant, offsets, rest);
        if lower_fields(variant, offsets, order) is Ok {
            lemma_lower_fields(variant, offsets, order);
        }
        assert(forall|i: int| 0 <= i < rest.len() ==> rest[i] == order[i]);
        assert(order.last() == order[order.len() - 1]);
        if forall|i: int|
            0 <= i < order.len() ==> field_found(variant, offsets, #[trigger] order[i]) {
            assert forall|i: int| 0 <= i < rest.len() implies field_found(
                variant,
                offsets,
                #[trigger] rest[i],
            ) by {
                assert(field_found(variant, offsets, order[i]));
            }
            assert(field_found(variant, offsets, order[order.len() - 1]));
        }
    }
}

/// Where the first fields are found, and the next one is not, that one gives the reason.
proof fn lemma_first_missing(variant: VariantDef, offsets: Seq<u64>, order: Seq<usize>, k: int)
    requires
        0 <= k < order.len(),
        !field_found(variant, offsets, order[k]),
        forall|i: int| 0 <= i < k ==> field_found(variant, offsets, #[trigger] order[i]),
    ensures
        lower_fields(variant, offsets, order) == Err::<Seq<Shape>, Unsupported>(
            if order[k] < variant.fields@.len() && lower(
                variant.fields@[order[k] as int].layout,
                false,
            ) is Err {
                lower(variant.fields@[order[k] as int].layout, false)->Err_0
            } else {
                Unsupported::Missing
            },
        ),
    decreases order.len(),
{
    let rest = order.drop_last();
    if k < rest.len() {
        assert forall|i: int| 0 <= i < k implies field_found(
            variant,
            offsets,
            #[trigger] rest[i],
        ) by {
            assert(field_found(variant, offsets, order[i]));
        }
        lemma_first_missing(variant, offsets, rest, k);
    } else {
        assert forall|i: int| 0 <= i < rest.len() implies field_found(
            variant,
            offsets,
            #[trigger] rest[i],
        ) by {
            assert(field_found(variant, offsets, order[i]));
        }
        lemma_fields_found(variant, offsets, rest);
    }
}

/// A struct has a field for each entry of the order that the layout gives, in that order: its
/// type is what the field with that number is in memory, its offset and its name are those of
/// that field. The struct is named like the variant.
pub proof fn law_struct(ty: TyAndLayout, is_immediate: bool)
    requires
        !ty.is_zst,
        ty.abi is Aggregate,
        ty.fields is Arbitrary,
        ty.kind is Adt,
        ty.variants is Single,
        ty.variants->index < ty.kind->variants@.len(),
        forall|i: int|
            0 <= i < ty.fields->by_increasing_offset@.len() ==> field_found(
                ty.kind->variants@[ty.variants->index as int],
                ty.fields->offsets@,
                #[trigger] ty.fields->by_increasing_offset@[i],
            ),
    ensures
        lower(ty, is_immediate) is Ok,
        ({
            let order = ty.fields->by_increasing_offset@;
            let variant = ty.kind->variants@[ty.variants->index as int];
            let shape = lower(ty, is_immediate)->Ok_0;
            &&& shape is Adt
            &&& shape->name == Some(variant.name@)
            &&& shape->field_offsets is Some
            &&& shape->field_names is Some
            &&& shape->fields.len() == order.len()
            &&& shape->field_offsets->0.len() == order.len()
            &&& shape->field_names->0.len() == order.len()
            &&& forall|i: int|
                #![trigger shape->fields[i]]
                #![trigger shape->field_offsets->0[i]]
                #![trigger shape->field_names->0[i]]
                0 <= i < order.len() ==> {
                    let field = variant.fields@[order[i] as int];
                    &&& lower(field.layout, false) == Ok::<Shape, Unsupported>(shape->fields[i])
                    &&& shape->field_names->0[i] == field.name@
                    &&& shape->field_offsets->0[i] == ty.fields->offsets@[order[i] as int]
                        % 0x1_0000_0000
                }
        }),
{
    let order = ty.fields->by_increasing_offset@;
    let offsets = ty.fields->offsets@;
    let variant = ty.kind->variants@[ty.variants->index as int];
    lemma_fields_found(variant, offsets, order);
    assert(lower(ty, is_immediate) == lower_aggregate(ty));
    assert(lower_aggregate(ty) == lower_struct(ty, offsets, order));
    law_struct_fields(ty, is_immediate);
    let shape = lower(ty, is_immediate)->Ok_0;
    assert forall|i: int| 0 <= i < order.len() implies ({
        let field = variant.fields@[order[i] as int];
        &&& lower(field.layout, false) == Ok::<Shape, Unsupported>(#[trigger] shape->fields[i])
        &&& shape->field_names->0[i] == field.name@
        &&& shape->field_offsets->0[i] == offsets[order[i] as int] % 0x1_0000_0000
    }) by {
        assert(order[i] < variant.fields@.len());
    }
}

/// A struct is refused if one of its fields is: the first such field, in the order that the
/// layout gives, gives the reason.
pub proof fn law_struct_refused(ty: TyAndLayout, is_immediate: bool, k: int)
    requires
        !ty.is_zst,
        ty.abi is Aggregate,
        ty.fields is Arbitrary,
        ty.kind is Adt,
        ty.variants is Single,
        ty.variants->index < ty.kind->variants@.len(),
        0 <= k < ty.fields->by_increasing_offset@.len(),
        !field_found(
            ty.kind->variants@[ty.variants->index as int],
            ty.fields->offsets@,
            ty.fields->by_increasing_offset@[k],
        ),
        forall|i: int|
            0 <= i < k ==> field_found(
                ty.kind->variants@[ty.variants->index as int],
                ty.fields->offsets@,
                #[trigger] ty.fields->by_increasing_offset@[i],
            ),
    ensures
        ({
            let fields = ty.kind->variants@[ty.variants->index as int].fields@;
            let field = ty.fields->by_increasing_offset@[k] as int;
            if field < fields.len() && lower(fields[field].layout, false) is Err {
                lower(ty, is_immediate) == lower(fields[field].layout, false)
            } else {
                lower(ty, is_immediate) == Err::<Shape, Unsupported>(Unsupported::Missing)
            }
        }),
{
    let order = ty.fields->by_increasing_offset@;
    let offsets = ty.fields->offsets@;
    let variant = ty.kind->variants@[ty.variants->index as int];
    lemma_first_missing(variant, offsets, order, k);
    assert(lower(ty, is_immediate) == lower_aggregate(ty));
    assert(lower_aggregate(ty) == lower_struct(ty, offsets, order));
}

/// A struct of a foreign type is nothing. Other kinds, several variants, and a variant that is
/// not there are refused.
pub proof fn law_no_struct(ty: TyAndLayout, is_immediate: bool)
    requires
        !ty.is_zst,
        ty.abi is Aggregate,
        ty.fields is Arbitrary,
    ensures
        ty.kind is Foreign ==> lower(ty, is_immediate) == Ok::<Shape, Unsupported>(Shape::Void),
        !(ty.kind is Foreign) && !(ty.kind is Adt) ==> lower(ty, is_immediate) == Err::<
            Shape,
            Unsupported,
        >(Unsupported::StructKind),
        ty.kind is Adt && ty.variants is Multiple ==> lower(ty, is_immediate) == Err::<
            Shape,
            Unsupported,
        >(Unsupported::MultipleVariants),
        ty.kind is Adt && ty.variants is Single && ty.variants->index
            >= ty.kind->variants@.len() ==> lower(ty, is_immediate) == Err::<Shape, Unsupported>(
            Unsupported::Missing,
        ),
{
    let order = ty.fields->by_increasing_offset@;
    let offsets = ty.fields->offsets@;
    assert(lower(ty, is_immediate) == lower_aggregate(ty));
    assert(lower_aggregate(ty) == lower_struct(ty, offsets, order));
}

/// What a layout was found to be translated to has the same parts as a mathematical value.
pub proof fn law_lowered_view(ty: Lowered)
    ensures
        ty is Void <==> ty@ is Void,
        ty is Bool <==> ty@ is Bool,
        ty is Integer <==> ty@ is Integer,
        ty is Float <==> ty@ is Float,
        ty is Adt <==> ty@ is Adt,
        ty is Vector <==> ty@ is Vector,
        ty is Array <==> ty@ is Array,
        ty is Pointer <==> ty@ is Pointer,
        ty is Integer ==> ty@->Integer_0 == ty->Integer_0 && ty@->Integer_1 == ty->Integer_1,
        ty is Float ==> ty@->Float_0 == ty->Float_0,
        ty is Vector ==> *ty@->Vector_element == (*ty->Vector_element)@ && ty@->Vector_count
            == ty->Vector_count,
        ty is Array ==> *ty@->Array_element == (*ty->Array_element)@ && ty@->Array_count
            == ty->Array_count,
        ty is Pointer ==> ty@->storage_class == ty->storage_class && *ty@->pointee == (
        *ty->pointee)@,
        ty is Adt ==> {
            &&& ty@->fields.len() == ty->fields@.len()
            &&& forall|i: int|
                0 <= i < ty->fields@.len() ==> ty@->fields[i] == (#[trigger] ty->fields@[i])@
            &&& ty@->name is Some <==> ty->name is Some
            &&& ty->name is Some ==> ty@->name->0 == ty->name->0@
            &&& ty@->field_offsets is Some <==> ty->field_offsets is Some
            &&& ty->field_offsets is Some ==> ty@->field_offsets->0 == ty->field_offsets->0@
            &&& ty@->field_names is Some <==> ty->field_names is Some
            &&& ty->field_names is Some ==> ty@->field_names->0.len()
                == ty->field_names->0@.len() && forall|i: int|
                0 <= i < ty->field_names->0@.len() ==> ty@->field_names->0[i] == (
                #[trigger] ty->field_names->0@[i])@
        },
{
    match ty {
        Lowered::Adt { fields, .. } => {
            lemma_shapes(fields@);
            assert forall|i: int| 0 <= i < fields@.len() implies ty@->fields[i] == (
            #[trigger] fields@[i])@ by {
                assert(shapes_of(fields@)[i] == shape_of(fields@[i]));
            }
        },
        _ => {},
    }
}

/// What is found is the type, or the reason why there is none.
pub proof fn law_found(r: Result<Lowered, Unsupported>)
    ensures
        r is Ok <==> found(r) is Ok,
        r is Ok ==> found(r)->Ok_0 == r->Ok_0@,
        r is Err ==> found(r)->Err_0 == r->Err_0,
{
}

} // verus!
