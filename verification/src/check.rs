//! Whether a layout can be translated, and to what, before anything is emitted.
use crate::codegen_cx::CodegenCx;
use crate::fn_abi::{
    check_arguments, check_signature, intern_signature, lower_argument, lower_return, trans_fnabi,
};
use crate::layout::{
    Abi, ArgAbi, FieldDef, FieldsShape, FnAbi, PassMode, Primitive, Scalar, TyAndLayout, TyKind,
    Unsupported, VariantDef, Variants,
};
use crate::lower::{
    empty_struct, low32, lower, lower_aggregate, lower_fields, lower_generic, lower_pair,
    lower_scalar, lower_struct, pointer_to, Shape,
};
use crate::plan::{signature_fits, type_fits};
use crate::spirv_type::{opt_text, opt_texts, opt_words, texts};
use crate::storage::StorageClass;
use crate::trans::{intern, lemma_lower_fields, trans_type, trans_type_immediate, truncate};
use rspirv::spirv::Word;
use vstd::prelude::*;

verus! {

/// A SPIR-V type without ids.
#[derive(Debug)]
pub enum Lowered {
    Void,
    Bool,
    Integer(u32, bool),
    Float(u32),
    Adt {
        name: Option<String>,
        fields: Vec<Lowered>,
        field_offsets: Option<Vec<u32>>,
        field_names: Option<Vec<String>>,
    },
    Vector { element: Box<Lowered>, count: u32 },
    Array { element: Box<Lowered>, count: u32 },
    Pointer { storage_class: StorageClass, pointee: Box<Lowered> },
}

/// A [`Lowered`] type as a mathematical value.
pub open spec fn shape_of(ty: Lowered) -> Shape
    decreases ty,
{
    match ty {
        Lowered::Void => Shape::Void,
        Lowered::Bool => Shape::Bool,
        Lowered::Integer(width, signedness) => Shape::Integer(width, signedness),
        Lowered::Float(width) => Shape::Float(width),
        Lowered::Adt { name, fields, field_offsets, field_names } => Shape::Adt {
            name: opt_text(name),
            fields: shapes_of(fields@),
            field_offsets: opt_words(field_offsets),
            field_names: opt_texts(field_names),
        },
        Lowered::Vector { element, count } => Shape::Vector {
            element: Box::new(shape_of(*element)),
            count,
        },
        Lowered::Array { element, count } => Shape::Array {
            element: Box::new(shape_of(*element)),
            count,
        },
        Lowered::Pointer { storage_class, pointee } => Shape::Pointer {
            storage_class,
            pointee: Box::new(shape_of(*pointee)),
        },
    }
}

/// Several [`Lowered`] types as mathematical values.
pub open spec fn shapes_of(types: Seq<Lowered>) -> Seq<Shape>
    decreases types,
{
    if types.len() == 0 {
        seq![]
    } else {
        shapes_of(types.drop_last()).push(shape_of(types.last()))
    }
}

impl View for Lowered {
    type V = Shape;

    open spec fn view(&self) -> Shape {
        shape_of(*self)
    }
}

/// One more type at the end.
pub proof fn lemma_shapes_push(types: Seq<Lowered>, ty: Lowered)
    ensures
        shapes_of(types.push(ty)) == shapes_of(types).push(shape_of(ty)),
{
    assert(types.push(ty).drop_last() =~= types);
}

/// Each type on its own.
pub proof fn lemma_shapes(types: Seq<Lowered>)
    ensures
        shapes_of(types).len() == types.len(),
        forall|i: int| 0 <= i < types.len() ==> #[trigger] shapes_of(types)[i] == shape_of(types[i]),
    decreases types.len(),
{
    if types.len() > 0 {
        let rest = types.drop_last();
        lemma_shapes(rest);
        assert forall|i: int| 0 <= i < types.len() implies #[trigger] shapes_of(types)[i]
            == shape_of(types[i]) by {
            if i < rest.len() {
                assert(shapes_of(types)[i] == shapes_of(rest)[i]);
                assert(rest[i] == types[i]);
            }
        }
    }
}

/// What was found, as a mathematical value.
pub open spec fn found(r: Result<Lowered, Unsupported>) -> Result<Shape, Unsupported> {
    match r {
        Ok(ty) => Ok(ty@),
        Err(error) => Err(error),
    }
}

/// A generic pointer.
fn pointer_type(pointee: Lowered) -> (r: Lowered)
    ensures
        r@ == pointer_to(pointee@),
{
    Lowered::Pointer { storage_class: StorageClass::Generic, pointee: Box::new(pointee) }
}

/// A struct without fields.
fn empty_type() -> (r: Lowered)
    ensures
        r@ == empty_struct(),
{
    let fields: Vec<Lowered> = Vec::new();
    assert(shapes_of(fields@) =~= seq![]);
    Lowered::Adt { name: None, fields, field_offsets: None, field_names: None }
}

/// Whether a layout can be translated, and to what.
pub fn check_type(ty: &TyAndLayout, is_immediate: bool) -> (r: Result<Lowered, Unsupported>)
    ensures
        found(r) == lower(*ty, is_immediate),
    decreases *ty, 3nat,
{
    if ty.is_zst {
        return Ok(empty_type());
    }
    match &ty.abi {
        Abi::Uninhabited => Err(Unsupported::Uninhabited),
        Abi::Scalar(scalar) => check_scalar(ty, scalar, is_immediate),
        Abi::ScalarPair(one, two) => {
            let first: Lowered = match check_pair(ty, one, 0, is_immediate) {
                Ok(first) => first,
                Err(error) => {
                    return Err(error);
                },
            };
            let second: Lowered = match check_pair(ty, two, 1, is_immediate) {
                Ok(second) => second,
                Err(error) => {
                    return Err(error);
                },
            };
            let mut fields: Vec<Lowered> = Vec::new();
            proof {
                lemma_shapes_push(seq![], first);
                lemma_shapes_push(seq![].push(first), second);
                assert(shapes_of(seq![].push(first).push(second)) =~= seq![first@, second@]);
            }
            fields.push(first);
            fields.push(second);
            Ok(
                Lowered::Adt {
                    name: Some(ty.name.clone()),
                    fields,
                    field_offsets: None,
                    field_names: None,
                },
            )
        },
        Abi::Vector { element, count } => match check_scalar(ty, element, is_immediate) {
            Ok(element) => Ok(
                Lowered::Vector { element: Box::new(element), count: truncate(*count) },
            ),
            Err(error) => Err(error),
        },
        Abi::Aggregate => check_aggregate(ty),
    }
}

fn check_scalar(ty: &TyAndLayout, scalar: &Scalar, is_immediate: bool) -> (r: Result<
    Lowered,
    Unsupported,
>)
    ensures
        found(r) == lower_scalar(*ty, *scalar, is_immediate),
    decreases *ty, 2nat,
{
    if scalar.value == Primitive::Pointer {
        match &ty.kind {
            TyKind::Ref { pointee } => {
                return match check_type(pointee, false) {
                    Ok(pointee) => Ok(pointer_type(pointee)),
                    Err(error) => Err(error),
                };
            },
            TyKind::RawPtr { pointee } => {
                return match check_type(pointee, false) {
                    Ok(pointee) => Ok(pointer_type(pointee)),
                    Err(error) => Err(error),
                };
            },
            TyKind::Adt { boxed: Some(pointer), .. } => {
                return check_type(pointer, false);
            },
            TyKind::Adt { boxed: None, .. } => {},
            _ => {
                return Err(Unsupported::PointerKind);
            },
        }
    }
    Ok(generic_type(scalar, is_immediate))
}

fn check_pair(ty: &TyAndLayout, scalar: &Scalar, index: usize, is_immediate: bool) -> (r: Result<
    Lowered,
    Unsupported,
>)
    ensures
        found(r) == lower_pair(*ty, *scalar, index as nat, is_immediate),
    decreases *ty, 2nat,
{
    match &ty.kind {
        TyKind::Ref { .. } | TyKind::RawPtr { .. } => {
            if index < ty.field_layouts.len() {
                return check_type(&ty.field_layouts[index], false);
            }
            return Err(Unsupported::Missing);
        },
        TyKind::Adt { boxed: Some(pointer), .. } => {
            return check_pair(pointer, scalar, index, is_immediate);
        },
        TyKind::Adt { boxed: None, .. } => {},
        _ => {
            return Err(Unsupported::PointerKind);
        },
    }
    Ok(generic_type(scalar, is_immediate))
}

fn generic_type(scalar: &Scalar, is_immediate: bool) -> (r: Lowered)
    ensures
        r@ == lower_generic(*scalar, is_immediate),
{
    if is_immediate && scalar.is_bool {
        return Lowered::Bool;
    }
    match scalar.value {
        Primitive::Int(width, signedness) => Lowered::Integer(width, signedness),
        Primitive::F32 => Lowered::Float(32),
        Primitive::F64 => Lowered::Float(64),
        Primitive::Pointer => pointer_type(Lowered::Integer(8, false)),
    }
}

fn check_aggregate(ty: &TyAndLayout) -> (r: Result<Lowered, Unsupported>)
    ensures
        found(r) == lower_aggregate(*ty),
    decreases *ty, 2nat,
{
    match &ty.fields {
        FieldsShape::Primitive => Err(Unsupported::PrimitiveFields),
        FieldsShape::Union => {
            if ty.size == 0 {
                return Err(Unsupported::EmptyUnion);
            }
            let byte: Lowered = Lowered::Integer(8, false);
            assert(byte@ == Shape::Integer(8, false));
            Ok(Lowered::Array { element: Box::new(byte), count: truncate(ty.size) })
        },
        FieldsShape::Array { count } => {
            if ty.field_layouts.len() == 0 {
                return Err(Unsupported::Missing);
            }
            let nonzero_count: u64 = if *count == 0 {
                1
            } else {
                *count
            };
            match check_type(&ty.field_layouts[0], false) {
                Ok(element) => Ok(
                    Lowered::Array { element: Box::new(element), count: truncate(nonzero_count) },
                ),
                Err(error) => Err(error),
            }
        },
        FieldsShape::Arbitrary { offsets, by_increasing_offset } => check_struct(
            ty,
            offsets,
            by_increasing_offset,
        ),
    }
}

/// Where the first fields cannot be translated, all of them cannot.
proof fn lemma_fields_error(variant: VariantDef, offsets: Seq<u64>, order: Seq<usize>, n: int)
    requires
        0 <= n <= order.len(),
        lower_fields(variant, offsets, order.take(n)) is Err,
    ensures
        lower_fields(variant, offsets, order) == lower_fields(variant, offsets, order.take(n)),
    decreases order.len(),
{
    if n == order.len() {
        assert(order.take(n) =~= order);
    } else {
        assert(order.drop_last().take(n) =~= order.take(n));
        lemma_fields_error(variant, offsets, order.drop_last(), n);
    }
}

fn check_struct(ty: &TyAndLayout, offsets: &Vec<u64>, order: &Vec<usize>) -> (r: Result<
    Lowered,
    Unsupported,
>)
    ensures
        found(r) == lower_struct(*ty, offsets@, order@),
    decreases *ty, 1nat,
{
    let variants: &Vec<VariantDef> = match &ty.kind {
        TyKind::Adt { variants, .. } => variants,
        TyKind::Foreign => {
            return Ok(Lowered::Void);
        },
        _ => {
            return Err(Unsupported::StructKind);
        },
    };
    let variant: &VariantDef = match ty.variants {
        Variants::Single { index } => {
            if index >= variants.len() {
                return Err(Unsupported::Missing);
            }
            &variants[index]
        },
        Variants::Multiple => {
            return Err(Unsupported::MultipleVariants);
        },
    };
    assert(decreases_to!(*ty => *variant));
    let mut fields: Vec<Lowered> = Vec::new();
    match check_fields(ty, variant, offsets, order, &mut fields) {
        Ok(()) => {},
        Err(error) => {
            return Err(error);
        },
    }
    proof {
        lemma_lower_fields(*variant, offsets@, order@);
    }
    let ghost all_offsets = Seq::new(order@.len(), |i: int| low32(offsets@[order@[i] as int]));
    let ghost all_names = Seq::new(
        order@.len(),
        |i: int| variant.fields@[order@[i] as int].name@,
    );
    let mut field_offsets: Vec<u32> = Vec::new();
    let mut field_names: Vec<String> = Vec::new();
    for k in 0..order.len()
        invariant
            forall|i: int|
                0 <= i < order@.len() ==> (#[trigger] order@[i]) < variant.fields@.len()
                    && order@[i] < offsets@.len(),
            all_offsets == Seq::new(
                order@.len(),
                |i: int| low32(offsets@[order@[i] as int]),
            ),
            all_names == Seq::new(
                order@.len(),
                |i: int| variant.fields@[order@[i] as int].name@,
            ),
            field_offsets@ == all_offsets.take(k as int),
            texts(field_names@) == all_names.take(k as int),
    {
        let i: usize = order[k];
        let ghost names = field_names@;
        field_offsets.push(truncate(offsets[i]));
        field_names.push(variant.fields[i].name.clone());
        assert(field_offsets@ =~= all_offsets.take(k + 1));
        assert(texts(field_names@) =~= texts(names).push(all_names[k as int]));
        assert(all_names.take(k + 1) =~= all_names.take(k as int).push(all_names[k as int]));
    }
    assert(all_offsets.take(order@.len() as int) =~= all_offsets);
    assert(all_names.take(order@.len() as int) =~= all_names);
    Ok(
        Lowered::Adt {
            name: Some(variant.name.clone()),
            fields,
            field_offsets: Some(field_offsets),
            field_names: Some(field_names),
        },
    )
}

/// Whether the fields of a variant of a type can be translated. If so, adds what they are
/// translated to.
fn check_fields(
    ty: &TyAndLayout,
    variant: &VariantDef,
    offsets: &Vec<u64>,
    order: &Vec<usize>,
    fields: &mut Vec<Lowered>,
) -> (r: Result<(), Unsupported>)
    requires
        decreases_to!(*ty => *variant),
        old(fields)@.len() == 0,
    ensures
        match lower_fields(*variant, offsets@, order@) {
            Ok(shapes) => r is Ok && shapes_of(final(fields)@) == shapes,
            Err(error) => r == Err::<(), Unsupported>(error),
        },
    decreases *ty, 0nat,
{
    assert(order@.take(0) =~= seq![]);
    for k in 0..order.len()
        invariant
            decreases_to!(*ty => *variant),
            lower_fields(*variant, offsets@, order@.take(k as int)) == Ok::<
                Seq<Shape>,
                Unsupported,
            >(shapes_of(fields@)),
    {
        proof {
            assert(order@.take(k + 1).drop_last() =~= order@.take(k as int));
            if lower_fields(*variant, offsets@, order@.take(k + 1)) is Err {
                lemma_fields_error(*variant, offsets@, order@, k + 1);
            }
        }
        let i: usize = order[k];
        if i >= variant.fields.len() {
            return Err(Unsupported::Missing);
        }
        let field: &FieldDef = &variant.fields[i];
        match check_type(&field.layout, false) {
            Ok(field) => {
                if i >= offsets.len() {
                    return Err(Unsupported::Missing);
                }
                proof {
                    lemma_shapes_push(fields@, field);
                }
                fields.push(field);
            },
            Err(error) => {
                return Err(error);
            },
        }
    }
    assert(order@.take(order@.len() as int) =~= order@);
    Ok(())
}

/// What the return value and the arguments of a function are translated to.
#[derive(Debug)]
pub struct LoweredSignature {
    pub ret: Lowered,
    pub args: Vec<Lowered>,
}

impl LoweredSignature {
    /// Whether these are the types of a signature.
    pub open spec fn is_for(&self, fn_abi: FnAbi) -> bool {
        &&& lower_return(fn_abi.ret) == Ok::<Shape, Unsupported>(self.ret@)
        &&& self.args@.len() == fn_abi.args@.len()
        &&& forall|i: int|
            0 <= i < fn_abi.args@.len() ==> lower_argument(#[trigger] fn_abi.args@[i]) == Ok::<
                Shape,
                Unsupported,
            >(self.args@[i]@)
    }
}

/// Whether a return value can be translated, and to what.
fn check_return(ret: &ArgAbi) -> (r: Result<Lowered, Unsupported>)
    ensures
        found(r) == lower_return(*ret),
{
    match ret.mode {
        PassMode::Ignore => Ok(Lowered::Void),
        PassMode::Direct => check_type(&ret.layout, true),
        PassMode::Pair | PassMode::Cast => check_type(&ret.layout, false),
        PassMode::Indirect => match check_type(&ret.layout, false) {
            Ok(pointee) => Ok(pointer_type(pointee)),
            Err(error) => Err(error),
        },
    }
}

/// Whether an argument can be translated, and to what.
fn check_argument(arg: &ArgAbi) -> (r: Result<Lowered, Unsupported>)
    ensures
        found(r) == lower_argument(*arg),
{
    match arg.mode {
        PassMode::Ignore => Err(Unsupported::IgnoredArgument),
        PassMode::Direct => check_type(&arg.layout, true),
        PassMode::Pair => match check_type(&arg.layout, false) {
            Ok(ty) => {
                let is_pair = match &ty {
                    Lowered::Adt { fields, .. } => {
                        proof {
                            lemma_shapes(fields@);
                        }
                        fields.len() == 2
                    },
                    _ => false,
                };
                if is_pair {
                    Ok(ty)
                } else {
                    Err(Unsupported::PairNotTuple)
                }
            },
            Err(error) => Err(error),
        },
        PassMode::Cast => check_type(&arg.layout, false),
        PassMode::Indirect => match check_type(&arg.layout, false) {
            Ok(pointee) => Ok(pointer_type(pointee)),
            Err(error) => Err(error),
        },
    }
}

/// Where the first arguments cannot be translated, all of them cannot.
proof fn lemma_arguments_error(args: Seq<ArgAbi>, n: int)
    requires
        0 <= n <= args.len(),
        check_arguments(args.take(n)) is Err,
    ensures
        check_arguments(args) == check_arguments(args.take(n)),
    decreases args.len(),
{
    if n == args.len() {
        assert(args.take(n) =~= args);
    } else {
        assert(args.drop_last().take(n) =~= args.take(n));
        lemma_arguments_error(args.drop_last(), n);
    }
}

/// Whether a signature can be translated, and to what.
pub fn check_fnabi(fn_abi: &FnAbi) -> (r: Result<LoweredSignature, Unsupported>)
    ensures
        match check_signature(*fn_abi) {
            Ok(_) => r is Ok && r->Ok_0.is_for(*fn_abi),
            Err(error) => r is Err && r->Err_0 == error,
        },
{
    let ret: Lowered = match check_return(&fn_abi.ret) {
        Ok(ret) => ret,
        Err(error) => {
            return Err(error);
        },
    };
    let mut args: Vec<Lowered> = Vec::new();
    assert(fn_abi.args@.take(0) =~= seq![]);
    for i in 0..fn_abi.args.len()
        invariant
            lower_return(fn_abi.ret) is Ok,
            check_arguments(fn_abi.args@.take(i as int)) is Ok,
            args@.len() == i,
            forall|j: int|
                0 <= j < i ==> lower_argument(#[trigger] fn_abi.args@[j]) == Ok::<
                    Shape,
                    Unsupported,
                >(args@[j]@),
    {
        proof {
            assert(fn_abi.args@.take(i + 1).drop_last() =~= fn_abi.args@.take(i as int));
            if check_arguments(fn_abi.args@.take(i + 1)) is Err {
                lemma_arguments_error(fn_abi.args@, i + 1);
            }
        }
        match check_argument(&fn_abi.args[i]) {
            Ok(arg) => {
                args.push(arg);
            },
            Err(error) => {
                return Err(error);
            },
        }
    }
    assert(fn_abi.args@.take(fn_abi.args@.len() as int) =~= fn_abi.args@);
    Ok(LoweredSignature { ret, args })
}

/// Why nothing was translated.
#[derive(Clone, Copy, Debug, PartialEq, Eq, Structural)]
pub enum TransError {
    /// There is no translation.
    Unsupported(Unsupported),
    /// There are not enough ids left.
    OutOfIds,
}

/// Translates the layout of a value that is held in memory, if that can be done.
pub fn try_trans_type(cx: &mut CodegenCx, ty: &TyAndLayout) -> (r: Result<Word, TransError>)
    requires
        old(cx).wf(),
    ensures
        match lower(*ty, false) {
            Ok(shape) => if intern(old(cx)@, shape).0.fits() {
                r is Ok && (final(cx)@, r->Ok_0) == intern(old(cx)@, shape)
            } else {
                r == Err::<Word, TransError>(TransError::OutOfIds) && final(cx)@ == old(cx)@
            },
            Err(error) => r == Err::<Word, TransError>(TransError::Unsupported(error))
                && final(cx)@ == old(cx)@,
        },
        final(cx).wf(),
{
    match check_type(ty, false) {
        Ok(lowered) => if type_fits(cx, &lowered) {
            Ok(trans_type(cx, ty))
        } else {
            Err(TransError::OutOfIds)
        },
        Err(error) => Err(TransError::Unsupported(error)),
    }
}

/// Translates the layout of a value that is immediate, if that can be done.
pub fn try_trans_type_immediate(cx: &mut CodegenCx, ty: &TyAndLayout) -> (r: Result<
    Word,
    TransError,
>)
    requires
        old(cx).wf(),
    ensures
        match lower(*ty, true) {
            Ok(shape) => if intern(old(cx)@, shape).0.fits() {
                r is Ok && (final(cx)@, r->Ok_0) == intern(old(cx)@, shape)
            } else {
                r == Err::<Word, TransError>(TransError::OutOfIds) && final(cx)@ == old(cx)@
            },
            Err(error) => r == Err::<Word, TransError>(TransError::Unsupported(error))
                && final(cx)@ == old(cx)@,
        },
        final(cx).wf(),
{
    match check_type(ty, true) {
        Ok(lowered) => if type_fits(cx, &lowered) {
            Ok(trans_type_immediate(cx, ty))
        } else {
            Err(TransError::OutOfIds)
        },
        Err(error) => Err(TransError::Unsupported(error)),
    }
}

/// Translates the signature of a function, if that can be done. Returns the function type,
/// the return type, and the argument types.
pub fn try_trans_fnabi(cx: &mut CodegenCx, fn_abi: &FnAbi) -> (r: Result<
    (Word, Word, Vec<Word>),
    TransError,
>)
    requires
        old(cx).wf(),
    ensures
        match check_signature(*fn_abi) {
            Ok(_) => if intern_signature(old(cx)@, *fn_abi).0.fits() {
                r is Ok && (final(cx)@, (r->Ok_0.0, r->Ok_0.1, r->Ok_0.2@)) == intern_signature(
                    old(cx)@,
                    *fn_abi,
                )
            } else {
                r is Err && r->Err_0 == TransError::OutOfIds && final(cx)@ == old(cx)@
            },
            Err(error) => r is Err && r->Err_0 == TransError::Unsupported(error) && final(cx)@
                == old(cx)@,
        },
        final(cx).wf(),
{
    match check_fnabi(fn_abi) {
        Ok(lowered) => if signature_fits(cx, fn_abi, &lowered) {
            Ok(trans_fnabi(cx, fn_abi))
        } else {
            Err(TransError::OutOfIds)
        },
        Err(error) => Err(TransError::Unsupported(error)),
    }
}

} // verus!
