//! Layouts of Rust types, as far as translation reads them.
//!
//! A layout holds the layouts of the types that it refers to. Translation follows these
//! references, so a type that it would follow back to itself has no such layout.
use vstd::prelude::*;

verus! {

/// A primitive value.
#[derive(Clone, Copy, Debug, PartialEq, Eq, Structural)]
pub enum Primitive {
    /// An integer of a width in bits, and whether it is signed.
    Int(u32, bool),
    F32,
    F64,
    Pointer,
}

/// A scalar.
#[derive(Clone, Copy, Debug, PartialEq, Eq, Structural)]
pub struct Scalar {
    pub value: Primitive,
    /// Whether only 0 and 1 are valid.
    pub is_bool: bool,
}

/// How a value is passed around.
#[derive(Clone, Copy, Debug, PartialEq, Eq, Structural)]
pub enum Abi {
    Uninhabited,
    Scalar(Scalar),
    ScalarPair(Scalar, Scalar),
    Vector { element: Scalar, count: u64 },
    Aggregate,
}

/// Where the fields of a value lie.
#[derive(Debug)]
pub enum FieldsShape {
    Primitive,
    Union,
    Array { count: u64 },
    Arbitrary {
        /// The offset of each field in bytes.
        offsets: Vec<u64>,
        /// The fields in the order of their offsets.
        by_increasing_offset: Vec<usize>,
    },
}

/// Which variants of a type the layout is for.
#[derive(Clone, Copy, Debug, PartialEq, Eq, Structural)]
pub enum Variants {
    Single { index: usize },
    Multiple,
}

/// A field of a variant.
#[derive(Debug)]
pub struct FieldDef {
    pub name: String,
    pub layout: TyAndLayout,
}

/// A variant of a struct, enum, or union.
#[derive(Debug)]
pub struct VariantDef {
    pub name: String,
    pub fields: Vec<FieldDef>,
}

/// What kind of type it is.
#[derive(Debug)]
pub enum TyKind {
    Ref { pointee: Box<TyAndLayout> },
    RawPtr { pointee: Box<TyAndLayout> },
    /// A struct, enum, or union.
    Adt {
        /// For a box, the layout of the raw pointer to its contents.
        boxed: Option<Box<TyAndLayout>>,
        variants: Vec<VariantDef>,
    },
    /// An unsized FFI type that is opaque to Rust.
    Foreign,
    Other,
}

/// A type and its layout.
#[derive(Debug)]
pub struct TyAndLayout {
    /// The type as it is written.
    pub name: String,
    pub is_zst: bool,
    /// The size in bytes.
    pub size: u64,
    pub kind: TyKind,
    pub abi: Abi,
    pub fields: FieldsShape,
    /// The layouts of the fields of a wide pointer, or of the elements of an array.
    pub field_layouts: Vec<TyAndLayout>,
    pub variants: Variants,
}

/// How an argument or a return value is passed.
#[derive(Clone, Copy, Debug, PartialEq, Eq, Structural)]
pub enum PassMode {
    Ignore,
    Direct,
    Pair,
    Cast,
    Indirect,
}

/// An argument or a return value.
#[derive(Debug)]
pub struct ArgAbi {
    pub layout: TyAndLayout,
    pub mode: PassMode,
}

/// The signature of a function.
#[derive(Debug)]
pub struct FnAbi {
    pub args: Vec<ArgAbi>,
    pub ret: ArgAbi,
}

/// Why a layout cannot be translated.
#[derive(Clone, Copy, Debug, PartialEq, Eq, Structural)]
pub enum Unsupported {
    /// The type has no values.
    Uninhabited,
    /// A pointer, or a pair, of a kind of type that is not supported.
    PointerKind,
    /// An aggregate without fields of its own.
    PrimitiveFields,
    /// A union of size 0.
    EmptyUnion,
    /// A struct of a kind of type that is not supported.
    StructKind,
    /// A type of several variants.
    MultipleVariants,
    /// A variant or a field that is not there.
    Missing,
    /// An argument that is not passed.
    IgnoredArgument,
    /// An argument that is passed as a pair, but is no struct of two fields.
    PairNotTuple,
}

} // verus!
