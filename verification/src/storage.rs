//! Storage classes of pointers.
use vstd::prelude::*;

verus! {

/// Where the memory that a pointer points to lives.
#[derive(Clone, Copy, Debug, PartialEq, Eq, PartialOrd, Ord, Hash, Structural)]
pub enum StorageClass {
    UniformConstant,
    Input,
    Uniform,
    Output,
    Workgroup,
    CrossWorkgroup,
    Private,
    Function,
    Generic,
    PushConstant,
    AtomicCounter,
    Image,
    StorageBuffer,
    CallableDataNV,
    IncomingCallableDataNV,
    RayPayloadNV,
    HitAttributeNV,
    IncomingRayPayloadNV,
    ShaderRecordBufferNV,
    PhysicalStorageBuffer,
    CodeSectionINTEL,
}

/// The name under which a storage class is printed.
pub open spec fn class_name(class: StorageClass) -> Seq<char> {
    match class {
        StorageClass::UniformConstant => "UniformConstant"@,
        StorageClass::Input => "Input"@,
        StorageClass::Uniform => "Uniform"@,
        StorageClass::Output => "Output"@,
        StorageClass::Workgroup => "Workgroup"@,
        StorageClass::CrossWorkgroup => "CrossWorkgroup"@,
        StorageClass::Private => "Private"@,
        StorageClass::Function => "Function"@,
        StorageClass::Generic => "Generic"@,
        StorageClass::PushConstant => "PushConstant"@,
        StorageClass::AtomicCounter => "AtomicCounter"@,
        StorageClass::Image => "Image"@,
        StorageClass::StorageBuffer => "StorageBuffer"@,
        StorageClass::CallableDataNV => "CallableDataNV"@,
        StorageClass::IncomingCallableDataNV => "IncomingCallableDataNV"@,
        StorageClass::RayPayloadNV => "RayPayloadNV"@,
        StorageClass::HitAttributeNV => "HitAttributeNV"@,
        StorageClass::IncomingRayPayloadNV => "IncomingRayPayloadNV"@,
        StorageClass::ShaderRecordBufferNV => "ShaderRecordBufferNV"@,
        StorageClass::PhysicalStorageBuffer => "PhysicalStorageBuffer"@,
        StorageClass::CodeSectionINTEL => "CodeSectionINTEL"@,
    }
}

impl StorageClass {
    /// The name under which this storage class is printed.
    pub fn name(self) -> (r: &'static str)
        ensures
            r@ == class_name(self),
    {
        match self {
            StorageClass::UniformConstant => "UniformConstant",
            StorageClass::Input => "Input",
            StorageClass::Uniform => "Uniform",
            StorageClass::Output => "Output",
            StorageClass::Workgroup => "Workgroup",
            StorageClass::CrossWorkgroup => "CrossWorkgroup",
            StorageClass::Private => "Private",
            StorageClass::Function => "Function",
            StorageClass::Generic => "Generic",
            StorageClass::PushConstant => "PushConstant",
            StorageClass::AtomicCounter => "AtomicCounter",
            StorageClass::Image => "Image",
            StorageClass::StorageBuffer => "StorageBuffer",
            StorageClass::CallableDataNV => "CallableDataNV",
            StorageClass::IncomingCallableDataNV => "IncomingCallableDataNV",
            StorageClass::RayPayloadNV => "RayPayloadNV",
            StorageClass::HitAttributeNV => "HitAttributeNV",
            StorageClass::IncomingRayPayloadNV => "IncomingRayPayloadNV",
            StorageClass::ShaderRecordBufferNV => "ShaderRecordBufferNV",
            StorageClass::PhysicalStorageBuffer => "PhysicalStorageBuffer",
            StorageClass::CodeSectionINTEL => "CodeSectionINTEL",
        }
    }
}

} // verus!
