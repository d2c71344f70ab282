//! SPIR-V types for the layouts of Rust types.
//!
//! [`spirv_type::SpirvType`] describes a type by the ids of its components.
//! [`codegen_cx::CodegenCx`] holds a module under construction, with the types and constants
//! that have been put into it, each type once. Layouts ([`layout`]) and signatures are
//! translated into such a module by [`trans`] and [`fn_abi`]. Types can be measured
//! ([`sizes`]), filled with a byte ([`memset`]), and printed ([`printer`]). Whether a
//! translation is possible can be asked beforehand ([`check`], [`plan`]).
//!
//! The contracts speak of [`state::State`], the module and what is known of its ids as a
//! mathematical value, and of functions that take one state to the next. What follows from
//! them stands in [`laws`]. The module itself is built by the `rspirv` crate, and [`emit`]
//! says what is relied on there.

pub mod builder;
pub mod check;
pub mod codegen_cx;
pub mod emit;
pub mod fn_abi;
pub mod laws;
pub mod layout;
pub mod lower;
pub mod memset;
pub mod plan;
pub mod printer;
pub mod sizes;
pub mod spirv_type;
pub mod state;
pub mod storage;
pub mod text;
pub mod trans;
