//! What holds of the crate as a whole.

pub mod arguments;
pub mod debugging;
pub mod display;
pub mod fillable;
pub mod filling;
pub mod instructions;
pub mod layouts;
pub mod lowering;
pub mod patterns;
pub mod printing;
pub mod rendering;
pub mod signature;
pub mod sizes;
pub mod steps;
pub mod translation;
pub mod types;
