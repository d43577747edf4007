//! Generation of an enum-dispatch method for an `impl` block whose methods
//! are marked as handlers of the enum's variants.
#![allow(unused_imports)]

pub mod model;
pub mod handlers;
pub mod render;
pub mod attr;
pub mod syntax;
pub mod expand;
pub mod laws;

pub use expand::{handle, with_enum_handlers};
