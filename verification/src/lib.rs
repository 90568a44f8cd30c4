//! A verified generator of Rust foreign-function bindings from a model of C declarations.

pub mod text;
pub mod types;
pub mod gen;
pub mod laws;
pub mod validate;
#[allow(non_camel_case_types)]
pub mod bindgen_cpp;
