//! The object layer of a prototype-based scripting runtime: property names
//! and values, the shared object record with its property table, byte-array
//! and domain objects, and the native methods of `String`.
pub mod avm_string;
pub mod value;
pub mod string_methods;
pub mod object;
pub mod class;
pub mod bytearray;
pub mod domain;
