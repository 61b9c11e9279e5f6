//! Reification of live process values into a typed, navigable tree.
//!
//! Given a type graph extracted from debug information, a raw byte buffer
//! captured from a stopped inferior process, and a gateway for further reads
//! of that process's memory, this crate builds a typed intermediate
//! representation (IR) of the value: scalars, structs, arrays, enums,
//! pointers, and transparently materialized standard-library containers
//! (vectors, strings, hash tables, thread-local cells).  A selection engine
//! then navigates the IR by dereference, field access, indexing and slicing,
//! issuing further memory reads on demand.

pub mod error;
pub mod bfs;
pub mod buffer;
pub mod ident;
pub mod ir;
pub mod memory;
pub mod numfmt;
pub mod parse;
pub mod render;
pub mod scalar;
pub mod select;
pub mod shim;
pub mod specialization;
pub mod steps;
pub mod types;
