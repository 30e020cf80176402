//! A verified FFI-binding generation engine.
//!
//! From a language-neutral description of a component's public interface
//! (objects with constructors and methods, plain data records, enumerations,
//! and free functions grouped into namespaces), the engine emits, for the
//! Kotlin backend, the declarations and value-conversion code another
//! language needs to call the component across a C-compatible boundary.
//!
//! The engine is a pure function of the interface model: it validates the
//! model (type references resolve, enum discriminants are unique, emitted
//! FFI symbols do not collide) and then produces one text fragment per
//! interface member, in model order.

pub mod convert;
pub mod decl;
pub mod kotlin;
pub mod model;
pub mod wire;
