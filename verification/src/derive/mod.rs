//! The decisions behind the derive macros: what the attributes of a type ask for, and which of its
//! fields are traced.

pub mod collect;
pub mod collect_laws;
pub mod lifetimes;
pub mod ptr_metadata;
pub mod ptr_metadata_laws;
