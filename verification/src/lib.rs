//! A heap with incremental, exact garbage collection.
//!
//! Values stand in boxes of a heap. [`Gc`] pointers keep the boxes alive that the root of the arena
//! leads to, [`gc::Weak`] pointers only tell whether their target is still there, and a
//! [`gc::Unique`] pointer is the only one to its target. The collector marks and sweeps in small
//! steps; between them the arena may change as long as write barriers tell the collector.
//!
//! - [`types`], [`tagged_ptr`], [`layout`]: boxes, their header words and their memory.
//! - [`heap`]: the lists and queues that run through the boxes, with [`heap_view`] as their model.
//! - [`collect`]: how values show the pointers they hold; [`contents`]: what boxes hold.
//! - [`context`]: the collector, with [`state`] as its model and [`collection`] as the course of a
//!   collection.
//! - [`mutation`], [`gc`], [`ptr`], [`vec`], [`root`]: what the user of an arena works with.
//! - [`derive`]: what the derive macros decide.
//!
//! What the library guarantees is stated in [`soundness`] and [`marking`] (no step of the collector
//! makes a pointer dangle), [`reach`] (a collection keeps what can be reached, and a full one
//! nothing else), [`barriers`] (what the write barriers allow) and [`root_laws`] (root sets). What its
//! parts do is stated in [`step_laws`] (each step of the collector), [`access_laws`] (what is written
//! is read back), [`memory_laws`] (layouts and metadata), [`collect::laws`] (which pointers a value
//! holds), [`vec::laws`] (capacities and buffers), [`derive::collect_laws`] and
//! [`derive::ptr_metadata_laws`] (what the attributes of a type ask for).

pub mod access_laws;
pub mod barriers;
pub mod collect;
pub mod collection;
pub mod contents;
pub mod context;
pub mod derive;
pub mod gc;
pub mod heap;
pub mod heap_laws;
pub mod heap_view;
pub mod layout;
pub mod marking;
pub mod memory_laws;
pub mod metrics;
pub mod mutation;
pub mod ptr;
pub mod reach;
pub mod root;
pub mod root_laws;
pub mod soundness;
pub mod state;
pub mod step_laws;
pub mod tagged_ptr;
pub mod types;
pub mod vec;

pub use crate::collect::Collect;
pub use crate::gc::Gc;
pub use crate::mutation::{Finalization, Mutation};
