use vstd::prelude::*;

pub mod version;
pub mod enumerate;
pub mod chain;
pub mod graph;
pub mod names;
pub mod properties;

pub use version::Version;
pub use graph::{Device, Instance, PhysicalDevice, Queue};

verus! {

} // verus!
