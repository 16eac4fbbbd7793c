//! Collision-free 64-bit identifiers in the Snowflake layout: a timestamp, a
//! worker address and a per-millisecond sequence, issued by independent workers.

pub mod clock;
pub mod id_worker;
pub mod number_bit;
pub mod registry;
pub mod signature;

pub use id_worker::{IDWork, IdError, Issue};
pub use registry::{RegistryError, WorkerSlot, Workers};
