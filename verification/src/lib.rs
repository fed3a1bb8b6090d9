//! A heterogeneous, type-erased generational storage.
//!
//! Values of arbitrary `'static` types are placed into one container and
//! addressed through stable identifiers that carry a generation witness, so
//! that an identifier left over from an earlier occupant of a slot is
//! recognised and rejected.

pub mod bucket;
pub mod cycle;
pub mod erased;
pub mod id;
pub mod id_access;
pub mod laws;
pub mod params;
pub mod storage;
pub mod token_bucket;

pub use crate::cycle::Cycle;
pub use crate::cycle::NoCycle;
pub use crate::id::AsTid;
pub use crate::id::Id;
pub use crate::id::Tid;
pub use crate::params::Size;
pub use crate::params::UniqueTag;
pub use crate::storage::Storage;
