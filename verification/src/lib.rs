//! A deterministic record allocator: each owner identity maps to one
//! canonical storage address, derived from a namespace tag, and a fixed-size
//! portfolio record is allocated there exactly once, funded by its owner.

pub mod allocator;
pub mod derivation;
pub mod laws;

pub use allocator::Allocator;
pub use allocator::FundingSource;
pub use allocator::InitError;
pub use allocator::Portfolio;
pub use allocator::Slot;
pub use allocator::RECORD_BYTES;
