//! An embeddable engine for streaming aggregation over hierarchical wheels.
//!
//! Entries are inserted into a write-ahead wheel; advancing the watermark
//! moves them, second by second, into a hierarchy of aggregation wheels that
//! answers interval and landmark queries.
pub mod aggregation;
pub mod aggregator;
pub mod drill;
pub mod duration;
pub mod entry;
pub mod hierarchical;
pub mod history;
pub mod laws;
pub mod maybe;
pub mod ring;
pub mod store;
pub mod wheel;
pub mod window;
pub mod write;

pub use aggregator::Aggregator;
pub use duration::Duration;
pub use entry::{Entry, Error};
pub use hierarchical::{Haw, DAYS, HOURS, MINUTES, SECONDS, WEEKS, YEARS};
pub use wheel::RwWheel;
pub use write::WriteAheadWheel;
