//! Entries handed to a wheel, and the ways an insert can be turned down.
use vstd::prelude::*;

verus! {

/// An event to be inserted into a wheel.
#[derive(Debug, Copy, Clone)]
pub struct Entry<T> {
    /// Data to be lifted by the aggregator.
    pub data: T,
    /// Event time in milliseconds.
    pub timestamp: u64,
}

impl<T> Entry<T> {
    /// An entry with the given data and timestamp.
    pub fn new(data: T, timestamp: u64) -> (entry: Self)
        ensures
            entry.data == data,
            entry.timestamp == timestamp,
    {
        Entry { data, timestamp }
    }
}

impl<T> From<(T, u64)> for Entry<T> {
    fn from(val: (T, u64)) -> (entry: Self) {
        Entry::new(val.0, val.1)
    }
}

impl<T> vstd::std_specs::convert::FromSpecImpl<(T, u64)> for Entry<T> {
    open spec fn obeys_from_spec() -> bool {
        true
    }

    open spec fn from_spec(val: (T, u64)) -> Self {
        (Entry { data: val.0, timestamp: val.1 })
    }
}

/// Why a wheel turned an entry down. The entry is handed back in either case.
#[derive(Debug)]
pub enum Error<T> {
    /// The entry's timestamp is below the watermark.
    Late {
        /// The entry that was turned down.
        entry: Entry<T>,
        /// The watermark at the time of the insert.
        watermark: u64,
    },
    /// The entry's timestamp is too far ahead of the watermark.
    Overflow {
        /// The entry that was turned down.
        entry: Entry<T>,
        /// The first timestamp beyond the write-ahead horizon.
        max_write_ahead_ts: u64,
    },
}

impl<T> Error<T> {
    /// Tells whether the error is [`Error::Late`].
    pub fn is_late(&self) -> (b: bool)
        ensures
            b == (*self is Late),
    {
        match self {
            Error::Late { .. } => true,
            Error::Overflow { .. } => false,
        }
    }

    /// Tells whether the error is [`Error::Overflow`].
    pub fn is_overflow(&self) -> (b: bool)
        ensures
            b == (*self is Overflow),
    {
        match self {
            Error::Late { .. } => false,
            Error::Overflow { .. } => true,
        }
    }

    /// The entry that was turned down.
    pub fn entry(&self) -> (e: &Entry<T>)
        ensures
            *self matches Error::Late { entry, .. } ==> *e == entry,
            *self matches Error::Overflow { entry, .. } ==> *e == entry,
    {
        match self {
            Error::Late { entry, .. } => entry,
            Error::Overflow { entry, .. } => entry,
        }
    }
}

} // verus!
