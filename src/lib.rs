//! An in-memory inventory of kegs: records keyed by a store-assigned id, whose
//! fill level can be changed but never raised above the keg's capacity.
//!
//! Volumes are whole numbers in a unit that the caller picks (for instance
//! thousandths of a gallon); timestamps are seconds since a fixed epoch, read
//! by the caller and handed in.
pub mod keg;

pub mod tracker;
pub mod laws;
