//! A bounded pool of live particle handles.
//!
//! A particle fountain keeps creating particles. To keep the number of live
//! particles capped, the pool remembers the handles of the live ones in
//! spawn order, in a ring of fixed capacity, and names the oldest one for
//! destruction whenever a new particle would not fit.

pub mod laws;
pub mod model;
pub mod pool;
pub mod ring;
