//! The ways in which a writer keeps track of its readers.

pub mod atomic;
pub mod hazard;
pub mod local;
pub mod local_saving;
pub mod lock;
pub mod saving;
pub mod saving_park;
pub mod sync;
