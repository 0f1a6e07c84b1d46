//! The saving strategy whose writer sleeps while it waits, under the name by
//! which it is asked for.

pub use super::saving::park::{from_buffers, Capture, FastCapture, RawGuard, ReaderTag, SavingParkStrategy, WriterTag};
