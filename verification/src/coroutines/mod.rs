//! I/O-free, composable and resumable state machines.
//!
//! Coroutines emit [`crate::Io`] requests that the caller must process,
//! by any execution model it likes, in order to continue their
//! progression.

pub mod read;

pub use self::read::Read;
