//! I/O-free retrieval of a single secret value.
//!
//! A secret can come from an inline literal, from the first output line of a
//! shell command, or from an entry in the platform credential store. The
//! acquisition itself is a resumable state machine ([`coroutines::Read`]):
//! it never performs I/O, it only emits [`Io`] requests that the caller
//! carries out by whatever means it likes before resuming the machine.

mod backends;
pub mod coroutines;
mod io;
mod secret;
pub mod serde;

pub use self::io::Io;
pub use self::secret::{Backends, CommandSpec, ConfigModel, Entry, Secret, SecretValue};
