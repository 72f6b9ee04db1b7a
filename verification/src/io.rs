//! The I/O envelope exchanged between the coroutine and its caller.

use vstd::prelude::*;

verus! {

/// The envelope of all I/O requests and results the secret coroutine can
/// exchange with its caller, plus a terminal failure tag.
///
/// A backend-specific variant is purely a routing tag: the payload is
/// never inspected here, only checked against the backend that is
/// currently being delegated to.
#[derive(Debug)]
pub enum Io {
    /// Terminal failure: a protocol violation (wrong-shaped input) or an
    /// unrecoverable failure surfaced by a backend.
    Error(String),
    /// I/O to be processed by a keyring runtime.
    Keyring(io_keyring::io::KeyringIo),
    /// I/O to be processed by a process runtime.
    Command(io_process::io::ProcessIo),
}

} // verus!
