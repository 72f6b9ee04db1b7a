//! The backend sub-coroutines, consumed as interfaces.
//!
//! The command backend is `io_process`'s spawn-then-wait-with-output
//! coroutine; the credential-store backend is `io_keyring`'s read
//! coroutine. Both are I/O-free state machines of their own: they are
//! driven here through small trusted wrappers, and their payloads are
//! routed opaquely, never inspected.

use io_keyring::coroutines::read::ReadSecretResult;
use io_process::coroutines::spawn_then_wait_with_output::SpawnThenWaitWithOutputResult;
use secrecy::ExposeSecret;
use vstd::prelude::*;

use crate::secret::CommandSpec;

verus! {

/// The process I/O request enum of `io_process`, carried opaquely.
#[verifier::external_type_specification]
#[verifier::external_body]
pub struct ExProcessIo(io_process::io::ProcessIo);

/// The keyring I/O request enum of `io_keyring`, carried opaquely.
#[verifier::external_type_specification]
#[verifier::external_body]
pub struct ExKeyringIo(io_keyring::io::KeyringIo);

/// `io_process`'s coroutine that spawns a command and waits for its
/// captured output, carried opaquely.
#[verifier::external_type_specification]
#[verifier::external_body]
pub struct ExSpawnThenWaitWithOutput(
    io_process::coroutines::spawn_then_wait_with_output::SpawnThenWaitWithOutput,
);

/// `io_keyring`'s coroutine that reads one entry from the platform
/// credential store, carried opaquely.
#[verifier::external_type_specification]
#[verifier::external_body]
pub struct ExReadSecret(io_keyring::coroutines::read::ReadSecret);

/// One step of the command sub-coroutine, reduced to plain values.
pub(crate) enum ProcessStep {
    /// The sub-coroutine finished; these are the captured standard-output
    /// bytes of the spawned command.
    Output(Vec<u8>),
    /// The sub-coroutine needs this process I/O performed before it can
    /// make progress.
    Pending(io_process::io::ProcessIo),
    /// The sub-coroutine rejected its input or was driven out of order;
    /// the message describes the failure.
    Failed(String),
}

/// One step of the keyring sub-coroutine, reduced to plain values.
pub(crate) enum KeyringStep {
    /// The sub-coroutine finished; this is the looked-up secret text.
    Secret(String),
    /// The sub-coroutine needs this keyring I/O performed before it can
    /// make progress.
    Pending(io_keyring::io::KeyringIo),
    /// The sub-coroutine rejected its input or was driven out of order;
    /// the message describes the failure.
    Failed(String),
}

/// Relies on `io_process::command::Command::{new, args}` and
/// `SpawnThenWaitWithOutput::new`: builds the command description and the
/// coroutine that will spawn it. No I/O happens here; both are value-level
/// constructions.
#[verifier::external_body]
pub(crate) fn process_read_new(
    cmd: &CommandSpec,
) -> io_process::coroutines::spawn_then_wait_with_output::SpawnThenWaitWithOutput {
    let mut command = io_process::command::Command::new(&cmd.program);
    command.args(&cmd.args);
    io_process::coroutines::spawn_then_wait_with_output::SpawnThenWaitWithOutput::new(command)
}

/// Relies on `SpawnThenWaitWithOutput::resume`: makes the command
/// sub-coroutine progress and splits its three outcomes apart, keeping of
/// a finished run only the captured standard-output bytes.
#[verifier::external_body]
pub(crate) fn process_read_resume(
    co: &mut io_process::coroutines::spawn_then_wait_with_output::SpawnThenWaitWithOutput,
    input: Option<io_process::io::ProcessIo>,
) -> ProcessStep {
    match co.resume(input) {
        SpawnThenWaitWithOutputResult::Ok(output) => ProcessStep::Output(output.stdout),
        SpawnThenWaitWithOutputResult::Io(io) => ProcessStep::Pending(io),
        SpawnThenWaitWithOutputResult::Err(err) => ProcessStep::Failed(err.to_string()),
    }
}

/// Relies on `io_keyring::entry::KeyringEntry::new` and
/// `ReadSecret::new`: builds the entry description and the coroutine that
/// will look it up. No I/O happens here.
#[verifier::external_body]
pub(crate) fn keyring_read_new(name: &str) -> io_keyring::coroutines::read::ReadSecret {
    let entry = io_keyring::entry::KeyringEntry::new(name);
    io_keyring::coroutines::read::ReadSecret::new(entry)
}

/// Relies on `ReadSecret::resume`: makes the keyring sub-coroutine
/// progress and splits its three outcomes apart, exposing of a finished
/// lookup the secret text itself.
#[verifier::external_body]
pub(crate) fn keyring_read_resume(
    co: &mut io_keyring::coroutines::read::ReadSecret,
    input: Option<io_keyring::io::KeyringIo>,
) -> KeyringStep {
    match co.resume(input) {
        ReadSecretResult::Ok(secret) => KeyringStep::Secret(secret.expose_secret().to_owned()),
        ReadSecretResult::Io(io) => KeyringStep::Pending(io),
        ReadSecretResult::Err(err) => KeyringStep::Failed(err.to_string()),
    }
}

} // verus!
