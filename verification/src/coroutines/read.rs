//! The I/O-free coroutine that acquires a secret, whatever its backend.

use vstd::prelude::*;
use vstd::slice::slice_subrange;

use crate::backends::{
    keyring_read_new, keyring_read_resume, process_read_new, process_read_resume, KeyringStep,
    ProcessStep,
};
use crate::io::Io;
use crate::secret::{ConfigModel, Secret, SecretValue};

verus! {

/// What `String::from_utf8_lossy` returns: a function of the bytes alone.
pub uninterp spec fn utf8_lossy_of(bytes: Seq<u8>) -> Seq<char>;

/// Relies on `String::from_utf8_lossy`: decodes UTF-8 with lossy
/// replacement of invalid sequences; ASCII bytes decode to exactly their
/// own characters.
#[verifier::external_body]
fn lossy_string(bytes: &[u8]) -> (r: String)
    ensures
        r@ == utf8_lossy_of(bytes@),
        (forall|i: int| 0 <= i < bytes@.len() ==> bytes@[i] < 128) ==> r@ == Seq::new(
            bytes@.len(),
            |i: int| bytes@[i] as char,
        ),
{
    String::from_utf8_lossy(bytes).into_owned()
}

/// Relies on `memchr::memchr`: the index of the first occurrence of
/// `needle` in `haystack`, if any.
#[verifier::external_body]
fn find_byte(needle: u8, haystack: &[u8]) -> (r: Option<usize>)
    ensures
        match r {
            Some(i) => i < haystack@.len() && haystack@[i as int] == needle && (forall|j: int|
                0 <= j < i ==> haystack@[j] != needle),
            None => forall|j: int| 0 <= j < haystack@.len() ==> haystack@[j] != needle,
        },
{
    memchr::memchr(needle, haystack)
}

/// The first line of a byte string: everything before the first newline
/// byte, or the whole string when no newline occurs.
pub open spec fn first_line_of(bytes: Seq<u8>) -> Seq<u8>
    decreases bytes.len(),
{
    if bytes.len() == 0 {
        bytes
    } else if bytes[0] == 10u8 {
        Seq::empty()
    } else {
        seq![bytes[0]] + first_line_of(bytes.skip(1))
    }
}

proof fn lemma_first_line_take(bytes: Seq<u8>, n: int)
    requires
        0 <= n <= bytes.len(),
        forall|j: int| 0 <= j < n ==> bytes[j] != 10u8,
        n < bytes.len() ==> bytes[n] == 10u8,
    ensures
        first_line_of(bytes) == bytes.take(n),
    decreases n,
{
    if n == 0 {
        assert(first_line_of(bytes) =~= bytes.take(0));
    } else {
        lemma_first_line_take(bytes.skip(1), n - 1);
        assert(first_line_of(bytes) =~= bytes.take(n));
    }
}

/// Takes the first line of captured standard-output bytes — split at the
/// first newline, or the whole output when none occurs — and decodes it as
/// UTF-8 with lossy replacement: the "first line is the secret"
/// convention. The trailing newline and any later lines are discarded.
pub fn first_line_secret(bytes: &[u8]) -> (r: SecretValue)
    ensures
        r@ == utf8_lossy_of(first_line_of(bytes@)),
{
    let line: &[u8] = match find_byte(10u8, bytes) {
        Some(n) => {
            proof {
                lemma_first_line_take(bytes@, n as int);
            }
            slice_subrange(bytes, 0, n)
        },
        None => {
            proof {
                lemma_first_line_take(bytes@, bytes@.len() as int);
                assert(bytes@.take(bytes@.len() as int) =~= bytes@);
            }
            bytes
        },
    };
    SecretValue::new(lossy_string(line))
}

/// The logical state of a [`Read`] coroutine.
pub enum ReadState {
    /// The configuration was a literal; its value is held until the first
    /// resume returns it.
    Literal { value: Seq<char> },
    /// Delegating to the command backend; `started` records whether the
    /// sub-coroutine has been resumed at least once.
    Command { started: bool },
    /// Delegating to the keyring backend; `started` records whether the
    /// sub-coroutine has been resumed at least once.
    Keyring { started: bool },
    /// Terminal: a value or an error has been returned, and every further
    /// resume reports a completed coroutine.
    Done,
}

/// The state in which [`Read::new`] starts for a given configuration.
pub open spec fn initial_state(config: ConfigModel) -> ReadState {
    match config {
        ConfigModel::Raw(v) => ReadState::Literal { value: v },
        ConfigModel::Command(_, _) => ReadState::Command { started: false },
        ConfigModel::Keyring(_) => ReadState::Keyring { started: false },
    }
}

/// Whether `input` has the shape a coroutine in state `state` may be
/// resumed with: `None` only on the very first resume of a backend
/// sub-coroutine, and afterwards a result tagged with that same backend.
pub open spec fn accepts(state: ReadState, input: Option<Io>) -> bool {
    match state {
        ReadState::Command { started } => match input {
            None => !started,
            Some(io) => io is Command,
        },
        ReadState::Keyring { started } => match input {
            None => !started,
            Some(io) => io is Keyring,
        },
        _ => true,
    }
}

/// The message of the protocol error reported when a completed coroutine
/// is resumed again.
pub open spec fn completed_note() -> Seq<char> {
    "coroutine already completed"@
}

/// The message of the protocol error reported when `input` does not have
/// the shape that `accepts` asks of state `state`.
pub open spec fn mismatch_note(state: ReadState, input: Option<Io>) -> Seq<char> {
    match state {
        ReadState::Command { .. } => match input {
            None => "expected command input, got no input"@,
            Some(Io::Keyring(_)) => "expected command input, got keyring input"@,
            Some(Io::Error(_)) => "expected command input, got error input"@,
            Some(Io::Command(_)) => Seq::<char>::empty(),
        },
        ReadState::Keyring { .. } => match input {
            None => "expected keyring input, got no input"@,
            Some(Io::Command(_)) => "expected keyring input, got command input"@,
            Some(Io::Error(_)) => "expected keyring input, got error input"@,
            Some(Io::Keyring(_)) => Seq::<char>::empty(),
        },
        _ => Seq::<char>::empty(),
    }
}

#[allow(inconsistent_fields)]
enum SubRead {
    Raw(SecretValue),
    Process {
        co: io_process::coroutines::spawn_then_wait_with_output::SpawnThenWaitWithOutput,
        started: bool,
    },
    Keyring { co: io_keyring::coroutines::read::ReadSecret, started: bool },
    Done,
}

/// I/O-free coroutine for reading a secret, whatever its backend.
///
/// Drive loop: call [`Read::resume`] with `None` first; on receiving a
/// request, perform the described I/O by any means, then call `resume`
/// again with the completed result; repeat until a secret value or a
/// terminal [`Io::Error`] is returned. After either, the coroutine is
/// completed: resuming it again deterministically returns a protocol
/// error and nothing else.
pub struct Read {
    read: SubRead,
}

impl Read {
    /// The logical state of the coroutine.
    pub closed spec fn state(&self) -> ReadState {
        match self.read {
            SubRead::Raw(v) => ReadState::Literal { value: v@ },
            SubRead::Process { co: _, started } => ReadState::Command { started },
            SubRead::Keyring { co: _, started } => ReadState::Keyring { started },
            SubRead::Done => ReadState::Done,
        }
    }

    /// Creates a new coroutine from the given secret configuration.
    ///
    /// Construction performs no I/O: the configuration only moves into
    /// the matching initial state.
    pub fn new(secret: Secret) -> (r: Read)
        ensures
            r.state() == initial_state(secret@),
    {
        let read = match secret {
            Secret::Raw(value) => SubRead::Raw(value),
            Secret::Command(cmd) => SubRead::Process {
                co: process_read_new(&cmd),
                started: false,
            },
            Secret::Keyring(entry) => SubRead::Keyring {
                co: keyring_read_new(entry.name.as_str()),
                started: false,
            },
        };
        Read { read }
    }

    /// Makes the coroutine progress.
    ///
    /// A literal resolves on the first call, with no I/O request ever
    /// emitted, and the input is ignored. A delegating coroutine first
    /// validates the input against the backend it waits on — a mismatch
    /// is a protocol error, reported with a distinct message and without
    /// touching the sub-coroutine — then forwards the payload and either
    /// returns the post-processed secret, re-emits the sub-coroutine's
    /// pending request under the same backend tag, or surfaces its
    /// failure. Once a value or an error has been returned the coroutine
    /// is completed: every later call returns a protocol error.
    pub fn resume(&mut self, input: Option<Io>) -> (r: Result<SecretValue, Io>)
        ensures
            ({
                let s0 = old(self).state();
                match s0 {
                    ReadState::Literal { value } => {
                        &&& r matches Ok(v) && v@ == value
                        &&& final(self).state() is Done
                    },
                    ReadState::Done => {
                        &&& r matches Err(e) && e matches Io::Error(m) && m@ == completed_note()
                        &&& final(self).state() is Done
                    },
                    ReadState::Command { started } => {
                        if !accepts(s0, input) {
                            &&& r matches Err(e) && e matches Io::Error(m) && m@ == mismatch_note(
                                s0,
                                input,
                            )
                            &&& final(self).state() is Done
                        } else {
                            &&& (r matches Ok(_) ==> final(self).state() is Done)
                            &&& (r matches Err(e) ==> match e {
                                Io::Command(_) => final(self).state() == (ReadState::Command {
                                    started: true,
                                }),
                                Io::Error(_) => final(self).state() is Done,
                                Io::Keyring(_) => false,
                            })
                        }
                    },
                    ReadState::Keyring { started } => {
                        if !accepts(s0, input) {
                            &&& r matches Err(e) && e matches Io::Error(m) && m@ == mismatch_note(
                                s0,
                                input,
                            )
                            &&& final(self).state() is Done
                        } else {
                            &&& (r matches Ok(_) ==> final(self).state() is Done)
                            &&& (r matches Err(e) ==> match e {
                                Io::Keyring(_) => final(self).state() == (ReadState::Keyring {
                                    started: true,
                                }),
                                Io::Error(_) => final(self).state() is Done,
                                Io::Command(_) => false,
                            })
                        }
                    },
                }
            }),
    {
        let mut taken = SubRead::Done;
        core::mem::swap(&mut self.read, &mut taken);
        match taken {
            SubRead::Raw(value) => Ok(value),
            SubRead::Done => Err(Io::Error("coroutine already completed".to_owned())),
            SubRead::Process { co, started } => {
                let mut co = co;
                let forward: Option<io_process::io::ProcessIo> = match input {
                    None => {
                        if started {
                            return Err(
                                Io::Error("expected command input, got no input".to_owned()),
                            );
                        }
                        None
                    },
                    Some(Io::Command(io)) => Some(io),
                    Some(Io::Keyring(_)) => {
                        return Err(
                            Io::Error("expected command input, got keyring input".to_owned()),
                        );
                    },
                    Some(Io::Error(_)) => {
                        return Err(
                            Io::Error("expected command input, got error input".to_owned()),
                        );
                    },
                };
                match process_read_resume(&mut co, forward) {
                    ProcessStep::Output(bytes) => Ok(first_line_secret(bytes.as_slice())),
                    ProcessStep::Pending(io) => {
                        self.read = SubRead::Process { co, started: true };
                        Err(Io::Command(io))
                    },
                    ProcessStep::Failed(message) => Err(Io::Error(message)),
                }
            },
            SubRead::Keyring { co, started } => {
                let mut co = co;
                let forward: Option<io_keyring::io::KeyringIo> = match input {
                    None => {
                        if started {
                            return Err(
                                Io::Error("expected keyring input, got no input".to_owned()),
                            );
                        }
                        None
                    },
                    Some(Io::Keyring(io)) => Some(io),
                    Some(Io::Command(_)) => {
                        return Err(
                            Io::Error("expected keyring input, got command input".to_owned()),
                        );
                    },
                    Some(Io::Error(_)) => {
                        return Err(
                            Io::Error("expected keyring input, got error input".to_owned()),
                        );
                    },
                };
                match keyring_read_resume(&mut co, forward) {
                    KeyringStep::Secret(text) => Ok(SecretValue::new(text)),
                    KeyringStep::Pending(io) => {
                        self.read = SubRead::Keyring { co, started: true };
                        Err(Io::Keyring(io))
                    },
                    KeyringStep::Failed(message) => Err(Io::Error(message)),
                }
            },
        }
    }
}

} // verus!
