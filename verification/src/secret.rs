//! The secret configuration: how a secret value is to be obtained.

use vstd::prelude::*;

verus! {

/// A sensitive string: the final value of a secret acquisition.
///
/// The wrapped text is reachable only through [`SecretValue::expose_secret`],
/// an explicit, intentional accessor; the type has no `Debug` or `Display`
/// form, so the value cannot leak into logs by accident.
#[derive(Clone)]
pub struct SecretValue {
    value: String,
}

impl View for SecretValue {
    type V = Seq<char>;

    closed spec fn view(&self) -> Seq<char> {
        self.value@
    }
}

impl SecretValue {
    /// Wraps an in-memory string as a sensitive value.
    pub fn new(value: String) -> (r: SecretValue)
        ensures
            r@ == value@,
    {
        SecretValue { value }
    }

    /// Intentionally reveals the sensitive text.
    pub fn expose_secret(&self) -> (r: &str)
        ensures
            r@ == self@,
    {
        self.value.as_str()
    }
}

/// An executable path plus its ordered argument list: a value-level
/// description of a command, not yet executed.
#[derive(Clone)]
pub struct CommandSpec {
    pub program: String,
    pub args: Vec<String>,
}

/// The name of an entry in the platform credential store: an opaque
/// lookup key.
#[derive(Clone)]
pub struct Entry {
    pub name: String,
}

/// Which acquisition backends the host enables.
///
/// A configuration that selects a disabled backend is rejected when it is
/// converted or deserialized, never at resume time.
#[derive(Clone, Copy, Debug, PartialEq, Eq, Structural)]
pub struct Backends {
    pub command: bool,
    pub keyring: bool,
}

impl Backends {
    /// Both backends enabled.
    pub fn all() -> (r: Backends)
        ensures
            r.command,
            r.keyring,
    {
        Backends { command: true, keyring: true }
    }
}

/// The mathematical shape of a secret configuration: each variant reduced
/// to the plain character sequences it carries.
pub enum ConfigModel {
    Raw(Seq<char>),
    Command(Seq<char>, Seq<Seq<char>>),
    Keyring(Seq<char>),
}

/// The secret configuration.
///
/// A secret can be retrieved either from a raw string, from a shell
/// command, or from a keyring entry.
#[derive(Clone)]
pub enum Secret {
    /// The secret is contained in a raw string.
    ///
    /// This variant is not safe to use and therefore not recommended,
    /// yet it works well for testing purposes.
    Raw(SecretValue),

    /// The secret is the first line printed by the given command.
    Command(CommandSpec),

    /// The secret is contained in the platform credential store at the
    /// given entry.
    Keyring(Entry),
}

impl View for Secret {
    type V = ConfigModel;

    open spec fn view(&self) -> ConfigModel {
        match self {
            Secret::Raw(v) => ConfigModel::Raw(v@),
            Secret::Command(c) => ConfigModel::Command(c.program@, c.args.deep_view()),
            Secret::Keyring(e) => ConfigModel::Keyring(e.name@),
        }
    }
}

} // verus!
