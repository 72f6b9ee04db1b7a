//! Loading and storing the secret configuration.
//!
//! The serialized form is a single `key = value` line with keys
//! `raw | command | keyring` (`cmd` is accepted as an alias of `command`).
//! A command value is either one quoted string — a shell-like form, split
//! at whitespace into program and arguments — or an array of quoted
//! strings, the program first. Loading a configuration that selects a
//! backend the host has disabled fails with a named error instead of
//! constructing anything.

use vstd::prelude::*;
use vstd::string::{StrSliceExecFns, StringExecFns};

use crate::secret::{Backends, CommandSpec, ConfigModel, Entry, SecretValue};

verus! {

/// The backend selected by a configuration.
#[derive(Clone, Copy, Debug, PartialEq, Eq, Structural)]
pub enum BackendKind {
    Command,
    Keyring,
}

/// Why loading or converting a secret configuration failed.
#[derive(Clone, Copy, Debug, PartialEq, Eq, Structural)]
pub enum ConfigError {
    /// The configuration selects a backend the host has disabled.
    UnavailableBackend(BackendKind),
    /// A command configuration carries no program at all.
    EmptyCommand,
    /// The input is not a well-formed one-line configuration.
    Syntax,
}

impl ConfigError {
    /// The failure message that [`ConfigError::message`] returns.
    pub open spec fn message_note(&self) -> Seq<char> {
        match self {
            ConfigError::UnavailableBackend(BackendKind::Command) => {
                "missing `command` cargo feature"@
            },
            ConfigError::UnavailableBackend(BackendKind::Keyring) => {
                "missing `keyring` cargo feature"@
            },
            ConfigError::EmptyCommand => "command cannot be empty"@,
            ConfigError::Syntax => "invalid secret configuration"@,
        }
    }

    /// A human-readable description of the failure.
    pub fn message(&self) -> (r: String)
        ensures
            r@ == self.message_note(),
    {
        match self {
            ConfigError::UnavailableBackend(BackendKind::Command) => {
                "missing `command` cargo feature".to_owned()
            },
            ConfigError::UnavailableBackend(BackendKind::Keyring) => {
                "missing `keyring` cargo feature".to_owned()
            },
            ConfigError::EmptyCommand => "command cannot be empty".to_owned(),
            ConfigError::Syntax => "invalid secret configuration".to_owned(),
        }
    }
}

/// The mathematical shape of a wire-form configuration.
pub enum WireModel {
    Raw(Seq<char>),
    Command(Seq<char>, Seq<Seq<char>>),
    CommandUnavailable,
    Keyring(Seq<char>),
    KeyringUnavailable,
}

/// The wire form of the secret configuration: what the serialized form
/// describes, before the host's enabled backends are taken into account.
///
/// A backend the host has disabled appears as its `…Unavailable` variant;
/// converting such a value into a [`crate::Secret`] fails with
/// [`ConfigError::UnavailableBackend`].
pub enum Secret {
    Raw(SecretValue),
    Command(CommandSpec),
    CommandUnavailable,
    Keyring(Entry),
    KeyringUnavailable,
}

impl View for Secret {
    type V = WireModel;

    open spec fn view(&self) -> WireModel {
        match self {
            Secret::Raw(v) => WireModel::Raw(v@),
            Secret::Command(c) => WireModel::Command(c.program@, c.args.deep_view()),
            Secret::CommandUnavailable => WireModel::CommandUnavailable,
            Secret::Keyring(e) => WireModel::Keyring(e.name@),
            Secret::KeyringUnavailable => WireModel::KeyringUnavailable,
        }
    }
}

/// The wire form of a secret configuration.
pub open spec fn wire_of(m: ConfigModel) -> WireModel {
    match m {
        ConfigModel::Raw(v) => WireModel::Raw(v),
        ConfigModel::Command(p, args) => WireModel::Command(p, args),
        ConfigModel::Keyring(n) => WireModel::Keyring(n),
    }
}

impl crate::Secret {
    /// Converts a wire-form configuration into the secret configuration.
    ///
    /// A backend the host has disabled is rejected here, at construction
    /// time and never at resume time; nothing is partially constructed
    /// from it.
    pub fn try_from(wire: Secret) -> (r: Result<crate::Secret, ConfigError>)
        ensures
            match wire@ {
                WireModel::Raw(v) => r matches Ok(s) && s@ == ConfigModel::Raw(v),
                WireModel::Command(p, args) => r matches Ok(s) && s@ == (ConfigModel::Command(
                    p,
                    args,
                )),
                WireModel::CommandUnavailable => r == Err::<crate::Secret, ConfigError>(
                    ConfigError::UnavailableBackend(BackendKind::Command),
                ),
                WireModel::Keyring(n) => r matches Ok(s) && s@ == ConfigModel::Keyring(n),
                WireModel::KeyringUnavailable => r == Err::<crate::Secret, ConfigError>(
                    ConfigError::UnavailableBackend(BackendKind::Keyring),
                ),
            },
    {
        match wire {
            Secret::Raw(v) => Ok(crate::Secret::Raw(v)),
            Secret::Command(c) => Ok(crate::Secret::Command(c)),
            Secret::CommandUnavailable => Err(
                ConfigError::UnavailableBackend(BackendKind::Command),
            ),
            Secret::Keyring(e) => Ok(crate::Secret::Keyring(e)),
            Secret::KeyringUnavailable => Err(
                ConfigError::UnavailableBackend(BackendKind::Keyring),
            ),
        }
    }

    /// Converts the secret configuration into its wire form.
    pub fn into(self) -> (r: Secret)
        ensures
            r@ == wire_of(self@),
    {
        match self {
            crate::Secret::Raw(v) => Secret::Raw(v),
            crate::Secret::Command(c) => Secret::Command(c),
            crate::Secret::Keyring(e) => Secret::Keyring(e),
        }
    }
}

// ---------------------------------------------------------------------
// Character classes of the serialized form.
// ---------------------------------------------------------------------

/// Whitespace of the serialized form.
pub open spec fn is_ws(c: char) -> bool {
    c == ' ' || c == '\t' || c == '\n' || c == '\r'
}

fn ws_char(c: char) -> (r: bool)
    ensures
        r == is_ws(c),
{
    c == ' ' || c == '\t' || c == '\n' || c == '\r'
}

/// Characters a key is made of: lower-case ASCII letters.
pub open spec fn is_key_char(c: char) -> bool {
    'a' <= c && c <= 'z'
}

fn key_char(c: char) -> (r: bool)
    ensures
        r == is_key_char(c),
{
    'a' <= c && c <= 'z'
}

/// Characters allowed inside a quoted string: everything but the closing
/// quote, a backslash (no escape sequences exist in this form), and a
/// line break.
pub open spec fn is_string_char(c: char) -> bool {
    c != '"' && c != '\\' && c != '\n' && c != '\r'
}

fn string_char(c: char) -> (r: bool)
    ensures
        r == is_string_char(c),
{
    c != '"' && c != '\\' && c != '\n' && c != '\r'
}

// ---------------------------------------------------------------------
// The scanner.
// ---------------------------------------------------------------------

/// The shape of a parsed configuration value: one quoted string, or an
/// array of quoted strings.
pub enum ValueModel {
    Str(Seq<char>),
    Arr(Seq<Seq<char>>),
}

/// The states of the one-line configuration scanner.
pub enum ScanState {
    Leading,
    Key { key: Seq<char> },
    AfterKey { key: Seq<char> },
    AfterEq { key: Seq<char> },
    Quoted { key: Seq<char>, cur: Seq<char> },
    ArrItem { key: Seq<char>, acc: Seq<Seq<char>> },
    ArrQuoted { key: Seq<char>, acc: Seq<Seq<char>>, cur: Seq<char> },
    ArrSep { key: Seq<char>, acc: Seq<Seq<char>> },
    Trailing { key: Seq<char>, value: ValueModel },
}

/// Scans `key = value` one character at a time, starting at index `i` in
/// state `st`. `None` means the input is not well formed.
pub open spec fn scan(s: Seq<char>, i: int, st: ScanState) -> Option<(Seq<char>, ValueModel)>
    decreases s.len() - i
        when 0 <= i <= s.len()
{
    if i == s.len() {
        match st {
            ScanState::Trailing { key, value } => Some((key, value)),
            _ => None,
        }
    } else {
        let c = s[i];
        match st {
            ScanState::Leading => if is_ws(c) {
                scan(s, i + 1, ScanState::Leading)
            } else if is_key_char(c) {
                scan(s, i + 1, ScanState::Key { key: seq![c] })
            } else {
                None
            },
            ScanState::Key { key } => if is_key_char(c) {
                scan(s, i + 1, ScanState::Key { key: key.push(c) })
            } else if is_ws(c) {
                scan(s, i + 1, ScanState::AfterKey { key })
            } else if c == '=' {
                scan(s, i + 1, ScanState::AfterEq { key })
            } else {
                None
            },
            ScanState::AfterKey { key } => if is_ws(c) {
                scan(s, i + 1, ScanState::AfterKey { key })
            } else if c == '=' {
                scan(s, i + 1, ScanState::AfterEq { key })
            } else {
                None
            },
            ScanState::AfterEq { key } => if is_ws(c) {
                scan(s, i + 1, ScanState::AfterEq { key })
            } else if c == '"' {
                scan(s, i + 1, ScanState::Quoted { key, cur: Seq::empty() })
            } else if c == '[' {
                scan(s, i + 1, ScanState::ArrItem { key, acc: Seq::empty() })
            } else {
                None
            },
            ScanState::Quoted { key, cur } => if c == '"' {
                scan(s, i + 1, ScanState::Trailing { key, value: ValueModel::Str(cur) })
            } else if is_string_char(c) {
                scan(s, i + 1, ScanState::Quoted { key, cur: cur.push(c) })
            } else {
                None
            },
            ScanState::ArrItem { key, acc } => if is_ws(c) {
                scan(s, i + 1, ScanState::ArrItem { key, acc })
            } else if c == '"' {
                scan(s, i + 1, ScanState::ArrQuoted { key, acc, cur: Seq::empty() })
            } else if c == ']' {
                scan(s, i + 1, ScanState::Trailing { key, value: ValueModel::Arr(acc) })
            } else {
                None
            },
            ScanState::ArrQuoted { key, acc, cur } => if c == '"' {
                scan(s, i + 1, ScanState::ArrSep { key, acc: acc.push(cur) })
            } else if is_string_char(c) {
                scan(s, i + 1, ScanState::ArrQuoted { key, acc, cur: cur.push(c) })
            } else {
                None
            },
            ScanState::ArrSep { key, acc } => if is_ws(c) {
                scan(s, i + 1, ScanState::ArrSep { key, acc })
            } else if c == ',' {
                scan(s, i + 1, ScanState::ArrItem { key, acc })
            } else if c == ']' {
                scan(s, i + 1, ScanState::Trailing { key, value: ValueModel::Arr(acc) })
            } else {
                None
            },
            ScanState::Trailing { key, value } => if is_ws(c) {
                scan(s, i + 1, ScanState::Trailing { key, value })
            } else {
                None
            },
        }
    }
}

enum ParsedValue {
    Str(Vec<char>),
    Arr(Vec<String>),
}

impl View for ParsedValue {
    type V = ValueModel;

    closed spec fn view(&self) -> ValueModel {
        match self {
            ParsedValue::Str(v) => ValueModel::Str(v@),
            ParsedValue::Arr(a) => ValueModel::Arr(a.deep_view()),
        }
    }
}

enum Scan {
    Leading,
    Key { key: Vec<char> },
    AfterKey { key: Vec<char> },
    AfterEq { key: Vec<char> },
    Quoted { key: Vec<char>, cur: Vec<char> },
    ArrItem { key: Vec<char>, acc: Vec<String> },
    ArrQuoted { key: Vec<char>, acc: Vec<String>, cur: Vec<char> },
    ArrSep { key: Vec<char>, acc: Vec<String> },
    Trailing { key: Vec<char>, value: ParsedValue },
}

impl View for Scan {
    type V = ScanState;

    closed spec fn view(&self) -> ScanState {
        match self {
            Scan::Leading => ScanState::Leading,
            Scan::Key { key } => ScanState::Key { key: key@ },
            Scan::AfterKey { key } => ScanState::AfterKey { key: key@ },
            Scan::AfterEq { key } => ScanState::AfterEq { key: key@ },
            Scan::Quoted { key, cur } => ScanState::Quoted { key: key@, cur: cur@ },
            Scan::ArrItem { key, acc } => ScanState::ArrItem { key: key@, acc: acc.deep_view() },
            Scan::ArrQuoted { key, acc, cur } => ScanState::ArrQuoted {
                key: key@,
                acc: acc.deep_view(),
                cur: cur@,
            },
            Scan::ArrSep { key, acc } => ScanState::ArrSep { key: key@, acc: acc.deep_view() },
            Scan::Trailing { key, value } => ScanState::Trailing { key: key@, value: value@ },
        }
    }
}

/// Relies on `String::push`: appends one character.
#[verifier::external_body]
fn push_char(s: &mut String, c: char)
    ensures
        final (s)@ == old(s)@.push(c),
{
    s.push(c);
}

fn chars_to_string(chars: &Vec<char>) -> (r: String)
    ensures
        r@ == chars@,
{
    let mut out = String::new();
    let mut i: usize = 0;
    while i < chars.len()
        invariant
            i <= chars.len(),
            out@ == chars@.take(i as int),
        decreases chars.len() - i,
    {
        push_char(&mut out, chars[i]);
        proof {
            assert(chars@.take((i + 1) as int) =~= chars@.take(i as int).push(chars@[i as int]));
        }
        i += 1;
    }
    proof {
        assert(chars@.take(chars.len() as int) =~= chars@);
    }
    out
}

fn str_chars(s: &str) -> (r: Vec<char>)
    ensures
        r@ == s@,
{
    let n = s.unicode_len();
    let mut out: Vec<char> = Vec::new();
    let mut i: usize = 0;
    while i < n
        invariant
            n == s@.len(),
            i <= n,
            out@ == s@.take(i as int),
        decreases n - i,
    {
        out.push(s.get_char(i));
        proof {
            assert(s@.take((i + 1) as int) =~= s@.take(i as int).push(s@[i as int]));
        }
        i += 1;
    }
    proof {
        assert(s@.take(n as int) =~= s@);
    }
    out
}

fn parse_line(s: &str) -> (r: Result<(Vec<char>, ParsedValue), ConfigError>)
    ensures
        match scan(s@, 0, ScanState::Leading) {
            Some((k, v)) => r matches Ok(kv) && kv.0@ == k && kv.1@ == v,
            None => r == Err::<(Vec<char>, ParsedValue), ConfigError>(ConfigError::Syntax),
        },
{
    let cv = str_chars(s);
    let n = cv.len();
    let mut st = Scan::Leading;
    let mut i: usize = 0;
    while i < n
        invariant
            n == s@.len(),
            cv@ == s@,
            i <= n,
            scan(s@, i as int, st@) == scan(s@, 0, ScanState::Leading),
        decreases n - i,
    {
        let c = cv[i];
        let ghost prev = st@;
        st = match st {
            Scan::Leading => {
                if ws_char(c) {
                    Scan::Leading
                } else if key_char(c) {
                    let key = vec![c];
                    proof {
                        assert(key@ =~= seq![s@[i as int]]);
                    }
                    Scan::Key { key }
                } else {
                    return Err(ConfigError::Syntax);
                }
            },
            Scan::Key { key } => {
                if key_char(c) {
                    let mut key = key;
                    key.push(c);
                    Scan::Key { key }
                } else if ws_char(c) {
                    Scan::AfterKey { key }
                } else if c == '=' {
                    Scan::AfterEq { key }
                } else {
                    return Err(ConfigError::Syntax);
                }
            },
            Scan::AfterKey { key } => {
                if ws_char(c) {
                    Scan::AfterKey { key }
                } else if c == '=' {
                    Scan::AfterEq { key }
                } else {
                    return Err(ConfigError::Syntax);
                }
            },
            Scan::AfterEq { key } => {
                if ws_char(c) {
                    Scan::AfterEq { key }
                } else if c == '"' {
                    let cur: Vec<char> = Vec::new();
                    proof {
                        assert(cur@ =~= Seq::<char>::empty());
                    }
                    Scan::Quoted { key, cur }
                } else if c == '[' {
                    let acc: Vec<String> = Vec::new();
                    proof {
                        assert(acc.deep_view() =~= Seq::<Seq<char>>::empty());
                    }
                    Scan::ArrItem { key, acc }
                } else {
                    return Err(ConfigError::Syntax);
                }
            },
            Scan::Quoted { key, cur } => {
                if c == '"' {
                    Scan::Trailing { key, value: ParsedValue::Str(cur) }
                } else if string_char(c) {
                    let mut cur = cur;
                    cur.push(c);
                    Scan::Quoted { key, cur }
                } else {
                    return Err(ConfigError::Syntax);
                }
            },
            Scan::ArrItem { key, acc } => {
                if ws_char(c) {
                    Scan::ArrItem { key, acc }
                } else if c == '"' {
                    let cur: Vec<char> = Vec::new();
                    proof {
                        assert(cur@ =~= Seq::<char>::empty());
                    }
                    Scan::ArrQuoted { key, acc, cur }
                } else if c == ']' {
                    Scan::Trailing { key, value: ParsedValue::Arr(acc) }
                } else {
                    return Err(ConfigError::Syntax);
                }
            },
            Scan::ArrQuoted { key, acc, cur } => {
                if c == '"' {
                    let mut acc = acc;
                    let ghost acc0 = acc.deep_view();
                    acc.push(chars_to_string(&cur));
                    proof {
                        assert(acc.deep_view() =~= acc0.push(cur@));
                    }
                    Scan::ArrSep { key, acc }
                } else if string_char(c) {
                    let mut cur = cur;
                    cur.push(c);
                    Scan::ArrQuoted { key, acc, cur }
                } else {
                    return Err(ConfigError::Syntax);
                }
            },
            Scan::ArrSep { key, acc } => {
                if ws_char(c) {
                    Scan::ArrSep { key, acc }
                } else if c == ',' {
                    Scan::ArrItem { key, acc }
                } else if c == ']' {
                    Scan::Trailing { key, value: ParsedValue::Arr(acc) }
                } else {
                    return Err(ConfigError::Syntax);
                }
            },
            Scan::Trailing { key, value } => {
                if ws_char(c) {
                    Scan::Trailing { key, value }
                } else {
                    return Err(ConfigError::Syntax);
                }
            },
        };
        proof {
            reveal_with_fuel(scan, 2);
            assert(scan(s@, (i + 1) as int, st@) == scan(s@, i as int, prev));
        }
        i += 1;
    }
    match st {
        Scan::Trailing { key, value } => Ok((key, value)),
        _ => Err(ConfigError::Syntax),
    }
}

// ---------------------------------------------------------------------
// Words of a shell-like command string.
// ---------------------------------------------------------------------

/// Splits a character sequence at whitespace runs, left to right: `cur`
/// is the word being accumulated and `acc` the words already complete.
pub open spec fn split_words_from(
    v: Seq<char>,
    i: int,
    cur: Seq<char>,
    acc: Seq<Seq<char>>,
) -> Seq<Seq<char>>
    decreases v.len() - i
        when 0 <= i <= v.len()
{
    if i == v.len() {
        if cur.len() > 0 {
            acc.push(cur)
        } else {
            acc
        }
    } else if is_ws(v[i]) {
        if cur.len() > 0 {
            split_words_from(v, i + 1, Seq::empty(), acc.push(cur))
        } else {
            split_words_from(v, i + 1, Seq::empty(), acc)
        }
    } else {
        split_words_from(v, i + 1, cur.push(v[i]), acc)
    }
}

/// The whitespace-separated words of a character sequence, in order.
pub open spec fn split_words(v: Seq<char>) -> Seq<Seq<char>> {
    split_words_from(v, 0, Seq::empty(), Seq::empty())
}

fn split_words_exec(v: &Vec<char>) -> (r: Vec<String>)
    ensures
        r.deep_view() == split_words(v@),
{
    let mut acc: Vec<String> = Vec::new();
    let mut cur: Vec<char> = Vec::new();
    proof {
        assert(acc.deep_view() =~= Seq::<Seq<char>>::empty());
        assert(cur@ =~= Seq::<char>::empty());
    }
    let mut i: usize = 0;
    while i < v.len()
        invariant
            i <= v.len(),
            split_words_from(v@, i as int, cur@, acc.deep_view()) == split_words(v@),
        decreases v.len() - i,
    {
        let ghost cur0 = cur@;
        let ghost acc0all = acc.deep_view();
        let c = v[i];
        if ws_char(c) {
            if cur.len() > 0 {
                let ghost acc0 = acc.deep_view();
                acc.push(chars_to_string(&cur));
                proof {
                    assert(acc.deep_view() =~= acc0.push(cur@));
                }
                cur = Vec::new();
                proof {
                    assert(cur@ =~= Seq::<char>::empty());
                }
            }
        } else {
            cur.push(c);
        }
        proof {
            if cur0.len() == 0 {
                assert(cur0 =~= Seq::<char>::empty());
            }
            assert(split_words_from(v@, (i + 1) as int, cur@, acc.deep_view())
                == split_words_from(v@, i as int, cur0, acc0all));
        }
        i += 1;
    }
    if cur.len() > 0 {
        let ghost acc0 = acc.deep_view();
        acc.push(chars_to_string(&cur));
        proof {
            assert(acc.deep_view() =~= acc0.push(cur@));
        }
    }
    acc
}

// ---------------------------------------------------------------------
// Deserialization.
// ---------------------------------------------------------------------

/// What a well-formed `key = value` line means under the given backends.
pub open spec fn interpret(key: Seq<char>, value: ValueModel, b: Backends) -> Result<
    ConfigModel,
    ConfigError,
> {
    if key == "raw"@ {
        match value {
            ValueModel::Str(v) => Ok(ConfigModel::Raw(v)),
            ValueModel::Arr(_) => Err(ConfigError::Syntax),
        }
    } else if key == "command"@ || key == "cmd"@ {
        if !b.command {
            Err(ConfigError::UnavailableBackend(BackendKind::Command))
        } else {
            match value {
                ValueModel::Str(v) => {
                    let words = split_words(v);
                    if words.len() == 0 {
                        Err(ConfigError::EmptyCommand)
                    } else {
                        Ok(ConfigModel::Command(words[0], words.skip(1)))
                    }
                },
                ValueModel::Arr(items) => if items.len() == 0 {
                    Err(ConfigError::EmptyCommand)
                } else {
                    Ok(ConfigModel::Command(items[0], items.skip(1)))
                },
            }
        }
    } else if key == "keyring"@ {
        if !b.keyring {
            Err(ConfigError::UnavailableBackend(BackendKind::Keyring))
        } else {
            match value {
                ValueModel::Str(v) => Ok(ConfigModel::Keyring(v)),
                ValueModel::Arr(_) => Err(ConfigError::Syntax),
            }
        }
    } else {
        Err(ConfigError::Syntax)
    }
}

/// The meaning of a whole configuration document under the given
/// backends.
pub open spec fn spec_deserialize(s: Seq<char>, b: Backends) -> Result<ConfigModel, ConfigError> {
    match scan(s, 0, ScanState::Leading) {
        Some((key, value)) => interpret(key, value, b),
        None => Err(ConfigError::Syntax),
    }
}

fn words_to_command(mut words: Vec<String>) -> (r: Result<crate::Secret, ConfigError>)
    ensures
        words.deep_view().len() == 0 ==> r == Err::<crate::Secret, ConfigError>(
            ConfigError::EmptyCommand,
        ),
        words.deep_view().len() > 0 ==> (r matches Ok(s) && s@ == (ConfigModel::Command(
            words.deep_view()[0],
            words.deep_view().skip(1),
        ))),
{
    let ghost w0 = words.deep_view();
    if words.len() == 0 {
        Err(ConfigError::EmptyCommand)
    } else {
        let program = words.remove(0);
        proof {
            assert(words.deep_view() =~= w0.skip(1));
        }
        Ok(crate::Secret::Command(CommandSpec { program, args: words }))
    }
}

/// Loads a secret configuration from its serialized form.
///
/// The result is exactly what [`spec_deserialize`] gives: the parsed
/// configuration on a well-formed line whose backend is enabled, and
/// otherwise the error naming what went wrong — in particular, a line
/// selecting a disabled backend fails with
/// [`ConfigError::UnavailableBackend`] and constructs nothing.
pub fn deserialize(s: &str, backends: Backends) -> (r: Result<crate::Secret, ConfigError>)
    ensures
        match spec_deserialize(s@, backends) {
            Ok(m) => r matches Ok(sec) && sec@ == m,
            Err(e) => r == Err::<crate::Secret, ConfigError>(e),
        },
{
    let (key, value) = match parse_line(s) {
        Ok(kv) => kv,
        Err(e) => {
            return Err(e);
        },
    };
    let key_s = chars_to_string(&key);
    if key_s == "raw".to_owned() {
        match value {
            ParsedValue::Str(v) => Ok(crate::Secret::Raw(SecretValue::new(chars_to_string(&v)))),
            ParsedValue::Arr(_) => Err(ConfigError::Syntax),
        }
    } else if key_s == "command".to_owned() || key_s == "cmd".to_owned() {
        if !backends.command {
            Err(ConfigError::UnavailableBackend(BackendKind::Command))
        } else {
            match value {
                ParsedValue::Str(v) => words_to_command(split_words_exec(&v)),
                ParsedValue::Arr(items) => words_to_command(items),
            }
        }
    } else if key_s == "keyring".to_owned() {
        if !backends.keyring {
            Err(ConfigError::UnavailableBackend(BackendKind::Keyring))
        } else {
            match value {
                ParsedValue::Str(v) => Ok(
                    crate::Secret::Keyring(Entry { name: chars_to_string(&v) }),
                ),
                ParsedValue::Arr(_) => Err(ConfigError::Syntax),
            }
        }
    } else {
        Err(ConfigError::Syntax)
    }
}

// ---------------------------------------------------------------------
// Serialization.
// ---------------------------------------------------------------------

/// A value wrapped in quotes.
pub open spec fn quote(v: Seq<char>) -> Seq<char> {
    "\""@ + v + "\""@
}

/// The first `i` items of an array value, quoted and comma-separated.
pub open spec fn quoted_prefix(items: Seq<Seq<char>>, i: int) -> Seq<char>
    decreases i
        when 0 <= i <= items.len()
{
    if i <= 0 {
        Seq::empty()
    } else if i == 1 {
        quote(items[0])
    } else {
        quoted_prefix(items, i - 1) + ", "@ + quote(items[i - 1])
    }
}

/// The serialized form of a secret configuration.
pub open spec fn spec_serialize(m: ConfigModel) -> Seq<char> {
    match m {
        ConfigModel::Raw(v) => "raw = "@ + quote(v),
        ConfigModel::Command(p, args) => {
            let items = seq![p] + args;
            "command = ["@ + quoted_prefix(items, items.len() as int) + "]"@
        },
        ConfigModel::Keyring(n) => "keyring = "@ + quote(n),
    }
}

/// Stores a secret configuration in its serialized form.
///
/// A raw secret's value is intentionally written out in the clear: that
/// is what storing the configuration means.
pub fn serialize(secret: &crate::Secret) -> (r: String)
    ensures
        r@ == spec_serialize(secret@),
{
    match secret {
        crate::Secret::Raw(v) => {
            let mut out = "raw = \"".to_owned();
            out.append(v.expose_secret());
            out.append("\"");
            proof {
                reveal_strlit("raw = ");
                reveal_strlit("raw = \"");
                reveal_strlit("\"");
                assert(out@ =~= spec_serialize(secret@));
            }
            out
        },
        crate::Secret::Command(c) => {
            let ghost items = seq![c.program@] + c.args.deep_view();
            let mut out = "command = [\"".to_owned();
            out.append(c.program.as_str());
            out.append("\"");
            proof {
                reveal_strlit("command = [");
                reveal_strlit("command = [\"");
                reveal_strlit("\"");
                assert(out@ =~= "command = ["@ + quoted_prefix(items, 1));
            }
            let mut k: usize = 0;
            while k < c.args.len()
                invariant
                    k <= c.args.len(),
                    items == seq![c.program@] + c.args.deep_view(),
                    items.len() == 1 + c.args.len(),
                    out@ == "command = ["@ + quoted_prefix(items, (k + 1) as int),
                decreases c.args.len() - k,
            {
                out.append(", \"");
                out.append(c.args[k].as_str());
                out.append("\"");
                proof {
                    reveal_strlit(", \"");
                    reveal_strlit(", ");
                    reveal_strlit("\"");
                    assert(items[(k + 1) as int] == c.args.deep_view()[k as int]);
                    assert(out@ =~= "command = ["@ + quoted_prefix(items, (k + 2) as int));
                }
                k += 1;
            }
            out.append("]");
            proof {
                assert(out@ =~= spec_serialize(secret@));
            }
            out
        },
        crate::Secret::Keyring(e) => {
            let mut out = "keyring = \"".to_owned();
            out.append(e.name.as_str());
            out.append("\"");
            proof {
                reveal_strlit("keyring = ");
                reveal_strlit("keyring = \"");
                reveal_strlit("\"");
                assert(out@ =~= spec_serialize(secret@));
            }
            out
        },
    }
}

// ---------------------------------------------------------------------
// The stored form loads back.
// ---------------------------------------------------------------------

/// Whether every character of `v` may stand inside a quoted string of
/// the serialized form.
pub open spec fn clean(v: Seq<char>) -> bool {
    forall|i: int| 0 <= i < v.len() ==> is_string_char(v[i])
}

proof fn lemma_scan_quoted(s: Seq<char>, i: int, key: Seq<char>, cur: Seq<char>, v: Seq<char>)
    requires
        0 <= i,
        i + v.len() <= s.len(),
        s.subrange(i, i + v.len() as int) == v,
        clean(v),
    ensures
        scan(s, i, ScanState::Quoted { key, cur }) == scan(
            s,
            i + v.len() as int,
            ScanState::Quoted { key, cur: cur + v },
        ),
    decreases v.len(),
{
    if v.len() == 0 {
        assert(cur + v =~= cur);
    } else {
        assert(v[0] == s.subrange(i, i + v.len() as int)[0]);
        assert(s[i] == v[0]);
        assert(is_string_char(v[0]));
        assert(s.subrange(i + 1, i + v.len() as int) =~= v.skip(1));
        lemma_scan_quoted(s, i + 1, key, cur.push(v[0]), v.skip(1));
        assert(cur.push(v[0]) + v.skip(1) =~= cur + v);
    }
}

/// Round trip of a raw secret: storing it and loading the stored form
/// gives the same configuration back, under any backends, whenever its
/// value can stand inside a quoted string.
pub proof fn lemma_raw_round_trip(v: Seq<char>, b: Backends)
    requires
        clean(v),
    ensures
        spec_deserialize(spec_serialize(ConfigModel::Raw(v)), b) == Ok::<
            ConfigModel,
            ConfigError,
        >(ConfigModel::Raw(v)),
{
    let s = spec_serialize(ConfigModel::Raw(v));
    reveal_strlit("raw = ");
    reveal_strlit("raw");
    reveal_strlit("\"");
    let k1 = seq!['r'];
    let k2 = k1.push('a');
    let k3 = k2.push('w');
    assert(k3 =~= "raw"@);
    assert(s.len() == 8 + v.len());
    assert(s[0] == 'r' && s[1] == 'a' && s[2] == 'w' && s[3] == ' ' && s[4] == '=' && s[5] == ' '
        && s[6] == '"');
    assert(s[7 + v.len() as int] == '"');
    assert(scan(s, 0, ScanState::Leading) == scan(s, 1, ScanState::Key { key: k1 }));
    assert(scan(s, 1, ScanState::Key { key: k1 }) == scan(s, 2, ScanState::Key { key: k2 }));
    assert(scan(s, 2, ScanState::Key { key: k2 }) == scan(s, 3, ScanState::Key { key: k3 }));
    assert(scan(s, 3, ScanState::Key { key: k3 }) == scan(s, 4, ScanState::AfterKey { key: k3 }));
    assert(scan(s, 4, ScanState::AfterKey { key: k3 }) == scan(
        s,
        5,
        ScanState::AfterEq { key: k3 },
    ));
    assert(scan(s, 5, ScanState::AfterEq { key: k3 }) == scan(
        s,
        6,
        ScanState::AfterEq { key: k3 },
    ));
    assert(scan(s, 6, ScanState::AfterEq { key: k3 }) == scan(
        s,
        7,
        ScanState::Quoted { key: k3, cur: Seq::empty() },
    ));
    assert(s.subrange(7, 7 + v.len() as int) =~= v);
    lemma_scan_quoted(s, 7, k3, Seq::empty(), v);
    assert(Seq::<char>::empty() + v =~= v);
    assert(scan(s, 7 + v.len() as int, ScanState::Quoted { key: k3, cur: v }) == scan(
        s,
        8 + v.len() as int,
        ScanState::Trailing { key: k3, value: ValueModel::Str(v) },
    ));
    assert(scan(s, 8 + v.len() as int, ScanState::Trailing { key: k3, value: ValueModel::Str(v) })
        == Some((k3, ValueModel::Str(v))));
}

/// Round trip of a keyring secret: storing it and loading the stored
/// form gives the same configuration back, under backends that enable
/// the keyring, whenever the entry name can stand inside a quoted string.
pub proof fn lemma_keyring_round_trip(n: Seq<char>, b: Backends)
    requires
        clean(n),
        b.keyring,
    ensures
        spec_deserialize(spec_serialize(ConfigModel::Keyring(n)), b) == Ok::<
            ConfigModel,
            ConfigError,
        >(ConfigModel::Keyring(n)),
{
    let s = spec_serialize(ConfigModel::Keyring(n));
    reveal_strlit("keyring = ");
    reveal_strlit("keyring");
    reveal_strlit("raw");
    reveal_strlit("command");
    reveal_strlit("cmd");
    reveal_strlit("\"");
    let k1 = seq!['k'];
    let k2 = k1.push('e');
    let k3 = k2.push('y');
    let k4 = k3.push('r');
    let k5 = k4.push('i');
    let k6 = k5.push('n');
    let k7 = k6.push('g');
    assert(k7 =~= "keyring"@);
    assert(s.len() == 12 + n.len());
    assert(s[0] == 'k' && s[1] == 'e' && s[2] == 'y' && s[3] == 'r' && s[4] == 'i' && s[5] == 'n'
        && s[6] == 'g' && s[7] == ' ' && s[8] == '=' && s[9] == ' ' && s[10] == '"');
    assert(s[11 + n.len() as int] == '"');
    assert(scan(s, 0, ScanState::Leading) == scan(s, 1, ScanState::Key { key: k1 }));
    assert(scan(s, 1, ScanState::Key { key: k1 }) == scan(s, 2, ScanState::Key { key: k2 }));
    assert(scan(s, 2, ScanState::Key { key: k2 }) == scan(s, 3, ScanState::Key { key: k3 }));
    assert(scan(s, 3, ScanState::Key { key: k3 }) == scan(s, 4, ScanState::Key { key: k4 }));
    assert(scan(s, 4, ScanState::Key { key: k4 }) == scan(s, 5, ScanState::Key { key: k5 }));
    assert(scan(s, 5, ScanState::Key { key: k5 }) == scan(s, 6, ScanState::Key { key: k6 }));
    assert(scan(s, 6, ScanState::Key { key: k6 }) == scan(s, 7, ScanState::Key { key: k7 }));
    assert(scan(s, 7, ScanState::Key { key: k7 }) == scan(s, 8, ScanState::AfterKey { key: k7 }));
    assert(scan(s, 8, ScanState::AfterKey { key: k7 }) == scan(
        s,
        9,
        ScanState::AfterEq { key: k7 },
    ));
    assert(scan(s, 9, ScanState::AfterEq { key: k7 }) == scan(
        s,
        10,
        ScanState::AfterEq { key: k7 },
    ));
    assert(scan(s, 10, ScanState::AfterEq { key: k7 }) == scan(
        s,
        11,
        ScanState::Quoted { key: k7, cur: Seq::empty() },
    ));
    assert(s.subrange(11, 11 + n.len() as int) =~= n);
    lemma_scan_quoted(s, 11, k7, Seq::empty(), n);
    assert(Seq::<char>::empty() + n =~= n);
    assert(scan(s, 11 + n.len() as int, ScanState::Quoted { key: k7, cur: n }) == scan(
        s,
        12 + n.len() as int,
        ScanState::Trailing { key: k7, value: ValueModel::Str(n) },
    ));
    assert(scan(s, 12 + n.len() as int, ScanState::Trailing { key: k7, value: ValueModel::Str(n) })
        == Some((k7, ValueModel::Str(n))));
    assert(k7 != "raw"@);
    assert(k7[0] != "command"@[0]);
    assert(k7 != "command"@);
    assert(k7 != "cmd"@);
}

/// The items of an array value from `j` on, quoted and comma-separated.
pub open spec fn quoted_suffix(items: Seq<Seq<char>>, j: int) -> Seq<char>
    decreases items.len() - j
        when 0 <= j <= items.len()
{
    if j >= items.len() {
        Seq::empty()
    } else if j == items.len() - 1 {
        quote(items[j])
    } else {
        quote(items[j]) + ", "@ + quoted_suffix(items, j + 1)
    }
}

proof fn lemma_prefix_suffix(items: Seq<Seq<char>>, j: int)
    requires
        0 < j < items.len(),
    ensures
        quoted_prefix(items, items.len() as int) == quoted_prefix(items, j) + ", "@
            + quoted_suffix(items, j),
    decreases items.len() - j,
{
    if j == items.len() - 1 {
    } else {
        lemma_prefix_suffix(items, j + 1);
        assert(quoted_prefix(items, j + 1) + ", "@ + quoted_suffix(items, j + 1) =~= quoted_prefix(
            items,
            j,
        ) + ", "@ + (quote(items[j]) + ", "@ + quoted_suffix(items, j + 1)));
    }
}

proof fn lemma_whole_suffix(items: Seq<Seq<char>>)
    requires
        items.len() > 0,
    ensures
        quoted_prefix(items, items.len() as int) == quoted_suffix(items, 0),
{
    if items.len() == 1 {
    } else {
        lemma_prefix_suffix(items, 1);
    }
}

proof fn lemma_scan_arr_quoted(
    s: Seq<char>,
    i: int,
    key: Seq<char>,
    acc: Seq<Seq<char>>,
    cur: Seq<char>,
    v: Seq<char>,
)
    requires
        0 <= i,
        i + v.len() <= s.len(),
        s.subrange(i, i + v.len() as int) == v,
        clean(v),
    ensures
        scan(s, i, ScanState::ArrQuoted { key, acc, cur }) == scan(
            s,
            i + v.len() as int,
            ScanState::ArrQuoted { key, acc, cur: cur + v },
        ),
    decreases v.len(),
{
    if v.len() == 0 {
        assert(cur + v =~= cur);
    } else {
        assert(v[0] == s.subrange(i, i + v.len() as int)[0]);
        assert(s[i] == v[0]);
        assert(is_string_char(v[0]));
        assert(s.subrange(i + 1, i + v.len() as int) =~= v.skip(1));
        lemma_scan_arr_quoted(s, i + 1, key, acc, cur.push(v[0]), v.skip(1));
        assert(cur.push(v[0]) + v.skip(1) =~= cur + v);
    }
}

proof fn lemma_scan_items(
    s: Seq<char>,
    i: int,
    key: Seq<char>,
    acc: Seq<Seq<char>>,
    items: Seq<Seq<char>>,
    j: int,
)
    requires
        0 <= j < items.len(),
        forall|k: int| j <= k < items.len() ==> clean(#[trigger] items[k]),
        0 <= i,
        i + quoted_suffix(items, j).len() <= s.len(),
        s.subrange(i, i + quoted_suffix(items, j).len() as int) == quoted_suffix(items, j),
    ensures
        scan(s, i, ScanState::ArrItem { key, acc }) == scan(
            s,
            i + quoted_suffix(items, j).len() as int,
            ScanState::ArrSep { key, acc: acc + items.skip(j) },
        ),
    decreases items.len() - j,
{
    reveal_strlit("\"");
    reveal_strlit(", ");
    let v = items[j];
    let q = quote(v);
    let chunk = quoted_suffix(items, j);
    let rest = quoted_suffix(items, j + 1);
    assert(q.len() == v.len() + 2);
    if j == items.len() - 1 {
        assert(chunk == q);
    } else {
        assert(chunk == q + ", "@ + rest);
    }
    assert(q[0] == '"');
    assert(q[(v.len() + 1) as int] == '"');
    assert(forall|k: int| 0 <= k < v.len() ==> q[1 + k] == v[k]);
    assert(forall|k: int| 0 <= k < q.len() ==> chunk[k] == q[k]);
    assert forall|k: int| 0 <= k < chunk.len() implies s[i + k] == chunk[k] by {
        assert(s.subrange(i, i + chunk.len() as int)[k] == s[i + k]);
    }
    assert(s[i] == '"');
    assert forall|k: int| 0 <= k < v.len() implies s.subrange(i + 1, i + 1 + v.len() as int)[k]
        == v[k] by {
        assert(s[i + 1 + k] == chunk[1 + k]);
        assert(chunk[1 + k] == q[1 + k]);
    }
    assert(s.subrange(i + 1, i + 1 + v.len() as int) =~= v);
    lemma_scan_arr_quoted(s, i + 1, key, acc, Seq::empty(), v);
    assert(Seq::<char>::empty() + v =~= v);
    assert(s[i + 1 + v.len() as int] == '"');
    assert(scan(s, i, ScanState::ArrItem { key, acc }) == scan(
        s,
        i + 1,
        ScanState::ArrQuoted { key, acc, cur: Seq::empty() },
    ));
    assert(scan(s, i + 1 + v.len() as int, ScanState::ArrQuoted { key, acc, cur: v }) == scan(
        s,
        i + 2 + v.len() as int,
        ScanState::ArrSep { key, acc: acc.push(v) },
    ));
    if j == items.len() - 1 {
        assert(acc.push(v) =~= acc + items.skip(j));
    } else {
        assert(chunk[(q.len()) as int] == ',');
        assert(chunk[(q.len() + 1) as int] == ' ');
        assert(s[i + 2 + v.len() as int] == ',');
        assert(s[i + 3 + v.len() as int] == ' ');
        assert(scan(s, i + 2 + v.len() as int, ScanState::ArrSep { key, acc: acc.push(v) })
            == scan(s, i + 3 + v.len() as int, ScanState::ArrItem { key, acc: acc.push(v) }));
        assert(scan(s, i + 3 + v.len() as int, ScanState::ArrItem { key, acc: acc.push(v) })
            == scan(s, i + 4 + v.len() as int, ScanState::ArrItem { key, acc: acc.push(v) }));
        let base = i + 4 + v.len() as int;
        assert forall|k: int| 0 <= k < rest.len() implies s.subrange(
            base,
            base + rest.len() as int,
        )[k] == rest[k] by {
            assert(chunk[(q.len() + 2 + k) as int] == rest[k]);
            assert(s[base + k] == chunk[(q.len() + 2 + k) as int]);
        }
        assert(s.subrange(base, base + rest.len() as int) =~= rest);
        lemma_scan_items(s, base, key, acc.push(v), items, j + 1);
        assert(acc.push(v) + items.skip(j + 1) =~= acc + items.skip(j));
        assert(base + rest.len() as int == i + chunk.len() as int);
    }
}

/// Round trip of a command secret: storing it and loading the stored
/// form gives the same configuration back, under backends that enable
/// commands, whenever the program and every argument can stand inside a
/// quoted string.
pub proof fn lemma_command_round_trip(p: Seq<char>, args: Seq<Seq<char>>, b: Backends)
    requires
        clean(p),
        forall|k: int| 0 <= k < args.len() ==> clean(#[trigger] args[k]),
        b.command,
    ensures
        spec_deserialize(spec_serialize(ConfigModel::Command(p, args)), b) == Ok::<
            ConfigModel,
            ConfigError,
        >(ConfigModel::Command(p, args)),
{
    let items = seq![p] + args;
    let s = spec_serialize(ConfigModel::Command(p, args));
    reveal_strlit("command = [");
    reveal_strlit("command");
    reveal_strlit("raw");
    reveal_strlit("cmd");
    reveal_strlit("]");
    lemma_whole_suffix(items);
    let body = quoted_suffix(items, 0);
    assert(s == "command = ["@ + body + "]"@);
    assert(s.len() == 12 + body.len());
    let k1 = seq!['c'];
    let k2 = k1.push('o');
    let k3 = k2.push('m');
    let k4 = k3.push('m');
    let k5 = k4.push('a');
    let k6 = k5.push('n');
    let k7 = k6.push('d');
    assert(k7 =~= "command"@);
    assert(s[0] == 'c' && s[1] == 'o' && s[2] == 'm' && s[3] == 'm' && s[4] == 'a' && s[5] == 'n'
        && s[6] == 'd' && s[7] == ' ' && s[8] == '=' && s[9] == ' ' && s[10] == '[');
    assert(s[11 + body.len() as int] == ']');
    assert(scan(s, 0, ScanState::Leading) == scan(s, 1, ScanState::Key { key: k1 }));
    assert(scan(s, 1, ScanState::Key { key: k1 }) == scan(s, 2, ScanState::Key { key: k2 }));
    assert(scan(s, 2, ScanState::Key { key: k2 }) == scan(s, 3, ScanState::Key { key: k3 }));
    assert(scan(s, 3, ScanState::Key { key: k3 }) == scan(s, 4, ScanState::Key { key: k4 }));
    assert(scan(s, 4, ScanState::Key { key: k4 }) == scan(s, 5, ScanState::Key { key: k5 }));
    assert(scan(s, 5, ScanState::Key { key: k5 }) == scan(s, 6, ScanState::Key { key: k6 }));
    assert(scan(s, 6, ScanState::Key { key: k6 }) == scan(s, 7, ScanState::Key { key: k7 }));
    assert(scan(s, 7, ScanState::Key { key: k7 }) == scan(s, 8, ScanState::AfterKey { key: k7 }));
    assert(scan(s, 8, ScanState::AfterKey { key: k7 }) == scan(
        s,
        9,
        ScanState::AfterEq { key: k7 },
    ));
    assert(scan(s, 9, ScanState::AfterEq { key: k7 }) == scan(
        s,
        10,
        ScanState::AfterEq { key: k7 },
    ));
    assert(scan(s, 10, ScanState::AfterEq { key: k7 }) == scan(
        s,
        11,
        ScanState::ArrItem { key: k7, acc: Seq::empty() },
    ));
    assert(s.subrange(11, 11 + body.len() as int) =~= body);
    assert(forall|k: int| 0 <= k < items.len() ==> clean(#[trigger] items[k]));
    lemma_scan_items(s, 11, k7, Seq::empty(), items, 0);
    assert(Seq::<Seq<char>>::empty() + items.skip(0) =~= items);
    assert(scan(s, 11 + body.len() as int, ScanState::ArrSep { key: k7, acc: items }) == scan(
        s,
        12 + body.len() as int,
        ScanState::Trailing { key: k7, value: ValueModel::Arr(items) },
    ));
    assert(scan(
        s,
        12 + body.len() as int,
        ScanState::Trailing { key: k7, value: ValueModel::Arr(items) },
    ) == Some((k7, ValueModel::Arr(items))));
    assert(k7 != "raw"@);
    assert(items[0] == p);
    assert(items.skip(1) =~= args);
}

} // verus!
