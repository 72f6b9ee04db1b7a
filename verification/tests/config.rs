use io_secret::serde::Secret as Wire;
use io_secret::serde::{deserialize, serialize, BackendKind, ConfigError};
use io_secret::{Backends, CommandSpec, Entry, Secret, SecretValue};

fn all() -> Backends {
    Backends::all()
}

fn expect_err(r: Result<Secret, ConfigError>) -> ConfigError {
    match r {
        Ok(_) => panic!("expected an error"),
        Err(err) => err,
    }
}

#[test]
fn serialize_raw() {
    let secret = deserialize("raw = \"password\"", all()).unwrap();
    let Secret::Raw(secret) = secret else {
        panic!("should serialize Secret::Raw variant");
    };

    assert_eq!(secret.expose_secret(), "password");
}

#[test]
fn deserialize_raw() {
    let secret = Secret::Raw(SecretValue::new("password".to_string()));
    let toml = serialize(&secret);

    assert_eq!(toml.trim(), "raw = \"password\"");
}

#[test]
fn serialize_command_str() {
    let secret = deserialize("command = \"echo password\"", all()).unwrap();
    let Secret::Command(cmd) = secret else {
        panic!("should serialize Secret::Command variant");
    };

    assert_eq!(cmd.program, "echo");

    let args = cmd.args;
    assert_eq!(1, args.len());

    let arg = args.into_iter().next().unwrap();
    assert_eq!(arg, "password");
}

#[test]
fn serialize_command_seq() {
    let secret = deserialize("command = [\"echo\", \"password\"]", all()).unwrap();
    let Secret::Command(cmd) = secret else {
        panic!("should serialize Secret::Command variant");
    };

    assert_eq!(cmd.program, "echo");

    let args = cmd.args;
    assert_eq!(1, args.len());

    let arg = args.into_iter().next().unwrap();
    assert_eq!(arg, "password");
}

#[test]
fn serialize_command() {
    let backends = Backends { command: false, keyring: true };
    let err = expect_err(deserialize("command = \"echo password\"", backends));
    assert_eq!(err.message(), "missing `command` cargo feature");
}

#[test]
fn deserialize_command() {
    let mut cmd = CommandSpec { program: "echo".to_string(), args: Vec::new() };
    cmd.args.push("password".to_string());

    let secret = Secret::Command(cmd);
    let toml = serialize(&secret);

    assert_eq!(toml.trim(), "command = [\"echo\", \"password\"]");
}

#[test]
fn serialize_keyring() {
    let secret = deserialize("keyring = \"entry\"", all()).unwrap();
    let Secret::Keyring(entry) = secret else {
        panic!("should serialize Secret::Keyring variant");
    };

    assert_eq!(entry.name, "entry");
}

#[test]
fn serde_serialize_keyring() {
    let backends = Backends { command: true, keyring: false };
    let err = expect_err(deserialize("keyring = \"echo password\"", backends));
    assert_eq!(err.message(), "missing `keyring` cargo feature");
}

#[test]
fn deserialize_keyring() {
    let entry = Entry { name: "entry".to_string() };
    let secret = Secret::Keyring(entry);
    let toml = serialize(&secret);

    assert_eq!(toml.trim(), "keyring = \"entry\"");
}

#[test]
fn cmd_is_an_alias_of_command() {
    let secret = deserialize("cmd = \"echo password\"", all()).unwrap();
    let Secret::Command(cmd) = secret else {
        panic!("cmd should be read as a command");
    };
    assert_eq!(cmd.program, "echo");
    assert_eq!(cmd.args, vec!["password".to_string()]);
}

#[test]
fn empty_command_string_is_rejected() {
    let err = expect_err(deserialize("command = \"\"", all()));
    assert_eq!(err, ConfigError::EmptyCommand);
    assert_eq!(err.message(), "command cannot be empty");

    let err = expect_err(deserialize("command = \"  \t \"", all()));
    assert_eq!(err, ConfigError::EmptyCommand);
}

#[test]
fn empty_command_array_is_rejected() {
    let err = expect_err(deserialize("command = []", all()));
    assert_eq!(err, ConfigError::EmptyCommand);
}

#[test]
fn malformed_lines_are_syntax_errors() {
    assert_eq!(expect_err(deserialize("raw = password", all())), ConfigError::Syntax);
    assert_eq!(expect_err(deserialize("raw = \"unterminated", all())), ConfigError::Syntax);
    assert_eq!(expect_err(deserialize("", all())), ConfigError::Syntax);
    assert_eq!(expect_err(deserialize("token = \"x\"", all())), ConfigError::Syntax);
    assert_eq!(expect_err(deserialize("keyring = [\"a\"]", all())), ConfigError::Syntax);
    assert_eq!(expect_err(deserialize("raw = \"a\" extra", all())), ConfigError::Syntax);
    assert_eq!(
        expect_err(deserialize("raw = \"back\\slash\"", all())),
        ConfigError::Syntax,
    );
}

#[test]
fn whitespace_is_tolerated_around_tokens() {
    let secret = deserialize("  raw\t=  \"password\" \n", all()).unwrap();
    let Secret::Raw(secret) = secret else {
        panic!("should read the raw variant");
    };
    assert_eq!(secret.expose_secret(), "password");

    let secret = deserialize("command = [ \"echo\" , \"a b\" ,]", all()).unwrap();
    let Secret::Command(cmd) = secret else {
        panic!("should read the command variant");
    };
    assert_eq!(cmd.program, "echo");
    assert_eq!(cmd.args, vec!["a b".to_string()]);
}

#[test]
fn stored_configurations_load_back() {
    let secret = Secret::Raw(SecretValue::new("p4ss w0rd".to_string()));
    let Secret::Raw(value) = deserialize(&serialize(&secret), all()).unwrap() else {
        panic!("a stored raw secret must load back");
    };
    assert_eq!(value.expose_secret(), "p4ss w0rd");

    let secret = Secret::Command(CommandSpec {
        program: "my program".to_string(),
        args: vec![String::new(), "a, b".to_string()],
    });
    let Secret::Command(cmd) = deserialize(&serialize(&secret), all()).unwrap() else {
        panic!("a stored command must load back");
    };
    assert_eq!(cmd.program, "my program");
    assert_eq!(cmd.args, vec![String::new(), "a, b".to_string()]);

    let secret = Secret::Keyring(Entry { name: "entry".to_string() });
    let Secret::Keyring(entry) = deserialize(&serialize(&secret), all()).unwrap() else {
        panic!("a stored keyring entry must load back");
    };
    assert_eq!(entry.name, "entry");
}

#[test]
fn wire_conversion_gates_disabled_backends() {
    let err = expect_err(io_secret::Secret::try_from(Wire::CommandUnavailable));
    assert_eq!(err, ConfigError::UnavailableBackend(BackendKind::Command));
    assert_eq!(err.message(), "missing `command` cargo feature");

    let err = expect_err(io_secret::Secret::try_from(Wire::KeyringUnavailable));
    assert_eq!(err, ConfigError::UnavailableBackend(BackendKind::Keyring));

    let secret = io_secret::Secret::try_from(Wire::Raw(SecretValue::new("x".to_string())));
    let Ok(io_secret::Secret::Raw(value)) = secret else {
        panic!("an available backend must convert");
    };
    assert_eq!(value.expose_secret(), "x");

    let entry = Entry { name: "entry".to_string() };
    let wire = io_secret::Secret::Keyring(entry).into();
    let Wire::Keyring(entry) = wire else {
        panic!("the wire form must keep the variant");
    };
    assert_eq!(entry.name, "entry");
}
