use io_secret::coroutines::read::first_line_secret;
use io_secret::coroutines::Read;
use io_secret::{CommandSpec, Entry, Io, Secret, SecretValue};

fn command_secret() -> Secret {
    Secret::Command(CommandSpec {
        program: "echo".to_string(),
        args: vec!["password".to_string()],
    })
}

#[test]
fn literal_identity() {
    let mut read = Read::new(Secret::Raw(SecretValue::new("s3cr3t".to_string())));
    match read.resume(None) {
        Ok(value) => assert_eq!(value.expose_secret(), "s3cr3t"),
        Err(_) => panic!("a literal must resolve on the first resume, with no I/O"),
    }
}

#[test]
fn resume_after_completion_errors() {
    let mut read = Read::new(Secret::Raw(SecretValue::new("x".to_string())));
    assert!(read.resume(None).is_ok());
    for _ in 0..2 {
        match read.resume(None) {
            Err(Io::Error(m)) => assert_eq!(m, "coroutine already completed"),
            _ => panic!("a completed coroutine must report a protocol error"),
        }
    }
}

#[test]
fn first_line_extraction() {
    assert_eq!(first_line_secret(b"secret\nextra\n").expose_secret(), "secret");
    assert_eq!(first_line_secret(b"secret").expose_secret(), "secret");
    assert_eq!(first_line_secret(b"").expose_secret(), "");
    assert_eq!(first_line_secret(b"password\n").expose_secret(), "password");
}

#[test]
fn command_rejects_keyring_result() {
    let mut read = Read::new(command_secret());
    match read.resume(None) {
        Err(Io::Command(_)) => {}
        _ => panic!("the first resume must emit a command request"),
    }

    let stray = io_keyring::io::KeyringIo::Read(Ok(secrecy::SecretString::from("oops")));
    match read.resume(Some(Io::Keyring(stray))) {
        Err(Io::Error(m)) => assert_eq!(m, "expected command input, got keyring input"),
        _ => panic!("a wrong-tagged result must be a protocol error"),
    }

    // the protocol error completed the coroutine
    match read.resume(None) {
        Err(Io::Error(m)) => assert_eq!(m, "coroutine already completed"),
        _ => panic!("a completed coroutine must report a protocol error"),
    }
}

#[test]
fn keyring_rejects_command_result() {
    let mut read = Read::new(Secret::Keyring(Entry { name: "entry".to_string() }));
    match read.resume(None) {
        Err(Io::Keyring(_)) => {}
        _ => panic!("the first resume must emit a keyring request"),
    }

    let stray = io_process::io::ProcessIo::SpawnThenWaitWithOutput(Err(
        io_process::command::Command::new("echo"),
    ));
    match read.resume(Some(Io::Command(stray))) {
        Err(Io::Error(m)) => assert_eq!(m, "expected keyring input, got command input"),
        _ => panic!("a wrong-tagged result must be a protocol error"),
    }
}

#[test]
fn missing_input_after_start_errors() {
    let mut read = Read::new(command_secret());
    match read.resume(None) {
        Err(Io::Command(_)) => {}
        _ => panic!("the first resume must emit a command request"),
    }

    match read.resume(None) {
        Err(Io::Error(m)) => assert_eq!(m, "expected command input, got no input"),
        _ => panic!("a missing result after the first resume must be a protocol error"),
    }
}

#[test]
fn error_input_is_rejected() {
    let mut read = Read::new(command_secret());
    match read.resume(Some(Io::Error("stray".to_string()))) {
        Err(Io::Error(m)) => assert_eq!(m, "expected command input, got error input"),
        _ => panic!("an error-tagged input must be a protocol error"),
    }
}

#[test]
fn keyring_lookup_completes() {
    let mut read = Read::new(Secret::Keyring(Entry { name: "entry".to_string() }));
    match read.resume(None) {
        Err(Io::Keyring(_)) => {}
        _ => panic!("the first resume must emit a keyring request"),
    }

    let answer = io_keyring::io::KeyringIo::Read(Ok(secrecy::SecretString::from("password")));
    match read.resume(Some(Io::Keyring(answer))) {
        Ok(value) => assert_eq!(value.expose_secret(), "password"),
        Err(_) => panic!("a completed lookup must resolve the secret"),
    }
}

#[test]
fn end_to_end_echo() {
    let mut read = Read::new(command_secret());
    let request = match read.resume(None) {
        Err(Io::Command(io)) => io,
        _ => panic!("the first resume must emit a spawn request"),
    };

    let done = io_process::runtimes::std::handle(request).expect("echo should run");
    match read.resume(Some(Io::Command(done))) {
        Ok(value) => assert_eq!(value.expose_secret(), "password"),
        Err(_) => panic!("the captured output must resolve the secret"),
    }
}
