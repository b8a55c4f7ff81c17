use sftp_engine::errors::FsError;
use sftp_engine::errors::Outcome;
use sftp_engine::types::choose_auth_method;
use sftp_engine::types::AuthMethod;
use sftp_engine::types::ConnectionConfig;

fn config() -> ConnectionConfig {
    ConnectionConfig {
        host: String::from("example.net"),
        port: 22,
        username: String::from("u"),
        password: None,
        private_key_path: None,
        passphrase: None,
    }
}

#[test]
fn key_is_preferred_over_password() {
    let mut c = config();
    c.private_key_path = Some(String::from("/home/u/key"));
    c.passphrase = Some(String::from("pp"));
    c.password = Some(String::from("pw"));
    match choose_auth_method(&c).unwrap() {
        AuthMethod::Key { private_key_path, passphrase } => {
            assert_eq!(private_key_path, "/home/u/key");
            assert_eq!(passphrase.as_deref(), Some("pp"));
        }
        AuthMethod::Password { .. } => panic!("the key should be preferred"),
    }
}

#[test]
fn password_is_the_fallback() {
    let mut c = config();
    c.password = Some(String::from("pw"));
    match choose_auth_method(&c).unwrap() {
        AuthMethod::Password { password } => assert_eq!(password, "pw"),
        AuthMethod::Key { .. } => panic!("no key was configured"),
    }
}

#[test]
fn no_credential_is_an_authentication_failure() {
    let c = config();
    assert!(matches!(choose_auth_method(&c), Err(FsError::AuthenticationFailed)));
}

#[test]
fn outcome_completion_query() {
    assert!(Outcome::Completed.is_completed());
    assert!(!Outcome::Cancelled.is_completed());
    assert!(!Outcome::Failed(FsError::TimedOut).is_completed());
}
