use content_engine::access::SessionDecision;
use content_engine::account::{AccountError, LoginDetails, RegisterDetails};
use content_engine::store::Store;

fn details(username: &str, email: &str, password: &str) -> RegisterDetails {
    RegisterDetails {
        username: username.to_string(),
        email: email.to_string(),
        password: password.to_string(),
    }
}

#[test]
fn register_then_login() {
    let mut store = Store::new();
    store.register(details("ada", "ada@example.com", "s3cret")).expect("registration succeeds");
    let token = store
        .login(&LoginDetails { username: "ada".to_string(), password: "s3cret".to_string() })
        .expect("the right password logs in");
    assert!(!token.is_empty());
    match store.auth_check(Some(&token)) {
        SessionDecision::Forward(_) => {},
        SessionDecision::Forbidden => panic!("a fresh session token must authenticate"),
    }
}

#[test]
fn wrong_password_is_rejected() {
    let mut store = Store::new();
    store.register(details("ada", "ada@example.com", "s3cret")).expect("registration succeeds");
    match store.login(&LoginDetails {
        username: "ada".to_string(),
        password: "wrong".to_string(),
    }) {
        Err(e @ AccountError::WrongPassword) => assert_eq!(e.status_code(), 401),
        _ => panic!("a wrong password must be rejected"),
    }
}

#[test]
fn unknown_user_is_rejected() {
    let mut store = Store::new();
    match store.login(&LoginDetails {
        username: "nobody".to_string(),
        password: "pw".to_string(),
    }) {
        Err(AccountError::UnknownUser) => {},
        _ => panic!("an unknown username must be rejected"),
    }
}

#[test]
fn duplicate_username_and_email_are_rejected() {
    let mut store = Store::new();
    store.register(details("ada", "ada@example.com", "pw")).expect("registration succeeds");
    match store.register(details("ada", "other@example.com", "pw")) {
        Err(AccountError::UsernameTaken) => {},
        _ => panic!("a taken username must be rejected"),
    }
    match store.register(details("grace", "ada@example.com", "pw")) {
        Err(AccountError::EmailTaken) => {},
        _ => panic!("a taken email must be rejected"),
    }
}

#[test]
fn second_login_invalidates_first_session() {
    let mut store = Store::new();
    store.register(details("ada", "ada@example.com", "s3cret")).expect("registration succeeds");
    let login = LoginDetails { username: "ada".to_string(), password: "s3cret".to_string() };
    let first = store.login(&login).expect("first login succeeds");
    match store.auth_check(Some(&first)) {
        SessionDecision::Forward(_) => {},
        SessionDecision::Forbidden => panic!("the first token must authenticate at first"),
    }
    let second = store.login(&login).expect("second login succeeds");
    assert_ne!(first, second);
    match store.auth_check(Some(&first)) {
        SessionDecision::Forbidden => {},
        SessionDecision::Forward(_) => panic!("the first token must stop authenticating"),
    }
    match store.auth_check(Some(&second)) {
        SessionDecision::Forward(_) => {},
        SessionDecision::Forbidden => panic!("the second token must authenticate"),
    }
}

#[test]
fn logout_removes_the_session() {
    let mut store = Store::new();
    store.register(details("ada", "ada@example.com", "s3cret")).expect("registration succeeds");
    let token = store
        .login(&LoginDetails { username: "ada".to_string(), password: "s3cret".to_string() })
        .expect("login succeeds");
    assert!(store.logout(Some(&token)));
    match store.auth_check(Some(&token)) {
        SessionDecision::Forbidden => {},
        SessionDecision::Forward(_) => panic!("a logged-out token must not authenticate"),
    }
    assert!(!store.logout(Some(&token)));
    assert!(!store.logout(None));
}

#[test]
fn forgot_password_issues_a_working_password() {
    let mut store = Store::new();
    store.register(details("ada", "ada@example.com", "old-pw")).expect("registration succeeds");
    let new_pw = store
        .forgot_password(&"ada@example.com".to_string())
        .expect("a known email gets a new password");
    assert_eq!(new_pw.chars().count(), 16);
    assert!(new_pw.chars().all(|c| c.is_ascii_alphanumeric()));
    match store.login(&LoginDetails {
        username: "ada".to_string(),
        password: "old-pw".to_string(),
    }) {
        Err(AccountError::WrongPassword) => {},
        _ => panic!("the old password must stop working"),
    }
    store
        .login(&LoginDetails { username: "ada".to_string(), password: new_pw })
        .expect("the new password logs in");
}

#[test]
fn a_taken_session_token_is_a_storage_conflict() {
    let mut store = Store::new();
    let a = store.register(details("ada", "ada@example.com", "pw")).expect("registration succeeds");
    let b = store.register(details("bob", "bob@example.com", "pw")).expect("registration succeeds");
    store.open_session(a, "tok".to_string()).expect("a fresh token should be accepted");
    match store.open_session(b, "tok".to_string()) {
        Err(AccountError::Storage) => {},
        _ => panic!("a taken token must be refused"),
    }
}

#[test]
fn forgot_password_unknown_email() {
    let mut store = Store::new();
    match store.forgot_password(&"nobody@example.com".to_string()) {
        Err(AccountError::UnknownEmail) => {},
        _ => panic!("an unknown email must be rejected"),
    }
}
