use zero2prod::authentication::password::{
    asks_too_much_parallelism, compute_password_hash, hash_password_with_salt, is_too_parallel,
    judge_credentials, judge_hashing, judge_password, verify_password_hash, PhcParameter, M_COST,
    P_COST, T_COST,
};
use zero2prod::authentication::{
    basic_credentials, change_password, validate_credentials, AuthCause, AuthError, Credentials,
    HashCheck, StoredCredentials,
};

const SALT: &str = "c29tZXNhbHRzb21lc2FsdA";

fn credentials(password: &str) -> Credentials {
    Credentials { username: "ursula".to_string(), password: password.to_string() }
}

fn stored(user_id: u128, password_hash: &str) -> Option<StoredCredentials> {
    Some(StoredCredentials { user_id, password_hash: password_hash.to_string() })
}

#[test]
fn new_hashes_cost_what_was_chosen() {
    assert_eq!(M_COST, 15000);
    assert_eq!(T_COST, 2);
    assert_eq!(P_COST, 1);
}

#[test]
fn a_hash_names_its_algorithm_and_its_costs() {
    let hash = hash_password_with_salt("everythinghastostartsomewhere", SALT).unwrap();
    assert!(hash.starts_with("$argon2id$v=19$m=15000,t=2,p=1$c29tZXNhbHRzb21lc2FsdA$"));
    // Algorithm, version, parameters, salt and a 32-byte output in B64.
    let fields: Vec<&str> = hash.split('$').collect();
    assert_eq!(fields.len(), 6);
    assert_eq!(fields[5].len(), 43);
}

#[test]
fn hashing_depends_on_password_and_salt_alone() {
    let first = hash_password_with_salt("password-one", SALT).unwrap();
    let again = hash_password_with_salt("password-one", SALT).unwrap();
    let other_password = hash_password_with_salt("password-two", SALT).unwrap();
    let other_salt = hash_password_with_salt("password-one", "YW5vdGhlcnNhbHRoZXJl").unwrap();
    assert_eq!(first, again);
    assert_ne!(first, other_password);
    assert_ne!(first, other_salt);
}

#[test]
fn a_salt_that_is_no_b64_text_fails_the_hashing() {
    for salt in ["", "abc", "not a salt!", "über-salt-value"] {
        assert_eq!(
            hash_password_with_salt("password", salt),
            Err(AuthError::UnexpectedError(AuthCause::PasswordHashing))
        );
    }
}

#[test]
fn a_new_hash_gets_a_new_salt_each_time() {
    let first = compute_password_hash("password").unwrap();
    let second = change_password("password").unwrap();
    assert_ne!(first, second);
    assert!(first.starts_with("$argon2id$v=19$m=15000,t=2,p=1$"));
    assert!(second.starts_with("$argon2id$v=19$m=15000,t=2,p=1$"));
}

#[test]
fn the_right_password_gives_the_user() {
    let hash = compute_password_hash("correct horse").unwrap();
    assert_eq!(validate_credentials(credentials("correct horse"), stored(42, &hash)), Ok(42));
    assert_eq!(verify_password_hash(&hash, "correct horse"), Ok(()));
}

#[test]
fn a_wrong_password_is_refused() {
    let hash = hash_password_with_salt("correct horse", SALT).unwrap();
    assert_eq!(
        validate_credentials(credentials("wrong horse"), stored(42, &hash)),
        Err(AuthError::InvalidCredentials(AuthCause::InvalidPassword))
    );
    assert_eq!(
        validate_credentials(credentials(""), stored(42, &hash)),
        Err(AuthError::InvalidCredentials(AuthCause::InvalidPassword))
    );
    assert_eq!(
        verify_password_hash(&hash, "wrong horse"),
        Err(AuthError::InvalidCredentials(AuthCause::InvalidPassword))
    );
}

#[test]
fn an_unknown_username_is_refused() {
    for password in ["", "password", "correct horse"] {
        let verdict = validate_credentials(credentials(password), None);
        assert!(matches!(verdict, Err(AuthError::InvalidCredentials(_))));
    }
}

#[test]
fn a_stored_hash_that_is_no_phc_string_is_an_unexpected_error() {
    for hash in ["", "plain-text", "argon2id$v=19$m=15000", "$", "$argon2id$$$$$$$"] {
        assert_eq!(
            validate_credentials(credentials("password"), stored(42, hash)),
            Err(AuthError::UnexpectedError(AuthCause::MalformedPasswordHash))
        );
        assert_eq!(
            verify_password_hash(hash, "password"),
            Err(AuthError::UnexpectedError(AuthCause::MalformedPasswordHash))
        );
    }
}

#[test]
fn a_hash_of_another_algorithm_verifies_nothing() {
    // A well-formed PHC string that is not Argon2.
    let hash = "$scrypt$ln=16,r=8,p=1$aM15713r3Xsvxbi31lqr1Q$nFNh2CVHVjNldFVKDHDlm4CbdRSCdEBsjjJxD+iCs5E";
    assert_eq!(
        verify_password_hash(hash, "password"),
        Err(AuthError::InvalidCredentials(AuthCause::InvalidPassword))
    );
}

#[test]
fn the_password_is_judged_before_the_username() {
    let bad_hash = AuthError::UnexpectedError(AuthCause::MalformedPasswordHash);
    let bad_password = AuthError::InvalidCredentials(AuthCause::InvalidPassword);
    assert_eq!(judge_password(HashCheck::Malformed), Err(bad_hash));
    assert_eq!(judge_password(HashCheck::Rejected), Err(bad_password));
    assert_eq!(judge_password(HashCheck::Verified), Ok(()));
    assert_eq!(judge_credentials(Some(7), Ok(())), Ok(7));
    assert_eq!(
        judge_credentials(None, Ok(())),
        Err(AuthError::InvalidCredentials(AuthCause::UnknownUsername))
    );
    assert_eq!(judge_credentials(Some(7), Err(bad_password)), Err(bad_password));
    assert_eq!(judge_credentials(None, Err(bad_password)), Err(bad_password));
    assert_eq!(judge_credentials(Some(7), Err(bad_hash)), Err(bad_hash));
    assert_eq!(judge_credentials(None, Err(bad_hash)), Err(bad_hash));
}

#[test]
fn a_hashing_attempt_without_a_hash_is_an_unexpected_error() {
    assert_eq!(judge_hashing(Some("$argon2id$x".to_string())), Ok("$argon2id$x".to_string()));
    assert_eq!(judge_hashing(None), Err(AuthError::UnexpectedError(AuthCause::PasswordHashing)));
}

#[test]
fn wrong_credentials_are_challenged_with_a_401() {
    let response = AuthError::InvalidCredentials(AuthCause::InvalidPassword).error_response();
    assert_eq!(response.status_code, 401);
    assert_eq!(response.headers.len(), 1);
    assert_eq!(response.headers[0].name, "www-authenticate");
    assert_eq!(response.headers[0].value, b"Basic realm=\"publish\"".to_vec());
    assert!(response.body.is_empty());
}

#[test]
fn an_unexpected_error_is_a_bare_500() {
    let response = AuthError::UnexpectedError(AuthCause::StoredCredentialsUnavailable).error_response();
    assert_eq!(response.status_code, 500);
    assert!(response.headers.is_empty());
    assert!(response.body.is_empty());
}

#[test]
fn errors_say_what_happened() {
    assert_eq!(
        AuthError::InvalidCredentials(AuthCause::UnknownUsername).message(),
        "Athentication failed"
    );
    assert_eq!(
        AuthError::InvalidCredentials(AuthCause::InvalidPassword).message(),
        "Athentication failed"
    );
    assert_eq!(
        AuthError::UnexpectedError(AuthCause::MalformedPasswordHash).message(),
        "Failed to parse hash in PHC format"
    );
    assert_eq!(AuthCause::UnknownUsername.message(), "Unknown username.");
    assert_eq!(AuthCause::InvalidPassword.message(), "Invalid password");
    assert_eq!(
        AuthCause::StoredCredentialsUnavailable.message(),
        "Failed to perform query to retrieve stored credentials"
    );
    assert_eq!(AuthCause::BlockingTaskFailed.message(), "Failed to spawn blocking task");
    assert_eq!(AuthCause::PasswordHashing.message(), "Failed to hash password");
}

#[test]
fn basic_credentials_are_split_at_the_first_colon() {
    let plain = basic_credentials("ursula:secret").unwrap();
    assert_eq!(plain.username, "ursula");
    assert_eq!(plain.password, "secret");
    let colons = basic_credentials("ursula:se:cr:et").unwrap();
    assert_eq!(colons.username, "ursula");
    assert_eq!(colons.password, "se:cr:et");
    let empty_sides = basic_credentials(":").unwrap();
    assert_eq!(empty_sides.username, "");
    assert_eq!(empty_sides.password, "");
    let wide = basic_credentials("üser:pässword").unwrap();
    assert_eq!(wide.username, "üser");
    assert_eq!(wide.password, "pässword");
}

#[test]
fn a_text_without_a_colon_carries_no_credentials() {
    assert!(basic_credentials("").is_none());
    assert!(basic_credentials("ursula").is_none());
}

fn parameter(name: &str, value: &str) -> PhcParameter {
    PhcParameter { name: name.to_string(), value: value.to_string() }
}

#[test]
fn a_degree_of_parallelism_is_too_high_from_two_to_the_29th() {
    assert!(!is_too_parallel("1"));
    assert!(!is_too_parallel("0"));
    assert!(!is_too_parallel("16777215"));
    assert!(!is_too_parallel("536870911"));
    assert!(is_too_parallel("536870912"));
    assert!(is_too_parallel("4294967295"));
    assert!(is_too_parallel("4294967296"));
    assert!(is_too_parallel("99999999999999999999999999"));
    assert!(!is_too_parallel(""));
    assert!(!is_too_parallel("53687091x"));
    assert!(!is_too_parallel("-536870912"));
    assert!(!is_too_parallel("00000000001"));
}

#[test]
fn the_last_degree_of_parallelism_is_the_one_that_counts() {
    assert!(!asks_too_much_parallelism(&vec![]));
    assert!(!asks_too_much_parallelism(&vec![parameter("m", "536870912")]));
    assert!(asks_too_much_parallelism(&vec![parameter("p", "536870912")]));
    assert!(asks_too_much_parallelism(&vec![
        parameter("m", "8"),
        parameter("p", "1"),
        parameter("t", "1"),
        parameter("p", "536870912"),
    ]));
    assert!(!asks_too_much_parallelism(&vec![
        parameter("p", "536870912"),
        parameter("m", "8"),
        parameter("p", "1"),
    ]));
}

#[test]
fn a_hash_that_asks_for_too_much_parallelism_is_refused_without_a_fault() {
    let refused = AuthError::InvalidCredentials(AuthCause::InvalidPassword);
    for parameters in [
        "m=8,t=1,p=536870912",
        "m=4294967295,t=1,p=536870912",
        "m=8,t=1,p=4294967295",
        "m=8,t=1,p=1,p=536870912",
        "p=536870912",
    ] {
        let hash = format!(
            "$argon2id$v=19${}$c29tZXNhbHRzb21lc2FsdA$CWOrkoo7oJBQ/iyh7uJ0LO2aLEfrHwTWllSAxT0zRno",
            parameters
        );
        assert_eq!(verify_password_hash(&hash, "password"), Err(refused));
        assert_eq!(
            validate_credentials(credentials("password"), stored(42, &hash)),
            Err(refused)
        );
    }
}

#[test]
fn an_earlier_degree_of_parallelism_that_is_overridden_does_no_harm() {
    let hash = hash_password_with_salt("correct horse", SALT).unwrap();
    let repeated = hash.replace("m=15000,t=2,p=1", "m=15000,t=2,p=536870912,p=1");
    assert_ne!(repeated, hash);
    assert_eq!(verify_password_hash(&repeated, "correct horse"), Ok(()));
    assert_eq!(
        verify_password_hash(&repeated, "wrong horse"),
        Err(AuthError::InvalidCredentials(AuthCause::InvalidPassword))
    );
}
