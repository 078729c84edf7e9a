//! Passwords: verifying a candidate against a stored Argon2 hash, and
//! hashing a new one.

use crate::idempotency::persistence::{HeaderPairRecord, HeaderView, Response, ResponseView};
use crate::lookup::{first_where, is_first, lemma_first_found, lemma_first_missing};
use argon2::password_hash::SaltString;
use argon2::{Algorithm, Argon2, Params, PasswordHash, PasswordHasher, PasswordVerifier, Version};
use vstd::prelude::*;
use vstd::string::*;

verus! {

/// What a user presents to log in. The password is kept out of any
/// printed form: the type cannot be formatted.
pub struct Credentials {
    pub username: String,
    pub password: String,
}

/// The username and the password that the text `decoded` carries in the
/// form `username:password`: what stands before its first colon, and what
/// stands after it. A text without a colon carries none.
pub open spec fn basic_credentials_of(decoded: Seq<char>) -> Option<(Seq<char>, Seq<char>)> {
    match first_where(decoded, |c: char| c == ':') {
        Some(i) => Some((decoded.subrange(0, i), decoded.subrange(i + 1, decoded.len() as int))),
        None => None,
    }
}

/// Reads credentials from a text of the form `username:password`. The
/// password may hold colons of its own.
pub fn basic_credentials(decoded: &str) -> (r: Option<Credentials>)
    ensures
        match r {
            Some(credentials) => basic_credentials_of(decoded@) == Some(
                (credentials.username@, credentials.password@),
            ),
            None => basic_credentials_of(decoded@) is None,
        },
{
    let ghost colon = |c: char| c == ':';
    let length: usize = decoded.unicode_len();
    let mut i: usize = 0;
    while i < length
        invariant
            i <= length,
            length == decoded@.len(),
            colon == (|c: char| c == ':'),
            forall|k: int| 0 <= k < i ==> !colon(#[trigger] decoded@[k]),
        decreases length - i,
    {
        if decoded.get_char(i) == ':' {
            proof {
                assert(colon(decoded@[i as int]));
                assert(is_first(decoded@, colon, i as int));
                lemma_first_found(decoded@, colon, i as int);
            }
            let username = decoded.substring_char(0, i).to_owned();
            let password = decoded.substring_char(i + 1, length).to_owned();
            return Some(Credentials { username, password });
        }
        assert(!colon(decoded@[i as int]));
        i += 1;
    }
    proof {
        lemma_first_missing(decoded@, colon);
    }
    None
}

/// What is stored for a username: the user's identifier and the PHC string
/// of the password's hash. The hash is kept out of any printed form: the
/// type cannot be formatted.
pub struct StoredCredentials {
    pub user_id: u128,
    pub password_hash: String,
}

/// What went wrong underneath an authentication error.
#[derive(Clone, Copy, Debug, PartialEq, Eq, Structural)]
pub enum AuthCause {
    UnknownUsername,
    InvalidPassword,
    MalformedPasswordHash,
    StoredCredentialsUnavailable,
    BlockingTaskFailed,
    PasswordHashing,
}

impl AuthCause {
    /// The cause in words.
    pub fn message(&self) -> (text: String)
        ensures
            text@ == cause_text(*self),
    {
        match self {
            AuthCause::UnknownUsername => String::from_str("Unknown username."),
            AuthCause::InvalidPassword => String::from_str("Invalid password"),
            AuthCause::MalformedPasswordHash => String::from_str(
                "Failed to parse hash in PHC format",
            ),
            AuthCause::StoredCredentialsUnavailable => String::from_str(
                "Failed to perform query to retrieve stored credentials",
            ),
            AuthCause::BlockingTaskFailed => String::from_str("Failed to spawn blocking task"),
            AuthCause::PasswordHashing => String::from_str("Failed to hash password"),
        }
    }
}

/// The cause in words.
pub open spec fn cause_text(cause: AuthCause) -> Seq<char> {
    match cause {
        AuthCause::UnknownUsername => "Unknown username."@,
        AuthCause::InvalidPassword => "Invalid password"@,
        AuthCause::MalformedPasswordHash => "Failed to parse hash in PHC format"@,
        AuthCause::StoredCredentialsUnavailable => {
            "Failed to perform query to retrieve stored credentials"@
        },
        AuthCause::BlockingTaskFailed => "Failed to spawn blocking task"@,
        AuthCause::PasswordHashing => "Failed to hash password"@,
    }
}

/// Why credentials were not accepted.
#[derive(Clone, Copy, Debug, PartialEq, Eq, Structural)]
pub enum AuthError {
    /// The credentials are wrong.
    InvalidCredentials(AuthCause),
    /// The check itself failed.
    UnexpectedError(AuthCause),
}

/// The response that reports an authentication error: 401 with a challenge
/// for wrong credentials, a bare 500 otherwise.
pub open spec fn auth_error_response(error: AuthError) -> ResponseView {
    match error {
        AuthError::UnexpectedError(_) => ResponseView {
            status_code: 500,
            headers: Seq::empty(),
            body: Seq::empty(),
        },
        AuthError::InvalidCredentials(_) => ResponseView {
            status_code: 401,
            headers: seq![
                HeaderView {
                    name: "www-authenticate"@,
                    value: "Basic realm=\"publish\"".spec_bytes(),
                },
            ],
            body: Seq::empty(),
        },
    }
}

impl AuthError {
    /// What the error says of itself: a fixed text for wrong credentials,
    /// the cause's own words otherwise.
    pub fn message(&self) -> (text: String)
        ensures
            text@ == match *self {
                AuthError::InvalidCredentials(_) => "Athentication failed"@,
                AuthError::UnexpectedError(cause) => cause_text(cause),
            },
    {
        match self {
            AuthError::InvalidCredentials(_) => String::from_str("Athentication failed"),
            AuthError::UnexpectedError(cause) => cause.message(),
        }
    }

    /// The response that reports this error to the client.
    pub fn error_response(&self) -> (response: Response)
        ensures
            response@ == auth_error_response(*self),
            response.wf(),
    {
        match self {
            AuthError::UnexpectedError(_) => {
                let response = Response { status_code: 500, headers: Vec::new(), body: Vec::new() };
                assert(response@.headers =~= Seq::<HeaderView>::empty());
                response
            },
            AuthError::InvalidCredentials(_) => {
                let mut headers: Vec<HeaderPairRecord> = Vec::new();
                headers.push(
                    HeaderPairRecord {
                        name: String::from_str("www-authenticate"),
                        value: "Basic realm=\"publish\"".as_bytes_vec(),
                    },
                );
                let response = Response { status_code: 401, headers, body: Vec::new() };
                assert(response@.headers =~= auth_error_response(*self).headers);
                response
            },
        }
    }
}

/// What a check of a password against a stored hash finds.
#[derive(Clone, Copy, Debug, PartialEq, Eq, Structural)]
pub enum HashCheck {
    /// The stored hash is no string in the PHC format.
    Malformed,
    /// The password does not give the stored hash.
    Rejected,
    /// The password gives the stored hash.
    Verified,
}

/// What the check of `password` against `hash` finds: whether
/// `argon2::PasswordHash::new` takes `hash` as a string in the PHC format,
/// and if so whether `argon2::PasswordVerifier::verify_password`, on the
/// default `Argon2`, accepts `password` for it.
pub uninterp spec fn argon2_check(hash: Seq<char>, password: Seq<u8>) -> HashCheck;

/// What `argon2::PasswordHasher::hash_password` gives, as a PHC string, for
/// `password` and the B64 salt `salt` under Argon2id, version 0x13, with
/// the costs given and the default output length; nothing where the salt,
/// the costs or the hashing are refused.
pub uninterp spec fn argon2id_phc(
    password: Seq<u8>,
    salt: Seq<char>,
    m_cost: u32,
    t_cost: u32,
    p_cost: u32,
) -> Option<Seq<char>>;

/// One parameter of a hash in the PHC format: a name and its value.
#[derive(Debug)]
pub struct PhcParameter {
    pub name: String,
    pub value: String,
}

/// The names and values of `parameters`, in their order.
pub open spec fn parameter_views(parameters: Seq<PhcParameter>) -> Seq<(Seq<char>, Seq<char>)> {
    parameters.map_values(|parameter: PhcParameter| (parameter.name@, parameter.value@))
}

/// The parameters that `argon2::PasswordHash::new` reads from `hash`, as
/// `iter` of its `params` gives them: the pairs of name and value in the
/// order in which the hash holds them. A text that does not parse has none.
pub uninterp spec fn phc_parameters(hash: Seq<char>) -> Seq<(Seq<char>, Seq<char>)>;

/// Parses `hash` with `argon2::PasswordHash::new` and hands out what `iter`
/// of its `params` gives, each pair as two texts; nothing where `hash` does
/// not parse.
#[verifier::external_body]
fn parameters_of(hash: &str) -> (parameters: Vec<PhcParameter>)
    ensures
        parameter_views(parameters@) == phc_parameters(hash@),
{
    match PasswordHash::new(hash) {
        Ok(parsed) => parsed.params.iter().map(
            |(name, value)| PhcParameter {
                name: name.as_str().to_owned(),
                value: value.as_str().to_owned(),
            },
        ).collect(),
        Err(_) => Vec::new(),
    }
}

/// Whether `c` is a decimal digit.
pub open spec fn is_digit(c: char) -> bool {
    '0' <= c <= '9'
}

/// Whether `text` holds decimal digits only.
pub open spec fn all_digits(text: Seq<char>) -> bool {
    forall|i: int| 0 <= i < text.len() ==> is_digit(#[trigger] text[i])
}

/// The number that the digits of `text` spell.
pub open spec fn digits_value(text: Seq<char>) -> nat
    decreases text.len(),
{
    if text.len() == 0 {
        0
    } else {
        digits_value(text.drop_last()) * 10 + (text.last() as u32 - '0' as u32) as nat
    }
}

/// Whether `value` spells a degree of parallelism whose eightfold does not
/// fit into 32 bits. Argon2 takes at most 16777215 lanes, so it accepts no
/// such value.
pub open spec fn too_parallel(value: Seq<char>) -> bool {
    value.len() > 0 && all_digits(value) && digits_value(value) * 8 > u32::MAX
}

/// The value of the last parameter of the name `p`: where the name is
/// repeated, the last one is the one that Argon2 goes by.
pub open spec fn last_parallelism(parameters: Seq<(Seq<char>, Seq<char>)>) -> Option<Seq<char>>
    decreases parameters.len(),
{
    if parameters.len() == 0 {
        None
    } else if parameters.last().0 == "p"@ {
        Some(parameters.last().1)
    } else {
        last_parallelism(parameters.drop_last())
    }
}

/// Whether the parameters ask for a degree of parallelism that Argon2
/// cannot even test against its limit.
pub open spec fn parallelism_overflows(parameters: Seq<(Seq<char>, Seq<char>)>) -> bool {
    match last_parallelism(parameters) {
        Some(value) => too_parallel(value),
        None => false,
    }
}

/// Whether `value` spells a degree of parallelism whose eightfold does not
/// fit into 32 bits.
pub fn is_too_parallel(value: &str) -> (flagged: bool)
    ensures
        flagged == too_parallel(value@),
{
    let length: usize = value.unicode_len();
    let mut spelled: u64 = 0;
    let mut digits: bool = true;
    let mut i: usize = 0;
    while i < length
        invariant
            i <= length,
            length == value@.len(),
            digits == all_digits(value@.take(i as int)),
            digits ==> spelled == if digits_value(value@.take(i as int)) < 0x1_0000_0000 {
                digits_value(value@.take(i as int))
            } else {
                0x1_0000_0000nat
            },
            spelled <= 0x1_0000_0000,
        decreases length - i,
    {
        let c = value.get_char(i);
        proof {
            assert(value@.take(i + 1).drop_last() =~= value@.take(i as int));
            assert(value@.take(i + 1).last() == value@[i as int]);
            if is_digit(c) && all_digits(value@.take(i as int)) {
                assert forall|k: int| 0 <= k < i + 1 implies is_digit(
                    #[trigger] value@.take(i + 1)[k],
                ) by {
                    if k < i {
                        assert(value@.take(i + 1)[k] == value@.take(i as int)[k]);
                    }
                }
            } else if !is_digit(c) {
                assert(!is_digit(value@.take(i + 1)[i as int]));
            } else {
                let k = choose|k: int| 0 <= k < i && !is_digit(#[trigger] value@.take(i as int)[k]);
                assert(!is_digit(value@.take(i + 1)[k]));
            }
        }
        if c >= '0' && c <= '9' {
            let digit: u64 = (c as u32 - '0' as u32) as u64;
            let longer: u64 = spelled * 10 + digit;
            spelled = if longer < 0x1_0000_0000 { longer } else { 0x1_0000_0000 };
        } else {
            digits = false;
        }
        i += 1;
    }
    assert(value@.take(length as int) =~= value@);
    length > 0 && digits && spelled >= 0x2000_0000
}

/// Whether `parameters` ask for a degree of parallelism that Argon2 cannot
/// even test against its limit.
pub fn asks_too_much_parallelism(parameters: &Vec<PhcParameter>) -> (flagged: bool)
    ensures
        flagged == parallelism_overflows(parameter_views(parameters@)),
{
    let ghost views = parameter_views(parameters@);
    let name = String::from_str("p");
    let mut i: usize = parameters.len();
    assert(views.take(i as int) =~= views);
    while i > 0
        invariant
            i <= parameters.len(),
            views == parameter_views(parameters@),
            name@ == "p"@,
            last_parallelism(views) == last_parallelism(views.take(i as int)),
        decreases i,
    {
        let parameter = &parameters[i - 1];
        proof {
            assert(views.take(i as int).last() == (parameter.name@, parameter.value@));
            assert(views.take(i as int).drop_last() =~= views.take(i - 1));
        }
        if parameter.name == name {
            return is_too_parallel(parameter.value.as_str());
        }
        i -= 1;
    }
    false
}

/// What the check of `password` against `hash` finds where arithmetic is
/// free to wrap: a hash that asks for too much parallelism is one that
/// Argon2 rejects every password for.
pub open spec fn guarded_check(hash: Seq<char>, password: Seq<u8>) -> HashCheck {
    if parallelism_overflows(phc_parameters(hash)) {
        HashCheck::Rejected
    } else {
        argon2_check(hash, password)
    }
}

/// Parses `hash` with `argon2::PasswordHash::new` and, where it parses,
/// calls `verify_password` of the default `Argon2` on `password` and the
/// parsed hash. Every error of the verification counts as a rejection. The
/// verification multiplies the degree of parallelism of `hash` by eight
/// before it tests it, which a caller must know to fit into 32 bits. The
/// work and the memory that the call takes are those that the parameters
/// inside `hash` ask for.
#[verifier::external_body]
fn check_password(hash: &str, password: &[u8]) -> (check: HashCheck)
    requires
        !parallelism_overflows(phc_parameters(hash@)),
    ensures
        check == argon2_check(hash@, password@),
{
    match PasswordHash::new(hash) {
        Err(_) => HashCheck::Malformed,
        Ok(parsed) => match Argon2::default().verify_password(password, &parsed) {
            Ok(()) => HashCheck::Verified,
            Err(_) => HashCheck::Rejected,
        },
    }
}

/// Draws a salt from `SaltString::generate` with `rand::thread_rng()` and
/// hands it over as text. The salt is random, so nothing is promised of it.
#[verifier::external_body]
fn generate_salt() -> (salt: String) {
    SaltString::generate(&mut rand::thread_rng()).as_str().to_owned()
}

/// Hashes `password` with `hash_password` of an `Argon2` made by
/// `Argon2::new` for Argon2id, version 0x13 and `Params::new` of the costs
/// given, with `salt` read by `SaltString::from_b64`. The PHC string of the
/// hash comes back, or nothing where one of the calls refused.
#[verifier::external_body]
fn hash_with_argon2id(password: &[u8], salt: &str, m_cost: u32, t_cost: u32, p_cost: u32) -> (phc:
    Option<String>)
    requires
        p_cost * 8 <= u32::MAX,
    ensures
        argon2id_phc(password@, salt@, m_cost, t_cost, p_cost) == match phc {
            Some(text) => Some(text@),
            None => None,
        },
{
    let salt = SaltString::from_b64(salt).ok()?;
    let params = Params::new(m_cost, t_cost, p_cost, None).ok()?;
    let hasher = Argon2::new(Algorithm::Argon2id, Version::V0x13, params);
    match hasher.hash_password(password, &salt) {
        Ok(hash) => Some(hash.to_string()),
        Err(_) => None,
    }
}

/// The hash that stands in where the username is unknown, so that the
/// password is checked against a hash in that case too.
pub const FALLBACK_HASH: &'static str =
    "$argon2id$v=19$m=15000,t=2,p=1$gZiV/M1gPc22ElAH/JhHw$CWOrkoo7oJBQ/iyh7uJ0LO2aLEfrHwTWllSAxT0zRno";

/// The verdict on a candidate password, given what its check found: a
/// malformed hash is an unexpected error, a rejected password is refused.
pub open spec fn password_verdict(check: HashCheck) -> Result<(), AuthError> {
    match check {
        HashCheck::Malformed => Err(AuthError::UnexpectedError(AuthCause::MalformedPasswordHash)),
        HashCheck::Rejected => Err(AuthError::InvalidCredentials(AuthCause::InvalidPassword)),
        HashCheck::Verified => Ok(()),
    }
}

/// The verdict on credentials, given the user that the username belongs to
/// and the verdict on the password: an error of the password check comes
/// first, and a password that passed for an unknown username is still
/// refused.
pub open spec fn credentials_verdict(
    user_id: Option<u128>,
    password: Result<(), AuthError>,
) -> Result<u128, AuthError> {
    match password {
        Err(error) => Err(error),
        Ok(_) => match user_id {
            Some(id) => Ok(id),
            None => Err(AuthError::InvalidCredentials(AuthCause::UnknownUsername)),
        },
    }
}

/// Judges a candidate password from what its check found.
pub fn judge_password(check: HashCheck) -> (verdict: Result<(), AuthError>)
    ensures
        verdict == password_verdict(check),
{
    match check {
        HashCheck::Malformed => Err(AuthError::UnexpectedError(AuthCause::MalformedPasswordHash)),
        HashCheck::Rejected => Err(AuthError::InvalidCredentials(AuthCause::InvalidPassword)),
        HashCheck::Verified => Ok(()),
    }
}

/// Judges credentials from the user found and the verdict on the password.
pub fn judge_credentials(user_id: Option<u128>, password: Result<(), AuthError>) -> (verdict:
    Result<u128, AuthError>)
    ensures
        verdict == credentials_verdict(user_id, password),
{
    match password {
        Err(error) => Err(error),
        Ok(()) => match user_id {
            Some(id) => Ok(id),
            None => Err(AuthError::InvalidCredentials(AuthCause::UnknownUsername)),
        },
    }
}

/// Checks `password_candidate` against `expected_password_hash`: a hash that
/// is no PHC string is an unexpected error, a candidate that does not verify
/// is refused. A hash that asks for more parallelism than Argon2 can test
/// is not handed to Argon2: every candidate is refused for it.
pub fn verify_password_hash(expected_password_hash: &str, password_candidate: &str) -> (verdict:
    Result<(), AuthError>)
    ensures
        verdict == password_verdict(
            guarded_check(expected_password_hash@, password_candidate.spec_bytes()),
        ),
{
    let parameters = parameters_of(expected_password_hash);
    if asks_too_much_parallelism(&parameters) {
        return judge_password(HashCheck::Rejected);
    }
    judge_password(check_password(expected_password_hash, password_candidate.as_bytes()))
}

/// The hash that a candidate for `stored` is checked against.
pub open spec fn expected_hash(stored: Option<StoredCredentials>) -> Seq<char> {
    match stored {
        Some(found) => found.password_hash@,
        None => FALLBACK_HASH@,
    }
}

/// The user that `stored` belongs to.
pub open spec fn stored_user(stored: Option<StoredCredentials>) -> Option<u128> {
    match stored {
        Some(found) => Some(found.user_id),
        None => None,
    }
}

/// Validates `credentials` against what is stored for their username. The
/// password is checked in every case, against a fallback hash where the
/// username is unknown; the user's identifier comes back only where the
/// username is known and the password verifies.
pub fn validate_credentials(credentials: Credentials, stored: Option<StoredCredentials>) -> (r:
    Result<u128, AuthError>)
    ensures
        r == credentials_verdict(
            stored_user(stored),
            password_verdict(
                guarded_check(
                    expected_hash(stored),
                    vstd::utf8::encode_utf8(credentials.password@),
                ),
            ),
        ),
{
    let mut user_id: Option<u128> = None;
    let mut expected_password_hash = String::from_str(FALLBACK_HASH);
    if let Some(found) = stored {
        user_id = Some(found.user_id);
        expected_password_hash = found.password_hash;
    }
    let verdict = verify_password_hash(
        expected_password_hash.as_str(),
        credentials.password.as_str(),
    );
    judge_credentials(user_id, verdict)
}

/// The memory cost of a new hash, in KiB.
pub const M_COST: u32 = 15000;

/// The number of passes of a new hash.
pub const T_COST: u32 = 2;

/// The degree of parallelism of a new hash.
pub const P_COST: u32 = 1;

/// What becomes of a hashing attempt.
pub open spec fn hashing_outcome(phc: Option<Seq<char>>) -> Result<Seq<char>, AuthError> {
    match phc {
        Some(text) => Ok(text),
        None => Err(AuthError::UnexpectedError(AuthCause::PasswordHashing)),
    }
}

/// A `Result` of text, as mathematical values.
pub open spec fn text_view(r: Result<String, AuthError>) -> Result<Seq<char>, AuthError> {
    match r {
        Ok(text) => Ok(text@),
        Err(error) => Err(error),
    }
}

/// Turns a hashing attempt into its result: the PHC string, or an
/// unexpected error where there is none.
pub fn judge_hashing(phc: Option<String>) -> (r: Result<String, AuthError>)
    ensures
        text_view(r) == hashing_outcome(
            match phc {
                Some(text) => Some(text@),
                None => None,
            },
        ),
{
    match phc {
        Some(text) => Ok(text),
        None => Err(AuthError::UnexpectedError(AuthCause::PasswordHashing)),
    }
}

/// Hashes `password` with `salt` under Argon2id at the costs `M_COST`,
/// `T_COST` and `P_COST`.
pub fn hash_password_with_salt(password: &str, salt: &str) -> (r: Result<String, AuthError>)
    ensures
        text_view(r) == hashing_outcome(
            argon2id_phc(password.spec_bytes(), salt@, M_COST, T_COST, P_COST),
        ),
{
    judge_hashing(hash_with_argon2id(password.as_bytes(), salt, M_COST, T_COST, P_COST))
}

/// Hashes `password` with a new random salt.
pub fn compute_password_hash(password: &str) -> (r: Result<String, AuthError>)
    ensures
        exists|salt: Seq<char>|
            text_view(r) == hashing_outcome(
                #[trigger] argon2id_phc(password.spec_bytes(), salt, M_COST, T_COST, P_COST),
            ),
{
    let salt = generate_salt();
    hash_password_with_salt(password, salt.as_str())
}

/// Prepares a change of password: the hash to store for the user in place
/// of the old one.
pub fn change_password(password: &str) -> (r: Result<String, AuthError>)
    ensures
        exists|salt: Seq<char>|
            text_view(r) == hashing_outcome(
                #[trigger] argon2id_phc(password.spec_bytes(), salt, M_COST, T_COST, P_COST),
            ),
{
    compute_password_hash(password)
}

} // verus!
