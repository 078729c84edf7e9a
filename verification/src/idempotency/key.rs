//! The idempotency key and its validation.

use vstd::prelude::*;
use vstd::string::*;

verus! {

/// The longest key that is accepted, in characters.
pub const MAX_KEY_LENGTH: usize = 50;

/// Why a candidate key was turned down.
#[derive(Clone, Copy, Debug, PartialEq, Eq, Structural)]
pub enum IdempotencyKeyError {
    /// The candidate holds no character.
    Empty,
    /// The candidate holds more than `MAX_KEY_LENGTH` characters.
    TooLong,
}

/// The text shown to the caller for a rejection.
pub open spec fn key_error_text(error: IdempotencyKeyError) -> Seq<char> {
    match error {
        IdempotencyKeyError::Empty => "The idempotency key cannot be empty"@,
        IdempotencyKeyError::TooLong => {
            "The idempotency key must not be longer than 50 characters"@
        },
    }
}

impl IdempotencyKeyError {
    /// The text shown to the caller for this rejection.
    pub fn message(&self) -> (text: String)
        ensures
            text@ == key_error_text(*self),
    {
        match self {
            IdempotencyKeyError::Empty => String::from_str("The idempotency key cannot be empty"),
            IdempotencyKeyError::TooLong => String::from_str(
                "The idempotency key must not be longer than 50 characters",
            ),
        }
    }
}

/// A caller-supplied token that names one logical action. It is only ever
/// used to look a request up, never as a business identifier.
#[derive(Debug)]
pub struct IdempotencyKey(String);

/// Whether `s` may serve as an idempotency key: non-empty and at most
/// `MAX_KEY_LENGTH` characters long.
pub open spec fn acceptable_key(s: Seq<char>) -> bool {
    0 < s.len() <= MAX_KEY_LENGTH
}

/// Why `s` is no idempotency key, where it is none: it is empty, or else
/// too long.
pub open spec fn key_error(s: Seq<char>) -> IdempotencyKeyError {
    if s.len() == 0 {
        IdempotencyKeyError::Empty
    } else {
        IdempotencyKeyError::TooLong
    }
}

impl View for IdempotencyKey {
    type V = Seq<char>;

    closed spec fn view(&self) -> Seq<char> {
        self.0@
    }
}

impl IdempotencyKey {
    /// Every key that was built by `try_from` is well formed.
    pub open spec fn wf(&self) -> bool {
        acceptable_key(self@)
    }

    /// Validates `s` as a key. The characters are kept as they are.
    pub fn try_from(s: String) -> (r: Result<IdempotencyKey, IdempotencyKeyError>)
        ensures
            acceptable_key(s@) <==> r is Ok,
            r matches Ok(key) ==> key@ == s@ && key.wf(),
            r matches Err(e) ==> e == key_error(s@),
    {
        if s.as_str().is_empty() {
            return Err(IdempotencyKeyError::Empty);
        }
        let length: usize = s.as_str().unicode_len();
        if length > MAX_KEY_LENGTH {
            return Err(IdempotencyKeyError::TooLong);
        }
        Ok(IdempotencyKey(s))
    }

    /// The key's characters.
    pub fn as_ref(&self) -> (s: &str)
        ensures
            s@ == self@,
    {
        self.0.as_str()
    }

    /// Gives the key's characters back as an owned string.
    pub fn into_string(self) -> (s: String)
        ensures
            s@ == self@,
    {
        self.0
    }

    /// A second handle on the same key.
    pub fn duplicate(&self) -> (copy: IdempotencyKey)
        ensures
            copy@ == self@,
            copy.wf() == self.wf(),
    {
        IdempotencyKey(self.0.clone())
    }
}

} // verus!
