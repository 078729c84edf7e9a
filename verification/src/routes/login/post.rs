//! The login request.

use crate::authentication::password::{
    credentials_verdict, expected_hash, guarded_check, password_verdict, stored_user,
    validate_credentials, AuthError, Credentials, StoredCredentials,
};
use crate::idempotency::persistence::{see_other, see_other_view, Response, ResponseView};
use crate::routes::admin::newsletters::post::{FlashLevel, FlashMessage, FlashView};
use vstd::prelude::*;
use vstd::string::*;

verus! {

/// Why a login was turned down.
#[derive(Clone, Copy, Debug, PartialEq, Eq, Structural)]
pub enum LoginError {
    /// The credentials are wrong.
    AuthError(AuthError),
    /// The check itself failed.
    UnexpectedError(AuthError),
}

/// What a login error says to the user.
pub open spec fn login_error_text(error: LoginError) -> Seq<char> {
    match error {
        LoginError::AuthError(_) => "Authentication failed"@,
        LoginError::UnexpectedError(_) => "Something went wrong"@,
    }
}

/// The login error that an authentication error becomes.
pub open spec fn login_error_of(error: AuthError) -> LoginError {
    match error {
        AuthError::InvalidCredentials(_) => LoginError::AuthError(error),
        AuthError::UnexpectedError(_) => LoginError::UnexpectedError(error),
    }
}

impl LoginError {
    /// What the error says to the user.
    pub fn message(&self) -> (text: String)
        ensures
            text@ == login_error_text(*self),
    {
        match self {
            LoginError::AuthError(_) => String::from_str("Authentication failed"),
            LoginError::UnexpectedError(_) => String::from_str("Something went wrong"),
        }
    }

    /// The status code of the response to a failed login: always a
    /// redirect, 303.
    pub fn status_code(&self) -> (code: u16)
        ensures
            code == 303,
    {
        303
    }

    /// The login error that `error` becomes.
    pub fn from_auth(error: AuthError) -> (login_error: LoginError)
        ensures
            login_error == login_error_of(error),
    {
        match error {
            AuthError::InvalidCredentials(_) => LoginError::AuthError(error),
            AuthError::UnexpectedError(_) => LoginError::UnexpectedError(error),
        }
    }
}

/// A login that was turned down: the error, the message to show on the
/// login page, and the redirect back to that page.
#[derive(Debug)]
pub struct LoginRejection {
    pub error: LoginError,
    pub flash: FlashMessage,
    pub response: Response,
}

/// `LoginRejection`, as mathematical values.
pub struct LoginRejectionView {
    pub error: LoginError,
    pub flash: FlashView,
    pub response: ResponseView,
}

impl View for LoginRejection {
    type V = LoginRejectionView;

    open spec fn view(&self) -> LoginRejectionView {
        LoginRejectionView { error: self.error, flash: self.flash@, response: self.response@ }
    }
}

/// What the client is told after the credentials were judged: on to the
/// home page, or back to the login page with the error's message.
pub open spec fn login_outcome(verdict: Result<u128, AuthError>) -> Result<
    ResponseView,
    LoginRejectionView,
> {
    match verdict {
        Ok(_) => Ok(see_other_view("/")),
        Err(error) => Err(
            LoginRejectionView {
                error: login_error_of(error),
                flash: FlashView {
                    level: FlashLevel::Error,
                    content: login_error_text(login_error_of(error)),
                },
                response: see_other_view("/login"),
            },
        ),
    }
}

/// What `login_reply` and `login` give, as mathematical values.
pub open spec fn login_view(r: Result<Response, LoginRejection>) -> Result<
    ResponseView,
    LoginRejectionView,
> {
    match r {
        Ok(response) => Ok(response@),
        Err(rejection) => Err(rejection@),
    }
}

/// Answers a login whose credentials were judged with `verdict`.
pub fn login_reply(verdict: Result<u128, AuthError>) -> (r: Result<Response, LoginRejection>)
    ensures
        login_view(r) == login_outcome(verdict),
{
    match verdict {
        Ok(_) => Ok(see_other("/")),
        Err(error) => {
            let error = LoginError::from_auth(error);
            Err(
                LoginRejection {
                    error,
                    flash: FlashMessage { level: FlashLevel::Error, content: error.message() },
                    response: see_other("/login"),
                },
            )
        },
    }
}

/// The verdict on a login, given what the lookup of the username brought.
pub open spec fn login_verdict(
    credentials: Credentials,
    stored: Result<Option<StoredCredentials>, AuthError>,
) -> Result<u128, AuthError> {
    match stored {
        Err(error) => Err(error),
        Ok(found) => credentials_verdict(
            stored_user(found),
            password_verdict(
                guarded_check(
                    expected_hash(found),
                    vstd::utf8::encode_utf8(credentials.password@),
                ),
            ),
        ),
    }
}

/// Handles a login: validates `credentials` against what the lookup of the
/// username brought, and answers. A lookup that failed is answered like any
/// other error.
pub fn login(credentials: Credentials, stored: Result<Option<StoredCredentials>, AuthError>) -> (r:
    Result<Response, LoginRejection>)
    ensures
        login_view(r) == login_outcome(login_verdict(credentials, stored)),
{
    match stored {
        Err(error) => login_reply(Err(error)),
        Ok(found) => login_reply(validate_credentials(credentials, found)),
    }
}

} // verus!
