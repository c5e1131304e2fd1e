//! Status and error enumerations shared between the synchronization core,
//! the login flow, and the user interface layer.

use vstd::prelude::*;

verus! {

/// Log levels understood by the tracing backend.
#[derive(Debug, Clone, PartialEq, Eq, Structural)]
pub enum Type {
    DEBUG,
    NORMAL,
    NOTICE,
    NOTICEDERR,
    WARNING,
    DEBUGERR,
    ERROR,
    FATAL,
}

/// Outcomes of the login and sign-up endpoints.
#[derive(Debug, Clone, PartialEq, Eq, Structural)]
pub enum LoginStatusErrors {
    SIGN_DISABLED,
    SALT_INVALID,
    USER_DISCONNECTED,
    USER_NOT_FOUND,
    USER_INVALID_PWD,
    USER_ALREADY_EXISTS,
    /// Locked out, for this many seconds.
    LOCKED(i64),
    SERVER_ERROR,
}

/// Answer of the per-user salt endpoint.
#[derive(Debug, Clone)]
pub enum SaltReturn {
    SALT(String),
    ERROR(String),
}

/// Errors surfaced to the user by the synchronization engine.
#[derive(Debug, Clone)]
pub enum AllFrontErrorEnum {
    /// The server or the transport failed; the text says how.
    SERVER_ERROR(String),
    /// A push was rejected because the server holds a newer version.
    MODULE_OUTDATED,
    /// A pull found no record stored under the module's name.
    MODULE_NOTEXIST,
}

impl AllFrontErrorEnum {
    /// The translation key of this error.
    pub open spec fn spec_key(self) -> Seq<char> {
        match self {
            AllFrontErrorEnum::SERVER_ERROR(_) => "FRONTERROR_SERVER_ERROR"@,
            AllFrontErrorEnum::MODULE_OUTDATED => "FRONTERROR_MODULE_OUTDATED"@,
            AllFrontErrorEnum::MODULE_NOTEXIST => "FRONTERROR_MODULE_NOTEXIST"@,
        }
    }

    /// The translation key of this error.
    pub fn key(&self) -> (r: &'static str)
        ensures
            r@ == self.spec_key(),
    {
        match self {
            AllFrontErrorEnum::SERVER_ERROR(_) => "FRONTERROR_SERVER_ERROR",
            AllFrontErrorEnum::MODULE_OUTDATED => "FRONTERROR_MODULE_OUTDATED",
            AllFrontErrorEnum::MODULE_NOTEXIST => "FRONTERROR_MODULE_NOTEXIST",
        }
    }
}

/// Messages shown by the user interface.
#[derive(Debug, Clone, PartialEq, Eq, Structural)]
pub enum AllFrontUIEnum {
    VALID,
    CLOSE,
    MUST_NOT_EMPTY,
    INVALID_URL,
    UPDATE,
    REFRESH,
    REMOVED,
    NOTITLE,
    HOME_CHANGE_OK,
    HOME_CHANGE_CANCEL,
    HOME_CHANGE_NEW,
}

/// Login outcomes as shown to the user.
#[derive(Debug, Clone, PartialEq, Eq, Structural)]
pub enum AllFrontLoginEnum {
    LOGIN_USER_CONNECTED,
    LOGIN_USER_DISCONNECTED,
    LOGIN_USER_SIGNEDUP,
    LOGIN_USER_NOT_FOUND,
    SIGN_DISABLED,
    SALT_INVALID,
    LOGIN_USER_INVALID_PWD,
    LOGIN_USER_ALREADY_EXISTS,
    LOGIN_LOCKED,
    LOGIN_USER_WANT_DISCONNECTED,
    SERVER_ERROR,
}

impl AllFrontLoginEnum {
    /// The user-facing rendering of a login endpoint outcome.
    pub fn fromLoginStatus(status: LoginStatusErrors) -> (r: Self)
        ensures
            r == match status {
                LoginStatusErrors::USER_DISCONNECTED => AllFrontLoginEnum::LOGIN_USER_DISCONNECTED,
                LoginStatusErrors::USER_NOT_FOUND => AllFrontLoginEnum::LOGIN_USER_NOT_FOUND,
                LoginStatusErrors::USER_INVALID_PWD => AllFrontLoginEnum::LOGIN_USER_INVALID_PWD,
                LoginStatusErrors::USER_ALREADY_EXISTS => AllFrontLoginEnum::LOGIN_USER_ALREADY_EXISTS,
                LoginStatusErrors::LOCKED(_) => AllFrontLoginEnum::LOGIN_LOCKED,
                LoginStatusErrors::SERVER_ERROR => AllFrontLoginEnum::SERVER_ERROR,
                LoginStatusErrors::SIGN_DISABLED => AllFrontLoginEnum::SIGN_DISABLED,
                LoginStatusErrors::SALT_INVALID => AllFrontLoginEnum::SALT_INVALID,
            },
    {
        match status {
            LoginStatusErrors::USER_DISCONNECTED => AllFrontLoginEnum::LOGIN_USER_DISCONNECTED,
            LoginStatusErrors::USER_NOT_FOUND => AllFrontLoginEnum::LOGIN_USER_NOT_FOUND,
            LoginStatusErrors::USER_INVALID_PWD => AllFrontLoginEnum::LOGIN_USER_INVALID_PWD,
            LoginStatusErrors::USER_ALREADY_EXISTS => AllFrontLoginEnum::LOGIN_USER_ALREADY_EXISTS,
            LoginStatusErrors::LOCKED(_) => AllFrontLoginEnum::LOGIN_LOCKED,
            LoginStatusErrors::SERVER_ERROR => AllFrontLoginEnum::SERVER_ERROR,
            LoginStatusErrors::SIGN_DISABLED => AllFrontLoginEnum::SIGN_DISABLED,
            LoginStatusErrors::SALT_INVALID => AllFrontLoginEnum::SALT_INVALID,
        }
    }
}

} // verus!
