//! The error taxonomy shared by every subsystem, with its mapping to HTTP
//! status codes and user-visible messages.
use vstd::prelude::*;

verus! {

/// Every failure the node reports, at the granularity the endpoints need.
#[derive(Clone, Copy, Debug, Eq, Hash, PartialEq, Structural)]
pub enum ApiError {
    IncorrectResourceQuery,
    UserDoesNotExist,
    InternalServerError,
    InvalidUsername,
    InvalidEmail,
    UsernameAlreadyTaken,
    EmailAlreadyTaken,
    PasswordMustNotBeEmpty,
    IncorrectPassword,
    NotSignedIn,
    Forbidden,
    ResourceNotFound,
    BadUrl,
    UnexpectedResponseFromFederatedServer,
    FailedDeliveryDueToNetworkError,
    OtherBadRequest,
}

impl DeepView for ApiError {
    type V = ApiError;

    open spec fn deep_view(&self) -> ApiError {
        *self
    }
}

impl ApiError {
    /// True exactly of the network-level delivery failure, the one kind
    /// of failure the delivery engine retries.
    pub fn is_network_failure(&self) -> (r: bool)
        ensures
            r == (*self == ApiError::FailedDeliveryDueToNetworkError),
    {
        match *self {
            Self::FailedDeliveryDueToNetworkError => true,
            _ => false,
        }
    }

    /// The HTTP status an endpoint answers with for this error.
    pub fn status_code(&self) -> (r: u16)
        ensures
            r == self.spec_status_code(),
    {
        match *self {
            Self::UserDoesNotExist => 404,
            Self::InternalServerError => 500,
            Self::Forbidden => 403,
            Self::ResourceNotFound => 404,
            _ => 400,
        }
    }

    /// The status mapping as a mathematical function.
    pub open spec fn spec_status_code(self) -> u16 {
        match self {
            Self::UserDoesNotExist => 404,
            Self::InternalServerError => 500,
            Self::Forbidden => 403,
            Self::ResourceNotFound => 404,
            _ => 400,
        }
    }

    /// The user-visible message carried in an error response body.
    pub fn message(&self) -> (r: &'static str)
        ensures
            r@ == self.spec_message(),
    {
        match *self {
            Self::IncorrectResourceQuery => "Incorrect resource query parameter.",
            Self::UserDoesNotExist => "User doesn't exist.",
            Self::InternalServerError => "Internal server error.",
            Self::InvalidUsername => "Invalid username.",
            Self::InvalidEmail => "Invalid email.",
            Self::UsernameAlreadyTaken => "Username is already taken.",
            Self::EmailAlreadyTaken => "Email is already taken.",
            Self::PasswordMustNotBeEmpty => "Password must not be empty.",
            Self::IncorrectPassword => "Incorrect password.",
            Self::NotSignedIn => "Not signed in.",
            Self::Forbidden => "Forbidden.",
            Self::ResourceNotFound => "Resource not found.",
            Self::BadUrl => "Bad URL.",
            Self::UnexpectedResponseFromFederatedServer => {
                "Unexpected response from a federated server."
            },
            Self::FailedDeliveryDueToNetworkError => "Failed delivery due to network error.",
            Self::OtherBadRequest => "Bad request.",
        }
    }

    /// The message mapping as a mathematical function.
    pub open spec fn spec_message(self) -> Seq<char> {
        match self {
            Self::IncorrectResourceQuery => "Incorrect resource query parameter."@,
            Self::UserDoesNotExist => "User doesn't exist."@,
            Self::InternalServerError => "Internal server error."@,
            Self::InvalidUsername => "Invalid username."@,
            Self::InvalidEmail => "Invalid email."@,
            Self::UsernameAlreadyTaken => "Username is already taken."@,
            Self::EmailAlreadyTaken => "Email is already taken."@,
            Self::PasswordMustNotBeEmpty => "Password must not be empty."@,
            Self::IncorrectPassword => "Incorrect password."@,
            Self::NotSignedIn => "Not signed in."@,
            Self::Forbidden => "Forbidden."@,
            Self::ResourceNotFound => "Resource not found."@,
            Self::BadUrl => "Bad URL."@,
            Self::UnexpectedResponseFromFederatedServer => {
                "Unexpected response from a federated server."@
            },
            Self::FailedDeliveryDueToNetworkError => "Failed delivery due to network error."@,
            Self::OtherBadRequest => "Bad request."@,
        }
    }
}

} // verus!
