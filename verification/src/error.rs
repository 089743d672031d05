//! The errors of the library, each with the model that contracts speak of.

use vstd::prelude::*;

verus! {

/// Why a call to the image provider failed.
#[derive(Debug, PartialEq, Eq)]
pub enum ProviderError {
    /// The request never got an answer that could be read.
    Network { message: String },
    /// The request cannot be served as it stands.
    BadRequest { message: String },
    /// The API key is missing or refused.
    AuthFailed { message: String },
    /// The answer is not what the API documents.
    Malformed { message: String },
    /// The provider asks for fewer requests.
    RateLimited { message: String },
    /// The provider failed on its side.
    Server { message: String },
}

/// A [`ProviderError`] as a mathematical value.
pub enum ProviderErrorModel {
    Network(Seq<char>),
    BadRequest(Seq<char>),
    AuthFailed(Seq<char>),
    Malformed(Seq<char>),
    RateLimited(Seq<char>),
    Server(Seq<char>),
}

impl ProviderErrorModel {
    /// The text that goes with the error.
    pub open spec fn text(self) -> Seq<char> {
        match self {
            ProviderErrorModel::Network(text) => text,
            ProviderErrorModel::BadRequest(text) => text,
            ProviderErrorModel::AuthFailed(text) => text,
            ProviderErrorModel::Malformed(text) => text,
            ProviderErrorModel::RateLimited(text) => text,
            ProviderErrorModel::Server(text) => text,
        }
    }
}

impl View for ProviderError {
    type V = ProviderErrorModel;

    open spec fn view(&self) -> ProviderErrorModel {
        match *self {
            ProviderError::Network { message } => ProviderErrorModel::Network(message@),
            ProviderError::BadRequest { message } => ProviderErrorModel::BadRequest(message@),
            ProviderError::AuthFailed { message } => ProviderErrorModel::AuthFailed(message@),
            ProviderError::Malformed { message } => ProviderErrorModel::Malformed(message@),
            ProviderError::RateLimited { message } => ProviderErrorModel::RateLimited(message@),
            ProviderError::Server { message } => ProviderErrorModel::Server(message@),
        }
    }
}

impl ProviderError {
    /// The text that goes with the error.
    pub fn message(&self) -> (text: &str)
        ensures
            text@ == self@.text(),
    {
        match self {
            ProviderError::Network { message } => message.as_str(),
            ProviderError::BadRequest { message } => message.as_str(),
            ProviderError::AuthFailed { message } => message.as_str(),
            ProviderError::Malformed { message } => message.as_str(),
            ProviderError::RateLimited { message } => message.as_str(),
            ProviderError::Server { message } => message.as_str(),
        }
    }
}

/// Why a binding's configuration is refused.
#[derive(Debug, PartialEq, Eq)]
pub enum ConfigError {
    InvalidSpec(String),
}

impl View for ConfigError {
    type V = Seq<char>;

    open spec fn view(&self) -> Seq<char> {
        match *self {
            ConfigError::InvalidSpec(message) => message@,
        }
    }
}

impl ConfigError {
    /// The text that goes with the error.
    pub fn message(&self) -> (text: &str)
        ensures
            text@ == self@,
    {
        match self {
            ConfigError::InvalidSpec(message) => message.as_str(),
        }
    }
}

/// Why the gateway's request to the plugin failed.
#[derive(Debug, PartialEq, Eq)]
pub enum BackendError {
    /// The configuration or the arguments are refused.
    InvalidSpec { message: String },
    /// No profile is registered under that name.
    ProfileNotFound { backend_name: String },
    /// The answer could not be handed back.
    Transport { message: String },
}

/// A [`BackendError`] as a mathematical value.
pub enum BackendErrorModel {
    InvalidSpec(Seq<char>),
    ProfileNotFound(Seq<char>),
    Transport(Seq<char>),
}

impl View for BackendError {
    type V = BackendErrorModel;

    open spec fn view(&self) -> BackendErrorModel {
        match *self {
            BackendError::InvalidSpec { message } => BackendErrorModel::InvalidSpec(message@),
            BackendError::ProfileNotFound { backend_name } => BackendErrorModel::ProfileNotFound(
                backend_name@,
            ),
            BackendError::Transport { message } => BackendErrorModel::Transport(message@),
        }
    }
}

/// A result with its value and its error each taken by their model.
pub open spec fn viewed<T: View, E: View>(result: Result<T, E>) -> Result<T::V, E::V> {
    match result {
        Ok(value) => Ok(value@),
        Err(error) => Err(error@),
    }
}

/// Each error of a call is shown as what it is, with its text.
pub proof fn provider_error_is_shown(message: String)
    ensures
        (ProviderError::Network { message })@ == ProviderErrorModel::Network(message@),
        (ProviderError::BadRequest { message })@ == ProviderErrorModel::BadRequest(message@),
        (ProviderError::AuthFailed { message })@ == ProviderErrorModel::AuthFailed(message@),
        (ProviderError::Malformed { message })@ == ProviderErrorModel::Malformed(message@),
        (ProviderError::RateLimited { message })@ == ProviderErrorModel::RateLimited(message@),
        (ProviderError::Server { message })@ == ProviderErrorModel::Server(message@),
{
}

/// The text of an error is the one that it was made with.
pub proof fn error_text_is_its_own(text: Seq<char>)
    ensures
        ProviderErrorModel::Network(text).text() == text,
        ProviderErrorModel::BadRequest(text).text() == text,
        ProviderErrorModel::AuthFailed(text).text() == text,
        ProviderErrorModel::Malformed(text).text() == text,
        ProviderErrorModel::RateLimited(text).text() == text,
        ProviderErrorModel::Server(text).text() == text,
{
}

/// Each error towards the gateway is shown as what it is, with its text, and so
/// is that of a configuration.
pub proof fn backend_error_is_shown(message: String)
    ensures
        (BackendError::InvalidSpec { message })@ == BackendErrorModel::InvalidSpec(message@),
        (BackendError::ProfileNotFound { backend_name: message })@
            == BackendErrorModel::ProfileNotFound(message@),
        (BackendError::Transport { message })@ == BackendErrorModel::Transport(message@),
        ConfigError::InvalidSpec(message)@ == message@,
{
}

/// A result is shown as the success or the failure that it is.
pub proof fn result_is_shown<T: View, E: View>(value: T, error: E)
    ensures
        viewed(Ok::<T, E>(value)) == Ok::<T::V, E::V>(value@),
        viewed(Err::<T, E>(error)) == Err::<T::V, E::V>(error@),
{
}

}
