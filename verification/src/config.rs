//! What an operator configures for a binding.

use core::time::Duration;
use vstd::prelude::*;
use vstd::string::StringExecFns;

use crate::error::ConfigError;
#[allow(unused_imports)]
use crate::error::viewed;
use crate::outside::debug_str;
#[allow(unused_imports)]
use crate::outside::{duration_nanos, millis_span, quoted};
use crate::text::{same_text, to_ascii_lowercase, trim};
#[allow(unused_imports)]
use crate::text::{lower, trimmed};

verus! {

/// A reference to the API key, as it stands in the configuration. It has no
/// `Debug`, so that no log shows it.
pub struct ApiKeyRef {
    text: String,
}

impl View for ApiKeyRef {
    type V = Seq<char>;

    closed spec fn view(&self) -> Seq<char> {
        self.text@
    }
}

impl ApiKeyRef {
    pub fn new(text: &str) -> (key: Self)
        ensures
            key@ == text@,
    {
        ApiKeyRef { text: String::from_str(text) }
    }

    /// The reference itself, for whoever resolves it.
    pub fn expose(&self) -> (text: &str)
        ensures
            text@ == self@,
    {
        self.text.as_str()
    }
}

/// The part of a binding's configuration that all image providers share, as
/// far as this one reads it.
pub struct ImageExecutionSpec {
    pub model: String,
    /// The limit on a TCP connect.
    pub connect_timeout_ms: u64,
}

impl Default for ImageExecutionSpec {
    fn default() -> (spec: Self)
        ensures
            spec.model@.len() == 0,
            spec.connect_timeout_ms == 5000,
    {
        ImageExecutionSpec { model: String::new(), connect_timeout_ms: 5000 }
    }
}

impl ImageExecutionSpec {
    /// The limit on a TCP connect.
    pub fn connect_timeout(&self) -> (span: Duration)
        ensures
            span == millis_span(self.connect_timeout_ms),
            duration_nanos(span) == self.connect_timeout_ms * 1_000_000,
    {
        Duration::from_millis(self.connect_timeout_ms)
    }
}

/// The configuration of a `stability_image` binding.
pub struct StabilityImageSpec {
    /// Where the API is, if not at [`StabilityImageSpec::DEFAULT_BASE_URL`].
    pub base_url: Option<String>,
    pub api_key: ApiKeyRef,
    /// The shared part. Its `model` is one of the API's three routes.
    pub image: ImageExecutionSpec,
}

/// The API's three routes.
pub open spec fn is_route(route: Seq<char>) -> bool {
    route == "core"@ || route == "sd3"@ || route == "ultra"@
}

/// The route that a model names: small, without white space around it.
pub open spec fn route_of(model: Seq<char>) -> Seq<char> {
    lower(trimmed(model))
}

/// The refusal of a model that names no route.
pub open spec fn unknown_model(model: Seq<char>) -> Seq<char> {
    "stability_image: model must be one of [\"core\", \"sd3\", \"ultra\"], got "@ + quoted(model)
}

/// What validating comes to, given the outcome of the shared checks.
pub open spec fn validation(shared: Result<(), Seq<char>>, model: Seq<char>) -> Result<
    (),
    Seq<char>,
> {
    match shared {
        Err(fault) => Err(fault),
        Ok(_) => if is_route(route_of(model)) {
            Ok(())
        } else {
            Err(unknown_model(model))
        },
    }
}

/// Where the API is.
pub open spec fn base_url_of(configured: Option<String>) -> Seq<char> {
    match configured {
        Some(url) => url@,
        None => StabilityImageSpec::DEFAULT_BASE_URL@,
    }
}

impl StabilityImageSpec {
    pub const DEFAULT_BASE_URL: &'static str = "https://api.stability.ai";

    /// The API's three routes, one of which the model names in any case.
    pub const SUPPORTED_MODELS: [&'static str; 3] = ["core", "sd3", "ultra"];

    /// Checks the model. `shared` is the outcome of the checks that every image
    /// provider makes of the shared part; its refusal goes first.
    pub fn validate(&self, shared: Result<(), ConfigError>) -> (checked: Result<(), ConfigError>)
        ensures
            viewed(checked) == validation(viewed(shared), self.image.model@),
    {
        if let Err(fault) = shared {
            return Err(fault);
        }
        let normalized = self.model_route();
        let mut i: usize = 0;
        while i < 3
            invariant
                i <= 3,
                shared is Ok,
                normalized@ == route_of(self.image.model@),
                i >= 1 ==> normalized@ != "core"@,
                i >= 2 ==> normalized@ != "sd3"@,
                i >= 3 ==> normalized@ != "ultra"@,
            decreases 3 - i,
        {
            if same_text(normalized.as_str(), Self::SUPPORTED_MODELS[i]) {
                return Ok(());
            }
            i = i + 1;
        }
        let got = debug_str(self.image.model.as_str());
        Err(
            ConfigError::InvalidSpec(
                String::from_str(
                    "stability_image: model must be one of [\"core\", \"sd3\", \"ultra\"], got ",
                ).concat(got.as_str()),
            ),
        )
    }

    /// The route that the model names.
    pub fn model_route(&self) -> (route: String)
        ensures
            route@ == route_of(self.image.model@),
    {
        to_ascii_lowercase(trim(self.image.model.as_str()))
    }

    /// Where the API is.
    pub fn resolved_base_url(&self) -> (url: &str)
        ensures
            url@ == base_url_of(self.base_url),
    {
        match &self.base_url {
            Some(url) => url.as_str(),
            None => Self::DEFAULT_BASE_URL,
        }
    }
}

/// Case and outer white space of a model decide nothing: models that name one
/// route are accepted or refused alike.
pub proof fn case_does_not_decide(shared: Result<(), Seq<char>>, a: Seq<char>, b: Seq<char>)
    requires
        lower(trimmed(a)) == lower(trimmed(b)),
    ensures
        validation(shared, a) is Ok <==> validation(shared, b) is Ok,
{
}

/// A configuration that passes names one of the three routes.
pub proof fn valid_model_names_a_route(shared: Result<(), Seq<char>>, model: Seq<char>)
    requires
        validation(shared, model) is Ok,
    ensures
        route_of(model) == "core"@ || route_of(model) == "sd3"@ || route_of(model) == "ultra"@,
{
}

/// A refusal by the shared checks goes before one of the model.
pub proof fn shared_refusal_goes_first(fault: Seq<char>, model: Seq<char>)
    ensures
        validation(Err(fault), model) == Err::<(), Seq<char>>(fault),
{
}

/// Three models are accepted, in any case and with white space around them; the
/// refusal of another names the three and quotes it as it was given.
pub proof fn three_models_are_accepted(model: Seq<char>)
    ensures
        validation(Ok(()), model) is Ok <==> (lower(trimmed(model)) == "core"@ || lower(
            trimmed(model),
        ) == "sd3"@ || lower(trimmed(model)) == "ultra"@),
        validation(Ok(()), model) matches Err(refusal) ==> refusal
            == "stability_image: model must be one of [\"core\", \"sd3\", \"ultra\"], got "@
            + quoted(model),
{
}

/// The route is the model, trimmed and in small letters.
pub proof fn route_is_the_model_in_small_letters(model: Seq<char>)
    ensures
        route_of(model) == lower(trimmed(model)),
        is_route(route_of(model)) <==> validation(Ok(()), model) is Ok,
{
}

/// The API is where the configuration says, as it says it, or else at its
/// documented address.
pub proof fn base_url_is_the_configured_one(url: String)
    ensures
        base_url_of(Some(url)) == url@,
        base_url_of(None) == "https://api.stability.ai"@,
{
}

}
