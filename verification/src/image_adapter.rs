//! The adapter: from a request to what is sent, and from what came back to a
//! response.

use core::time::Duration;
use reqwest::header::{HeaderMap, HeaderValue};
use reqwest::multipart::Form;
use vstd::prelude::*;
use vstd::string::StringExecFns;

use crate::aspect::aspect_ratio_for;
#[allow(unused_imports)]
use crate::aspect::aspect_ratio;
use crate::error::ProviderError;
#[allow(unused_imports)]
use crate::error::{ProviderErrorModel, viewed};
use crate::outside::{
    build_client, debug_str, empty_form, empty_headers, form_text, header_value, insert_header,
};
#[allow(unused_imports)]
use crate::outside::{
    client_connect_timeout, client_user_agent, fits_header, form_parts, header_fields, quoted,
};
use crate::response::{NormalizedImageResponse, read_answer};
#[allow(unused_imports)]
use crate::outside::{JsonNode, base64_text, json_document};
#[allow(unused_imports)]
use crate::response::{
    ImageModel, answer_gives_back_the_bytes, answer_model, filtered_answer_is_a_bad_request,
    mime_type, mime_type_goes_by_the_name, mime_type_ignores_case_and_outer_space, says_filtered,
};
use crate::text::{same_text, signed_decimal_text, to_ascii_lowercase, trim, trim_end_matches};
#[allow(unused_imports)]
use crate::text::{
    all_white, is_white_space, lower, lowering_is_idempotent, lowering_keeps_trimmed,
    only_white_space_is_trimmed_away, run_at_the_end_is_cut, signed_decimal,
    signed_number_reads_back, text_writes_one_integer, trim_end_char, trimmed, writes_integer,
};

verus! {

/// What the adapter calls itself to the API.
pub const USER_AGENT: &'static str = "mcpg-plugin-backend-llm-stability/1.0";

/// The output format that the API documents as its default.
pub const DEFAULT_OUTPUT_FORMAT: &'static str = "png";

/// A request for images, the same for all providers.
pub struct NormalizedImageRequest {
    pub model: String,
    pub prompt: String,
    pub n: u32,
    pub size: Option<String>,
    pub quality: Option<String>,
    pub style: Option<String>,
    /// Wide enough for every integer seed.
    pub seed: Option<i128>,
    pub negative_prompt: Option<String>,
    pub output_format: Option<String>,
}

/// A [`NormalizedImageRequest`] as a mathematical value.
pub struct RequestModel {
    pub model: Seq<char>,
    pub prompt: Seq<char>,
    pub n: int,
    pub size: Option<Seq<char>>,
    pub quality: Option<Seq<char>>,
    pub style: Option<Seq<char>>,
    pub seed: Option<int>,
    pub negative_prompt: Option<Seq<char>>,
    pub output_format: Option<Seq<char>>,
}

/// The characters of an optional text.
pub open spec fn opt_view(text: Option<String>) -> Option<Seq<char>> {
    match text {
        Some(s) => Some(s@),
        None => None,
    }
}

impl View for NormalizedImageRequest {
    type V = RequestModel;

    open spec fn view(&self) -> RequestModel {
        RequestModel {
            model: self.model@,
            prompt: self.prompt@,
            n: self.n as int,
            size: opt_view(self.size),
            quality: opt_view(self.quality),
            style: opt_view(self.style),
            seed: match self.seed {
                Some(seed) => Some(seed as int),
                None => None,
            },
            negative_prompt: opt_view(self.negative_prompt),
            output_format: opt_view(self.output_format),
        }
    }
}

/// The output format that a request asks for: what it names, unless that is
/// blank.
pub open spec fn requested_format(output_format: Option<Seq<char>>) -> Seq<char> {
    match output_format {
        Some(format) => if trimmed(format).len() > 0 {
            format
        } else {
            DEFAULT_OUTPUT_FORMAT@
        },
        None => DEFAULT_OUTPUT_FORMAT@,
    }
}

/// Resolves the output format of a request; nothing, or nothing but white
/// space, means the default.
pub fn output_format_for(request: &NormalizedImageRequest) -> (format: &str)
    ensures
        format@ == requested_format(request@.output_format),
{
    match &request.output_format {
        Some(format) => if !trim(format.as_str()).is_empty() {
            format.as_str()
        } else {
            DEFAULT_OUTPUT_FORMAT
        },
        None => DEFAULT_OUTPUT_FORMAT,
    }
}

/// Fields of a form, each with its name.
pub type FieldsModel = Seq<(Seq<char>, Seq<char>)>;

/// The field `name`, where there is a value for it.
pub open spec fn field_if(name: Seq<char>, value: Option<Seq<char>>) -> FieldsModel {
    match value {
        Some(text) => seq![(name, text)],
        None => seq![],
    }
}

/// The negative prompt that is sent on a route: none on `ultra`, which refuses
/// one, and no empty one.
pub open spec fn sent_negative(route: Seq<char>, negative: Option<Seq<char>>) -> Option<Seq<char>> {
    match negative {
        Some(text) => if route != "ultra"@ && text.len() > 0 {
            Some(text)
        } else {
            None
        },
        None => None,
    }
}

/// The fields that are sent for a request, with its aspect ratio worked out.
pub open spec fn fields_model(
    route: Seq<char>,
    request: RequestModel,
    aspect: Option<Seq<char>>,
) -> FieldsModel {
    seq![("prompt"@, request.prompt)] + field_if("aspect_ratio"@, aspect) + seq![
        ("output_format"@, lower(trimmed(requested_format(request.output_format)))),
    ] + field_if(
        "seed"@,
        match request.seed {
            Some(seed) => Some(signed_decimal(seed)),
            None => None,
        },
    ) + field_if("negative_prompt"@, sent_negative(route, request.negative_prompt))
}

/// The form of a request, or why there is none.
pub open spec fn form_model(route: Seq<char>, request: RequestModel) -> Result<
    FieldsModel,
    ProviderErrorModel,
> {
    if request.n > 1 {
        Err(
            ProviderErrorModel::BadRequest(
                "Stability AI returns one image per call; pass n=1 (or omit)"@,
            ),
        )
    } else {
        match request.size {
            None => Ok(fields_model(route, request, None)),
            Some(size) => match aspect_ratio(size) {
                Ok(aspect) => Ok(fields_model(route, request, Some(aspect))),
                Err(refusal) => Err(refusal),
            },
        }
    }
}

/// The headers that go with a key, or why there are none.
pub open spec fn headers_model(api_key: Seq<char>) -> Result<
    Map<Seq<char>, Seq<char>>,
    ProviderErrorModel,
> {
    if api_key.len() == 0 {
        Err(ProviderErrorModel::AuthFailed("api_key is empty"@))
    } else if !fits_header("Bearer "@ + api_key) {
        Err(
            ProviderErrorModel::BadRequest(
                "api_key contains characters not allowed in HTTP headers"@,
            ),
        )
    } else {
        Ok(
            Map::empty().insert("accept"@, "application/json"@).insert(
                "authorization"@,
                "Bearer "@ + api_key,
            ),
        )
    }
}

/// The address of a route.
pub open spec fn endpoint_model(base_url: Seq<char>, route: Seq<char>) -> Seq<char> {
    base_url + "/v2beta/stable-image/generate/"@ + route
}

/// An adapter to the API, for one key and one route.
pub struct StabilityImageAdapter {
    client: reqwest::Client,
    base_url: String,
    api_key: String,
    model_route: String,
}

/// A [`StabilityImageAdapter`] as a mathematical value.
pub struct AdapterModel {
    pub base_url: Seq<char>,
    pub api_key: Seq<char>,
    pub model_route: Seq<char>,
    pub user_agent: Seq<char>,
    pub connect_timeout: Duration,
}

impl View for StabilityImageAdapter {
    type V = AdapterModel;

    closed spec fn view(&self) -> AdapterModel {
        AdapterModel {
            base_url: self.base_url@,
            api_key: self.api_key@,
            model_route: self.model_route@,
            user_agent: client_user_agent(self.client),
            connect_timeout: client_connect_timeout(self.client),
        }
    }
}

/// What making an adapter comes to: `client` holds the user agent and the
/// connect timeout of the client, or the fault that stopped it.
pub open spec fn adapter_model(
    client: Result<(Seq<char>, Duration), Seq<char>>,
    base_url: Seq<char>,
    api_key: Seq<char>,
    model_route: Seq<char>,
) -> Result<AdapterModel, ProviderErrorModel> {
    match client {
        Err(fault) => Err(ProviderErrorModel::Network("build http client: "@ + fault)),
        Ok((user_agent, connect_timeout)) => if base_url.len() == 0 {
            Err(ProviderErrorModel::BadRequest("base_url is empty"@))
        } else if lower(trimmed(model_route)).len() == 0 {
            Err(ProviderErrorModel::BadRequest("model_route is empty"@))
        } else {
            Ok(
                AdapterModel {
                    base_url: trim_end_char(base_url, '/'),
                    api_key,
                    model_route: lower(trimmed(model_route)),
                    user_agent,
                    connect_timeout,
                },
            )
        },
    }
}

/// A client's user agent and connect timeout, or the fault that stopped it.
pub open spec fn client_model(client: Result<reqwest::Client, String>) -> Result<
    (Seq<char>, Duration),
    Seq<char>,
> {
    match client {
        Ok(built) => Ok((client_user_agent(built), client_connect_timeout(built))),
        Err(fault) => Err(fault@),
    }
}

/// The fields of a list, taken by their characters.
pub open spec fn fields_view(fields: Seq<(String, String)>) -> FieldsModel {
    Seq::new(fields.len(), |i: int| (fields[i].0@, fields[i].1@))
}

/// Appends a field.
fn push_field(fields: &mut Vec<(String, String)>, name: &str, value: String)
    ensures
        fields_view(final(fields)@) == fields_view(old(fields)@).push((name@, value@)),
{
    fields.push((String::from_str(name), value));
    assert(fields_view(fields@) =~= fields_view(old(fields)@).push((name@, value@)));
}

/// An option of a request that has no place in what is sent.
#[derive(Debug, Clone, Copy, PartialEq, Eq)]
pub enum IgnoredOption {
    Quality,
    Style,
    NegativePrompt,
}

/// One option, where it is ignored.
pub open spec fn ignored_if(ignored: bool, option: IgnoredOption) -> Seq<IgnoredOption> {
    if ignored {
        seq![option]
    } else {
        seq![]
    }
}

/// The options of a request that are passed over on a route. A request for
/// several images is refused before any is looked at, and one whose size is
/// refused before the negative prompt is.
pub open spec fn ignored_model(route: Seq<char>, request: RequestModel) -> Seq<IgnoredOption> {
    if request.n > 1 {
        seq![]
    } else {
        ignored_if(request.quality is Some, IgnoredOption::Quality) + ignored_if(
            request.style is Some,
            IgnoredOption::Style,
        ) + ignored_if(
            form_model(route, request) is Ok && request.negative_prompt is Some && route
                == "ultra"@,
            IgnoredOption::NegativePrompt,
        )
    }
}

/// All that is sent for a request.
pub struct PreparedRequest {
    pub url: String,
    pub headers: HeaderMap<HeaderValue>,
    pub form: Form,
}

/// A [`PreparedRequest`] as a mathematical value.
pub struct PreparedModel {
    pub url: Seq<char>,
    pub headers: Map<Seq<char>, Seq<char>>,
    pub fields: FieldsModel,
}

impl View for PreparedRequest {
    type V = PreparedModel;

    open spec fn view(&self) -> PreparedModel {
        PreparedModel {
            url: self.url@,
            headers: header_fields(self.headers),
            fields: form_parts(self.form),
        }
    }
}

/// What is sent for a request: a refused form goes before refused headers.
pub open spec fn prepared_model(adapter: AdapterModel, request: RequestModel) -> Result<
    PreparedModel,
    ProviderErrorModel,
> {
    match form_model(adapter.model_route, request) {
        Err(refusal) => Err(refusal),
        Ok(fields) => match headers_model(adapter.api_key) {
            Err(refusal) => Err(refusal),
            Ok(headers) => Ok(
                PreparedModel {
                    url: endpoint_model(adapter.base_url, adapter.model_route),
                    headers,
                    fields,
                },
            ),
        },
    }
}

/// What became of a request that was sent.
pub enum Exchange {
    /// It could not be sent; the text says why.
    SendFailed(String),
    /// The body of the answer could not be read; the text says why.
    BodyFailed(String),
    /// It was answered.
    Answered { status: u16, body: Vec<u8> },
}

/// What a call comes to, once its request was sent.
pub open spec fn concluded(exchange: Exchange, output_format: Option<Seq<char>>) -> Result<
    Seq<ImageModel>,
    ProviderErrorModel,
> {
    match exchange {
        Exchange::SendFailed(fault) => Err(ProviderErrorModel::Network("send: "@ + fault@)),
        Exchange::BodyFailed(fault) => Err(ProviderErrorModel::Network("read body: "@ + fault@)),
        Exchange::Answered { status, body } => answer_model(
            status,
            body@,
            requested_format(output_format),
        ),
    }
}

/// Turns what became of a request into the response, or into the error that
/// tells why there is none.
pub fn conclude(request: &NormalizedImageRequest, exchange: &Exchange) -> (response: Result<
    NormalizedImageResponse,
    ProviderError,
>)
    requires
        exchange matches Exchange::Answered { status, .. } ==> 100 <= *status <= 999,
    ensures
        viewed(response) == concluded(*exchange, request@.output_format),
{
    match exchange {
        Exchange::SendFailed(fault) => Err(
            ProviderError::Network { message: String::from_str("send: ").concat(fault.as_str()) },
        ),
        Exchange::BodyFailed(fault) => Err(
            ProviderError::Network {
                message: String::from_str("read body: ").concat(fault.as_str()),
            },
        ),
        Exchange::Answered { status, body } => read_answer(
            *status,
            body.as_slice(),
            output_format_for(request),
        ),
    }
}

impl StabilityImageAdapter {
    /// Makes an adapter. The route is made small, and a base URL loses the
    /// slashes at its end.
    pub fn new(
        base_url: &str,
        api_key: &str,
        model_route: &str,
        connect_timeout: Duration,
    ) -> (made: Result<Self, ProviderError>)
        ensures
            ({
                ||| viewed(made) == adapter_model(
                    Ok((USER_AGENT@, connect_timeout)),
                    base_url@,
                    api_key@,
                    model_route@,
                )
                ||| exists|fault: Seq<char>|
                    viewed(made) == #[trigger] adapter_model(
                        Err(fault),
                        base_url@,
                        api_key@,
                        model_route@,
                    )
            }),
    {
        let client = build_client(USER_AGENT, connect_timeout);
        let ghost outcome = client_model(client);
        let made = Self::with_client(client, base_url, api_key, model_route);
        proof {
            if outcome is Err {
                assert(viewed(made) == adapter_model(
                    Err(outcome->Err_0),
                    base_url@,
                    api_key@,
                    model_route@,
                ));
            }
        }
        made
    }

    /// Makes an adapter around a client, or passes on that there is none.
    pub fn with_client(
        client: Result<reqwest::Client, String>,
        base_url: &str,
        api_key: &str,
        model_route: &str,
    ) -> (made: Result<Self, ProviderError>)
        ensures
            viewed(made) == adapter_model(
                client_model(client),
                base_url@,
                api_key@,
                model_route@,
            ),
    {
        let client = match client {
            Ok(built) => built,
            Err(fault) => {
                return Err(
                    ProviderError::Network {
                        message: String::from_str("build http client: ").concat(fault.as_str()),
                    },
                );
            },
        };
        if base_url.is_empty() {
            return Err(
                ProviderError::BadRequest { message: String::from_str("base_url is empty") },
            );
        }
        let model_route = to_ascii_lowercase(trim(model_route));
        if model_route.as_str().is_empty() {
            return Err(
                ProviderError::BadRequest { message: String::from_str("model_route is empty") },
            );
        }
        Ok(
            StabilityImageAdapter {
                client,
                base_url: String::from_str(trim_end_matches(base_url, '/')),
                api_key: String::from_str(api_key),
                model_route,
            },
        )
    }

    /// The name of the provider.
    pub fn label(&self) -> (label: &'static str)
        ensures
            label@ == "stability"@,
    {
        "stability"
    }

    /// The client that requests go through.
    pub fn client(&self) -> (client: &reqwest::Client)
        ensures
            client_user_agent(*client) == self@.user_agent,
            client_connect_timeout(*client) == self@.connect_timeout,
    {
        &self.client
    }

    /// The adapter as `Debug` shows it, on one line or, in the alternate form,
    /// with a line for each field: without the client and without the key.
    pub fn debug_text(&self, alternate: bool) -> (text: String)
        ensures
            text@ == debug_model(self@, alternate),
    {
        let base_url = debug_str(self.base_url.as_str());
        let model_route = debug_str(self.model_route.as_str());
        if alternate {
            return String::from_str("StabilityImageAdapter {\n    base_url: ").concat(
                base_url.as_str(),
            ).concat(",\n    model_route: ").concat(model_route.as_str()).concat(",\n}");
        }
        String::from_str("StabilityImageAdapter { base_url: ").concat(base_url.as_str()).concat(
            ", model_route: ",
        ).concat(model_route.as_str()).concat(" }")
    }

    /// The address that requests go to.
    pub fn endpoint_url(&self) -> (url: String)
        ensures
            url@ == endpoint_model(self@.base_url, self@.model_route),
    {
        String::from_str(self.base_url.as_str()).concat("/v2beta/stable-image/generate/").concat(
            self.model_route.as_str(),
        )
    }

    /// The headers that requests carry.
    pub fn build_headers(&self) -> (headers: Result<HeaderMap<HeaderValue>, ProviderError>)
        ensures
            match headers {
                Ok(built) => headers_model(self@.api_key) == Ok::<
                    Map<Seq<char>, Seq<char>>,
                    ProviderErrorModel,
                >(header_fields(built)),
                Err(refusal) => headers_model(self@.api_key) == Err::<
                    Map<Seq<char>, Seq<char>>,
                    ProviderErrorModel,
                >(refusal@),
            },
    {
        proof {
            reveal_strlit("accept");
            reveal_strlit("authorization");
        }
        if self.api_key.as_str().is_empty() {
            return Err(
                ProviderError::AuthFailed { message: String::from_str("api_key is empty") },
            );
        }
        let refused = ProviderError::BadRequest {
            message: String::from_str("api_key contains characters not allowed in HTTP headers"),
        };
        let mut headers = empty_headers();
        proof {
            reveal_strlit("application/json");
        }
        match header_value("application/json") {
            Ok(value) => insert_header(&mut headers, "accept", value),
            Err(_) => {
                assert(false);
                return Err(refused);
            },
        }
        let bearer = String::from_str("Bearer ").concat(self.api_key.as_str());
        match header_value(bearer.as_str()) {
            Ok(value) => {
                insert_header(&mut headers, "authorization", value);
                Ok(headers)
            },
            Err(_) => Err(refused),
        }
    }

    /// The fields that are sent for a request, in order.
    pub fn form_fields(&self, request: &NormalizedImageRequest) -> (fields: Result<
        Vec<(String, String)>,
        ProviderError,
    >)
        ensures
            match fields {
                Ok(list) => form_model(self@.model_route, request@) == Ok::<
                    FieldsModel,
                    ProviderErrorModel,
                >(fields_view(list@)),
                Err(refusal) => form_model(self@.model_route, request@) == Err::<
                    FieldsModel,
                    ProviderErrorModel,
                >(refusal@),
            },
    {
        if request.n > 1 {
            return Err(
                ProviderError::BadRequest {
                    message: String::from_str(
                        "Stability AI returns one image per call; pass n=1 (or omit)",
                    ),
                },
            );
        }
        let mut fields: Vec<(String, String)> = Vec::new();
        assert(fields_view(fields@) =~= seq![]);
        push_field(&mut fields, "prompt", request.prompt.clone());
        let ghost mut aspect: Option<Seq<char>> = None;
        if let Some(size) = &request.size {
            match aspect_ratio_for(size.as_str()) {
                Ok(ratio) => {
                    proof {
                        aspect = Some(ratio@);
                    }
                    push_field(&mut fields, "aspect_ratio", ratio);
                },
                Err(refusal) => {
                    return Err(refusal);
                },
            }
        }
        let fmt = to_ascii_lowercase(trim(output_format_for(request)));
        push_field(&mut fields, "output_format", fmt);
        if let Some(seed) = request.seed {
            push_field(&mut fields, "seed", signed_decimal_text(seed));
        }
        if let Some(negative) = &request.negative_prompt {
            // The `ultra` route refuses a negative prompt; the others take one.
            if !same_text(self.model_route.as_str(), "ultra") && !negative.as_str().is_empty() {
                push_field(&mut fields, "negative_prompt", negative.clone());
            }
        }
        assert(fields_view(fields@) =~= fields_model(self@.model_route, request@, aspect));
        Ok(fields)
    }

    /// The form that is sent for a request.
    pub fn build_form(&self, request: &NormalizedImageRequest) -> (form: Result<
        Form,
        ProviderError,
    >)
        ensures
            match form {
                Ok(built) => form_model(self@.model_route, request@) == Ok::<
                    FieldsModel,
                    ProviderErrorModel,
                >(form_parts(built)),
                Err(refusal) => form_model(self@.model_route, request@) == Err::<
                    FieldsModel,
                    ProviderErrorModel,
                >(refusal@),
            },
    {
        let fields = match self.form_fields(request) {
            Ok(list) => list,
            Err(refusal) => {
                return Err(refusal);
            },
        };
        let mut form = empty_form();
        let mut i: usize = 0;
        assert(form_parts(form) =~= fields_view(fields@).take(0));
        while i < fields.len()
            invariant
                i <= fields@.len(),
                form_parts(form) == fields_view(fields@).take(i as int),
            decreases fields@.len() - i,
        {
            form = form_text(form, fields[i].0.as_str(), fields[i].1.clone());
            i = i + 1;
            assert(form_parts(form) =~= fields_view(fields@).take(i as int));
        }
        assert(fields_view(fields@).take(i as int) =~= fields_view(fields@));
        Ok(form)
    }

    /// The options of a request that are passed over, for a warning each.
    pub fn ignored_options(&self, request: &NormalizedImageRequest) -> (ignored: Vec<IgnoredOption>)
        ensures
            ignored@ == ignored_model(self@.model_route, request@),
    {
        let mut ignored: Vec<IgnoredOption> = Vec::new();
        if request.n > 1 {
            return ignored;
        }
        if request.quality.is_some() {
            ignored.push(IgnoredOption::Quality);
        }
        if request.style.is_some() {
            ignored.push(IgnoredOption::Style);
        }
        if request.negative_prompt.is_some() && same_text(self.model_route.as_str(), "ultra") {
            let usable = match &request.size {
                Some(size) => aspect_ratio_for(size.as_str()).is_ok(),
                None => true,
            };
            if usable {
                ignored.push(IgnoredOption::NegativePrompt);
            }
        }
        assert(ignored@ =~= ignored_model(self@.model_route, request@));
        ignored
    }

    /// Works out all that is sent for a request, or why nothing is.
    pub fn prepare(&self, request: &NormalizedImageRequest) -> (prepared: Result<
        PreparedRequest,
        ProviderError,
    >)
        ensures
            viewed(prepared) == prepared_model(self@, request@),
    {
        let form = match self.build_form(request) {
            Ok(built) => built,
            Err(refusal) => {
                return Err(refusal);
            },
        };
        let headers = match self.build_headers() {
            Ok(built) => built,
            Err(refusal) => {
                return Err(refusal);
            },
        };
        let url = self.endpoint_url();
        Ok(PreparedRequest { url, headers, form })
    }
}

/// What `Debug` shows of an adapter.
pub open spec fn debug_model(adapter: AdapterModel, alternate: bool) -> Seq<char> {
    if alternate {
        "StabilityImageAdapter {\n    base_url: "@ + quoted(adapter.base_url)
            + ",\n    model_route: "@ + quoted(adapter.model_route) + ",\n}"@
    } else {
        "StabilityImageAdapter { base_url: "@ + quoted(adapter.base_url) + ", model_route: "@
            + quoted(adapter.model_route) + " }"@
    }
}

/// Quality and style have no place in what is sent: requests that differ in
/// nothing else have the same form.
pub proof fn quality_and_style_are_not_sent(route: Seq<char>, a: RequestModel, b: RequestModel)
    requires
        a == (RequestModel { quality: a.quality, style: a.style, ..b }),
    ensures
        form_model(route, a) == form_model(route, b),
{
}

/// A request for more than one image is refused, whatever else it asks.
pub proof fn several_images_are_refused(route: Seq<char>, request: RequestModel)
    requires
        request.n > 1,
    ensures
        form_model(route, request) == Err::<FieldsModel, ProviderErrorModel>(
            ProviderErrorModel::BadRequest(
                "Stability AI returns one image per call; pass n=1 (or omit)"@,
            ),
        ),
{
}

/// A form without a size is never refused for one image, and one with a size is
/// refused exactly where the size is.
pub proof fn only_the_size_is_refused(route: Seq<char>, request: RequestModel)
    requires
        request.n <= 1,
    ensures
        request.size is None ==> form_model(route, request) is Ok,
        request.size matches Some(size) ==> (form_model(route, request) is Ok <==> aspect_ratio(
            size,
        ) is Ok),
{
}

/// The prompt goes first and as it is, and the output format always goes along:
/// trimmed, small and not empty.
pub proof fn prompt_and_format_are_sent(route: Seq<char>, request: RequestModel)
    requires
        form_model(route, request) is Ok,
    ensures
        form_model(route, request)->Ok_0[0] == ("prompt"@, request.prompt),
        form_model(route, request)->Ok_0.contains(
            ("output_format"@, lower(trimmed(requested_format(request.output_format)))),
        ),
        lower(trimmed(requested_format(request.output_format))).len() > 0,
{
    let fields = form_model(route, request)->Ok_0;
    let sent = ("output_format"@, lower(trimmed(requested_format(request.output_format))));
    reveal_strlit("png");
    if request.size is None {
        assert(fields[1] == sent);
    } else {
        assert(fields[2] == sent);
    }
}

/// The `ultra` route is sent no negative prompt: there a request's own decides
/// nothing.
pub proof fn ultra_is_sent_no_negative_prompt(a: RequestModel, b: RequestModel)
    requires
        a == (RequestModel { negative_prompt: a.negative_prompt, ..b }),
    ensures
        form_model("ultra"@, a) == form_model("ultra"@, b),
        form_model("ultra"@, a) matches Ok(fields) ==> forall|i: int|
            0 <= i < fields.len() ==> (#[trigger] fields[i]).0 != "negative_prompt"@,
{
    reveal_strlit("prompt");
    reveal_strlit("aspect_ratio");
    reveal_strlit("output_format");
    reveal_strlit("seed");
    reveal_strlit("negative_prompt");
    assert("prompt"@.len() == 6);
    assert("aspect_ratio"@.len() == 12);
    assert("output_format"@.len() == 13);
    assert("seed"@.len() == 4);
    assert("negative_prompt"@.len() == 15);
}

/// On the other routes a negative prompt that is not empty is sent last, as it is.
pub proof fn negative_prompt_is_sent(route: Seq<char>, request: RequestModel)
    requires
        route != "ultra"@,
        request.negative_prompt matches Some(text) && text.len() > 0,
        form_model(route, request) is Ok,
    ensures
        form_model(route, request)->Ok_0.last() == (
            "negative_prompt"@,
            request.negative_prompt->Some_0,
        ),
{
}

/// The format that a request is sent with and the MIME type that its image is
/// tagged with agree.
pub proof fn sent_format_decides_the_mime_type(
    route: Seq<char>,
    request: RequestModel,
    exchange: Exchange,
)
    requires
        form_model(route, request) is Ok,
        concluded(exchange, request.output_format) is Ok,
    ensures
        exists|format: Seq<char>| #[trigger]
            form_model(route, request)->Ok_0.contains(("output_format"@, format)) && concluded(
                exchange,
                request.output_format,
            )->Ok_0[0].mime_type == mime_type(format),
{
    prompt_and_format_are_sent(route, request);
    mime_type_ignores_case_and_outer_space(requested_format(request.output_format));
}

/// No request, whatever it holds, changes the address or the headers.
pub proof fn request_does_not_redirect(adapter: AdapterModel, request: RequestModel)
    requires
        prepared_model(adapter, request) is Ok,
    ensures
        prepared_model(adapter, request)->Ok_0.url == endpoint_model(
            adapter.base_url,
            adapter.model_route,
        ),
        headers_model(adapter.api_key) == Ok::<Map<Seq<char>, Seq<char>>, ProviderErrorModel>(
            prepared_model(adapter, request)->Ok_0.headers,
        ),
{
}

/// Nothing is sent with an empty key.
pub proof fn empty_key_sends_nothing(adapter: AdapterModel, request: RequestModel)
    requires
        adapter.api_key.len() == 0,
    ensures
        prepared_model(adapter, request) is Err,
        headers_model(adapter.api_key) == Err::<Map<Seq<char>, Seq<char>>, ProviderErrorModel>(
            ProviderErrorModel::AuthFailed("api_key is empty"@),
        ),
{
}

proof fn lemma_trim_end_char(s: Seq<char>, c: char)
    ensures
        trim_end_char(s, c).len() > 0 ==> trim_end_char(s, c).last() != c,
    decreases s.len(),
{
    if s.len() > 0 && s.last() == c {
        lemma_trim_end_char(s.drop_last(), c);
    }
}

/// An adapter's base URL does not end in a slash, and its route is small,
/// trimmed and not empty.
pub proof fn adapter_is_normalized(
    client: Result<(Seq<char>, Duration), Seq<char>>,
    base_url: Seq<char>,
    api_key: Seq<char>,
    model_route: Seq<char>,
)
    requires
        adapter_model(client, base_url, api_key, model_route) is Ok,
    ensures
        ({
            let adapter = adapter_model(client, base_url, api_key, model_route)->Ok_0;
            &&& adapter.base_url.len() > 0 ==> adapter.base_url.last() != '/'
            &&& adapter.model_route.len() > 0
            &&& lower(trimmed(adapter.model_route)) == adapter.model_route
        }),
{
    lemma_trim_end_char(base_url, '/');
    lowering_keeps_trimmed(model_route);
    lowering_is_idempotent(trimmed(model_route));
}

/// A slash at the end of a base URL changes nothing.
pub proof fn trailing_slash_changes_nothing(
    client: Result<(Seq<char>, Duration), Seq<char>>,
    base_url: Seq<char>,
    api_key: Seq<char>,
    model_route: Seq<char>,
)
    requires
        base_url.len() > 0,
    ensures
        adapter_model(client, base_url.push('/'), api_key, model_route) == adapter_model(
            client,
            base_url,
            api_key,
            model_route,
        ),
{
    assert(base_url.push('/').drop_last() =~= base_url);
}

/// `Debug` does not show the key: adapters that differ in nothing else look alike.
pub proof fn debug_hides_the_key(a: AdapterModel, b: AdapterModel, alternate: bool)
    requires
        a == (AdapterModel { api_key: a.api_key, ..b }),
    ensures
        debug_model(a, alternate) == debug_model(b, alternate),
{
}

/// A request shows every field as it is.
pub proof fn request_shows_its_fields(request: NormalizedImageRequest)
    ensures
        request@.model == request.model@,
        request@.prompt == request.prompt@,
        request@.n == request.n,
        request.seed is None <==> request@.seed is None,
        request.seed matches Some(seed) ==> request@.seed == Some(seed as int),
        request@.size == opt_view(request.size),
        request@.quality == opt_view(request.quality),
        request@.style == opt_view(request.style),
        request@.negative_prompt == opt_view(request.negative_prompt),
        request@.output_format == opt_view(request.output_format),
{
}

/// An optional text is shown as the text that it is.
pub proof fn optional_text_is_shown(text: String)
    ensures
        opt_view(Some(text)) == Some(text@),
        opt_view(None) is None,
{
}

/// A list of fields is shown field for field, in order.
pub proof fn fields_are_shown(fields: Seq<(String, String)>)
    ensures
        fields_view(fields).len() == fields.len(),
        forall|i: int|
            0 <= i < fields.len() ==> (#[trigger] fields_view(fields)[i]).0 == fields[i].0@
                && fields_view(fields)[i].1 == fields[i].1@,
{
}

/// What is sent is shown as the address, the headers and the form that it is.
pub proof fn prepared_request_is_shown(prepared: PreparedRequest)
    ensures
        prepared@.url == prepared.url@,
        prepared@.headers == header_fields(prepared.headers),
        prepared@.fields == form_parts(prepared.form),
{
}

/// Whether exactly one field has that name, and that value.
pub open spec fn holds_once(fields: FieldsModel, name: Seq<char>, value: Seq<char>) -> bool {
    exists|i: int|
        {
            &&& 0 <= i < fields.len()
            &&& #[trigger] fields[i] == (name, value)
            &&& forall|j: int|
                0 <= j < fields.len() && j != i ==> (#[trigger] fields[j]).0 != name
        }
}

/// Whether no field has that name.
pub open spec fn holds_none(fields: FieldsModel, name: Seq<char>) -> bool {
    forall|j: int| 0 <= j < fields.len() ==> (#[trigger] fields[j]).0 != name
}

proof fn lemma_names_differ()
    ensures
        "prompt"@.len() == 6,
        "aspect_ratio"@.len() == 12,
        "output_format"@.len() == 13,
        "seed"@.len() == 4,
        "negative_prompt"@.len() == 15,
{
    reveal_strlit("prompt");
    reveal_strlit("aspect_ratio");
    reveal_strlit("output_format");
    reveal_strlit("seed");
    reveal_strlit("negative_prompt");
}

proof fn lemma_held_at(fields: FieldsModel, name: Seq<char>, value: Seq<char>, i: int)
    requires
        0 <= i < fields.len(),
        fields[i] == (name, value),
        forall|j: int| 0 <= j < fields.len() && j != i ==> (#[trigger] fields[j]).0 != name,
    ensures
        holds_once(fields, name, value),
{
}

/// A name is held with one value.
proof fn lemma_held_value(fields: FieldsModel, name: Seq<char>, a: Seq<char>, b: Seq<char>)
    requires
        holds_once(fields, name, a),
        holds_once(fields, name, b),
    ensures
        a == b,
{
    let i = choose|i: int|
        {
            &&& 0 <= i < fields.len()
            &&& #[trigger] fields[i] == (name, a)
            &&& forall|j: int|
                0 <= j < fields.len() && j != i ==> (#[trigger] fields[j]).0 != name
        };
    let k = choose|k: int|
        {
            &&& 0 <= k < fields.len()
            &&& #[trigger] fields[k] == (name, b)
            &&& forall|j: int|
                0 <= j < fields.len() && j != k ==> (#[trigger] fields[j]).0 != name
        };
    assert(fields[k].0 == name);
}

/// Where each field of a form stands.
proof fn lemma_form(route: Seq<char>, request: RequestModel)
    requires
        form_model(route, request) is Ok,
    ensures
        ({
            let fields = form_model(route, request)->Ok_0;
            let a: int = if request.size is Some {
                1
            } else {
                0
            };
            let s: int = if request.seed is Some {
                1
            } else {
                0
            };
            let n: int = if sent_negative(route, request.negative_prompt) is Some {
                1
            } else {
                0
            };
            &&& fields.len() == 2 + a + s + n
            &&& fields[0] == ("prompt"@, request.prompt)
            &&& a == 1 ==> fields[1] == ("aspect_ratio"@, aspect_ratio(request.size->Some_0)->Ok_0)
            &&& fields[1 + a] == (
                "output_format"@,
                lower(trimmed(requested_format(request.output_format))),
            )
            &&& s == 1 ==> fields[2 + a] == ("seed"@, signed_decimal(request.seed->Some_0))
            &&& n == 1 ==> fields[2 + a + s] == (
                "negative_prompt"@,
                sent_negative(route, request.negative_prompt)->Some_0,
            )
        }),
{
}

/// The prompt is sent once, as it is.
pub proof fn prompt_is_sent_as_it_is(route: Seq<char>, request: RequestModel)
    requires
        form_model(route, request) is Ok,
    ensures
        holds_once(form_model(route, request)->Ok_0, "prompt"@, request.prompt),
{
    lemma_form(route, request);
    lemma_names_differ();
    lemma_held_at(form_model(route, request)->Ok_0, "prompt"@, request.prompt, 0);
}

/// The ratio of a size is sent once; without a size none is sent.
pub proof fn ratio_of_the_size_is_sent(route: Seq<char>, request: RequestModel)
    requires
        form_model(route, request) is Ok,
    ensures
        request.size is None ==> holds_none(form_model(route, request)->Ok_0, "aspect_ratio"@),
        request.size matches Some(size) ==> (aspect_ratio(size) matches Ok(ratio) && holds_once(
            form_model(route, request)->Ok_0,
            "aspect_ratio"@,
            ratio,
        )),
{
    lemma_form(route, request);
    lemma_names_differ();
    if request.size is Some {
        lemma_held_at(
            form_model(route, request)->Ok_0,
            "aspect_ratio"@,
            aspect_ratio(request.size->Some_0)->Ok_0,
            1,
        );
    }
}

/// A format that a request names, with something else than white space at `i`,
/// is sent once: trimmed, and in small letters.
pub proof fn named_format_is_sent(
    route: Seq<char>,
    request: RequestModel,
    format: Seq<char>,
    i: int,
)
    requires
        form_model(route, request) is Ok,
        request.output_format == Some(format),
        0 <= i < format.len(),
        !is_white_space(format[i]),
    ensures
        holds_once(
            form_model(route, request)->Ok_0,
            "output_format"@,
            lower(trimmed(format)),
        ),
{
    lemma_form(route, request);
    lemma_names_differ();
    only_white_space_is_trimmed_away(format);
    let at: int = if request.size is Some {
        2
    } else {
        1
    };
    lemma_held_at(
        form_model(route, request)->Ok_0,
        "output_format"@,
        lower(trimmed(format)),
        at,
    );
}

/// A request that names no format, or only white space, is sent `png`.
pub proof fn unnamed_format_is_png(route: Seq<char>, request: RequestModel)
    requires
        form_model(route, request) is Ok,
        request.output_format matches Some(format) ==> all_white(format),
    ensures
        holds_once(form_model(route, request)->Ok_0, "output_format"@, "png"@),
{
    lemma_form(route, request);
    lemma_names_differ();
    lemma_png();
    if request.output_format is Some {
        only_white_space_is_trimmed_away(request.output_format->Some_0);
    }
    let at: int = if request.size is Some {
        2
    } else {
        1
    };
    lemma_held_at(form_model(route, request)->Ok_0, "output_format"@, "png"@, at);
}

proof fn lemma_png()
    ensures
        DEFAULT_OUTPUT_FORMAT@ == "png"@,
        lower(trimmed("png"@)) == "png"@,
        "png"@ != "jpeg"@,
        "png"@ != "jpg"@,
        "png"@ != "webp"@,
{
    reveal_strlit("png");
    reveal_strlit("jpeg");
    reveal_strlit("jpg");
    reveal_strlit("webp");
    crate::text::lemma_trimmed_same("png"@);
    assert(lower("png"@) =~= "png"@);
    assert("png"@[0] == 'p' && "jpeg"@[0] == 'j' && "jpg"@[0] == 'j' && "webp"@[0] == 'w');
}

/// A seed is sent once, in a text that reads back as the seed; without a seed
/// none is sent.
pub proof fn seed_reads_back(route: Seq<char>, request: RequestModel)
    requires
        form_model(route, request) is Ok,
    ensures
        request.seed is None ==> holds_none(form_model(route, request)->Ok_0, "seed"@),
        request.seed matches Some(seed) ==> exists|text: Seq<char>|
            #[trigger] holds_once(form_model(route, request)->Ok_0, "seed"@, text)
                && writes_integer(text, seed),
{
    lemma_form(route, request);
    lemma_names_differ();
    if request.seed is Some {
        let at: int = if request.size is Some {
            3
        } else {
            2
        };
        let text = signed_decimal(request.seed->Some_0);
        lemma_held_at(form_model(route, request)->Ok_0, "seed"@, text, at);
        signed_number_reads_back(request.seed->Some_0);
    }
}

/// Requests whose seeds differ have different forms.
pub proof fn different_seeds_have_different_forms(
    route: Seq<char>,
    a: RequestModel,
    b: RequestModel,
)
    requires
        form_model(route, a) is Ok,
        form_model(route, b) is Ok,
        a.seed != b.seed,
    ensures
        form_model(route, a) != form_model(route, b),
{
    seed_reads_back(route, a);
    seed_reads_back(route, b);
    let fields = form_model(route, a)->Ok_0;
    if form_model(route, a) == form_model(route, b) && a.seed is Some && b.seed is Some {
        let s = choose|text: Seq<char>| #[trigger]
            holds_once(fields, "seed"@, text) && writes_integer(text, a.seed->Some_0);
        let t = choose|text: Seq<char>| #[trigger]
            holds_once(fields, "seed"@, text) && writes_integer(text, b.seed->Some_0);
        lemma_held_value(fields, "seed"@, s, t);
        text_writes_one_integer(s, a.seed->Some_0, b.seed->Some_0);
    }
}

/// A negative prompt that is not empty is sent once, as it is, but on `ultra`;
/// else none is sent.
pub proof fn negative_prompt_is_sent_but_on_ultra(route: Seq<char>, request: RequestModel)
    requires
        form_model(route, request) is Ok,
    ensures
        route == "ultra"@ || !(request.negative_prompt matches Some(text) && text.len() > 0)
            ==> holds_none(form_model(route, request)->Ok_0, "negative_prompt"@),
        route != "ultra"@ ==> (request.negative_prompt matches Some(text) ==> (text.len() > 0
            ==> holds_once(form_model(route, request)->Ok_0, "negative_prompt"@, text))),
{
    lemma_form(route, request);
    lemma_names_differ();
    if route != "ultra"@ && request.negative_prompt is Some && request.negative_prompt->Some_0.len()
        > 0 {
        let fields = form_model(route, request)->Ok_0;
        lemma_held_at(
            fields,
            "negative_prompt"@,
            request.negative_prompt->Some_0,
            fields.len() - 1,
        );
    }
}

/// A form holds at most five fields, under these names, in this order.
pub proof fn only_five_fields_are_sent(route: Seq<char>, request: RequestModel, i: int, j: int)
    requires
        form_model(route, request) is Ok,
        0 <= i < j < form_model(route, request)->Ok_0.len(),
    ensures
        ({
            let order = seq![
                "prompt"@,
                "aspect_ratio"@,
                "output_format"@,
                "seed"@,
                "negative_prompt"@,
            ];
            let fields = form_model(route, request)->Ok_0;
            exists|m: int, n: int|
                0 <= m < n < 5 && #[trigger] order[m] == fields[i].0 && #[trigger] order[n]
                    == fields[j].0
        }),
{
    lemma_form(route, request);
    lemma_names_differ();
    let order = seq![
        "prompt"@,
        "aspect_ratio"@,
        "output_format"@,
        "seed"@,
        "negative_prompt"@,
    ];
    let fields = form_model(route, request)->Ok_0;
    let a: int = if request.size is Some {
        1
    } else {
        0
    };
    let s: int = if request.seed is Some {
        1
    } else {
        0
    };
    let place = |k: int|
        if k == 0 {
            0int
        } else if k < 1 + a {
            1
        } else if k == 1 + a {
            2
        } else if k < 2 + a + s {
            3
        } else {
            4
        };
    assert(order[place(i)] == fields[i].0);
    assert(order[place(j)] == fields[j].0);
}

/// What the caller calls the model, and its wishes as to quality and style, are
/// not sent, and do not decide where a request goes.
pub proof fn caller_does_not_choose_the_model(
    adapter: AdapterModel,
    a: RequestModel,
    b: RequestModel,
)
    requires
        a == (RequestModel { model: a.model, quality: a.quality, style: a.style, ..b }),
    ensures
        prepared_model(adapter, a) == prepared_model(adapter, b),
{
}

/// A form is refused for the number of images first, then for its size, in the
/// words that the size is refused in, and for nothing else.
pub proof fn refused_size_refuses_the_form(route: Seq<char>, request: RequestModel)
    requires
        request.n <= 1,
    ensures
        request.size matches Some(size) ==> (aspect_ratio(size) matches Err(refusal)
            ==> form_model(route, request) == Err::<FieldsModel, ProviderErrorModel>(refusal)),
        form_model(route, request) is Err ==> (request.size matches Some(size) && aspect_ratio(
            size,
        ) is Err),
{
}

/// Every key that is not empty and holds no control character goes into the
/// `authorization` header, character for character after `Bearer `, beside an
/// `accept` header that asks for JSON, and there is no other header.
pub proof fn key_is_sent_as_it_is(api_key: Seq<char>)
    requires
        api_key.len() > 0,
        forall|i: int|
            0 <= i < api_key.len() ==> ((#[trigger] api_key[i]) as int == 9 || 32
                <= api_key[i] as int && api_key[i] as int != 127),
    ensures
        headers_model(api_key) matches Ok(headers) && headers.dom() == set![
            "accept"@,
            "authorization"@,
        ] && headers["accept"@] == "application/json"@ && headers["authorization"@].len() == 7
            + api_key.len() && headers["authorization"@].take(7) == "Bearer "@
            && headers["authorization"@].skip(7) == api_key,
{
    reveal_strlit("Bearer ");
    reveal_strlit("accept");
    reveal_strlit("authorization");
    assert("accept"@.len() == 6 && "authorization"@.len() == 13);
    let bearer = "Bearer "@ + api_key;
    assert forall|i: int|
        #![trigger bearer[i]]
        0 <= i < bearer.len() implies (32 <= bearer[i] as int && bearer[i] as int != 127
        || bearer[i] as int == 9) by {
        if i >= 7 {
            assert(bearer[i] == api_key[i - 7]);
        }
    }
    let headers = headers_model(api_key)->Ok_0;
    assert(headers.dom() =~= set!["accept"@, "authorization"@]);
    assert(bearer.take(7) =~= "Bearer "@);
    assert(bearer.skip(7) =~= api_key);
}

/// Different keys are sent in different headers.
pub proof fn different_keys_have_different_headers(a: Seq<char>, b: Seq<char>)
    requires
        headers_model(a) is Ok,
        headers_model(b) is Ok,
        a != b,
    ensures
        headers_model(a)->Ok_0["authorization"@] != headers_model(b)->Ok_0["authorization"@],
{
    let (s, t) = ("Bearer "@ + a, "Bearer "@ + b);
    assert(s.skip("Bearer "@.len() as int) =~= a);
    assert(t.skip("Bearer "@.len() as int) =~= b);
}

/// A key with a control character is refused: no header can hold it.
pub proof fn key_with_a_control_character_is_refused(api_key: Seq<char>, i: int)
    requires
        0 <= i < api_key.len(),
        api_key[i] as int != 9,
        (api_key[i] as int) < 32 || api_key[i] as int == 127,
    ensures
        headers_model(api_key) == Err::<Map<Seq<char>, Seq<char>>, ProviderErrorModel>(
            ProviderErrorModel::BadRequest(
                "api_key contains characters not allowed in HTTP headers"@,
            ),
        ),
{
    reveal_strlit("Bearer ");
    let bearer = "Bearer "@ + api_key;
    assert(bearer[i + 7] == api_key[i]);
}

/// A request goes to the base URL without the slashes at its end, then the
/// path of the API, then the route, trimmed and in small letters; with the key,
/// the user agent and the connect timeout that were given.
pub proof fn adapter_goes_where_it_is_told(
    user_agent: Seq<char>,
    connect_timeout: Duration,
    base: Seq<char>,
    slashes: nat,
    api_key: Seq<char>,
    model_route: Seq<char>,
)
    requires
        base.len() > 0 ==> base[base.len() - 1] != '/',
        base.len() + slashes > 0,
        !all_white(model_route),
    ensures
        adapter_model(
            Ok((user_agent, connect_timeout)),
            base + Seq::new(slashes, |i: int| '/'),
            api_key,
            model_route,
        ) matches Ok(adapter) && adapter.api_key == api_key && adapter.user_agent == user_agent
            && adapter.connect_timeout == connect_timeout && adapter.base_url == base
            && adapter.model_route == lower(trimmed(model_route)) && endpoint_model(
            adapter.base_url,
            adapter.model_route,
        ) == base + "/v2beta/stable-image/generate/"@ + lower(trimmed(model_route)),
{
    run_at_the_end_is_cut(base, '/', slashes);
    only_white_space_is_trimmed_away(model_route);
}

/// An adapter is refused for want of a client first, then of a base URL, then
/// of a route, and for nothing else.
pub proof fn adapter_is_refused_for(
    client: Result<(Seq<char>, Duration), Seq<char>>,
    base_url: Seq<char>,
    api_key: Seq<char>,
    model_route: Seq<char>,
)
    ensures
        client matches Err(fault) ==> adapter_model(
            client,
            base_url,
            api_key,
            model_route,
        ) == Err::<AdapterModel, ProviderErrorModel>(
            ProviderErrorModel::Network("build http client: "@ + fault),
        ),
        client is Ok && base_url.len() == 0 ==> adapter_model(
            client,
            base_url,
            api_key,
            model_route,
        ) == Err::<AdapterModel, ProviderErrorModel>(
            ProviderErrorModel::BadRequest("base_url is empty"@),
        ),
        client is Ok && base_url.len() > 0 && all_white(model_route) ==> adapter_model(
            client,
            base_url,
            api_key,
            model_route,
        ) == Err::<AdapterModel, ProviderErrorModel>(
            ProviderErrorModel::BadRequest("model_route is empty"@),
        ),
        client is Ok && base_url.len() > 0 && !all_white(model_route) ==> adapter_model(
            client,
            base_url,
            api_key,
            model_route,
        ) is Ok,
{
    only_white_space_is_trimmed_away(model_route);
}

/// What is sent is the address, the headers of the key and the form of the
/// request; a refused form is told first, then a refused key.
pub proof fn all_that_is_sent(adapter: AdapterModel, request: RequestModel)
    ensures
        form_model(adapter.model_route, request) matches Err(refusal) ==> prepared_model(
            adapter,
            request,
        ) == Err::<PreparedModel, ProviderErrorModel>(refusal),
        form_model(adapter.model_route, request) is Ok ==> (headers_model(
            adapter.api_key,
        ) matches Err(refusal) ==> prepared_model(adapter, request) == Err::<
            PreparedModel,
            ProviderErrorModel,
        >(refusal)),
        form_model(adapter.model_route, request) matches Ok(fields) ==> (headers_model(
            adapter.api_key,
        ) matches Ok(headers) ==> (prepared_model(adapter, request) matches Ok(sent)
            && sent.fields == fields && sent.headers == headers && sent.url == adapter.base_url
            + "/v2beta/stable-image/generate/"@ + adapter.model_route)),
{
}

/// The options that are passed over, each told once: quality and style wherever
/// they are given, and a negative prompt on `ultra` where the request is sent.
pub proof fn what_is_passed_over(route: Seq<char>, request: RequestModel)
    ensures
        request.n > 1 ==> ignored_model(route, request).len() == 0,
        request.n <= 1 ==> (ignored_model(route, request).contains(IgnoredOption::Quality)
            <==> request.quality is Some),
        request.n <= 1 ==> (ignored_model(route, request).contains(IgnoredOption::Style)
            <==> request.style is Some),
        request.n <= 1 ==> (ignored_model(route, request).contains(IgnoredOption::NegativePrompt)
            <==> (route == "ultra"@ && request.negative_prompt is Some && (
        request.size matches Some(size) ==> aspect_ratio(size) is Ok))),
        ignored_model(route, request).no_duplicates(),
        request.n <= 1 && request.quality is Some ==> ignored_model(route, request)[0]
            == IgnoredOption::Quality,
        ignored_model(route, request).contains(IgnoredOption::NegativePrompt) ==> ignored_model(
            route,
            request,
        ).last() == IgnoredOption::NegativePrompt,
{
    let told = ignored_model(route, request);
    if request.n <= 1 {
        let q: int = if request.quality is Some {
            1
        } else {
            0
        };
        let s: int = if request.style is Some {
            1
        } else {
            0
        };
        assert(q == 1 ==> told[0] == IgnoredOption::Quality);
        assert(s == 1 ==> told[q] == IgnoredOption::Style);
        assert(told.len() > q + s ==> told[q + s] == IgnoredOption::NegativePrompt);
    }
}

/// A request that could not be sent, or whose answer could not be read, is a
/// network error that says why.
pub proof fn broken_exchange_is_told(fault: String, output_format: Option<Seq<char>>)
    ensures
        concluded(Exchange::SendFailed(fault), output_format) == Err::<
            Seq<ImageModel>,
            ProviderErrorModel,
        >(ProviderErrorModel::Network("send: "@ + fault@)),
        concluded(Exchange::BodyFailed(fault), output_format) == Err::<
            Seq<ImageModel>,
            ProviderErrorModel,
        >(ProviderErrorModel::Network("read body: "@ + fault@)),
{
}

/// A filtered generation is told as a bad request, whatever was asked for.
pub proof fn filtered_generation_is_a_bad_request(
    exchange: Exchange,
    members: Map<Seq<char>, JsonNode>,
    output_format: Option<Seq<char>>,
)
    requires
        exchange matches Exchange::Answered { status, body } && 200 <= status <= 299
            && json_document(body@) == Ok::<JsonNode, Seq<char>>(JsonNode::Members(members)),
        says_filtered(members),
    ensures
        concluded(exchange, output_format) == Err::<Seq<ImageModel>, ProviderErrorModel>(
            ProviderErrorModel::BadRequest("content filtered by provider"@),
        ),
{
    filtered_answer_is_a_bad_request(
        exchange->Answered_status,
        exchange->Answered_body@,
        members,
        requested_format(output_format),
    );
}

/// The image that was generated comes back, byte for byte, with the MIME type
/// of the format that was asked for: JPEG, WebP, or else PNG.
pub proof fn generated_image_comes_back(
    exchange: Exchange,
    members: Map<Seq<char>, JsonNode>,
    payload: Seq<u8>,
    output_format: Option<Seq<char>>,
)
    requires
        exchange matches Exchange::Answered { status, body } && 200 <= status <= 299
            && json_document(body@) == Ok::<JsonNode, Seq<char>>(JsonNode::Members(members)),
        !says_filtered(members),
        members.contains_key("image"@),
        members["image"@] == JsonNode::Text(base64_text(payload)),
    ensures
        concluded(exchange, output_format) matches Ok(images) && images.len() == 1
            && images[0].bytes == payload && images[0].revised_prompt is None && match
        output_format {
            None => images[0].mime_type == "image/png"@,
            Some(format) => {
                let name = lower(trimmed(format));
                &&& name == "jpeg"@ || name == "jpg"@ ==> images[0].mime_type == "image/jpeg"@
                &&& name == "webp"@ ==> images[0].mime_type == "image/webp"@
                &&& name != "jpeg"@ && name != "jpg"@ && name != "webp"@ ==> images[0].mime_type
                    == "image/png"@
            },
        },
{
    let format = requested_format(output_format);
    answer_gives_back_the_bytes(
        exchange->Answered_status,
        exchange->Answered_body@,
        members,
        payload,
        format,
    );
    mime_type_goes_by_the_name(format);
    lemma_png();
    reveal_strlit("jpeg");
    reveal_strlit("jpg");
    reveal_strlit("webp");
    assert("jpeg"@.len() == 4 && "jpg"@.len() == 3 && "webp"@.len() == 4);
}

/// An answer is read as such, for the format that the request resolves to.
pub proof fn answer_is_read(exchange: Exchange, output_format: Option<Seq<char>>)
    requires
        exchange is Answered,
    ensures
        exchange matches Exchange::Answered { status, body } && concluded(exchange, output_format)
            == answer_model(status, body@, requested_format(output_format)),
{
}

/// `Debug` shows the address and the route, quoted, and nothing else.
pub proof fn debug_shows_address_and_route(adapter: AdapterModel)
    ensures
        debug_model(adapter, false) == "StabilityImageAdapter { base_url: "@ + quoted(
            adapter.base_url,
        ) + ", model_route: "@ + quoted(adapter.model_route) + " }"@,
        debug_model(adapter, true) == "StabilityImageAdapter {\n    base_url: "@ + quoted(
            adapter.base_url,
        ) + ",\n    model_route: "@ + quoted(adapter.model_route) + ",\n}"@,
{
}

/// The format of a request is the one that it names, as it names it, or `png`
/// where it names none or only white space.
pub proof fn format_is_the_named_one(format: Seq<char>)
    ensures
        !all_white(format) ==> requested_format(Some(format)) == format,
        all_white(format) ==> requested_format(Some(format)) == "png"@,
        requested_format(None) == "png"@,
{
    only_white_space_is_trimmed_away(format);
}

/// A client is shown with its user agent and its connect timeout, and a fault
/// with its text.
pub proof fn client_is_shown(client: reqwest::Client, fault: String)
    ensures
        client_model(Ok(client)) == Ok::<(Seq<char>, Duration), Seq<char>>(
            (client_user_agent(client), client_connect_timeout(client)),
        ),
        client_model(Err(fault)) == Err::<(Seq<char>, Duration), Seq<char>>(fault@),
{
}

}
