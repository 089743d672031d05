//! Answers: from a status and a body to an image or to an error.

use vstd::prelude::*;
use vstd::string::StringExecFns;

use crate::error::ProviderError;
#[allow(unused_imports)]
use crate::error::{ProviderErrorModel, viewed};
use crate::outside::{
    decode_base64, json_as_array, json_as_str, json_get, parse_json, status_text, utf8_lossy,
};
#[allow(unused_imports)]
use crate::outside::{
    JsonNode, base64_fault, base64_text, json_document, json_node, lossy_text, node_member,
    status_display,
};
use crate::text::{same_text, to_ascii_lowercase, trim};
#[allow(unused_imports)]
use crate::text::{lower, lowering_is_idempotent, lowering_keeps_trimmed, trimmed};

verus! {

/// One generated image.
#[derive(Debug, PartialEq, Eq)]
pub struct GeneratedImage {
    pub bytes: Vec<u8>,
    pub mime_type: String,
    pub revised_prompt: Option<String>,
}

/// A [`GeneratedImage`] as a mathematical value.
pub struct ImageModel {
    pub bytes: Seq<u8>,
    pub mime_type: Seq<char>,
    pub revised_prompt: Option<Seq<char>>,
}

impl View for GeneratedImage {
    type V = ImageModel;

    open spec fn view(&self) -> ImageModel {
        ImageModel {
            bytes: self.bytes@,
            mime_type: self.mime_type@,
            revised_prompt: match self.revised_prompt {
                Some(prompt) => Some(prompt@),
                None => None,
            },
        }
    }
}

/// The images that a call brought back.
#[derive(Debug, PartialEq, Eq)]
pub struct NormalizedImageResponse {
    pub images: Vec<GeneratedImage>,
}

impl View for NormalizedImageResponse {
    type V = Seq<ImageModel>;

    open spec fn view(&self) -> Seq<ImageModel> {
        Seq::new(self.images@.len(), |i: int| self.images@[i]@)
    }
}

/// The MIME type that goes with an output format: PNG unless it names JPEG or
/// WebP, in any case and with white space around it.
pub open spec fn mime_type(fmt: Seq<char>) -> Seq<char> {
    let name = lower(trimmed(fmt));
    if name == "jpeg"@ || name == "jpg"@ {
        "image/jpeg"@
    } else if name == "webp"@ {
        "image/webp"@
    } else {
        "image/png"@
    }
}

/// Names the MIME type of an output format.
pub fn mime_for_output_format(fmt: &str) -> (mime: &'static str)
    ensures
        mime@ == mime_type(fmt@),
{
    let name = to_ascii_lowercase(trim(fmt));
    if same_text(name.as_str(), "jpeg") || same_text(name.as_str(), "jpg") {
        "image/jpeg"
    } else if same_text(name.as_str(), "webp") {
        "image/webp"
    } else {
        // PNG is what the API sends where nothing else is asked for.
        "image/png"
    }
}

/// Whether a finish reason says that the provider filtered the content.
pub open spec fn is_filtered(finish_reason: Option<Seq<char>>) -> bool {
    finish_reason matches Some(reason) && lower(reason) == lower("CONTENT_FILTERED"@)
}

/// Whether a text is the base64 of some bytes.
pub open spec fn is_base64(text: Seq<char>) -> bool {
    exists|bytes: Seq<u8>| #[trigger] base64_text(bytes) == text
}

/// The bytes of which a text is the base64.
pub open spec fn base64_bytes(text: Seq<char>) -> Seq<u8> {
    choose|bytes: Seq<u8>| #[trigger] base64_text(bytes) == text
}

/// What an envelope with that finish reason and that image text comes to.
pub open spec fn decoded(
    finish_reason: Option<Seq<char>>,
    image: Option<Seq<char>>,
    default_output_format: Seq<char>,
) -> Result<Seq<ImageModel>, ProviderErrorModel> {
    if is_filtered(finish_reason) {
        Err(ProviderErrorModel::BadRequest("content filtered by provider"@))
    } else {
        match image {
            None => Err(
                ProviderErrorModel::Malformed("image response missing `image` (base64) field"@),
            ),
            Some(text) => if is_base64(text) {
                Ok(
                    seq![
                        ImageModel {
                            bytes: base64_bytes(text),
                            mime_type: mime_type(default_output_format),
                            revised_prompt: None,
                        },
                    ],
                )
            } else {
                Err(ProviderErrorModel::Malformed("decode image base64: "@ + base64_fault(text)))
            },
        }
    }
}

/// The characters of an optional text.
pub open spec fn opt_chars(text: Option<&str>) -> Option<Seq<char>> {
    match text {
        Some(s) => Some(s@),
        None => None,
    }
}

/// Different bytes have different base64 texts.
pub proof fn base64_is_unambiguous(a: Seq<u8>, b: Seq<u8>)
    requires
        base64_text(a) == base64_text(b),
    ensures
        a == b,
    decreases a.len(),
{
    let (s, t) = (base64_text(a), base64_text(b));
    assert(s.len() == 0 <==> a.len() == 0);
    assert(t.len() == 0 <==> b.len() == 0);
    if a.len() == 0 {
        assert(a =~= b);
    } else {
        assert(s[0] == t[0] && s[1] == t[1] && s[2] == t[2] && s[3] == t[3]);
        assert(s[2] == '=' <==> a.len() == 1);
        assert(t[2] == '=' <==> b.len() == 1);
        assert(s[3] == '=' <==> a.len() <= 2);
        assert(t[3] == '=' <==> b.len() <= 2);
        if a.len() <= 2 {
            assert(a =~= b);
        } else {
            assert(s.skip(4) =~= base64_text(a.skip(3)));
            assert(t.skip(4) =~= base64_text(b.skip(3)));
            base64_is_unambiguous(a.skip(3), b.skip(3));
            assert(a[0] == b[0] && a[1] == b[1] && a[2] == b[2]);
            assert forall|i: int| 0 <= i < a.len() implies a[i] == b[i] by {
                if i >= 3 {
                    assert(a[i] == a.skip(3)[i - 3]);
                    assert(b[i] == b.skip(3)[i - 3]);
                }
            }
            assert(a.len() == a.skip(3).len() + 3);
            assert(b.len() == b.skip(3).len() + 3);
            assert(a =~= b);
        }
    }
}

/// Makes of an envelope's finish reason and image text the response, or the
/// error that tells why there are no bytes.
pub fn decode_parts(
    finish_reason: Option<&str>,
    image: Option<&str>,
    default_output_format: &str,
) -> (response: Result<NormalizedImageResponse, ProviderError>)
    ensures
        viewed(response) == decoded(
            opt_chars(finish_reason),
            opt_chars(image),
            default_output_format@,
        ),
{
    if let Some(reason) = finish_reason {
        let small = to_ascii_lowercase(reason);
        if same_text(small.as_str(), to_ascii_lowercase("CONTENT_FILTERED").as_str()) {
            return Err(
                ProviderError::BadRequest {
                    message: String::from_str("content filtered by provider"),
                },
            );
        }
    }
    let b64 = match image {
        Some(text) => text,
        None => {
            return Err(
                ProviderError::Malformed {
                    message: String::from_str("image response missing `image` (base64) field"),
                },
            );
        },
    };
    let raw = match decode_base64(b64) {
        Ok(bytes) => bytes,
        Err(fault) => {
            return Err(
                ProviderError::Malformed {
                    message: String::from_str("decode image base64: ").concat(fault.as_str()),
                },
            );
        },
    };
    proof {
        assert(base64_text(raw@) == b64@);
        base64_is_unambiguous(raw@, base64_bytes(b64@));
    }
    let mime_type = String::from_str(mime_for_output_format(default_output_format));
    let mut images: Vec<GeneratedImage> = Vec::new();
    images.push(GeneratedImage { bytes: raw, mime_type, revised_prompt: None });
    let response = NormalizedImageResponse { images };
    assert(response@ =~= decoded(
        opt_chars(finish_reason),
        opt_chars(image),
        default_output_format@,
    )->Ok_0);
    Ok(response)
}

/// The text of a member, where there is one and it is a string.
pub open spec fn text_member(node: JsonNode, name: Seq<char>) -> Option<Seq<char>> {
    match node_member(node, name) {
        Some(JsonNode::Text(text)) => Some(text),
        _ => None,
    }
}

/// Reads the text of a member, where there is one and it is a string.
fn member_text<'a>(value: &'a serde_json::Value, name: &str) -> (text: Option<&'a str>)
    ensures
        opt_chars(text) == text_member(json_node(*value), name@),
{
    match json_get(value, name) {
        Some(member) => json_as_str(member),
        None => None,
    }
}

/// Decodes the API's envelope: its `finish_reason` and its `image`, where they
/// are strings.
pub fn decode_response(value: &serde_json::Value, default_output_format: &str) -> (response: Result<
    NormalizedImageResponse,
    ProviderError,
>)
    ensures
        viewed(response) == decoded(
            text_member(json_node(*value), "finish_reason"@),
            text_member(json_node(*value), "image"@),
            default_output_format@,
        ),
{
    let finish_reason = member_text(value, "finish_reason");
    let image = member_text(value, "image");
    decode_parts(finish_reason, image, default_output_format)
}

/// The first element of the `errors` array, where there is one and it is a string.
pub open spec fn first_error(node: JsonNode) -> Option<Seq<char>> {
    match node_member(node, "errors"@) {
        Some(JsonNode::List(elements)) => if elements.len() > 0 {
            match elements[0] {
                JsonNode::Text(text) => Some(text),
                _ => None,
            }
        } else {
            None
        },
        _ => None,
    }
}

/// What an error body says: its first error where it is an error envelope,
/// else all of it.
pub open spec fn error_text(body: Seq<u8>) -> Seq<char> {
    match json_document(body) {
        Ok(node) => match first_error(node) {
            Some(text) => text,
            None => lossy_text(body),
        },
        Err(_) => lossy_text(body),
    }
}

/// Whether an error body is an envelope that names an error.
pub open spec fn names_an_error(body: Seq<u8>) -> bool {
    json_document(body) matches Ok(node) && first_error(node) is Some
}

/// The error that a status stands for.
pub open spec fn status_error_model(status: u16, message: Seq<char>) -> ProviderErrorModel {
    if status == 401 || status == 403 {
        ProviderErrorModel::AuthFailed(message)
    } else if status == 429 {
        ProviderErrorModel::RateLimited(message)
    } else if 400 <= status <= 499 {
        ProviderErrorModel::BadRequest(message)
    } else if 500 <= status <= 599 {
        ProviderErrorModel::Server(message)
    } else {
        ProviderErrorModel::Network(
            "unexpected status "@ + status_display(status) + ": "@ + message,
        )
    }
}

/// Reads what an error body says.
fn read_error_text(body: &[u8]) -> (text: String)
    ensures
        text@ == error_text(body@),
        !names_an_error(body@) && vstd::utf8::valid_utf8(body@) ==> vstd::utf8::encode_utf8(text@)
            == body@,
{
    if let Ok(value) = parse_json(body) {
        if let Some(errors) = json_get(&value, "errors") {
            if let Some(elements) = json_as_array(errors) {
                if elements.len() > 0 {
                    if let Some(first) = json_as_str(&elements[0]) {
                        return String::from_str(first);
                    }
                }
            }
        }
    }
    utf8_lossy(body)
}

/// Sorts a status into the errors of the library, with the text that came along.
pub fn status_error(status: u16, message: String) -> (error: ProviderError)
    requires
        100 <= status <= 999,
    ensures
        error@ == status_error_model(status, message@),
{
    if status == 401 || status == 403 {
        ProviderError::AuthFailed { message }
    } else if status == 429 {
        ProviderError::RateLimited { message }
    } else if 400 <= status && status <= 499 {
        ProviderError::BadRequest { message }
    } else if 500 <= status && status <= 599 {
        ProviderError::Server { message }
    } else {
        let line = status_text(status);
        ProviderError::Network {
            message: String::from_str("unexpected status ").concat(line.as_str()).concat(
                ": ",
            ).concat(message.as_str()),
        }
    }
}

/// The error of an answer whose status is no success. The first message of the
/// envelope `{"errors": ["..."]}` goes with it, or else the whole body.
pub fn map_status_error(status: u16, body: &[u8]) -> (error: ProviderError)
    requires
        100 <= status <= 999,
    ensures
        error@ == status_error_model(status, error_text(body@)),
        400 <= status <= 599 && !names_an_error(body@) && vstd::utf8::valid_utf8(body@)
            ==> vstd::utf8::encode_utf8(error@.text()) == body@,
{
    status_error(status, read_error_text(body))
}

/// What an answer comes to.
pub open spec fn answer_model(
    status: u16,
    body: Seq<u8>,
    default_output_format: Seq<char>,
) -> Result<Seq<ImageModel>, ProviderErrorModel> {
    if 200 <= status <= 299 {
        match json_document(body) {
            Ok(node) => decoded(
                text_member(node, "finish_reason"@),
                text_member(node, "image"@),
                default_output_format,
            ),
            Err(fault) => Err(ProviderErrorModel::Malformed("parse response json: "@ + fault)),
        }
    } else {
        Err(status_error_model(status, error_text(body)))
    }
}

/// Reads an answer: an image where the status is a success and the body holds one.
pub fn read_answer(status: u16, body: &[u8], default_output_format: &str) -> (response: Result<
    NormalizedImageResponse,
    ProviderError,
>)
    requires
        100 <= status <= 999,
    ensures
        viewed(response) == answer_model(status, body@, default_output_format@),
{
    if !(200 <= status && status <= 299) {
        return Err(map_status_error(status, body));
    }
    match parse_json(body) {
        Ok(value) => decode_response(&value, default_output_format),
        Err(fault) => Err(
            ProviderError::Malformed {
                message: String::from_str("parse response json: ").concat(fault.as_str()),
            },
        ),
    }
}

/// A filtered generation is a bad request that says so, whatever else the
/// envelope holds.
pub proof fn filtered_content_is_an_error(
    finish_reason: Seq<char>,
    image: Option<Seq<char>>,
    fmt: Seq<char>,
)
    requires
        lower(finish_reason) == lower("CONTENT_FILTERED"@),
    ensures
        decoded(Some(finish_reason), image, fmt) == Err::<Seq<ImageModel>, ProviderErrorModel>(
            ProviderErrorModel::BadRequest("content filtered by provider"@),
        ),
{
}

/// The bytes that were encoded into an envelope are the bytes that come out of
/// it, in one image.
pub proof fn decoding_gives_back_the_bytes(
    finish_reason: Option<Seq<char>>,
    payload: Seq<u8>,
    fmt: Seq<char>,
)
    requires
        !is_filtered(finish_reason),
    ensures
        decoded(finish_reason, Some(base64_text(payload)), fmt) == Ok::<
            Seq<ImageModel>,
            ProviderErrorModel,
        >(seq![ImageModel { bytes: payload, mime_type: mime_type(fmt), revised_prompt: None }]),
{
    let text = base64_text(payload);
    assert(is_base64(text));
    base64_is_unambiguous(base64_bytes(text), payload);
}

/// Success is never empty: it is one image, whose base64 is the image text.
pub proof fn success_is_one_image(
    finish_reason: Option<Seq<char>>,
    image: Option<Seq<char>>,
    fmt: Seq<char>,
)
    requires
        decoded(finish_reason, image, fmt) is Ok,
    ensures
        decoded(finish_reason, image, fmt)->Ok_0.len() == 1,
        image == Some(base64_text(decoded(finish_reason, image, fmt)->Ok_0[0].bytes)),
        decoded(finish_reason, image, fmt)->Ok_0[0].revised_prompt is None,
{
}

/// Only an answer with a status from 200 to 299 can be a success.
pub proof fn success_needs_a_success_status(status: u16, body: Seq<u8>, fmt: Seq<char>)
    requires
        answer_model(status, body, fmt) is Ok,
    ensures
        200 <= status <= 299,
{
}

/// The MIME type rests on the format's trimmed small form, the one that the API
/// is asked for.
pub proof fn mime_type_ignores_case_and_outer_space(fmt: Seq<char>)
    ensures
        mime_type(lower(trimmed(fmt))) == mime_type(fmt),
{
    lowering_keeps_trimmed(fmt);
    lowering_is_idempotent(trimmed(fmt));
}

/// The MIME type of an output format, by its trimmed small name.
pub proof fn mime_type_goes_by_the_name(fmt: Seq<char>)
    ensures
        lower(trimmed(fmt)) == "jpeg"@ || lower(trimmed(fmt)) == "jpg"@ ==> mime_type(fmt)
            == "image/jpeg"@,
        lower(trimmed(fmt)) == "webp"@ ==> mime_type(fmt) == "image/webp"@,
        lower(trimmed(fmt)) != "jpeg"@ && lower(trimmed(fmt)) != "jpg"@ && lower(trimmed(fmt))
            != "webp"@ ==> mime_type(fmt) == "image/png"@,
{
    reveal_strlit("webp");
    reveal_strlit("jpeg");
    reveal_strlit("jpg");
    assert("webp"@[0] == 'w' && "jpeg"@[0] == 'j' && "jpg"@[0] == 'j');
}

/// Whether the members of an envelope say that the provider filtered the
/// content: in capitals, in small letters or mixed.
pub open spec fn says_filtered(members: Map<Seq<char>, JsonNode>) -> bool {
    members.contains_key("finish_reason"@) && (members["finish_reason"@] matches JsonNode::Text(
        reason,
    ) && lower(reason) == "content_filtered"@)
}

proof fn lemma_filtered(members: Map<Seq<char>, JsonNode>)
    ensures
        is_filtered(text_member(JsonNode::Members(members), "finish_reason"@)) <==> says_filtered(
            members,
        ),
{
    reveal_strlit("CONTENT_FILTERED");
    reveal_strlit("content_filtered");
    assert(lower("CONTENT_FILTERED"@) =~= "content_filtered"@);
}

/// A filtered generation is told as a bad request, by the whole answer: with
/// every status of success, whatever else the envelope holds.
pub proof fn filtered_answer_is_a_bad_request(
    status: u16,
    body: Seq<u8>,
    members: Map<Seq<char>, JsonNode>,
    fmt: Seq<char>,
)
    requires
        200 <= status <= 299,
        json_document(body) == Ok::<JsonNode, Seq<char>>(JsonNode::Members(members)),
        says_filtered(members),
    ensures
        answer_model(status, body, fmt) == Err::<Seq<ImageModel>, ProviderErrorModel>(
            ProviderErrorModel::BadRequest("content filtered by provider"@),
        ),
{
    lemma_filtered(members);
}

/// The bytes that an answer carries in base64 come back, exactly those and in
/// one image, with the MIME type of the format.
pub proof fn answer_gives_back_the_bytes(
    status: u16,
    body: Seq<u8>,
    members: Map<Seq<char>, JsonNode>,
    payload: Seq<u8>,
    fmt: Seq<char>,
)
    requires
        200 <= status <= 299,
        json_document(body) == Ok::<JsonNode, Seq<char>>(JsonNode::Members(members)),
        !says_filtered(members),
        members.contains_key("image"@),
        members["image"@] == JsonNode::Text(base64_text(payload)),
    ensures
        answer_model(status, body, fmt) matches Ok(images) && images.len() == 1 && images[0].bytes
            == payload && images[0].mime_type == mime_type(fmt) && images[0].revised_prompt is None,
{
    lemma_filtered(members);
    decoding_gives_back_the_bytes(
        text_member(JsonNode::Members(members), "finish_reason"@),
        payload,
        fmt,
    );
}

/// A success carries an image: what came back are the bytes whose base64 the
/// answer holds, and the answer does not say that they were filtered.
pub proof fn success_carries_an_image(status: u16, body: Seq<u8>, fmt: Seq<char>)
    requires
        answer_model(status, body, fmt) is Ok,
    ensures
        200 <= status <= 299,
        json_document(body) matches Ok(JsonNode::Members(members)) && !says_filtered(members)
            && members.contains_key("image"@) && answer_model(status, body, fmt)->Ok_0.len() == 1
            && members["image"@] == JsonNode::Text(
            base64_text(answer_model(status, body, fmt)->Ok_0[0].bytes),
        ),
{
    let node = json_document(body)->Ok_0;
    success_is_one_image(
        text_member(node, "finish_reason"@),
        text_member(node, "image"@),
        fmt,
    );
    lemma_filtered(node->Members_0);
}

/// An answer of success that is no JSON is malformed, with the parser's words.
pub proof fn answer_that_is_no_json_is_malformed(
    status: u16,
    body: Seq<u8>,
    fault: Seq<char>,
    fmt: Seq<char>,
)
    requires
        200 <= status <= 299,
        json_document(body) == Err::<JsonNode, Seq<char>>(fault),
    ensures
        answer_model(status, body, fmt) == Err::<Seq<ImageModel>, ProviderErrorModel>(
            ProviderErrorModel::Malformed("parse response json: "@ + fault),
        ),
{
}

/// An answer of success without an image text is malformed: one whose `image`
/// is missing or no string, and one that is no object.
pub proof fn answer_without_an_image_is_malformed(
    status: u16,
    body: Seq<u8>,
    node: JsonNode,
    fmt: Seq<char>,
)
    requires
        200 <= status <= 299,
        json_document(body) == Ok::<JsonNode, Seq<char>>(node),
        node matches JsonNode::Members(members) ==> !says_filtered(members) && (
        members.contains_key("image"@) ==> !(members["image"@] is Text)),
    ensures
        answer_model(status, body, fmt) == Err::<Seq<ImageModel>, ProviderErrorModel>(
            ProviderErrorModel::Malformed("image response missing `image` (base64) field"@),
        ),
{
    if node is Members {
        lemma_filtered(node->Members_0);
    }
}

/// An answer of success whose image text is the base64 of no bytes is malformed,
/// with the decoder's words.
pub proof fn image_that_is_no_base64_is_malformed(
    status: u16,
    body: Seq<u8>,
    members: Map<Seq<char>, JsonNode>,
    text: Seq<char>,
    fmt: Seq<char>,
)
    requires
        200 <= status <= 299,
        json_document(body) == Ok::<JsonNode, Seq<char>>(JsonNode::Members(members)),
        !says_filtered(members),
        members.contains_key("image"@),
        members["image"@] == JsonNode::Text(text),
        forall|bytes: Seq<u8>| #[trigger] base64_text(bytes) != text,
    ensures
        answer_model(status, body, fmt) == Err::<Seq<ImageModel>, ProviderErrorModel>(
            ProviderErrorModel::Malformed("decode image base64: "@ + base64_fault(text)),
        ),
{
    lemma_filtered(members);
}

/// What an error body says is the first string of its `errors`.
pub proof fn first_error_is_told(
    body: Seq<u8>,
    members: Map<Seq<char>, JsonNode>,
    errors: Seq<JsonNode>,
    text: Seq<char>,
)
    requires
        json_document(body) == Ok::<JsonNode, Seq<char>>(JsonNode::Members(members)),
        members.contains_key("errors"@),
        members["errors"@] == JsonNode::List(errors),
        errors.len() > 0,
        errors[0] == JsonNode::Text(text),
    ensures
        error_text(body) == text,
{
}

/// An error body that names no error is told as it is: one that is no JSON, one
/// without `errors`, and one whose `errors` do not start with a string.
pub proof fn other_error_body_is_told_whole(body: Seq<u8>)
    requires
        json_document(body) matches Ok(JsonNode::Members(members)) ==> (members.contains_key(
            "errors"@,
        ) ==> !(members["errors"@] matches JsonNode::List(errors) && errors.len() > 0
            && errors[0] is Text)),
    ensures
        error_text(body) == lossy_text(body),
{
}

/// Statuses are sorted: each gives the error that it stands for, with what the
/// body says, and nothing but a status of success gives anything else.
pub proof fn statuses_are_sorted(status: u16, body: Seq<u8>, fmt: Seq<char>)
    requires
        !(200 <= status <= 299),
    ensures
        answer_model(status, body, fmt) == Err::<Seq<ImageModel>, ProviderErrorModel>(
            status_error_model(status, error_text(body)),
        ),
{
}

/// What each status stands for.
pub proof fn status_stands_for_its_error(status: u16, message: Seq<char>)
    ensures
        status == 401 || status == 403 ==> status_error_model(status, message)
            == ProviderErrorModel::AuthFailed(message),
        status == 429 ==> status_error_model(status, message) == ProviderErrorModel::RateLimited(
            message,
        ),
        400 <= status <= 499 && status != 401 && status != 403 && status != 429
            ==> status_error_model(status, message) == ProviderErrorModel::BadRequest(message),
        500 <= status <= 599 ==> status_error_model(status, message) == ProviderErrorModel::Server(
            message,
        ),
        !(400 <= status <= 599) ==> status_error_model(status, message)
            == ProviderErrorModel::Network(
            "unexpected status "@ + status_display(status) + ": "@ + message,
        ),
{
}

/// A response shows every image, in order and as it is.
pub proof fn response_shows_its_images(response: NormalizedImageResponse, i: int)
    requires
        0 <= i < response.images@.len(),
    ensures
        response@.len() == response.images@.len(),
        response@[i].bytes == response.images@[i].bytes@,
        response@[i].mime_type == response.images@[i].mime_type@,
        response.images@[i].revised_prompt is None <==> response@[i].revised_prompt is None,
        response.images@[i].revised_prompt matches Some(prompt) ==> response@[i].revised_prompt
            == Some(prompt@),
{
}

/// A response shows as many images as it holds.
pub proof fn response_shows_all_of_its_images(response: NormalizedImageResponse)
    ensures
        response@.len() == response.images@.len(),
{
}

/// An optional text is shown as the text that it is.
pub proof fn optional_chars_are_shown(text: &str)
    ensures
        opt_chars(Some(text)) == Some(text@),
        opt_chars(None) is None,
{
}

}
