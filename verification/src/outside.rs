//! What the library takes from `reqwest`, `serde_json`, `base64` and std, and
//! what it relies on of each.
//!
//! Nothing in this module is proved of the code that it calls: each item states
//! in its contract, and says in its comment, what callers may count on.

use core::time::Duration;
use reqwest::header::{HeaderMap, HeaderValue};
use reqwest::multipart::Form;
use vstd::prelude::*;

verus! {

// ---------------------------------------------------------------- std

/// `String::push`: the character is appended at the end.
pub assume_specification[ String::push ](s: &mut String, ch: char)
    ensures
        final(s)@ == old(s)@.push(ch),
;

/// `s` between quotation marks, with the escapes that `{:?}` writes.
pub uninterp spec fn quoted(s: Seq<char>) -> Seq<char>;

/// `format!` with `{:?}` on a `str`: the text depends on `s` alone.
#[verifier::external_body]
pub(crate) fn debug_str(s: &str) -> (text: String)
    ensures
        text@ == quoted(s@),
{
    format!("{:?}", s)
}

/// `bytes` read as UTF-8, with a replacement character for what is no UTF-8.
pub uninterp spec fn lossy_text(bytes: Seq<u8>) -> Seq<char>;

/// `String::from_utf8_lossy`: the text depends on the bytes alone, and where
/// they are UTF-8 it is the text that they encode.
#[verifier::external_body]
pub(crate) fn utf8_lossy(bytes: &[u8]) -> (text: String)
    ensures
        text@ == lossy_text(bytes@),
        vstd::utf8::valid_utf8(bytes@) ==> vstd::utf8::encode_utf8(text@) == bytes@,
{
    String::from_utf8_lossy(bytes).into_owned()
}

/// The length of a time span in nanoseconds, the finest that a span tells apart.
pub uninterp spec fn duration_nanos(span: Duration) -> nat;

/// The time span of that many milliseconds.
pub uninterp spec fn millis_span(millis: u64) -> Duration;

/// `Duration::from_millis`: the span depends on the number alone, and is that
/// many milliseconds long, to the nanosecond.
pub assume_specification[ Duration::from_millis ](millis: u64) -> (span: Duration)
    ensures
        span == millis_span(millis),
        duration_nanos(span) == millis * 1_000_000,
;

// ------------------------------------------------------------- base64

/// The character that stands for six bits in the standard alphabet.
pub open spec fn sextet_char(v: int) -> char {
    if v < 26 {
        ('A' as u32 + v) as char
    } else if v < 52 {
        ('a' as u32 + v - 26) as char
    } else if v < 62 {
        ('0' as u32 + v - 52) as char
    } else if v == 62 {
        '+'
    } else {
        '/'
    }
}

/// `bytes` in base64 with the standard alphabet and padding (RFC 4648).
pub open spec fn base64_text(bytes: Seq<u8>) -> Seq<char>
    decreases bytes.len(),
{
    if bytes.len() == 0 {
        Seq::empty()
    } else if bytes.len() == 1 {
        let a = bytes[0] as int;
        seq![sextet_char(a / 4), sextet_char(a % 4 * 16), '=', '=']
    } else if bytes.len() == 2 {
        let (a, b) = (bytes[0] as int, bytes[1] as int);
        seq![sextet_char(a / 4), sextet_char(a % 4 * 16 + b / 16), sextet_char(b % 16 * 4), '=']
    } else {
        let (a, b, c) = (bytes[0] as int, bytes[1] as int, bytes[2] as int);
        seq![
            sextet_char(a / 4),
            sextet_char(a % 4 * 16 + b / 16),
            sextet_char(b % 16 * 4 + c / 64),
            sextet_char(c % 64),
        ] + base64_text(bytes.skip(3))
    }
}

/// What `base64::DecodeError` says of a text that is no base64.
pub uninterp spec fn base64_fault(text: Seq<char>) -> Seq<char>;

/// `base64::engine::general_purpose::STANDARD.decode`: undoes the encoding with
/// the standard alphabet and canonical padding, and takes nothing else: neither
/// missing padding nor stray bits in the last symbol. The error arrives as its
/// `Display` text, which depends on the text alone.
#[verifier::external_body]
pub(crate) fn decode_base64(text: &str) -> (decoded: Result<Vec<u8>, String>)
    ensures
        decoded matches Ok(bytes) ==> base64_text(bytes@) == text@,
        decoded is Err ==> forall|bytes: Seq<u8>| #[trigger] base64_text(bytes) != text@,
        decoded matches Err(fault) ==> fault@ == base64_fault(text@),
{
    base64::Engine::decode(&base64::engine::general_purpose::STANDARD, text).map_err(
        |e| e.to_string(),
    )
}

// --------------------------------------------------------- serde_json

/// Makes `serde_json::Value` known; a value of it is read through
/// [`json_node`] alone.
#[verifier::external_type_specification]
#[verifier::external_body]
pub struct ExJsonValue(serde_json::Value);

/// A JSON value.
pub enum JsonNode {
    Null,
    Bool(bool),
    /// A number, as it is displayed.
    Number(Seq<char>),
    /// A string.
    Text(Seq<char>),
    /// An array.
    List(Seq<JsonNode>),
    /// An object.
    Members(Map<Seq<char>, JsonNode>),
}

/// What a `serde_json::Value` holds.
pub uninterp spec fn json_node(value: serde_json::Value) -> JsonNode;

/// The value that a JSON text writes, or the fault that `serde_json` finds in it.
pub uninterp spec fn json_document(body: Seq<u8>) -> Result<JsonNode, Seq<char>>;

/// The JSON text of an object without members: an opening and a closing brace.
pub open spec fn braces() -> Seq<u8> {
    seq![0x7bu8, 0x7du8]
}

/// `serde_json::from_slice` to a `Value`: the outcome depends on the bytes
/// alone, and two braces are an object without members. The error arrives as
/// its `Display` text.
#[verifier::external_body]
pub(crate) fn parse_json(body: &[u8]) -> (parsed: Result<serde_json::Value, String>)
    ensures
        match parsed {
            Ok(value) => json_document(body@) == Ok::<JsonNode, Seq<char>>(json_node(value)),
            Err(fault) => json_document(body@) == Err::<JsonNode, Seq<char>>(fault@),
        },
        parsed is Ok <== body@ == braces(),
        parsed matches Ok(value) ==> body@ == braces() ==> json_node(value) == JsonNode::Members(
            Map::empty(),
        ),
{
    serde_json::from_slice(body).map_err(|e| e.to_string())
}

/// The member of an object under a name.
pub open spec fn node_member(node: JsonNode, name: Seq<char>) -> Option<JsonNode> {
    match node {
        JsonNode::Members(members) => if members.contains_key(name) {
            Some(members[name])
        } else {
            None
        },
        _ => None,
    }
}

/// `serde_json::Value::get` with a string: the member of that name, where the
/// value is an object and has one.
#[verifier::external_body]
pub(crate) fn json_get<'a>(value: &'a serde_json::Value, name: &str) -> (member: Option<
    &'a serde_json::Value,
>)
    ensures
        match member {
            Some(found) => node_member(json_node(*value), name@) == Some(json_node(*found)),
            None => node_member(json_node(*value), name@) is None,
        },
{
    value.get(name)
}

/// `serde_json::Value::as_str`: the string, where the value is one.
#[verifier::external_body]
pub(crate) fn json_as_str<'a>(value: &'a serde_json::Value) -> (text: Option<&'a str>)
    ensures
        match text {
            Some(s) => json_node(*value) == JsonNode::Text(s@),
            None => !(json_node(*value) is Text),
        },
{
    value.as_str()
}

/// `serde_json::Value::as_array`: the elements in order, where the value is an
/// array.
#[verifier::external_body]
pub(crate) fn json_as_array<'a>(value: &'a serde_json::Value) -> (elements: Option<
    &'a Vec<serde_json::Value>,
>)
    ensures
        match elements {
            Some(v) => json_node(*value) is List && json_node(*value)->List_0 == Seq::new(
                v@.len(),
                |i: int| json_node(v@[i]),
            ),
            None => !(json_node(*value) is List),
        },
{
    value.as_array()
}

/// `serde_json::Map::new` as a `Value`: an object without members.
#[verifier::external_body]
pub(crate) fn json_empty_object() -> (value: serde_json::Value)
    ensures
        json_node(value) is Members,
        json_node(value)->Members_0.dom().is_empty(),
{
    serde_json::Value::Object(serde_json::Map::new())
}

/// The JSON text that `serde_json` writes of a value.
pub uninterp spec fn json_rendering(node: JsonNode) -> Seq<u8>;

/// `serde_json::to_vec` on a `Value`: it always succeeds, since the keys of a
/// `Value` are strings and a `Vec` takes whatever is written to it, and the text
/// depends on what the value holds alone.
#[verifier::external_body]
pub(crate) fn json_to_vec(value: &serde_json::Value) -> (written: Result<Vec<u8>, String>)
    ensures
        written is Ok,
        written matches Ok(bytes) ==> bytes@ == json_rendering(json_node(*value)),
{
    serde_json::to_vec(value).map_err(|e| e.to_string())
}

// ------------------------------------------------------------ reqwest

/// Makes `reqwest::Client` known; the library only carries one.
#[verifier::external_type_specification]
#[verifier::external_body]
pub struct ExClient(reqwest::Client);

/// The `User-Agent` that a client was made with.
pub uninterp spec fn client_user_agent(client: reqwest::Client) -> Seq<char>;

/// The limit on the connect phase that a client was made with.
pub uninterp spec fn client_connect_timeout(client: reqwest::Client) -> Duration;

/// `reqwest::Client::builder` with a user agent and a connect timeout, then
/// `build`: a client, where there is one, has both. Whether there is one rests
/// on the machine, and nothing is said of it. The error arrives as its
/// `Display` text.
#[verifier::external_body]
pub(crate) fn build_client(user_agent: &str, connect_timeout: Duration) -> (built: Result<
    reqwest::Client,
    String,
>)
    ensures
        built matches Ok(client) ==> client_user_agent(client) == user_agent@,
        built matches Ok(client) ==> client_connect_timeout(client) == connect_timeout,
{
    reqwest::Client::builder().user_agent(user_agent).connect_timeout(
        connect_timeout,
    ).build().map_err(|e| e.to_string())
}

/// Makes `reqwest::multipart::Form` known; its contents are [`form_parts`].
#[verifier::external_type_specification]
#[verifier::external_body]
pub struct ExForm(Form);

/// The text parts of a form, name and value, in order.
pub uninterp spec fn form_parts(form: Form) -> Seq<(Seq<char>, Seq<char>)>;

/// `reqwest::multipart::Form::new`: a form without parts.
#[verifier::external_body]
pub(crate) fn empty_form() -> (form: Form)
    ensures
        form_parts(form).len() == 0,
{
    Form::new()
}

/// `reqwest::multipart::Form::text`: appends a part.
#[verifier::external_body]
pub(crate) fn form_text(form: Form, name: &str, value: String) -> (extended: Form)
    ensures
        form_parts(extended) == form_parts(form).push((name@, value@)),
{
    form.text(name.to_owned(), value)
}

/// Makes `reqwest::header::HeaderValue` known; its text is [`header_text`].
#[verifier::external_type_specification]
#[verifier::external_body]
pub struct ExHeaderValue(HeaderValue);

/// Makes `reqwest::header::InvalidHeaderValue` known; it says nothing but that
/// a value was refused.
#[verifier::external_type_specification]
#[verifier::external_body]
pub struct ExInvalidHeaderValue(reqwest::header::InvalidHeaderValue);

/// The text of a header value.
pub uninterp spec fn header_text(value: HeaderValue) -> Seq<char>;

/// Whether a text can be a header value: a tab is allowed, no other control
/// character and no DEL. What is not ASCII is allowed too.
pub open spec fn fits_header(text: Seq<char>) -> bool {
    forall|i: int|
        #![trigger text[i]]
        0 <= i < text.len() ==> (32 <= text[i] as int && text[i] as int != 127 || text[i] as int
            == 9)
}

/// `reqwest::header::HeaderValue::from_str`: takes every text of tabs and
/// characters from 32 up, but for 127, and keeps it as it is.
#[verifier::external_body]
pub(crate) fn header_value(text: &str) -> (value: Result<
    HeaderValue,
    reqwest::header::InvalidHeaderValue,
>)
    ensures
        value is Ok <==> fits_header(text@),
        value matches Ok(v) ==> header_text(v) == text@,
{
    HeaderValue::from_str(text)
}

/// Makes `reqwest::header::HeaderMap` known; its contents are [`header_fields`].
#[verifier::external_type_specification]
#[verifier::external_body]
#[verifier::reject_recursive_types(T)]
pub struct ExHeaderMap<T>(HeaderMap<T>);

/// The headers of a map: for each name the text of the value that `get` finds.
pub uninterp spec fn header_fields(headers: HeaderMap<HeaderValue>) -> Map<Seq<char>, Seq<char>>;

/// `reqwest::header::HeaderMap::new`: a map without headers.
#[verifier::external_body]
pub(crate) fn empty_headers() -> (headers: HeaderMap<HeaderValue>)
    ensures
        (header_fields(headers) == Map::<Seq<char>, Seq<char>>::empty()),
{
    HeaderMap::new()
}

/// Whether a text is a short header name of small letters and hyphens.
pub open spec fn is_header_name(name: Seq<char>) -> bool {
    &&& 0 < name.len() <= 60
    &&& forall|i: int|
        #![trigger name[i]]
        0 <= i < name.len() ==> ('a' <= name[i] <= 'z' || name[i] == '-')
}

/// `reqwest::header::HeaderMap::insert` with a static name: the name now has
/// this value alone, the other headers are as before. It panics on a name that
/// is none and on a map of some thirty thousand headers; both stay out.
#[verifier::external_body]
pub(crate) fn insert_header(
    headers: &mut HeaderMap<HeaderValue>,
    name: &'static str,
    value: HeaderValue,
)
    requires
        is_header_name(name@),
        header_fields(*old(headers)).dom().finite(),
        header_fields(*old(headers)).dom().len() < 100,
    ensures
        header_fields(*final(headers)) == header_fields(*old(headers)).insert(
            name@,
            header_text(value),
        ),
{
    headers.insert(name, value);
}

/// A status code with its reason phrase, as `reqwest::StatusCode` displays it.
pub uninterp spec fn status_display(code: u16) -> Seq<char>;

/// `Display` on `reqwest::StatusCode`: the text depends on the code alone. There
/// is no such value for a code of other than three digits.
#[verifier::external_body]
pub(crate) fn status_text(code: u16) -> (text: String)
    requires
        100 <= code <= 999,
    ensures
        text@ == status_display(code),
{
    reqwest::StatusCode::from_u16(code).unwrap().to_string()
}

}
