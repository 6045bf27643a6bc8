//! The endpoint contract, the client configuration, the error taxonomy, and
//! the decision half of dispatch.
//!
//! Sending bytes over the network is the transport's concern and lives
//! outside this crate; everything decidable from the request value and the
//! transport's answer — URL, method, headers, body text, and how a status
//! and body become a typed result — is specified and verified here.

use vstd::prelude::*;

verus! {

use vstd::string::StringExecFns;
use crate::spec_is_success;
use crate::is_success_status;
use crate::json::Json;
use crate::json::JsonModel;
use crate::json::parse_json;
use crate::json::spec_parse_json;
use crate::json::spec_field_int;
use crate::json::spec_field_str;
use crate::json::get_int;
use crate::json::get_str;
use crate::text::push_chars;
use crate::text::str_to_chars;
use crate::text::chars_to_string;

/// The HTTP verb of an endpoint; fixed per request type, not data-dependent.
#[derive(Debug, Clone, Copy, PartialEq, Eq, Structural)]
pub enum HttpMethod {
    Get,
    Post,
    Put,
    Patch,
    Delete,
}

impl HttpMethod {
    /// The verb's wire name.
    pub open spec fn spec_name(self) -> Seq<char> {
        match self {
            HttpMethod::Get => "GET"@,
            HttpMethod::Post => "POST"@,
            HttpMethod::Put => "PUT"@,
            HttpMethod::Patch => "PATCH"@,
            HttpMethod::Delete => "DELETE"@,
        }
    }

    /// The verb's wire name, as written on the request line.
    pub fn name(&self) -> (r: String)
        ensures
            r@ == self.spec_name(),
    {
        match self {
            HttpMethod::Get => String::from_str("GET"),
            HttpMethod::Post => String::from_str("POST"),
            HttpMethod::Put => String::from_str("PUT"),
            HttpMethod::Patch => String::from_str("PATCH"),
            HttpMethod::Delete => String::from_str("DELETE"),
        }
    }
}

/// The contract every request type satisfies to be executed against the
/// remote service: a relative URL path, an HTTP method, a JSON request body,
/// and a decoder from a response tree to the typed response.
pub trait Endpoint: Sized {
    /// The typed response this endpoint yields.
    type Response;

    /// The characters `endpoint` returns: the relative URL, query string
    /// included.
    spec fn spec_path(&self) -> Seq<char>;

    /// The verb `method` returns.
    spec fn spec_method(&self) -> HttpMethod;

    /// The characters `body_json` returns.
    spec fn spec_body(&self) -> Seq<char>;

    /// Whether a response tree carries every required field of `Response`,
    /// each with its required type.
    spec fn spec_response_ok(m: JsonModel) -> bool;

    /// How a decoded response relates to the tree it was read from.
    spec fn spec_response_matches(m: JsonModel, r: Self::Response) -> bool;

    /// The relative URL of this request, identifiers and query parameters
    /// rendered and percent-encoded into it.
    fn endpoint(&self) -> (r: String)
        ensures
            r@ == self.spec_path(),
    ;

    /// The HTTP method of this endpoint.
    fn method(&self) -> (m: HttpMethod)
        ensures
            m == self.spec_method(),
    ;

    /// The value serialized as the request body.
    fn body(&self) -> (r: &Self)
        ensures
            r == self,
    ;

    /// The JSON text of the request body: exactly the present optional
    /// fields, under their external names.
    fn body_json(&self) -> (r: String)
        ensures
            r@ == self.spec_body(),
    ;

    /// Decodes a response tree; `None` exactly when a required field is
    /// missing or has the wrong type.
    fn decode_response(j: &Json) -> (r: Option<Self::Response>)
        ensures
            r is Some <==> Self::spec_response_ok(j@),
            r matches Some(v) ==> Self::spec_response_matches(j@, v),
    ;
}

/// The provider's structured error payload: a numeric error code and a
/// human-readable message.
#[derive(Debug, Clone, PartialEq)]
pub struct ProviderError {
    pub error_code: i64,
    pub message: String,
}

/// What a non-success response carries: the provider's structured payload
/// when the body parses as one, otherwise the raw body text.
#[derive(Debug, Clone, PartialEq)]
pub enum ApiErrorDetail {
    Structured(ProviderError),
    Raw(String),
}

/// A well-formed HTTP response whose status was not a success.
#[derive(Debug, Clone, PartialEq)]
pub struct ApiError {
    pub status: u16,
    pub detail: ApiErrorDetail,
}

/// Why a dispatch failed.
#[derive(Debug, Clone, PartialEq)]
pub enum DispatchError {
    /// The transport failed before any HTTP response was received.
    Transport(String),
    /// The server answered with a non-success status.
    Api(ApiError),
    /// The server accepted the request, but the body did not match the
    /// declared response shape; carries the body text.
    Decode(String),
}

/// Whether a tree is the provider's error payload: an object carrying an
/// integer `ErrorCode` and a string `Message`.
pub open spec fn spec_provider_error_ok(m: JsonModel) -> bool {
    &&& m matches JsonModel::Obj(fields)
    &&& spec_field_int(fields, "ErrorCode"@) is Some
    &&& spec_field_str(fields, "Message"@) is Some
}

/// Reads the provider's error payload out of a response tree.
pub fn decode_provider_error(j: &Json) -> (r: Option<ProviderError>)
    ensures
        r is Some <==> spec_provider_error_ok(j@),
        r matches Some(p) ==> {
            &&& Some(p.error_code) == spec_field_int(j@->Obj_0, "ErrorCode"@)
            &&& Some(p.message@) == spec_field_str(j@->Obj_0, "Message"@)
        },
{
    match j {
        Json::Obj(fields) => {
            let code = get_int(fields, "ErrorCode");
            let msg = get_str(fields, "Message");
            match (code, msg) {
                (Some(c), Some(m)) => Some(ProviderError { error_code: c, message: m }),
                _ => None,
            }
        },
        _ => None,
    }
}

/// Client configuration: the base URL calls are made against and the server
/// token attached to every call. Constructed once, immutable afterwards.
#[derive(Debug, Clone, PartialEq)]
pub struct ClientConfig {
    pub base_url: String,
    pub token: String,
}

impl ClientConfig {
    /// A configuration from its two parts.
    pub fn new(base_url: String, token: String) -> (r: ClientConfig)
        ensures
            r.base_url@ == base_url@,
            r.token@ == token@,
    {
        ClientConfig { base_url, token }
    }

    /// The absolute URL for a relative endpoint path: the base URL with the
    /// path appended.
    pub fn request_url(&self, path: &str) -> (r: String)
        ensures
            r@ == self.base_url@ + path@,
    {
        let mut out: Vec<char> = str_to_chars(self.base_url.as_str());
        push_chars(&mut out, path);
        chars_to_string(&out)
    }

    /// The headers attached to every request: JSON content negotiation and
    /// the provider's server-token header.
    pub fn request_headers(&self) -> (r: Vec<(String, String)>)
        ensures
            r@.len() == 3,
            r@[0].0@ == "Accept"@ && r@[0].1@ == "application/json"@,
            r@[1].0@ == "Content-Type"@ && r@[1].1@ == "application/json"@,
            r@[2].0@ == "X-Postmark-Server-Token"@ && r@[2].1@ == self.token@,
    {
        let mut r: Vec<(String, String)> = Vec::new();
        r.push((String::from_str("Accept"), String::from_str("application/json")));
        r.push((String::from_str("Content-Type"), String::from_str("application/json")));
        r.push((String::from_str("X-Postmark-Server-Token"), self.token.clone()));
        r
    }
}

/// The API error for a non-success response: it carries the status, and the
/// provider's structured payload exactly when the parsed body is one — the
/// raw body text otherwise.
pub fn api_error_of(status: u16, parsed: &Option<Json>, raw: &str) -> (r: ApiError)
    ensures
        r.status == status,
        match parsed {
            Some(j) => {
                if spec_provider_error_ok(j@) {
                    r.detail matches ApiErrorDetail::Structured(p) && Some(p.error_code)
                        == spec_field_int(j@->Obj_0, "ErrorCode"@) && Some(p.message@)
                        == spec_field_str(j@->Obj_0, "Message"@)
                } else {
                    r.detail matches ApiErrorDetail::Raw(b) && b@ == raw@
                }
            },
            None => r.detail matches ApiErrorDetail::Raw(b) && b@ == raw@,
        },
{
    let detail = match parsed {
        Some(j) => match decode_provider_error(j) {
            Some(p) => ApiErrorDetail::Structured(p),
            None => ApiErrorDetail::Raw(raw.to_owned()),
        },
        None => ApiErrorDetail::Raw(raw.to_owned()),
    };
    ApiError { status, detail }
}

/// The decision half of dispatch: classifies the transport's answer — an
/// HTTP status and a body — as the typed response, an API error, or a
/// decoding error.
///
/// A non-success status is always an API error carrying that status, never a
/// decoding error; its detail is the provider's structured payload exactly
/// when the body parses as the provider's error shape, the raw body text
/// otherwise. A success status yields exactly the decoded body — `Ok` with
/// the typed response the body's tree decodes to when it decodes, and a
/// decoding error when the body does not parse or a required field is
/// missing or mistyped. `spec_parse_json` pins the tree to the body text.
pub fn interpret_response<E: Endpoint>(status: u16, body: &str) -> (r: Result<
    E::Response,
    DispatchError,
>)
    ensures
        !spec_is_success(status) ==> (r matches Err(e) && e matches DispatchError::Api(a)
            && a.status == status && (match spec_parse_json(body@) {
            Some(m) => {
                if spec_provider_error_ok(m) {
                    a.detail matches ApiErrorDetail::Structured(p) && Some(p.error_code)
                        == spec_field_int(m->Obj_0, "ErrorCode"@) && Some(p.message@)
                        == spec_field_str(m->Obj_0, "Message"@)
                } else {
                    a.detail matches ApiErrorDetail::Raw(b) && b@ == body@
                }
            },
            None => a.detail matches ApiErrorDetail::Raw(b) && b@ == body@,
        })),
        spec_is_success(status) ==> (match spec_parse_json(body@) {
            Some(m) => {
                if E::spec_response_ok(m) {
                    r matches Ok(resp) && E::spec_response_matches(m, resp)
                } else {
                    r matches Err(e) && e matches DispatchError::Decode(b) && b@ == body@
                }
            },
            None => r matches Err(e) && e matches DispatchError::Decode(b) && b@ == body@,
        }),
{
    let parsed = parse_json(body);
    if !is_success_status(status) {
        Err(DispatchError::Api(api_error_of(status, &parsed, body)))
    } else {
        match parsed {
            None => Err(DispatchError::Decode(body.to_owned())),
            Some(j) => match E::decode_response(&j) {
                Some(resp) => Ok(resp),
                None => Err(DispatchError::Decode(body.to_owned())),
            },
        }
    }
}

} // verus!
