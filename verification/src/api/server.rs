//! Server endpoints.

use vstd::prelude::*;

verus! {

use crate::endpoint::Endpoint;
use crate::endpoint::HttpMethod;
use crate::json::Json;
use crate::json::JsonModel;
use crate::json::obj_model;
use crate::json::arr_model;
use crate::json::spec_field_str;
use crate::json::spec_field_int;
use crate::json::spec_field_bool;
use crate::json::spec_field_arr;
use crate::json::spec_all_texts;
use crate::json::spec_texts_of;
use crate::json::spec_in_isize;
use crate::json::get_str;
use crate::json::get_bool;
use crate::json::get_isize;
use crate::json::get_arr;
use crate::json::get_text_items;
use crate::text::push_chars;
use crate::text::push_percent_encoded;
use crate::text::chars_to_string;
use crate::text::render_isize;
use crate::text::spec_dec_int;
use crate::text::spec_pct_str;
use crate::text::str_eq;
use vstd::string::StringExecFns;

/// Addressing a server: by its numeric identifier or by its name. Exactly
/// one variant is active; rendering to the URL form is total and never
/// fails.
#[derive(Debug, Clone, PartialEq)]
pub enum ServerIdOrName {
    ServerId(isize),
    ServerName(String),
}

impl ServerIdOrName {
    /// The single string form the remote API expects: a numeric identifier
    /// in decimal without leading zeros or separators, a name as itself.
    pub open spec fn spec_render(self) -> Seq<char> {
        match self {
            ServerIdOrName::ServerId(id) => spec_dec_int(id as int),
            ServerIdOrName::ServerName(name) => name@,
        }
    }

    /// Renders the choice to the string embedded in a URL or query string.
    pub fn render(&self) -> (r: String)
        ensures
            r@ == self.spec_render(),
    {
        match self {
            ServerIdOrName::ServerId(id) => {
                let digits = render_isize(*id);
                chars_to_string(&digits)
            },
            ServerIdOrName::ServerName(name) => name.clone(),
        }
    }
}

/// Whether a server delivers live mail or sandboxed mail.
#[derive(Debug, Clone, Copy, PartialEq, Eq, Structural)]
pub enum DeliveryType {
    Live,
    Sandbox,
}

impl Default for DeliveryType {
    /// The default delivery type is `Live`.
    fn default() -> (r: Self)
        ensures
            r == DeliveryType::Live,
    {
        DeliveryType::Live
    }
}

/// The delivery type a wire string names, if any.
pub open spec fn spec_delivery_of(s: Seq<char>) -> Option<DeliveryType> {
    if s == "Live"@ {
        Some(DeliveryType::Live)
    } else if s == "Sandbox"@ {
        Some(DeliveryType::Sandbox)
    } else {
        None
    }
}

impl DeliveryType {
    /// The variant's name on the wire.
    pub open spec fn spec_wire_name(self) -> Seq<char> {
        match self {
            DeliveryType::Live => "Live"@,
            DeliveryType::Sandbox => "Sandbox"@,
        }
    }

    /// The variant's name on the wire.
    pub fn wire_name(&self) -> (r: String)
        ensures
            r@ == self.spec_wire_name(),
    {
        match self {
            DeliveryType::Live => String::from_str("Live"),
            DeliveryType::Sandbox => String::from_str("Sandbox"),
        }
    }

    /// Reads a delivery type from its wire name.
    pub fn from_wire(s: &str) -> (r: Option<DeliveryType>)
        ensures
            r == spec_delivery_of(s@),
    {
        if str_eq(s, "Live") {
            Some(DeliveryType::Live)
        } else if str_eq(s, "Sandbox") {
            Some(DeliveryType::Sandbox)
        } else {
            None
        }
    }
}

/// The colour a server is shown with in the provider's UI.
#[derive(Debug, Clone, Copy, PartialEq, Eq, Structural)]
pub enum ServerColor {
    Purple,
    Blue,
    Turquoise,
    Green,
    Red,
    Yellow,
    Grey,
    Orange,
}

impl Default for ServerColor {
    /// The default colour is `Purple`.
    fn default() -> (r: Self)
        ensures
            r == ServerColor::Purple,
    {
        ServerColor::Purple
    }
}

impl ServerColor {
    /// The variant's name on the wire.
    pub open spec fn spec_wire_name(self) -> Seq<char> {
        match self {
            ServerColor::Purple => "Purple"@,
            ServerColor::Blue => "Blue"@,
            ServerColor::Turquoise => "Turquoise"@,
            ServerColor::Green => "Green"@,
            ServerColor::Red => "Red"@,
            ServerColor::Yellow => "Yellow"@,
            ServerColor::Grey => "Grey"@,
            ServerColor::Orange => "Orange"@,
        }
    }

    /// The variant's name on the wire.
    pub fn wire_name(&self) -> (r: String)
        ensures
            r@ == self.spec_wire_name(),
    {
        match self {
            ServerColor::Purple => String::from_str("Purple"),
            ServerColor::Blue => String::from_str("Blue"),
            ServerColor::Turquoise => String::from_str("Turquoise"),
            ServerColor::Green => String::from_str("Green"),
            ServerColor::Red => String::from_str("Red"),
            ServerColor::Yellow => String::from_str("Yellow"),
            ServerColor::Grey => String::from_str("Grey"),
            ServerColor::Orange => String::from_str("Orange"),
        }
    }
}

/// One server, as the provider returns it in listings and lookups. The
/// colour is kept as the provider's string: listings return lowercase
/// colour names that are not the `ServerColor` wire names.
#[derive(Debug, Clone, PartialEq)]
pub struct GetServerResponse {
    pub id: isize,
    pub name: String,
    pub api_tokens: Vec<String>,
    pub color: String,
    pub smtp_api_activated: bool,
    pub raw_email_enabled: bool,
    pub delivery_type: DeliveryType,
    pub server_link: String,
    pub inbound_address: String,
    pub inbound_hook_url: String,
    pub bounce_hook_url: String,
    pub open_hook_url: String,
    pub delivery_hook_url: String,
    pub post_first_open_only: bool,
    pub inbound_domain: String,
    pub inbound_hash: String,
    pub inbound_spam_threshold: isize,
    pub track_opens: bool,
    pub track_links: String,
    pub include_bounce_content_in_hook: bool,
    pub click_hook_url: String,
    pub enable_smtp_api_error_hooks: bool,
}

/// Whether a tree carries every required field of a server record, each
/// with its required type.
pub open spec fn spec_server_ok(m: JsonModel) -> bool {
    &&& m matches JsonModel::Obj(f)
    &&& spec_field_int(f, "ID"@) matches Some(n) && spec_in_isize(n)
    &&& spec_field_str(f, "Name"@) is Some
    &&& spec_field_arr(f, "ApiTokens"@) matches Some(e) && spec_all_texts(e)
    &&& spec_field_str(f, "Color"@) is Some
    &&& spec_field_bool(f, "SmtpApiActivated"@) is Some
    &&& spec_field_bool(f, "RawEmailEnabled"@) is Some
    &&& spec_field_str(f, "DeliveryType"@) matches Some(d) && spec_delivery_of(d) is Some
    &&& spec_field_str(f, "ServerLink"@) is Some
    &&& spec_field_str(f, "InboundAddress"@) is Some
    &&& spec_field_str(f, "InboundHookUrl"@) is Some
    &&& spec_field_str(f, "BounceHookUrl"@) is Some
    &&& spec_field_str(f, "OpenHookUrl"@) is Some
    &&& spec_field_str(f, "DeliveryHookUrl"@) is Some
    &&& spec_field_bool(f, "PostFirstOpenOnly"@) is Some
    &&& spec_field_str(f, "InboundDomain"@) is Some
    &&& spec_field_str(f, "InboundHash"@) is Some
    &&& spec_field_int(f, "InboundSpamThreshold"@) matches Some(t) && spec_in_isize(t)
    &&& spec_field_bool(f, "TrackOpens"@) is Some
    &&& spec_field_str(f, "TrackLinks"@) is Some
    &&& spec_field_bool(f, "IncludeBounceContentInHook"@) is Some
    &&& spec_field_str(f, "ClickHookUrl"@) is Some
    &&& spec_field_bool(f, "EnableSmtpApiErrorHooks"@) is Some
}

/// How a decoded server record relates to the tree it was read from.
pub open spec fn spec_server_matches(m: JsonModel, s: GetServerResponse) -> bool {
    let f = m->Obj_0;
    &&& spec_field_int(f, "ID"@) matches Some(n) && s.id as int == n as int
    &&& Some(s.name@) == spec_field_str(f, "Name"@)
    &&& spec_field_arr(f, "ApiTokens"@) matches Some(e) && s.api_tokens@.map_values(
        |t: String| t@,
    ) == spec_texts_of(e)
    &&& Some(s.color@) == spec_field_str(f, "Color"@)
    &&& Some(s.smtp_api_activated) == spec_field_bool(f, "SmtpApiActivated"@)
    &&& Some(s.raw_email_enabled) == spec_field_bool(f, "RawEmailEnabled"@)
    &&& spec_field_str(f, "DeliveryType"@) matches Some(d) && Some(s.delivery_type)
        == spec_delivery_of(d)
    &&& Some(s.server_link@) == spec_field_str(f, "ServerLink"@)
    &&& Some(s.inbound_address@) == spec_field_str(f, "InboundAddress"@)
    &&& Some(s.inbound_hook_url@) == spec_field_str(f, "InboundHookUrl"@)
    &&& Some(s.bounce_hook_url@) == spec_field_str(f, "BounceHookUrl"@)
    &&& Some(s.open_hook_url@) == spec_field_str(f, "OpenHookUrl"@)
    &&& Some(s.delivery_hook_url@) == spec_field_str(f, "DeliveryHookUrl"@)
    &&& Some(s.post_first_open_only) == spec_field_bool(f, "PostFirstOpenOnly"@)
    &&& Some(s.inbound_domain@) == spec_field_str(f, "InboundDomain"@)
    &&& Some(s.inbound_hash@) == spec_field_str(f, "InboundHash"@)
    &&& spec_field_int(f, "InboundSpamThreshold"@) matches Some(t) && s.inbound_spam_threshold
        as int == t as int
    &&& Some(s.track_opens) == spec_field_bool(f, "TrackOpens"@)
    &&& Some(s.track_links@) == spec_field_str(f, "TrackLinks"@)
    &&& Some(s.include_bounce_content_in_hook) == spec_field_bool(
        f,
        "IncludeBounceContentInHook"@,
    )
    &&& Some(s.click_hook_url@) == spec_field_str(f, "ClickHookUrl"@)
    &&& Some(s.enable_smtp_api_error_hooks) == spec_field_bool(f, "EnableSmtpApiErrorHooks"@)
}

/// Decodes one server record; `None` exactly when a required field is
/// missing or has the wrong type.
#[verifier::rlimit(50)]
pub fn decode_server(j: &Json) -> (r: Option<GetServerResponse>)
    ensures
        r is Some <==> spec_server_ok(j@),
        r matches Some(s) ==> spec_server_matches(j@, s),
{
    let fields = match j {
        Json::Obj(fields) => fields,
        _ => {
            return None;
        },
    };
    assert(j@ == JsonModel::Obj(obj_model(fields@)));
    let id = match get_isize(fields, "ID") {
        Some(v) => v,
        None => {
            return None;
        },
    };
    let name = match get_str(fields, "Name") {
        Some(v) => v,
        None => {
            return None;
        },
    };
    let tokens_arr = match get_arr(fields, "ApiTokens") {
        Some(v) => v,
        None => {
            return None;
        },
    };
    let api_tokens = match get_text_items(tokens_arr) {
        Some(v) => v,
        None => {
            return None;
        },
    };
    let color = match get_str(fields, "Color") {
        Some(v) => v,
        None => {
            return None;
        },
    };
    let smtp_api_activated = match get_bool(fields, "SmtpApiActivated") {
        Some(v) => v,
        None => {
            return None;
        },
    };
    let raw_email_enabled = match get_bool(fields, "RawEmailEnabled") {
        Some(v) => v,
        None => {
            return None;
        },
    };
    let delivery_type_name = match get_str(fields, "DeliveryType") {
        Some(v) => v,
        None => {
            return None;
        },
    };
    let delivery_type = match DeliveryType::from_wire(delivery_type_name.as_str()) {
        Some(v) => v,
        None => {
            return None;
        },
    };
    let server_link = match get_str(fields, "ServerLink") {
        Some(v) => v,
        None => {
            return None;
        },
    };
    let inbound_address = match get_str(fields, "InboundAddress") {
        Some(v) => v,
        None => {
            return None;
        },
    };
    let inbound_hook_url = match get_str(fields, "InboundHookUrl") {
        Some(v) => v,
        None => {
            return None;
        },
    };
    let bounce_hook_url = match get_str(fields, "BounceHookUrl") {
        Some(v) => v,
        None => {
            return None;
        },
    };
    let open_hook_url = match get_str(fields, "OpenHookUrl") {
        Some(v) => v,
        None => {
            return None;
        },
    };
    let delivery_hook_url = match get_str(fields, "DeliveryHookUrl") {
        Some(v) => v,
        None => {
            return None;
        },
    };
    let post_first_open_only = match get_bool(fields, "PostFirstOpenOnly") {
        Some(v) => v,
        None => {
            return None;
        },
    };
    let inbound_domain = match get_str(fields, "InboundDomain") {
        Some(v) => v,
        None => {
            return None;
        },
    };
    let inbound_hash = match get_str(fields, "InboundHash") {
        Some(v) => v,
        None => {
            return None;
        },
    };
    let inbound_spam_threshold = match get_isize(fields, "InboundSpamThreshold") {
        Some(v) => v,
        None => {
            return None;
        },
    };
    let track_opens = match get_bool(fields, "TrackOpens") {
        Some(v) => v,
        None => {
            return None;
        },
    };
    let track_links = match get_str(fields, "TrackLinks") {
        Some(v) => v,
        None => {
            return None;
        },
    };
    let include_bounce_content_in_hook = match get_bool(fields, "IncludeBounceContentInHook") {
        Some(v) => v,
        None => {
            return None;
        },
    };
    let click_hook_url = match get_str(fields, "ClickHookUrl") {
        Some(v) => v,
        None => {
            return None;
        },
    };
    let enable_smtp_api_error_hooks = match get_bool(fields, "EnableSmtpApiErrorHooks") {
        Some(v) => v,
        None => {
            return None;
        },
    };
    Some(
        GetServerResponse {
            id,
            name,
            api_tokens,
            color,
            smtp_api_activated,
            raw_email_enabled,
            delivery_type,
            server_link,
            inbound_address,
            inbound_hook_url,
            bounce_hook_url,
            open_hook_url,
            delivery_hook_url,
            post_first_open_only,
            inbound_domain,
            inbound_hash,
            inbound_spam_threshold,
            track_opens,
            track_links,
            include_bounce_content_in_hook,
            click_hook_url,
            enable_smtp_api_error_hooks,
        },
    )
}

/// Lists servers, newest first, with pagination parameters and an optional
/// name filter. No field is part of the body: everything rides in the query
/// string.
#[derive(Debug, Clone, PartialEq)]
pub struct ListServerRequest {
    pub count: isize,
    pub name: Option<ServerIdOrName>,
    pub offset: isize,
}

impl Default for ListServerRequest {
    /// An all-absent request: zero count and offset, no name filter.
    fn default() -> (r: Self)
        ensures
            r.count == 0,
            r.name is None,
            r.offset == 0,
    {
        ListServerRequest { count: 0, name: None, offset: 0 }
    }
}

/// Builds a `ListServerRequest`: one page of one server from the start,
/// unfiltered, unless set otherwise.
#[derive(Debug, Clone, PartialEq)]
pub struct ListServerRequestBuilder {
    pub count: isize,
    pub name: Option<ServerIdOrName>,
    pub offset: isize,
}

impl ListServerRequest {
    /// A builder with `count` 1, `offset` 0 and no name filter.
    pub fn builder() -> (r: ListServerRequestBuilder)
        ensures
            r.count == 1,
            r.name is None,
            r.offset == 0,
    {
        ListServerRequestBuilder { count: 1, name: None, offset: 0 }
    }
}

impl ListServerRequestBuilder {
    /// Sets how many servers to return.
    pub fn count(self, count: isize) -> (r: Self)
        ensures
            r.count == count,
            r.name == self.name,
            r.offset == self.offset,
    {
        ListServerRequestBuilder { count, ..self }
    }

    /// Sets the name filter.
    pub fn name(self, name: Option<ServerIdOrName>) -> (r: Self)
        ensures
            r.count == self.count,
            r.name == name,
            r.offset == self.offset,
    {
        ListServerRequestBuilder { name, ..self }
    }

    /// Sets how many servers to skip.
    pub fn offset(self, offset: isize) -> (r: Self)
        ensures
            r.count == self.count,
            r.name == self.name,
            r.offset == offset,
    {
        ListServerRequestBuilder { offset, ..self }
    }

    /// The finished request, carrying exactly what was set.
    pub fn build(self) -> (r: ListServerRequest)
        ensures
            r.count == self.count,
            r.name == self.name,
            r.offset == self.offset,
    {
        ListServerRequest { count: self.count, name: self.name, offset: self.offset }
    }
}

/// With a name filter of unreserved text, the constructed path carries the
/// pagination parameters in decimal and the rendered name exactly as
/// written.
pub proof fn lemma_list_path_plain_name(r: ListServerRequest)
    requires
        match r.name {
            Some(n) => forall|i: int|
                0 <= i < n.spec_render().len() ==> crate::text::spec_is_unreserved_char(
                    #[trigger] n.spec_render()[i],
                ),
            None => false,
        },
    ensures
        match r.name {
            Some(n) => r.spec_path() == "/servers?count="@ + spec_dec_int(r.count as int)
                + "&offset="@ + spec_dec_int(r.offset as int) + "&name="@ + n.spec_render(),
            None => true,
        },
{
    match r.name {
        Some(n) => {
            crate::text::lemma_pct_unreserved(n.spec_render());
        },
        None => {},
    }
}

/// The provider's listing envelope: the total count and one page of
/// servers.
#[derive(Debug, Clone, PartialEq)]
pub struct ListServerResponse {
    pub total_count: isize,
    pub servers: Vec<GetServerResponse>,
}

impl Default for ListServerResponse {
    /// An empty listing.
    fn default() -> (r: Self)
        ensures
            r.total_count == 0,
            r.servers@.len() == 0,
    {
        ListServerResponse { total_count: 0, servers: Vec::new() }
    }
}

impl Endpoint for ListServerRequest {
    type Response = ListServerResponse;

    /// The pagination parameters in decimal, then the percent-encoded name
    /// filter when one is set.
    open spec fn spec_path(&self) -> Seq<char> {
        "/servers?count="@ + spec_dec_int(self.count as int) + "&offset="@ + spec_dec_int(
            self.offset as int,
        ) + (match self.name {
            Some(n) => "&name="@ + spec_pct_str(n.spec_render()),
            None => Seq::empty(),
        })
    }

    open spec fn spec_method(&self) -> HttpMethod {
        HttpMethod::Get
    }

    /// Every field rides in the query string; the body is the empty object.
    open spec fn spec_body(&self) -> Seq<char> {
        "{}"@
    }

    /// Required response fields: an integer `TotalCount` and an array
    /// `Servers` whose every element is a server record.
    open spec fn spec_response_ok(m: JsonModel) -> bool {
        &&& m matches JsonModel::Obj(f)
        &&& spec_field_int(f, "TotalCount"@) matches Some(n) && spec_in_isize(n)
        &&& spec_field_arr(f, "Servers"@) matches Some(e) && (forall|k: int|
            0 <= k < e.len() ==> spec_server_ok(#[trigger] e[k]))
    }

    open spec fn spec_response_matches(m: JsonModel, r: ListServerResponse) -> bool {
        let f = m->Obj_0;
        &&& spec_field_int(f, "TotalCount"@) matches Some(n) && r.total_count as int == n as int
        &&& spec_field_arr(f, "Servers"@) matches Some(e) && r.servers@.len() == e.len() && (
        forall|k: int| 0 <= k < e.len() ==> spec_server_matches(#[trigger] e[k], r.servers@[k]))
    }

    fn endpoint(&self) -> (r: String) {
        let mut out: Vec<char> = Vec::new();
        push_chars(&mut out, "/servers?count=");
        let mut count_digits = render_isize(self.count);
        out.append(&mut count_digits);
        push_chars(&mut out, "&offset=");
        let mut offset_digits = render_isize(self.offset);
        out.append(&mut offset_digits);
        match &self.name {
            Some(n) => {
                push_chars(&mut out, "&name=");
                let rendered = n.render();
                push_percent_encoded(&mut out, rendered.as_str());
            },
            None => {},
        }
        assert(out@ =~= self.spec_path());
        chars_to_string(&out)
    }

    fn method(&self) -> (m: HttpMethod) {
        HttpMethod::Get
    }

    fn body(&self) -> (r: &Self) {
        self
    }

    fn body_json(&self) -> (r: String) {
        String::from_str("{}")
    }

    fn decode_response(j: &Json) -> (r: Option<ListServerResponse>) {
        let fields = match j {
            Json::Obj(fields) => fields,
            _ => {
                return None;
            },
        };
        assert(j@ == JsonModel::Obj(obj_model(fields@)));
        let total_count = match get_isize(fields, "TotalCount") {
            Some(v) => v,
            None => {
                return None;
            },
        };
        let elems = match get_arr(fields, "Servers") {
            Some(v) => v,
            None => {
                return None;
            },
        };
        let mut servers: Vec<GetServerResponse> = Vec::new();
        let mut i: usize = 0;
        while i < elems.len()
            invariant
                i <= elems@.len(),
                servers@.len() == i,
                j@ is Obj,
                spec_field_arr(j@->Obj_0, "Servers"@) == Some(arr_model(elems@)),
                forall|k: int|
                    0 <= k < i ==> spec_server_ok(#[trigger] arr_model(elems@)[k])
                        && spec_server_matches(arr_model(elems@)[k], servers@[k]),
            decreases elems@.len() - i,
        {
            match decode_server(&elems[i]) {
                Some(s) => {
                    proof {
                        assert(arr_model(elems@)[i as int] == elems@[i as int]@);
                    }
                    servers.push(s);
                },
                None => {
                    proof {
                        assert(arr_model(elems@)[i as int] == elems@[i as int]@);
                        assert(!spec_server_ok(arr_model(elems@)[i as int]));
                        assert((i as int) < arr_model(elems@).len());
                        if Self::spec_response_ok(j@) {
                            assert(match spec_field_arr(j@->Obj_0, "Servers"@) {
                                Some(e) => spec_server_ok(e[i as int]),
                                None => false,
                            });
                            assert(false);
                        }
                    }
                    return None;
                },
            }
            i = i + 1;
        }
        Some(ListServerResponse { total_count, servers })
    }
}

} // verus!
