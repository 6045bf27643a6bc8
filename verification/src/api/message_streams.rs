//! Message-stream endpoints.

use vstd::prelude::*;

verus! {

use crate::endpoint::Endpoint;
use crate::endpoint::HttpMethod;
use crate::json::Json;
use crate::json::JsonModel;
use crate::json::obj_model;
use crate::json::spec_field_str;
use crate::json::get_str;
use crate::text::push_chars;
use crate::text::push_percent_encoded;
use crate::text::push_json_quoted;
use crate::text::chars_to_string;
use crate::text::spec_pct_str;
use crate::text::spec_obj_text;
use crate::text::spec_members_text;
use crate::text::spec_member_text;
use vstd::string::StringExecFns;

/// Whether a suppressed address was deleted, or its deletion failed.
#[derive(Debug, Clone, Copy, PartialEq, Eq, Structural)]
pub enum SuppressionStatusType {
    Deleted,
    Failed,
}

impl Default for SuppressionStatusType {
    /// The default status is `Deleted`.
    fn default() -> (r: Self)
        ensures
            r == SuppressionStatusType::Deleted,
    {
        SuppressionStatusType::Deleted
    }
}

impl SuppressionStatusType {
    /// The variant's name on the wire.
    pub open spec fn spec_wire_name(self) -> Seq<char> {
        match self {
            SuppressionStatusType::Deleted => "Deleted"@,
            SuppressionStatusType::Failed => "Failed"@,
        }
    }

    /// The variant's name on the wire.
    pub fn wire_name(&self) -> (r: String)
        ensures
            r@ == self.spec_wire_name(),
    {
        match self {
            SuppressionStatusType::Deleted => String::from_str("Deleted"),
            SuppressionStatusType::Failed => String::from_str("Failed"),
        }
    }
}

/// Addressing a message stream: by its identifier. Exactly one variant is
/// active; rendering to the URL form is total and never fails.
#[derive(Debug, Clone, PartialEq)]
pub enum StreamIdOrName {
    StreamId(String),
}

impl StreamIdOrName {
    /// The single string form the remote API expects: the identifier itself.
    pub open spec fn spec_render(self) -> Seq<char> {
        match self {
            StreamIdOrName::StreamId(id) => id@,
        }
    }

    /// Renders the choice to the string embedded in a URL.
    pub fn render(&self) -> (r: String)
        ensures
            r@ == self.spec_render(),
    {
        match self {
            StreamIdOrName::StreamId(id) => id.clone(),
        }
    }
}

/// Edits a message stream. The identifier addresses the stream in the URL
/// path and is not part of the body; the optional fields are omitted from
/// the body entirely when absent.
#[derive(Debug, Clone, PartialEq)]
pub struct EditMessageStreamRequest {
    pub stream_id: String,
    pub name: Option<String>,
    pub description: Option<String>,
}

/// Builds an `EditMessageStreamRequest`: the identifier is required at
/// construction, the optional fields default to absent.
#[derive(Debug, Clone, PartialEq)]
pub struct EditMessageStreamRequestBuilder {
    pub stream_id: String,
    pub name: Option<String>,
    pub description: Option<String>,
}

impl EditMessageStreamRequest {
    /// A builder with the required identifier and both optional fields
    /// absent.
    pub fn builder(stream_id: String) -> (r: EditMessageStreamRequestBuilder)
        ensures
            r.stream_id == stream_id,
            r.name is None,
            r.description is None,
    {
        EditMessageStreamRequestBuilder { stream_id, name: None, description: None }
    }
}

impl EditMessageStreamRequestBuilder {
    /// Sets the new name.
    pub fn name(self, name: String) -> (r: Self)
        ensures
            r.stream_id == self.stream_id,
            r.name == Some(name),
            r.description == self.description,
    {
        EditMessageStreamRequestBuilder { name: Some(name), ..self }
    }

    /// Sets the new description.
    pub fn description(self, description: String) -> (r: Self)
        ensures
            r.stream_id == self.stream_id,
            r.name == self.name,
            r.description == Some(description),
    {
        EditMessageStreamRequestBuilder { description: Some(description), ..self }
    }

    /// The finished request, carrying exactly what was set.
    pub fn build(self) -> (r: EditMessageStreamRequest)
        ensures
            r.stream_id == self.stream_id,
            r.name == self.name,
            r.description == self.description,
    {
        EditMessageStreamRequest {
            stream_id: self.stream_id,
            name: self.name,
            description: self.description,
        }
    }
}

impl EditMessageStreamRequest {
    /// The body's members: each present optional field, in declaration
    /// order, under the provider's external name; an absent field
    /// contributes no member.
    pub open spec fn spec_body_members(self) -> Seq<(Seq<char>, Seq<char>)> {
        (match self.name {
            Some(n) => seq![("Name"@, n@)],
            None => Seq::empty(),
        }) + (match self.description {
            Some(d) => seq![("Description"@, d@)],
            None => Seq::empty(),
        })
    }
}

/// With an identifier of unreserved text, the constructed path is the
/// collection's segment followed by the identifier exactly as written.
pub proof fn lemma_edit_path_plain(r: EditMessageStreamRequest)
    requires
        forall|i: int|
            0 <= i < r.stream_id@.len() ==> crate::text::spec_is_unreserved_char(
                #[trigger] r.stream_id@[i],
            ),
    ensures
        r.spec_path() == "/message-streams/"@ + r.stream_id@,
{
    crate::text::lemma_pct_unreserved(r.stream_id@);
}

/// Serializing an edit request emits exactly the specified-and-present
/// fields: the body is the JSON object whose members are, in declaration
/// order, `Name` when a name is present and `Description` when a
/// description is present — no other key ever appears, and no key appears
/// for an absent optional field. With both fields absent the body is `{}`.
pub proof fn lemma_edit_body_exact(r: EditMessageStreamRequest)
    ensures
        r.spec_body() == spec_obj_text(r.spec_body_members()),
        (exists|i: int|
            0 <= i < r.spec_body_members().len() && #[trigger] r.spec_body_members()[i].0
                == "Name"@) <==> r.name is Some,
        (exists|i: int|
            0 <= i < r.spec_body_members().len() && #[trigger] r.spec_body_members()[i].0
                == "Description"@) <==> r.description is Some,
        forall|i: int|
            0 <= i < r.spec_body_members().len() ==> (#[trigger] r.spec_body_members()[i].0
                == "Name"@ || r.spec_body_members()[i].0 == "Description"@),
        r.name matches Some(n) ==> r.spec_body_members()[0] == ("Name"@, n@),
        r.description matches Some(d) ==> r.spec_body_members()[r.spec_body_members().len() - 1]
            == ("Description"@, d@),
        r.name is None && r.description is None ==> r.spec_body() == "{}"@,
{
    reveal_strlit("Name");
    reveal_strlit("Description");
    assert("Name"@.len() == 4);
    assert("Description"@.len() == 11);
    let ms = r.spec_body_members();
    match (r.name, r.description) {
        (Some(n), Some(d)) => {
            assert(ms.len() == 2);
            assert(ms[0] == ("Name"@, n@));
            assert(ms[1] == ("Description"@, d@));
            assert(ms[0].0 == "Name"@);
            assert(ms[1].0 == "Description"@);
        },
        (Some(n), None) => {
            assert(ms.len() == 1);
            assert(ms[0] == ("Name"@, n@));
            assert(ms[0].0 == "Name"@);
        },
        (None, Some(d)) => {
            assert(ms.len() == 1);
            assert(ms[0] == ("Description"@, d@));
            assert(ms[0].0 == "Description"@);
        },
        (None, None) => {
            assert(ms.len() == 0);
            reveal_strlit("{}");
            assert(spec_obj_text(ms) =~= "{}"@);
        },
    }
}

/// The edited stream, as the provider returns it.
#[derive(Debug, Clone, PartialEq)]
pub struct EditTemplateResponse {
    pub id: String,
    pub name: String,
    pub description: String,
}

impl Endpoint for EditMessageStreamRequest {
    type Response = EditTemplateResponse;

    /// The percent-encoded identifier after the collection's segment.
    open spec fn spec_path(&self) -> Seq<char> {
        "/message-streams/"@ + spec_pct_str(self.stream_id@)
    }

    open spec fn spec_method(&self) -> HttpMethod {
        HttpMethod::Patch
    }

    /// The JSON object holding exactly the present optional fields.
    open spec fn spec_body(&self) -> Seq<char> {
        spec_obj_text(self.spec_body_members())
    }

    /// Required response fields: a string `ID`, `Name` and `Description`.
    open spec fn spec_response_ok(m: JsonModel) -> bool {
        &&& m matches JsonModel::Obj(fields)
        &&& spec_field_str(fields, "ID"@) is Some
        &&& spec_field_str(fields, "Name"@) is Some
        &&& spec_field_str(fields, "Description"@) is Some
    }

    open spec fn spec_response_matches(m: JsonModel, r: EditTemplateResponse) -> bool {
        &&& Some(r.id@) == spec_field_str(m->Obj_0, "ID"@)
        &&& Some(r.name@) == spec_field_str(m->Obj_0, "Name"@)
        &&& Some(r.description@) == spec_field_str(m->Obj_0, "Description"@)
    }

    fn endpoint(&self) -> (r: String) {
        let mut out: Vec<char> = Vec::new();
        push_chars(&mut out, "/message-streams/");
        push_percent_encoded(&mut out, self.stream_id.as_str());
        assert(out@ =~= self.spec_path());
        chars_to_string(&out)
    }

    fn method(&self) -> (m: HttpMethod) {
        HttpMethod::Patch
    }

    fn body(&self) -> (r: &Self) {
        self
    }

    fn body_json(&self) -> (r: String) {
        let mut out: Vec<char> = Vec::new();
        out.push('{');
        match (&self.name, &self.description) {
            (Some(n), Some(d)) => {
                push_json_quoted(&mut out, "Name");
                out.push(':');
                push_json_quoted(&mut out, n.as_str());
                out.push(',');
                push_json_quoted(&mut out, "Description");
                out.push(':');
                push_json_quoted(&mut out, d.as_str());
                proof {
                    let ms = self.spec_body_members();
                    assert(ms.len() == 2);
                    assert(ms[0] == ("Name"@, n@));
                    assert(ms[1] == ("Description"@, d@));
                    assert(ms.drop_first().len() == 1);
                    assert(ms.drop_first()[0] == ms[1]);
                    assert(spec_members_text(ms) == spec_member_text("Name"@, n@) + seq![',']
                        + spec_members_text(ms.drop_first()));
                    assert(out@ =~= seq!['{'] + spec_members_text(ms));
                }
            },
            (Some(n), None) => {
                push_json_quoted(&mut out, "Name");
                out.push(':');
                push_json_quoted(&mut out, n.as_str());
                proof {
                    let ms = self.spec_body_members();
                    assert(ms.len() == 1);
                    assert(ms[0] == ("Name"@, n@));
                    assert(out@ =~= seq!['{'] + spec_members_text(ms));
                }
            },
            (None, Some(d)) => {
                push_json_quoted(&mut out, "Description");
                out.push(':');
                push_json_quoted(&mut out, d.as_str());
                proof {
                    let ms = self.spec_body_members();
                    assert(ms.len() == 1);
                    assert(ms[0] == ("Description"@, d@));
                    assert(out@ =~= seq!['{'] + spec_members_text(ms));
                }
            },
            (None, None) => {
                proof {
                    let ms = self.spec_body_members();
                    assert(ms.len() == 0);
                    assert(out@ =~= seq!['{'] + spec_members_text(ms));
                }
            },
        }
        out.push('}');
        assert(out@ =~= self.spec_body());
        chars_to_string(&out)
    }

    fn decode_response(j: &Json) -> (r: Option<EditTemplateResponse>) {
        match j {
            Json::Obj(fields) => {
                assert(j@ == JsonModel::Obj(obj_model(fields@)));
                let id = get_str(fields, "ID");
                let name = get_str(fields, "Name");
                let description = get_str(fields, "Description");
                match (id, name, description) {
                    (Some(id), Some(name), Some(description)) => Some(
                        EditTemplateResponse { id, name, description },
                    ),
                    _ => None,
                }
            },
            _ => None,
        }
    }
}

} // verus!
