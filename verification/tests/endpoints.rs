use postmark::api::message_streams::EditMessageStreamRequest;
use postmark::api::message_streams::StreamIdOrName;
use postmark::api::message_streams::SuppressionStatusType;
use postmark::api::server::DeliveryType;
use postmark::api::server::ListServerRequest;
use postmark::api::server::ServerColor;
use postmark::api::server::ServerIdOrName;
use postmark::endpoint::Endpoint;
use postmark::endpoint::HttpMethod;
use postmark::endpoint::interpret_response;

const NAME: &str = "Onboarding Email";
const DESCRIPTION: &str = "Describing the message stream edited";

const EDIT_RESPONSE_DOC: &str = r#"{
    "ID": "broadcast",
    "ServerID": 123457,
    "Name": "Updated Dev Stream",
    "Description": "Updating my dev transactional stream",
    "MessageStreamType": "Transactional",
    "CreatedAt": "2020-07-02T00:00:00-04:00",
    "UpdatedAt": "2020-07-03T00:00:00-04:00",
    "ArchivedAt": null,
    "ExpectedPurgeDate": null,
    "SubscriptionManagementConfiguration": {
        "UnsubscribeHandlingType": "none"
    }
}"#;

#[test]
fn edit_message_stream() {
    let req = EditMessageStreamRequest::builder(String::from("broadcast"))
        .name(String::from(NAME))
        .description(String::from(DESCRIPTION))
        .build();

    assert_eq!(req.endpoint(), "/message-streams/broadcast");
    assert_eq!(req.method(), HttpMethod::Patch);
    assert_eq!(req.method().name(), "PATCH");
    assert_eq!(
        req.body_json(),
        "{\"Name\":\"Onboarding Email\",\"Description\":\"Describing the message stream edited\"}"
    );

    let decoded = interpret_response::<EditMessageStreamRequest>(200, EDIT_RESPONSE_DOC)
        .expect("Should get a response and be able to json decode it");
    assert_eq!(decoded.id, "broadcast");
    assert_eq!(decoded.name, "Updated Dev Stream");
    assert_eq!(decoded.description, "Updating my dev transactional stream");
}

#[test]
fn edit_body_omits_absent_fields() {
    let only_name = EditMessageStreamRequest::builder(String::from("x"))
        .name(String::from("A"))
        .build();
    assert_eq!(only_name.body_json(), "{\"Name\":\"A\"}");

    let only_description = EditMessageStreamRequest::builder(String::from("x"))
        .description(String::from("B"))
        .build();
    assert_eq!(only_description.body_json(), "{\"Description\":\"B\"}");

    let bare = EditMessageStreamRequest::builder(String::from("x")).build();
    assert_eq!(bare.body_json(), "{}");
}

#[test]
fn edit_body_escapes_strings() {
    let req = EditMessageStreamRequest::builder(String::from("x"))
        .name(String::from("say \"hi\"\n"))
        .build();
    assert_eq!(req.body_json(), "{\"Name\":\"say \\\"hi\\\"\\n\"}");
}

#[test]
fn edit_path_percent_encodes_identifier() {
    let req = EditMessageStreamRequest::builder(String::from("a b/c")).build();
    assert_eq!(req.endpoint(), "/message-streams/a%20b%2Fc");
}

#[test]
fn list_servers_query() {
    let req = ListServerRequest::builder()
        .name(Some(ServerIdOrName::ServerName(String::from("TEST-NAME"))))
        .build();
    assert_eq!(req.endpoint(), "/servers?count=1&offset=0&name=TEST-NAME");
    assert_eq!(req.method(), HttpMethod::Get);
    assert_eq!(req.method().name(), "GET");
    assert_eq!(req.body_json(), "{}");
}

#[test]
fn list_servers_query_without_filter() {
    let req = ListServerRequest::builder().count(25).offset(100).build();
    assert_eq!(req.endpoint(), "/servers?count=25&offset=100");
}

#[test]
fn list_servers_query_encodes_filter() {
    let req = ListServerRequest::builder()
        .name(Some(ServerIdOrName::ServerName(String::from("my server"))))
        .build();
    assert_eq!(req.endpoint(), "/servers?count=1&offset=0&name=my%20server");
}

#[test]
fn identifier_rendering() {
    assert_eq!(ServerIdOrName::ServerId(123).render(), "123");
    assert_eq!(ServerIdOrName::ServerId(0).render(), "0");
    assert_eq!(ServerIdOrName::ServerId(-45).render(), "-45");
    assert_eq!(
        ServerIdOrName::ServerName(String::from("Production01")).render(),
        "Production01"
    );
    assert_eq!(
        StreamIdOrName::StreamId(String::from("broadcast")).render(),
        "broadcast"
    );
}

#[test]
fn edit_path_percent_encodes_multibyte_characters() {
    // 'é' is the two UTF-8 bytes C3 A9; each is percent-encoded.
    let req = EditMessageStreamRequest::builder(String::from("caf\u{e9}")).build();
    assert_eq!(req.endpoint(), "/message-streams/caf%C3%A9");
}

#[test]
fn body_text_parses_back_into_the_expected_tree() {
    let req = EditMessageStreamRequest::builder(String::from("x"))
        .name(String::from("A"))
        .description(String::from("line\nbreak"))
        .build();
    let parsed = postmark::json::parse_json(&req.body_json());
    assert_eq!(
        parsed,
        Some(postmark::json::Json::Obj(vec![
            (String::from("Name"), postmark::json::Json::Text(String::from("A"))),
            (
                String::from("Description"),
                postmark::json::Json::Text(String::from("line\nbreak"))
            ),
        ]))
    );
}

#[test]
fn wire_names_and_defaults() {
    assert_eq!(SuppressionStatusType::default(), SuppressionStatusType::Deleted);
    assert_eq!(SuppressionStatusType::Failed.wire_name(), "Failed");
    assert_eq!(DeliveryType::default(), DeliveryType::Live);
    assert_eq!(DeliveryType::Sandbox.wire_name(), "Sandbox");
    assert_eq!(DeliveryType::from_wire("Live"), Some(DeliveryType::Live));
    assert_eq!(DeliveryType::from_wire("Sandbox"), Some(DeliveryType::Sandbox));
    assert_eq!(DeliveryType::from_wire("Other"), None);
    assert_eq!(ServerColor::default(), ServerColor::Purple);
    assert_eq!(ServerColor::Turquoise.wire_name(), "Turquoise");
    let defaulted = ListServerRequest::default();
    assert_eq!(defaulted.count, 0);
    assert_eq!(defaulted.offset, 0);
    assert!(defaulted.name.is_none());
}
