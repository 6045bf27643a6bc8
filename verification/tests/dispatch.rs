use postmark::api::message_streams::EditMessageStreamRequest;
use postmark::api::server::DeliveryType;
use postmark::api::server::ListServerRequest;
use postmark::endpoint::ApiErrorDetail;
use postmark::endpoint::ClientConfig;
use postmark::endpoint::DispatchError;
use postmark::endpoint::interpret_response;

const LIST_RESPONSE_DOC: &str = r#"{
  "TotalCount": 2,
  "Servers": [
    {
      "ID": 1,
      "Name": "Production01",
      "ApiTokens": [
        "server token"
      ],
      "Color": "red",
      "SmtpApiActivated": true,
      "RawEmailEnabled": false,
      "DeliveryType": "Live",
      "ServerLink": "https://postmarkapp.com/servers/1/streams",
      "InboundAddress": "yourhash@inbound.postmarkapp.com",
      "InboundHookUrl": "http://inboundhook.example.com/inbound",
      "BounceHookUrl": "http://bouncehook.example.com/bounce",
      "OpenHookUrl": "http://openhook.example.com/open",
      "DeliveryHookUrl": "http://hooks.example.com/delivery",
      "PostFirstOpenOnly": true,
      "InboundDomain": "",
      "InboundHash": "yourhash",
      "InboundSpamThreshold": 5,
      "TrackOpens": false,
      "TrackLinks": "None",
      "IncludeBounceContentInHook": true,
      "ClickHookUrl": "http://hooks.example.com/click",
      "EnableSmtpApiErrorHooks": false
    },
    {
      "ID": 2,
      "Name": "Production02",
      "ApiTokens": [
        "server token"
      ],
      "Color": "green",
      "SmtpApiActivated": true,
      "RawEmailEnabled": false,
      "DeliveryType": "Sandbox",
      "ServerLink": "https://postmarkapp.com/servers/2/streams",
      "InboundAddress": "yourhash@inbound.postmarkapp.com",
      "InboundHookUrl": "",
      "BounceHookUrl": "",
      "OpenHookUrl": "",
      "DeliveryHookUrl": "http://hooks.example.com/delivery",
      "PostFirstOpenOnly": false,
      "InboundDomain": "",
      "InboundHash": "yourhash",
      "InboundSpamThreshold": 0,
      "TrackOpens": true,
      "TrackLinks": "HtmlAndText",
      "IncludeBounceContentInHook": false,
      "ClickHookUrl": "",
      "EnableSmtpApiErrorHooks": false
    }
  ]
}"#;

#[test]
fn get_server() {
    let listing = interpret_response::<ListServerRequest>(200, LIST_RESPONSE_DOC)
        .expect("Should get a response and be able to json decode it");
    assert_eq!(listing.total_count, 2);
    assert_eq!(listing.servers.len(), 2);

    let first = &listing.servers[0];
    assert_eq!(first.id, 1);
    assert_eq!(first.name, "Production01");
    assert_eq!(first.api_tokens, vec![String::from("server token")]);
    assert_eq!(first.color, "red");
    assert!(first.smtp_api_activated);
    assert!(!first.raw_email_enabled);
    assert_eq!(first.delivery_type, DeliveryType::Live);
    assert_eq!(first.server_link, "https://postmarkapp.com/servers/1/streams");
    assert_eq!(first.inbound_address, "yourhash@inbound.postmarkapp.com");
    assert_eq!(first.inbound_hook_url, "http://inboundhook.example.com/inbound");
    assert_eq!(first.bounce_hook_url, "http://bouncehook.example.com/bounce");
    assert_eq!(first.open_hook_url, "http://openhook.example.com/open");
    assert_eq!(first.delivery_hook_url, "http://hooks.example.com/delivery");
    assert!(first.post_first_open_only);
    assert_eq!(first.inbound_domain, "");
    assert_eq!(first.inbound_hash, "yourhash");
    assert_eq!(first.inbound_spam_threshold, 5);
    assert!(!first.track_opens);
    assert_eq!(first.track_links, "None");
    assert!(first.include_bounce_content_in_hook);
    assert_eq!(first.click_hook_url, "http://hooks.example.com/click");
    assert!(!first.enable_smtp_api_error_hooks);

    let second = &listing.servers[1];
    assert_eq!(second.id, 2);
    assert_eq!(second.name, "Production02");
    assert_eq!(second.color, "green");
    assert_eq!(second.delivery_type, DeliveryType::Sandbox);
    assert_eq!(second.track_links, "HtmlAndText");
}

#[test]
fn non_success_yields_api_error_with_payload() {
    let r = interpret_response::<EditMessageStreamRequest>(
        422,
        "{\"ErrorCode\":405,\"Message\":\"details\"}",
    );
    match r {
        Err(DispatchError::Api(e)) => {
            assert_eq!(e.status, 422);
            match e.detail {
                ApiErrorDetail::Structured(p) => {
                    assert_eq!(p.error_code, 405);
                    assert_eq!(p.message, "details");
                },
                ApiErrorDetail::Raw(_) => panic!("expected the structured payload"),
            }
        },
        _ => panic!("expected an API error, not a decoding error or a success"),
    }
}

#[test]
fn non_success_falls_back_to_raw_body() {
    let r = interpret_response::<EditMessageStreamRequest>(500, "gateway exploded");
    match r {
        Err(DispatchError::Api(e)) => {
            assert_eq!(e.status, 500);
            assert_eq!(e.detail, ApiErrorDetail::Raw(String::from("gateway exploded")));
        },
        _ => panic!("expected an API error"),
    }
}

#[test]
fn missing_required_field_is_a_decode_error() {
    // `Description` is required by the edit response shape and is absent.
    let r = interpret_response::<EditMessageStreamRequest>(
        200,
        "{\"ID\":\"broadcast\",\"Name\":\"X\"}",
    );
    assert!(matches!(r, Err(DispatchError::Decode(_))));
}

#[test]
fn wrong_field_type_is_a_decode_error() {
    let r = interpret_response::<EditMessageStreamRequest>(
        200,
        "{\"ID\":7,\"Name\":\"X\",\"Description\":\"Y\"}",
    );
    assert!(matches!(r, Err(DispatchError::Decode(_))));
}

#[test]
fn unparseable_success_body_is_a_decode_error() {
    let r = interpret_response::<EditMessageStreamRequest>(200, "{\"ID\":");
    assert!(matches!(r, Err(DispatchError::Decode(_))));
}

#[test]
fn unknown_fields_may_carry_any_number() {
    // Fractional, exponent and oversized numbers in fields the response type
    // does not declare are carried through and do not fail the decode.
    let r = interpret_response::<EditMessageStreamRequest>(
        200,
        "{\"ID\":\"broadcast\",\"Name\":\"X\",\"Description\":\"Y\",\"Score\":1.5,\"Huge\":99999999999999999999999,\"Rate\":2e-3}",
    );
    let decoded = r.expect("extra numeric fields must not fail the decode");
    assert_eq!(decoded.id, "broadcast");
}

#[test]
fn declared_integer_field_rejects_a_fraction() {
    let r = interpret_response::<ListServerRequest>(
        200,
        "{\"TotalCount\":2.5,\"Servers\":[]}",
    );
    assert!(matches!(r, Err(DispatchError::Decode(_))));
}

#[test]
fn round_trip_of_documented_response() {
    let decoded = interpret_response::<EditMessageStreamRequest>(
        200,
        "{\"ID\":\"broadcast\",\"Name\":\"X\",\"Description\":\"Y\"}",
    )
    .expect("the documented shape must decode");
    assert_eq!(decoded.id, "broadcast");
    assert_eq!(decoded.name, "X");
    assert_eq!(decoded.description, "Y");
}

#[test]
fn client_config_builds_urls_and_headers() {
    let config = ClientConfig::new(
        String::from("https://api.postmarkapp.com"),
        String::from("SECRET-REDACTED"),
    );
    assert_eq!(
        config.request_url("/servers?count=1&offset=0"),
        "https://api.postmarkapp.com/servers?count=1&offset=0"
    );
    let headers = config.request_headers();
    assert_eq!(headers.len(), 3);
    assert_eq!(headers[0].0, "Accept");
    assert_eq!(headers[0].1, "application/json");
    assert_eq!(headers[1].0, "Content-Type");
    assert_eq!(headers[1].1, "application/json");
    assert_eq!(headers[2].0, "X-Postmark-Server-Token");
    assert_eq!(headers[2].1, "SECRET-REDACTED");
}
