use postmark::json::Json;
use postmark::json::get_bool;
use postmark::json::get_int;
use postmark::json::get_str;
use postmark::json::parse_json;

#[test]
fn parses_scalars() {
    assert_eq!(parse_json("null"), Some(Json::Null));
    assert_eq!(parse_json("true"), Some(Json::Bool(true)));
    assert_eq!(parse_json("false"), Some(Json::Bool(false)));
    assert_eq!(parse_json("123"), Some(Json::Int(123)));
    assert_eq!(parse_json("-5"), Some(Json::Int(-5)));
    assert_eq!(parse_json("  42  "), Some(Json::Int(42)));
    assert_eq!(parse_json("\"hi\""), Some(Json::Text(String::from("hi"))));
}

#[test]
fn parses_escapes() {
    assert_eq!(
        parse_json("\"a\\n\\t\\\\\\\"b\""),
        Some(Json::Text(String::from("a\n\t\\\"b")))
    );
    assert_eq!(parse_json("\"\\u0041\""), Some(Json::Text(String::from("A"))));
    assert_eq!(parse_json("\"a\\u00e9b\""), Some(Json::Text(String::from("a\u{e9}b"))));
    assert_eq!(parse_json("\"\\u0159\""), Some(Json::Text(String::from("\u{159}"))));
    assert_eq!(
        parse_json("\"\\uD83D\\uDE00\""),
        Some(Json::Text(String::from("\u{1F600}")))
    );
    assert_eq!(parse_json("\"\\uDE00\""), None);
}

#[test]
fn parses_arrays_and_objects() {
    assert_eq!(
        parse_json("[1, 2, 3]"),
        Some(Json::Arr(vec![Json::Int(1), Json::Int(2), Json::Int(3)]))
    );
    assert_eq!(parse_json("[]"), Some(Json::Arr(vec![])));
    assert_eq!(parse_json("{}"), Some(Json::Obj(vec![])));
    assert_eq!(
        parse_json("{\"a\": 1, \"b\": [true, null]}"),
        Some(Json::Obj(vec![
            (String::from("a"), Json::Int(1)),
            (
                String::from("b"),
                Json::Arr(vec![Json::Bool(true), Json::Null])
            ),
        ]))
    );
}

#[test]
fn rejects_malformed_documents() {
    assert_eq!(parse_json(""), None);
    assert_eq!(parse_json("{"), None);
    assert_eq!(parse_json("[1,]"), None);
    assert_eq!(parse_json("{\"a\"}"), None);
    assert_eq!(parse_json("1 2"), None);
    assert_eq!(parse_json("nul"), None);
    assert_eq!(parse_json("\"unterminated"), None);
}

#[test]
fn numbers_outside_the_integer_model_are_kept_as_text() {
    assert_eq!(parse_json("1.5"), Some(Json::BigNum(String::from("1.5"))));
    assert_eq!(parse_json("1e9"), Some(Json::BigNum(String::from("1e9"))));
    assert_eq!(parse_json("-2.5E-3"), Some(Json::BigNum(String::from("-2.5E-3"))));
    assert_eq!(
        parse_json("99999999999999999999999"),
        Some(Json::BigNum(String::from("99999999999999999999999")))
    );
    assert_eq!(parse_json("9223372036854775807"), Some(Json::Int(i64::MAX)));
    assert_eq!(parse_json("-9223372036854775807"), Some(Json::Int(-i64::MAX)));
    assert_eq!(parse_json("-9223372036854775808"), Some(Json::Int(i64::MIN)));
    assert_eq!(
        parse_json("9223372036854775808"),
        Some(Json::BigNum(String::from("9223372036854775808")))
    );
    assert_eq!(parse_json("01"), None);
    assert_eq!(parse_json("1."), None);
    assert_eq!(parse_json("1e"), None);
}

#[test]
fn object_lookup_takes_the_first_member() {
    let parsed = parse_json("{\"a\": \"x\", \"a\": \"y\", \"n\": 7, \"f\": false}").unwrap();
    match parsed {
        Json::Obj(fields) => {
            assert_eq!(get_str(&fields, "a"), Some(String::from("x")));
            assert_eq!(get_int(&fields, "n"), Some(7));
            assert_eq!(get_bool(&fields, "f"), Some(false));
            assert_eq!(get_str(&fields, "missing"), None);
            assert_eq!(get_int(&fields, "a"), None);
        },
        _ => panic!("expected an object"),
    }
}
