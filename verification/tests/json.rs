use alvr_core::json::{Json, JsonNumber};
use alvr_core::negotiation::{negotiated_config, read_negotiated, NegotiatedConfig};

fn parse(text: &str) -> Json {
    Json::parse(text).unwrap()
}

fn number(json: &Json) -> JsonNumber {
    match json {
        Json::Number(number) => *number,
        _ => panic!("not a number: {json:?}"),
    }
}

#[test]
fn text_is_parsed() {
    let json = parse(r#"{"a": [null, true, "x\n"], "b": {"c": 1}}"#);
    match json.get("a") {
        Some(Json::Array(items)) => {
            assert_eq!(items.len(), 3);
            assert!(matches!(items[0], Json::Null));
            assert!(matches!(items[1], Json::Bool(true)));
            assert!(matches!(&items[2], Json::Text(text) if text == "x\n"));
        }
        other => panic!("{other:?}"),
    }
    assert_eq!(number(json.get("b").unwrap().get("c").unwrap()), JsonNumber::PosInt(1));
    assert!(json.get("d").is_none());
    assert!(json.get("a").unwrap().get("b").is_none());
}

#[test]
fn numbers_keep_their_form() {
    assert_eq!(number(&parse("7")), JsonNumber::PosInt(7));
    assert_eq!(number(&parse("18446744073709551615")), JsonNumber::PosInt(u64::MAX));
    assert_eq!(number(&parse("-7")), JsonNumber::NegInt(-7));
    assert_eq!(number(&parse("0.5")), JsonNumber::Float(0.5f64.to_bits()));
    assert_eq!(number(&parse("-0.0")), JsonNumber::Float((-0.0f64).to_bits()));
    assert_eq!(
        number(&parse("18446744073709551616")),
        JsonNumber::Float(18446744073709551616.0f64.to_bits())
    );
}

#[test]
fn last_field_of_a_name_counts() {
    let json = parse(r#"{"a": 1, "b": 2, "a": 3}"#);
    assert_eq!(number(json.get("a").unwrap()), JsonNumber::PosInt(3));
    let json = Json::Object(vec![
        ("a".into(), Json::Bool(false)),
        ("a".into(), Json::Bool(true)),
    ]);
    assert!(matches!(json.get("a"), Some(Json::Bool(true))));
}

#[test]
fn error_text_is_that_of_the_parser() {
    let message = Json::parse("{").unwrap_err();
    assert_eq!(message, serde_json::from_str::<serde_json::Value>("{").unwrap_err().to_string());
    assert_eq!(message, "EOF while parsing an object at line 1 column 1");
}

#[test]
fn copy_says_the_same() {
    let json = parse(r#"{"a": [1, -2, 0.5, "x", {"b": null}]}"#);
    assert_eq!(format!("{:?}", json.clone()), format!("{json:?}"));
}

#[test]
fn agreement_is_read() {
    let text = r#"{
        "view_resolution": [1832, 1920],
        "refresh_rate_hint": 72.5,
        "game_audio_sample_rate": 48000,
        "other": 1
    }"#;
    assert_eq!(
        read_negotiated(text).unwrap(),
        NegotiatedConfig {
            view_resolution: (1832, 1920),
            refresh_rate_hint: JsonNumber::Float(72.5f64.to_bits()),
            game_audio_sample_rate: 48000,
        }
    );
}

#[test]
fn agreement_has_defaults() {
    let defaults = NegotiatedConfig {
        view_resolution: (0, 0),
        refresh_rate_hint: JsonNumber::Float(60.0f64.to_bits()),
        game_audio_sample_rate: 44100,
    };
    assert_eq!(read_negotiated("{}").unwrap(), defaults);
    let text = r#"{
        "view_resolution": [1, 2, 3],
        "refresh_rate_hint": "72",
        "game_audio_sample_rate": -1
    }"#;
    assert_eq!(read_negotiated(text).unwrap(), defaults);
    let text = r#"{"view_resolution": [1, 4294967296], "game_audio_sample_rate": 48000.0}"#;
    assert_eq!(read_negotiated(text).unwrap(), defaults);
    assert_eq!(negotiated_config(&parse("{}")), defaults);
}

#[test]
fn sample_rate_is_cut_to_four_bytes() {
    let text = r#"{"game_audio_sample_rate": 4294967297}"#;
    assert_eq!(read_negotiated(text).unwrap().game_audio_sample_rate, 1);
}

#[test]
fn agreement_has_to_be_an_object() {
    assert_eq!(
        read_negotiated("[]").unwrap_err(),
        "invalid type: sequence, expected a map at line 1 column 0"
    );
    assert_eq!(
        read_negotiated("{").unwrap_err(),
        "EOF while parsing an object at line 1 column 1"
    );
}

#[test]
fn object_is_parsed_like_any_value() {
    let text = r#"{"a": [1, {"b": null}], "c": -2, "a": "x"}"#;
    let object = Json::parse_object(text).unwrap();
    assert!(matches!(object.get("a"), Some(Json::Text(text)) if text == "x"));
    assert_eq!(number(object.get("c").unwrap()), JsonNumber::NegInt(-2));
    assert!(object.get("b").is_none());
    assert!(Json::parse("5").is_ok());
    assert!(Json::parse_object("5").is_err());
}
