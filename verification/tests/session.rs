use alvr_core::extrapolation::{
    can_extrapolate, extrapolate_session_settings_from_session_settings,
};
use alvr_core::json::Json;
use alvr_core::schema::{NumberType, SchemaEntry, SchemaNode, SchemaVariant};
use alvr_core::session::{ConnectionState, OpenvrConfig, ParsedSession, SessionConfig};
use alvr_core::settings::{can_convert, json_session_settings_to_settings};

fn parse(text: &str) -> Json {
    Json::parse(text).unwrap()
}

fn same(a: &Json, b: &Json) -> bool {
    match (a, b) {
        (Json::Null, Json::Null) => true,
        (Json::Bool(a), Json::Bool(b)) => a == b,
        (Json::Number(a), Json::Number(b)) => a == b,
        (Json::Text(a), Json::Text(b)) => a == b,
        (Json::Array(a), Json::Array(b)) => {
            a.len() == b.len() && a.iter().zip(b).all(|(a, b)| same(a, b))
        }
        (Json::Object(a_fields), Json::Object(b_fields)) => {
            let covers = |fields: &Vec<(String, Json)>, other: &Json, whole: &Json| {
                fields.iter().all(|(name, _)| match (whole.get(name), other.get(name)) {
                    (Some(value), Some(other_value)) => same(value, other_value),
                    _ => false,
                })
            };
            covers(a_fields, b, a) && covers(b_fields, a, b)
        }
        _ => false,
    }
}

fn assert_same(a: &Json, b: &str) {
    assert!(same(a, &parse(b)), "{a:?} is not {b}");
}

fn entry(name: &str, content: SchemaNode) -> SchemaEntry {
    SchemaEntry { name: name.into(), content }
}

fn variant(name: &str, content: Option<SchemaNode>) -> SchemaVariant {
    SchemaVariant { name: name.into(), content }
}

fn switch(content: SchemaNode) -> SchemaNode {
    SchemaNode::Switch { content: Box::new(content) }
}

/// A schema with every kind of setting.
fn schema() -> SchemaNode {
    SchemaNode::Section(vec![
        entry(
            "video",
            SchemaNode::Section(vec![
                entry("preferred_fps", SchemaNode::Number { ty: NumberType::Float }),
                entry("adapter_index", SchemaNode::Number { ty: NumberType::UnsignedInteger }),
                entry("offset", SchemaNode::Number { ty: NumberType::SignedInteger }),
                entry(
                    "bitrate",
                    SchemaNode::Choice {
                        variants: vec![
                            variant(
                                "ConstantMbps",
                                Some(SchemaNode::Number { ty: NumberType::UnsignedInteger }),
                            ),
                            variant("Automatic", None),
                        ],
                    },
                ),
            ]),
        ),
        entry(
            "headset",
            SchemaNode::Section(vec![
                entry(
                    "controllers",
                    switch(SchemaNode::Section(vec![entry("is_tracker", SchemaNode::Boolean)])),
                ),
                entry("name", SchemaNode::Optional { content: Box::new(SchemaNode::Text) }),
            ]),
        ),
        entry("offsets", SchemaNode::Array(vec![SchemaNode::Boolean, SchemaNode::Text])),
        entry(
            "hosts",
            SchemaNode::Vector { default_element: Box::new(SchemaNode::Text) },
        ),
        entry(
            "options",
            SchemaNode::Dictionary { default_value: Box::new(switch(SchemaNode::Boolean)) },
        ),
    ])
}

const DEFAULT_SETTINGS: &str = r#"{
    "gui_collapsed": false,
    "video": {
        "gui_collapsed": true,
        "preferred_fps": 72.0,
        "adapter_index": 0,
        "offset": -3,
        "bitrate": { "variant": "Automatic", "ConstantMbps": 30 }
    },
    "headset": {
        "gui_collapsed": true,
        "controllers": {
            "enabled": true,
            "content": { "gui_collapsed": false, "is_tracker": false }
        },
        "name": { "set": false, "content": "none" }
    },
    "offsets": [true, "left"],
    "hosts": { "element": "localhost", "content": ["a", "b"] },
    "options": {
        "key": "k",
        "value": { "enabled": false, "content": true },
        "content": [["x", { "enabled": true, "content": false }]]
    }
}"#;

fn settings() -> Json {
    parse(DEFAULT_SETTINGS)
}

fn default_session() -> SessionConfig {
    SessionConfig::initial("20.0.0".into(), settings())
}

/// The default session as it is stored.
fn stored_session() -> Json {
    Json::Object(vec![
        ("server_version".into(), Json::Text("20.0.0".into())),
        ("drivers_backup".into(), Json::Null),
        ("openvr_config".into(), parse(r#"{"eye_resolution_width": 800}"#)),
        ("client_connections".into(), parse("{}")),
        ("session_settings".into(), settings()),
    ])
}

fn extrapolate(new: &str) -> Json {
    let new = parse(new);
    assert!(can_extrapolate(&settings(), &new, &schema()));
    extrapolate_session_settings_from_session_settings(&settings(), &new, &schema())
}

#[test]
fn test_manual_session_to_settings() {
    let settings = json_session_settings_to_settings(&settings(), &schema());
    assert_same(
        &settings,
        r#"{
            "video": {
                "preferred_fps": 72.0,
                "adapter_index": 0,
                "offset": -3,
                "bitrate": "Automatic"
            },
            "headset": {
                "controllers": { "Enabled": { "is_tracker": false } },
                "name": null
            },
            "offsets": [true, "left"],
            "hosts": ["a", "b"],
            "options": [["x", { "Enabled": false }]]
        }"#,
    );
}

#[test]
fn test_session_to_settings() {
    let settings = default_session().to_settings(&schema());
    assert!(same(&settings, &json_session_settings_to_settings(&self::settings(), &schema())));
}

#[test]
fn test_session_extrapolation_trivial() {
    let mut session = default_session();
    session
        .merge_from_json(ParsedSession::Whole(default_session()), default_session())
        .unwrap();
    assert!(same(&session.session_settings, &settings()));

    let plan =
        SessionConfig::plan_merge(&stored_session(), &stored_session(), &settings(), &schema());
    assert!(same(&plan.session, &stored_session()));
    assert!(same(&plan.session_settings.unwrap(), &settings()));
}

#[test]
fn test_session_extrapolation_diff() {
    let input_json_string = r#"{
            "session_settings": {
              "gui_collapsed": false,
              "fjdshfks": false,
              "video": {
                "preferred_fps": 60.0
              },
              "headset": {
                "gui_collapsed": false,
                "controllers": {
                  "enabled": false
                }
              }
            }
          }"#;

    let plan = SessionConfig::plan_merge(
        &stored_session(),
        &parse(input_json_string),
        &settings(),
        &schema(),
    );
    assert!(same(&plan.session, &stored_session()));
    let session_settings = plan.session_settings.unwrap();
    assert!(session_settings.get("fjdshfks").is_none());
    assert!(can_convert(&session_settings, &schema()));

    let mut session = default_session();
    session
        .merge_from_json(
            ParsedSession::Parts {
                session: Some(default_session()),
                session_settings: Ok(session_settings),
            },
            default_session(),
        )
        .unwrap();
    let settings = session.to_settings(&schema());
    assert_same(settings.get("video").unwrap().get("preferred_fps").unwrap(), "60.0");
    assert_same(settings.get("headset").unwrap().get("controllers").unwrap(), "\"Disabled\"");
    assert_same(
        session.session_settings.get("headset").unwrap(),
        r#"{
            "gui_collapsed": false,
            "controllers": {
                "enabled": false,
                "content": { "gui_collapsed": false, "is_tracker": false }
            },
            "name": { "set": false, "content": "none" }
        }"#,
    );
}

#[test]
fn silence_changes_nothing() {
    for new in ["null", "{}", "[]", "\"x\"", "{\"unknown\": 1}"] {
        assert!(same(&extrapolate(new), &settings()));
    }
}

#[test]
fn own_settings_are_kept() {
    assert!(same(&extrapolate(DEFAULT_SETTINGS), &settings()));
}

#[test]
fn conforming_settings_are_taken_over() {
    let new = DEFAULT_SETTINGS
        .replace("72.0", "90.5")
        .replace("\"Automatic\"", "\"ConstantMbps\"")
        .replace("-3", "12")
        .replace("\"set\": false", "\"set\": true")
        .replace("[\"a\", \"b\"]", "[]")
        .replace("\"k\"", "\"key\"");
    let result = extrapolate(&new);
    assert!(!same(&result, &settings()));
    assert_same(&result, &new);
    assert!(can_extrapolate(&Json::Null, &parse(&new), &schema()));
    assert_same(
        &extrapolate_session_settings_from_session_settings(&Json::Null, &parse(&new), &schema()),
        &new,
    );
}

#[test]
fn parts_of_the_wrong_type_are_not_used() {
    let result = extrapolate(
        r#"{
            "gui_collapsed": 1,
            "video": {
                "preferred_fps": "60",
                "bitrate": { "variant": "Unknown", "ConstantMbps": true }
            },
            "headset": { "controllers": { "enabled": "no" }, "name": { "content": 5 } },
            "options": { "key": 1 }
        }"#,
    );
    assert!(same(&result, &settings()));
}

#[test]
fn numbers_have_to_be_of_the_type_of_the_setting() {
    let result = extrapolate(
        r#"{
            "video": {
                "preferred_fps": 60,
                "adapter_index": 2.7,
                "offset": 1.0,
                "bitrate": { "ConstantMbps": 1e3 }
            }
        }"#,
    );
    assert!(same(&result, &settings()));
    let result = extrapolate(
        r#"{"video": {"adapter_index": -1, "offset": 9223372036854775808}}"#,
    );
    assert!(same(&result, &settings()));
    let result = extrapolate(
        r#"{
            "video": {
                "preferred_fps": 60.5,
                "adapter_index": 18446744073709551615,
                "offset": 9223372036854775807,
                "bitrate": { "ConstantMbps": 9007199254740993 }
            }
        }"#,
    );
    assert_same(
        result.get("video").unwrap(),
        r#"{
            "gui_collapsed": true,
            "preferred_fps": 60.5,
            "adapter_index": 18446744073709551615,
            "offset": 9223372036854775807,
            "bitrate": { "variant": "Automatic", "ConstantMbps": 9007199254740993 }
        }"#,
    );
}

#[test]
fn unsigned_number_stays_when_the_new_one_is_not() {
    let schema = SchemaNode::Number { ty: NumberType::UnsignedInteger };
    let old = parse("5");
    for (new, expected) in [("2.7", "5"), ("-1", "5"), ("3.0", "5"), ("null", "5"), ("7", "7")] {
        let result =
            extrapolate_session_settings_from_session_settings(&old, &parse(new), &schema);
        assert_same(&result, expected);
    }
}

#[test]
fn variant_is_chosen_by_name() {
    let result = extrapolate(r#"{"video": {"bitrate": {"variant": "ConstantMbps"}}}"#);
    assert_same(
        result.get("video").unwrap().get("bitrate").unwrap(),
        r#"{ "variant": "ConstantMbps", "ConstantMbps": 30 }"#,
    );
    let settings = json_session_settings_to_settings(&result, &schema());
    assert_same(
        settings.get("video").unwrap().get("bitrate").unwrap(),
        r#"{ "ConstantMbps": 30 }"#,
    );
}

#[test]
fn items_of_arrays_have_to_be_of_the_right_type() {
    let schema = SchemaNode::Array(vec![SchemaNode::Boolean]);
    let result = extrapolate_session_settings_from_session_settings(
        &parse("[true]"),
        &parse(r#"["x"]"#),
        &schema,
    );
    assert_same(&result, "[true]");
    let result = extrapolate(r#"{"offsets": [5]}"#);
    assert!(same(&result, &settings()));
    let result = extrapolate(r#"{"offsets": [false, 1, 2]}"#);
    assert_same(result.get("offsets").unwrap(), r#"[false, "left"]"#);
    let result = extrapolate(r#"{"offsets": [null, "right"]}"#);
    assert_same(result.get("offsets").unwrap(), r#"[true, "right"]"#);
}

#[test]
fn sections_in_arrays_have_to_say_what_is_collapsed() {
    let section = SchemaNode::Section(vec![entry("on", SchemaNode::Boolean)]);
    let schema = SchemaNode::Array(vec![section]);
    let old = parse(r#"[{"gui_collapsed": true, "on": false}]"#);
    let new = parse(r#"[{"on": true, "off": 1}]"#);
    assert!(can_extrapolate(&old, &new, &schema));
    let result = extrapolate_session_settings_from_session_settings(&old, &new, &schema);
    assert_same(&result, r#"[{"gui_collapsed": true, "on": true}]"#);
    assert!(!can_extrapolate(&parse("[{}]"), &new, &schema));
    assert!(can_extrapolate(&parse("[{}]"), &parse("[]"), &schema));
}

#[test]
fn contents_are_taken_as_they_are() {
    let result = extrapolate(
        r#"{
            "hosts": { "content": [1, 2] },
            "options": { "key": "q", "content": {} }
        }"#,
    );
    assert_same(result.get("hosts").unwrap(), r#"{"element": "localhost", "content": [1, 2]}"#);
    assert_same(
        result.get("options").unwrap(),
        r#"{"key": "q", "value": {"enabled": false, "content": true}, "content": {}}"#,
    );
    assert!(!can_convert(&result, &schema()));
}

#[test]
fn working_in_twice_changes_nothing() {
    let new = r#"{
        "video": { "preferred_fps": 60.0, "bitrate": { "variant": "ConstantMbps" } },
        "offsets": [false, 3],
        "hosts": { "content": [1] }
    }"#;
    let once = extrapolate(new);
    let twice =
        extrapolate_session_settings_from_session_settings(&once, &parse(new), &schema());
    assert!(!same(&once, &settings()));
    assert!(same(&once, &twice));
}

#[test]
fn branches_out_of_use_do_not_matter() {
    let changed = extrapolate(
        r#"{
            "gui_collapsed": true,
            "video": { "bitrate": { "ConstantMbps": 99 } },
            "headset": { "name": { "content": "other" } },
            "hosts": { "element": "elsewhere" },
            "options": { "key": "other", "value": { "enabled": true } }
        }"#,
    );
    assert!(!same(&changed, &settings()));
    assert!(same(
        &json_session_settings_to_settings(&changed, &schema()),
        &json_session_settings_to_settings(&settings(), &schema())
    ));
}

#[test]
fn branches_out_of_use_do_not_matter_inside_contents() {
    let with = |content: &str| {
        let changed = extrapolate(&format!(r#"{{"options": {{"content": {content}}}}}"#));
        json_session_settings_to_settings(&changed, &schema())
    };
    let one = with(r#"[["x", {"enabled": false, "content": true}]]"#);
    let other = with(r#"[["x", {"enabled": false, "content": false}]]"#);
    assert!(same(&one, &other));
    assert!(!same(&one, &with(r#"[["x", {"enabled": true, "content": true}]]"#)));
    assert!(!same(&one, &with(r#"[["y", {"enabled": false, "content": true}]]"#)));
}

#[test]
fn old_settings_have_to_say_what_is_collapsed() {
    let old = parse(r#"{"a": true}"#);
    let schema = SchemaNode::Section(vec![entry("a", SchemaNode::Boolean)]);
    assert!(!can_extrapolate(&old, &parse("{}"), &schema));
    let new = parse(r#"{"gui_collapsed": true}"#);
    assert!(can_extrapolate(&old, &new, &schema));
    assert_same(
        &extrapolate_session_settings_from_session_settings(&old, &new, &schema),
        r#"{"a": true, "gui_collapsed": true}"#,
    );
    assert!(!can_extrapolate(&old, &new, &SchemaNode::Unsupported));
}

#[test]
fn branches_in_use_have_to_be_known() {
    let optional = SchemaNode::Optional { content: Box::new(SchemaNode::Text) };
    assert!(!can_convert(&parse("{}"), &optional));
    let set = parse(r#"{"set": true, "content": "x"}"#);
    assert!(can_convert(&set, &optional));
    assert_same(&json_session_settings_to_settings(&set, &optional), "\"x\"");

    let dictionary = SchemaNode::Dictionary { default_value: Box::new(SchemaNode::Boolean) };
    assert!(can_convert(&parse(r#"{"content": [["a", 1]]}"#), &dictionary));
    assert!(!can_convert(&parse(r#"{"content": [["a", 1, 2]]}"#), &dictionary));
    assert!(!can_convert(&parse(r#"{"content": [[1, 2]]}"#), &dictionary));

    let choice = SchemaNode::Choice { variants: vec![variant("A", None)] };
    assert!(!can_convert(&parse(r#"{"variant": 1}"#), &choice));
    let unknown = parse(r#"{"variant": "B"}"#);
    assert!(can_convert(&unknown, &choice));
    assert_same(&json_session_settings_to_settings(&unknown, &choice), "\"B\"");
    assert!(!can_convert(&unknown, &SchemaNode::Unsupported));
}

#[test]
fn fields_of_a_stored_session_are_taken_over() {
    let stored = parse(r#"{"server_version": "19.0.0", "unknown": 1, "session_settings": {}}"#);
    let plan = SessionConfig::plan_merge(&stored_session(), &stored, &Json::Null, &schema());
    assert_same(plan.session.get("server_version").unwrap(), "\"19.0.0\"");
    assert_same(plan.session.get("drivers_backup").unwrap(), "null");
    assert!(plan.session.get("unknown").is_none());
    assert!(matches!(plan.session.get("session_settings"), Some(Json::Null)));
    assert!(same(&plan.session_settings.unwrap(), &settings()));

    let plan = SessionConfig::plan_merge(&stored_session(), &Json::Null, &settings(), &schema());
    assert!(plan.session_settings.is_none());
    assert!(same(&plan.session, &stored_session()));
}

#[test]
fn session_without_readable_settings_is_reported() {
    let mut session = default_session();
    let mut rebuilt = default_session();
    rebuilt.server_version = "19.0.0".into();
    let result = session.merge_from_json(
        ParsedSession::Parts { session: Some(rebuilt), session_settings: Err("no".into()) },
        default_session(),
    );
    assert_eq!(
        result.unwrap_err(),
        "Error while deserializing extrapolated session settings: no"
    );
    assert_eq!(session.server_version, "19.0.0");
}

#[test]
fn initial_session_stands_in_for_unreadable_fields() {
    let mut session = default_session();
    session.server_version = "1.0.0".into();
    let result = session.merge_from_json(
        ParsedSession::Parts { session: None, session_settings: Ok(Json::Bool(true)) },
        default_session(),
    );
    assert!(result.is_ok());
    assert_eq!(session.server_version, "20.0.0");
    assert!(matches!(session.session_settings, Json::Bool(true)));
}

#[test]
fn initial_session_has_no_clients() {
    let session = default_session();
    assert!(session.client_connections.is_empty());
    assert!(session.drivers_backup.is_none());
    let config = session.openvr_config;
    assert_eq!((config.eye_resolution_width, config.eye_resolution_height), (800, 900));
    assert_eq!(
        (config.target_eye_resolution_width, config.target_eye_resolution_height),
        (800, 900)
    );
    assert_eq!(config.refresh_rate, 60);
    assert_eq!(config.capture_frame_dir, "/tmp");
    assert_eq!(config.nvenc_refresh_rate, 0);
    assert_eq!(OpenvrConfig::default().refresh_rate, 0);
    assert_eq!(OpenvrConfig::default().capture_frame_dir, "");
}

#[test]
fn connection_states_are_compared() {
    assert_eq!(ConnectionState::Streaming, ConnectionState::Streaming);
    assert_ne!(
        ConnectionState::Disconnecting { should_be_removed: true },
        ConnectionState::Disconnecting { should_be_removed: false }
    );
}
