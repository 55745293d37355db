use buzz_firstmate::json::{
    find_json_string, json_contains_exact_string, json_has_exact_string, json_required_string,
    parse_json, JsonValue,
};

fn text(value: &str) -> JsonValue {
    JsonValue::Text(value.to_string())
}

fn object(members: Vec<(&str, JsonValue)>) -> JsonValue {
    JsonValue::Object(
        members
            .into_iter()
            .map(|(name, value)| (name.to_string(), value))
            .collect(),
    )
}

#[test]
fn workspace_membership_accepts_expected_id_after_another_workspace() {
    let workspaces = object(vec![(
        "result",
        object(vec![(
            "workspaces",
            JsonValue::Array(vec![
                object(vec![("workspace_id", text("w1"))]),
                object(vec![("workspace_id", text("w2"))]),
            ]),
        )]),
    )]);
    assert!(json_contains_exact_string(
        &workspaces,
        &["workspace_id", "id"],
        "w2"
    ));
    assert!(!json_contains_exact_string(
        &workspaces,
        &["workspace_id", "id"],
        "w3"
    ));
}

#[test]
fn typed_tab_and_pane_ids_ignore_the_cli_envelope_id() {
    let tab = object(vec![
        ("id", text("cli:tab:get")),
        (
            "result",
            object(vec![(
                "tab",
                object(vec![
                    ("tab_id", text("w2:t1")),
                    ("workspace_id", text("w2")),
                ]),
            )]),
        ),
    ]);
    let pane = object(vec![
        ("id", text("cli:pane:get")),
        (
            "result",
            object(vec![(
                "pane",
                object(vec![("pane_id", text("w2:p1")), ("tab_id", text("w2:t1"))]),
            )]),
        ),
    ]);
    assert!(json_has_exact_string(&tab, &["tab_id"], "w2:t1").is_ok());
    assert!(json_has_exact_string(&pane, &["pane_id"], "w2:p1").is_ok());
}

#[test]
fn parsed_text_holds_what_it_spells() {
    let value = parse_json(
        r#"{"b": {"n": 1.5, "t": true}, "a": [null, false, "x\ty", {}], "id": "wé"}"#,
    )
    .unwrap();
    assert_eq!(value.get("id").unwrap().as_str(), Some("wé"));
    assert_eq!(
        value.get("b").unwrap().get("t").unwrap().as_bool(),
        Some(true)
    );
    assert!(matches!(
        value.get("b").unwrap().get("n"),
        Some(JsonValue::Number)
    ));
    match value.get("a") {
        Some(JsonValue::Array(items)) => {
            assert_eq!(items.len(), 4);
            assert!(matches!(items[0], JsonValue::Null));
            assert_eq!(items[1].as_bool(), Some(false));
            assert_eq!(items[2].as_str(), Some("x\ty"));
            assert!(matches!(&items[3], JsonValue::Object(members) if members.is_empty()));
        }
        other => panic!("{other:?}"),
    }
    assert!(value.get("missing").is_none());
    assert!(value.get("id").unwrap().get("x").is_none());
}

#[test]
fn parsed_order_is_that_of_serde_json() {
    let source = r#"{"z": {"id": "late"}, "a": {"id": "early"}, "m": [ {"id": "mid"} ]}"#;
    let value = parse_json(source).unwrap();
    let parsed: serde_json::Value = serde_json::from_str(source).unwrap();
    let expected: Vec<&String> = parsed.as_object().unwrap().keys().collect();
    match &value {
        JsonValue::Object(members) => {
            let names: Vec<&String> = members.iter().map(|(name, _)| name).collect();
            assert_eq!(names, expected);
        }
        other => panic!("{other:?}"),
    }
    assert_eq!(find_json_string(&value, &["id"]), Some("early"));
}

#[test]
fn malformed_text_is_refused_with_the_parser_message() {
    let message = parse_json("{\"a\": ").unwrap_err();
    assert_eq!(
        message,
        serde_json::from_str::<serde_json::Value>("{\"a\": ")
            .unwrap_err()
            .to_string()
    );
    assert!(parse_json("").is_err());
}

#[test]
fn own_members_come_before_those_below() {
    let value = object(vec![
        ("inner", object(vec![("tab_id", text("deep"))])),
        ("tab_id", text("own")),
    ]);
    assert_eq!(find_json_string(&value, &["root_tab_id", "tab_id"]), Some("own"));
    let only_below = object(vec![
        ("tab_id", JsonValue::Number),
        ("inner", object(vec![("tab_id", text("deep"))])),
    ]);
    assert_eq!(find_json_string(&only_below, &["tab_id"]), Some("deep"));
    assert_eq!(find_json_string(&text("tab_id"), &["tab_id"]), None);
}

#[test]
fn earlier_names_come_before_later_ones() {
    let value = object(vec![
        ("tab_id", text("second")),
        ("root_tab_id", text("first")),
    ]);
    assert_eq!(
        json_required_string(&value, &["root_tab_id", "tab_id"]),
        Ok("first".to_string())
    );
    assert_eq!(
        json_required_string(&value, &["root_pane_id", "pane_id"]),
        Err("Herdr response omitted required field root_pane_id or pane_id".to_string())
    );
}

#[test]
fn exact_text_is_the_first_one_found() {
    let value = JsonValue::Array(vec![
        object(vec![("pane_id", text("p1"))]),
        object(vec![("pane_id", text("p2"))]),
    ]);
    assert_eq!(json_has_exact_string(&value, &["pane_id"], "p1"), Ok(()));
    assert_eq!(
        json_has_exact_string(&value, &["pane_id"], "p2"),
        Err("Herdr response does not prove exact pane_id".to_string())
    );
    assert!(json_contains_exact_string(&value, &["pane_id"], "p2"));
}
