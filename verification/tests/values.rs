use zwave::codec::{compact, parse_bytes, parse_text, pretty, pretty_list};
use zwave::controller::{controller_firmware, controller_home_id, controller_line, traffic_line};
use zwave::counts::{format_counts, StatusCounts};
use zwave::events::format_inclusion_event;
use zwave::json::{set_member, value_bool, value_u64, Json};
use zwave::nodes::{
    list_nodes, node_id, node_label, node_status, status_name, summarize_network, table_head,
    table_row,
};
use zwave::text::{decimal_text, hexadecimal_eight_text, is_below, pad};

fn json(text: &str) -> Json {
    parse_text(text).expect("valid JSON")
}

#[test]
fn value_helpers_default_missing_or_wrong_types() {
    let value = json(r#"{"ready": true, "count": 42}"#);

    assert!(value_bool(&value, "ready"));
    assert!(!value_bool(&value, "missing"));
    assert_eq!(value_u64(&value, "count"), 42);
    assert_eq!(value_u64(&value, "ready"), 0);
}

#[test]
fn summarize_network_counts_ready_and_status_names() {
    let nodes = vec![
        json(r#"{"ready": true, "status": 4}"#),
        json(r#"{"ready": false, "status": 3}"#),
        json(r#"{"ready": false, "status": 99}"#),
        json(r#"{"ready": false}"#),
    ];

    let summary = summarize_network(&nodes);

    assert_eq!(summary.ready_nodes, 1);
    assert_eq!(summary.status_counts.get("alive"), Some(1));
    assert_eq!(summary.status_counts.get("dead"), Some(1));
    assert_eq!(summary.status_counts.get("99"), Some(1));
    assert_eq!(summary.status_counts.get("unknown"), Some(1));
    assert_eq!(
        format_counts(&summary.status_counts),
        "99=1 alive=1 dead=1 unknown=1"
    );
}

#[test]
fn controller_helpers_format_defaults() {
    const HOME_ID: u64 = 0x1abc;
    let controller = Json::Object(vec![
        ("firmwareVersion".to_string(), Json::Text("1.2.3".to_string())),
        ("homeId".to_string(), Json::Unsigned(HOME_ID)),
    ]);

    assert_eq!(controller_firmware(&controller), "1.2.3");
    assert_eq!(controller_home_id(&controller), "00001abc");
    assert_eq!(controller_firmware(&json("{}")), "unknown");
    assert_eq!(controller_home_id(&json("{}")), "unknown");
}

#[test]
fn node_label_prefers_name_then_device_config() {
    assert_eq!(
        node_label(&json(
            r#"{
                "name": "Front Door",
                "deviceConfig": {"manufacturer": "Zooz", "label": "Sensor"}
            }"#
        )),
        "Front Door (Zooz Sensor)"
    );
    assert_eq!(node_label(&json(r#"{"name": "Front Door"}"#)), "Front Door");
    assert_eq!(
        node_label(&json(
            r#"{"deviceConfig": {"manufacturer": "Zooz", "label": "Sensor"}}"#
        )),
        "Zooz Sensor"
    );
    assert_eq!(node_label(&json("{}")), "-");
}

#[test]
fn format_inclusion_event_uses_available_fields() {
    assert_eq!(
        format_inclusion_event(&json(
            r#"{"event": "node added", "node": {"nodeId": 12}, "status": "done"}"#
        )),
        "node added: node=12 status=done"
    );
    assert_eq!(
        format_inclusion_event(&json(r#"{"type": "step", "nodeId": 13}"#)),
        "step: node=13"
    );
    assert_eq!(
        format_inclusion_event(&json(r#"{"event": "done", "result": "ok"}"#)),
        "done: status=ok"
    );
    assert_eq!(
        format_inclusion_event(&json(r#"{"payload": true}"#)),
        r#"message: {"payload":true}"#
    );
}

#[test]
fn events_fall_back_only_where_a_member_is_missing() {
    assert_eq!(
        format_inclusion_event(&json(r#"{"event": 1, "type": "step", "nodeId": 2}"#)),
        "message: node=2"
    );
    assert_eq!(
        format_inclusion_event(&json(
            r#"{"type": "x", "node": {"nodeId": "a"}, "nodeId": 5, "status": 1, "result": "r"}"#
        )),
        r#"x: {"node":{"nodeId":"a"},"nodeId":5,"result":"r","status":1,"type":"x"}"#
    );
    assert_eq!(
        format_inclusion_event(&json(r#"{"type": "x", "node": [4], "nodeId": 5}"#)),
        "x: node=5"
    );
}

#[test]
fn labels_need_a_device_unless_there_is_a_name() {
    assert_eq!(node_label(&json(r#"{"deviceConfig": {"label": "Sensor"}}"#)), "Sensor");
    assert_eq!(node_label(&json(r#"{"deviceConfig": {"manufacturer": "Zooz"}}"#)), "-");
    assert_eq!(
        node_label(&json(r#"{"name": "Hall", "deviceConfig": {"label": "Sensor"}}"#)),
        "Hall"
    );
    assert_eq!(node_label(&json(r#"{"name": 7}"#)), "-");
    assert_eq!(node_label(&json("[]")), "-");
}

#[test]
fn statuses_have_names() {
    let names: Vec<String> = (0..6).map(|n| status_name(&Json::Unsigned(n))).collect();
    assert_eq!(names, ["unknown", "asleep", "awake", "dead", "alive", "5"]);
    assert_eq!(status_name(&Json::Unsigned(u64::MAX)), "18446744073709551615");
    assert_eq!(status_name(&json("-1")), "unknown");
    assert_eq!(status_name(&json("4.0")), "unknown");
    assert_eq!(status_name(&json("\"dead\"")), "unknown");
    assert_eq!(node_status(&json(r#"{"status": 2}"#)), "awake");
    assert_eq!(node_status(&json("{}")), "unknown");
}

#[test]
fn dead_listing_keeps_order_and_drops_the_rest() {
    let nodes = vec![
        json(r#"{"nodeId": 1, "ready": true, "status": 4}"#),
        json(r#"{"nodeId": 2, "ready": true, "status": 3}"#),
        json(r#"{"nodeId": 3, "ready": false, "status": 4}"#),
        json(r#"{"nodeId": 4}"#),
        json(r#"{"nodeId": 5, "ready": true}"#),
    ];
    let all: Vec<u64> = list_nodes(&nodes, false).iter().map(|n| node_id(n)).collect();
    let dead: Vec<u64> = list_nodes(&nodes, true).iter().map(|n| node_id(n)).collect();
    assert_eq!(all, [1, 2, 3, 4, 5]);
    assert_eq!(dead, [2, 3, 4]);
    assert_eq!(
        pretty_list(&list_nodes(&nodes[3..4], true)),
        "[\n  {\n    \"nodeId\": 4\n  }\n]"
    );
    assert_eq!(pretty_list(&Vec::new()), "[]");
}

#[test]
fn table_columns_are_filled_up() {
    assert_eq!(table_head(), "NODE  STATUS   READY   LISTENING SLEEP    LABEL");
    assert_eq!(
        table_row(&json(
            r#"{"nodeId": 12, "status": 4, "ready": true, "isListening": true, "name": "Hall"}"#
        )),
        "12    alive    true    true      false    Hall"
    );
    assert_eq!(
        table_row(&json(r#"{"nodeId": 1234567, "status": 18446744073709551615}"#)),
        "1234567 18446744073709551615 false   false     false    -"
    );
    assert_eq!(pad("\u{e9}t\u{e9}".to_string(), 5), "\u{e9}t\u{e9}  ");
    assert_eq!(pad("abc".to_string(), 2), "abc");
}

#[test]
fn report_lines_show_what_the_controller_counts() {
    let controller = json(r#"{"firmwareVersion": "7.1", "homeId": 3735928559, "isRebuildingRoutes": true}"#);
    assert_eq!(
        controller_line(&controller, 3, 2),
        "Controller 7.1 home=deadbeef nodes=3 ready=2 rebuilding=true"
    );
    assert_eq!(
        controller_line(&Json::Null, 0, 0),
        "Controller unknown home=unknown nodes=0 ready=0 rebuilding=false"
    );
    assert_eq!(
        traffic_line(&json(
            r#"{"messagesTX": 1, "messagesRX": 2, "messagesDroppedTX": 3,
                "messagesDroppedRX": 4, "timeoutResponse": 5}"#
        )),
        "TX=1 RX=2 dropped_tx=3 dropped_rx=4 timeouts=5"
    );
    assert_eq!(
        traffic_line(&json(r#"{"messagesTX": -1, "messagesRX": "2"}"#)),
        "TX=0 RX=0 dropped_tx=0 dropped_rx=0 timeouts=0"
    );
}

#[test]
fn numbers_are_written_out() {
    assert_eq!(decimal_text(0), "0");
    assert_eq!(decimal_text(1002003), "1002003");
    assert_eq!(decimal_text(u64::MAX), format!("{}", u64::MAX));
    assert_eq!(hexadecimal_eight_text(0), "00000000");
    assert_eq!(hexadecimal_eight_text(0xffff_ffff), "ffffffff");
    assert_eq!(hexadecimal_eight_text(0x1_2345_6789), "123456789");
    assert_eq!(hexadecimal_eight_text(u64::MAX), format!("{:08x}", u64::MAX));
}

#[test]
fn texts_are_ordered_as_strings_are() {
    let texts = ["", "1", "10", "9", "99", "alive", "alive2", "awake", "dead", "\u{e9}", "\u{10000}"];
    for a in texts {
        for b in texts {
            assert_eq!(is_below(a, b), a < b);
        }
    }
}

#[test]
fn counts_do_not_depend_on_the_order_of_recording() {
    let forth = StatusCounts::new()
        .record("dead".to_string())
        .record("alive".to_string())
        .record("dead".to_string());
    let back = StatusCounts::new()
        .record("dead".to_string())
        .record("dead".to_string())
        .record("alive".to_string());
    assert_eq!(format_counts(&forth), "alive=1 dead=2");
    assert_eq!(format_counts(&back), "alive=1 dead=2");
    assert_eq!(forth.get("dead"), Some(2));
    assert_eq!(forth.get("asleep"), None);
    assert_eq!(format_counts(&StatusCounts::new()), "");
}

#[test]
fn json_text_is_decoded() {
    assert_eq!(
        json(r#" {"b": [null, true, 1, "x"], "a": {}} "#),
        Json::Object(vec![
            ("a".to_string(), Json::Object(vec![])),
            (
                "b".to_string(),
                Json::Array(vec![
                    Json::Null,
                    Json::Bool(true),
                    Json::Unsigned(1),
                    Json::Text("x".to_string()),
                ])
            ),
        ])
    );
    assert_eq!(json("-5"), Json::Number(serde_json::Number::from(-5)));
    assert_eq!(json("-5").as_u64(), None);
    assert_eq!(json("1.5").as_u64(), None);
    assert_eq!(Json::Number(serde_json::Number::from(7u64)).as_u64(), Some(7));
    assert_eq!(
        parse_text("not json"),
        Err("expected ident at line 1 column 2".to_string())
    );
    assert_eq!(parse_bytes(b"[1]"), Ok(Json::Array(vec![Json::Unsigned(1)])));
    assert!(parse_bytes(b"\xff").is_err());
}

#[test]
fn json_values_are_written() {
    let text = r#"{"a":-5,"b":[null,true,18446744073709551615,"x\n"],"c":0.1}"#;
    assert_eq!(compact(&json(text)), text);
    assert_eq!(pretty(&json(r#"{"a": [1]}"#)), "{\n  \"a\": [\n    1\n  ]\n}");
    let mut members = vec![("a".to_string(), Json::Null)];
    set_member(&mut members, "a", Json::Unsigned(2));
    let object = Json::Object(members);
    assert_eq!(object.get("a"), Some(&Json::Unsigned(2)));
    assert_eq!(compact(&object), r#"{"a":2}"#);
}

#[test]
fn accessors_tell_kinds_apart() {
    let value = json(r#"{"t": "x", "l": [1], "o": {}, "n": null, "b": true}"#);
    assert_eq!(value.get("t").and_then(Json::as_str), Some("x"));
    assert_eq!(value.get("l").and_then(Json::as_str), None);
    assert_eq!(value.get("l").and_then(Json::as_array).map(|l| l.len()), Some(1));
    assert!(value.get("t").and_then(Json::as_array).is_none());
    assert!(value.get("o").is_some_and(|o| o.is_object()));
    assert!(!value.get("n").is_some_and(|n| n.is_object()));
    assert_eq!(value.get("b").and_then(Json::as_bool), Some(true));
    assert_eq!(value.get("x"), None);
    assert_eq!(json("[1]").get("0"), None);
}

#[test]
fn counts_of_zero_are_shown() {
    let counts = StatusCounts::new()
        .set("9".to_string(), 2)
        .set("10".to_string(), 1)
        .set("alive".to_string(), 0);
    assert_eq!(format_counts(&counts), "10=1 9=2 alive=0");
    assert_eq!(counts.get("alive"), Some(0));
    assert_eq!(counts.get("dead"), None);
    let counts = counts.record("alive".to_string()).set("9".to_string(), 5);
    assert_eq!(format_counts(&counts), "10=1 9=5 alive=1");
}
