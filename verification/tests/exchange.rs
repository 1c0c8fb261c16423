use zwave::codec::parse_text;
use zwave::failure::Failure;
use zwave::json::Json;
use zwave::protocol::{
    accept_incoming, ensure_success, is_answer, is_failed_node_result, max_schema, node_payload,
    parse_call_payload, request_object, schema_request, schema_request_object,
    show_inclusion_event, show_result, Incoming, Reading, ZwaveClient,
};
use zwave::run::{Action, Commands, Event, Run};

fn json(text: &str) -> Json {
    parse_text(text).expect("valid JSON")
}

/// The actions, one line each.
fn lines(actions: &[Action]) -> Vec<String> {
    actions
        .iter()
        .map(|action| match action {
            Action::Send(text) => format!("send {text}"),
            Action::Receive => "receive".to_string(),
            Action::Clock(seconds) => format!("clock {seconds}"),
            Action::Listen => "listen".to_string(),
            Action::Print(line) => format!("print {line}"),
            Action::Note(line) => format!("note {line}"),
            Action::Fail(failure) => {
                format!("fail {}: {}", failure.message, failure.causes.join(": "))
            }
            Action::Finish => "finish".to_string(),
        })
        .collect()
}

fn message(text: &str) -> Event {
    Event::Message(json(text))
}

fn broken(text: &str) -> Failure {
    Failure::new(text.to_string())
}

/// A run that the server has greeted and agreed with, and the first request of its task.
fn connected(raw_json: bool, task: Commands) -> (Run, Vec<String>) {
    let progress = Run::start(raw_json, task).step(message(r#"{"maxSchemaVersion": 35}"#));
    assert_eq!(
        lines(&progress.actions),
        [
            r#"send {"command":"set_api_schema","messageId":"schema","schemaVersion":35}"#,
            "receive"
        ]
    );
    let progress = progress.run.step(message(r#"{"messageId": "other", "success": false}"#));
    assert_eq!(lines(&progress.actions), ["receive"]);
    let progress = progress.run.step(message(r#"{"messageId": "schema", "success": true}"#));
    let actions = lines(&progress.actions);
    (progress.run, actions)
}

#[test]
fn parse_call_payload_accepts_json_objects_only() {
    assert_eq!(
        parse_call_payload(r#"{"nodeId": 7}"#).expect("object"),
        Json::Object(vec![("nodeId".to_string(), Json::Unsigned(7))])
    );
    assert!(parse_call_payload("[1,2]").is_err());
    assert!(parse_call_payload("not json").is_err());
}

#[test]
fn ensure_success_accepts_true_and_reports_message() {
    assert!(ensure_success(&json(r#"{"success": true}"#)).is_ok());

    let err = ensure_success(&json(r#"{"success": false, "message": "bad"}"#))
        .expect_err("failure")
        .message;
    assert_eq!(err, "bad");
}

#[test]
fn failed_node_result_accepts_nested_or_plain_result() {
    assert!(is_failed_node_result(&json(r#"{"result": {"failed": true}}"#)));
    assert!(is_failed_node_result(&json(r#"{"result": true}"#)));
    assert!(!is_failed_node_result(&json(r#"{"result": {"failed": false}}"#)));
}

#[test]
fn payload_errors_say_what_is_wrong() {
    let not_object = parse_call_payload("[1,2]").expect_err("array");
    assert_eq!(not_object.message, "payload must be a JSON object");
    assert!(not_object.causes.is_empty());
    let not_json = parse_call_payload("not json").expect_err("text");
    assert_eq!(not_json.message, "parse payload JSON");
    assert_eq!(not_json.causes, ["expected ident at line 1 column 2"]);
}

#[test]
fn success_must_be_true() {
    for text in ["{}", r#"{"success": 1}"#, r#"{"success": null}"#, "[]"] {
        let err = ensure_success(&json(text)).expect_err("failure");
        assert_eq!(err, broken("unknown API error"));
    }
    assert!(!is_failed_node_result(&json(r#"{"result": "true"}"#)));
    assert!(!is_failed_node_result(&json("{}")));
    assert!(is_answer(&json(r#"{"messageId": "m1"}"#), "m1"));
    assert!(!is_answer(&json(r#"{"messageId": "m1"}"#), "m2"));
    assert!(!is_answer(&json("{}"), "m1"));
}

#[test]
fn requests_are_numbered_objects() {
    let mut client = ZwaveClient::new();
    let request = client
        .request("node.ping", json(r#"{"nodeId": 5, "command": "x", "a": [1]}"#))
        .ok()
        .expect("object");
    assert_eq!(request.command, "node.ping");
    assert_eq!(request.message_id, "m1");
    assert_eq!(
        request.text,
        r#"{"a":[1],"command":"node.ping","messageId":"m1","nodeId":5}"#
    );
    let err = client.request("node.ping", Json::Null).err().expect("null");
    assert_eq!(err, broken("payload must be a JSON object"));
    let request = client.request("node.ping", node_payload(6)).ok().expect("object");
    assert_eq!(request.message_id, "m3");
    assert_eq!(client.next_id, 4);
}

#[test]
fn greeting_names_the_schema() {
    assert_eq!(max_schema(&json(r#"{"maxSchemaVersion": 35}"#)), Ok(35));
    assert_eq!(
        max_schema(&json(r#"{"maxSchemaVersion": "35"}"#)),
        Err(broken(
            r#"server did not send maxSchemaVersion: {"maxSchemaVersion":"35"}"#
        ))
    );
    assert_eq!(
        schema_request(7),
        r#"{"command":"set_api_schema","messageId":"schema","schemaVersion":7}"#
    );
}

#[test]
fn frames_are_read_as_messages() {
    fn read(incoming: Incoming) -> Result<Json, Failure> {
        match accept_incoming(incoming) {
            Reading::Message(json) => Ok(json),
            Reading::Again => Err(broken("again")),
            Reading::Silent(failure) => Err(failure.context("silent".to_string())),
            Reading::Failed(failure) => Err(failure),
        }
    }
    assert_eq!(read(Incoming::Text("7".to_string())), Ok(Json::Unsigned(7)));
    assert_eq!(read(Incoming::Binary(b"true".to_vec())), Ok(Json::Bool(true)));
    assert_eq!(
        read(Incoming::Text("".to_string())),
        Err(broken("EOF while parsing a value at line 1 column 0"))
    );
    assert!(read(Incoming::Binary(vec![0xff])).is_err());
    assert_eq!(read(Incoming::Control), Err(broken("again")));
    assert_eq!(
        read(Incoming::Close("None".to_string())),
        Err(broken("websocket closed: None"))
    );
    assert_eq!(read(Incoming::Ended), Err(broken("websocket closed")));
    assert_eq!(
        read(Incoming::TimedOut(broken("deadline has elapsed"))),
        Err(Failure {
            message: "silent".to_string(),
            causes: vec![
                "websocket read timed out".to_string(),
                "deadline has elapsed".to_string(),
            ],
        })
    );
    assert_eq!(read(Incoming::Broken(broken("reset"))), Err(broken("reset")));
}

#[test]
fn results_are_shown_whole_or_in_part() {
    let answer = json(r#"{"result": {"responded": true}, "success": true}"#);
    assert_eq!(show_result(false, &answer), "{\n  \"responded\": true\n}");
    assert_eq!(
        show_result(true, &answer),
        "{\n  \"result\": {\n    \"responded\": true\n  },\n  \"success\": true\n}"
    );
    assert_eq!(show_result(false, &json(r#"{"success": true}"#)), "OK");
    assert_eq!(show_inclusion_event(false, &json(r#"{"event": "e", "nodeId": 1}"#)), "e: node=1");
    assert_eq!(show_inclusion_event(true, &json("[]")), "[]");
}

#[test]
fn status_is_reported() {
    let (run, actions) = connected(false, Commands::Status);
    assert_eq!(
        actions,
        [r#"send {"command":"start_listening","messageId":"m1"}"#, "receive"]
    );
    let progress = run.step(message(
        r#"{"messageId": "m1", "success": true, "result": {"state": {
            "controller": {"firmwareVersion": "1.2", "homeId": 255, "statistics": {"messagesTX": 9}},
            "nodes": [{"ready": true, "status": 4}, {"status": 3}]}}}"#,
    ));
    assert_eq!(
        lines(&progress.actions),
        [
            "print Controller 1.2 home=000000ff nodes=2 ready=1 rebuilding=false",
            "print TX=9 RX=0 dropped_tx=0 dropped_rx=0 timeouts=0",
            "print Status: alive=1 dead=1",
            "finish"
        ]
    );
    let progress = progress.run.step(message("{}"));
    assert!(progress.actions.is_empty());
}

#[test]
fn state_without_nodes_is_a_failure() {
    for task in [Commands::Status, Commands::Nodes { dead: false }, Commands::Dead] {
        let (run, _) = connected(false, task);
        let progress = run.step(message(
            r#"{"messageId": "m1", "success": true, "result": {"state": {"nodes": {}}}}"#,
        ));
        assert_eq!(lines(&progress.actions), ["fail state did not contain nodes: "]);
    }
    let (run, _) = connected(true, Commands::Status);
    let progress = run.step(message(r#"{"messageId": "m1", "success": true}"#));
    assert_eq!(
        lines(&progress.actions),
        ["print {\n  \"messageId\": \"m1\",\n  \"success\": true\n}", "finish"]
    );
    let (run, _) = connected(true, Commands::Dead);
    let progress = run.step(message(r#"{"messageId": "m1", "success": true}"#));
    assert_eq!(lines(&progress.actions), ["fail state did not contain nodes: "]);
}

#[test]
fn dead_lists_what_nodes_dead_lists() {
    let answer = r#"{"messageId": "m1", "success": true, "result": {"state": {"nodes": [
        {"nodeId": 1, "ready": true, "status": 4}, {"nodeId": 2, "ready": true, "status": 3}]}}}"#;
    let (run, actions) = connected(false, Commands::Dead);
    let dead = lines(&run.step(message(answer)).actions);
    assert_eq!(
        dead,
        [
            "print NODE  STATUS   READY   LISTENING SLEEP    LABEL",
            "print 2     dead     true    false     false    -",
            "finish"
        ]
    );
    let (run, same) = connected(false, Commands::Nodes { dead: true });
    assert_eq!(actions, same);
    assert_eq!(lines(&run.step(message(answer)).actions), dead);
    let (run, _) = connected(false, Commands::Nodes { dead: false });
    assert_eq!(run.step(message(answer)).actions.len(), 4);
    let (run, _) = connected(true, Commands::Dead);
    assert_eq!(
        lines(&run.step(message(answer)).actions),
        [
            "print [\n  {\n    \"nodeId\": 2,\n    \"ready\": true,\n    \"status\": 3\n  }\n]",
            "finish"
        ]
    );
}

#[test]
fn single_requests_show_their_answer() {
    let tasks = [
        (Commands::Ping { node_id: 27 }, r#"{"command":"node.ping","messageId":"m1","nodeId":27}"#),
        (
            Commands::IsFailed { node_id: 4 },
            r#"{"command":"controller.is_failed_node","messageId":"m1","nodeId":4}"#,
        ),
        (
            Commands::RebuildRoutes,
            r#"{"command":"controller.begin_rebuilding_routes","messageId":"m1"}"#,
        ),
        (
            Commands::Call {
                command: "driver.x".to_string(),
                payload: r#"{"z": 1}"#.to_string(),
            },
            r#"{"command":"driver.x","messageId":"m1","z":1}"#,
        ),
    ];
    for (task, text) in tasks {
        let (run, actions) = connected(false, task);
        assert_eq!(actions, [format!("send {text}"), "receive".to_string()]);
        let progress = run.step(message(r#"{"messageId": "m1", "success": true, "result": 1}"#));
        assert_eq!(lines(&progress.actions), ["print 1", "finish"]);
    }
}

#[test]
fn calls_need_an_object() {
    let call = |payload: &str| Commands::Call {
        command: "driver.x".to_string(),
        payload: payload.to_string(),
    };
    let (_, actions) = connected(false, call("[1,2]"));
    assert_eq!(actions, ["fail payload must be a JSON object: "]);
    let (_, actions) = connected(false, call("not json"));
    assert_eq!(
        actions,
        ["fail parse payload JSON: expected ident at line 1 column 2"]
    );
}

#[test]
fn removal_waits_for_confirmation() {
    let (run, actions) = connected(false, Commands::RemoveFailed { node_id: 4 });
    assert_eq!(
        actions,
        [r#"send {"command":"controller.is_failed_node","messageId":"m1","nodeId":4}"#, "receive"]
    );
    let progress = run.step(message(
        r#"{"messageId": "m1", "success": true, "result": {"failed": true}}"#,
    ));
    assert_eq!(
        lines(&progress.actions),
        [
            r#"send {"command":"controller.remove_failed_node","messageId":"m2","nodeId":4}"#,
            "receive"
        ]
    );
    let progress = progress.run.step(message(r#"{"messageId": "m1", "success": true}"#));
    assert_eq!(lines(&progress.actions), ["receive"]);
    let progress = progress.run.step(message(r#"{"messageId": "m2", "success": true}"#));
    assert_eq!(lines(&progress.actions), ["print OK", "finish"]);

    let (run, _) = connected(false, Commands::RemoveFailed { node_id: 4 });
    let progress = run.step(message(
        r#"{"messageId": "m1", "success": true, "result": {"failed": false}}"#,
    ));
    assert_eq!(
        lines(&progress.actions),
        ["fail node 4 is not marked failed by the controller: "]
    );
}

#[test]
fn inclusion_listens_until_the_deadline() {
    let (run, actions) = connected(false, Commands::Include { timeout: 60 });
    assert_eq!(
        actions,
        [r#"send {"command":"controller.begin_inclusion","messageId":"m1"}"#, "receive"]
    );
    let progress = run.step(message(r#"{"messageId": "m1", "success": true}"#));
    assert_eq!(
        lines(&progress.actions),
        [
            "print OK",
            "note Inclusion started; listening for 60s...",
            "clock 60",
            "listen"
        ]
    );
    let progress = progress.run.step(message(r#"{"event": "node added", "nodeId": 3}"#));
    assert_eq!(lines(&progress.actions), ["print node added: node=3", "listen"]);
    let progress = progress.run.step(Event::Deadline);
    assert_eq!(
        lines(&progress.actions),
        [r#"send {"command":"controller.stop_inclusion","messageId":"m2"}"#, "receive"]
    );
    let progress = progress.run.step(message(r#"{"event": "late"}"#));
    assert_eq!(lines(&progress.actions), ["receive"]);
    let progress = progress.run.step(message(r#"{"messageId": "m2", "success": true}"#));
    assert_eq!(
        lines(&progress.actions),
        ["note Inclusion stopped.", "print OK", "finish"]
    );
}

#[test]
fn failures_say_what_was_being_done() {
    let start = || Run::start(false, Commands::Include { timeout: 1 });
    let lost = || Event::ReadFailed(broken("lost"));
    assert_eq!(lines(&start().step(lost()).actions), ["fail lost: "]);
    assert_eq!(
        lines(&start().step(message("{}")).actions),
        ["fail server did not send maxSchemaVersion: {}: "]
    );
    let greeted = || start().step(message(r#"{"maxSchemaVersion": 1}"#)).run;
    assert_eq!(
        lines(&greeted().step(Event::SendFailed(broken("lost"))).actions),
        ["fail lost: "]
    );
    assert_eq!(
        lines(&greeted().step(message(r#"{"messageId": "schema", "message": "no"}"#)).actions),
        ["fail no: "]
    );
    let asked = || connected(false, Commands::Include { timeout: 1 }).0;
    assert_eq!(
        lines(&asked().step(lost()).actions),
        ["fail start inclusion: wait for controller.begin_inclusion: lost"]
    );
    assert_eq!(
        lines(&asked().step(Event::SendFailed(broken("lost"))).actions),
        ["fail start inclusion: send controller.begin_inclusion: lost"]
    );
    assert_eq!(
        lines(&asked().step(message(r#"{"messageId": "m1", "success": false}"#)).actions),
        ["fail start inclusion: unknown API error"]
    );
    let listening = || asked().step(message(r#"{"messageId": "m1", "success": true}"#)).run;
    assert_eq!(
        lines(&listening().step(lost()).actions),
        ["fail read inclusion event: lost"]
    );
    let stopping = || listening().step(Event::Deadline).run;
    assert_eq!(
        lines(&stopping().step(message(r#"{"messageId": "m2", "message": "bad"}"#)).actions),
        ["fail stop inclusion: bad"]
    );
    let pinging = connected(false, Commands::Ping { node_id: 1 }).0;
    assert_eq!(
        lines(&pinging.step(lost()).actions),
        ["fail wait for node.ping: lost"]
    );
}

#[test]
fn requests_are_objects_with_command_and_id() {
    let request = request_object(json(r#"{"nodeId": 5}"#), "node.ping", "m9").expect("object");
    assert_eq!(request.get("nodeId"), Some(&Json::Unsigned(5)));
    assert_eq!(request.get("command").and_then(Json::as_str), Some("node.ping"));
    assert_eq!(request.get("messageId").and_then(Json::as_str), Some("m9"));
    assert_eq!(
        request_object(json("[]"), "node.ping", "m9"),
        Err(broken("payload must be a JSON object"))
    );
    assert_eq!(
        schema_request_object(3).get("schemaVersion"),
        Some(&Json::Unsigned(3))
    );
}

#[test]
fn raw_answers_are_printed_as_they_came() {
    let whole = "print {\n  \"messageId\": \"m1\",\n  \"result\": 1,\n  \"success\": true\n}";
    let answer = r#"{"messageId": "m1", "success": true, "result": 1}"#;
    let (run, _) = connected(true, Commands::Ping { node_id: 1 });
    assert_eq!(lines(&run.step(message(answer)).actions), [whole, "finish"]);
    let (run, _) = connected(true, Commands::Include { timeout: 0 });
    let progress = run.step(message(answer));
    assert_eq!(lines(&progress.actions)[0], whole);
    let progress = progress.run.step(message(r#"{"event": "e", "nodeId": 1}"#));
    assert_eq!(
        lines(&progress.actions),
        ["print {\n  \"event\": \"e\",\n  \"nodeId\": 1\n}", "listen"]
    );
}

#[test]
fn the_deadline_counts_only_while_listening() {
    let progress = Run::start(false, Commands::Status).step(Event::Deadline);
    assert_eq!(lines(&progress.actions), ["receive"]);
    let (run, _) = connected(false, Commands::Status);
    assert_eq!(lines(&run.step(Event::Deadline).actions), ["receive"]);
}

#[test]
fn silence_does_not_keep_inclusion_from_being_stopped() {
    let silence = || Event::Silent(broken("websocket read timed out"));
    let (run, _) = connected(false, Commands::Include { timeout: 300 });
    let progress = run.step(message(r#"{"messageId": "m1", "success": true}"#));
    assert_eq!(lines(&progress.actions)[2..], ["clock 300", "listen"]);
    let progress = progress.run.step(silence());
    assert_eq!(lines(&progress.actions), ["listen"]);
    let progress = progress.run.step(silence());
    assert_eq!(lines(&progress.actions), ["listen"]);
    let progress = progress.run.step(Event::Deadline);
    assert_eq!(
        lines(&progress.actions),
        [r#"send {"command":"controller.stop_inclusion","messageId":"m2"}"#, "receive"]
    );
    let progress = progress.run.step(message(r#"{"messageId": "m2", "success": true}"#));
    assert_eq!(
        lines(&progress.actions),
        ["note Inclusion stopped.", "print OK", "finish"]
    );
}

#[test]
fn silence_while_an_answer_is_awaited_is_a_failure() {
    let silence = || Event::Silent(broken("websocket read timed out"));
    let start = || Run::start(false, Commands::Status);
    assert_eq!(
        lines(&start().step(silence()).actions),
        ["fail websocket read timed out: "]
    );
    let greeted = start().step(message(r#"{"maxSchemaVersion": 1}"#)).run;
    assert_eq!(
        lines(&greeted.step(silence()).actions),
        ["fail websocket read timed out: "]
    );
    let (run, _) = connected(false, Commands::Include { timeout: 1 });
    assert_eq!(
        lines(&run.step(silence()).actions),
        ["fail start inclusion: wait for controller.begin_inclusion: websocket read timed out"]
    );
}
