//! The messages between the client and the server.

use vstd::prelude::*;
use vstd::string::*;
use crate::codec::{
    bytes_document, compact, compact_text, document_view, parse_bytes, parse_text, pretty,
    pretty_text, text_document,
};
use crate::events::{event_text, format_inclusion_event};
use crate::failure::{in_context, Failure};
use crate::json::{
    bool_of, members_view, set_member, text_of, u64_of, value_str, Json, JsonView,
};
use crate::text::{decimal, decimal_text};

verus! {

/// Where the server is looked for unless told otherwise.
pub const DEFAULT_URL: &'static str = "ws://zwave-api.localdomain/";

/// How many seconds the client waits for a message.
pub const READ_TIMEOUT_SECONDS: u64 = 120;

/// What came in over the websocket.
pub enum Incoming {
    /// A text frame.
    Text(String),
    /// A binary frame.
    Binary(Vec<u8>),
    /// A closing frame, described in words.
    Close(String),
    /// A frame that carries no message.
    Control,
    /// Nothing within the time limit.
    TimedOut(Failure),
    /// The end of the stream.
    Ended,
    /// An error of the connection.
    Broken(Failure),
}

/// What to do about something that came in.
pub enum Reading {
    /// A message is complete.
    Message(Json),
    /// There is no message yet.
    Again,
    /// Nothing was heard within the time limit.
    Silent(Failure),
    /// No message will come.
    Failed(Failure),
}

/// The value of [`Reading`].
pub enum ReadingView {
    Message(JsonView),
    Again,
    Silent(Seq<Seq<char>>),
    Failed(Seq<Seq<char>>),
}

impl View for Reading {
    type V = ReadingView;

    open spec fn view(&self) -> ReadingView {
        match self {
            Reading::Message(json) => ReadingView::Message(json@),
            Reading::Again => ReadingView::Again,
            Reading::Silent(failure) => ReadingView::Silent(failure@),
            Reading::Failed(failure) => ReadingView::Failed(failure@),
        }
    }
}

/// What comes of decoding a frame: a message, or a failure with the decoder's words.
pub open spec fn decoded(document: Result<JsonView, Seq<char>>) -> ReadingView {
    match document {
        Ok(value) => ReadingView::Message(value),
        Err(message) => ReadingView::Failed(seq![message]),
    }
}

/// What to do about something that came in: text and binary frames are messages in JSON, a
/// closing frame or the end of the stream is a failure, and other frames do not count. A time
/// limit that passes is silence, which is told apart from a failure of the connection.
pub open spec fn reading(incoming: Incoming) -> ReadingView {
    match incoming {
        Incoming::Text(text) => decoded(text_document(text@)),
        Incoming::Binary(bytes) => decoded(bytes_document(bytes@)),
        Incoming::Close(frame) => ReadingView::Failed(seq!["websocket closed: "@ + frame@]),
        Incoming::Control => ReadingView::Again,
        Incoming::TimedOut(cause) => ReadingView::Silent(
            in_context("websocket read timed out"@, cause@),
        ),
        Incoming::Ended => ReadingView::Failed(seq!["websocket closed"@]),
        Incoming::Broken(cause) => ReadingView::Failed(cause@),
    }
}

/// What to do about a decoded frame.
pub fn accept_decoded(document: Result<Json, String>) -> (reading: Reading)
    ensures
        reading@ == decoded(document_view(document)),
{
    match document {
        Ok(json) => Reading::Message(json),
        Err(message) => Reading::Failed(Failure::new(message)),
    }
}

/// What to do about something that came in.
pub fn accept_incoming(incoming: Incoming) -> (result: Reading)
    ensures
        result@ == reading(incoming),
{
    match incoming {
        Incoming::Text(text) => accept_decoded(parse_text(text.as_str())),
        Incoming::Binary(bytes) => accept_decoded(parse_bytes(bytes.as_slice())),
        Incoming::Close(frame) => {
            let mut message: String = "websocket closed: ".to_owned();
            message.append(frame.as_str());
            Reading::Failed(Failure::new(message))
        },
        Incoming::Control => Reading::Again,
        Incoming::TimedOut(cause) => Reading::Silent(
            cause.context("websocket read timed out".to_owned()),
        ),
        Incoming::Ended => Reading::Failed(Failure::new("websocket closed".to_owned())),
        Incoming::Broken(cause) => Reading::Failed(cause),
    }
}

/// Whether the message answers the request with that id.
pub open spec fn answers(message: JsonView, id: Seq<char>) -> bool {
    text_of(message.member("messageId"@)) == Some(id)
}

/// Whether the server did what it was asked.
pub open spec fn succeeded(message: JsonView) -> bool {
    bool_of(message.member("success"@)) == Some(true)
}

/// What the server says went wrong.
pub open spec fn refusal(message: JsonView) -> Seq<char> {
    match text_of(message.member("message"@)) {
        Some(text) => text,
        None => "unknown API error"@,
    }
}

/// Whether the controller holds the node for failed.
pub open spec fn says_failed(message: JsonView) -> bool {
    bool_of(message.member_of_member("result"@, "failed"@)) == Some(true) || bool_of(
        message.member("result"@),
    ) == Some(true)
}

/// Whether the message answers the request with that id.
pub fn is_answer(message: &Json, id: &str) -> (b: bool)
    ensures
        b == answers(message@, id@),
{
    match value_str(message, "messageId") {
        Some(text) => text.to_owned() == id.to_owned(),
        None => false,
    }
}

/// Fails with the server's words unless the server did what it was asked.
pub fn ensure_success(value: &Json) -> (result: Result<(), Failure>)
    ensures
        result is Ok <==> succeeded(value@),
        result is Err ==> result->Err_0@ == seq![refusal(value@)],
{
    let success: bool = match value.get("success") {
        Some(member) => match member.as_bool() {
            Some(b) => b,
            None => false,
        },
        None => false,
    };
    if success {
        return Ok(());
    }
    let message: &str = match value_str(value, "message") {
        Some(text) => text,
        None => "unknown API error",
    };
    Err(Failure::new(message.to_owned()))
}

/// Whether the controller holds the node for failed.
pub fn is_failed_node_result(value: &Json) -> (b: bool)
    ensures
        b == says_failed(value@),
{
    match value.get("result") {
        Some(result) => {
            let nested: bool = match result.get("failed") {
                Some(failed) => match failed.as_bool() {
                    Some(b) => b,
                    None => false,
                },
                None => false,
            };
            let plain: bool = match result.as_bool() {
                Some(b) => b,
                None => false,
            };
            nested || plain
        },
        None => false,
    }
}

/// What comes of the payload of a call: the decoder's words, or a complaint unless it is an object.
pub open spec fn checked_payload(
    document: Result<JsonView, Seq<char>>,
) -> Result<JsonView, Seq<Seq<char>>> {
    match document {
        Ok(value) => if value is Object {
            Ok(value)
        } else {
            Err(seq!["payload must be a JSON object"@])
        },
        Err(message) => Err(in_context("parse payload JSON"@, seq![message])),
    }
}

/// The values of a result with a JSON value or a failure.
pub open spec fn payload_view(payload: Result<Json, Failure>) -> Result<JsonView, Seq<Seq<char>>> {
    match payload {
        Ok(json) => Ok(json@),
        Err(failure) => Err(failure@),
    }
}

/// The payload of a call, from what was decoded.
pub fn check_call_payload(document: Result<Json, String>) -> (payload: Result<Json, Failure>)
    ensures
        payload_view(payload) == checked_payload(document_view(document)),
{
    match document {
        Ok(value) => {
            if !value.is_object() {
                return Err(Failure::new("payload must be a JSON object".to_owned()));
            }
            Ok(value)
        },
        Err(message) => Err(Failure::new(message).context("parse payload JSON".to_owned())),
    }
}

/// The payload of a call, from its text.
pub fn parse_call_payload(payload: &str) -> (value: Result<Json, Failure>)
    ensures
        payload_view(value) == checked_payload(text_document(payload@)),
{
    check_call_payload(parse_text(payload))
}

/// A request, ready to be sent.
pub struct Request {
    pub command: String,
    pub message_id: String,
    pub text: String,
}

/// The id of the request with that number.
pub open spec fn message_id(number: nat) -> Seq<char> {
    "m"@ + decimal(number)
}

/// A payload as a request: with the command and the id as members.
pub open spec fn request_members(
    payload: Map<Seq<char>, JsonView>,
    command: Seq<char>,
    id: Seq<char>,
) -> Map<Seq<char>, JsonView> {
    payload.insert("command"@, JsonView::Text(command)).insert("messageId"@, JsonView::Text(id))
}

/// The request that asks the server to speak a version of its schema.
pub open spec fn schema_request_value(version: u64) -> JsonView {
    JsonView::Object(
        map![
            "command"@ => JsonView::Text("set_api_schema"@),
            "messageId"@ => JsonView::Text("schema"@),
            "schemaVersion"@ => JsonView::Unsigned(version),
        ],
    )
}

/// The payload that names a node.
pub open spec fn node_payload_value(node_id: u32) -> JsonView {
    JsonView::Object(map!["nodeId"@ => JsonView::Unsigned(node_id as u64)])
}

/// The payload without members.
pub open spec fn empty_payload_value() -> JsonView {
    JsonView::Object(Map::empty())
}

/// The payload as a request: with the command and the id as members.
pub fn request_object(payload: Json, command: &str, id: &str) -> (request: Result<Json, Failure>)
    ensures
        payload_view(request) == match payload@ {
            JsonView::Object(members) => Ok::<JsonView, Seq<Seq<char>>>(
                JsonView::Object(request_members(members, command@, id@)),
            ),
            _ => Err(seq!["payload must be a JSON object"@]),
        },
{
    match payload {
        Json::Object(members) => {
            let mut members: Vec<(String, Json)> = members;
            set_member(&mut members, "command", Json::Text(command.to_owned()));
            set_member(&mut members, "messageId", Json::Text(id.to_owned()));
            Ok(Json::Object(members))
        },
        _ => Err(Failure::new("payload must be a JSON object".to_owned())),
    }
}

/// The client: it numbers its requests.
pub struct ZwaveClient {
    pub next_id: u64,
}

impl ZwaveClient {
    /// A client that has made no request.
    pub fn new() -> (client: ZwaveClient)
        ensures
            client.next_id == 1,
    {
        ZwaveClient { next_id: 1 }
    }

    /// The next request: its number is used up even where the payload is not an object.
    pub fn request(&mut self, command: &str, payload: Json) -> (request: Result<Request, Failure>)
        requires
            old(self).next_id < u64::MAX,
        ensures
            final(self).next_id == old(self).next_id + 1,
            request is Ok <==> payload@ is Object,
            match request {
                Ok(request) => {
                    &&& request.command@ == command@
                    &&& request.message_id@ == message_id(old(self).next_id as nat)
                    &&& request.text@ == compact_text(
                        JsonView::Object(
                            request_members(
                                payload@->Object_0,
                                command@,
                                message_id(old(self).next_id as nat),
                            ),
                        ),
                    )
                },
                Err(failure) => failure@ == seq!["payload must be a JSON object"@],
            },
    {
        let mut id: String = "m".to_owned();
        id.append(decimal_text(self.next_id).as_str());
        self.next_id = self.next_id + 1;
        match request_object(payload, command, id.as_str()) {
            Ok(object) => {
                let text: String = compact(&object);
                Ok(Request { command: command.to_owned(), message_id: id, text })
            },
            Err(failure) => Err(failure),
        }
    }
}

/// The request that asks the server to speak a version of its schema.
pub fn schema_request_object(version: u64) -> (request: Json)
    ensures
        request@ == schema_request_value(version),
{
    let mut members: Vec<(String, Json)> = Vec::new();
    set_member(&mut members, "command", Json::Text("set_api_schema".to_owned()));
    set_member(&mut members, "messageId", Json::Text("schema".to_owned()));
    set_member(&mut members, "schemaVersion", Json::Unsigned(version));
    Json::Object(members)
}

/// The request that asks the server to speak a version of its schema, as text.
pub fn schema_request(version: u64) -> (text: String)
    ensures
        text@ == compact_text(schema_request_value(version)),
{
    compact(&schema_request_object(version))
}

/// The payload that names a node.
pub fn node_payload(node_id: u32) -> (payload: Json)
    ensures
        payload@ == node_payload_value(node_id),
{
    let mut members: Vec<(String, Json)> = Vec::new();
    set_member(&mut members, "nodeId", Json::Unsigned(node_id as u64));
    Json::Object(members)
}

/// The payload without members.
pub fn empty_payload() -> (payload: Json)
    ensures
        payload@ == empty_payload_value(),
{
    let members: Vec<(String, Json)> = Vec::new();
    assert(members_view(members@) == Map::<Seq<char>, JsonView>::empty());
    Json::Object(members)
}

/// The newest schema version that the server speaks, from its greeting.
pub open spec fn schema_version(greeting: JsonView) -> Option<u64> {
    u64_of(greeting.member("maxSchemaVersion"@))
}

/// The newest schema version that the server speaks, from its greeting.
pub fn max_schema(greeting: &Json) -> (version: Result<u64, Failure>)
    ensures
        match version {
            Ok(version) => schema_version(greeting@) == Some(version),
            Err(failure) => {
                &&& schema_version(greeting@) is None
                &&& failure@ == seq![
                    "server did not send maxSchemaVersion: "@ + compact_text(greeting@),
                ]
            },
        },
{
    if let Some(member) = greeting.get("maxSchemaVersion") {
        if let Some(version) = member.as_u64() {
            return Ok(version);
        }
    }
    let mut message: String = "server did not send maxSchemaVersion: ".to_owned();
    message.append(compact(greeting).as_str());
    Err(Failure::new(message))
}

/// What is printed of an answer: the answer whole, or its result, or that it has none.
pub open spec fn result_text(raw_json: bool, message: JsonView) -> Seq<char> {
    if raw_json {
        pretty_text(message)
    } else {
        match message.member("result"@) {
            Some(value) => pretty_text(value),
            None => "OK"@,
        }
    }
}

/// What is printed of an event: the event whole, or in one line.
pub open spec fn inclusion_event_text(raw_json: bool, message: JsonView) -> Seq<char> {
    if raw_json {
        pretty_text(message)
    } else {
        event_text(message)
    }
}

/// What is printed of an answer.
pub fn show_result(raw_json: bool, result: &Json) -> (text: String)
    ensures
        text@ == result_text(raw_json, result@),
{
    if raw_json {
        pretty(result)
    } else if let Some(value) = result.get("result") {
        pretty(value)
    } else {
        "OK".to_owned()
    }
}

/// What is printed of an event.
pub fn show_inclusion_event(raw_json: bool, value: &Json) -> (text: String)
    ensures
        text@ == inclusion_event_text(raw_json, value@),
{
    if raw_json {
        return pretty(value);
    }
    format_inclusion_event(value)
}

} // verus!
