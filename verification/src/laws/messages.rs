//! What holds of the messages to and from the server.

use vstd::prelude::*;
use crate::codec::{bytes_document, pretty_text, text_document};
use crate::events::event_text;
use crate::json::JsonView;
use crate::protocol::{
    answers, checked_payload, decoded, empty_payload_value, inclusion_event_text, message_id,
    node_payload_value, reading, refusal, request_members, result_text, says_failed,
    schema_request_value, schema_version, succeeded, Incoming, Reading, ReadingView, DEFAULT_URL,
    READ_TIMEOUT_SECONDS,
};
use crate::text::decimal;

verus! {

/// A message answers a request if and only if its member `messageId` is the text of that id.
pub proof fn answers_carry_the_id(message: JsonView, id: Seq<char>)
    ensures
        answers(message, id) <==> message.member("messageId"@) == Some(JsonView::Text(id)),
{
}

/// A message reports success if and only if its member `success` is the truth value `true`.
pub proof fn only_true_is_success(message: JsonView)
    ensures
        succeeded(message) <==> message.member("success"@) == Some(JsonView::Bool(true)),
{
}

/// The server's own words are told where its message has some, and else that they are missing.
pub proof fn refusals_are_in_the_servers_words(message: JsonView, text: Seq<char>)
    ensures
        message.member("message"@) == Some(JsonView::Text(text)) ==> refusal(message) == text,
        !(message.member("message"@) matches Some(JsonView::Text(_))) ==> refusal(message)
            == "unknown API error"@,
{
}

/// A node is held for failed if and only if the result, or its member `failed`, is the truth value
/// `true`. Nothing else counts as confirmation.
pub proof fn only_true_confirms_failure(message: JsonView)
    ensures
        says_failed(message) <==> {
            ||| message.member("result"@) == Some(JsonView::Bool(true))
            ||| message.member_of_member("result"@, "failed"@) == Some(JsonView::Bool(true))
        },
        message.member("result"@) == Some(JsonView::Bool(false)) ==> !says_failed(message),
        message.member_of_member("result"@, "failed"@) == Some(JsonView::Bool(false))
            ==> !says_failed(message),
{
}

/// Every JSON object is accepted as the payload of a call and is passed on as it is. Whatever else
/// is given is refused, each with its complaint.
pub proof fn objects_are_accepted_as_payloads(
    document: Result<JsonView, Seq<char>>,
    value: JsonView,
    complaint: Seq<char>,
)
    ensures
        checked_payload(document) == Ok::<JsonView, Seq<Seq<char>>>(value) <==> value is Object
            && document == Ok::<JsonView, Seq<char>>(value),
        document == Ok::<JsonView, Seq<char>>(value) && !(value is Object) ==> checked_payload(
            document,
        ) == Err::<JsonView, Seq<Seq<char>>>(seq!["payload must be a JSON object"@]),
        document == Err::<JsonView, Seq<char>>(complaint) ==> checked_payload(document) == Err::<
            JsonView,
            Seq<Seq<char>>,
        >(seq!["parse payload JSON"@, complaint]),
{
    assert(document == Err::<JsonView, Seq<char>>(complaint) ==> checked_payload(
        document,
    )->Err_0 =~= seq!["parse payload JSON"@, complaint]);
}

/// A frame is a message if and only if it holds JSON, and then the message is what it holds.
/// Control frames are passed over, silence is told apart, and everything else is a failure.
pub proof fn frames_are_messages_in_json(incoming: Incoming, value: JsonView)
    ensures
        reading(incoming) == ReadingView::Message(value) <==> match incoming {
            Incoming::Text(text) => text_document(text@) == Ok::<JsonView, Seq<char>>(value),
            Incoming::Binary(bytes) => bytes_document(bytes@) == Ok::<JsonView, Seq<char>>(value),
            _ => false,
        },
        reading(incoming) is Again <==> incoming is Control,
        reading(incoming) is Silent <==> incoming is TimedOut,
        match incoming {
            Incoming::Text(text) => text_document(text@) matches Err(message) ==> reading(incoming)
                == ReadingView::Failed(seq![message]),
            Incoming::Binary(bytes) => bytes_document(bytes@) matches Err(message) ==> reading(
                incoming,
            ) == ReadingView::Failed(seq![message]),
            Incoming::Close(frame) => reading(incoming) == ReadingView::Failed(
                seq!["websocket closed: "@ + frame@],
            ),
            Incoming::Control => true,
            Incoming::TimedOut(cause) => reading(incoming) == ReadingView::Silent(
                seq!["websocket read timed out"@] + cause@,
            ),
            Incoming::Ended => reading(incoming) == ReadingView::Failed(seq!["websocket closed"@]),
            Incoming::Broken(cause) => reading(incoming) == ReadingView::Failed(cause@),
        },
{
}

/// What was decoded is a message, and a complaint of the decoder is a failure.
pub proof fn what_is_decoded_is_a_message(
    document: Result<JsonView, Seq<char>>,
    value: JsonView,
    complaint: Seq<char>,
)
    ensures
        decoded(document) == ReadingView::Message(value) <==> document == Ok::<
            JsonView,
            Seq<char>,
        >(value),
        document == Err::<JsonView, Seq<char>>(complaint) ==> decoded(document)
            == ReadingView::Failed(seq![complaint]),
{
}

/// A reading is seen as what it is.
pub proof fn readings_are_seen_as_they_are(reading: Reading)
    ensures
        match reading {
            Reading::Message(json) => reading@ == ReadingView::Message(json@),
            Reading::Again => reading@ == ReadingView::Again,
            Reading::Silent(failure) => reading@ == ReadingView::Silent(failure@),
            Reading::Failed(failure) => reading@ == ReadingView::Failed(failure@),
        },
{
}

/// The id of a request is the letter `m` and the number of the request.
pub proof fn ids_tell_the_number(number: nat)
    ensures
        message_id(number).first() == 'm',
        message_id(number).drop_first() == decimal(number),
        message_id(1) == "m1"@,
        message_id(2) == "m2"@,
{
    reveal_strlit("m");
    reveal_strlit("m1");
    reveal_strlit("m2");
    reveal_strlit("0123456789abcdef");
    assert(message_id(number).drop_first() =~= decimal(number));
    assert(message_id(1) =~= "m1"@);
    assert(message_id(2) =~= "m2"@);
}

/// The names of members that requests have are different.
pub(crate) proof fn lemma_names_differ()
    ensures
        "command"@ != "messageId"@,
        "command"@ != "schemaVersion"@,
        "messageId"@ != "schemaVersion"@,
        "nodeId"@ != "command"@,
        "nodeId"@ != "messageId"@,
{
    reveal_strlit("command");
    reveal_strlit("messageId");
    reveal_strlit("schemaVersion");
    reveal_strlit("nodeId");
    assert("command"@.len() == 7);
    assert("messageId"@.len() == 9);
    assert("schemaVersion"@.len() == 13);
    assert("nodeId"@.len() == 6);
}

/// The schema request asks for the given version, under its own id, and for nothing else.
pub proof fn the_schema_request_names_the_version(version: u64, name: Seq<char>)
    ensures
        schema_request_value(version).member("command"@) == Some(
            JsonView::Text("set_api_schema"@),
        ),
        schema_request_value(version).member("messageId"@) == Some(JsonView::Text("schema"@)),
        schema_request_value(version).member("schemaVersion"@) == Some(JsonView::Unsigned(version)),
        schema_request_value(version).member(name) is Some ==> name == "command"@ || name
            == "messageId"@ || name == "schemaVersion"@,
{
    lemma_names_differ();
}

/// A request about a node names that node, its command and its id, and has no other member.
pub proof fn requests_about_a_node_name_it(
    node_id: u32,
    command: Seq<char>,
    id: Seq<char>,
    name: Seq<char>,
)
    ensures
        ({
            let request = JsonView::Object(
                request_members(node_payload_value(node_id)->Object_0, command, id),
            );
            &&& request.member("nodeId"@) == Some(JsonView::Unsigned(node_id as u64))
            &&& request.member("command"@) == Some(JsonView::Text(command))
            &&& request.member("messageId"@) == Some(JsonView::Text(id))
            &&& request.member(name) is Some ==> name == "nodeId"@ || name == "command"@ || name
                == "messageId"@
        }),
        node_payload_value(node_id).member("nodeId"@) == Some(JsonView::Unsigned(node_id as u64)),
        node_payload_value(node_id).member(name) is Some ==> name == "nodeId"@,
{
    lemma_names_differ();
}

/// A request without a payload has its command and its id, and no other member.
pub proof fn requests_without_payload_are_bare(
    command: Seq<char>,
    id: Seq<char>,
    name: Seq<char>,
)
    ensures
        ({
            let request = JsonView::Object(
                request_members(empty_payload_value()->Object_0, command, id),
            );
            &&& request.member("command"@) == Some(JsonView::Text(command))
            &&& request.member("messageId"@) == Some(JsonView::Text(id))
            &&& request.member(name) is Some ==> name == "command"@ || name == "messageId"@
        }),
        empty_payload_value() is Object,
        empty_payload_value().member(name) is None,
{
    lemma_names_differ();
}

/// The schema version is the one that the greeting names, if it names one as a number.
pub proof fn the_greeting_names_the_version(greeting: JsonView, version: u64)
    ensures
        schema_version(greeting) == Some(version) <==> greeting.member("maxSchemaVersion"@) == Some(
            JsonView::Unsigned(version),
        ),
{
}

/// Of an answer its result is printed where it has one, whatever the result is, and the whole
/// answer where raw JSON is wanted.
pub proof fn results_are_printed(message: JsonView, result: JsonView)
    ensures
        result_text(true, message) == pretty_text(message),
        message.member("result"@) == Some(result) ==> result_text(false, message) == pretty_text(
            result,
        ),
        message.member("result"@) is None ==> result_text(false, message) == "OK"@,
{
}

/// An event is printed in one line, and whole where raw JSON is wanted.
pub proof fn events_are_printed(message: JsonView)
    ensures
        inclusion_event_text(true, message) == pretty_text(message),
        inclusion_event_text(false, message) == event_text(message),
{
}

/// Where the server is looked for, and how long it may be silent.
pub proof fn defaults()
    ensures
        DEFAULT_URL@ == "ws://zwave-api.localdomain/"@,
        READ_TIMEOUT_SECONDS == 120,
{
}

} // verus!
