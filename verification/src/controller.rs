//! What the controller reports of itself and of the network.

use vstd::prelude::*;
use vstd::string::*;
use crate::json::{
    bool_member, text_of, u64_member, u64_of, value_bool, value_str, value_u64, Json, JsonView,
};
use crate::text::{
    bool_text, bool_word, decimal, decimal_text, hexadecimal_eight, hexadecimal_eight_text,
};

verus! {

/// The firmware version of a controller, `unknown` where it reports none.
pub open spec fn firmware_text(controller: JsonView) -> Seq<char> {
    match text_of(controller.member("firmwareVersion"@)) {
        Some(version) => version,
        None => "unknown"@,
    }
}

/// The home id of a controller in hexadecimal, `unknown` where it reports none.
pub open spec fn home_id_text(controller: JsonView) -> Seq<char> {
    match u64_of(controller.member("homeId"@)) {
        Some(id) => hexadecimal_eight(id as nat),
        None => "unknown"@,
    }
}

/// The firmware version.
pub fn controller_firmware(controller: &Json) -> (text: &str)
    ensures
        text@ == firmware_text(controller@),
{
    match value_str(controller, "firmwareVersion") {
        Some(version) => version,
        None => "unknown",
    }
}

/// The home id.
pub fn controller_home_id(controller: &Json) -> (text: String)
    ensures
        text@ == home_id_text(controller@),
{
    match controller.get("homeId") {
        Some(member) => match member.as_u64() {
            Some(id) => hexadecimal_eight_text(id),
            None => "unknown".to_owned(),
        },
        None => "unknown".to_owned(),
    }
}

/// The line on the controller and the size of its network.
pub open spec fn controller_line_text(
    controller: JsonView,
    nodes: nat,
    ready: nat,
) -> Seq<char> {
    "Controller "@ + firmware_text(controller) + " home="@ + home_id_text(controller) + " nodes="@
        + decimal(nodes) + " ready="@ + decimal(ready) + " rebuilding="@ + bool_text(
        bool_member(controller, "isRebuildingRoutes"@),
    )
}

/// The line on the messages that the controller sent, received and lost.
pub open spec fn traffic_line_text(statistics: JsonView) -> Seq<char> {
    "TX="@ + decimal(u64_member(statistics, "messagesTX"@) as nat) + " RX="@ + decimal(
        u64_member(statistics, "messagesRX"@) as nat,
    ) + " dropped_tx="@ + decimal(u64_member(statistics, "messagesDroppedTX"@) as nat)
        + " dropped_rx="@ + decimal(u64_member(statistics, "messagesDroppedRX"@) as nat)
        + " timeouts="@ + decimal(u64_member(statistics, "timeoutResponse"@) as nat)
}

/// The line on the controller.
pub fn controller_line(controller: &Json, nodes: usize, ready: usize) -> (line: String)
    ensures
        line@ == controller_line_text(controller@, nodes as nat, ready as nat),
{
    let mut line: String = "Controller ".to_owned();
    line.append(controller_firmware(controller));
    line.append(" home=");
    line.append(controller_home_id(controller).as_str());
    line.append(" nodes=");
    line.append(decimal_text(nodes as u64).as_str());
    line.append(" ready=");
    line.append(decimal_text(ready as u64).as_str());
    line.append(" rebuilding=");
    line.append(bool_word(value_bool(controller, "isRebuildingRoutes")));
    line
}

/// The line on the messages.
pub fn traffic_line(statistics: &Json) -> (line: String)
    ensures
        line@ == traffic_line_text(statistics@),
{
    let mut line: String = "TX=".to_owned();
    line.append(decimal_text(value_u64(statistics, "messagesTX")).as_str());
    line.append(" RX=");
    line.append(decimal_text(value_u64(statistics, "messagesRX")).as_str());
    line.append(" dropped_tx=");
    line.append(decimal_text(value_u64(statistics, "messagesDroppedTX")).as_str());
    line.append(" dropped_rx=");
    line.append(decimal_text(value_u64(statistics, "messagesDroppedRX")).as_str());
    line.append(" timeouts=");
    line.append(decimal_text(value_u64(statistics, "timeoutResponse")).as_str());
    line
}

} // verus!
