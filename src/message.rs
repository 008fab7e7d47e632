//! One decoded text frame and the rule that routes it.
use vstd::prelude::*;

verus! {

/// Declares `serde_json::Value`, which a message carries as it came.
#[verifier::external_type_specification]
#[verifier::external_body]
pub struct ExJsonValue(serde_json::Value);

/// Name of the webview event under which forwarded frames are delivered.
pub const RELAY_EVENT: &'static str = "ws-to-webview";

/// A text frame decoded as `{ "action": string, "key"?: string, "value"?: any }`.
pub struct IncomingMessage {
    pub action: String,
    pub key: Option<String>,
    pub value: Option<serde_json::Value>,
}

/// The two actions that the relay acts upon.
#[derive(Clone, Copy, Debug, PartialEq, Eq, Structural)]
pub enum MessageKind {
    AddEntry,
    SetLocalStorage,
}

/// The kind of an action tag; every other tag is ignored.
pub open spec fn kind_of(action: Seq<char>) -> Option<MessageKind> {
    if action == "addEntry"@ {
        Some(MessageKind::AddEntry)
    } else if action == "setLocalStorage"@ {
        Some(MessageKind::SetLocalStorage)
    } else {
        None
    }
}

/// What is forwarded for a text frame `text` that decoded to `message`
/// (`None` where it did not decode): the raw text itself, unchanged, when
/// the action is one of the two recognised ones, and nothing otherwise.
pub open spec fn forwarded(text: Seq<char>, message: Option<IncomingMessage>) -> Option<Seq<char>> {
    match message {
        Some(m) => if kind_of(m.action@) is Some { Some(text) } else { None },
        None => None,
    }
}

/// Recognises an action tag.
pub fn message_kind(action: &String) -> (r: Option<MessageKind>)
    ensures
        r == kind_of(action@),
{
    if *action == "addEntry".to_owned() {
        Some(MessageKind::AddEntry)
    } else if *action == "setLocalStorage".to_owned() {
        Some(MessageKind::SetLocalStorage)
    } else {
        None
    }
}

/// The payload to deliver under [`RELAY_EVENT`] for a text frame, if any.
pub fn forwarded_payload(text: &String, message: &Option<IncomingMessage>) -> (r: Option<String>)
    ensures
        r matches Some(p) ==> forwarded(text@, *message) == Some(p@),
        r is None ==> forwarded(text@, *message) is None,
{
    match message {
        Some(m) => match message_kind(&m.action) {
            Some(_) => Some(text.clone()),
            None => None,
        },
        None => None,
    }
}

} // verus!
