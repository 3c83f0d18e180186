//! The lines that signal-cli writes.

use crate::json::{
    Json, JsonView, entry, entry_trees, field_of, get, json_document, opt_tree, parse_json, text,
    text_of, tree, trees,
};
use crate::model::Aci;
use crate::text::{opt_view, same, trim, trimmed};
use vstd::prelude::*;

verus! {

/// A message from somebody.
#[derive(Debug, PartialEq)]
pub struct Incoming {
    pub from: Aci,
    pub text: String,
}

/// What a line says.
#[derive(Debug)]
pub enum Frame {
    /// The answer to a call, or the reason it was rejected for.
    Response { id: String, result: Result<Json, String> },
    Notification { note: Box<Notification> },
    /// Anything else. It is dropped: a bot that dies on an unknown line dies
    /// on the next release of signal-cli.
    Other,
}

/// Something that happened on Signal.
#[derive(Debug, PartialEq)]
pub struct Notification {
    pub envelope: Envelope,
    pub account: String,
}

/// Who it came from, and the message if it is one.
#[derive(Debug, PartialEq)]
pub struct Envelope {
    pub source_uuid: Option<String>,
    pub data_message: Option<DataMessage>,
}

/// A message. One without text is an attachment or the like.
#[derive(Debug, PartialEq)]
pub struct DataMessage {
    pub message: Option<String>,
}

/// What a [`Notification`] holds.
pub struct NotificationView {
    pub source_uuid: Option<Seq<char>>,
    /// The message, if there is one, and its text, if it has one.
    pub message: Option<Option<Seq<char>>>,
    pub account: Seq<char>,
}

impl View for Notification {
    type V = NotificationView;

    open spec fn view(&self) -> NotificationView {
        NotificationView {
            source_uuid: opt_view(self.envelope.source_uuid),
            message: match self.envelope.data_message {
                Some(message) => Some(opt_view(message.message)),
                None => None,
            },
            account: self.account@,
        }
    }
}

/// What a [`Frame`] holds.
pub enum FrameView {
    Response { id: Seq<char>, result: Result<JsonView, Seq<char>> },
    Notification(NotificationView),
    Other,
}

impl View for Frame {
    type V = FrameView;

    open spec fn view(&self) -> FrameView {
        match self {
            Frame::Response { id, result: Ok(answer) } => FrameView::Response {
                id: id@,
                result: Ok(answer@),
            },
            Frame::Response { id, result: Err(reason) } => FrameView::Response {
                id: id@,
                result: Err(reason@),
            },
            Frame::Notification { note } => FrameView::Notification(note@),
            Frame::Other => FrameView::Other,
        }
    }
}

/// The message text that a notification is about: from an account, and with
/// more than white space in it. Receipts and the like have none.
pub open spec fn incoming_of(note: NotificationView) -> Option<(Seq<char>, Seq<char>)> {
    match note.source_uuid {
        Some(from) => match note.message {
            Some(Some(text)) => if trimmed(text).len() > 0 {
                Some((from, trimmed(text)))
            } else {
                None
            },
            _ => None,
        },
        None => None,
    }
}

impl Notification {
    /// The message that the notification is about.
    pub fn into_incoming(self) -> (r: Option<Incoming>)
        ensures
            match r {
                Some(incoming) => incoming_of(self@) == Some((incoming.from@, incoming.text@)),
                None => incoming_of(self@) is None,
            },
    {
        let from = match self.envelope.source_uuid {
            Some(from) => from,
            None => {
                return None;
            },
        };
        let message = match self.envelope.data_message {
            Some(message) => message,
            None => {
                return None;
            },
        };
        let written = match message.message {
            Some(written) => written,
            None => {
                return None;
            },
        };
        let text = trim(written.as_str());
        if text.is_empty() {
            return None;
        }
        Some(Incoming { from: Aci(from), text: text.to_owned() })
    }
}

/// A field of a record, written as an object with names or as a list in
/// order; nothing where it is neither. A field of an object may be absent.
pub open spec fn member(
    json: JsonView,
    key: Seq<char>,
    at: int,
    arity: nat,
) -> Option<Option<JsonView>> {
    match json {
        JsonView::Object(entries) => Some(entry(entries, key)),
        JsonView::Array(list) => if list.len() == arity {
            Some(Some(list[at]))
        } else {
            None
        },
        _ => None,
    }
}

/// A text that may be absent or null; nothing where it is anything else.
pub open spec fn optional_text(value: Option<JsonView>) -> Option<Option<Seq<char>>> {
    match value {
        None => Some(None),
        Some(JsonView::Null) => Some(None),
        Some(JsonView::Text(s)) => Some(Some(s)),
        Some(_) => None,
    }
}

/// The message that an envelope may have; nothing where it does not fit.
pub open spec fn message_of(value: Option<JsonView>) -> Option<Option<Option<Seq<char>>>> {
    match value {
        None => Some(None),
        Some(JsonView::Null) => Some(None),
        Some(json) => match member(json, "message"@, 0, 1) {
            Some(field) => match optional_text(field) {
                Some(text) => Some(Some(text)),
                None => None,
            },
            None => None,
        },
    }
}

/// The sender and the message of an envelope; nothing where it does not fit.
pub open spec fn envelope_of(
    json: JsonView,
) -> Option<(Option<Seq<char>>, Option<Option<Seq<char>>>)> {
    match member(json, "sourceUuid"@, 0, 2) {
        Some(uuid) => match optional_text(uuid) {
            Some(source) => match member(json, "dataMessage"@, 1, 2) {
                Some(data) => match message_of(data) {
                    Some(message) => Some((source, message)),
                    None => None,
                },
                None => None,
            },
            None => None,
        },
        None => None,
    }
}

/// The notification that the parameters of a `receive` describe; nothing
/// where they do not fit.
pub open spec fn notification_of(params: JsonView) -> Option<NotificationView> {
    match member(params, "envelope"@, 0, 2) {
        Some(Some(envelope)) => match envelope_of(envelope) {
            Some((source_uuid, message)) => match member(params, "account"@, 1, 2) {
                Some(account) => match text_of(account) {
                    Some(account) => Some(NotificationView { source_uuid, message, account }),
                    None => None,
                },
                None => None,
            },
            None => None,
        },
        _ => None,
    }
}

/// What a line says: the answer to a call if it has the call's number, a
/// notification if it is a `receive` that fits.
pub open spec fn frame_of(document: JsonView) -> FrameView {
    let d = Some(document);
    match text_of(field_of(d, "id"@)) {
        Some(id) => FrameView::Response {
            id,
            result: match field_of(d, "error"@) {
                Some(error) => Err(
                    match text_of(field_of(Some(error), "message"@)) {
                        Some(message) => message,
                        None => "unknown error"@,
                    },
                ),
                None => Ok(
                    match field_of(d, "result"@) {
                        Some(result) => result,
                        None => JsonView::Null,
                    },
                ),
            },
        },
        None => if text_of(field_of(d, "method"@)) == Some("receive"@) {
            match field_of(d, "params"@) {
                Some(params) => match notification_of(params) {
                    Some(note) => FrameView::Notification(note),
                    None => FrameView::Other,
                },
                None => FrameView::Other,
            }
        } else {
            FrameView::Other
        },
    }
}

fn read_member<'a>(json: &'a Json, key: &str, at: usize, arity: usize) -> (r: Option<
    Option<&'a Json>,
>)
    requires
        at < arity,
    ensures
        match r {
            Some(field) => member(json@, key@, at as int, arity as nat) == Some(opt_tree(field)),
            None => member(json@, key@, at as int, arity as nat) is None,
        },
{
    match json {
        Json::Object(_) => Some(get(Some(json), key)),
        Json::Array(list) => {
            assert(json@->Array_0 =~= trees(list@));
            if list.len() == arity {
                assert(trees(list@)[at as int] == tree(list@[at as int]));
                Some(Some(&list[at]))
            } else {
                None
            }
        },
        _ => None,
    }
}

fn read_optional_text(value: Option<&Json>) -> (r: Option<Option<String>>)
    ensures
        match r {
            Some(s) => optional_text(opt_tree(value)) == Some(opt_view(s)),
            None => optional_text(opt_tree(value)) is None,
        },
{
    match value {
        None => Some(None),
        Some(Json::Null) => Some(None),
        Some(Json::Text(s)) => Some(Some(s.clone())),
        Some(_) => None,
    }
}

fn read_message(value: Option<&Json>) -> (r: Option<Option<DataMessage>>)
    ensures
        match r {
            Some(None) => message_of(opt_tree(value)) == Some(None::<Option<Seq<char>>>),
            Some(Some(message)) => message_of(opt_tree(value)) == Some(
                Some(opt_view(message.message)),
            ),
            None => message_of(opt_tree(value)) is None,
        },
{
    let json = match value {
        None => {
            return Some(None);
        },
        Some(Json::Null) => {
            return Some(None);
        },
        Some(json) => json,
    };
    match read_member(json, "message", 0, 1) {
        Some(field) => match read_optional_text(field) {
            Some(message) => Some(Some(DataMessage { message })),
            None => None,
        },
        None => None,
    }
}

fn read_notification(params: &Json) -> (r: Option<Notification>)
    ensures
        match r {
            Some(note) => notification_of(params@) == Some(note@),
            None => notification_of(params@) is None,
        },
{
    let envelope = match read_member(params, "envelope", 0, 2) {
        Some(Some(envelope)) => envelope,
        _ => {
            return None;
        },
    };
    let source_uuid = match read_member(envelope, "sourceUuid", 0, 2) {
        Some(field) => match read_optional_text(field) {
            Some(source) => source,
            None => {
                return None;
            },
        },
        None => {
            return None;
        },
    };
    let data_message = match read_member(envelope, "dataMessage", 1, 2) {
        Some(field) => match read_message(field) {
            Some(message) => message,
            None => {
                return None;
            },
        },
        None => {
            return None;
        },
    };
    let account = match read_member(params, "account", 1, 2) {
        Some(field) => match text(field) {
            Some(account) => account.to_owned(),
            None => {
                return None;
            },
        },
        None => {
            return None;
        },
    };
    Some(Notification { envelope: Envelope { source_uuid, data_message }, account })
}

/// The result of a call, taken out of its answer; null where it has none.
fn take_result(document: Json) -> (r: Json)
    ensures
        r@ == (match field_of(Some(document@), "result"@) {
            Some(result) => result,
            None => JsonView::Null,
        }),
{
    let mut entries = match document {
        Json::Object(entries) => entries,
        _ => {
            return Json::Null;
        },
    };
    let ghost all = entry_trees(entries@);
    assert(document@->Object_0 =~= all);
    let mut i: usize = 0;
    assert(all.skip(0) =~= all);
    while i < entries.len()
        invariant
            i <= entries@.len(),
            all == entry_trees(entries@),
            document@ == JsonView::Object(all),
            entry(all.skip(i as int), "result"@) == entry(all, "result"@),
        decreases entries@.len() - i,
    {
        assert(all.skip(i as int).skip(1) =~= all.skip(i + 1));
        assert(all.skip(i as int)[0] == (entries@[i as int].0@, tree(entries@[i as int].1)));
        if same(entries[i].0.as_str(), "result") {
            return entries.remove(i).1;
        }
        i += 1;
    }
    Json::Null
}

/// What a document says that signal-cli wrote as a line.
pub fn read_frame(document: Json) -> (r: Frame)
    ensures
        r@ == frame_of(document@),
{
    let id = match text(get(Some(&document), "id")) {
        Some(id) => Some(id.to_owned()),
        None => None,
    };
    if let Some(id) = id {
        let refused = match get(Some(&document), "error") {
            Some(error) => match text(get(Some(error), "message")) {
                Some(message) => Some(message.to_owned()),
                None => Some("unknown error".to_owned()),
            },
            None => None,
        };
        return match refused {
            Some(reason) => Frame::Response { id, result: Err(reason) },
            None => Frame::Response { id, result: Ok(take_result(document)) },
        };
    }
    let is_receive = match text(get(Some(&document), "method")) {
        Some(method) => same(method, "receive"),
        None => false,
    };
    if is_receive {
        if let Some(params) = get(Some(&document), "params") {
            if let Some(note) = read_notification(params) {
                return Frame::Notification { note: Box::new(note) };
            }
        }
    }
    Frame::Other
}

/// What a line says. Nothing where it is not JSON.
pub fn parse_line(line: &str) -> (r: Option<Frame>)
    ensures
        match r {
            Some(frame) => json_document(line@) matches Some(document) && frame@ == frame_of(
                document,
            ),
            None => json_document(line@) is None,
        },
{
    match parse_json(line) {
        Some(document) => Some(read_frame(document)),
        None => None,
    }
}

/// Whatever has the number of a call is its answer, never a notification.
pub proof fn law_an_answer_is_no_notification(document: JsonView)
    requires
        text_of(field_of(Some(document), "id"@)) is Some,
    ensures
        frame_of(document) is Response,
{
}

/// A message that reaches the dialog is never blank.
pub proof fn law_no_blank_message(note: NotificationView)
    ensures
        incoming_of(note) matches Some(incoming) ==> incoming.1.len() > 0,
{
}

} // verus!
