//! How signal-cli's lines are read, said of what they hold.

use crate::json::{JsonView, field_of, text_of};
use crate::signal::rpc::{
    FrameView, NotificationView, frame_of, incoming_of, member, notification_of,
};
use crate::signal::{account_in, call_tree, entries_with, with_account};
use crate::text::trimmed;
use vstd::prelude::*;

verus! {

/// An answer is a failure exactly where it has an error in it, with the
/// reason that is given there; otherwise it is what the result says.
pub proof fn law_an_answer_is_its_result(document: JsonView, id: Seq<char>)
    requires
        text_of(field_of(Some(document), "id"@)) == Some(id),
    ensures
        frame_of(document) matches FrameView::Response { id: answered, result } && answered == id
            && match result {
            Ok(answer) => field_of(Some(document), "error"@) is None && (match field_of(
                Some(document),
                "result"@,
            ) {
                Some(given) => answer == given,
                None => answer == JsonView::Null,
            }),
            Err(reason) => field_of(Some(document), "error"@) matches Some(error) && (match text_of(
                field_of(Some(error), "message"@),
            ) {
                Some(message) => reason == message,
                None => reason == "unknown error"@,
            }),
        },
{
}

/// Only what is received is a notification.
pub proof fn law_only_what_is_received_is_news(document: JsonView)
    ensures
        frame_of(document) is Notification ==> text_of(field_of(Some(document), "id"@)) is None
            && text_of(field_of(Some(document), "method"@)) == Some("receive"@),
{
}

/// A record is read by the names of its fields, or, where it is a list, field
/// by field in order, if it has exactly as many as there are; anything else is
/// no record.
pub proof fn law_a_record_is_named_or_in_order(
    json: JsonView,
    key: Seq<char>,
    at: int,
    arity: nat,
)
    ensures
        match json {
            JsonView::Object(_) => member(json, key, at, arity) == Some(
                field_of(Some(json), key),
            ),
            JsonView::Array(list) => if list.len() == arity {
                member(json, key, at, arity) == Some(Some(list[at]))
            } else {
                member(json, key, at, arity) is None
            },
            _ => member(json, key, at, arity) is None,
        },
{
}

/// What is received is from the account that sent it, with the text of the
/// message that is in it, for the account that it was sent to.
pub proof fn law_a_notification_says_whom_it_is_from(
    from: Seq<char>,
    text: Seq<char>,
    account: Seq<char>,
)
    ensures
        ({
            let message = JsonView::Object(seq![("message"@, JsonView::Text(text))]);
            let envelope = JsonView::Object(
                seq![("sourceUuid"@, JsonView::Text(from)), ("dataMessage"@, message)],
            );
            let params = JsonView::Object(
                seq![("envelope"@, envelope), ("account"@, JsonView::Text(account))],
            );
            notification_of(params) == Some(
                NotificationView {
                    source_uuid: Some(from),
                    message: Some(Some(text)),
                    account,
                },
            )
        }),
{
    reveal_strlit("message");
    reveal_strlit("sourceUuid");
    reveal_strlit("dataMessage");
    reveal_strlit("envelope");
    reveal_strlit("account");
    assert("sourceUuid"@[0] == 's' && "dataMessage"@[0] == 'd');
    assert("envelope"@[0] == 'e' && "account"@[0] == 'a');
    let message = JsonView::Object(seq![("message"@, JsonView::Text(text))]);
    let parts = seq![("sourceUuid"@, JsonView::Text(from)), ("dataMessage"@, message)];
    let envelope = JsonView::Object(parts);
    let fields = seq![("envelope"@, envelope), ("account"@, JsonView::Text(account))];
    reveal_with_fuel(crate::json::entry, 3);
    assert(parts.skip(1)[0] == parts[1]);
    assert(fields.skip(1)[0] == fields[1]);
}

/// A message is heard where it comes from an account and says something: it
/// is that account's, and what it says without the white space around it.
pub proof fn law_what_is_heard(note: NotificationView, from: Seq<char>, text: Seq<char>)
    ensures
        incoming_of(note) == Some((from, text)) <==> {
            &&& note.source_uuid == Some(from)
            &&& note.message matches Some(Some(said)) && text == trimmed(said)
            &&& text.len() > 0
        },
{
}

/// The account behind a name is the first that the answer has.
pub proof fn law_the_first_account_counts(entries: Seq<JsonView>, i: int)
    requires
        0 <= i < entries.len(),
        text_of(field_of(Some(entries[i]), "uuid"@)) is Some,
        forall|j: int|
            0 <= j < i ==> text_of(field_of(Some(#[trigger] entries[j]), "uuid"@)) is None,
    ensures
        account_in(entries) == text_of(field_of(Some(entries[i]), "uuid"@)),
    decreases i,
{
    if i > 0 {
        let rest = entries.skip(1);
        assert(text_of(field_of(Some(entries[0]), "uuid"@)) is None);
        assert forall|j: int| 0 <= j < i - 1 implies text_of(
            field_of(Some(#[trigger] rest[j]), "uuid"@),
        ) is None by {
            assert(rest[j] == entries[j + 1]);
        }
        law_the_first_account_counts(rest, i - 1);
    }
}

/// A call has the method, the number by which its answer is known, and the
/// parameters with the bot's account among them.
pub proof fn law_a_call_says_what_it_is(
    id: Seq<char>,
    method: Seq<char>,
    params: JsonView,
    account: Seq<char>,
)
    requires
        params is Object || params is Null,
    ensures
        ({
            let call = Some(call_tree(id, method, params, account));
            &&& text_of(field_of(call, "jsonrpc"@)) == Some("2.0"@)
            &&& text_of(field_of(call, "method"@)) == Some(method)
            &&& text_of(field_of(call, "id"@)) == Some(id)
            &&& text_of(field_of(field_of(call, "params"@), "account"@)) == Some(account)
        }),
{
    crate::signal::law_every_call_names_the_account(params, account);
    reveal_strlit("jsonrpc");
    reveal_strlit("method");
    reveal_strlit("id");
    reveal_strlit("params");
    assert("jsonrpc"@[0] == 'j' && "method"@[0] == 'm' && "id"@[0] == 'i' && "params"@[0] == 'p');
    let entries = call_tree(id, method, params, account)->Object_0;
    let second = entries.skip(1);
    let third = second.skip(1);
    let fourth = third.skip(1);
    assert(second[0] == entries[1]);
    assert(third[0] == entries[2]);
    assert(fourth[0] == entries[3]);
    reveal_with_fuel(crate::json::entry, 5);
}

/// The account takes the place of another one at most: every other parameter
/// of a call stays what it was.
pub proof fn law_the_other_parameters_stay(
    entries: Seq<(Seq<char>, JsonView)>,
    account: Seq<char>,
    key: Seq<char>,
)
    requires
        key != "account"@,
    ensures
        field_of(Some(with_account(JsonView::Object(entries), account)), key) == field_of(
            Some(JsonView::Object(entries)),
            key,
        ),
    decreases entries.len(),
{
    let set = entries_with(entries, "account"@, JsonView::Text(account));
    reveal_with_fuel(crate::json::entry, 2);
    if entries.len() > 0 {
        let rest = entries.skip(1);
        assert(set.skip(1) =~= if entries[0].0 == "account"@ {
            rest
        } else {
            entries_with(rest, "account"@, JsonView::Text(account))
        });
        if entries[0].0 != "account"@ {
            law_the_other_parameters_stay(rest, account, key);
        }
    } else {
        assert(set.skip(1).len() == 0);
    }
}

} // verus!
