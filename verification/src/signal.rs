//! What is said to signal-cli, and how its answers are read.

pub mod laws;
pub mod rpc;

use crate::json::{
    Json, JsonView, array, elements_of, entry, entry_trees, field_of, get, json_written, object,
    one_text, push_entry, text, text_of, tree, trees, write_json,
};
use crate::model::Aci;
use crate::text::{decimal, decimal_u64, same};
use vstd::prelude::*;

verus! {

/// Entries with one of them set: in the place of the first under the same
/// key, or at the end.
pub open spec fn entries_with(
    entries: Seq<(Seq<char>, JsonView)>,
    key: Seq<char>,
    value: JsonView,
) -> Seq<(Seq<char>, JsonView)>
    decreases entries.len(),
{
    if entries.len() == 0 {
        seq![(key, value)]
    } else if entries[0].0 == key {
        seq![(key, value)] + entries.skip(1)
    } else {
        seq![entries[0]] + entries_with(entries.skip(1), key, value)
    }
}

/// The parameters of a call, with the account. Parameters that are absent
/// become an object.
pub open spec fn with_account(params: JsonView, account: Seq<char>) -> JsonView {
    match params {
        JsonView::Object(entries) => JsonView::Object(
            entries_with(entries, "account"@, JsonView::Text(account)),
        ),
        _ => JsonView::Object(seq![("account"@, JsonView::Text(account))]),
    }
}

/// The request that makes a call.
pub open spec fn call_tree(
    id: Seq<char>,
    method: Seq<char>,
    params: JsonView,
    account: Seq<char>,
) -> JsonView {
    JsonView::Object(
        seq![
            ("jsonrpc"@, JsonView::Text("2.0"@)),
            ("method"@, JsonView::Text(method)),
            ("id"@, JsonView::Text(id)),
            ("params"@, with_account(params, account)),
        ],
    )
}

fn set_entry(given: Vec<(String, Json)>, key: &str, value: Json) -> (r: Vec<(String, Json)>)
    ensures
        entry_trees(r@) == entries_with(entry_trees(given@), key@, value@),
{
    let ghost all = entry_trees(given@);
    let mut entries = given;
    let mut i: usize = 0;
    assert(all.skip(0) =~= all);
    assert(all.take(0) + entries_with(all, key@, value@) =~= entries_with(all, key@, value@));
    while i < entries.len()
        invariant
            i <= entries@.len(),
            all == entry_trees(given@),
            all == entry_trees(entries@),
            all.take(i as int) + entries_with(all.skip(i as int), key@, value@) == entries_with(
                all,
                key@,
                value@,
            ),
        decreases entries@.len() - i,
    {
        let ghost rest = all.skip(i as int);
        assert(rest.skip(1) =~= all.skip(i + 1));
        assert(rest[0] == (entries@[i as int].0@, tree(entries@[i as int].1)));
        if same(entries[i].0.as_str(), key) {
            entries[i].1 = value;
            assert(entry_trees(entries@) =~= all.take(i as int) + (seq![(key@, value@)]
                + rest.skip(1)));
            return entries;
        }
        assert(all.take(i + 1) + entries_with(all.skip(i + 1), key@, value@) =~= all.take(i as int)
            + (seq![rest[0]] + entries_with(rest.skip(1), key@, value@)));
        i += 1;
    }
    assert(all.skip(i as int) =~= Seq::empty());
    assert(all.take(i as int) =~= all);
    push_entry(&mut entries, key, value);
    assert(entry_trees(entries@) =~= all + seq![(key@, value@)]);
    entries
}

/// The line that makes a call. The account goes with every call: a daemon for
/// one account ignores it, and one for several wants it.
pub fn call_line(id: u64, method: &str, params: Json, account: &str) -> (r: String)
    requires
        params@ is Object || params@ is Null,
    ensures
        r@ == json_written(call_tree(decimal(id as nat), method@, params@, account@)) + "\n"@,
{
    let name = Json::Text(account.to_owned());
    let entries = match params {
        Json::Object(entries) => {
            assert(params@->Object_0 =~= entry_trees(entries@));
            set_entry(entries, "account", name)
        },
        _ => {
            let mut entries: Vec<(String, Json)> = Vec::new();
            push_entry(&mut entries, "account", name);
            assert(entry_trees(entries@) =~= seq![("account"@, JsonView::Text(account@))]);
            entries
        },
    };
    let mut request: Vec<(String, Json)> = Vec::new();
    push_entry(&mut request, "jsonrpc", Json::Text("2.0".to_owned()));
    push_entry(&mut request, "method", Json::Text(method.to_owned()));
    push_entry(&mut request, "id", Json::Text(decimal_u64(id)));
    push_entry(&mut request, "params", object(entries));
    let body = object(request);
    assert(body@->Object_0 =~= call_tree(
        decimal(id as nat),
        method@,
        params@,
        account@,
    )->Object_0);
    let mut line = write_json(&body);
    line.append("\n");
    line
}

/// What `getUserStatus` is asked about a Signal name.
pub fn resolve_params(username: &str) -> (r: Json)
    ensures
        r@ == JsonView::Object(
            seq![("username"@, JsonView::Array(seq![JsonView::Text(username@)]))],
        ),
{
    let mut entries: Vec<(String, Json)> = Vec::new();
    push_entry(&mut entries, "username", one_text(username));
    assert(entry_trees(entries@) =~= seq![
        ("username"@, JsonView::Array(seq![JsonView::Text(username@)])),
    ]);
    object(entries)
}

/// What `updateAccount` is told, to set the bot's own name.
pub fn rename_params(username: &str) -> (r: Json)
    ensures
        r@ == JsonView::Object(seq![("username"@, JsonView::Text(username@))]),
{
    let mut entries: Vec<(String, Json)> = Vec::new();
    push_entry(&mut entries, "username", Json::Text(username.to_owned()));
    assert(entry_trees(entries@) =~= seq![("username"@, JsonView::Text(username@))]);
    object(entries)
}

/// What `send` is told, to send a message.
pub fn send_params(to: &Aci, message: &str) -> (r: Json)
    ensures
        r@ == JsonView::Object(
            seq![
                ("recipient"@, JsonView::Array(seq![JsonView::Text(to@)])),
                ("message"@, JsonView::Text(message@)),
            ],
        ),
{
    let mut entries: Vec<(String, Json)> = Vec::new();
    push_entry(&mut entries, "recipient", one_text(to.0.as_str()));
    push_entry(&mut entries, "message", Json::Text(message.to_owned()));
    assert(entry_trees(entries@) =~= seq![
        ("recipient"@, JsonView::Array(seq![JsonView::Text(to@)])),
        ("message"@, JsonView::Text(message@)),
    ]);
    object(entries)
}

/// The first account id that an answer to `getUserStatus` names. An entry for
/// a name that does not exist has none.
pub open spec fn account_in(entries: Seq<JsonView>) -> Option<Seq<char>>
    decreases entries.len(),
{
    if entries.len() == 0 {
        None
    } else {
        match text_of(field_of(Some(entries[0]), "uuid"@)) {
            Some(uuid) => Some(uuid),
            None => account_in(entries.skip(1)),
        }
    }
}

/// Reads the account id out of an answer to `getUserStatus`.
pub fn aci_from_user_status(answer: &Json) -> (r: Option<Aci>)
    ensures
        match r {
            Some(aci) => account_in(elements_of(Some(answer@))) == Some(aci@),
            None => account_in(elements_of(Some(answer@))) is None,
        },
{
    let list = match array(Some(answer)) {
        Some(list) => list,
        None => {
            return None;
        },
    };
    let ghost all = trees(list@);
    let mut i: usize = 0;
    assert(all.skip(0) =~= all);
    while i < list.len()
        invariant
            i <= list@.len(),
            all == trees(list@),
            all == elements_of(Some(answer@)),
            account_in(all.skip(i as int)) == account_in(all),
        decreases list@.len() - i,
    {
        assert(all.skip(i as int).skip(1) =~= all.skip(i + 1));
        assert(all.skip(i as int)[0] == tree(list@[i as int]));
        if let Some(uuid) = text(get(Some(&list[i]), "uuid")) {
            return Some(Aci(uuid.to_owned()));
        }
        i += 1;
    }
    None
}

/// The bot's own name after it was set: the full one that Signal gave it, or
/// the one that was asked for.
pub fn name_given(answer: &Json, asked: &str) -> (r: String)
    ensures
        r@ == (match text_of(field_of(Some(answer@), "username"@)) {
            Some(name) => name,
            None => asked@,
        }),
{
    match text(get(Some(answer), "username")) {
        Some(name) => name.to_owned(),
        None => asked.to_owned(),
    }
}

/// Why a call came to nothing.
#[derive(Clone, Debug, PartialEq)]
pub enum CallFailure {
    /// Nobody reads signal-cli's answers any more.
    ReaderStopped,
    TimedOut { method: String },
    Rejected { method: String, reason: String },
}

/// How long signal-cli may take to answer, in seconds.
pub const CALL_DEADLINE: u64 = 30;

/// A failure in words.
pub open spec fn call_failure_said(failure: CallFailure) -> Seq<char> {
    match failure {
        CallFailure::ReaderStopped => "the signal-cli reader stopped"@,
        CallFailure::TimedOut { method } => "signal-cli did not answer "@ + method@ + " within "@
            + decimal(CALL_DEADLINE as nat) + "s"@,
        CallFailure::Rejected { method, reason } => "signal-cli rejected "@ + method@ + ": "@
            + reason@,
    }
}

impl CallFailure {
    /// The failure in words.
    pub fn message(&self) -> (r: String)
        ensures
            r@ == call_failure_said(*self),
    {
        match self {
            CallFailure::ReaderStopped => "the signal-cli reader stopped".to_owned(),
            CallFailure::TimedOut { method } => {
                let mut r = "signal-cli did not answer ".to_owned();
                r.append(method.as_str());
                r.append(" within ");
                r.append(decimal_u64(CALL_DEADLINE).as_str());
                r.append("s");
                r
            },
            CallFailure::Rejected { method, reason } => {
                let mut r = "signal-cli rejected ".to_owned();
                r.append(method.as_str());
                r.append(": ");
                r.append(reason.as_str());
                r
            },
        }
    }
}

/// However a call is made, its account is the bot's.
pub proof fn law_every_call_names_the_account(params: JsonView, account: Seq<char>)
    requires
        params is Object || params is Null,
    ensures
        field_of(Some(with_account(params, account)), "account"@) == Some(
            JsonView::Text(account),
        ),
{
    if let JsonView::Object(entries) = params {
        lemma_entry_set(entries, "account"@, JsonView::Text(account));
    } else {
        let entries = seq![("account"@, JsonView::Text(account))];
        assert(entries[0].0 == "account"@);
    }
}

proof fn lemma_entry_set(entries: Seq<(Seq<char>, JsonView)>, key: Seq<char>, value: JsonView)
    ensures
        entry(entries_with(entries, key, value), key) == Some(value),
    decreases entries.len(),
{
    let after = entries_with(entries, key, value);
    if entries.len() > 0 && entries[0].0 != key {
        lemma_entry_set(entries.skip(1), key, value);
        assert(after.skip(1) =~= entries_with(entries.skip(1), key, value));
    }
}

} // verus!
