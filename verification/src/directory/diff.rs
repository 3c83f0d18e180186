//! What has changed between the people the bot knows and the people Authentik
//! lists.

use crate::model::Aci;
use crate::state::{Entry, State, entry_of};
use crate::text::{
    eq_ignore_ascii_case, lowercase, opt_view, same, same_ascii_caseless, to_lowercase, trim,
    trimmed, views,
};
use vstd::prelude::*;

verus! {

/// One account as Authentik lists it.
#[derive(Clone, Debug, PartialEq)]
pub struct AuthentikUser {
    pub username: String,
    pub signal_username: Option<String>,
    pub locale: String,
    pub groups: Vec<String>,
}

/// What an [`AuthentikUser`] holds.
pub struct AuthentikUserView {
    pub username: Seq<char>,
    pub signal_username: Option<Seq<char>>,
    pub locale: Seq<char>,
    pub groups: Seq<Seq<char>>,
}

impl View for AuthentikUser {
    type V = AuthentikUserView;

    open spec fn view(&self) -> AuthentikUserView {
        AuthentikUserView {
            username: self.username@,
            signal_username: opt_view(self.signal_username),
            locale: self.locale@,
            groups: views(self.groups@),
        }
    }
}

/// What a list of accounts holds.
pub open spec fn user_views(users: Seq<AuthentikUser>) -> Seq<AuthentikUserView> {
    users.map_values(|u: AuthentikUser| u@)
}

/// The Signal name an account has: the field as entered, without the white
/// space around it. An empty field is no field.
pub open spec fn signal_name_of(user: AuthentikUserView) -> Option<Seq<char>> {
    match user.signal_username {
        Some(raw) => if trimmed(raw).len() == 0 {
            None
        } else {
            Some(trimmed(raw))
        },
        None => None,
    }
}

impl AuthentikUser {
    /// The field as entered, with surrounding white space gone. An empty
    /// field is no field: Authentik stores "" rather than removing the
    /// attribute.
    pub fn signal_name(&self) -> (r: Option<&str>)
        ensures
            match r {
                Some(name) => signal_name_of(self@) == Some(name@),
                None => signal_name_of(self@) is None,
            },
    {
        match &self.signal_username {
            Some(raw) => {
                let name = trim(raw.as_str());
                if name.is_empty() {
                    None
                } else {
                    Some(name)
                }
            },
            None => None,
        }
    }
}

/// One thing to do about one account.
#[derive(Clone, Debug, PartialEq)]
pub enum Change {
    /// Resolve, store, greet.
    Added { username: String, signal_username: String },
    /// The person entered a different name. Resolve afresh, forget the old
    /// account id, greet again: the new name may well be a different human.
    Rebound { username: String, signal_username: String },
    /// The person is known under this name, but the welcome has not gone out.
    Greet { username: String },
    /// Field cleared, or the whole account gone. Say goodbye once, and forget.
    Removed { username: String, aci: Aci },
    /// Somebody else already holds that Signal name. Refuse rather than
    /// overwrite: an overwrite would silently move a stranger's chat onto
    /// this account.
    Conflict { username: String, signal_username: String, held_by: String },
}

/// What a [`Change`] holds.
pub enum ChangeView {
    Added { username: Seq<char>, signal_username: Seq<char> },
    Rebound { username: Seq<char>, signal_username: Seq<char> },
    Greet { username: Seq<char> },
    Removed { username: Seq<char>, aci: Seq<char> },
    Conflict { username: Seq<char>, signal_username: Seq<char>, held_by: Seq<char> },
}

impl View for Change {
    type V = ChangeView;

    open spec fn view(&self) -> ChangeView {
        match self {
            Change::Added { username, signal_username } => ChangeView::Added {
                username: username@,
                signal_username: signal_username@,
            },
            Change::Rebound { username, signal_username } => ChangeView::Rebound {
                username: username@,
                signal_username: signal_username@,
            },
            Change::Greet { username } => ChangeView::Greet { username: username@ },
            Change::Removed { username, aci } => ChangeView::Removed {
                username: username@,
                aci: aci@,
            },
            Change::Conflict { username, signal_username, held_by } => ChangeView::Conflict {
                username: username@,
                signal_username: signal_username@,
                held_by: held_by@,
            },
        }
    }
}

/// What a list of changes holds.
pub open spec fn change_views(changes: Seq<Change>) -> Seq<ChangeView> {
    changes.map_values(|c: Change| c@)
}

/// A name in lower case, and the account that holds it.
pub struct Claim {
    pub name: Seq<char>,
    pub holder: Seq<char>,
}

/// The names that the people the bot knows hold.
pub open spec fn claims_of(entries: Seq<Entry>) -> Seq<Claim> {
    entries.map_values(
        |e: Entry| Claim { name: lowercase(e.signal_username@), holder: e.authentik_username@ },
    )
}

/// The account other than `user` that holds `name`, if there is one; of
/// several, the one whose claim came first.
pub open spec fn holder_of(claims: Seq<Claim>, name: Seq<char>, user: Seq<char>) -> Option<Seq<char>>
    decreases claims.len(),
{
    if claims.len() == 0 {
        None
    } else if claims[0].name == name && claims[0].holder != user {
        Some(claims[0].holder)
    } else {
        holder_of(claims.skip(1), name, user)
    }
}

/// The claims of everybody but `user`.
pub open spec fn claims_of_others(claims: Seq<Claim>, user: Seq<char>) -> Seq<Claim> {
    claims.filter(|c: Claim| c.holder != user)
}

/// The claims once `user` holds `name` and nothing else.
pub open spec fn claimed_by(claims: Seq<Claim>, name: Seq<char>, user: Seq<char>) -> Seq<Claim> {
    claims_of_others(claims, user).push(Claim { name, holder: user })
}

/// What is to be done about one account, given the claims so far.
pub open spec fn change_for(
    entries: Seq<Entry>,
    claims: Seq<Claim>,
    user: AuthentikUserView,
) -> Option<ChangeView> {
    let existing = entry_of(entries, user.username);
    match signal_name_of(user) {
        None => match existing {
            Some(e) => Some(ChangeView::Removed { username: user.username, aci: e.aci@ }),
            None => None,
        },
        Some(wanted) => if existing matches Some(e) && same_ascii_caseless(
            e.signal_username@,
            wanted,
        ) {
            if existing->0.greeted {
                None
            } else {
                Some(ChangeView::Greet { username: user.username })
            }
        } else {
            match holder_of(claims, lowercase(wanted), user.username) {
                Some(holder) => Some(
                    ChangeView::Conflict {
                        username: user.username,
                        signal_username: wanted,
                        held_by: holder,
                    },
                ),
                None => Some(
                    if existing is Some {
                        ChangeView::Rebound { username: user.username, signal_username: wanted }
                    } else {
                        ChangeView::Added { username: user.username, signal_username: wanted }
                    },
                ),
            }
        },
    }
}

/// The claims after one account was looked at: a name that is given out is
/// claimed.
pub open spec fn claims_after(
    entries: Seq<Entry>,
    claims: Seq<Claim>,
    user: AuthentikUserView,
) -> Seq<Claim> {
    match change_for(entries, claims, user) {
        Some(ChangeView::Added { username, signal_username }) => claimed_by(
            claims,
            lowercase(signal_username),
            username,
        ),
        Some(ChangeView::Rebound { username, signal_username }) => claimed_by(
            claims,
            lowercase(signal_username),
            username,
        ),
        _ => claims,
    }
}

/// The claims after the first accounts of a list were looked at.
pub open spec fn claims_through(entries: Seq<Entry>, users: Seq<AuthentikUserView>) -> Seq<Claim>
    decreases users.len(),
{
    if users.len() == 0 {
        claims_of(entries)
    } else {
        claims_after(entries, claims_through(entries, users.drop_last()), users.last())
    }
}

/// What is to be done about the accounts of a list, in their order.
pub open spec fn changes_through(
    entries: Seq<Entry>,
    users: Seq<AuthentikUserView>,
) -> Seq<ChangeView>
    decreases users.len(),
{
    if users.len() == 0 {
        Seq::empty()
    } else {
        let before = changes_through(entries, users.drop_last());
        match change_for(entries, claims_through(entries, users.drop_last()), users.last()) {
            Some(change) => before.push(change),
            None => before,
        }
    }
}

/// Whether Authentik lists an account.
pub open spec fn is_listed(users: Seq<AuthentikUserView>, username: Seq<char>) -> bool {
    exists|i: int| 0 <= i < users.len() && (#[trigger] users[i]).username == username
}

/// The goodbye to an account that is gone from Authentik.
pub open spec fn vanished(users: Seq<AuthentikUserView>, e: Entry) -> Option<ChangeView> {
    if is_listed(users, e.authentik_username@) {
        None
    } else {
        Some(ChangeView::Removed { username: e.authentik_username@, aci: e.aci@ })
    }
}

/// Everything there is to do: first what follows from each listed account,
/// and after that the accounts that are gone entirely.
pub open spec fn planned(entries: Seq<Entry>, users: Seq<AuthentikUserView>) -> Seq<ChangeView> {
    changes_through(entries, users) + entries.filter_map(|e: Entry| vanished(users, e))
}

/// What a list of pairs of name and holder claims.
spec fn claim_views(claims: Seq<(String, String)>) -> Seq<Claim> {
    claims.map_values(|c: (String, String)| Claim { name: c.0@, holder: c.1@ })
}

fn claims_in(state: &State) -> (claims: Vec<(String, String)>)
    ensures
        claim_views(claims@) == claims_of(state@),
{
    let entries = state.iter();
    let mut claims: Vec<(String, String)> = Vec::new();
    let mut i: usize = 0;
    while i < entries.len()
        invariant
            i <= entries@.len(),
            claims@.len() == i,
            forall|j: int|
                0 <= j < i ==> (#[trigger] claims@[j]).0@ == lowercase(entries@[j].signal_username@)
                    && claims@[j].1@ == entries@[j].authentik_username@,
        decreases entries@.len() - i,
    {
        claims.push(
            (
                to_lowercase(entries[i].signal_username.as_str()),
                entries[i].authentik_username.clone(),
            ),
        );
        i += 1;
    }
    assert(claim_views(claims@) =~= claims_of(state@));
    claims
}

fn find_holder(claims: &Vec<(String, String)>, name: &str, user: &str) -> (r: Option<String>)
    ensures
        opt_view(r) == holder_of(claim_views(claims@), name@, user@),
{
    let ghost all = claim_views(claims@);
    let mut i: usize = 0;
    assert(all.skip(0) =~= all);
    while i < claims.len()
        invariant
            i <= claims@.len(),
            all == claim_views(claims@),
            holder_of(all.skip(i as int), name@, user@) == holder_of(all, name@, user@),
        decreases claims@.len() - i,
    {
        assert(all.skip(i as int)[0] == Claim {
            name: claims@[i as int].0@,
            holder: claims@[i as int].1@,
        });
        if same(claims[i].0.as_str(), name) && !same(claims[i].1.as_str(), user) {
            return Some(claims[i].1.clone());
        }
        assert(all.skip(i as int).skip(1) =~= all.skip(i + 1));
        i += 1;
    }
    None
}

fn claim(claims: Vec<(String, String)>, name: String, user: &str) -> (r: Vec<(String, String)>)
    ensures
        claim_views(r@) == claimed_by(claim_views(claims@), name@, user@),
{
    let ghost all = claim_views(claims@);
    let ghost keep = |c: Claim| c.holder != user@;
    let mut kept: Vec<(String, String)> = Vec::new();
    let mut i: usize = 0;
    proof {
        reveal(Seq::filter);
        assert(all.take(0).filter(keep) =~= Seq::empty());
        assert(claim_views(kept@) =~= Seq::empty());
    }
    while i < claims.len()
        invariant
            i <= claims@.len(),
            all == claim_views(claims@),
            keep == (|c: Claim| c.holder != user@),
            claim_views(kept@) == all.take(i as int).filter(keep),
        decreases claims@.len() - i,
    {
        proof {
            assert(all.take(i + 1) =~= all.take(i as int).push(all[i as int]));
            all.take(i as int).lemma_filter_push(all[i as int], keep);
            assert(all[i as int] == Claim {
                name: claims@[i as int].0@,
                holder: claims@[i as int].1@,
            });
        }
        if !same(claims[i].1.as_str(), user) {
            let copy = (claims[i].0.clone(), claims[i].1.clone());
            assert(claim_views(kept@.push(copy)) =~= claim_views(kept@).push(
                Claim { name: copy.0@, holder: copy.1@ },
            ));
            kept.push(copy);
        }
        i += 1;
    }
    assert(all.take(i as int) =~= all);
    let last = (name, user.to_owned());
    assert(claim_views(kept@.push(last)) =~= claim_views(kept@).push(
        Claim { name: last.0@, holder: last.1@ },
    ));
    kept.push(last);
    kept
}

fn lists(users: &[AuthentikUser], username: &str) -> (r: bool)
    ensures
        r == is_listed(user_views(users@), username@),
{
    let mut i: usize = 0;
    while i < users.len()
        invariant
            i <= users@.len(),
            forall|j: int|
                0 <= j < i ==> (#[trigger] user_views(users@)[j]).username != username@,
        decreases users@.len() - i,
    {
        assert(user_views(users@)[i as int] == users@[i as int]@);
        if same(users[i].username.as_str(), username) {
            return true;
        }
        i += 1;
    }
    false
}

/// What is to be done about one account, and the claims from there on.
fn decide(state: &State, claims: Vec<(String, String)>, user: &AuthentikUser) -> (r: (
    Option<Change>,
    Vec<(String, String)>,
))
    ensures
        match r.0 {
            Some(c) => change_for(state@, claim_views(claims@), user@) == Some(c@),
            None => change_for(state@, claim_views(claims@), user@) is None,
        },
        claim_views(r.1@) == claims_after(state@, claim_views(claims@), user@),
{
    let existing = state.by_user(user.username.as_str());
    let wanted = match user.signal_name() {
        Some(name) => name,
        None => {
            return match existing {
                Some(e) => (
                    Some(
                        Change::Removed { username: user.username.clone(), aci: e.aci.clone() },
                    ),
                    claims,
                ),
                None => (None, claims),
            };
        },
    };
    if let Some(e) = existing {
        if eq_ignore_ascii_case(e.signal_username.as_str(), wanted) {
            if e.greeted {
                return (None, claims);
            }
            return (Some(Change::Greet { username: user.username.clone() }), claims);
        }
    }
    let key = to_lowercase(wanted);
    match find_holder(&claims, key.as_str(), user.username.as_str()) {
        Some(held_by) => (
            Some(
                Change::Conflict {
                    username: user.username.clone(),
                    signal_username: wanted.to_owned(),
                    held_by,
                },
            ),
            claims,
        ),
        None => {
            let username = user.username.clone();
            let signal_username = wanted.to_owned();
            let change = if existing.is_some() {
                Change::Rebound { username, signal_username }
            } else {
                Change::Added { username, signal_username }
            };
            (Some(change), claim(claims, key, user.username.as_str()))
        },
    }
}

/// What has to be done so that the people the bot knows are those Authentik
/// lists. Names claimed during the pass count, so two fresh accounts asking
/// for one name do not both get it.
pub fn plan(state: &State, users: &[AuthentikUser]) -> (changes: Vec<Change>)
    ensures
        change_views(changes@) == planned(state@, user_views(users@)),
{
    let mut changes: Vec<Change> = Vec::new();
    let mut claims = claims_in(state);
    let ghost all = user_views(users@);
    let mut i: usize = 0;
    assert(all.take(0) =~= Seq::empty());
    assert(change_views(changes@) =~= Seq::empty());
    while i < users.len()
        invariant
            i <= users@.len(),
            all == user_views(users@),
            claim_views(claims@) == claims_through(state@, all.take(i as int)),
            change_views(changes@) == changes_through(state@, all.take(i as int)),
        decreases users@.len() - i,
    {
        proof {
            let next = all.take(i + 1);
            assert(next.drop_last() =~= all.take(i as int));
            assert(next.last() == users@[i as int]@);
        }
        let (change, after) = decide(state, claims, &users[i]);
        claims = after;
        if let Some(c) = change {
            assert(change_views(changes@.push(c)) =~= change_views(changes@).push(c@));
            changes.push(c);
        }
        i += 1;
    }
    assert(all.take(i as int) =~= all);

    // Accounts that vanished from Authentik entirely.
    let entries = state.iter();
    let ghost before = change_views(changes@);
    let ghost gone = |e: Entry| vanished(all, e);
    let mut k: usize = 0;
    assert(entries@.take(0) =~= Seq::empty());
    assert(before + entries@.take(0).filter_map(gone) =~= before);
    while k < entries.len()
        invariant
            k <= entries@.len(),
            entries@ == state@,
            all == user_views(users@),
            gone == (|e: Entry| vanished(all, e)),
            change_views(changes@) == before + entries@.take(k as int).filter_map(gone),
        decreases entries@.len() - k,
    {
        proof {
            let next = entries@.take(k + 1);
            assert(next.drop_last() =~= entries@.take(k as int));
            assert(next.last() == entries@[k as int]);
        }
        if !lists(users, entries[k].authentik_username.as_str()) {
            let c = Change::Removed {
                username: entries[k].authentik_username.clone(),
                aci: entries[k].aci.clone(),
            };
            proof {
                assert(change_views(changes@.push(c)) =~= change_views(changes@).push(c@));
                let done = entries@.take(k as int).filter_map(gone);
                assert(before + (done + seq![c@]) =~= (before + done).push(c@));
            }
            changes.push(c);
        }
        k += 1;
    }
    assert(entries@.take(k as int) =~= entries@);
    changes
}

/// Whether no name is claimed by two accounts.
pub open spec fn conflict_free(claims: Seq<Claim>) -> bool {
    forall|i: int, j: int|
        #![trigger claims[i], claims[j]]
        0 <= i < claims.len() && 0 <= j < claims.len() && claims[i].name == claims[j].name
            ==> claims[i].holder == claims[j].holder
}

proof fn lemma_no_holder(claims: Seq<Claim>, name: Seq<char>, user: Seq<char>)
    requires
        holder_of(claims, name, user) is None,
    ensures
        forall|i: int|
            0 <= i < claims.len() && (#[trigger] claims[i]).name == name ==> claims[i].holder
                == user,
    decreases claims.len(),
{
    if claims.len() > 0 {
        let rest = claims.skip(1);
        lemma_no_holder(rest, name, user);
        assert forall|i: int|
            0 <= i < claims.len() && (#[trigger] claims[i]).name == name implies claims[i].holder
            == user by {
            if i > 0 {
                assert(rest[i - 1] == claims[i]);
            }
        }
    }
}

proof fn lemma_kept_claims(claims: Seq<Claim>, user: Seq<char>)
    ensures
        forall|i: int|
            0 <= i < claims_of_others(claims, user).len() ==> {
                let c = #[trigger] claims_of_others(claims, user)[i];
                c.holder != user && claims.contains(c)
            },
    decreases claims.len(),
{
    reveal(Seq::filter);
    if claims.len() > 0 {
        let before = claims.drop_last();
        lemma_kept_claims(before, user);
        let kept = claims_of_others(before, user);
        let now = claims_of_others(claims, user);
        assert forall|i: int| 0 <= i < now.len() implies {
            let c = #[trigger] now[i];
            c.holder != user && claims.contains(c)
        } by {
            if i < kept.len() {
                assert(now[i] == kept[i]);
                let at = choose|at: int| 0 <= at < before.len() && before[at] == kept[i];
                assert(claims[at] == now[i]);
            } else {
                assert(claims[claims.len() - 1] == now[i]);
            }
        }
    }
}

/// Nobody is given a name that somebody else holds: where no name is claimed
/// by two accounts before a pass, none is after it, however many accounts ask
/// for the same one.
pub proof fn law_a_name_has_one_holder(entries: Seq<Entry>, users: Seq<AuthentikUserView>)
    requires
        conflict_free(claims_of(entries)),
    ensures
        conflict_free(claims_through(entries, users)),
    decreases users.len(),
{
    if users.len() > 0 {
        let before = claims_through(entries, users.drop_last());
        law_a_name_has_one_holder(entries, users.drop_last());
        let user = users.last().username;
        match change_for(entries, before, users.last()) {
            Some(ChangeView::Added { username, signal_username }) => {
                lemma_claim_stays_free(before, lowercase(signal_username), user);
            },
            Some(ChangeView::Rebound { username, signal_username }) => {
                lemma_claim_stays_free(before, lowercase(signal_username), user);
            },
            _ => {},
        }
    }
}

proof fn lemma_claim_stays_free(claims: Seq<Claim>, name: Seq<char>, user: Seq<char>)
    requires
        conflict_free(claims),
        holder_of(claims, name, user) is None,
    ensures
        conflict_free(claimed_by(claims, name, user)),
{
    lemma_no_holder(claims, name, user);
    lemma_kept_claims(claims, user);
    let kept = claims_of_others(claims, user);
    let after = claimed_by(claims, name, user);
    assert forall|i: int, j: int|
        #![trigger after[i], after[j]]
        0 <= i < after.len() && 0 <= j < after.len() && after[i].name
            == after[j].name implies after[i].holder == after[j].holder by {
        if i < kept.len() {
            assert(after[i] == kept[i]);
            assert(claims.contains(kept[i]));
        }
        if j < kept.len() {
            assert(after[j] == kept[j]);
            assert(claims.contains(kept[j]));
        }
        if i < kept.len() && j < kept.len() {
            let a = choose|a: int| 0 <= a < claims.len() && claims[a] == kept[i];
            let b = choose|b: int| 0 <= b < claims.len() && claims[b] == kept[j];
            assert(claims[a].name == claims[b].name);
        } else if i < kept.len() {
            let a = choose|a: int| 0 <= a < claims.len() && claims[a] == kept[i];
            assert(claims[a].name == name);
        } else if j < kept.len() {
            let b = choose|b: int| 0 <= b < claims.len() && claims[b] == kept[j];
            assert(claims[b].name == name);
        }
    }
}

/// A name that is given out is claimed by the account it is given to, and by
/// no other from there on.
pub proof fn law_a_given_name_is_claimed(
    entries: Seq<Entry>,
    claims: Seq<Claim>,
    user: AuthentikUserView,
    name: Seq<char>,
)
    requires
        conflict_free(claims),
        change_for(entries, claims, user) == Some(
            ChangeView::Added { username: user.username, signal_username: name },
        ) || change_for(entries, claims, user) == Some(
            ChangeView::Rebound { username: user.username, signal_username: name },
        ),
    ensures
        ({
            let after = claims_after(entries, claims, user);
            &&& conflict_free(after)
            &&& after.last() == Claim { name: lowercase(name), holder: user.username }
        }),
{
    lemma_claim_stays_free(claims, lowercase(name), user.username);
}

/// Whether an account is settled: without a name and unknown, or known under
/// its name and greeted.
pub open spec fn settled(entries: Seq<Entry>, user: AuthentikUserView) -> bool {
    match signal_name_of(user) {
        None => entry_of(entries, user.username) is None,
        Some(wanted) => entry_of(entries, user.username) matches Some(e) && e.greeted
            && same_ascii_caseless(e.signal_username@, wanted),
    }
}

/// Where everybody is settled and nobody has left, there is nothing to do.
pub proof fn law_settled_people_are_left_alone(
    entries: Seq<Entry>,
    users: Seq<AuthentikUserView>,
)
    requires
        forall|i: int| 0 <= i < users.len() ==> settled(entries, #[trigger] users[i]),
        forall|i: int|
            0 <= i < entries.len() ==> is_listed(
                users,
                (#[trigger] entries[i]).authentik_username@,
            ),
    ensures
        planned(entries, users) == Seq::<ChangeView>::empty(),
{
    assert(users =~= users.take(users.len() as int));
    lemma_settled_changes(entries, users, users);
    lemma_nobody_vanished(entries, users);
    assert(planned(entries, users) =~= Seq::<ChangeView>::empty());
}

proof fn lemma_settled_changes(
    entries: Seq<Entry>,
    users: Seq<AuthentikUserView>,
    part: Seq<AuthentikUserView>,
)
    requires
        part.len() <= users.len(),
        part == users.take(part.len() as int),
        forall|i: int| 0 <= i < users.len() ==> settled(entries, #[trigger] users[i]),
    ensures
        changes_through(entries, part) == Seq::<ChangeView>::empty(),
    decreases part.len(),
{
    if part.len() > 0 {
        assert(part.drop_last() =~= users.take(part.len() - 1));
        lemma_settled_changes(entries, users, part.drop_last());
        assert(part.last() == users[part.len() - 1]);
    }
}

proof fn lemma_nobody_vanished(entries: Seq<Entry>, users: Seq<AuthentikUserView>)
    requires
        forall|i: int|
            0 <= i < entries.len() ==> is_listed(
                users,
                (#[trigger] entries[i]).authentik_username@,
            ),
    ensures
        entries.filter_map(|e: Entry| vanished(users, e)) == Seq::<ChangeView>::empty(),
    decreases entries.len(),
{
    if entries.len() > 0 {
        let before = entries.drop_last();
        assert forall|i: int| 0 <= i < before.len() implies is_listed(
            users,
            (#[trigger] before[i]).authentik_username@,
        ) by {
            assert(before[i] == entries[i]);
        }
        lemma_nobody_vanished(before, users);
        assert(entries.last() == entries[entries.len() - 1]);
    }
}

/// Everybody who is known and no longer listed is said goodbye to.
pub proof fn law_whoever_is_gone_is_removed(
    entries: Seq<Entry>,
    users: Seq<AuthentikUserView>,
    at: int,
)
    requires
        0 <= at < entries.len(),
        !is_listed(users, entries[at].authentik_username@),
    ensures
        planned(entries, users).contains(
            ChangeView::Removed {
                username: entries[at].authentik_username@,
                aci: entries[at].aci@,
            },
        ),
{
    let goodbye = ChangeView::Removed {
        username: entries[at].authentik_username@,
        aci: entries[at].aci@,
    };
    lemma_vanished_found(entries, users, at);
    let gone = entries.filter_map(|e: Entry| vanished(users, e));
    let k = choose|k: int| 0 <= k < gone.len() && gone[k] == goodbye;
    let before = changes_through(entries, users);
    assert(planned(entries, users)[before.len() + k] == goodbye);
}

proof fn lemma_vanished_found(entries: Seq<Entry>, users: Seq<AuthentikUserView>, at: int)
    requires
        0 <= at < entries.len(),
        !is_listed(users, entries[at].authentik_username@),
    ensures
        entries.filter_map(|e: Entry| vanished(users, e)).contains(
            ChangeView::Removed {
                username: entries[at].authentik_username@,
                aci: entries[at].aci@,
            },
        ),
    decreases entries.len(),
{
    let goodbye = ChangeView::Removed {
        username: entries[at].authentik_username@,
        aci: entries[at].aci@,
    };
    let now = entries.filter_map(|e: Entry| vanished(users, e));
    let before = entries.drop_last().filter_map(|e: Entry| vanished(users, e));
    if at < entries.len() - 1 {
        assert(entries.drop_last()[at] == entries[at]);
        lemma_vanished_found(entries.drop_last(), users, at);
        let k = choose|k: int| 0 <= k < before.len() && before[k] == goodbye;
        assert(now[k] == goodbye);
    } else {
        assert(now[before.len() as int] == goodbye);
    }
}

proof fn lemma_change_is_planned(
    entries: Seq<Entry>,
    users: Seq<AuthentikUserView>,
    at: int,
    change: ChangeView,
    n: int,
)
    requires
        0 <= at < n <= users.len(),
        change_for(entries, claims_through(entries, users.take(at)), users[at]) == Some(change),
    ensures
        changes_through(entries, users.take(n)).contains(change),
    decreases n,
{
    let part = users.take(n);
    let m = n - 1;
    assert(part.drop_last() =~= users.take(m));
    assert(part.last() == users[m]);
    let before = changes_through(entries, users.take(m));
    let now = changes_through(entries, part);
    if at < m {
        lemma_change_is_planned(entries, users, at, change, m);
        let k = choose|k: int| 0 <= k < before.len() && before[k] == change;
        assert(now[k] == change);
    } else {
        assert(now == before.push(change));
        assert(now[before.len() as int] == change);
    }
}

/// Nobody misses their welcome for good: as long as it has not gone out, every
/// plan asks for it.
pub proof fn law_a_missed_welcome_is_planned_again(
    entries: Seq<Entry>,
    users: Seq<AuthentikUserView>,
    at: int,
)
    requires
        0 <= at < users.len(),
        entry_of(entries, users[at].username) matches Some(e) && !e.greeted && (signal_name_of(
            users[at],
        ) matches Some(wanted) && same_ascii_caseless(e.signal_username@, wanted)),
    ensures
        planned(entries, users).contains(ChangeView::Greet { username: users[at].username }),
{
    let greet = ChangeView::Greet { username: users[at].username };
    let n = users.len() as int;
    lemma_change_is_planned(entries, users, at, greet, n);
    assert(users.take(n) =~= users);
    let changes = changes_through(entries, users);
    let k = choose|k: int| 0 <= k < changes.len() && changes[k] == greet;
    assert(planned(entries, users)[k] == greet);
}

} // verus!
