//! What holds of whole passes over the people.

use crate::directory::diff::{
    AuthentikUserView, Change, ChangeView, Claim, change_for, change_views, changes_through,
    claims_through, is_listed, planned, settled, signal_name_of, vanished,
};
use crate::directory::{
    Errand, Pass, PassEvent, PassStep, Resolution, greeted,
    law_a_welcome_is_remembered, next_work, stepped, takes_work, went_on,
};
use crate::i18n::Catalogue;
use crate::state::{
    Entry, entry_of, is_of, law_upsert_replaces, lemma_entry_is_of, lemma_first_is_entry,
    others_than, without_first,
};
use crate::text::same_ascii_caseless;
use vstd::prelude::*;

verus! {

/// A whole pass: how it stood and who was known before each step and after
/// the last one, what happened before each step, and what it asked for.
pub struct Run {
    pub passes: Seq<Pass>,
    pub known: Seq<Seq<Entry>>,
    pub events: Seq<PassEvent>,
    pub steps: Seq<PassStep>,
}

/// Whether a run is the carrying out of the plan for these accounts, from its
/// beginning on.
pub open spec fn is_run(run: Run, users: Seq<AuthentikUserView>, catalogue: Catalogue) -> bool {
    &&& run.passes.len() == run.steps.len() + 1
    &&& run.known.len() == run.steps.len() + 1
    &&& run.events.len() == run.steps.len()
    &&& change_views(run.passes[0].plan()) == planned(run.known[0], users)
    &&& run.passes[0].position() == 0
    &&& run.passes[0].errand() is Idle
    &&& forall|i: int| #![trigger run.steps[i]]
        0 <= i < run.steps.len() ==> stepped(
            run.passes[i],
            run.known[i],
            users,
            catalogue,
            run.events[i],
            run.passes[i + 1],
            run.known[i + 1],
            run.steps[i],
        )
}

/// Whether what a pass waits for has turned out well.
pub open spec fn turned_out_well(errand: Errand, event: PassEvent) -> bool {
    match errand {
        Errand::Idle => true,
        Errand::Name { .. } => event matches PassEvent::Resolved(Resolution::Found(_)),
        Errand::Welcome { .. } => event == PassEvent::Sent(true),
        Errand::Goodbye { .. } => event == PassEvent::Sent(true),
    }
}

/// Whether every name of a run was found, and every message went out.
pub open spec fn all_went_well(run: Run) -> bool {
    forall|i: int| #![trigger run.steps[i]]
        0 <= i < run.steps.len() ==> turned_out_well(run.passes[i].errand(), run.events[i])
}

/// Whether a run has come to its end.
pub open spec fn has_ended(run: Run) -> bool {
    run.steps.len() > 0 && run.steps.last() is Done
}

/// Whether a step of a run sends an account its welcome.
pub open spec fn welcomes(run: Run, at: int, username: Seq<char>) -> bool {
    &&& run.steps[at] is Send
    &&& run.passes[at + 1].errand() matches Errand::Welcome { username: u } && u@ == username
}

/// Whether no account is listed twice.
pub open spec fn listed_once(users: Seq<AuthentikUserView>) -> bool {
    forall|i: int, j: int|
        0 <= i < j < users.len() ==> (#[trigger] users[i]).username != (
        #[trigger] users[j]).username
}

/// The account that a change is about.
pub open spec fn subject(change: ChangeView) -> Seq<char> {
    match change {
        ChangeView::Added { username, .. } => username,
        ChangeView::Rebound { username, .. } => username,
        ChangeView::Greet { username } => username,
        ChangeView::Removed { username, .. } => username,
        ChangeView::Conflict { username, .. } => username,
    }
}

/// Whether a change leads to a welcome.
pub open spec fn leads_to_a_welcome(change: ChangeView) -> bool {
    change is Added || change is Rebound || change is Greet
}

/// Whether a pass waits for something about an account.
pub open spec fn is_about(errand: Errand, username: Seq<char>) -> bool {
    match errand {
        Errand::Idle => false,
        Errand::Name { username: u, .. } => u@ == username,
        Errand::Welcome { username: u } => u@ == username,
        Errand::Goodbye { username: u } => u@ == username,
    }
}

/// Whether a change follows from a listed account.
pub open spec fn follows(entries: Seq<Entry>, users: Seq<AuthentikUserView>, change: ChangeView) -> bool {
    exists|at: int, claims: Seq<Claim>|
        0 <= at < users.len() && #[trigger] change_for(entries, claims, users[at]) == Some(change)
}

proof fn lemma_changes(entries: Seq<Entry>, users: Seq<AuthentikUserView>, n: int)
    requires
        listed_once(users),
        0 <= n <= users.len(),
    ensures
        ({
            let changes = changes_through(entries, users.take(n));
            &&& forall|i: int| #![trigger changes[i]]
                0 <= i < changes.len() ==> follows(entries, users, changes[i]) && is_listed(
                    users.take(n),
                    subject(changes[i]),
                )
            &&& forall|i: int, j: int| #![trigger changes[i], changes[j]]
                0 <= i < j < changes.len() ==> subject(changes[i]) != subject(changes[j])
        }),
    decreases n,
{
    if n > 0 {
        let m = n - 1;
        let part = users.take(n);
        lemma_changes(entries, users, m);
        assert(part.drop_last() =~= users.take(m));
        assert(part.last() == users[m]);
        let before = changes_through(entries, users.take(m));
        let changes = changes_through(entries, part);
        let claims = claims_through(entries, users.take(m));
        assert forall|i: int| #![trigger changes[i]] 0 <= i < changes.len() implies follows(
            entries,
            users,
            changes[i],
        ) && is_listed(part, subject(changes[i])) by {
            if i < before.len() {
                assert(changes[i] == before[i]);
                let at = choose|at: int|
                    0 <= at < users.take(m).len() && (#[trigger] users.take(m)[at]).username
                        == subject(before[i]);
                assert(part[at].username == subject(changes[i]));
            } else {
                assert(change_for(entries, claims, users[m]) == Some(changes[i]));
                assert(part[m].username == subject(changes[i]));
            }
        }
        assert forall|i: int, j: int| #![trigger changes[i], changes[j]]
            0 <= i < j < changes.len() implies subject(changes[i]) != subject(changes[j]) by {
            assert(changes[i] == before[i]);
            if j < before.len() {
                assert(changes[j] == before[j]);
            } else {
                let at = choose|at: int|
                    0 <= at < users.take(m).len() && (#[trigger] users.take(m)[at]).username
                        == subject(before[i]);
                assert(users[at].username != users[m].username);
            }
        }
    }
}

proof fn lemma_goodbyes(entries: Seq<Entry>, users: Seq<AuthentikUserView>)
    ensures
        ({
            let gone = entries.filter_map(|e: Entry| vanished(users, e));
            forall|i: int| #![trigger gone[i]]
                0 <= i < gone.len() ==> gone[i] is Removed && !is_listed(users, subject(gone[i]))
        }),
    decreases entries.len(),
{
    if entries.len() > 0 {
        let before = entries.drop_last().filter_map(|e: Entry| vanished(users, e));
        let gone = entries.filter_map(|e: Entry| vanished(users, e));
        lemma_goodbyes(entries.drop_last(), users);
        assert forall|i: int| #![trigger gone[i]] 0 <= i < gone.len() implies gone[i] is Removed
            && !is_listed(users, subject(gone[i])) by {
            if i < before.len() {
                assert(gone[i] == before[i]);
            }
        }
    }
}

/// A plan has one change at most about a listed account, and it follows from
/// what is listed.
pub(crate) proof fn lemma_plan(entries: Seq<Entry>, users: Seq<AuthentikUserView>)
    requires
        listed_once(users),
    ensures
        ({
            let plan = planned(entries, users);
            &&& forall|i: int| #![trigger plan[i]]
                0 <= i < plan.len() && is_listed(users, subject(plan[i])) ==> follows(
                    entries,
                    users,
                    plan[i],
                )
            &&& forall|i: int| #![trigger plan[i]]
                0 <= i < plan.len() && leads_to_a_welcome(plan[i]) ==> is_listed(
                    users,
                    subject(plan[i]),
                )
            &&& forall|i: int, j: int| #![trigger plan[i], plan[j]]
                0 <= i < j < plan.len() && is_listed(users, subject(plan[i])) ==> subject(plan[i])
                    != subject(plan[j])
        }),
{
    let plan = planned(entries, users);
    let changes = changes_through(entries, users);
    let gone = entries.filter_map(|e: Entry| vanished(users, e));
    lemma_changes(entries, users, users.len() as int);
    assert(users.take(users.len() as int) =~= users);
    lemma_goodbyes(entries, users);
    assert forall|i: int| #![trigger plan[i]] 0 <= i < plan.len() implies (plan[i]
        == if i < changes.len() {
        changes[i]
    } else {
        gone[i - changes.len()]
    }) by {}
    assert forall|i: int| #![trigger plan[i]] 0 <= i < plan.len() implies (is_listed(
        users,
        subject(plan[i]),
    ) <==> i < changes.len()) by {
        if i < changes.len() {
            assert(is_listed(users, subject(changes[i])));
        } else {
            assert(!is_listed(users, subject(gone[i - changes.len()])));
        }
    }
    assert forall|i: int| #![trigger plan[i]]
        0 <= i < plan.len() && is_listed(users, subject(plan[i])) implies follows(
        entries,
        users,
        plan[i],
    ) by {
        assert(follows(entries, users, changes[i]));
    }
    assert forall|i: int| #![trigger plan[i]]
        0 <= i < plan.len() && leads_to_a_welcome(plan[i]) implies is_listed(
        users,
        subject(plan[i]),
    ) by {
        if i >= changes.len() {
            assert(gone[i - changes.len()] is Removed);
        }
    }
    assert forall|i: int, j: int| #![trigger plan[i], plan[j]]
        0 <= i < j < plan.len() && is_listed(users, subject(plan[i])) implies subject(plan[i])
        != subject(plan[j]) by {
        if j < changes.len() {
            assert(subject(changes[i]) != subject(changes[j]));
        }
    }
}

pub(crate) proof fn lemma_next_work(changes: Seq<Change>, at: int, entries: Seq<Entry>)
    requires
        0 <= at <= changes.len(),
    ensures
        at <= next_work(changes, at, entries) <= changes.len(),
        forall|i: int|
            at <= i < next_work(changes, at, entries) ==> !takes_work(
                #[trigger] changes[i],
                entries,
            ),
    decreases changes.len() - at,
{
    if at < changes.len() && !takes_work(changes[at], entries) {
        lemma_next_work(changes, at + 1, entries);
    }
}

proof fn lemma_entry_among_others(entries: Seq<Entry>, user: Seq<char>, other: Seq<char>)
    requires
        user != other,
    ensures
        entry_of(others_than(entries, other), user) == entry_of(entries, user),
    decreases entries.len(),
{
    reveal(Seq::filter);
    let keep = |e: Entry| !is_of(e, other);
    if entries.len() > 0 {
        let rest = entries.skip(1);
        lemma_entry_among_others(rest, user, other);
        assert(entries =~= seq![entries[0]] + rest);
        Seq::filter_distributes_over_add(seq![entries[0]], rest, keep);
        let first = seq![entries[0]];
        let none = Seq::<Entry>::empty();
        assert(none.filter(keep) =~= none);
        none.lemma_filter_push(entries[0], keep);
        assert(first =~= none.push(entries[0]));
        if is_of(entries[0], other) {
            assert(first.filter(keep) =~= Seq::empty());
            assert(others_than(entries, other) =~= others_than(rest, other));
        } else {
            assert(first.filter(keep) =~= first);
            let kept = others_than(entries, other);
            assert(kept =~= first + others_than(rest, other));
            assert(kept.skip(1) =~= others_than(rest, other));
        }
    } else {
        assert(others_than(entries, other) =~= entries);
    }
}

proof fn lemma_entry_before(entries: Seq<Entry>, last: Entry, user: Seq<char>)
    requires
        !is_of(last, user),
    ensures
        entry_of(entries.push(last), user) == entry_of(entries, user),
    decreases entries.len(),
{
    let more = entries.push(last);
    if entries.len() > 0 {
        lemma_entry_before(entries.skip(1), last, user);
        assert(more.skip(1) =~= entries.skip(1).push(last));
    } else {
        assert(more.skip(1) =~= entries);
    }
}

proof fn lemma_entry_without(entries: Seq<Entry>, user: Seq<char>, other: Seq<char>)
    requires
        user != other,
    ensures
        entry_of(without_first(entries, other), user) == entry_of(entries, user),
    decreases entries.len(),
{
    if entries.len() > 0 && !is_of(entries[0], other) {
        lemma_entry_without(entries.skip(1), user, other);
        let left = without_first(entries, other);
        assert(left.skip(1) =~= without_first(entries.skip(1), other));
    }
}

/// What a step does to the people it is not about: nothing.
pub(crate) proof fn lemma_others_are_left_alone(
    before: Pass,
    entries: Seq<Entry>,
    users: Seq<AuthentikUserView>,
    catalogue: Catalogue,
    event: PassEvent,
    after: Pass,
    entries_after: Seq<Entry>,
    step: PassStep,
    user: Seq<char>,
)
    requires
        stepped(before, entries, users, catalogue, event, after, entries_after, step),
        !is_about(before.errand(), user),
    ensures
        entry_of(entries_after, user) == entry_of(entries, user),
{
    match (before.errand(), event) {
        (
            Errand::Name { username, signal_username, locale, groups },
            PassEvent::Resolved(Resolution::Found(aci)),
        ) => {
            lemma_entry_among_others(entries, user, username@);
            lemma_entry_before(others_than(entries, username@), entries_after.last(), user);
        },
        (Errand::Welcome { username }, PassEvent::Sent(true)) => {
            if entry_of(entries, username@) is Some {
                let entry = entry_of(entries, username@)->0;
                lemma_entry_is_of(entries, username@);
                lemma_entry_among_others(entries, user, username@);
                lemma_entry_before(others_than(entries, username@), greeted(entry), user);
            }
        },
        (Errand::Goodbye { username }, PassEvent::Sent(_)) => {
            lemma_entry_without(entries, user, username@);
        },
        _ => {},
    }
}

/// Without a change about an account nothing is done about it.
proof fn lemma_no_change_no_errand(
    run: Run,
    users: Seq<AuthentikUserView>,
    catalogue: Catalogue,
    user: Seq<char>,
    n: int,
)
    requires
        is_run(run, users, catalogue),
        forall|i: int|
            0 <= i < planned(run.known[0], users).len() ==> subject(
                #[trigger] planned(run.known[0], users)[i],
            ) != user,
        0 <= n <= run.steps.len(),
    ensures
        run.passes[n].plan() == run.passes[0].plan(),
        0 <= run.passes[n].position() <= run.passes[n].plan().len(),
        !is_about(run.passes[n].errand(), user),
    decreases n,
{
    if n > 0 {
        let m = n - 1;
        lemma_no_change_no_errand(run, users, catalogue, user, m);
        let step = run.steps[m];
        let before = run.passes[m];
        let plan = before.plan();
        lemma_next_work(plan, before.position(), run.known[n]);
        let next = next_work(plan, before.position(), run.known[n]);
        if next < plan.len() {
            assert(change_views(plan)[next] == plan[next]@);
            assert(subject(planned(run.known[0], users)[next]) != user);
        }
    }
}

/// What a pass has to do with one account, which the change at `at` is about:
/// nothing before it comes to that change, and nothing after.
spec fn on_track(
    pass: Pass,
    entries: Seq<Entry>,
    first: Option<Entry>,
    at: int,
    user: Seq<char>,
    wanted: Seq<char>,
) -> bool {
    &&& 0 <= pass.position() <= pass.plan().len()
    &&& pass.position() <= at ==> {
        &&& !is_about(pass.errand(), user)
        &&& entry_of(entries, user) == first
    }
    &&& pass.position() > at && !is_about(pass.errand(), user) && leads_to_a_welcome(
        pass.plan()[at]@,
    ) ==> (entry_of(entries, user) matches Some(e) && e.greeted && same_ascii_caseless(
        e.signal_username@,
        wanted,
    ))
    &&& is_about(pass.errand(), user) ==> {
        &&& pass.position() == at + 1
        &&& match pass.errand() {
            Errand::Idle => false,
            Errand::Name { signal_username, .. } => signal_username@ == wanted
                && leads_to_a_welcome(pass.plan()[at]@),
            Errand::Welcome { .. } => leads_to_a_welcome(pass.plan()[at]@) && (entry_of(
                entries,
                user,
            ) matches Some(e) && same_ascii_caseless(e.signal_username@, wanted)),
            Errand::Goodbye { .. } => pass.plan()[at]@ is Removed,
        }
    }
}

/// Whether the change at `at` is what there is to do about an account, and
/// the only one about it.
pub open spec fn is_the_change(
    plan: Seq<Change>,
    first: Option<Entry>,
    at: int,
    user: Seq<char>,
    wanted: Seq<char>,
) -> bool {
    &&& 0 <= at < plan.len()
    &&& subject(plan[at]@) == user
    &&& forall|i: int| 0 <= i < plan.len() && i != at ==> subject((#[trigger] plan[i])@) != user
    &&& match plan[at]@ {
        ChangeView::Added { signal_username, .. } => signal_username == wanted,
        ChangeView::Rebound { signal_username, .. } => signal_username == wanted,
        ChangeView::Greet { .. } => first matches Some(e) && same_ascii_caseless(
            e.signal_username@,
            wanted,
        ),
        _ => true,
    }
}

proof fn lemma_went_on(
    before: Pass,
    entries: Seq<Entry>,
    users: Seq<AuthentikUserView>,
    catalogue: Catalogue,
    after: Pass,
    step: PassStep,
    first: Option<Entry>,
    at: int,
    user: Seq<char>,
    wanted: Seq<char>,
)
    requires
        went_on(before, entries, users, catalogue, after, step),
        is_the_change(before.plan(), first, at, user, wanted),
        0 <= before.position() <= before.plan().len(),
        before.position() <= at ==> entry_of(entries, user) == first,
        before.position() > at && leads_to_a_welcome(before.plan()[at]@) ==> (entry_of(
            entries,
            user,
        ) matches Some(e) && e.greeted && same_ascii_caseless(e.signal_username@, wanted)),
    ensures
        on_track(after, entries, first, at, user, wanted),
        before.position() > at ==> !is_about(after.errand(), user),
        after.position() >= before.position(),
        after.position() > at && before.position() <= at && leads_to_a_welcome(before.plan()[at]@)
            ==> is_about(after.errand(), user),
{
    let plan = before.plan();
    lemma_next_work(plan, before.position(), entries);
    let next = next_work(plan, before.position(), entries);
    if before.position() <= at && next > at {
        assert(!takes_work(plan[at], entries));
    }
    if next < plan.len() && next != at {
        assert(subject(plan[next]@) != user);
    }
}

proof fn lemma_step(
    before: Pass,
    entries: Seq<Entry>,
    users: Seq<AuthentikUserView>,
    catalogue: Catalogue,
    event: PassEvent,
    after: Pass,
    entries_after: Seq<Entry>,
    step: PassStep,
    first: Option<Entry>,
    at: int,
    user: Seq<char>,
    wanted: Seq<char>,
)
    requires
        stepped(before, entries, users, catalogue, event, after, entries_after, step),
        turned_out_well(before.errand(), event),
        is_the_change(before.plan(), first, at, user, wanted),
        on_track(before, entries, first, at, user, wanted),
    ensures
        on_track(after, entries_after, first, at, user, wanted),
        before.position() > at && !is_about(before.errand(), user) ==> after.position() > at
            && !is_about(after.errand(), user),
        before.errand() is Welcome && is_about(before.errand(), user) ==> after.position() > at
            && !is_about(after.errand(), user),
        leads_to_a_welcome(before.plan()[at]@) && after.position() > at && !is_about(
            after.errand(),
            user,
        ) && !(before.position() > at && !is_about(before.errand(), user)) ==> before.errand()
            is Welcome && is_about(before.errand(), user),
{
    if !is_about(before.errand(), user) {
        lemma_others_are_left_alone(
            before,
            entries,
            users,
            catalogue,
            event,
            after,
            entries_after,
            step,
            user,
        );
        if !(before.errand() is Name) {
            lemma_went_on(
                before,
                entries_after,
                users,
                catalogue,
                after,
                step,
                first,
                at,
                user,
                wanted,
            );
        }
    } else {
        match before.errand() {
            Errand::Name { username, signal_username, locale, groups } => {
                let newcomer = entries_after.last();
                law_upsert_replaces(entries, newcomer);
                lemma_first_is_entry(entries_after, user, entries_after.len() - 1);
            },
            Errand::Welcome { username } => {
                law_a_welcome_is_remembered(entries, user);
                lemma_went_on(
                    before,
                    entries_after,
                    users,
                    catalogue,
                    after,
                    step,
                    first,
                    at,
                    user,
                    wanted,
                );
            },
            _ => {
                lemma_went_on(
                    before,
                    entries_after,
                    users,
                    catalogue,
                    after,
                    step,
                    first,
                    at,
                    user,
                    wanted,
                );
            },
        }
    }
}

/// Whether the pass is done with an account.
spec fn is_done(pass: Pass, at: int, user: Seq<char>) -> bool {
    pass.position() > at && !is_about(pass.errand(), user)
}

proof fn lemma_on_track(
    run: Run,
    users: Seq<AuthentikUserView>,
    catalogue: Catalogue,
    at: int,
    user: Seq<char>,
    wanted: Seq<char>,
    n: int,
)
    requires
        is_run(run, users, catalogue),
        all_went_well(run),
        is_the_change(run.passes[0].plan(), entry_of(run.known[0], user), at, user, wanted),
        0 <= n <= run.steps.len(),
    ensures
        run.passes[n].plan() == run.passes[0].plan(),
        on_track(run.passes[n], run.known[n], entry_of(run.known[0], user), at, user, wanted),
        leads_to_a_welcome(run.passes[0].plan()[at]@) && is_done(run.passes[n], at, user)
            ==> exists|k: int| 0 <= k < n && #[trigger] welcomes(run, k, user),
    decreases n,
{
    let first = entry_of(run.known[0], user);
    if n > 0 {
        let m = n - 1;
        lemma_on_track(run, users, catalogue, at, user, wanted, m);
        let step = run.steps[m];
        lemma_step(
            run.passes[m],
            run.known[m],
            users,
            catalogue,
            run.events[m],
            run.passes[n],
            run.known[n],
            step,
            first,
            at,
            user,
            wanted,
        );
        if leads_to_a_welcome(run.passes[0].plan()[at]@) && is_done(run.passes[n], at, user) {
            if is_done(run.passes[m], at, user) {
                let k = choose|k: int| 0 <= k < m && #[trigger] welcomes(run, k, user);
                assert(welcomes(run, k, user));
            } else {
                assert(m > 0);
                let k = m - 1;
                let earlier = run.steps[k];
                assert(welcomes(run, k, user));
            }
        }
    }
}

proof fn lemma_done_stays_done(
    run: Run,
    users: Seq<AuthentikUserView>,
    catalogue: Catalogue,
    at: int,
    user: Seq<char>,
    wanted: Seq<char>,
    from: int,
    n: int,
)
    requires
        is_run(run, users, catalogue),
        all_went_well(run),
        is_the_change(run.passes[0].plan(), entry_of(run.known[0], user), at, user, wanted),
        0 <= from <= n <= run.steps.len(),
        is_done(run.passes[from], at, user),
    ensures
        is_done(run.passes[n], at, user),
    decreases n - from,
{
    if from < n {
        let m = n - 1;
        lemma_done_stays_done(run, users, catalogue, at, user, wanted, from, m);
        lemma_on_track(run, users, catalogue, at, user, wanted, m);
        let step = run.steps[m];
        lemma_step(
            run.passes[m],
            run.known[m],
            users,
            catalogue,
            run.events[m],
            run.passes[n],
            run.known[n],
            step,
            entry_of(run.known[0], user),
            at,
            user,
            wanted,
        );
    }
}

/// The change that a plan has for a listed account.
pub(crate) proof fn lemma_the_change(
    plan: Seq<Change>,
    entries: Seq<Entry>,
    users: Seq<AuthentikUserView>,
    at: int,
) -> (listed: int)
    requires
        listed_once(users),
        change_views(plan) == planned(entries, users),
        0 <= at < plan.len(),
        leads_to_a_welcome(plan[at]@),
    ensures
        0 <= listed < users.len(),
        users[listed].username == subject(plan[at]@),
        signal_name_of(users[listed]) is Some,
        is_the_change(
            plan,
            entry_of(entries, subject(plan[at]@)),
            at,
            subject(plan[at]@),
            signal_name_of(users[listed])->0,
        ),
{
    let all = planned(entries, users);
    let user = subject(plan[at]@);
    lemma_plan(entries, users);
    assert(all[at] == plan[at]@);
    let (listed, claims) = choose|listed: int, claims: Seq<Claim>|
        0 <= listed < users.len() && #[trigger] change_for(entries, claims, users[listed]) == Some(
            all[at],
        );
    assert forall|i: int| 0 <= i < plan.len() && i != at implies subject((#[trigger] plan[i])@)
        != user by {
        assert(all[i] == plan[i]@);
        if i < at && subject(all[i]) == user {
            assert(is_listed(users, subject(all[i])));
        }
    }
    listed
}

/// A welcome comes of the change about the account.
proof fn lemma_welcome_has_its_change(
    run: Run,
    users: Seq<AuthentikUserView>,
    catalogue: Catalogue,
    user: Seq<char>,
    n: int,
) -> (at: int)
    requires
        is_run(run, users, catalogue),
        0 <= n <= run.steps.len(),
    ensures
        run.passes[n].plan() == run.passes[0].plan(),
        0 <= run.passes[n].position() <= run.passes[n].plan().len(),
        is_about(run.passes[n].errand(), user) && !(run.passes[n].errand() is Goodbye) ==> {
            &&& 0 <= at < run.passes[0].plan().len()
            &&& leads_to_a_welcome(run.passes[0].plan()[at]@)
            &&& subject(run.passes[0].plan()[at]@) == user
        },
    decreases n,
{
    if n > 0 {
        let m = n - 1;
        let earlier = lemma_welcome_has_its_change(run, users, catalogue, user, m);
        let step = run.steps[m];
        let before = run.passes[m];
        lemma_next_work(before.plan(), before.position(), run.known[n]);
        if run.events[m] matches PassEvent::Resolved(Resolution::Found(_)) && before.errand() is Name
        {
            earlier
        } else {
            next_work(before.plan(), before.position(), run.known[n])
        }
    } else {
        0
    }
}

/// Everybody is welcomed once. In a pass in which every name is found and
/// every message goes out, whoever is sent a welcome is sent no other, and a
/// second pass over the same accounts sends them none, however it goes.
pub proof fn law_everybody_is_welcomed_once(
    run: Run,
    second: Run,
    users: Seq<AuthentikUserView>,
    catalogue: Catalogue,
    user: Seq<char>,
    at: int,
)
    requires
        listed_once(users),
        is_run(run, users, catalogue),
        all_went_well(run),
        has_ended(run),
        is_run(second, users, catalogue),
        second.known[0] == run.known.last(),
        0 <= at < run.steps.len(),
        welcomes(run, at, user),
    ensures
        forall|k: int|
            0 <= k < run.steps.len() && k != at ==> !#[trigger] welcomes(run, k, user),
        forall|k: int| 0 <= k < second.steps.len() ==> !#[trigger] welcomes(second, k, user),
{
    let n = run.steps.len() as int;
    let plan = run.passes[0].plan();
    let change = lemma_welcome_has_its_change(run, users, catalogue, user, at + 1);
    let listed = lemma_the_change(plan, run.known[0], users, change);
    let wanted = signal_name_of(users[listed])->0;
    assert forall|k: int| 0 <= k < n && k != at implies !#[trigger] welcomes(run, k, user) by {
        if welcomes(run, k, user) {
            let (a, b) = if at < k {
                (at, k)
            } else {
                (k, at)
            };
            lemma_on_track(run, users, catalogue, change, user, wanted, a + 1);
            let step = run.steps[a + 1];
            lemma_step(
                run.passes[a + 1],
                run.known[a + 1],
                users,
                catalogue,
                run.events[a + 1],
                run.passes[a + 2],
                run.known[a + 2],
                step,
                entry_of(run.known[0], user),
                change,
                user,
                wanted,
            );
            lemma_done_stays_done(run, users, catalogue, change, user, wanted, a + 2, b + 1);
        }
    }
    lemma_ended(run, users, catalogue);
    lemma_on_track(run, users, catalogue, change, user, wanted, n);
    let known = run.known[n];
    assert(settled(known, users[listed]));
    let again = planned(known, users);
    lemma_plan(known, users);
    assert forall|i: int| 0 <= i < again.len() implies subject(#[trigger] again[i]) != user by {
        if subject(again[i]) == user {
            assert(is_listed(users, user));
            let (other, claims) = choose|other: int, claims: Seq<Claim>|
                0 <= other < users.len() && #[trigger] change_for(known, claims, users[other])
                    == Some(again[i]);
            assert(other == listed) by {
                if other < listed {
                    assert(users[other].username != users[listed].username);
                } else if listed < other {
                    assert(users[listed].username != users[other].username);
                }
            }
        }
    }
    assert forall|k: int| 0 <= k < second.steps.len() implies !#[trigger] welcomes(
        second,
        k,
        user,
    ) by {
        lemma_no_change_no_errand(second, users, catalogue, user, k + 1);
    }
}

proof fn lemma_ended(run: Run, users: Seq<AuthentikUserView>, catalogue: Catalogue)
    requires
        is_run(run, users, catalogue),
        has_ended(run),
    ensures
        run.passes.last().errand() is Idle,
        run.passes.last().position() == run.passes[0].plan().len(),
{
    let n = run.steps.len() as int;
    let m = n - 1;
    let at = lemma_welcome_has_its_change(run, users, catalogue, Seq::empty(), m);
    let step = run.steps[m];
    lemma_next_work(run.passes[m].plan(), run.passes[m].position(), run.known[n]);
}

/// Nobody who is due a welcome goes without: in a whole pass in which every
/// name is found and every message goes out, everybody whom the plan adds,
/// finds under a new name or finds not yet greeted is sent their welcome.
pub proof fn law_whoever_is_due_is_welcomed(
    run: Run,
    users: Seq<AuthentikUserView>,
    catalogue: Catalogue,
    change: int,
)
    requires
        listed_once(users),
        is_run(run, users, catalogue),
        all_went_well(run),
        has_ended(run),
        0 <= change < planned(run.known[0], users).len(),
        leads_to_a_welcome(planned(run.known[0], users)[change]),
    ensures
        exists|k: int|
            0 <= k < run.steps.len() && #[trigger] welcomes(
                run,
                k,
                subject(planned(run.known[0], users)[change]),
            ),
{
    let n = run.steps.len() as int;
    let plan = run.passes[0].plan();
    assert(change_views(plan)[change] == plan[change]@);
    let user = subject(plan[change]@);
    let listed = lemma_the_change(plan, run.known[0], users, change);
    lemma_ended(run, users, catalogue);
    lemma_on_track(
        run,
        users,
        catalogue,
        change,
        user,
        signal_name_of(users[listed])->0,
        n,
    );
}

} // verus!
