//! What becomes of a listed account, said of what Authentik lists.

use crate::directory::diff::{
    AuthentikUserView, Change, ChangeView, Claim, change_for, changes_through, claims_of, holder_of,
    planned, vanished,
};
use crate::directory::run::{
    Run, is_about, is_run, leads_to_a_welcome, lemma_next_work,
    lemma_others_are_left_alone, lemma_the_change, listed_once, subject,
};
use crate::directory::{
    Errand, Pass, PassEvent, PassStep, Resolution, greeted, group_name,
    law_a_welcome_is_remembered, listed_groups, listed_locale, member_in, next_work, stepped,
    takes_work, user_of,
};
use crate::i18n::{Catalogue, Locale, language_part, locale_for};
use crate::json::{JsonView, elements_of, field_of, text_of};
use crate::state::{
    Entry, entry_of, law_remove_forgets, law_upsert_replaces, lemma_entry_is_of,
    lemma_first_is_entry, lemma_nobody_has_no_entry, one_entry_each,
};
use crate::text::{lowercase, same_ascii_caseless, trimmed, views};
use crate::watch::laws::lemma_known;
use vstd::prelude::*;

verus! {

/// An account is listed as Authentik has it: under its username, with the
/// Signal name that is entered, the locale of its settings or else the
/// fallback, and the names of its groups. Without a username it is none.
pub proof fn law_an_account_is_as_authentik_has_it(user: JsonView, fallback: Seq<char>)
    ensures
        ({
            let attributes = field_of(Some(user), "attributes"@);
            let locale = text_of(field_of(field_of(attributes, "settings"@), "locale"@));
            let groups = elements_of(field_of(Some(user), "groups_obj"@));
            match user_of(user, fallback) {
                Some(account) => {
                    &&& text_of(field_of(Some(user), "username"@)) == Some(account.username)
                    &&& account.signal_username == text_of(
                        field_of(attributes, "signal_username"@),
                    )
                    &&& account.locale == if locale is Some && locale->0.len() > 0 {
                        locale->0
                    } else {
                        fallback
                    }
                    &&& forall|i: int|
                        0 <= i < groups.len() && text_of(
                            field_of(Some(#[trigger] groups[i]), "name"@),
                        ) is Some ==> account.groups.contains(
                            text_of(field_of(Some(groups[i]), "name"@))->0,
                        )
                    &&& forall|name: Seq<char>| #[trigger]
                        account.groups.contains(name) ==> exists|group: JsonView| #[trigger]
                            groups.contains(group) && text_of(field_of(Some(group), "name"@))
                                == Some(name)
                },
                None => text_of(field_of(Some(user), "username"@)) is None,
            }
        }),
{
    let groups = elements_of(field_of(Some(user), "groups_obj"@));
    let named = |group: JsonView| group_name(group);
    if let Some(account) = user_of(user, fallback) {
        assert forall|i: int|
            0 <= i < groups.len() && text_of(
                field_of(Some(#[trigger] groups[i]), "name"@),
            ) is Some implies account.groups.contains(
            text_of(field_of(Some(groups[i]), "name"@))->0,
        ) by {
            lemma_filter_map_has(groups, named, i);
        }
        assert forall|name: Seq<char>| #[trigger]
            account.groups.contains(name) implies exists|group: JsonView| #[trigger]
            groups.contains(group) && text_of(field_of(Some(group), "name"@)) == Some(name) by {
            groups.lemma_filter_map_contains(named, name);
        }
    }
}

/// Whether a locale setting names German: the two letters of the language
/// alone, or followed by a region.
pub open spec fn names_german(raw: Seq<char>) -> bool {
    &&& raw.len() >= 2
    &&& raw[0] == 'd'
    &&& raw[1] == 'e'
    &&& raw.len() > 2 ==> raw[2] == '-' || raw[2] == '_'
}

/// A locale setting is taken for German exactly where it names German, and
/// for English everywhere else.
pub proof fn law_german_is_named(raw: Seq<char>)
    ensures
        locale_for(raw) == Locale::De <==> names_german(raw),
        locale_for(raw) == Locale::En <==> !names_german(raw),
{
    reveal_with_fuel(language_part, 4);
    let part = language_part(raw);
    if raw.len() > 0 && raw[0] != '-' && raw[0] != '_' {
        let second = raw.skip(1);
        assert(part[0] == raw[0]);
        if second.len() > 0 && second[0] != '-' && second[0] != '_' {
            assert(second[0] == raw[1]);
            assert(part[1] == raw[1]);
            let third = second.skip(1);
            if third.len() > 0 {
                assert(third[0] == raw[2]);
            }
            if third.len() == 0 || third[0] == '-' || third[0] == '_' {
                assert(part =~= seq![raw[0], raw[1]]);
            } else {
                assert(language_part(third).len() > 0);
                assert(part.len() > 2);
            }
        } else {
            assert(part.len() == 1);
        }
    } else {
        assert(part.len() == 0);
    }
}

/// Whether an account is listed at a position, and nowhere before it.
pub open spec fn is_first_listed(
    users: Seq<AuthentikUserView>,
    username: Seq<char>,
    i: int,
) -> bool {
    &&& 0 <= i < users.len()
    &&& users[i].username == username
    &&& forall|j: int| 0 <= j < i ==> (#[trigger] users[j]).username != username
}

proof fn lemma_listed(users: Seq<AuthentikUserView>, username: Seq<char>, i: int)
    requires
        is_first_listed(users, username, i),
    ensures
        listed_locale(users, username) == locale_for(users[i].locale),
        listed_groups(users, username) == users[i].groups,
    decreases i,
{
    if i > 0 {
        let rest = users.skip(1);
        assert(users[0].username != username);
        assert forall|j: int| 0 <= j < i - 1 implies (#[trigger] rest[j]).username != username by {
            assert(users[j + 1] == rest[j]);
        }
        lemma_listed(rest, username, i - 1);
    }
}

/// The welcome as the catalogue has it: the greeting by name, and what one can
/// write.
pub open spec fn greeting(catalogue: Catalogue, locale: Locale, username: Seq<char>) -> Seq<char> {
    catalogue.says(locale, "greeting.title"@, seq![("name"@, username)]) + "\n\n"@
        + catalogue.says(locale, "help.body"@, Seq::empty())
}

/// The language that a locale setting stands for.
pub open spec fn spoken_in(raw: Seq<char>) -> Locale {
    if names_german(raw) {
        Locale::De
    } else {
        Locale::En
    }
}

/// Whether what a pass waits for is what it has begun last, with the name and
/// the language that are listed.
spec fn is_in_hand(pass: Pass, users: Seq<AuthentikUserView>, user: Seq<char>) -> bool {
    &&& 0 <= pass.position() <= pass.plan().len()
    &&& is_about(pass.errand(), user) ==> {
        &&& pass.position() >= 1
        &&& subject(pass.plan()[pass.position() - 1]@) == user
        &&& !(pass.errand() is Goodbye) ==> leads_to_a_welcome(
            pass.plan()[pass.position() - 1]@,
        )
        &&& pass.errand() matches Errand::Name { signal_username, locale, groups, .. } ==> {
            &&& locale == listed_locale(users, user)
            &&& views(groups@) == listed_groups(users, user)
            &&& match pass.plan()[pass.position() - 1]@ {
                ChangeView::Added { signal_username: wanted, .. } => wanted
                    == signal_username@,
                ChangeView::Rebound { signal_username: wanted, .. } => wanted
                    == signal_username@,
                _ => false,
            }
        }
    }
}

proof fn lemma_in_hand(
    run: Run,
    users: Seq<AuthentikUserView>,
    catalogue: Catalogue,
    user: Seq<char>,
    n: int,
)
    requires
        is_run(run, users, catalogue),
        0 <= n <= run.steps.len(),
    ensures
        run.passes[n].plan() == run.passes[0].plan(),
        is_in_hand(run.passes[n], users, user),
    decreases n,
{
    if n > 0 {
        let m = n - 1;
        lemma_in_hand(run, users, catalogue, user, m);
        let step = run.steps[m];
        let before = run.passes[m];
        lemma_next_work(before.plan(), before.position(), run.known[n]);
    }
}

/// Whether somebody who was found is stored as listed: under the name that
/// was looked up and the account that was found, with the language and the
/// groups that are listed.
pub open spec fn is_stored_as_listed(
    entries: Seq<Entry>,
    user: AuthentikUserView,
    aci: Seq<char>,
) -> bool {
    &&& entry_of(entries, user.username) matches Some(e)
    &&& e.authentik_username@ == user.username
    &&& e.aci@ == aci
    &&& e.locale == spoken_in(user.locale)
    &&& views(e.groups@) == user.groups
    &&& user.signal_username matches Some(name) && e.signal_username@ == trimmed(name)
}

proof fn lemma_stays_stored(
    run: Run,
    users: Seq<AuthentikUserView>,
    catalogue: Catalogue,
    user: AuthentikUserView,
    aci: Seq<char>,
    at: int,
    k: int,
    n: int,
)
    requires
        is_run(run, users, catalogue),
        0 <= k < n <= run.steps.len(),
        is_about(run.passes[k].errand(), user.username),
        run.passes[k].errand() is Name,
        run.events[k] matches PassEvent::Resolved(Resolution::Found(_)),
        run.passes[k].position() == at + 1,
        forall|i: int|
            0 <= i < run.passes[0].plan().len() && i != at ==> subject(
                (#[trigger] run.passes[0].plan()[i])@,
            ) != user.username,
        is_stored_as_listed(run.known[k + 1], user, aci),
    ensures
        is_stored_as_listed(run.known[n], user, aci),
        run.passes[n].position() >= at + 1,
        is_about(run.passes[n].errand(), user.username) ==> run.passes[n].errand() is Welcome,
    decreases n - k,
{
    let m = n - 1;
    let step = run.steps[m];
    let before = run.passes[m];
    lemma_in_hand(run, users, catalogue, user.username, m);
    lemma_in_hand(run, users, catalogue, user.username, n);
    lemma_next_work(before.plan(), before.position(), run.known[n]);
    if m > k {
        lemma_stays_stored(run, users, catalogue, user, aci, at, k, m);
        if is_about(before.errand(), user.username) {
            law_a_welcome_is_remembered(run.known[m], user.username);
        } else {
            lemma_others_are_left_alone(
                before,
                run.known[m],
                users,
                catalogue,
                run.events[m],
                run.passes[n],
                run.known[n],
                step,
                user.username,
            );
        }
    }
}

/// Whoever is found is stored as Authentik lists them, and welcomed in their
/// own language. When in a pass the name of an account is found, the message
/// that follows goes to the account that was found and is the catalogue's
/// greeting, in German exactly where the listed locale names German; and from
/// there to the end of the pass, whatever else happens in it, the entry
/// stored for the account has that language, the listed groups and the listed
/// name.
pub proof fn law_whoever_is_found_is_stored_as_listed(
    run: Run,
    users: Seq<AuthentikUserView>,
    catalogue: Catalogue,
    i: int,
    aci: crate::model::Aci,
    k: int,
    n: int,
)
    requires
        listed_once(users),
        is_run(run, users, catalogue),
        0 <= i < users.len(),
        0 <= k < n <= run.steps.len(),
        run.passes[k].errand() matches Errand::Name { username, .. } && username@
            == users[i].username,
        run.events[k] == PassEvent::Resolved(Resolution::Found(aci)),
    ensures
        run.steps[k] matches PassStep::Send { aci: to, text } && to@ == aci@ && text@ == greeting(
            catalogue,
            spoken_in(users[i].locale),
            users[i].username,
        ),
        is_stored_as_listed(run.known[n], users[i], aci@),
{
    let user = users[i];
    let step = run.steps[k];
    let before = run.passes[k];
    let plan = run.passes[0].plan();
    let at = before.position() - 1;
    lemma_in_hand(run, users, catalogue, user.username, k);
    assert forall|j: int| 0 <= j < i implies (#[trigger] users[j]).username != user.username by {}
    lemma_listed(users, user.username, i);
    law_german_is_named(user.locale);
    let listed = lemma_the_change(plan, run.known[0], users, at);
    assert(listed == i);
    law_upsert_replaces(run.known[k], run.known[k + 1].last());
    lemma_first_is_entry(
        run.known[k + 1],
        user.username,
        run.known[k + 1].len() - 1,
    );
    lemma_stays_stored(run, users, catalogue, user, aci@, at, k, n);
}

/// Whatever a pass sends, it sends to the account that is on record for the
/// person, in the language that is on record for them: a welcome is the
/// catalogue's greeting, and a goodbye its farewell.
pub proof fn law_messages_are_in_the_stored_language(
    run: Run,
    users: Seq<AuthentikUserView>,
    catalogue: Catalogue,
    user: Seq<char>,
    k: int,
)
    requires
        is_run(run, users, catalogue),
        0 <= k < run.steps.len(),
        is_about(run.passes[k + 1].errand(), user),
        run.steps[k] is Send,
    ensures
        run.steps[k] matches PassStep::Send { aci, text } && (entry_of(run.known[k + 1], user)
            matches Some(e) && match run.passes[k + 1].errand() {
            Errand::Welcome { .. } => aci@ == e.aci@ && text@ == greeting(
                catalogue,
                e.locale,
                user,
            ),
            Errand::Goodbye { .. } => text@ == catalogue.says(
                e.locale,
                "farewell.body"@,
                Seq::empty(),
            ),
            _ => false,
        }),
{
    let step = run.steps[k];
    let before = run.passes[k];
    lemma_in_hand(run, users, catalogue, user, k);
    lemma_next_work(before.plan(), before.position(), run.known[k + 1]);
    lemma_work_is_taken(before.plan(), before.position(), run.known[k + 1]);
    if before.errand() is Name && (run.events[k] matches PassEvent::Resolved(
        Resolution::Found(_),
    )) {
        law_upsert_replaces(run.known[k], run.known[k + 1].last());
        lemma_first_is_entry(run.known[k + 1], user, run.known[k + 1].len() - 1);
    }
}

proof fn lemma_work_is_taken(changes: Seq<Change>, at: int, entries: Seq<Entry>)
    requires
        0 <= at <= changes.len(),
    ensures
        next_work(changes, at, entries) < changes.len() ==> takes_work(
            changes[next_work(changes, at, entries)],
            entries,
        ),
    decreases changes.len() - at,
{
    if at < changes.len() && !takes_work(changes[at], entries) {
        lemma_work_is_taken(changes, at + 1, entries);
    }
}

/// Whether somebody else holds a name, in whatever case it is written.
pub open spec fn is_held_by_another(
    claims: Seq<Claim>,
    name: Seq<char>,
    username: Seq<char>,
) -> bool {
    exists|i: int|
        0 <= i < claims.len() && (#[trigger] claims[i]).name == lowercase(name)
            && claims[i].holder != username
}

proof fn lemma_holder(claims: Seq<Claim>, name: Seq<char>, username: Seq<char>)
    ensures
        match holder_of(claims, name, username) {
            Some(holder) => holder != username && exists|i: int|
                0 <= i < claims.len() && (#[trigger] claims[i]).name == name && claims[i].holder
                    == holder,
            None => forall|i: int|
                0 <= i < claims.len() && (#[trigger] claims[i]).name == name ==> claims[i].holder
                    == username,
        },
    decreases claims.len(),
{
    if claims.len() > 0 {
        let rest = claims.skip(1);
        lemma_holder(rest, name, username);
        if claims[0].name == name && claims[0].holder != username {
            assert(claims[0].name == name);
        } else {
            match holder_of(claims, name, username) {
                Some(holder) => {
                    let i = choose|i: int|
                        0 <= i < rest.len() && (#[trigger] rest[i]).name == name && rest[i].holder
                            == holder;
                    assert(claims[i + 1] == rest[i]);
                },
                None => {
                    assert forall|i: int|
                        0 <= i < claims.len() && (#[trigger] claims[i]).name
                            == name implies claims[i].holder == username by {
                        if i > 0 {
                            assert(rest[i - 1] == claims[i]);
                        }
                    }
                },
            }
        }
    }
}

/// A name is held by everybody who is known under it, in whatever case it is
/// written.
pub proof fn law_known_names_are_held(entries: Seq<Entry>, name: Seq<char>, username: Seq<char>)
    ensures
        is_held_by_another(claims_of(entries), name, username) <==> exists|i: int|
            0 <= i < entries.len() && lowercase((#[trigger] entries[i]).signal_username@)
                == lowercase(name) && entries[i].authentik_username@ != username,
{
    let claims = claims_of(entries);
    if is_held_by_another(claims, name, username) {
        let i = choose|i: int|
            0 <= i < claims.len() && (#[trigger] claims[i]).name == lowercase(name)
                && claims[i].holder != username;
        assert(lowercase(entries[i].signal_username@) == lowercase(name));
    }
    if exists|i: int|
        0 <= i < entries.len() && lowercase((#[trigger] entries[i]).signal_username@) == lowercase(
            name,
        ) && entries[i].authentik_username@ != username {
        let i = choose|i: int|
            0 <= i < entries.len() && lowercase((#[trigger] entries[i]).signal_username@)
                == lowercase(name) && entries[i].authentik_username@ != username;
        assert(claims[i].name == lowercase(name));
    }
}

/// What follows from one listed account. Without a name in its field, a
/// person who is known is forgotten and nobody else is touched. Known under
/// the same name, in whatever case, they are left alone once they are
/// greeted, and greeted until they are. Under any other name they are looked
/// up, unless somebody else holds that name.
pub proof fn law_what_follows_from_an_account(
    entries: Seq<Entry>,
    claims: Seq<Claim>,
    user: AuthentikUserView,
)
    ensures
        ({
            let known = entry_of(entries, user.username);
            let change = change_for(entries, claims, user);
            let name = match user.signal_username {
                Some(raw) => trimmed(raw),
                None => Seq::empty(),
            };
            let same_name = known matches Some(e) && same_ascii_caseless(
                e.signal_username@,
                name,
            );
            &&& name.len() == 0 && known is None ==> change is None
            &&& name.len() == 0 && known is Some ==> change == Some(
                ChangeView::Removed { username: user.username, aci: known->0.aci@ },
            )
            &&& name.len() > 0 && same_name && known->0.greeted ==> change is None
            &&& name.len() > 0 && same_name && !known->0.greeted ==> change == Some(
                ChangeView::Greet { username: user.username },
            )
            &&& name.len() > 0 && !same_name && is_held_by_another(claims, name, user.username)
                ==> (change matches Some(ChangeView::Conflict {
                username,
                signal_username,
                held_by,
            }) && username == user.username && signal_username == name && held_by
                != user.username && exists|i: int|
                0 <= i < claims.len() && (#[trigger] claims[i]).name == lowercase(name)
                    && claims[i].holder == held_by)
            &&& name.len() > 0 && !same_name && !is_held_by_another(claims, name, user.username)
                && known is None ==> change == Some(
                ChangeView::Added { username: user.username, signal_username: name },
            )
            &&& name.len() > 0 && !same_name && !is_held_by_another(claims, name, user.username)
                && known is Some ==> change == Some(
                ChangeView::Rebound { username: user.username, signal_username: name },
            )
        }),
{
    if let Some(raw) = user.signal_username {
        lemma_holder(claims, lowercase(trimmed(raw)), user.username);
    }
}

/// Whoever is known and no longer listed at all is forgotten, under the
/// account that is on record for them.
pub proof fn law_who_is_forgotten(entries: Seq<Entry>, users: Seq<AuthentikUserView>, e: Entry)
    requires
        entries.contains(e),
        forall|i: int|
            0 <= i < users.len() ==> (#[trigger] users[i]).username != e.authentik_username@,
    ensures
        planned(entries, users).contains(
            ChangeView::Removed { username: e.authentik_username@, aci: e.aci@ },
        ),
{
    let gone = |x: Entry| vanished(users, x);
    let list = entries.filter_map(gone);
    let change = ChangeView::Removed { username: e.authentik_username@, aci: e.aci@ };
    let at = choose|at: int| 0 <= at < entries.len() && entries[at] == e;
    lemma_filter_map_has(entries, gone, at);
    let i = choose|i: int| 0 <= i < list.len() && list[i] == change;
    let plan = planned(entries, users);
    assert(plan[changes_through(entries, users).len() + i] == change);
}

proof fn lemma_filter_map_has<A, B>(entries: Seq<A>, f: spec_fn(A) -> Option<B>, at: int)
    requires
        0 <= at < entries.len(),
        f(entries[at]) is Some,
    ensures
        entries.filter_map(f).contains(f(entries[at])->0),
    decreases entries.len(),
{
    let n = entries.len() as int;
    entries.lemma_filter_map_take_succ(f, n - 1);
    assert(entries.take(n) =~= entries);
    let front = entries.take(n - 1);
    if at < n - 1 {
        assert(front[at] == entries[at]);
        lemma_filter_map_has(front, f, at);
        let i = choose|i: int|
            0 <= i < front.filter_map(f).len() && front.filter_map(f)[i] == f(entries[at])->0;
        assert(entries.filter_map(f)[i] == f(entries[at])->0);
    } else {
        assert(entries.filter_map(f)[front.filter_map(f).len() as int] == f(entries[at])->0);
    }
}

/// Whether nothing but the change at a position is about somebody.
pub open spec fn is_the_only_one_about(plan: Seq<Change>, at: int, user: Seq<char>) -> bool {
    &&& 0 <= at < plan.len()
    &&& subject(plan[at]@) == user
    &&& forall|i: int| 0 <= i < plan.len() && i != at ==> subject((#[trigger] plan[i])@) != user
}

/// Whether each goodbye of a run was sent or could not be.
pub open spec fn every_goodbye_is_attempted(run: Run) -> bool {
    forall|i: int|
        0 <= i < run.steps.len() && (#[trigger] run.passes[i]).errand() is Goodbye
            ==> run.events[i] is Sent
}

/// Whether a pass is on its way to forget somebody, or has done so.
spec fn is_forgetting(pass: Pass, entries: Seq<Entry>, at: int, user: Seq<char>) -> bool {
    &&& one_entry_each(entries)
    &&& is_about(pass.errand(), user) ==> pass.errand() is Goodbye && pass.position() == at + 1
    &&& pass.position() > at && !is_about(pass.errand(), user) ==> entry_of(entries, user) is None
    &&& pass.position() <= at ==> !is_about(pass.errand(), user)
}

proof fn lemma_one_entry_each(
    before: Pass,
    entries: Seq<Entry>,
    users: Seq<AuthentikUserView>,
    catalogue: Catalogue,
    event: PassEvent,
    after: Pass,
    entries_after: Seq<Entry>,
    step: PassStep,
)
    requires
        one_entry_each(entries),
        stepped(before, entries, users, catalogue, event, after, entries_after, step),
    ensures
        one_entry_each(entries_after),
{
    match (before.errand(), event) {
        (Errand::Name { .. }, PassEvent::Resolved(Resolution::Found(_))) => {
            law_upsert_replaces(entries, entries_after.last());
        },
        (Errand::Welcome { username }, PassEvent::Sent(true)) => {
            if let Some(e) = entry_of(entries, username@) {
                lemma_entry_is_of(entries, username@);
                law_upsert_replaces(entries, greeted(e));
            }
        },
        (Errand::Goodbye { username }, PassEvent::Sent(_)) => {
            law_remove_forgets(entries, username@);
        },
        _ => {},
    }
}

proof fn lemma_is_forgetting(
    run: Run,
    users: Seq<AuthentikUserView>,
    catalogue: Catalogue,
    at: int,
    user: Seq<char>,
    n: int,
)
    requires
        is_run(run, users, catalogue),
        one_entry_each(run.known[0]),
        is_the_only_one_about(run.passes[0].plan(), at, user),
        run.passes[0].plan()[at]@ is Removed,
        every_goodbye_is_attempted(run),
        0 <= n <= run.steps.len(),
    ensures
        is_forgetting(run.passes[n], run.known[n], at, user),
        run.passes[n].plan() == run.passes[0].plan(),
    decreases n,
{
    if n > 0 {
        let m = n - 1;
        lemma_is_forgetting(run, users, catalogue, at, user, m);
        let step = run.steps[m];
        let before = run.passes[m];
        lemma_in_hand(run, users, catalogue, user, m);
        lemma_in_hand(run, users, catalogue, user, n);
        lemma_next_work(before.plan(), before.position(), run.known[n]);
        lemma_one_entry_each(
            before,
            run.known[m],
            users,
            catalogue,
            run.events[m],
            run.passes[n],
            run.known[n],
            step,
        );
        if is_about(before.errand(), user) {
            law_remove_forgets(run.known[m], user);
            lemma_nobody_has_no_entry(run.known[n], user);
        } else {
            lemma_others_are_left_alone(
                before,
                run.known[m],
                users,
                catalogue,
                run.events[m],
                run.passes[n],
                run.known[n],
                step,
                user,
            );
            if before.position() <= at && run.passes[n].position() > at && !is_about(
                run.passes[n].errand(),
                user,
            ) {
                assert(!takes_work(before.plan()[at], run.known[n]));
            }
        }
    }
}

/// Whoever is to be forgotten is forgotten: after a whole pass nobody is known
/// any more whom the plan removes, whether or not the goodbye went out.
pub proof fn law_whoever_left_is_forgotten(
    run: Run,
    users: Seq<AuthentikUserView>,
    catalogue: Catalogue,
    at: int,
    user: Seq<char>,
)
    requires
        is_run(run, users, catalogue),
        run.steps.len() > 0,
        run.steps.last() is Done,
        one_entry_each(run.known[0]),
        is_the_only_one_about(run.passes[0].plan(), at, user),
        run.passes[0].plan()[at]@ is Removed,
        every_goodbye_is_attempted(run),
    ensures
        entry_of(run.known.last(), user) is None,
        forall|i: int|
            0 <= i < run.known.last().len() ==> (#[trigger] run.known.last()[i]).authentik_username@
                != user,
{
    let n = run.steps.len() as int;
    let step = run.steps[n - 1];
    lemma_is_forgetting(run, users, catalogue, at, user, n);
    lemma_in_hand(run, users, catalogue, user, n - 1);
    lemma_next_work(
        run.passes[n - 1].plan(),
        run.passes[n - 1].position(),
        run.known[n],
    );
    assert(run.known.last() == run.known[n]);
    assert forall|i: int| 0 <= i < run.known[n].len() implies (
    #[trigger] run.known[n][i]).authentik_username@ != user by {
        if run.known[n][i].authentik_username@ == user {
            lemma_known(run.known[n], user);
        }
    }
}

/// Nobody may ask for anything whom the directory does not have in the media
/// group: whoever writes is the first person on record with the account that
/// the message came from, under their own name and in their own language, and
/// may ask exactly where that group is among theirs.
pub proof fn law_only_the_group_may_ask(
    entries: Seq<Entry>,
    aci: Seq<char>,
    media_group: Seq<char>,
    at: int,
)
    requires
        0 <= at < entries.len(),
        entries[at].aci@ == aci,
        forall|j: int| 0 <= j < at ==> (#[trigger] entries[j]).aci@ != aci,
    ensures
        member_in(entries, aci, media_group) matches Some((username, locale, allowed)) && username
            == entries[at].authentik_username@ && locale == entries[at].locale && (allowed
            <==> exists|i: int|
            0 <= i < entries[at].groups@.len() && (#[trigger] entries[at].groups@[i])@
                == media_group),
    decreases at,
{
    if at > 0 {
        let rest = entries.skip(1);
        assert(entries[0].aci@ != aci);
        assert forall|j: int| 0 <= j < at - 1 implies (#[trigger] rest[j]).aci@ != aci by {
            assert(rest[j] == entries[j + 1]);
        }
        law_only_the_group_may_ask(rest, aci, media_group, at - 1);
    } else {
        let names = views(entries[0].groups@);
        if names.contains(media_group) {
            let i = choose|i: int| 0 <= i < names.len() && names[i] == media_group;
            assert(entries[0].groups@[i]@ == media_group);
        }
        if exists|i: int|
            0 <= i < entries[0].groups@.len() && (#[trigger] entries[0].groups@[i])@
                == media_group {
            let i = choose|i: int|
                0 <= i < entries[0].groups@.len() && (#[trigger] entries[0].groups@[i])@
                    == media_group;
            assert(names[i] == media_group);
        }
    }
}

/// Nobody writes from an account that is on record for nobody.
pub proof fn law_an_unknown_account_is_nobodys(
    entries: Seq<Entry>,
    aci: Seq<char>,
    media_group: Seq<char>,
)
    requires
        forall|j: int| 0 <= j < entries.len() ==> (#[trigger] entries[j]).aci@ != aci,
    ensures
        member_in(entries, aci, media_group) is None,
    decreases entries.len(),
{
    if entries.len() > 0 {
        let rest = entries.skip(1);
        assert(entries[0].aci@ != aci);
        assert forall|j: int| 0 <= j < rest.len() implies (#[trigger] rest[j]).aci@ != aci by {
            assert(rest[j] == entries[j + 1]);
        }
        law_an_unknown_account_is_nobodys(rest, aci, media_group);
    }
}

} // verus!
