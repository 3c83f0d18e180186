//! People: what Authentik says about them, and what follows from it.

pub mod diff;
pub mod laws;
pub mod run;

use crate::directory::diff::{
    AuthentikUser, AuthentikUserView, Change, ChangeView, law_a_missed_welcome_is_planned_again,
    planned, signal_name_of, user_views,
};
use crate::i18n::{Catalogue, Locale, arg_views, locale_for};
use crate::json::{
    Json, JsonView, array, elements_of, field_of, get, opt_tree, text, text_of, tree, trees,
};
use crate::model::{Aci, clone_texts};
use crate::state::{
    Entry, State, entry_of, law_upsert_replaces, lemma_entry_is_of, lemma_first_is_entry,
    lemma_no_entry, lemma_others_without_first, others_than, without_first,
};
use crate::text::{same, views};
use vstd::prelude::*;

verus! {

/// Somebody the bot knows.
#[derive(Debug, PartialEq)]
pub struct Member {
    pub authentik_username: String,
    pub locale: Locale,
    /// In the media group. False means "we know who you are, but not this".
    pub allowed: bool,
}

/// Whether a text is in a list.
pub fn has_text(list: &Vec<String>, wanted: &str) -> (r: bool)
    ensures
        r == views(list@).contains(wanted@),
{
    let mut i: usize = 0;
    while i < list.len()
        invariant
            i <= list@.len(),
            forall|j: int| 0 <= j < i ==> #[trigger] views(list@)[j] != wanted@,
        decreases list@.len() - i,
    {
        assert(views(list@)[i as int] == list@[i as int]@);
        if same(list[i].as_str(), wanted) {
            return true;
        }
        i += 1;
    }
    false
}

/// Who writes from a Signal account, in which language they are answered, and
/// whether they may ask for something.
pub open spec fn member_in(
    entries: Seq<Entry>,
    aci: Seq<char>,
    media_group: Seq<char>,
) -> Option<(Seq<char>, Locale, bool)>
    decreases entries.len(),
{
    if entries.len() == 0 {
        None
    } else if entries[0].aci@ == aci {
        Some(
            (
                entries[0].authentik_username@,
                entries[0].locale,
                views(entries[0].groups@).contains(media_group),
            ),
        )
    } else {
        member_in(entries.skip(1), aci, media_group)
    }
}

proof fn lemma_member_in(entries: Seq<Entry>, aci: Seq<char>, media_group: Seq<char>, at: int)
    requires
        0 <= at <= entries.len(),
        at < entries.len() ==> entries[at].aci@ == aci,
        forall|j: int| 0 <= j < at ==> (#[trigger] entries[j]).aci@ != aci,
    ensures
        at == entries.len() ==> member_in(entries, aci, media_group) is None,
        at < entries.len() ==> member_in(entries, aci, media_group) == Some(
            (
                entries[at].authentik_username@,
                entries[at].locale,
                views(entries[at].groups@).contains(media_group),
            ),
        ),
    decreases at,
{
    if at > 0 {
        let rest = entries.skip(1);
        assert(entries[0].aci@ != aci);
        assert forall|j: int| 0 <= j < at - 1 implies (#[trigger] rest[j]).aci@ != aci by {
            assert(rest[j] == entries[j + 1]);
        }
        lemma_member_in(rest, aci, media_group, at - 1);
    }
}

/// Who writes from a Signal account: the first person with that account, who
/// may ask for something if they are in the media group.
pub fn member_of(state: &State, aci: &Aci, media_group: &str) -> (r: Option<Member>)
    ensures
        match r {
            Some(m) => exists|at: int|
                #![trigger state@[at]]
                0 <= at < state@.len() && state@[at].aci@ == aci@ && (forall|j: int|
                    0 <= j < at ==> (#[trigger] state@[j]).aci@ != aci@) && m.authentik_username@
                    == state@[at].authentik_username@ && m.locale == state@[at].locale
                    && m.allowed == views(state@[at].groups@).contains(media_group@),
            None => forall|j: int| 0 <= j < state@.len() ==> (#[trigger] state@[j]).aci@ != aci@,
        },
        member_in(state@, aci@, media_group@) == (match r {
            Some(m) => Some((m.authentik_username@, m.locale, m.allowed)),
            None => None,
        }),
{
    let found = state.by_aci(aci);
    proof {
        match found {
            Some(entry) => {
                let at = choose|at: int|
                    #![trigger state@[at]]
                    0 <= at < state@.len() && state@[at] == *entry && entry.aci@ == aci@ && forall|
                        j: int,
                    |
                        0 <= j < at ==> (#[trigger] state@[j]).aci@ != aci@;
                lemma_member_in(state@, aci@, media_group@, at);
            },
            None => {
                lemma_member_in(state@, aci@, media_group@, state@.len() as int);
            },
        }
    }
    match found {
        Some(entry) => Some(
            Member {
                authentik_username: entry.authentik_username.clone(),
                locale: entry.locale,
                allowed: has_text(&entry.groups, media_group),
            },
        ),
        None => None,
    }
}

/// The name of a group.
pub open spec fn group_name(group: JsonView) -> Option<Seq<char>> {
    text_of(field_of(Some(group), "name"@))
}

/// The locale setting of an account; the fallback where it has none.
pub open spec fn locale_setting(user: JsonView, fallback: Seq<char>) -> Seq<char> {
    let settings = field_of(field_of(Some(user), "attributes"@), "settings"@);
    match text_of(field_of(settings, "locale"@)) {
        Some(locale) => if locale.len() == 0 {
            fallback
        } else {
            locale
        },
        None => fallback,
    }
}

/// The account that one element of Authentik's list describes; nothing where
/// it has no username.
pub open spec fn user_of(user: JsonView, fallback: Seq<char>) -> Option<AuthentikUserView> {
    match text_of(field_of(Some(user), "username"@)) {
        Some(username) => Some(
            AuthentikUserView {
                username,
                signal_username: text_of(
                    field_of(field_of(Some(user), "attributes"@), "signal_username"@),
                ),
                locale: locale_setting(user, fallback),
                groups: elements_of(field_of(Some(user), "groups_obj"@)).filter_map(
                    |group: JsonView| group_name(group),
                ),
            },
        ),
        None => None,
    }
}

/// The accounts that Authentik's answer lists.
pub open spec fn users_of(body: JsonView, fallback: Seq<char>) -> Seq<AuthentikUserView> {
    elements_of(field_of(Some(body), "results"@)).filter_map(
        |user: JsonView| user_of(user, fallback),
    )
}

fn group_names(groups: Option<&Json>) -> (names: Vec<String>)
    ensures
        views(names@) == elements_of(opt_tree(groups)).filter_map(
            |group: JsonView| group_name(group),
        ),
{
    let mut names: Vec<String> = Vec::new();
    let ghost name_of = |group: JsonView| group_name(group);
    assert(views(names@) =~= Seq::<JsonView>::empty().filter_map(name_of));
    if let Some(list) = array(groups) {
        let ghost all = trees(list@);
        let mut i: usize = 0;
        assert(all.take(0) =~= Seq::empty());
        while i < list.len()
            invariant
                i <= list@.len(),
                all == trees(list@),
                name_of == (|group: JsonView| group_name(group)),
                views(names@) == all.take(i as int).filter_map(name_of),
            decreases list@.len() - i,
        {
            proof {
                let next = all.take(i + 1);
                assert(next.drop_last() =~= all.take(i as int));
                assert(next.last() == tree(list@[i as int]));
            }
            if let Some(name) = text(get(Some(&list[i]), "name")) {
                let copy = name.to_owned();
                assert(views(names@.push(copy)) =~= views(names@) + seq![copy@]);
                names.push(copy);
            }
            i += 1;
        }
        assert(all.take(i as int) =~= all);
    }
    names
}

fn parse_user(user: &Json, fallback_locale: &str) -> (r: Option<AuthentikUser>)
    ensures
        match r {
            Some(u) => user_of(user@, fallback_locale@) == Some(u@),
            None => user_of(user@, fallback_locale@) is None,
        },
{
    let username = match text(get(Some(user), "username")) {
        Some(name) => name.to_owned(),
        None => {
            return None;
        },
    };
    let attributes = get(Some(user), "attributes");
    let signal_username = match text(get(attributes, "signal_username")) {
        Some(name) => Some(name.to_owned()),
        None => None,
    };
    let locale = match text(get(get(attributes, "settings"), "locale")) {
        Some(locale) => if locale.is_empty() {
            fallback_locale.to_owned()
        } else {
            locale.to_owned()
        },
        None => fallback_locale.to_owned(),
    };
    let groups = group_names(get(Some(user), "groups_obj"));
    Some(AuthentikUser { username, signal_username, locale, groups })
}

/// Reads the accounts out of Authentik's answer.
pub fn parse_users(body: &Json, fallback_locale: &str) -> (users: Vec<AuthentikUser>)
    ensures
        user_views(users@) == users_of(body@, fallback_locale@),
{
    let mut users: Vec<AuthentikUser> = Vec::new();
    let ghost read = |user: JsonView| user_of(user, fallback_locale@);
    assert(user_views(users@) =~= Seq::<JsonView>::empty().filter_map(read));
    if let Some(list) = array(get(Some(body), "results")) {
        let ghost all = trees(list@);
        let mut i: usize = 0;
        assert(all.take(0) =~= Seq::empty());
        while i < list.len()
            invariant
                i <= list@.len(),
                all == trees(list@),
                read == (|user: JsonView| user_of(user, fallback_locale@)),
                user_views(users@) == all.take(i as int).filter_map(read),
            decreases list@.len() - i,
        {
            proof {
                let next = all.take(i + 1);
                assert(next.drop_last() =~= all.take(i as int));
                assert(next.last() == tree(list@[i as int]));
            }
            if let Some(user) = parse_user(&list[i], fallback_locale) {
                assert(user_views(users@.push(user)) =~= user_views(users@) + seq![user@]);
                users.push(user);
            }
            i += 1;
        }
        assert(all.take(i as int) =~= all);
    }
    users
}

/// What came of looking a Signal name up.
#[derive(Debug, PartialEq)]
pub enum Resolution {
    Found(Aci),
    /// The name does not exist: a typo, not a failure.
    Unknown,
    Failed,
}

/// What has to be done next to carry out a plan.
#[derive(Debug, PartialEq)]
pub enum PassStep {
    /// Look a Signal name up and report the [`Resolution`].
    Resolve { signal_username: String },
    /// Send a message and report whether it went out.
    Send { aci: Aci, text: String },
    /// Everything is carried out.
    Done,
}

/// What a pass waits for.
#[derive(Debug, PartialEq)]
pub enum Errand {
    /// Nothing: the pass has not begun, or it is over.
    Idle,
    /// The account behind a Signal name.
    Name { username: String, signal_username: String, locale: Locale, groups: Vec<String> },
    /// Whether a welcome went out.
    Welcome { username: String },
    /// Whether a goodbye went out.
    Goodbye { username: String },
}

/// The carrying out of a plan: one change after the other, with the lookups
/// and messages it takes done by the caller.
#[derive(Debug)]
pub struct Pass {
    changes: Vec<Change>,
    at: usize,
    errand: Errand,
}

/// The welcome: a greeting by name, and what one can write.
pub open spec fn welcome(catalogue: Catalogue, locale: Locale, username: Seq<char>) -> Seq<char> {
    catalogue.says(locale, "greeting.title"@, seq![("name"@, username)]) + "\n\n"@
        + catalogue.says(locale, "help.body"@, Seq::empty())
}

/// The goodbye.
pub open spec fn goodbye(catalogue: Catalogue, locale: Locale) -> Seq<char> {
    catalogue.says(locale, "farewell.body"@, Seq::empty())
}

/// Whether a change takes a lookup or a message. A conflict takes neither,
/// nor does a greeting or a goodbye to somebody who is not known.
pub open spec fn takes_work(change: Change, entries: Seq<Entry>) -> bool {
    match change {
        Change::Added { .. } => true,
        Change::Rebound { .. } => true,
        Change::Greet { username } => entry_of(entries, username@) is Some,
        Change::Removed { username, aci } => entry_of(entries, username@) is Some,
        Change::Conflict { .. } => false,
    }
}

/// The position of the first change from `at` on that takes work; the number
/// of changes where none does.
pub open spec fn next_work(changes: Seq<Change>, at: int, entries: Seq<Entry>) -> int
    decreases changes.len() - at,
{
    if at >= changes.len() {
        changes.len() as int
    } else if takes_work(changes[at], entries) {
        at
    } else {
        next_work(changes, at + 1, entries)
    }
}

/// The language of an account: what Authentik lists, English where it lists
/// nothing.
pub open spec fn listed_locale(users: Seq<AuthentikUserView>, username: Seq<char>) -> Locale
    decreases users.len(),
{
    if users.len() == 0 {
        Locale::En
    } else if users[0].username == username {
        locale_for(users[0].locale)
    } else {
        listed_locale(users.skip(1), username)
    }
}

/// The groups of an account: what Authentik lists, none where it lists
/// nothing.
pub open spec fn listed_groups(
    users: Seq<AuthentikUserView>,
    username: Seq<char>,
) -> Seq<Seq<char>>
    decreases users.len(),
{
    if users.len() == 0 {
        Seq::empty()
    } else if users[0].username == username {
        users[0].groups
    } else {
        listed_groups(users.skip(1), username)
    }
}

/// Whether `errand` and `step` begin the work that a change takes.
pub open spec fn begins(
    change: Change,
    entries: Seq<Entry>,
    users: Seq<AuthentikUserView>,
    catalogue: Catalogue,
    errand: Errand,
    step: PassStep,
) -> bool {
    match change@ {
        ChangeView::Added { username, signal_username } => resolving(
            username,
            signal_username,
            users,
            errand,
            step,
        ),
        ChangeView::Rebound { username, signal_username } => resolving(
            username,
            signal_username,
            users,
            errand,
            step,
        ),
        ChangeView::Greet { username } => {
            &&& errand matches Errand::Welcome { username: u } && u@ == username
            &&& step matches PassStep::Send { aci, text } && aci@ == entry_of(
                entries,
                username,
            )->0.aci@ && text@ == welcome(
                catalogue,
                entry_of(entries, username)->0.locale,
                username,
            )
        },
        ChangeView::Removed { username, aci: gone } => {
            &&& errand matches Errand::Goodbye { username: u } && u@ == username
            &&& step matches PassStep::Send { aci, text } && aci@ == gone && text@ == goodbye(
                catalogue,
                entry_of(entries, username)->0.locale,
            )
        },
        ChangeView::Conflict { .. } => false,
    }
}

/// Whether a name is being looked up for an account.
pub open spec fn resolving(
    username: Seq<char>,
    signal_username: Seq<char>,
    users: Seq<AuthentikUserView>,
    errand: Errand,
    step: PassStep,
) -> bool {
    &&& errand matches Errand::Name { username: u, signal_username: s, locale, groups } && u@
        == username && s@ == signal_username && locale == listed_locale(users, username) && views(
        groups@,
    ) == listed_groups(users, username)
    &&& step matches PassStep::Resolve { signal_username: s } && s@ == signal_username
}

/// The person as they are after the welcome went out.
pub open spec fn greeted(entry: Entry) -> Entry {
    Entry { greeted: true, ..entry }
}

fn find_user<'a>(users: &'a [AuthentikUser], username: &str) -> (r: Option<&'a AuthentikUser>)
    ensures
        match r {
            Some(u) => listed_locale(user_views(users@), username@) == locale_for(u.locale@)
                && listed_groups(user_views(users@), username@) == views(u.groups@),
            None => listed_locale(user_views(users@), username@) == Locale::En && listed_groups(
                user_views(users@),
                username@,
            ) == Seq::<Seq<char>>::empty(),
        },
{
    let ghost all = user_views(users@);
    let mut i: usize = 0;
    assert(all.skip(0) =~= all);
    while i < users.len()
        invariant
            i <= users@.len(),
            all == user_views(users@),
            listed_locale(all.skip(i as int), username@) == listed_locale(all, username@),
            listed_groups(all.skip(i as int), username@) == listed_groups(all, username@),
        decreases users@.len() - i,
    {
        assert(all.skip(i as int)[0] == users@[i as int]@);
        if same(users[i].username.as_str(), username) {
            return Some(&users[i]);
        }
        assert(all.skip(i as int).skip(1) =~= all.skip(i + 1));
        i += 1;
    }
    None
}

/// The welcome to an account, in a language.
pub fn welcome_text(catalogue: &Catalogue, locale: Locale, username: &str) -> (r: String)
    ensures
        r@ == welcome(*catalogue, locale, username@),
{
    let args = [("name", username)];
    let mut r = catalogue.text(locale, "greeting.title", &args);
    assert(arg_views(args@) =~= seq![("name"@, username@)]);
    r.append("\n\n");
    let none: [(&str, &str); 0] = [];
    assert(arg_views(none@) =~= Seq::empty());
    r.append(catalogue.text(locale, "help.body", &none).as_str());
    r
}

/// What happened since the last step of a pass.
#[derive(Debug, PartialEq)]
pub enum PassEvent {
    Begun,
    Resolved(Resolution),
    Sent(bool),
}

/// Whether a pass went on to the next change that takes work, or ended.
pub open spec fn went_on(
    before: Pass,
    entries: Seq<Entry>,
    users: Seq<AuthentikUserView>,
    catalogue: Catalogue,
    after: Pass,
    step: PassStep,
) -> bool {
    let n = next_work(before.plan(), before.position(), entries);
    &&& after.plan() == before.plan()
    &&& if n < before.plan().len() {
        after.position() == n + 1 && begins(
            before.plan()[n],
            entries,
            users,
            catalogue,
            after.errand(),
            step,
        )
    } else {
        after.position() == n && after.errand() is Idle && step is Done
    }
}

/// Whether an entry is that of a person who has just been found.
pub open spec fn is_newcomer(
    entry: Entry,
    username: Seq<char>,
    signal_username: Seq<char>,
    aci: Seq<char>,
    locale: Locale,
    groups: Seq<Seq<char>>,
) -> bool {
    &&& entry.authentik_username@ == username
    &&& entry.signal_username@ == signal_username
    &&& entry.aci@ == aci
    &&& !entry.greeted
    &&& entry.locale == locale
    &&& views(entry.groups@) == groups
}

/// The directory once the welcome to an account went out.
pub open spec fn after_welcome(entries: Seq<Entry>, username: Seq<char>) -> Seq<Entry> {
    match entry_of(entries, username) {
        Some(entry) => others_than(entries, username).push(greeted(entry)),
        None => entries,
    }
}

/// What one step of a pass does, given what happened since the last one.
pub open spec fn stepped(
    before: Pass,
    entries: Seq<Entry>,
    users: Seq<AuthentikUserView>,
    catalogue: Catalogue,
    event: PassEvent,
    after: Pass,
    entries_after: Seq<Entry>,
    step: PassStep,
) -> bool {
    &&& after.plan() == before.plan()
    &&& after.position() <= after.plan().len()
    &&& match (before.errand(), event) {
        (
            Errand::Name { username, signal_username, locale, groups },
            PassEvent::Resolved(Resolution::Found(aci)),
        ) => {
            &&& entries_after.len() > 0
            &&& is_newcomer(
                entries_after.last(),
                username@,
                signal_username@,
                aci@,
                locale,
                views(groups@),
            )
            &&& entries_after == others_than(entries, username@).push(entries_after.last())
            &&& after.position() == before.position()
            &&& after.errand() matches Errand::Welcome { username: u } && u@ == username@
            &&& step matches PassStep::Send { aci: to, text } && to@ == aci@ && text@ == welcome(
                catalogue,
                locale,
                username@,
            )
        },
        (Errand::Welcome { username }, PassEvent::Sent(true)) => {
            &&& entries_after == after_welcome(entries, username@)
            &&& went_on(before, entries_after, users, catalogue, after, step)
        },
        (Errand::Goodbye { username }, PassEvent::Sent(_)) => {
            &&& entries_after == without_first(entries, username@)
            &&& went_on(before, entries_after, users, catalogue, after, step)
        },
        _ => {
            &&& entries_after == entries
            &&& went_on(before, entries_after, users, catalogue, after, step)
        },
    }
}

impl Pass {
    /// The changes to carry out.
    pub closed spec fn plan(&self) -> Seq<Change> {
        self.changes@
    }

    /// How many of them have been begun or passed over.
    pub closed spec fn position(&self) -> int {
        self.at as int
    }

    /// What the pass waits for.
    pub closed spec fn errand(&self) -> Errand {
        self.errand
    }

    /// A pass over these changes.
    pub fn new(changes: Vec<Change>) -> (r: Pass)
        ensures
            r.plan() == changes@,
            r.position() == 0,
            r.errand() is Idle,
    {
        Pass { changes, at: 0, errand: Errand::Idle }
    }

    /// Begins looking a name up.
    fn resolve(
        &mut self,
        users: &[AuthentikUser],
        username: String,
        signal_username: String,
    ) -> (step: PassStep)
        ensures
            final(self).plan() == old(self).plan(),
            final(self).position() == old(self).position(),
            resolving(
                username@,
                signal_username@,
                user_views(users@),
                final(self).errand(),
                step,
            ),
    {
        let (locale, groups) = match find_user(users, username.as_str()) {
            Some(user) => (
                Locale::from_authentik(user.locale.as_str()),
                clone_texts(&user.groups),
            ),
            None => (Locale::En, Vec::new()),
        };
        assert(views(groups@) =~= listed_groups(user_views(users@), username@));
        let wanted = signal_username.clone();
        self.errand = Errand::Name { username, signal_username, locale, groups };
        PassStep::Resolve { signal_username: wanted }
    }

    /// Goes on to the next change that takes work.
    fn advance(
        &mut self,
        state: &State,
        users: &[AuthentikUser],
        catalogue: &Catalogue,
    ) -> (step: PassStep)
        requires
            old(self).position() <= old(self).plan().len(),
        ensures
            went_on(*old(self), state@, user_views(users@), *catalogue, *final(self), step),
            final(self).position() <= final(self).plan().len(),
    {
        while self.at < self.changes.len()
            invariant
                self.changes@ == old(self).plan(),
                old(self).position() <= self.at <= self.changes@.len(),
                next_work(old(self).plan(), old(self).position(), state@) == next_work(
                    old(self).plan(),
                    self.at as int,
                    state@,
                ),
            decreases self.changes@.len() - self.at,
        {
            let at: usize = self.at;
            self.at = at + 1;
            match &self.changes[at] {
                Change::Added { username, signal_username } => {
                    let (u, s) = (username.clone(), signal_username.clone());
                    return self.resolve(users, u, s);
                },
                Change::Rebound { username, signal_username } => {
                    let (u, s) = (username.clone(), signal_username.clone());
                    return self.resolve(users, u, s);
                },
                Change::Greet { username } => {
                    if let Some(entry) = state.by_user(username.as_str()) {
                        let text = welcome_text(catalogue, entry.locale, username.as_str());
                        self.errand = Errand::Welcome { username: username.clone() };
                        return PassStep::Send { aci: entry.aci.clone(), text };
                    }
                },
                Change::Removed { username, aci } => {
                    if let Some(entry) = state.by_user(username.as_str()) {
                        let none: [(&str, &str); 0] = [];
                        assert(arg_views(none@) =~= Seq::empty());
                        let text = catalogue.text(entry.locale, "farewell.body", &none);
                        let to = aci.clone();
                        self.errand = Errand::Goodbye { username: username.clone() };
                        return PassStep::Send { aci: to, text };
                    }
                },
                Change::Conflict { .. } => {},
            }
        }
        self.errand = Errand::Idle;
        PassStep::Done
    }

    /// One step of carrying out a plan. A person who is found is stored
    /// before the welcome is attempted, as not yet greeted, and counts as
    /// greeted only once the welcome went out: a failed send leaves them for
    /// the next pass. A goodbye is said once, and the person is forgotten
    /// whether or not it went out. A name that does not resolve, or cannot be
    /// looked up, changes nothing.
    pub fn step(
        &mut self,
        state: &mut State,
        users: &[AuthentikUser],
        catalogue: &Catalogue,
        event: PassEvent,
    ) -> (step: PassStep)
        requires
            old(self).position() <= old(self).plan().len(),
        ensures
            stepped(
                *old(self),
                old(state)@,
                user_views(users@),
                *catalogue,
                event,
                *final(self),
                final(state)@,
                step,
            ),
    {
        let mut errand = Errand::Idle;
        std::mem::swap(&mut errand, &mut self.errand);
        match (errand, event) {
            (
                Errand::Name { username, signal_username, locale, groups },
                PassEvent::Resolved(Resolution::Found(aci)),
            ) => {
                let text = welcome_text(catalogue, locale, username.as_str());
                let to = aci.clone();
                self.errand = Errand::Welcome { username: username.clone() };
                state.upsert(
                    Entry {
                        authentik_username: username,
                        signal_username,
                        aci,
                        greeted: false,
                        locale,
                        groups,
                    },
                );
                PassStep::Send { aci: to, text }
            },
            (Errand::Welcome { username }, PassEvent::Sent(true)) => {
                let ghost before = state@;
                if let Some(entry) = state.remove_user(username.as_str()) {
                    proof {
                        lemma_others_without_first(before, username@);
                        lemma_entry_is_of(before, username@);
                    }
                    let mut entry = entry;
                    entry.greeted = true;
                    state.upsert(entry);
                } else {
                    proof {
                        lemma_no_entry(before, username@);
                    }
                }
                self.advance(state, users, catalogue)
            },
            (Errand::Goodbye { username }, PassEvent::Sent(_)) => {
                state.remove_user(username.as_str());
                self.advance(state, users, catalogue)
            },
            _ => self.advance(state, users, catalogue),
        }
    }
}

/// What was said to a person is remembered: once a welcome went out, the
/// account counts as greeted.
pub proof fn law_a_welcome_is_remembered(entries: Seq<Entry>, username: Seq<char>)
    requires
        entry_of(entries, username) is Some,
    ensures
        entry_of(after_welcome(entries, username), username) matches Some(e) && e == greeted(
            entry_of(entries, username)->0,
        ),
{
    let entry = entry_of(entries, username)->0;
    lemma_entry_is_of(entries, username);
    law_upsert_replaces(entries, greeted(entry));
    let after = after_welcome(entries, username);
    lemma_first_is_entry(after, username, after.len() - 1);
}

/// A welcome that fails is caught up on: somebody who has just been found and
/// stored is greeted by the next plan, as long as they keep their name.
pub proof fn law_a_failed_welcome_is_caught_up_on(
    entries: Seq<Entry>,
    entry: Entry,
    signal_username: Seq<char>,
    aci: Seq<char>,
    locale: Locale,
    groups: Seq<Seq<char>>,
    users: Seq<AuthentikUserView>,
    at: int,
)
    requires
        0 <= at < users.len(),
        is_newcomer(entry, users[at].username, signal_username, aci, locale, groups),
        signal_name_of(users[at]) == Some(signal_username),
    ensures
        planned(others_than(entries, users[at].username).push(entry), users).contains(
            ChangeView::Greet { username: users[at].username },
        ),
{
    let username = users[at].username;
    let after = others_than(entries, username).push(entry);
    law_upsert_replaces(entries, entry);
    lemma_first_is_entry(after, username, after.len() - 1);
    law_a_missed_welcome_is_planned_again(after, users, at);
}

} // verus!
