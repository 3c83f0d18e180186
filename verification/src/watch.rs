//! The loop that speaks up unasked: once per wish and kind of problem, and
//! never more often than that.
//!
//! One round gathers what Seerr and Radarr or Sonarr say about every open
//! wish, decides what state it is in, and tells the person who asked, once.
//! The calls it takes are made by the caller: each step says what is to be
//! done next, and is handed what came of it.
//!
//! The order in which the record is written is deliberate. A reason is saved
//! before the message goes out, and a message counts as told only after it
//! went. A stop between sending and saving repeats that one notice; what must
//! not happen twice is the search at the indexers, and the saved reason is
//! what prevents it.
//!
//! The clock arrives as an argument: nothing in here reads the time itself.

use crate::dialog::status::{state_said, state_text, with_one};
use crate::directory::has_text;
use crate::i18n::{Catalogue, Locale, arg_views};
use crate::insight::SeriesFacts;
use crate::model::{MediaKind, Reason, ReasonView, Wish, WishState, WishStateView, class_of};
use crate::moment::{Span, Timestamp};
use crate::notices::{Note, Notices, NoticesView, budget_left};
use crate::state::{Entry, State, entry_of};
use crate::table::Table;
use crate::text::{decimal, decimal_i64, decimal_int, decimal_u64, same, views};
use vstd::prelude::*;

pub mod again;
pub mod consider;
pub mod laws;
pub mod round;

verus! {

/// The shortest gap between two unasked messages about the same wish,
/// whatever the classes involved, in nanoseconds. Deliberately not the stall
/// deadline: an operator may shorten that to a couple of hours, and it must
/// make the bot notice sooner, not talk more.
pub const MIN_NOTICE_GAP: i128 = 86_400_000_000_000;

/// The message of the one line every round logs when it is done. A check
/// outside this program looks for exactly this text.
pub const HEARTBEAT: &'static str = "watch: round complete";

/// How the watcher is set up.
#[derive(Debug)]
pub struct WatchSettings {
    /// How long a wish may sit in the same unhappy state before the person
    /// who asked is told about it.
    pub stall_after: Span,
    pub max_searches_per_day: u32,
    pub notices_file: String,
    /// Profile name to the languages that profile wants. Without an entry a
    /// search can still say "nothing exists", but never "only in Portuguese".
    pub profile_languages: Table<String, Vec<String>>,
    /// How long a failed hand-over sits before it is handed over once more.
    /// `None`: never.
    pub retry_failed_after: Option<Span>,
    /// After how long a recorded reason is searched for again. `None`: never.
    pub refresh_reason_after: Option<Span>,
}

/// What a round did.
#[derive(Clone, Copy, Debug, PartialEq, Eq, Structural)]
pub struct RoundReport {
    pub wishes: usize,
    pub notices_sent: usize,
    pub searches: usize,
    /// Hand-overs retried this round.
    pub retries: usize,
    /// Reasons searched for again this round.
    pub refreshes: usize,
}

impl Default for RoundReport {
    /// Nothing.
    fn default() -> (r: RoundReport)
        ensures
            r == (RoundReport { wishes: 0, notices_sent: 0, searches: 0, retries: 0, refreshes: 0 }),
    {
        RoundReport { wishes: 0, notices_sent: 0, searches: 0, retries: 0, refreshes: 0 }
    }
}

/// What decides what a round does: the messages, the settings, and whether
/// the operator has switched the interactive search on. Without it a stalled
/// wish still gets a message, just the general sentence instead of a reason.
#[derive(Debug)]
pub struct Watcher {
    pub catalogue: Catalogue,
    pub settings: WatchSettings,
    pub search: bool,
}

/// Where a reason search looks: a film, or one season of a series, the season
/// of the oldest aired episode that is missing.
#[derive(Clone, Copy, Debug, PartialEq, Eq, Structural)]
pub enum SearchTarget {
    Movie(i64),
    Season(i64, u16),
}

/// Whether two lists hold the same names, in whatever order and however often.
pub open spec fn same_names(x: Seq<Seq<char>>, y: Seq<Seq<char>>) -> bool {
    forall|name: Seq<char>| #[trigger] x.contains(name) <==> y.contains(name)
}

/// Whether two reasons are the same class, the thing a person would be told
/// again about. Languages compare as a set: the same two in the other order
/// are not news.
pub open spec fn one_class(a: ReasonView, b: ReasonView) -> bool {
    match a {
        ReasonView::OnlyInLanguages(x) => b matches ReasonView::OnlyInLanguages(y) && same_names(
            x,
            y,
        ),
        _ => a == b,
    }
}

/// Whether every name of `x` is one of `y`.
fn covered(x: &Vec<String>, y: &Vec<String>) -> (r: bool)
    ensures
        r == (forall|name: Seq<char>| #[trigger]
            views(x@).contains(name) ==> views(y@).contains(name)),
{
    let mut i: usize = 0;
    while i < x.len()
        invariant
            i <= x@.len(),
            forall|j: int| 0 <= j < i ==> views(y@).contains(#[trigger] views(x@)[j]),
        decreases x@.len() - i,
    {
        assert(views(x@)[i as int] == x@[i as int]@);
        if !has_text(y, x[i].as_str()) {
            assert(views(x@).contains(x@[i as int]@));
            return false;
        }
        i += 1;
    }
    true
}

/// Whether two reasons are the same class, the thing a person would be told
/// again about. Languages compare as a set: the same two in the other order
/// are not news.
pub fn same_class(a: &Reason, b: &Reason) -> (r: bool)
    ensures
        r == one_class(a@, b@),
{
    match a {
        Reason::OnlyInLanguages(x) => {
            let y = match b {
                Reason::OnlyInLanguages(y) => y,
                _ => {
                    return false;
                },
            };
            covered(x, y) && covered(y, x)
        },
        Reason::NothingExists => matches!(b, Reason::NothingExists),
        Reason::TooLarge => matches!(b, Reason::TooLarge),
        Reason::TooSmall => matches!(b, Reason::TooSmall),
        Reason::WrongQuality => matches!(b, Reason::WrongQuality),
        Reason::Otherwise => matches!(b, Reason::Otherwise),
    }
}

/// Being the same class is an equivalence.
pub proof fn law_same_class_is_an_equivalence(a: ReasonView, b: ReasonView, c: ReasonView)
    ensures
        one_class(a, a),
        one_class(a, b) == one_class(b, a),
        one_class(a, b) && one_class(b, c) ==> one_class(a, c),
{
    if one_class(a, b) && one_class(b, c) && a is OnlyInLanguages {
        let x = a->OnlyInLanguages_0;
        let y = b->OnlyInLanguages_0;
        let z = c->OnlyInLanguages_0;
        assert forall|name: Seq<char>| #[trigger] x.contains(name) <==> z.contains(name) by {
            assert(x.contains(name) <==> y.contains(name));
            assert(y.contains(name) <==> z.contains(name));
        }
    }
}

/// Languages are a set: neither their order nor how often one is named is
/// news.
pub proof fn law_the_order_of_languages_is_no_news(x: Seq<Seq<char>>, y: Seq<Seq<char>>)
    ensures
        one_class(ReasonView::OnlyInLanguages(x), ReasonView::OnlyInLanguages(y)) <==> x.to_set()
            == y.to_set(),
        x.to_multiset() == y.to_multiset() ==> one_class(
            ReasonView::OnlyInLanguages(x),
            ReasonView::OnlyInLanguages(y),
        ),
{
    if same_names(x, y) {
        assert(x.to_set() =~= y.to_set());
    }
    if x.to_set() == y.to_set() {
        assert forall|name: Seq<char>| #[trigger] x.contains(name) <==> y.contains(name) by {
            assert(x.to_set().contains(name) <==> y.to_set().contains(name));
        }
    }
    if x.to_multiset() == y.to_multiset() {
        assert forall|name: Seq<char>| #[trigger] x.contains(name) <==> y.contains(name) by {
            x.to_multiset_ensures();
            y.to_multiset_ensures();
            assert(x.contains(name) <==> x.to_multiset().count(name) > 0);
            assert(y.contains(name) <==> y.to_multiset().count(name) > 0);
        }
    }
}

/// Whether a failed hand-over is to be tried once more: the operator wants it,
/// it has not been tried yet, and the wish has been waiting long enough.
pub open spec fn retry_is_due(settings: WatchSettings, wish: Wish, note: Note, now: int) -> bool {
    &&& wish.request_status == 4
    &&& note.retried_at is None
    &&& settings.retry_failed_after matches Some(delay) && now - wish.created_at.instant()
        >= delay.nanos
}

/// The note after a look at the film. The clock is only ever moved forward on
/// an observed release: some look found the film not out, and this one finds
/// it out. A film that was never seen unreleased counts from the wish on.
pub open spec fn observed(note: Note, available: bool, created: Timestamp, now: Timestamp) -> Note {
    if !available {
        Note { seen_unreleased: true, ..note }
    } else if note.released_seen is None {
        Note {
            released_seen: Some(
                if note.seen_unreleased {
                    now
                } else {
                    created
                },
            ),
            ..note
        }
    } else {
        note
    }
}

/// From when on a wish counts as stalled. A failed hand-over: from the retry
/// on, and never without one. A series: from the oldest missing episode on. A
/// film: from its observed release on. Never from before the wish.
pub open spec fn clock_start(
    state: WishStateView,
    facts: Option<SeriesFacts>,
    created: Timestamp,
    note: Note,
) -> Option<Timestamp> {
    if state is NotHandedOver {
        note.retried_at
    } else {
        let since = match facts {
            Some(f) => match f.missing_oldest {
                Some(missing) => missing.0,
                None => created,
            },
            None => match note.released_seen {
                Some(at) => at,
                None => created,
            },
        };
        Some(
            if since.instant() < created.instant() {
                created
            } else {
                since
            },
        )
    }
}

/// Whether a notice of a class may go out: the wish has stalled long enough,
/// the class has not been told, and the last notice is a day ago.
pub open spec fn notice_is_due(
    settings: WatchSettings,
    note: Note,
    class: Seq<char>,
    since: Timestamp,
    now: Timestamp,
) -> bool {
    &&& now.instant() - since.instant() >= settings.stall_after.nanos
    &&& !note.told@.contains_key(class)
    &&& note.last_notice matches Some(last) ==> now.instant() - last.instant() >= MIN_NOTICE_GAP
}

/// The person who asked, if the bot knows them.
pub open spec fn recipient(entries: Seq<Entry>, wish: Wish) -> Option<Entry> {
    match wish.requested_by {
        Some(username) => entry_of(entries, username@),
        None => None,
    }
}

/// The season of the oldest missing episode.
pub open spec fn season_of(facts: Option<SeriesFacts>) -> Option<u16> {
    match facts {
        Some(f) => match f.missing_oldest {
            Some(missing) => Some(missing.1),
            None => None,
        },
        None => None,
    }
}

/// Whether a reason is to be searched for: the wish is being looked for, no
/// reason is on record, and the search is switched on.
pub open spec fn wants_reason(search: bool, note: Note, state: WishStateView) -> bool {
    search && state is Searching && note.reason is None
}

/// Where the reason for a wish is searched.
pub open spec fn target_of(wish: Wish, facts: Option<SeriesFacts>) -> Option<SearchTarget> {
    match wish.arr_id {
        Some(id) => match wish.kind {
            MediaKind::Movie => Some(SearchTarget::Movie(id)),
            MediaKind::Tv => match season_of(facts) {
                Some(season) => Some(SearchTarget::Season(id, season)),
                None => None,
            },
        },
        None => None,
    }
}

/// What is done about a wish.
#[derive(Clone, Copy, Debug, PartialEq, Eq, Structural)]
pub enum Verdict {
    /// Nothing is said.
    Silent,
    /// A reason is searched for before anything is said.
    Search(SearchTarget),
    /// The person is told.
    Tell,
}

/// What is done about a wish in a given state. Somebody who cannot be told is
/// not told, and costs no search. A wish that wants a reason and cannot have
/// one now waits for it, rather than being sent a weaker sentence today and
/// the real reason tomorrow.
pub open spec fn verdict(
    watcher: Watcher,
    wish: Wish,
    record: NoticesView,
    note: Note,
    facts: Option<SeriesFacts>,
    state: WishStateView,
    entries: Seq<Entry>,
    may_search: bool,
    now: Timestamp,
) -> Verdict {
    let since = clock_start(state, facts, wish.created_at, note);
    if class_of(state) is None || since is None || !notice_is_due(
        watcher.settings,
        note,
        class_of(state)->0,
        since->0,
        now,
    ) || recipient(entries, wish) is None {
        Verdict::Silent
    } else if wants_reason(watcher.search, note, state) && wish.arr_id is Some {
        match target_of(wish, facts) {
            Some(target) => if may_search && budget_left(
                record,
                now.utc_day_number(),
                watcher.settings.max_searches_per_day,
            ) {
                Verdict::Search(target)
            } else {
                Verdict::Silent
            },
            None => Verdict::Silent,
        }
    } else {
        Verdict::Tell
    }
}

/// Whether a reason leaves room for a different version.
pub open spec fn has_a_hint(state: WishStateView) -> bool {
    state matches WishStateView::Unsuitable(reason) && !(reason is NothingExists)
}

/// The unasked message about a wish.
pub open spec fn notice_said(
    catalogue: Catalogue,
    locale: Locale,
    class: Seq<char>,
    title: Seq<char>,
    state: WishStateView,
    id: i64,
    season: Option<u16>,
) -> Seq<char> {
    if class == "download_failed"@ {
        catalogue.says(locale, "notice.download_failed"@, seq![("title"@, title)])
    } else if class == "import_stuck"@ {
        catalogue.says(locale, "notice.import_stuck"@, seq![("title"@, title)])
    } else if class == "not_handed_over"@ {
        catalogue.says(locale, "notice.not_handed_over"@, seq![("title"@, title)])
    } else {
        let sentence = match season {
            Some(s) => catalogue.says(
                locale,
                "notice.unsuitable_season"@,
                seq![
                    ("title"@, title),
                    ("season"@, decimal(s as nat)),
                    ("state"@, state_said(catalogue, locale, state)),
                ],
            ),
            None => catalogue.says(
                locale,
                "notice.unsuitable"@,
                seq![("title"@, title), ("state"@, state_said(catalogue, locale, state))],
            ),
        };
        if has_a_hint(state) {
            sentence + "\n\n"@ + catalogue.says(
                locale,
                "notice.unsuitable_hint"@,
                seq![("id"@, decimal_int(id as int))],
            )
        } else {
            sentence
        }
    }
}

/// The title in a message: the one on record, or the word for a wish without
/// one.
pub open spec fn title_said(catalogue: Catalogue, locale: Locale, note: Note) -> Seq<char> {
    match note.title {
        Some(title) => title@,
        None => catalogue.says(locale, "status.untitled"@, Seq::empty()),
    }
}

impl Watcher {
    /// The message for one class. Nothing from a release ever reaches this:
    /// only the verdict on a whole search does.
    pub fn notice_text(
        &self,
        locale: Locale,
        class: &str,
        title: &str,
        state: &WishState,
        id: i64,
        season: Option<u16>,
    ) -> (r: String)
        ensures
            r@ == notice_said(self.catalogue, locale, class@, title@, state@, id, season),
    {
        let catalogue = &self.catalogue;
        if same(class, "download_failed") {
            return with_one(catalogue, locale, "notice.download_failed", "title", title);
        }
        if same(class, "import_stuck") {
            return with_one(catalogue, locale, "notice.import_stuck", "title", title);
        }
        if same(class, "not_handed_over") {
            return with_one(catalogue, locale, "notice.not_handed_over", "title", title);
        }
        let words = state_text(catalogue, locale, state);
        let mut text = match season {
            Some(s) => {
                let number = decimal_u64(s as u64);
                let args = [
                    ("title", title),
                    ("season", number.as_str()),
                    ("state", words.as_str()),
                ];
                assert(arg_views(args@) =~= seq![
                    ("title"@, title@),
                    ("season"@, number@),
                    ("state"@, words@),
                ]);
                catalogue.text(locale, "notice.unsuitable_season", &args)
            },
            None => {
                let args = [("title", title), ("state", words.as_str())];
                assert(arg_views(args@) =~= seq![("title"@, title@), ("state"@, words@)]);
                catalogue.text(locale, "notice.unsuitable", &args)
            },
        };
        // The hint is about picking a different version, so it only makes
        // sense where a different version could exist.
        let hint = match state {
            WishState::Unsuitable(reason) => !matches!(reason, Reason::NothingExists),
            _ => false,
        };
        if hint {
            text.append("\n\n");
            let number = decimal_i64(id);
            text.append(
                with_one(
                    catalogue,
                    locale,
                    "notice.unsuitable_hint",
                    "id",
                    number.as_str(),
                ).as_str(),
            );
        }
        text
    }

    pub(crate) fn retry_due(&self, wish: &Wish, note: &Note, now: Timestamp) -> (r: bool)
        ensures
            r == retry_is_due(self.settings, *wish, *note, now.instant()),
    {
        if wish.request_status != 4 || note.retried_at.is_some() {
            return false;
        }
        match self.settings.retry_failed_after {
            Some(delay) => now.since(&wish.created_at).nanos >= delay.nanos,
            None => false,
        }
    }

    fn notice_due(&self, note: &Note, class: &str, since: Timestamp, now: Timestamp) -> (r: bool)
        ensures
            r == notice_is_due(self.settings, *note, class@, since, now),
    {
        if now.since(&since).nanos < self.settings.stall_after.nanos {
            return false;
        }
        if note.told.contains_key(&class.to_owned()) {
            return false;
        }
        match note.last_notice {
            Some(last) => now.since(&last).nanos >= MIN_NOTICE_GAP,
            None => true,
        }
    }

    /// What is done about a wish in a given state.
    pub fn decide(
        &self,
        wish: &Wish,
        notices: &Notices,
        note: &Note,
        facts: Option<SeriesFacts>,
        state: &WishState,
        directory: &State,
        may_search: bool,
        now: Timestamp,
    ) -> (r: Verdict)
        ensures
            r == verdict(
                *self,
                *wish,
                notices@,
                *note,
                facts,
                state@,
                directory@,
                may_search,
                now,
            ),
    {
        let class = match state.notice_class() {
            Some(class) => class,
            None => {
                return Verdict::Silent;
            },
        };
        let since = match stalled_since(state, facts, wish.created_at, note) {
            Some(since) => since,
            None => {
                return Verdict::Silent;
            },
        };
        if !self.notice_due(note, class, since, now) {
            return Verdict::Silent;
        }
        // Nobody to tell: and nothing is recorded as told, so the day they do
        // link their Signal account they still hear about it.
        if find_recipient(directory, wish).is_none() {
            return Verdict::Silent;
        }
        let wanted = self.search && matches!(state, WishState::Searching) && note.reason.is_none();
        if !wanted {
            return Verdict::Tell;
        }
        match wish.arr_id {
            None => Verdict::Tell,
            Some(id) => {
                let target = match wish.kind {
                    MediaKind::Movie => SearchTarget::Movie(id),
                    MediaKind::Tv => match missing_season(facts) {
                        Some(season) => SearchTarget::Season(id, season),
                        None => {
                            return Verdict::Silent;
                        },
                    },
                };
                if may_search && notices.may_search(now, self.settings.max_searches_per_day) {
                    Verdict::Search(target)
                } else {
                    Verdict::Silent
                }
            },
        }
    }
}

fn stalled_since(
    state: &WishState,
    facts: Option<SeriesFacts>,
    created: Timestamp,
    note: &Note,
) -> (r: Option<Timestamp>)
    ensures
        r == clock_start(state@, facts, created, *note),
{
    if matches!(state, WishState::NotHandedOver) {
        return note.retried_at;
    }
    let since = match facts {
        Some(f) => match f.missing_oldest {
            Some(missing) => missing.0,
            None => created,
        },
        None => match note.released_seen {
            Some(at) => at,
            None => created,
        },
    };
    Some(created.later(since))
}

pub(crate) fn missing_season(facts: Option<SeriesFacts>) -> (r: Option<u16>)
    ensures
        r == season_of(facts),
{
    match facts {
        Some(f) => match f.missing_oldest {
            Some(missing) => Some(missing.1),
            None => None,
        },
        None => None,
    }
}

pub(crate) fn find_recipient<'a>(directory: &'a State, wish: &Wish) -> (r: Option<&'a Entry>)
    ensures
        match r {
            Some(entry) => recipient(directory@, *wish) == Some(*entry),
            None => recipient(directory@, *wish) is None,
        },
{
    match &wish.requested_by {
        Some(username) => directory.by_user(username.as_str()),
        None => None,
    }
}

} // verus!
