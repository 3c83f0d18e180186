//! One wish in a round: gather, judge, and decide whether anything is said.
//!
//! [`Considering`] asks for one piece of work at a time and is handed what
//! came of it. A lookup that fails ends the wish for this round: half the
//! evidence is worse than none, since it would read as "still searching" and
//! go out as a message.

use crate::arr::{ArrMovie, ArrSeries, HistoryEvent, QueueItem, Release, release_views};
use crate::dialog::status::plain;
use crate::i18n::Locale;
use crate::insight::{
    Evidence, EvidenceView, SeriesFacts, classify, facts_of, judged, opt_views, reason_from,
    reason_of, series_facts,
};
use crate::model::{
    Aci, MediaKind, ReasonView, Wish, WishState, WishStateView, class_of, opt_reason,
};
use crate::moment::{Timestamp, format_rfc3339, rfc3339_text};
use crate::notices::{Note, Notices, NoticesView, is_fresh, searches_on};
use crate::state::{Entry, State};
use crate::watch::{
    SearchTarget, Verdict, WatchSettings, Watcher, find_recipient, missing_season, notice_said,
    observed, recipient, retry_is_due, season_of, title_said, verdict,
};
use vstd::prelude::*;

verus! {

/// A piece of work that a round cannot do itself.
#[derive(Clone, Debug, PartialEq)]
pub enum Ask {
    /// Every open wish, from Seerr.
    OpenWishes,
    /// The download queue of Radarr (movies) or Sonarr (series).
    Queue(MediaKind),
    /// The title of a film or series, from Seerr.
    Title { kind: MediaKind, tmdb_id: i64 },
    /// Write the record out.
    Save,
    /// Have Seerr hand a request over once more.
    Retry(i64),
    /// What Radarr says about a film.
    Movie(i64),
    /// What Sonarr says about a series.
    Series(i64),
    /// What happened last to a film or series.
    History(MediaKind, i64),
    /// An interactive search at the indexers.
    Search(SearchTarget),
    /// Send a message.
    Send { to: Aci, text: String },
}

/// What came of a piece of work. `None` and `false` stand for a failure.
#[derive(Clone, Debug, PartialEq)]
pub enum Answer {
    /// There was nothing to do.
    Begun,
    Wishes(Option<Vec<Wish>>),
    Queue(Option<Vec<QueueItem>>),
    /// Also `None` if there is no title.
    Title(Option<String>),
    Saved(bool),
    /// Whatever Seerr said to it.
    Retried,
    Movie(Option<ArrMovie>),
    Series(Option<ArrSeries>),
    History(Option<Option<HistoryEvent>>),
    Releases(Option<Vec<Release>>),
    Sent(bool),
}

/// What one wish cost and achieved.
#[derive(Clone, Copy, Debug, PartialEq, Eq, Structural)]
pub struct WishOutcome {
    pub searched: bool,
    pub sent: bool,
    pub retried: bool,
}

impl Default for WishOutcome {
    /// Nothing.
    fn default() -> (r: WishOutcome)
        ensures
            r == (WishOutcome { searched: false, sent: false, retried: false }),
    {
        WishOutcome { searched: false, sent: false, retried: false }
    }
}

/// What comes next for a wish.
#[derive(Clone, Debug, PartialEq)]
pub enum WishStep {
    Do(Ask),
    Over(WishOutcome),
}

/// What a wish is waiting for.
#[derive(Clone, Debug, PartialEq)]
pub enum Stage {
    Begin,
    /// Its title.
    Title,
    /// The record, with the retry written down.
    HandOver,
    /// The retry.
    Retry,
    /// The film or the series.
    Evidence,
    /// Its history.
    History,
    /// The record, with the search counted.
    Counted { target: SearchTarget, to: Aci, locale: Locale },
    /// The search.
    Search { to: Aci, locale: Locale },
    /// The record, with the reason found.
    Reasoned { to: Aci, locale: Locale },
    /// The message.
    Message { class: &'static str },
    /// The record, with the message told.
    Told,
    Over,
}

/// One wish on its way through a round.
#[derive(Debug)]
pub struct Considering {
    pub stage: Stage,
    /// Whether the round still has its search.
    pub may_search: bool,
    pub queue_item: Option<QueueItem>,
    pub movie: Option<ArrMovie>,
    pub facts: Option<SeriesFacts>,
    pub last_event: Option<HistoryEvent>,
    pub outcome: WishOutcome,
}

/// The record with another note for one wish.
pub open spec fn with_note(record: NoticesView, id: i64, note: Note) -> NoticesView {
    NoticesView {
        notes: record.notes.insert(id, note),
        search_day: record.search_day,
        searches_today: record.searches_today,
    }
}

/// Whether `after` is the record with a note for the wish: the one it had, or
/// a fresh one.
pub open spec fn touched(
    record: NoticesView,
    id: i64,
    now: Timestamp,
    after: NoticesView,
) -> bool {
    &&& after == with_note(record, id, after.notes[id])
    &&& if record.notes.contains_key(id) {
        after.notes[id] == record.notes[id]
    } else {
        is_fresh(after.notes[id], now)
    }
}

/// The record with one more search counted.
pub open spec fn counted(record: NoticesView, now: Timestamp) -> NoticesView {
    NoticesView {
        notes: record.notes,
        search_day: Some(now.utc_day_number() as i64),
        searches_today: (searches_on(record, now.utc_day_number()) + 1) as u32,
    }
}

/// Whether `after` is the note with a reason found at `now`.
pub open spec fn reasoned(note: Note, reason: ReasonView, now: Timestamp, after: Note) -> bool {
    &&& after == Note { reason: after.reason, searched_at: Some(now), ..note }
    &&& opt_reason(after.reason) == Some(reason)
}

/// Whether `after` is the note with a class told at `now`.
pub open spec fn told_now(note: Note, class: Seq<char>, now: Timestamp, after: Note) -> bool {
    &&& after == Note { told: after.told, last_notice: Some(now), ..note }
    &&& after.told@.dom() == note.told@.dom().insert(class)
    &&& after.told@[class]@ == rfc3339_text(now)
    &&& forall|other: Seq<char>| #[trigger]
        note.told@.contains_key(other) && other != class ==> after.told@[other]
            == note.told@[other]
}

/// The languages a wish's profile wants, where the settings name them.
pub open spec fn wanted_by(settings: WatchSettings, wish: Wish) -> Option<Seq<Seq<char>>> {
    match wish.profile_name {
        Some(name) => if settings.profile_languages@.contains_key(name@) {
            Some(crate::text::views(settings.profile_languages@[name@]@))
        } else {
            None
        },
        None => None,
    }
}

/// Whether a step sends a text to an account.
pub open spec fn sends(step: WishStep, to: Seq<char>, text: Seq<char>) -> bool {
    step matches WishStep::Do(Ask::Send { to: account, text: said }) && account@ == to && said@
        == text
}

/// Whether the wish is over for this round, with the record as it was.
pub open spec fn ended(
    c: Considering,
    record: NoticesView,
    after: Considering,
    record_after: NoticesView,
    step: WishStep,
) -> bool {
    &&& record_after == record
    &&& after == Considering { stage: Stage::Over, ..c }
    &&& step == WishStep::Over(c.outcome)
}

/// What is known about a wish by now.
pub open spec fn evidence_of(c: Considering, note: Note) -> EvidenceView {
    EvidenceView {
        movie: c.movie,
        series: c.facts,
        queue_item: c.queue_item,
        last_event: c.last_event,
        known_reason: opt_reason(note.reason),
    }
}

/// What follows once the evidence is complete: nothing, a counted search, or
/// the message.
pub open spec fn decided(
    watcher: Watcher,
    wish: Wish,
    entries: Seq<Entry>,
    now: Timestamp,
    c: Considering,
    record: NoticesView,
    after: Considering,
    record_after: NoticesView,
    step: WishStep,
) -> bool {
    let note = record.notes[wish.id];
    let state = judged(wish, evidence_of(c, note), now.instant());
    let person = recipient(entries, wish)->0;
    match verdict(watcher, wish, record, note, c.facts, state, entries, c.may_search, now) {
        Verdict::Silent => ended(c, record, after, record_after, step),
        Verdict::Search(target) => {
            &&& record_after == counted(record, now)
            &&& after == Considering {
                stage: Stage::Counted { target, to: person.aci, locale: person.locale },
                ..c
            }
            &&& step == WishStep::Do(Ask::Save)
        },
        Verdict::Tell => {
            &&& record_after == record
            &&& after == Considering { stage: after.stage, ..c }
            &&& after.stage matches Stage::Message { class } && class_of(state) == Some(class@)
            &&& sends(
                step,
                person.aci@,
                notice_said(
                    watcher.catalogue,
                    person.locale,
                    class_of(state)->0,
                    title_said(watcher.catalogue, person.locale, note),
                    state,
                    wish.id,
                    season_of(c.facts),
                ),
            )
        },
    }
}

/// What follows once the title is known, or is known to be unknown: the one
/// retry of a failed hand-over, a look at the film or series, or the decision.
/// A queue entry is evidence enough on its own.
pub open spec fn looked(
    watcher: Watcher,
    wish: Wish,
    entries: Seq<Entry>,
    now: Timestamp,
    c: Considering,
    record: NoticesView,
    after: Considering,
    record_after: NoticesView,
    step: WishStep,
) -> bool {
    let note = record.notes[wish.id];
    if retry_is_due(watcher.settings, wish, note, now.instant()) {
        // Written down before the call: whatever Seerr answers, there is
        // never a second attempt.
        &&& record_after == with_note(record, wish.id, Note { retried_at: Some(now), ..note })
        &&& after == Considering { stage: Stage::HandOver, ..c }
        &&& step == WishStep::Do(Ask::Save)
    } else if c.queue_item is None && wish.arr_id is Some {
        &&& record_after == record
        &&& after == Considering { stage: Stage::Evidence, ..c }
        &&& step == WishStep::Do(
            match wish.kind {
                MediaKind::Movie => Ask::Movie(wish.arr_id->0),
                MediaKind::Tv => Ask::Series(wish.arr_id->0),
            },
        )
    } else {
        decided(watcher, wish, entries, now, c, record, after, record_after, step)
    }
}

/// One step of one wish, on a record that has a note for it.
pub open spec fn stepped(
    watcher: Watcher,
    wish: Wish,
    entries: Seq<Entry>,
    now: Timestamp,
    c: Considering,
    answer: Answer,
    record: NoticesView,
    after: Considering,
    record_after: NoticesView,
    step: WishStep,
) -> bool {
    let note = record.notes[wish.id];
    match (c.stage, answer) {
        (Stage::Begin, _) => if note.title is None {
            &&& record_after == record
            &&& after == Considering { stage: Stage::Title, ..c }
            &&& step == WishStep::Do(Ask::Title { kind: wish.kind, tmdb_id: wish.tmdb_id })
        } else {
            looked(watcher, wish, entries, now, c, record, after, record_after, step)
        },
        (Stage::Title, Answer::Title(Some(found))) => looked(
            watcher,
            wish,
            entries,
            now,
            c,
            with_note(record, wish.id, Note { title: Some(found), ..note }),
            after,
            record_after,
            step,
        ),
        (Stage::Title, Answer::Title(None)) => looked(
            watcher,
            wish,
            entries,
            now,
            c,
            record,
            after,
            record_after,
            step,
        ),
        (Stage::HandOver, Answer::Saved(true)) => {
            &&& record_after == record
            &&& after == Considering { stage: Stage::Retry, ..c }
            &&& step == WishStep::Do(Ask::Retry(wish.id))
        },
        (Stage::Retry, _) => ended(
            Considering { outcome: WishOutcome { retried: true, ..c.outcome }, ..c },
            record,
            after,
            record_after,
            step,
        ),
        // What was seen is written down before the next call can fail.
        (Stage::Evidence, Answer::Movie(Some(movie))) => if wish.arr_id is Some {
            &&& record_after == with_note(
                record,
                wish.id,
                observed(note, movie.is_available, wish.created_at, now),
            )
            &&& after == Considering { stage: Stage::History, movie: Some(movie), ..c }
            &&& step == WishStep::Do(Ask::History(wish.kind, wish.arr_id->0))
        } else {
            ended(c, record, after, record_after, step)
        },
        (Stage::Evidence, Answer::Series(Some(series))) => if wish.arr_id is Some {
            &&& record_after == record
            &&& after.facts is Some
            &&& facts_of(
                series.episodes@,
                series.monitored_seasons@,
                wish.seasons@,
                now.instant(),
                after.facts->0,
            )
            &&& after == Considering { stage: Stage::History, facts: after.facts, ..c }
            &&& step == WishStep::Do(Ask::History(wish.kind, wish.arr_id->0))
        } else {
            ended(c, record, after, record_after, step)
        },
        (Stage::History, Answer::History(Some(event))) => decided(
            watcher,
            wish,
            entries,
            now,
            Considering { last_event: event, ..c },
            record,
            after,
            record_after,
            step,
        ),
        // Counted before the call: a search that reached the indexers and
        // then timed out has still been made.
        (Stage::Counted { target, to, locale }, _) => {
            &&& record_after == record
            &&& after == Considering { stage: Stage::Search { to, locale }, ..c }
            &&& step == WishStep::Do(Ask::Search(target))
        },
        (Stage::Search { to, locale }, Answer::Releases(Some(releases))) => {
            &&& record_after == with_note(record, wish.id, record_after.notes[wish.id])
            &&& reasoned(
                note,
                reason_of(release_views(releases@), wanted_by(watcher.settings, wish)),
                now,
                record_after.notes[wish.id],
            )
            &&& after == Considering {
                stage: Stage::Reasoned { to, locale },
                outcome: WishOutcome { searched: true, ..c.outcome },
                ..c
            }
            &&& step == WishStep::Do(Ask::Save)
        },
        (Stage::Search { .. }, _) => ended(
            Considering { outcome: WishOutcome { searched: true, ..c.outcome }, ..c },
            record,
            after,
            record_after,
            step,
        ),
        // Without the reason on disk the message waits: one notice late is
        // cheaper than a second search.
        (Stage::Reasoned { to, locale }, Answer::Saved(true)) => if note.reason is Some {
            &&& record_after == record
            &&& after == Considering { stage: after.stage, ..c }
            &&& after.stage matches Stage::Message { class } && class@ == "unsuitable"@
            &&& sends(
                step,
                to@,
                notice_said(
                    watcher.catalogue,
                    locale,
                    "unsuitable"@,
                    title_said(watcher.catalogue, locale, note),
                    WishStateView::Unsuitable(note.reason->0@),
                    wish.id,
                    season_of(c.facts),
                ),
            )
        } else {
            ended(c, record, after, record_after, step)
        },
        // A message that did not go out does not count as told.
        (Stage::Message { class }, Answer::Sent(true)) => {
            &&& record_after == with_note(record, wish.id, record_after.notes[wish.id])
            &&& told_now(note, class@, now, record_after.notes[wish.id])
            &&& after == Considering {
                stage: Stage::Told,
                outcome: WishOutcome { sent: true, ..c.outcome },
                ..c
            }
            &&& step == WishStep::Do(Ask::Save)
        },
        _ => ended(c, record, after, record_after, step),
    }
}

/// One step of one wish, on any record: the wish first gets a note, if it has
/// none.
pub open spec fn considered(
    watcher: Watcher,
    wish: Wish,
    entries: Seq<Entry>,
    now: Timestamp,
    c: Considering,
    answer: Answer,
    record: NoticesView,
    after: Considering,
    record_after: NoticesView,
    step: WishStep,
) -> bool {
    exists|noted: NoticesView| #[trigger]
        touched(record, wish.id, now, noted) && stepped(
            watcher,
            wish,
            entries,
            now,
            c,
            answer,
            noted,
            after,
            record_after,
            step,
        )
}

/// Whether the searches of the day keep to the limit.
pub open spec fn within_budget(watcher: Watcher, record: NoticesView, now: Timestamp) -> bool {
    searches_on(record, now.utc_day_number()) <= watcher.settings.max_searches_per_day
}

/// Whether a wish that has searched, or is about to, was allowed to, and has
/// searched only once.
pub open spec fn paid(c: Considering) -> bool {
    &&& (c.outcome.searched || c.stage is Counted || c.stage is Search || c.stage is Reasoned)
        ==> c.may_search
    &&& c.outcome.searched ==> (c.stage is Reasoned || c.stage is Message || c.stage is Told
        || c.stage is Over)
}

/// Whether a wish has asked for its search.
pub open spec fn has_searched(c: Considering) -> bool {
    c.outcome.searched || c.stage is Search
}

impl Considering {
    /// A wish at the beginning of its turn.
    pub fn new(queue_item: Option<QueueItem>, may_search: bool) -> (r: Considering)
        ensures
            r == (Considering {
                stage: Stage::Begin,
                may_search,
                queue_item,
                movie: None,
                facts: None,
                last_event: None,
                outcome: WishOutcome { searched: false, sent: false, retried: false },
            }),
    {
        Considering {
            stage: Stage::Begin,
            may_search,
            queue_item,
            movie: None,
            facts: None,
            last_event: None,
            outcome: WishOutcome::default(),
        }
    }

    fn end(&mut self) -> (step: WishStep)
        ensures
            *final(self) == (Considering { stage: Stage::Over, ..*old(self) }),
            step == WishStep::Over(old(self).outcome),
    {
        self.stage = Stage::Over;
        WishStep::Over(self.outcome)
    }

    fn decide(
        &mut self,
        watcher: &Watcher,
        wish: &Wish,
        notices: &mut Notices,
        directory: &State,
        now: Timestamp,
    ) -> (step: WishStep)
        requires
            old(notices)@.notes.contains_key(wish.id),
        ensures
            decided(
                *watcher,
                *wish,
                directory@,
                now,
                *old(self),
                old(notices)@,
                *final(self),
                final(notices)@,
                step,
            ),
    {
        let note = match notices.note(wish.id) {
            Some(note) => note,
            None => {
                return self.end();
            },
        };
        let evidence = Evidence {
            movie: self.movie.as_ref(),
            series: self.facts.as_ref(),
            queue_item: self.queue_item.as_ref(),
            last_event: self.last_event,
            known_reason: note.reason.as_ref(),
        };
        assert(evidence@ == evidence_of(*self, *note));
        let state = classify(wish, &evidence, now);
        let verdict = watcher.decide(
            wish,
            notices,
            note,
            self.facts,
            &state,
            directory,
            self.may_search,
            now,
        );
        let entry = match find_recipient(directory, wish) {
            Some(entry) => entry,
            None => {
                return self.end();
            },
        };
        match verdict {
            Verdict::Silent => self.end(),
            Verdict::Search(target) => {
                self.stage = Stage::Counted { target, to: entry.aci.clone(), locale: entry.locale };
                notices.count_search(now);
                WishStep::Do(Ask::Save)
            },
            Verdict::Tell => {
                let class = match state.notice_class() {
                    Some(class) => class,
                    None => {
                        return self.end();
                    },
                };
                let title = known_title(watcher, entry.locale, note);
                let text = watcher.notice_text(
                    entry.locale,
                    class,
                    title.as_str(),
                    &state,
                    wish.id,
                    missing_season(self.facts),
                );
                self.stage = Stage::Message { class };
                WishStep::Do(Ask::Send { to: entry.aci.clone(), text })
            },
        }
    }
}

fn known_title(watcher: &Watcher, locale: Locale, note: &Note) -> (r: String)
    ensures
        r@ == title_said(watcher.catalogue, locale, *note),
{
    match &note.title {
        Some(title) => title.clone(),
        None => plain(&watcher.catalogue, locale, "status.untitled"),
    }
}

pub(crate) fn wanted_languages<'a>(settings: &'a WatchSettings, wish: &Wish) -> (r: Option<&'a Vec<String>>)
    ensures
        opt_views(r) == wanted_by(*settings, *wish),
{
    match &wish.profile_name {
        Some(name) => settings.profile_languages.get(name),
        None => None,
    }
}

/// The moment `now`, written down in the note as the time a class was told.
fn tell(note: &mut Note, class: &str, now: Timestamp)
    ensures
        told_now(*old(note), class@, now, *final(note)),
{
    note.told.insert(class.to_owned(), format_rfc3339(&now));
    note.last_notice = Some(now);
}

fn observe(note: &mut Note, available: bool, created: Timestamp, now: Timestamp)
    ensures
        *final(note) == observed(*old(note), available, created, now),
{
    if !available {
        note.seen_unreleased = true;
    } else if note.released_seen.is_none() {
        note.released_seen = Some(
            if note.seen_unreleased {
                now
            } else {
                created
            },
        );
    }
}

impl Considering {
    fn look(
        &mut self,
        watcher: &Watcher,
        wish: &Wish,
        notices: &mut Notices,
        directory: &State,
        now: Timestamp,
    ) -> (step: WishStep)
        requires
            old(notices)@.notes.contains_key(wish.id),
        ensures
            looked(
                *watcher,
                *wish,
                directory@,
                now,
                *old(self),
                old(notices)@,
                *final(self),
                final(notices)@,
                step,
            ),
    {
        let due = match notices.note(wish.id) {
            Some(note) => watcher.retry_due(wish, note, now),
            None => false,
        };
        if due {
            notices.note_mut(wish.id, now).retried_at = Some(now);
            self.stage = Stage::HandOver;
            return WishStep::Do(Ask::Save);
        }
        if self.queue_item.is_none() {
            if let Some(arr_id) = wish.arr_id {
                self.stage = Stage::Evidence;
                return match wish.kind {
                    MediaKind::Movie => WishStep::Do(Ask::Movie(arr_id)),
                    MediaKind::Tv => WishStep::Do(Ask::Series(arr_id)),
                };
            }
        }
        self.decide(watcher, wish, notices, directory, now)
    }

    /// One step: takes what came of the last piece of work, and says what is
    /// to be done next. From the first step on the wish has a note, whatever
    /// else happens: it is what the record keeps.
    pub fn step(
        &mut self,
        watcher: &Watcher,
        wish: &Wish,
        notices: &mut Notices,
        directory: &State,
        now: Timestamp,
        answer: Answer,
    ) -> (step: WishStep)
        ensures
            considered(
                *watcher,
                *wish,
                directory@,
                now,
                *old(self),
                answer,
                old(notices)@,
                *final(self),
                final(notices)@,
                step,
            ),
    {
        let ghost before = notices@;
        let untitled = notices.note_mut(wish.id, now).title.is_none();
        let ghost record = notices@;
        assert(touched(before, wish.id, now, record));
        let mut stage = Stage::Over;
        std::mem::swap(&mut stage, &mut self.stage);
        match stage {
            Stage::Begin => {
                if untitled {
                    self.stage = Stage::Title;
                    return WishStep::Do(Ask::Title { kind: wish.kind, tmdb_id: wish.tmdb_id });
                }
                self.stage = Stage::Begin;
                self.look(watcher, wish, notices, directory, now)
            },
            Stage::Title => match answer {
                Answer::Title(found) => {
                    if let Some(title) = found {
                        notices.note_mut(wish.id, now).title = Some(title);
                    }
                    self.stage = Stage::Title;
                    self.look(watcher, wish, notices, directory, now)
                },
                _ => self.end(),
            },
            Stage::HandOver => match answer {
                Answer::Saved(true) => {
                    self.stage = Stage::Retry;
                    WishStep::Do(Ask::Retry(wish.id))
                },
                _ => self.end(),
            },
            Stage::Retry => {
                // The next round sees what Seerr made of it.
                self.outcome.retried = true;
                self.end()
            },
            Stage::Evidence => {
                let arr_id = match wish.arr_id {
                    Some(arr_id) => arr_id,
                    None => {
                        return self.end();
                    },
                };
                match answer {
                    Answer::Movie(Some(movie)) => {
                        observe(
                            notices.note_mut(wish.id, now),
                            movie.is_available,
                            wish.created_at,
                            now,
                        );
                        self.movie = Some(movie);
                    },
                    Answer::Series(Some(series)) => {
                        self.facts = Some(series_facts(&series, &wish.seasons, now));
                    },
                    _ => {
                        return self.end();
                    },
                }
                self.stage = Stage::History;
                WishStep::Do(Ask::History(wish.kind, arr_id))
            },
            Stage::History => match answer {
                Answer::History(Some(event)) => {
                    self.last_event = event;
                    self.stage = Stage::History;
                    self.decide(watcher, wish, notices, directory, now)
                },
                _ => self.end(),
            },
            Stage::Counted { target, to, locale } => {
                self.stage = Stage::Search { to, locale };
                WishStep::Do(Ask::Search(target))
            },
            Stage::Search { to, locale } => {
                // Attempted, so counted for this round, whether or not it came
                // back with an answer.
                self.outcome.searched = true;
                match answer {
                    Answer::Releases(Some(releases)) => {
                        let wanted = wanted_languages(&watcher.settings, wish);
                        let found = reason_from(releases.as_slice(), wanted);
                        let note = notices.note_mut(wish.id, now);
                        note.reason = Some(found);
                        note.searched_at = Some(now);
                        self.stage = Stage::Reasoned { to, locale };
                        WishStep::Do(Ask::Save)
                    },
                    _ => self.end(),
                }
            },
            Stage::Reasoned { to, locale } => {
                match answer {
                    Answer::Saved(true) => {},
                    _ => {
                        return self.end();
                    },
                }
                let note = match notices.note(wish.id) {
                    Some(note) => note,
                    None => {
                        return self.end();
                    },
                };
                let reason = match &note.reason {
                    Some(reason) => reason.clone(),
                    None => {
                        return self.end();
                    },
                };
                let title = known_title(watcher, locale, note);
                let text = watcher.notice_text(
                    locale,
                    "unsuitable",
                    title.as_str(),
                    &WishState::Unsuitable(reason),
                    wish.id,
                    missing_season(self.facts),
                );
                self.stage = Stage::Message { class: "unsuitable" };
                WishStep::Do(Ask::Send { to, text })
            },
            Stage::Message { class } => match answer {
                Answer::Sent(true) => {
                    tell(notices.note_mut(wish.id, now), class, now);
                    self.outcome.sent = true;
                    self.stage = Stage::Told;
                    WishStep::Do(Ask::Save)
                },
                _ => self.end(),
            },
            Stage::Told => self.end(),
            Stage::Over => self.end(),
        }
    }
}

/// Once told is told: after a message about a class has gone out, nothing is
/// said about that class again, whenever the wish is next looked at.
pub proof fn law_once_told_is_told(
    note: Note,
    class: Seq<char>,
    told_at: Timestamp,
    after: Note,
    watcher: Watcher,
    wish: Wish,
    record: NoticesView,
    facts: Option<SeriesFacts>,
    state: WishStateView,
    entries: Seq<Entry>,
    may_search: bool,
    now: Timestamp,
)
    requires
        told_now(note, class, told_at, after),
        class_of(state) == Some(class),
    ensures
        verdict(watcher, wish, record, after, facts, state, entries, may_search, now)
            == Verdict::Silent,
{
    assert(after.told@.dom().contains(class));
}

/// Whatever the classes involved, two unasked messages about one wish are at
/// least a day apart.
pub proof fn law_a_day_between_messages(
    watcher: Watcher,
    wish: Wish,
    record: NoticesView,
    note: Note,
    facts: Option<SeriesFacts>,
    state: WishStateView,
    entries: Seq<Entry>,
    may_search: bool,
    now: Timestamp,
)
    requires
        note.last_notice is Some,
        now.instant() - note.last_notice->0.instant() < crate::watch::MIN_NOTICE_GAP,
    ensures
        verdict(watcher, wish, record, note, facts, state, entries, may_search, now)
            == Verdict::Silent,
{
}

/// Nothing is said, and no search is spent, before the deadline.
pub proof fn law_nothing_before_the_deadline(
    watcher: Watcher,
    wish: Wish,
    record: NoticesView,
    note: Note,
    facts: Option<SeriesFacts>,
    state: WishStateView,
    entries: Seq<Entry>,
    may_search: bool,
    now: Timestamp,
)
    requires
        now.instant() - wish.created_at.instant() < watcher.settings.stall_after.nanos,
        !(state is NotHandedOver),
    ensures
        verdict(watcher, wish, record, note, facts, state, entries, may_search, now)
            == Verdict::Silent,
{
}

/// Somebody the bot does not know is told nothing, and costs no search.
pub proof fn law_a_stranger_is_told_nothing(
    watcher: Watcher,
    wish: Wish,
    record: NoticesView,
    note: Note,
    facts: Option<SeriesFacts>,
    state: WishStateView,
    entries: Seq<Entry>,
    may_search: bool,
    now: Timestamp,
)
    requires
        recipient(entries, wish) is None,
    ensures
        verdict(watcher, wish, record, note, facts, state, entries, may_search, now)
            == Verdict::Silent,
{
}

/// A first failed hand-over is never a message: the retry is the answer to it.
pub proof fn law_a_first_failure_is_not_told(
    watcher: Watcher,
    wish: Wish,
    record: NoticesView,
    note: Note,
    facts: Option<SeriesFacts>,
    entries: Seq<Entry>,
    may_search: bool,
    now: Timestamp,
)
    requires
        note.retried_at is None,
    ensures
        verdict(
            watcher,
            wish,
            record,
            note,
            facts,
            WishStateView::NotHandedOver,
            entries,
            may_search,
            now,
        ) == Verdict::Silent,
{
}

/// A search is only ever made with the round's search and the day's budget
/// left, for a wish without a known reason, and with the search switched on.
pub proof fn law_a_search_is_budgeted(
    watcher: Watcher,
    wish: Wish,
    record: NoticesView,
    note: Note,
    facts: Option<SeriesFacts>,
    state: WishStateView,
    entries: Seq<Entry>,
    may_search: bool,
    now: Timestamp,
)
    requires
        verdict(watcher, wish, record, note, facts, state, entries, may_search, now) is Search,
    ensures
        may_search,
        watcher.search,
        note.reason is None,
        state is Searching,
        crate::notices::budget_left(
            record,
            now.utc_day_number(),
            watcher.settings.max_searches_per_day,
        ),
{
}

/// A wish that waits for its search is not sent the general sentence in the
/// meantime.
pub proof fn law_no_weaker_sentence_before_the_search(
    watcher: Watcher,
    wish: Wish,
    record: NoticesView,
    note: Note,
    facts: Option<SeriesFacts>,
    entries: Seq<Entry>,
    may_search: bool,
    now: Timestamp,
)
    requires
        watcher.search,
        note.reason is None,
        wish.arr_id is Some,
    ensures
        !(verdict(
            watcher,
            wish,
            record,
            note,
            facts,
            WishStateView::Searching,
            entries,
            may_search,
            now,
        ) is Tell),
{
}

/// One retry: once it is written down, it is never due again.
pub proof fn law_one_retry(settings: WatchSettings, wish: Wish, note: Note, at: Timestamp, now: int)
    ensures
        !retry_is_due(settings, wish, Note { retried_at: Some(at), ..note }, now),
{
}

/// A step changes what is told about a wish only when it hears that a message
/// has gone out.
pub proof fn law_told_only_after_sent(
    watcher: Watcher,
    wish: Wish,
    entries: Seq<Entry>,
    now: Timestamp,
    c: Considering,
    answer: Answer,
    record: NoticesView,
    after: Considering,
    record_after: NoticesView,
    step: WishStep,
)
    requires
        record.notes.contains_key(wish.id),
        stepped(watcher, wish, entries, now, c, answer, record, after, record_after, step),
        record_after.notes[wish.id].told != record.notes[wish.id].told,
    ensures
        c.stage is Message,
        answer == Answer::Sent(true),
{
}

/// A step leaves the notes of every other wish alone, and loses none.
pub proof fn law_other_wishes_are_left_alone(
    watcher: Watcher,
    wish: Wish,
    entries: Seq<Entry>,
    now: Timestamp,
    c: Considering,
    answer: Answer,
    before: NoticesView,
    record: NoticesView,
    after: Considering,
    record_after: NoticesView,
    step: WishStep,
    other: i64,
)
    requires
        touched(before, wish.id, now, record),
        stepped(watcher, wish, entries, now, c, answer, record, after, record_after, step),
        other != wish.id,
    ensures
        record_after.notes.contains_key(other) == before.notes.contains_key(other),
        record_after.notes[other] == before.notes[other],
        record_after.notes.contains_key(wish.id),
{
}

/// A known reason stays known: a step never takes one away.
pub proof fn law_a_reason_is_kept(
    watcher: Watcher,
    wish: Wish,
    entries: Seq<Entry>,
    now: Timestamp,
    c: Considering,
    answer: Answer,
    record: NoticesView,
    after: Considering,
    record_after: NoticesView,
    step: WishStep,
)
    requires
        record.notes.contains_key(wish.id),
        record.notes[wish.id].reason is Some,
        stepped(watcher, wish, entries, now, c, answer, record, after, record_after, step),
    ensures
        record_after.notes[wish.id].reason is Some,
{
}

/// A wish asks for a search at most once, and only with the round's search
/// left: from then on it counts as having searched, up to its outcome.
pub proof fn law_one_search_per_wish(
    watcher: Watcher,
    wish: Wish,
    entries: Seq<Entry>,
    now: Timestamp,
    c: Considering,
    answer: Answer,
    record: NoticesView,
    after: Considering,
    record_after: NoticesView,
    step: WishStep,
)
    requires
        paid(c),
        considered(watcher, wish, entries, now, c, answer, record, after, record_after, step),
    ensures
        paid(after),
        after.may_search == c.may_search,
        step matches WishStep::Do(Ask::Search(_)) ==> c.may_search && !has_searched(c)
            && has_searched(after),
        has_searched(c) ==> has_searched(after),
        step matches WishStep::Over(outcome) ==> outcome.searched == has_searched(after),
{
}

/// Whether a wish has been stuck for long enough to be told about: a failed
/// hand-over since its retry, anything else since it was made.
pub open spec fn overdue(
    settings: WatchSettings,
    wish: Wish,
    note: Note,
    class: Seq<char>,
    now: Timestamp,
) -> bool {
    if class == "not_handed_over"@ {
        note.retried_at matches Some(at) && now.instant() - at.instant()
            >= settings.stall_after.nanos
    } else {
        now.instant() - wish.created_at.instant() >= settings.stall_after.nanos
    }
}

/// Whether an account may be told about a class of problem of a wish: it is
/// the account of the person who asked, the problem is old enough, they have
/// not been told of it, and the last message about the wish is a day ago.
pub open spec fn may_be_told(
    watcher: Watcher,
    wish: Wish,
    entries: Seq<Entry>,
    now: Timestamp,
    record: NoticesView,
    class: Seq<char>,
    to: Seq<char>,
) -> bool {
    let note = record.notes[wish.id];
    &&& record.notes.contains_key(wish.id)
    &&& recipient(entries, wish) matches Some(person) && person.aci@ == to
    &&& overdue(watcher.settings, wish, note, class, now)
    &&& !note.told@.contains_key(class)
    &&& note.last_notice matches Some(last) ==> now.instant() - last.instant()
        >= crate::watch::MIN_NOTICE_GAP
}

/// Whether a wish that is on its way to a message is so by right.
pub open spec fn cleared(
    watcher: Watcher,
    wish: Wish,
    entries: Seq<Entry>,
    now: Timestamp,
    c: Considering,
    record: NoticesView,
) -> bool {
    match c.stage {
        Stage::Counted { to, .. } => may_be_told(
            watcher,
            wish,
            entries,
            now,
            record,
            "unsuitable"@,
            to@,
        ),
        Stage::Search { to, .. } => may_be_told(
            watcher,
            wish,
            entries,
            now,
            record,
            "unsuitable"@,
            to@,
        ),
        Stage::Reasoned { to, .. } => may_be_told(
            watcher,
            wish,
            entries,
            now,
            record,
            "unsuitable"@,
            to@,
        ),
        _ => true,
    }
}

/// Nobody is sent anything that they may not be told: whenever a message
/// about a wish goes out, it goes to the person who asked, about a problem
/// that is old enough, of which they have not been told, and a day or more
/// after the last message. What clears a wish for its message holds from step
/// to step, across the search and the writing.
pub proof fn law_a_message_is_due(
    watcher: Watcher,
    wish: Wish,
    entries: Seq<Entry>,
    now: Timestamp,
    c: Considering,
    answer: Answer,
    record: NoticesView,
    after: Considering,
    record_after: NoticesView,
    step: WishStep,
)
    requires
        cleared(watcher, wish, entries, now, c, record),
        considered(watcher, wish, entries, now, c, answer, record, after, record_after, step),
    ensures
        cleared(watcher, wish, entries, now, after, record_after),
        step matches WishStep::Do(Ask::Send { to, text }) ==> {
            &&& after.stage matches Stage::Message { class }
            &&& may_be_told(watcher, wish, entries, now, record_after, class@, to@)
        },
{
    reveal_strlit("unsuitable");
    reveal_strlit("not_handed_over");
    reveal_strlit("download_failed");
    reveal_strlit("import_stuck");
    assert("unsuitable"@.len() != "not_handed_over"@.len());
    assert("import_stuck"@.len() != "not_handed_over"@.len());
    assert("download_failed"@[0] != "not_handed_over"@[0]);
    let noted = choose|noted: NoticesView| #[trigger]
        touched(record, wish.id, now, noted) && stepped(
            watcher,
            wish,
            entries,
            now,
            c,
            answer,
            noted,
            after,
            record_after,
            step,
        );
    assert(noted.notes.contains_key(wish.id));
}

/// The day's budget is kept: no step takes the searches of a day beyond the
/// limit.
pub proof fn law_a_day_keeps_its_budget(
    watcher: Watcher,
    wish: Wish,
    entries: Seq<Entry>,
    now: Timestamp,
    c: Considering,
    answer: Answer,
    record: NoticesView,
    after: Considering,
    record_after: NoticesView,
    step: WishStep,
)
    requires
        considered(watcher, wish, entries, now, c, answer, record, after, record_after, step),
        within_budget(watcher, record, now),
    ensures
        within_budget(watcher, record_after, now),
        step matches WishStep::Do(Ask::Search(_)) ==> c.stage is Counted,
        after.stage is Counted ==> {
            &&& step == WishStep::Do(Ask::Save)
            &&& searches_on(record_after, now.utc_day_number()) == searches_on(
                record,
                now.utc_day_number(),
            ) + 1
        },
{
}

/// Every search is counted: a step that asks for one has it counted already,
/// and none takes a search of the day back.
pub proof fn law_a_search_is_counted_first(
    watcher: Watcher,
    wish: Wish,
    entries: Seq<Entry>,
    now: Timestamp,
    c: Considering,
    answer: Answer,
    record: NoticesView,
    after: Considering,
    record_after: NoticesView,
    step: WishStep,
)
    requires
        considered(watcher, wish, entries, now, c, answer, record, after, record_after, step),
    ensures
        step matches WishStep::Do(Ask::Search(_)) ==> c.stage is Counted && !(after.stage
            is Counted),
        searches_on(record_after, now.utc_day_number()) == searches_on(
            record,
            now.utc_day_number(),
        ) + if after.stage is Counted {
            1int
        } else {
            0
        },
{
}

/// How many steps a wish may still take in its turn.
pub open spec fn steps_left(c: Considering) -> nat {
    match c.stage {
        Stage::Begin => 9,
        Stage::Title => 8,
        Stage::Evidence => 7,
        Stage::History => 6,
        Stage::Counted { .. } => 5,
        Stage::Search { .. } => 4,
        Stage::Reasoned { .. } => 3,
        Stage::Message { .. } => 2,
        Stage::Told => 1,
        Stage::HandOver => 2,
        Stage::Retry => 1,
        Stage::Over => 0,
    }
}

/// A wish has its turn and no more: every step that asks for something leaves
/// fewer to take, so that at most nine are asked for.
pub proof fn law_a_wish_has_its_turn(
    watcher: Watcher,
    wish: Wish,
    entries: Seq<Entry>,
    now: Timestamp,
    c: Considering,
    answer: Answer,
    record: NoticesView,
    after: Considering,
    record_after: NoticesView,
    step: WishStep,
)
    requires
        considered(watcher, wish, entries, now, c, answer, record, after, record_after, step),
    ensures
        step is Do ==> steps_left(after) < steps_left(c),
        step is Over ==> after.stage is Over,
{
}

} // verus!
