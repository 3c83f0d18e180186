//! One round over every open wish.
//!
//! [`Round`] asks for one piece of work at a time and is handed what came of
//! it, like the wishes it takes in turn. At most one search at the indexers
//! is made in a round: for the first wish that needs one, or, if none does,
//! for the recorded reason that was looked at longest ago.

use crate::arr::{ArrSeries, QueueItem, Release, release_views};
use crate::insight::{facts_of, reason_from, reason_of, series_facts};
use crate::model::{MediaKind, ReasonView, Wish, opt_reason};
use crate::moment::Timestamp;
use crate::notices::{Note, Notices, NoticesView, budget_left, retained, searches_on};
use crate::state::{Entry, State};
use crate::watch::consider::{
    Answer, Ask, Considering, Stage, WishOutcome, WishStep, cleared, considered, counted,
    has_searched, law_a_day_keeps_its_budget, law_a_message_is_due, law_a_search_is_counted_first,
    law_a_wish_has_its_turn, law_one_search_per_wish, may_be_told, paid, steps_left, wanted_by,
    wanted_languages, with_note, within_budget,
};
use crate::watch::{RoundReport, SearchTarget, Watcher, one_class, same_class};
use vstd::prelude::*;

verus! {

/// What a round is waiting for.
#[derive(Clone, Copy, Debug, PartialEq, Eq, Structural)]
pub enum RoundStage {
    Begin,
    /// The open wishes.
    Wishes,
    MovieQueue,
    TvQueue,
    /// The next wish's turn.
    Next,
    /// Whatever the wish in turn has asked for.
    Wish,
    /// The series whose reason is looked at again.
    RefreshSeries { at: usize },
    /// The record, with that search counted.
    RefreshCounted { at: usize, target: SearchTarget },
    /// That search.
    RefreshSearch { at: usize },
    /// The record, with what that search found.
    RefreshSaved { at: usize, changed: bool },
    /// Whatever the wish with the changed reason has asked for.
    RefreshTell { at: usize },
    /// The record, at the end of the round.
    Last,
    Finished,
}

/// What comes next in a round.
#[derive(Clone, Debug, PartialEq)]
pub enum RoundStep {
    Do(Ask),
    /// Nothing is to be done; the round goes on.
    Proceed,
    Finished(RoundReport),
}

/// A round on its way.
#[derive(Debug)]
pub struct Round {
    pub stage: RoundStage,
    pub wishes: Vec<Wish>,
    pub movie_queue: Vec<QueueItem>,
    pub tv_queue: Vec<QueueItem>,
    /// The wish in turn.
    pub at: usize,
    pub current: Considering,
    /// Whether the round's search has been made.
    pub searched: bool,
    pub report: RoundReport,
}

/// The first entry of a queue that belongs to a title.
pub open spec fn item_of(queue: Seq<QueueItem>, arr_id: Option<i64>) -> Option<QueueItem>
    decreases queue.len(),
{
    if queue.len() == 0 {
        None
    } else if Some(queue[0].arr_id) == arr_id {
        Some(queue[0])
    } else {
        item_of(queue.skip(1), arr_id)
    }
}

/// The queue entry of a wish: a film's in Radarr's queue, a series' in
/// Sonarr's.
pub open spec fn item_for(r: Round, wish: Wish) -> Option<QueueItem> {
    match wish.kind {
        MediaKind::Movie => item_of(r.movie_queue@, wish.arr_id),
        MediaKind::Tv => item_of(r.tv_queue@, wish.arr_id),
    }
}

/// Whether a series is among the wishes.
pub open spec fn wants_tv(wishes: Seq<Wish>) -> bool {
    exists|i: int| 0 <= i < wishes.len() && (#[trigger] wishes[i]).kind == MediaKind::Tv
}

/// The ids of the wishes.
pub open spec fn ids_of(wishes: Seq<Wish>) -> Seq<i64> {
    wishes.map_values(|w: Wish| w.id)
}

/// One more, if there was one, as far as the counter goes.
pub open spec fn plus(n: usize, one: bool) -> usize {
    if one && n < usize::MAX {
        (n + 1) as usize
    } else {
        n
    }
}

/// The report with one wish's outcome added.
pub open spec fn tallied(report: RoundReport, outcome: WishOutcome) -> RoundReport {
    RoundReport {
        searches: plus(report.searches, outcome.searched),
        notices_sent: plus(report.notices_sent, outcome.sent),
        retries: plus(report.retries, outcome.retried),
        ..report
    }
}

/// The report with a second search for a reason added.
pub open spec fn refreshed(report: RoundReport) -> RoundReport {
    RoundReport {
        searches: plus(report.searches, true),
        refreshes: plus(report.refreshes, true),
        ..report
    }
}

/// Whether the recorded reason of a wish is due for a second look.
pub open spec fn refresh_is_due(
    watcher: Watcher,
    record: NoticesView,
    wish: Wish,
    now: Timestamp,
) -> bool {
    &&& watcher.search
    &&& wish.arr_id is Some
    &&& record.notes.contains_key(wish.id)
    &&& record.notes[wish.id].reason is Some
    &&& record.notes[wish.id].searched_at is Some
    &&& watcher.settings.refresh_reason_after matches Some(interval) && now.instant()
        - record.notes[wish.id].searched_at->0.instant() >= interval.nanos
}

/// Whether the wish at `at` is the one whose reason is looked at again: the
/// one searched for longest ago among those due, and the first of several.
pub open spec fn longest_due(
    watcher: Watcher,
    record: NoticesView,
    wishes: Seq<Wish>,
    now: Timestamp,
    at: int,
) -> bool {
    &&& 0 <= at < wishes.len()
    &&& refresh_is_due(watcher, record, wishes[at], now)
    &&& forall|j: int|
        0 <= j < wishes.len() && refresh_is_due(watcher, record, #[trigger] wishes[j], now)
            ==> searched_at(record, wishes[at]) <= searched_at(record, wishes[j])
    &&& forall|j: int|
        0 <= j < at && refresh_is_due(watcher, record, #[trigger] wishes[j], now) ==> searched_at(
            record,
            wishes[at],
        ) < searched_at(record, wishes[j])
}

/// When a wish's reason was searched for.
pub open spec fn searched_at(record: NoticesView, wish: Wish) -> int {
    record.notes[wish.id].searched_at->0.instant()
}

/// The first entry of a queue that belongs to a title.
pub fn find_item(queue: &Vec<QueueItem>, arr_id: Option<i64>) -> (r: Option<QueueItem>)
    ensures
        r == item_of(queue@, arr_id),
{
    let id: i64 = match arr_id {
        Some(id) => id,
        None => {
            proof {
                lemma_no_item(queue@);
            }
            return None;
        },
    };
    let mut i: usize = 0;
    assert(queue@.skip(0) =~= queue@);
    while i < queue.len()
        invariant
            i <= queue@.len(),
            arr_id == Some(id),
            item_of(queue@.skip(i as int), arr_id) == item_of(queue@, arr_id),
        decreases queue@.len() - i,
    {
        assert(queue@.skip(i as int).skip(1) =~= queue@.skip(i + 1));
        if queue[i].arr_id == id {
            return Some(queue[i]);
        }
        i += 1;
    }
    None
}

proof fn lemma_no_item(queue: Seq<QueueItem>)
    ensures
        item_of(queue, None) is None,
    decreases queue.len(),
{
    if queue.len() > 0 {
        lemma_no_item(queue.skip(1));
    }
}

fn has_series(wishes: &Vec<Wish>) -> (r: bool)
    ensures
        r == wants_tv(wishes@),
{
    let mut i: usize = 0;
    while i < wishes.len()
        invariant
            i <= wishes@.len(),
            forall|j: int| 0 <= j < i ==> (#[trigger] wishes@[j]).kind != MediaKind::Tv,
        decreases wishes@.len() - i,
    {
        if wishes[i].kind == MediaKind::Tv {
            return true;
        }
        i += 1;
    }
    false
}

fn live_ids(wishes: &Vec<Wish>) -> (ids: Vec<i64>)
    ensures
        ids@ == ids_of(wishes@),
{
    let mut ids: Vec<i64> = Vec::new();
    let mut i: usize = 0;
    while i < wishes.len()
        invariant
            i <= wishes@.len(),
            ids@ == ids_of(wishes@).take(i as int),
        decreases wishes@.len() - i,
    {
        ids.push(wishes[i].id);
        assert(ids_of(wishes@).take(i + 1) =~= ids_of(wishes@).take(i as int).push(
            ids_of(wishes@)[i as int],
        ));
        i += 1;
    }
    assert(ids_of(wishes@).take(i as int) =~= ids_of(wishes@));
    ids
}

fn one_more(n: usize, one: bool) -> (r: usize)
    ensures
        r == plus(n, one),
{
    if one && n < usize::MAX {
        n + 1
    } else {
        n
    }
}

impl Watcher {
    /// When the reason of a wish was searched for, if it is due for a second
    /// look.
    fn refresh_due(&self, wish: &Wish, notices: &Notices, now: Timestamp) -> (r: Option<Timestamp>)
        ensures
            match r {
                Some(at) => refresh_is_due(*self, notices@, *wish, now)
                    && notices@.notes[wish.id].searched_at == Some(at),
                None => !refresh_is_due(*self, notices@, *wish, now),
            },
    {
        let interval = match self.settings.refresh_reason_after {
            Some(interval) => interval,
            None => {
                return None;
            },
        };
        if !self.search || wish.arr_id.is_none() {
            return None;
        }
        match notices.note(wish.id) {
            Some(note) => {
                if note.reason.is_none() {
                    return None;
                }
                match note.searched_at {
                    Some(at) => if now.since(&at).nanos >= interval.nanos {
                        Some(at)
                    } else {
                        None
                    },
                    None => None,
                }
            },
            None => None,
        }
    }

    /// The one wish whose recorded reason is due for a second look: the one
    /// searched for longest ago. None when the refresh is off, nothing is
    /// due, or there is no search to do it with.
    pub fn refresh_candidate(
        &self,
        wishes: &Vec<Wish>,
        notices: &Notices,
        now: Timestamp,
    ) -> (r: Option<usize>)
        ensures
            match r {
                Some(at) => longest_due(*self, notices@, wishes@, now, at as int),
                None => forall|j: int|
                    0 <= j < wishes@.len() ==> !refresh_is_due(
                        *self,
                        notices@,
                        #[trigger] wishes@[j],
                        now,
                    ),
            },
    {
        let mut best: Option<(usize, Timestamp)> = None;
        let mut i: usize = 0;
        while i < wishes.len()
            invariant
                i <= wishes@.len(),
                match best {
                    Some((at, t)) => {
                        &&& at < i
                        &&& longest_due(*self, notices@, wishes@.take(i as int), now, at as int)
                        &&& notices@.notes[wishes@[at as int].id].searched_at == Some(t)
                    },
                    None => forall|j: int|
                        0 <= j < i ==> !refresh_is_due(
                            *self,
                            notices@,
                            #[trigger] wishes@[j],
                            now,
                        ),
                },
            decreases wishes@.len() - i,
        {
            let ghost done = wishes@.take(i as int);
            let ghost next = wishes@.take(i + 1);
            let due = self.refresh_due(&wishes[i], notices, now);
            let ghost before = best;
            if let Some(at) = due {
                let first = match &best {
                    Some(found) => at.before(&found.1),
                    None => true,
                };
                if first {
                    best = Some((i, at));
                }
            }
            proof {
                assert forall|j: int| 0 <= j < i implies next[j] == #[trigger] done[j] by {}
                assert(next[i as int] == wishes@[i as int]);
                assert forall|j: int| 0 <= j < next.len() implies #[trigger] next[j]
                    == wishes@[j] by {}
                match best {
                    Some((at, t)) => {
                        assert(next[at as int] == wishes@[at as int]);
                        if before is Some {
                            let found = before->Some_0;
                            let old_at = found.0 as int;
                            assert(done[old_at] == wishes@[old_at]);
                            assert forall|j: int|
                                0 <= j < next.len() && refresh_is_due(
                                    *self,
                                    notices@,
                                    #[trigger] next[j],
                                    now,
                                ) implies searched_at(notices@, next[at as int]) <= searched_at(
                                notices@,
                                next[j],
                            ) by {
                                if j < i {
                                    assert(done[j] == next[j]);
                                }
                            }
                            assert forall|j: int|
                                0 <= j < at && refresh_is_due(
                                    *self,
                                    notices@,
                                    #[trigger] next[j],
                                    now,
                                ) implies searched_at(notices@, next[at as int]) < searched_at(
                                notices@,
                                next[j],
                            ) by {
                                assert(done[j] == next[j]);
                            }
                        }
                        assert(longest_due(*self, notices@, next, now, at as int));
                    },
                    None => {},
                }
            }
            i += 1;
        }
        assert(wishes@.take(i as int) =~= wishes@);
        match best {
            Some(found) => Some(found.0),
            None => None,
        }
    }
}

/// Whether the round comes to its end: the notes of wishes that are gone are
/// dropped, and the record is written.
pub open spec fn closing(
    r: Round,
    record: NoticesView,
    after: Round,
    record_after: NoticesView,
    step: RoundStep,
) -> bool {
    &&& record_after == NoticesView {
        notes: retained(record.notes, ids_of(r.wishes@)),
        search_day: record.search_day,
        searches_today: record.searches_today,
    }
    &&& after == Round { stage: RoundStage::Last, ..r }
    &&& step == RoundStep::Do(Ask::Save)
}

/// Whether a reason is searched for again: counted first, and only within the
/// day's budget.
pub open spec fn hunting(
    watcher: Watcher,
    now: Timestamp,
    r: Round,
    at: usize,
    target: SearchTarget,
    record: NoticesView,
    after: Round,
    record_after: NoticesView,
    step: RoundStep,
) -> bool {
    if budget_left(record, now.utc_day_number(), watcher.settings.max_searches_per_day) {
        &&& record_after == counted(record, now)
        &&& after == Round { stage: RoundStage::RefreshCounted { at, target }, ..r }
        &&& step == RoundStep::Do(Ask::Save)
    } else {
        closing(r, record, after, record_after, step)
    }
}

/// Whether the wish in turn takes a step, which ends its turn or asks for
/// work.
pub open spec fn turned(
    watcher: Watcher,
    entries: Seq<Entry>,
    now: Timestamp,
    r: Round,
    c: Considering,
    answer: Answer,
    record: NoticesView,
    after: Round,
    record_after: NoticesView,
    step: RoundStep,
) -> bool {
    exists|taken: WishStep| #[trigger]
        considered(
            watcher,
            r.wishes@[r.at as int],
            entries,
            now,
            c,
            answer,
            record,
            after.current,
            record_after,
            taken,
        ) && match taken {
            WishStep::Do(ask) => {
                &&& after == Round { stage: RoundStage::Wish, current: after.current, ..r }
                &&& step == RoundStep::Do(ask)
            },
            WishStep::Over(outcome) => {
                &&& after == Round {
                    stage: RoundStage::Next,
                    at: (r.at + 1) as usize,
                    current: after.current,
                    searched: r.searched || outcome.searched,
                    report: tallied(r.report, outcome),
                    ..r
                }
                &&& step == RoundStep::Proceed
            },
        }
}

/// Whether the wish with the changed reason takes a step, which ends the
/// round or asks for work.
pub open spec fn retold(
    watcher: Watcher,
    entries: Seq<Entry>,
    now: Timestamp,
    r: Round,
    at: usize,
    c: Considering,
    answer: Answer,
    record: NoticesView,
    after: Round,
    record_after: NoticesView,
    step: RoundStep,
) -> bool {
    exists|taken: WishStep, between: NoticesView| #[trigger]
        considered(
            watcher,
            r.wishes@[at as int],
            entries,
            now,
            c,
            answer,
            record,
            after.current,
            between,
            taken,
        ) && match taken {
            WishStep::Do(ask) => {
                &&& record_after == between
                &&& after == Round {
                    stage: RoundStage::RefreshTell { at },
                    current: after.current,
                    ..r
                }
                &&& step == RoundStep::Do(ask)
            },
            WishStep::Over(outcome) => closing(
                Round {
                    current: after.current,
                    report: RoundReport {
                        notices_sent: plus(r.report.notices_sent, outcome.sent),
                        ..r.report
                    },
                    ..r
                },
                between,
                after,
                record_after,
                step,
            ),
        }
}

/// Whether the round goes on: with the next wish, with a second look at the
/// reason that is due for it if no wish has searched, or to its end.
/// Somebody who has never heard anything goes before somebody who already
/// knows the reason.
pub open spec fn went_on(
    watcher: Watcher,
    entries: Seq<Entry>,
    now: Timestamp,
    r: Round,
    record: NoticesView,
    after: Round,
    record_after: NoticesView,
    step: RoundStep,
) -> bool {
    if r.at < r.wishes@.len() {
        turned(
            watcher,
            entries,
            now,
            r,
            beginning(item_for(r, r.wishes@[r.at as int]), !r.searched),
            Answer::Begun,
            record,
            after,
            record_after,
            step,
        )
    } else if !r.searched && exists|at: usize|
        longest_due(watcher, record, r.wishes@, now, at as int) {
        exists|at: usize| #[trigger]
            longest_due(watcher, record, r.wishes@, now, at as int) && {
                let wish = r.wishes@[at as int];
                match wish.kind {
                    MediaKind::Movie => hunting(
                        watcher,
                        now,
                        r,
                        at,
                        SearchTarget::Movie(wish.arr_id->0),
                        record,
                        after,
                        record_after,
                        step,
                    ),
                    MediaKind::Tv => {
                        &&& record_after == record
                        &&& after == Round { stage: RoundStage::RefreshSeries { at }, ..r }
                        &&& step == RoundStep::Do(Ask::Series(wish.arr_id->0))
                    },
                }
            }
    } else {
        closing(r, record, after, record_after, step)
    }
}

/// A wish at the beginning of its turn.
pub open spec fn beginning(queue_item: Option<QueueItem>, may_search: bool) -> Considering {
    Considering {
        stage: Stage::Begin,
        may_search,
        queue_item,
        movie: None,
        facts: None,
        last_event: None,
        outcome: WishOutcome { searched: false, sent: false, retried: false },
    }
}

/// Whether `after` is the note after a second search: of another class, the
/// reason is replaced, and may be told once like any first one; of the same
/// class, only the time of the search is new.
pub open spec fn looked_again(
    note: Note,
    reason: ReasonView,
    now: Timestamp,
    after: Note,
) -> bool {
    if one_class(note.reason->0@, reason) {
        after == Note { searched_at: Some(now), ..note }
    } else {
        &&& after == Note {
            reason: after.reason,
            told: after.told,
            searched_at: Some(now),
            ..note
        }
        &&& opt_reason(after.reason) == Some(reason)
        &&& after.told@ == note.told@.remove("unsuitable"@)
    }
}

/// Whether a series has a season to search: the one of its oldest missing
/// episode. With nothing missing there is nothing to look for.
pub open spec fn aimed(
    watcher: Watcher,
    now: Timestamp,
    r: Round,
    at: usize,
    series: ArrSeries,
    record: NoticesView,
    after: Round,
    record_after: NoticesView,
    step: RoundStep,
) -> bool {
    let wish = r.wishes@[at as int];
    exists|facts: crate::insight::SeriesFacts| #[trigger]
        facts_of(
            series.episodes@,
            series.monitored_seasons@,
            wish.seasons@,
            now.instant(),
            facts,
        ) && match facts.missing_oldest {
            Some(missing) => hunting(
                watcher,
                now,
                r,
                at,
                SearchTarget::Season(wish.arr_id->0, missing.1),
                record,
                after,
                record_after,
                step,
            ),
            None => closing(r, record, after, record_after, step),
        }
}

/// One step of a round.
pub open spec fn round_stepped(
    watcher: Watcher,
    entries: Seq<Entry>,
    now: Timestamp,
    r: Round,
    answer: Answer,
    record: NoticesView,
    after: Round,
    record_after: NoticesView,
    step: RoundStep,
) -> bool {
    match r.stage {
        RoundStage::Begin => {
            &&& record_after == record
            &&& after == Round { stage: RoundStage::Wishes, ..r }
            &&& step == RoundStep::Do(Ask::OpenWishes)
        },
        // An outage must not look like everybody withdrawing at once: the
        // record stays as it is.
        RoundStage::Wishes => match answer {
            Answer::Wishes(Some(wishes)) => {
                &&& record_after == record
                &&& after == Round {
                    stage: RoundStage::MovieQueue,
                    wishes,
                    report: RoundReport { wishes: wishes@.len() as usize, ..r.report },
                    ..r
                }
                &&& step == RoundStep::Do(Ask::Queue(MediaKind::Movie))
            },
            _ => {
                &&& record_after == record
                &&& after == Round { stage: RoundStage::Finished, ..r }
                &&& step == RoundStep::Finished(r.report)
            },
        },
        // A queue that could not be read counts as empty for this round.
        // Sonarr is only asked when there is a series to ask about.
        RoundStage::MovieQueue => {
            &&& record_after == record
            &&& match answer {
                Answer::Queue(Some(items)) => after.movie_queue == items,
                _ => after.movie_queue@.len() == 0,
            }
            &&& if wants_tv(r.wishes@) {
                &&& after == Round {
                    stage: RoundStage::TvQueue,
                    movie_queue: after.movie_queue,
                    ..r
                }
                &&& step == RoundStep::Do(Ask::Queue(MediaKind::Tv))
            } else {
                &&& after == Round { stage: RoundStage::Next, movie_queue: after.movie_queue, ..r }
                &&& step == RoundStep::Proceed
            }
        },
        RoundStage::TvQueue => {
            &&& record_after == record
            &&& match answer {
                Answer::Queue(Some(items)) => after.tv_queue == items,
                _ => after.tv_queue@.len() == 0,
            }
            &&& after == Round { stage: RoundStage::Next, tv_queue: after.tv_queue, ..r }
            &&& step == RoundStep::Proceed
        },
        RoundStage::Next => went_on(
            watcher,
            entries,
            now,
            r,
            record,
            after,
            record_after,
            step,
        ),
        RoundStage::Wish => if r.at < r.wishes@.len() {
            turned(
                watcher,
                entries,
                now,
                r,
                r.current,
                answer,
                record,
                after,
                record_after,
                step,
            )
        } else {
            closing(r, record, after, record_after, step)
        },
        RoundStage::RefreshSeries { at } => match answer {
            Answer::Series(Some(series)) => if at < r.wishes@.len()
                && r.wishes@[at as int].arr_id is Some {
                aimed(watcher, now, r, at, series, record, after, record_after, step)
            } else {
                closing(r, record, after, record_after, step)
            },
            _ => closing(r, record, after, record_after, step),
        },
        RoundStage::RefreshCounted { at, target } => {
            &&& record_after == record
            &&& after == Round { stage: RoundStage::RefreshSearch { at }, ..r }
            &&& step == RoundStep::Do(Ask::Search(target))
        },
        RoundStage::RefreshSearch { at } => {
            let searched = Round { searched: true, report: refreshed(r.report), ..r };
            let wish = r.wishes@[at as int];
            if at < r.wishes@.len() && record.notes.contains_key(wish.id)
                && record.notes[wish.id].reason is Some
                && (answer matches Answer::Releases(found) && found is Some) {
                let releases = answer->Releases_0->0;
                let note = record.notes[wish.id];
                let reason = reason_of(
                    release_views(releases@),
                    wanted_by(watcher.settings, wish),
                );
                &&& record_after == with_note(record, wish.id, record_after.notes[wish.id])
                &&& looked_again(note, reason, now, record_after.notes[wish.id])
                &&& after == Round {
                    stage: RoundStage::RefreshSaved {
                        at,
                        changed: !one_class(note.reason->0@, reason),
                    },
                    ..searched
                }
                &&& step == RoundStep::Do(Ask::Save)
            } else {
                closing(searched, record, after, record_after, step)
            }
        },
        // The new reason is told by the ordinary rules, and without a search:
        // it is on the note by now.
        RoundStage::RefreshSaved { at, changed } => if changed && answer == Answer::Saved(true)
            && at < r.wishes@.len() {
            retold(
                watcher,
                entries,
                now,
                r,
                at,
                beginning(item_for(r, r.wishes@[at as int]), false),
                Answer::Begun,
                record,
                after,
                record_after,
                step,
            )
        } else {
            closing(r, record, after, record_after, step)
        },
        RoundStage::RefreshTell { at } => if at < r.wishes@.len() {
            retold(
                watcher,
                entries,
                now,
                r,
                at,
                r.current,
                answer,
                record,
                after,
                record_after,
                step,
            )
        } else {
            closing(r, record, after, record_after, step)
        },
        RoundStage::Last => {
            &&& record_after == record
            &&& after == Round { stage: RoundStage::Finished, ..r }
            &&& step == RoundStep::Finished(r.report)
        },
        RoundStage::Finished => {
            &&& record_after == record
            &&& after == r
            &&& step == RoundStep::Finished(r.report)
        },
    }
}

impl Round {
    /// A round at its beginning.
    pub fn new() -> (r: Round)
        ensures
            sound(r),
            r.stage == RoundStage::Begin,
            r.wishes@.len() == 0,
            r.movie_queue@.len() == 0,
            r.tv_queue@.len() == 0,
            r.at == 0,
            r.current == beginning(None, false),
            !r.searched,
            r.report == (RoundReport {
                wishes: 0,
                notices_sent: 0,
                searches: 0,
                retries: 0,
                refreshes: 0,
            }),
    {
        Round {
            stage: RoundStage::Begin,
            wishes: Vec::new(),
            movie_queue: Vec::new(),
            tv_queue: Vec::new(),
            at: 0,
            current: Considering::new(None, false),
            searched: false,
            report: RoundReport::default(),
        }
    }

    fn close(&mut self, notices: &mut Notices) -> (step: RoundStep)
        ensures
            closing(*old(self), old(notices)@, *final(self), final(notices)@, step),
    {
        let ids = live_ids(&self.wishes);
        notices.retain_only(ids.as_slice());
        self.stage = RoundStage::Last;
        RoundStep::Do(Ask::Save)
    }

    fn hunt(
        &mut self,
        watcher: &Watcher,
        notices: &mut Notices,
        now: Timestamp,
        at: usize,
        target: SearchTarget,
    ) -> (step: RoundStep)
        ensures
            hunting(
                *watcher,
                now,
                *old(self),
                at,
                target,
                old(notices)@,
                *final(self),
                final(notices)@,
                step,
            ),
    {
        if !notices.may_search(now, watcher.settings.max_searches_per_day) {
            return self.close(notices);
        }
        notices.count_search(now);
        self.stage = RoundStage::RefreshCounted { at, target };
        RoundStep::Do(Ask::Save)
    }

    fn queue_item(&self, wish: &Wish) -> (r: Option<QueueItem>)
        ensures
            r == item_for(*self, *wish),
    {
        match wish.kind {
            MediaKind::Movie => find_item(&self.movie_queue, wish.arr_id),
            MediaKind::Tv => find_item(&self.tv_queue, wish.arr_id),
        }
    }

    fn turn(
        &mut self,
        watcher: &Watcher,
        notices: &mut Notices,
        directory: &State,
        now: Timestamp,
        answer: Answer,
    ) -> (step: RoundStep)
        requires
            old(self).at < old(self).wishes@.len(),
        ensures
            turned(
                *watcher,
                directory@,
                now,
                *old(self),
                old(self).current,
                answer,
                old(notices)@,
                *final(self),
                final(notices)@,
                step,
            ),
    {
        let taken = self.current.step(
            watcher,
            &self.wishes[self.at],
            notices,
            directory,
            now,
            answer,
        );
        let ghost which = taken;
        let step = match taken {
            WishStep::Do(ask) => {
                self.stage = RoundStage::Wish;
                RoundStep::Do(ask)
            },
            WishStep::Over(outcome) => {
                self.stage = RoundStage::Next;
                assert(self.at < self.wishes.len());
                self.at = self.at + 1;
                self.searched = self.searched || outcome.searched;
                self.report.searches = one_more(self.report.searches, outcome.searched);
                self.report.notices_sent = one_more(self.report.notices_sent, outcome.sent);
                self.report.retries = one_more(self.report.retries, outcome.retried);
                RoundStep::Proceed
            },
        };
        assert(considered(
            *watcher,
            old(self).wishes@[old(self).at as int],
            directory@,
            now,
            old(self).current,
            answer,
            old(notices)@,
            self.current,
            notices@,
            which,
        ));
        step
    }

    fn retell(
        &mut self,
        watcher: &Watcher,
        notices: &mut Notices,
        directory: &State,
        now: Timestamp,
        at: usize,
        answer: Answer,
    ) -> (step: RoundStep)
        requires
            at < old(self).wishes@.len(),
        ensures
            retold(
                *watcher,
                directory@,
                now,
                *old(self),
                at,
                old(self).current,
                answer,
                old(notices)@,
                *final(self),
                final(notices)@,
                step,
            ),
    {
        let taken = self.current.step(watcher, &self.wishes[at], notices, directory, now, answer);
        let ghost which = taken;
        let ghost between = notices@;
        let ghost c = self.current;
        let step = match taken {
            WishStep::Do(ask) => {
                self.stage = RoundStage::RefreshTell { at };
                RoundStep::Do(ask)
            },
            WishStep::Over(outcome) => {
                self.report.notices_sent = one_more(self.report.notices_sent, outcome.sent);
                self.close(notices)
            },
        };
        assert(considered(
            *watcher,
            old(self).wishes@[at as int],
            directory@,
            now,
            old(self).current,
            answer,
            old(notices)@,
            c,
            between,
            which,
        ));
        step
    }
}

impl Round {
    fn go_on(
        &mut self,
        watcher: &Watcher,
        notices: &mut Notices,
        directory: &State,
        now: Timestamp,
    ) -> (step: RoundStep)
        ensures
            went_on(
                *watcher,
                directory@,
                now,
                *old(self),
                old(notices)@,
                *final(self),
                final(notices)@,
                step,
            ),
    {
        if self.at < self.wishes.len() {
            let item = self.queue_item(&self.wishes[self.at]);
            self.current = Considering::new(item, !self.searched);
            return self.turn(watcher, notices, directory, now, Answer::Begun);
        }
        if self.searched {
            return self.close(notices);
        }
        let at = match watcher.refresh_candidate(&self.wishes, notices, now) {
            Some(at) => at,
            None => {
                return self.close(notices);
            },
        };
        let arr_id = match self.wishes[at].arr_id {
            Some(arr_id) => arr_id,
            None => {
                return self.close(notices);
            },
        };
        match self.wishes[at].kind {
            MediaKind::Movie => self.hunt(watcher, notices, now, at, SearchTarget::Movie(arr_id)),
            MediaKind::Tv => {
                self.stage = RoundStage::RefreshSeries { at };
                RoundStep::Do(Ask::Series(arr_id))
            },
        }
    }

    fn aim(
        &mut self,
        watcher: &Watcher,
        notices: &mut Notices,
        now: Timestamp,
        at: usize,
        series: &ArrSeries,
    ) -> (step: RoundStep)
        requires
            at < old(self).wishes@.len(),
            old(self).wishes@[at as int].arr_id is Some,
        ensures
            aimed(
                *watcher,
                now,
                *old(self),
                at,
                *series,
                old(notices)@,
                *final(self),
                final(notices)@,
                step,
            ),
    {
        let facts = series_facts(series, &self.wishes[at].seasons, now);
        let arr_id = match self.wishes[at].arr_id {
            Some(arr_id) => arr_id,
            None => {
                return self.close(notices);
            },
        };
        match facts.missing_oldest {
            Some(missing) => self.hunt(
                watcher,
                notices,
                now,
                at,
                SearchTarget::Season(arr_id, missing.1),
            ),
            None => self.close(notices),
        }
    }

    fn search_came_back(
        &mut self,
        watcher: &Watcher,
        notices: &mut Notices,
        now: Timestamp,
        at: usize,
        releases: Option<&Vec<Release>>,
    ) -> (step: RoundStep)
        ensures
            ({
                let r = *old(self);
                let record = old(notices)@;
                let wish = r.wishes@[at as int];
                let searched = Round { searched: true, report: refreshed(r.report), ..r };
                if at < r.wishes@.len() && record.notes.contains_key(wish.id)
                    && record.notes[wish.id].reason is Some && releases is Some {
                    let note = record.notes[wish.id];
                    let reason = reason_of(
                        release_views(releases->0@),
                        wanted_by(watcher.settings, wish),
                    );
                    let record_after = final(notices)@;
                    &&& record_after == with_note(record, wish.id, record_after.notes[wish.id])
                    &&& looked_again(note, reason, now, record_after.notes[wish.id])
                    &&& *final(self) == Round {
                        stage: RoundStage::RefreshSaved {
                            at,
                            changed: !one_class(note.reason->0@, reason),
                        },
                        ..searched
                    }
                    &&& step == RoundStep::Do(Ask::Save)
                } else {
                    closing(searched, record, *final(self), final(notices)@, step)
                }
            }),
    {
        // Attempted, so it counts, whether or not it came back with an answer.
        self.searched = true;
        self.report.searches = one_more(self.report.searches, true);
        self.report.refreshes = one_more(self.report.refreshes, true);
        let found = match releases {
            Some(found) => found,
            None => {
                return self.close(notices);
            },
        };
        if at >= self.wishes.len() {
            return self.close(notices);
        }
        let wish = &self.wishes[at];
        let new = reason_from(found.as_slice(), wanted_languages(&watcher.settings, wish));
        let known = match notices.note(wish.id) {
            Some(note) => match &note.reason {
                Some(old_reason) => Some(same_class(old_reason, &new)),
                None => None,
            },
            None => None,
        };
        let changed = match known {
            Some(same) => !same,
            None => {
                return self.close(notices);
            },
        };
        let note = notices.note_mut(wish.id, now);
        note.searched_at = Some(now);
        if changed {
            note.reason = Some(new);
            note.told.remove(&"unsuitable".to_owned());
        }
        self.stage = RoundStage::RefreshSaved { at, changed };
        RoundStep::Do(Ask::Save)
    }

    /// One step: takes what came of the last piece of work, and says what is
    /// to be done next.
    pub fn step(
        &mut self,
        watcher: &Watcher,
        notices: &mut Notices,
        directory: &State,
        now: Timestamp,
        answer: Answer,
    ) -> (step: RoundStep)
        ensures
            round_stepped(
                *watcher,
                directory@,
                now,
                *old(self),
                answer,
                old(notices)@,
                *final(self),
                final(notices)@,
                step,
            ),
    {
        match self.stage {
            RoundStage::Begin => {
                self.stage = RoundStage::Wishes;
                RoundStep::Do(Ask::OpenWishes)
            },
            RoundStage::Wishes => match answer {
                Answer::Wishes(Some(wishes)) => {
                    self.report.wishes = wishes.len();
                    self.wishes = wishes;
                    self.stage = RoundStage::MovieQueue;
                    RoundStep::Do(Ask::Queue(MediaKind::Movie))
                },
                _ => {
                    self.stage = RoundStage::Finished;
                    RoundStep::Finished(self.report)
                },
            },
            RoundStage::MovieQueue => {
                self.movie_queue = match answer {
                    Answer::Queue(Some(items)) => items,
                    _ => Vec::new(),
                };
                if has_series(&self.wishes) {
                    self.stage = RoundStage::TvQueue;
                    RoundStep::Do(Ask::Queue(MediaKind::Tv))
                } else {
                    self.stage = RoundStage::Next;
                    RoundStep::Proceed
                }
            },
            RoundStage::TvQueue => {
                self.tv_queue = match answer {
                    Answer::Queue(Some(items)) => items,
                    _ => Vec::new(),
                };
                self.stage = RoundStage::Next;
                RoundStep::Proceed
            },
            RoundStage::Next => self.go_on(watcher, notices, directory, now),
            RoundStage::Wish => if self.at < self.wishes.len() {
                self.turn(watcher, notices, directory, now, answer)
            } else {
                self.close(notices)
            },
            RoundStage::RefreshSeries { at } => match answer {
                Answer::Series(Some(series)) => if at < self.wishes.len()
                    && self.wishes[at].arr_id.is_some() {
                    self.aim(watcher, notices, now, at, &series)
                } else {
                    self.close(notices)
                },
                _ => self.close(notices),
            },
            RoundStage::RefreshCounted { at, target } => {
                self.stage = RoundStage::RefreshSearch { at };
                RoundStep::Do(Ask::Search(target))
            },
            RoundStage::RefreshSearch { at } => match &answer {
                Answer::Releases(Some(releases)) => self.search_came_back(
                    watcher,
                    notices,
                    now,
                    at,
                    Some(releases),
                ),
                _ => self.search_came_back(watcher, notices, now, at, None),
            },
            RoundStage::RefreshSaved { at, changed } => {
                let saved = matches!(answer, Answer::Saved(true));
                if changed && saved && at < self.wishes.len() {
                    let item = self.queue_item(&self.wishes[at]);
                    self.current = Considering::new(item, false);
                    self.retell(watcher, notices, directory, now, at, Answer::Begun)
                } else {
                    self.close(notices)
                }
            },
            RoundStage::RefreshTell { at } => if at < self.wishes.len() {
                self.retell(watcher, notices, directory, now, at, answer)
            } else {
                self.close(notices)
            },
            RoundStage::Last => {
                self.stage = RoundStage::Finished;
                RoundStep::Finished(self.report)
            },
            RoundStage::Finished => RoundStep::Finished(self.report),
        }
    }
}

/// The wish in turn, where one is: how far it is, what it hears, and which it
/// is.
spec fn turn_of(r: Round, answer: Answer) -> (Considering, Answer, int) {
    match r.stage {
        RoundStage::Next => (
            beginning(item_for(r, r.wishes@[r.at as int]), !r.searched),
            Answer::Begun,
            r.at as int,
        ),
        RoundStage::RefreshSaved { at, .. } => (
            beginning(item_for(r, r.wishes@[at as int]), false),
            Answer::Begun,
            at as int,
        ),
        RoundStage::RefreshTell { at } => (r.current, answer, at as int),
        _ => (r.current, answer, r.at as int),
    }
}

/// Whether a round has kept count of its search.
pub open spec fn sound(r: Round) -> bool {
    &&& r.report.searches == if r.searched {
        1int
    } else {
        0
    }
    &&& r.stage is Wish ==> r.at < r.wishes@.len() && paid(r.current) && r.current.may_search
        == !r.searched
    &&& r.stage is RefreshTell ==> paid(r.current) && !r.current.may_search
    &&& (r.stage is RefreshSeries || r.stage is RefreshCounted || r.stage is RefreshSearch)
        ==> !r.searched
}

/// Whether a round has asked for its search.
pub open spec fn spent(r: Round) -> bool {
    r.searched || r.stage is RefreshSearch || (r.stage is Wish && has_searched(r.current))
}

/// At most one search is asked for in a round, and the report counts it: a
/// round asks for a search only if it has not asked for one before, and never
/// forgets that it has.
pub proof fn law_one_search_per_round(
    watcher: Watcher,
    entries: Seq<Entry>,
    now: Timestamp,
    r: Round,
    answer: Answer,
    record: NoticesView,
    after: Round,
    record_after: NoticesView,
    step: RoundStep,
)
    requires
        sound(r),
        round_stepped(watcher, entries, now, r, answer, record, after, record_after, step),
    ensures
        sound(after),
        step matches RoundStep::Do(Ask::Search(_)) ==> !spent(r) && spent(after),
        spent(r) ==> spent(after),
        step matches RoundStep::Finished(report) ==> report.searches <= 1,
{
    let (c, a, at) = turn_of(r, answer);
    let wish = r.wishes@[at];
    assert forall|taken: WishStep, between: NoticesView|
        paid(c) && #[trigger] considered(
            watcher,
            wish,
            entries,
            now,
            c,
            a,
            record,
            after.current,
            between,
            taken,
        ) implies paid(after.current) && after.current.may_search == c.may_search && (taken matches
        WishStep::Do(Ask::Search(_)) ==> c.may_search && !has_searched(c) && has_searched(
        after.current,
    )) && (has_searched(c) ==> has_searched(after.current)) && (taken matches WishStep::Over(
        outcome,
    ) ==> outcome.searched == has_searched(after.current)) by {
        law_one_search_per_wish(
            watcher,
            wish,
            entries,
            now,
            c,
            a,
            record,
            after.current,
            between,
            taken,
        );
    }
}

/// An outage is no withdrawal: when the open wishes cannot be had, the record
/// stays as it is, and the round is over.
pub proof fn law_an_outage_is_no_withdrawal(
    watcher: Watcher,
    entries: Seq<Entry>,
    now: Timestamp,
    r: Round,
    record: NoticesView,
    after: Round,
    record_after: NoticesView,
    step: RoundStep,
)
    requires
        r.stage == RoundStage::Wishes,
        round_stepped(
            watcher,
            entries,
            now,
            r,
            Answer::Wishes(None),
            record,
            after,
            record_after,
            step,
        ),
    ensures
        record_after == record,
        step == RoundStep::Finished(r.report),
{
}

/// A wish that is gone loses its note at the end of the round, and every
/// other wish keeps its own.
pub proof fn law_gone_wishes_are_forgotten(
    r: Round,
    record: NoticesView,
    after: Round,
    record_after: NoticesView,
    step: RoundStep,
    id: i64,
)
    requires
        closing(r, record, after, record_after, step),
    ensures
        !ids_of(r.wishes@).contains(id) ==> !record_after.notes.contains_key(id),
        ids_of(r.wishes@).contains(id) && record.notes.contains_key(id)
            ==> record_after.notes.contains_key(id) && record_after.notes[id] == record.notes[id],
{
    if ids_of(r.wishes@).contains(id) && record.notes.contains_key(id) {
        assert(retained(record.notes, ids_of(r.wishes@)).contains_key(id));
    }
}

/// A second search of the same class is no news: what was told stays told.
pub proof fn law_the_same_class_is_no_news(
    note: Note,
    reason: ReasonView,
    now: Timestamp,
    after: Note,
)
    requires
        note.reason is Some,
        looked_again(note, reason, now, after),
    ensures
        one_class(note.reason->0@, reason) ==> after.told == note.told && after.reason
            == note.reason,
        !one_class(note.reason->0@, reason) ==> !after.told@.contains_key("unsuitable"@)
            && opt_reason(after.reason) == Some(reason),
{
}

/// Whether the wish in turn, if it is on its way to a message, is so by
/// right.
pub open spec fn orderly(
    watcher: Watcher,
    entries: Seq<Entry>,
    now: Timestamp,
    r: Round,
    record: NoticesView,
) -> bool {
    match r.stage {
        RoundStage::Wish => r.at < r.wishes@.len() ==> cleared(
            watcher,
            r.wishes@[r.at as int],
            entries,
            now,
            r.current,
            record,
        ),
        RoundStage::RefreshTell { at } => at < r.wishes@.len() ==> cleared(
            watcher,
            r.wishes@[at as int],
            entries,
            now,
            r.current,
            record,
        ),
        _ => true,
    }
}

/// Whether the wish at `at` has a message out, to `to`, that may be sent.
pub open spec fn may_be_sent(
    watcher: Watcher,
    entries: Seq<Entry>,
    now: Timestamp,
    r: Round,
    record: NoticesView,
    at: int,
    to: Seq<char>,
) -> bool {
    &&& 0 <= at < r.wishes@.len()
    &&& r.current.stage matches Stage::Message { class }
    &&& may_be_told(watcher, r.wishes@[at], entries, now, record, class@, to)
}

/// In a whole round, whatever is sent is a message about one of the wishes
/// that the person who made it may be told: old enough, not told before, and a
/// day or more after the last one.
pub proof fn law_every_message_is_due(
    watcher: Watcher,
    entries: Seq<Entry>,
    now: Timestamp,
    r: Round,
    answer: Answer,
    record: NoticesView,
    after: Round,
    record_after: NoticesView,
    step: RoundStep,
)
    requires
        orderly(watcher, entries, now, r, record),
        round_stepped(watcher, entries, now, r, answer, record, after, record_after, step),
    ensures
        orderly(watcher, entries, now, after, record_after),
        step matches RoundStep::Do(Ask::Send { to, text }) ==> exists|at: int| #[trigger]
            may_be_sent(watcher, entries, now, after, record_after, at, to@),
{
    let (c, a, at) = turn_of(r, answer);
    let wish = r.wishes@[at];
    assert forall|taken: WishStep, between: NoticesView|
        cleared(watcher, wish, entries, now, c, record) && #[trigger] considered(
            watcher,
            wish,
            entries,
            now,
            c,
            a,
            record,
            after.current,
            between,
            taken,
        ) implies cleared(watcher, wish, entries, now, after.current, between) && (taken matches
        WishStep::Do(Ask::Send { to, text }) ==> {
            &&& after.current.stage matches Stage::Message { class }
            &&& may_be_told(watcher, wish, entries, now, between, class@, to@)
        }) by {
        law_a_message_is_due(
            watcher,
            wish,
            entries,
            now,
            c,
            a,
            record,
            after.current,
            between,
            taken,
        );
    }
    if let RoundStep::Do(Ask::Send { to, text }) = step {
        assert(may_be_sent(watcher, entries, now, after, record_after, at, to@));
    }
}

/// In a whole round, the searches of the day keep to the limit, and none is
/// made before it is counted.
pub proof fn law_a_round_keeps_the_budget(
    watcher: Watcher,
    entries: Seq<Entry>,
    now: Timestamp,
    r: Round,
    answer: Answer,
    record: NoticesView,
    after: Round,
    record_after: NoticesView,
    step: RoundStep,
)
    requires
        within_budget(watcher, record, now),
        round_stepped(watcher, entries, now, r, answer, record, after, record_after, step),
    ensures
        within_budget(watcher, record_after, now),
        step matches RoundStep::Do(Ask::Search(_)) ==> r.stage is RefreshCounted || (r.stage is Wish
            || r.stage is RefreshTell) && r.current.stage is Counted,
{
    let (c, a, at) = turn_of(r, answer);
    let wish = r.wishes@[at];
    assert forall|taken: WishStep, between: NoticesView| #[trigger]
        considered(
            watcher,
            wish,
            entries,
            now,
            c,
            a,
            record,
            after.current,
            between,
            taken,
        ) implies within_budget(watcher, between, now) && (taken matches WishStep::Do(
        Ask::Search(_),
    ) ==> c.stage is Counted) by {
        law_a_day_keeps_its_budget(
            watcher,
            wish,
            entries,
            now,
            c,
            a,
            record,
            after.current,
            between,
            taken,
        );
    }
}

/// Whether these are the states, the records, the answers and the steps of a
/// round on its way. The directory may change from step to step.
pub open spec fn is_run(
    watcher: Watcher,
    now: Timestamp,
    directories: Seq<Seq<Entry>>,
    rounds: Seq<Round>,
    records: Seq<NoticesView>,
    answers: Seq<Answer>,
    steps: Seq<RoundStep>,
) -> bool {
    &&& rounds.len() == steps.len() + 1
    &&& records.len() == steps.len() + 1
    &&& answers.len() == steps.len()
    &&& directories.len() == steps.len()
    &&& forall|i: int| #![trigger steps[i]]
        0 <= i < steps.len() ==> round_stepped(
            watcher,
            directories[i],
            now,
            rounds[i],
            answers[i],
            records[i],
            rounds[i + 1],
            records[i + 1],
            steps[i],
        )
}

/// How many searches the steps ask for.
pub open spec fn searches_in(steps: Seq<RoundStep>) -> nat
    decreases steps.len(),
{
    if steps.len() == 0 {
        0
    } else {
        searches_in(steps.drop_last()) + if steps.last() matches RoundStep::Do(Ask::Search(_)) {
            1nat
        } else {
            0
        }
    }
}

proof fn lemma_searches_so_far(
    watcher: Watcher,
    now: Timestamp,
    directories: Seq<Seq<Entry>>,
    rounds: Seq<Round>,
    records: Seq<NoticesView>,
    answers: Seq<Answer>,
    steps: Seq<RoundStep>,
    n: int,
)
    requires
        is_run(watcher, now, directories, rounds, records, answers, steps),
        sound(rounds[0]),
        !spent(rounds[0]),
        0 <= n <= steps.len(),
    ensures
        sound(rounds[n]),
        searches_in(steps.take(n)) <= if spent(rounds[n]) {
            1nat
        } else {
            0
        },
    decreases n,
{
    if n > 0 {
        let m = n - 1;
        lemma_searches_so_far(watcher, now, directories, rounds, records, answers, steps, m);
        assert(steps.take(n).drop_last() =~= steps.take(m));
        assert(steps.take(n).last() == steps[m]);
        law_one_search_per_round(
            watcher,
            directories[m],
            now,
            rounds[m],
            answers[m],
            records[m],
            rounds[n],
            records[n],
            steps[m],
        );
    }
}

/// However a round goes, it asks for at most one search.
pub proof fn law_a_whole_round_searches_once(
    watcher: Watcher,
    now: Timestamp,
    directories: Seq<Seq<Entry>>,
    rounds: Seq<Round>,
    records: Seq<NoticesView>,
    answers: Seq<Answer>,
    steps: Seq<RoundStep>,
)
    requires
        is_run(watcher, now, directories, rounds, records, answers, steps),
        sound(rounds[0]),
        rounds[0].stage == RoundStage::Begin,
        !rounds[0].searched,
    ensures
        searches_in(steps) <= 1,
{
    let n = steps.len() as int;
    lemma_searches_so_far(watcher, now, directories, rounds, records, answers, steps, n);
    assert(steps.take(n) =~= steps);
}

/// Whether a search is counted that has not been asked for yet.
pub open spec fn has_counted(r: Round) -> bool {
    r.stage is RefreshCounted || ((r.stage is Wish || r.stage is RefreshTell)
        && r.current.stage is Counted)
}

/// Every search of a round is counted before it is asked for, whether it then
/// succeeds or not.
pub proof fn law_every_search_is_counted(
    watcher: Watcher,
    entries: Seq<Entry>,
    now: Timestamp,
    r: Round,
    answer: Answer,
    record: NoticesView,
    after: Round,
    record_after: NoticesView,
    step: RoundStep,
)
    requires
        round_stepped(watcher, entries, now, r, answer, record, after, record_after, step),
    ensures
        searches_on(record_after, now.utc_day_number()) + if has_counted(r) {
            1int
        } else {
            0
        } >= searches_on(record, now.utc_day_number()) + if has_counted(after) {
            1int
        } else {
            0
        } + if step matches RoundStep::Do(Ask::Search(_)) {
            1int
        } else {
            0
        },
{
    let (c, a, at) = turn_of(r, answer);
    let wish = r.wishes@[at];
    let day = now.utc_day_number();
    assert forall|taken: WishStep, between: NoticesView| #[trigger]
        considered(
            watcher,
            wish,
            entries,
            now,
            c,
            a,
            record,
            after.current,
            between,
            taken,
        ) implies (taken matches WishStep::Do(Ask::Search(_)) ==> c.stage is Counted && !(
    after.current.stage is Counted)) && searches_on(between, day) == searches_on(record, day) + if (
    after.current.stage is Counted) {
        1int
    } else {
        0
    } by {
        law_a_search_is_counted_first(
            watcher,
            wish,
            entries,
            now,
            c,
            a,
            record,
            after.current,
            between,
            taken,
        );
    }
}

/// Whether these are the states, the records, the answers and the steps of
/// the rounds of one day, one after the other. Before any step the round so
/// far may be given up for a new one.
pub open spec fn is_day(
    watcher: Watcher,
    day: int,
    nows: Seq<Timestamp>,
    directories: Seq<Seq<Entry>>,
    begun: Seq<Round>,
    rounds: Seq<Round>,
    records: Seq<NoticesView>,
    answers: Seq<Answer>,
    steps: Seq<RoundStep>,
) -> bool {
    &&& begun.len() == steps.len()
    &&& rounds.len() == steps.len() + 1
    &&& records.len() == steps.len() + 1
    &&& nows.len() == steps.len()
    &&& answers.len() == steps.len()
    &&& directories.len() == steps.len()
    &&& rounds[0].stage is Begin
    &&& forall|i: int| #![trigger steps[i]]
        0 <= i < steps.len() ==> {
            &&& nows[i].utc_day_number() == day
            &&& begun[i] == rounds[i] || begun[i].stage is Begin
            &&& round_stepped(
                watcher,
                directories[i],
                nows[i],
                begun[i],
                answers[i],
                records[i],
                rounds[i + 1],
                records[i + 1],
                steps[i],
            )
        }
}

proof fn lemma_searches_of_the_day(
    watcher: Watcher,
    day: int,
    nows: Seq<Timestamp>,
    directories: Seq<Seq<Entry>>,
    begun: Seq<Round>,
    rounds: Seq<Round>,
    records: Seq<NoticesView>,
    answers: Seq<Answer>,
    steps: Seq<RoundStep>,
    n: int,
)
    requires
        is_day(watcher, day, nows, directories, begun, rounds, records, answers, steps),
        searches_on(records[0], day) <= watcher.settings.max_searches_per_day,
        0 <= n <= steps.len(),
    ensures
        searches_on(records[n], day) <= watcher.settings.max_searches_per_day,
        searches_on(records[0], day) + searches_in(steps.take(n)) + if has_counted(rounds[n]) {
            1int
        } else {
            0
        } <= searches_on(records[n], day),
    decreases n,
{
    if n > 0 {
        let m = n - 1;
        lemma_searches_of_the_day(
            watcher,
            day,
            nows,
            directories,
            begun,
            rounds,
            records,
            answers,
            steps,
            m,
        );
        let step = steps[m];
        assert(steps.take(n).drop_last() =~= steps.take(m));
        assert(steps.take(n).last() == steps[m]);
        law_a_round_keeps_the_budget(
            watcher,
            directories[m],
            nows[m],
            begun[m],
            answers[m],
            records[m],
            rounds[n],
            records[n],
            step,
        );
        law_every_search_is_counted(
            watcher,
            directories[m],
            nows[m],
            begun[m],
            answers[m],
            records[m],
            rounds[n],
            records[n],
            step,
        );
    }
}

/// The rounds of one day ask for no more searches than the limit allows, on
/// top of those counted before, however many rounds there are and however
/// each search ends. A limit of zero allows none.
pub proof fn law_a_day_of_rounds_keeps_the_budget(
    watcher: Watcher,
    day: int,
    nows: Seq<Timestamp>,
    directories: Seq<Seq<Entry>>,
    begun: Seq<Round>,
    rounds: Seq<Round>,
    records: Seq<NoticesView>,
    answers: Seq<Answer>,
    steps: Seq<RoundStep>,
)
    requires
        is_day(watcher, day, nows, directories, begun, rounds, records, answers, steps),
        searches_on(records[0], day) <= watcher.settings.max_searches_per_day,
    ensures
        searches_on(records[0], day) + searches_in(steps)
            <= watcher.settings.max_searches_per_day,
{
    let n = steps.len() as int;
    lemma_searches_of_the_day(
        watcher,
        day,
        nows,
        directories,
        begun,
        rounds,
        records,
        answers,
        steps,
        n,
    );
    assert(steps.take(n) =~= steps);
}

/// However a round goes, the searches of its day keep to the limit.
pub proof fn law_a_whole_round_keeps_the_budget(
    watcher: Watcher,
    now: Timestamp,
    directories: Seq<Seq<Entry>>,
    rounds: Seq<Round>,
    records: Seq<NoticesView>,
    answers: Seq<Answer>,
    steps: Seq<RoundStep>,
    n: int,
)
    requires
        is_run(watcher, now, directories, rounds, records, answers, steps),
        within_budget(watcher, records[0], now),
        0 <= n <= steps.len(),
    ensures
        within_budget(watcher, records[n], now),
    decreases n,
{
    if n > 0 {
        let m = n - 1;
        law_a_whole_round_keeps_the_budget(
            watcher,
            now,
            directories,
            rounds,
            records,
            answers,
            steps,
            m,
        );
        let step = steps[m];
        law_a_round_keeps_the_budget(
            watcher,
            directories[m],
            now,
            rounds[m],
            answers[m],
            records[m],
            rounds[n],
            records[n],
            step,
        );
    }
}

/// How far a round is from its end, as three numbers of which the first
/// counts most: the part of the round that it is in, the wishes that are yet
/// to come, and the steps that the wish in turn may still take.
pub open spec fn way_to_go(r: Round) -> (nat, nat, nat) {
    match r.stage {
        RoundStage::Begin => (11, 0, 0),
        RoundStage::Wishes => (10, 0, 0),
        RoundStage::MovieQueue => (9, 0, 0),
        RoundStage::TvQueue => (8, 0, 0),
        RoundStage::Next => (7, (r.wishes@.len() - r.at) as nat, 10),
        RoundStage::Wish => (7, (r.wishes@.len() - r.at) as nat, steps_left(r.current)),
        RoundStage::RefreshSeries { .. } => (6, 0, 0),
        RoundStage::RefreshCounted { .. } => (5, 0, 0),
        RoundStage::RefreshSearch { .. } => (4, 0, 0),
        RoundStage::RefreshSaved { .. } => (3, 0, 0),
        RoundStage::RefreshTell { .. } => (2, 0, steps_left(r.current)),
        RoundStage::Last => (1, 0, 0),
        RoundStage::Finished => (0, 0, 0),
    }
}

/// Whether one distance is shorter than another.
pub open spec fn shorter(a: (nat, nat, nat), b: (nat, nat, nat)) -> bool {
    a.0 < b.0 || a.0 == b.0 && (a.1 < b.1 || a.1 == b.1 && a.2 < b.2)
}

/// A round comes to its end, whatever it is answered: every step brings it
/// nearer, and the last one reports.
pub proof fn law_a_round_comes_to_its_end(
    watcher: Watcher,
    entries: Seq<Entry>,
    now: Timestamp,
    r: Round,
    answer: Answer,
    record: NoticesView,
    after: Round,
    record_after: NoticesView,
    step: RoundStep,
)
    requires
        sound(r),
        round_stepped(watcher, entries, now, r, answer, record, after, record_after, step),
    ensures
        r.stage is Finished || shorter(way_to_go(after), way_to_go(r)),
        after.stage is Finished <==> step is Finished,
{
    let (c, a, at) = turn_of(r, answer);
    let wish = r.wishes@[at];
    assert(r.wishes.len() <= usize::MAX);
    assert forall|taken: WishStep, between: NoticesView| #[trigger]
        considered(
            watcher,
            wish,
            entries,
            now,
            c,
            a,
            record,
            after.current,
            between,
            taken,
        ) && taken is Do implies steps_left(after.current) < steps_left(c) by {
        law_a_wish_has_its_turn(
            watcher,
            wish,
            entries,
            now,
            c,
            a,
            record,
            after.current,
            between,
            taken,
        );
    }
}

} // verus!
