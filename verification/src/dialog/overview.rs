//! The answer to "how is it going": one line per wish, in the order in which
//! Seerr lists them.
//!
//! [`Overview`] asks for one lookup at a time. Each queue is read once for the
//! whole answer, not once per wish. A queue entry is evidence enough on its
//! own; a lookup that fails leaves the wish without evidence, and never costs
//! the answer.

use crate::arr::{ArrMovie, HistoryEvent, QueueItem, QueueState};
use crate::dialog::listing::{line_said, status_line};
use crate::dialog::status::plain;
use crate::dialog::{Call, Reply};
use crate::i18n::{Catalogue, Locale};
use crate::insight::{
    Evidence, EvidenceView, SeriesFacts, classify, facts_of, judged, series_facts,
};
use crate::model::{MediaKind, ReasonView, Wish, clone_text};
use crate::moment::Timestamp;
use crate::notices::{Notices, NoticesView};
use crate::text::{join_texts, joined_by, views};
use crate::watch::round::{find_item, item_of};
use vstd::prelude::*;

verus! {

/// How long a wish that is here stays in the answer, in nanoseconds.
pub const ARRIVED_SHOWN: i128 = 604_800_000_000_000;

/// Whether a wish is listed: it is open, or it became available within the
/// last week.
pub open spec fn is_listed(wish: Wish, now: Timestamp) -> bool {
    wish.media_status != 5 || now.instant() - wish.created_at.instant() <= ARRIVED_SHOWN
}

/// The wishes that are listed.
pub open spec fn listed_wishes(wishes: Seq<Wish>, now: Timestamp) -> Seq<Wish>
    decreases wishes.len(),
{
    if wishes.len() == 0 {
        Seq::empty()
    } else {
        let before = listed_wishes(wishes.drop_last(), now);
        if is_listed(wishes.last(), now) {
            before.push(wishes.last())
        } else {
            before
        }
    }
}

/// The wishes that are listed.
pub fn keep_listed(wishes: Vec<Wish>, now: Timestamp) -> (r: Vec<Wish>)
    ensures
        r@ == listed_wishes(wishes@, now),
{
    let ghost all = wishes@;
    let mut rest = wishes;
    let mut kept: Vec<Wish> = Vec::new();
    // Taken from the end, so what is kept comes out the wrong way round.
    assert(all =~= all.take(all.len() as int));
    while rest.len() > 0
        invariant
            rest@ == all.take(rest@.len() as int),
            rest@.len() <= all.len(),
            listed_wishes(rest@, now) + kept@.reverse() == listed_wishes(all, now),
        decreases rest@.len(),
    {
        let ghost before = rest@;
        let ghost kept_before = kept@;
        if let Some(wish) = rest.pop() {
            assert(before.drop_last() =~= rest@);
            let open = wish.media_status != 5;
            if open || now.since(&wish.created_at).nanos <= ARRIVED_SHOWN {
                kept.push(wish);
                assert(listed_wishes(rest@, now) + kept@.reverse() =~= listed_wishes(before, now)
                    + kept_before.reverse());
            }
            assert(rest@ =~= all.take(rest@.len() as int));
        }
    }
    assert(listed_wishes(rest@, now) + kept@.reverse() =~= kept@.reverse());
    let mut r: Vec<Wish> = Vec::new();
    let ghost wanted = kept@.reverse();
    assert(r@ + kept@.reverse() =~= wanted);
    while kept.len() > 0
        invariant
            r@ + kept@.reverse() == wanted,
        decreases kept@.len(),
    {
        let ghost before = kept@;
        let ghost so_far = r@;
        if let Some(wish) = kept.pop() {
            assert(before.drop_last() =~= kept@);
            r.push(wish);
            assert(r@ + kept@.reverse() =~= so_far + before.reverse());
        }
    }
    assert(r@ + kept@.reverse() =~= r@);
    r
}

/// A queue, as far as it has been read.
#[derive(Debug)]
pub enum Fetched {
    NotYet,
    Failed,
    Items(Vec<QueueItem>),
}

/// What the answer is waiting for.
#[derive(Clone, Copy, Debug, PartialEq, Eq, Structural)]
pub enum OverviewStage {
    /// The next wish's turn.
    Next,
    Title,
    Queue,
    /// The film or the series.
    Evidence,
    History,
}

/// An answer on its way.
#[derive(Debug)]
pub struct Overview {
    pub wishes: Vec<Wish>,
    pub at: usize,
    pub lines: Vec<String>,
    pub movie_queue: Fetched,
    pub tv_queue: Fetched,
    /// What is known about the wish in turn.
    pub title: Option<String>,
    pub movie: Option<ArrMovie>,
    pub facts: Option<SeriesFacts>,
    pub stage: OverviewStage,
}

/// What comes next for the answer.
#[derive(Debug)]
pub enum OverviewStep {
    Do(Call),
    /// Nothing is to be looked up; the answer goes on.
    Proceed,
    Done(String),
}

/// Whether Seerr alone says what has become of a wish.
pub open spec fn is_settled(wish: Wish) -> bool {
    wish.media_status == 5 || wish.request_status == 3 || wish.request_status == 4
}

/// The reason on record for a wish.
pub open spec fn reason_on_record(record: Option<NoticesView>, id: i64) -> Option<ReasonView> {
    match record {
        Some(r) => if r.notes.contains_key(id) {
            crate::model::opt_reason(r.notes[id].reason)
        } else {
            None
        },
        None => None,
    }
}

/// The title on record for a wish.
pub open spec fn title_on_record(record: Option<NoticesView>, id: i64) -> Option<String> {
    match record {
        Some(r) => if r.notes.contains_key(id) {
            r.notes[id].title
        } else {
            None
        },
        None => None,
    }
}

/// The view of an optional record.
pub open spec fn opt_record(notices: Option<&Notices>) -> Option<NoticesView> {
    match notices {
        Some(n) => Some(n@),
        None => None,
    }
}

/// What is known without a look at Radarr or Sonarr: the reason on record,
/// and, where neither can be asked at all, Seerr's own account of a download.
pub open spec fn own_evidence(
    wish: Wish,
    has_insight: bool,
    record: Option<NoticesView>,
) -> EvidenceView {
    EvidenceView {
        movie: None,
        series: None,
        queue_item: match wish.download_percent {
            Some(percent) => if has_insight {
                None
            } else {
                Some(QueueItem { arr_id: 0, percent, state: QueueState::Downloading })
            },
            None => None,
        },
        last_event: None,
        known_reason: reason_on_record(record, wish.id),
    }
}

/// The answer with the line of the wish in turn.
pub open spec fn lined(
    catalogue: Catalogue,
    locale: Locale,
    now: Timestamp,
    o: Overview,
    evidence: EvidenceView,
    after: Overview,
    step: OverviewStep,
) -> bool {
    let wish = o.wishes@[o.at as int];
    let title = match o.title {
        Some(title) => title@,
        None => catalogue.says(locale, "status.untitled"@, Seq::empty()),
    };
    &&& after == Overview {
        at: (o.at + 1) as usize,
        lines: after.lines,
        title: None,
        movie: None,
        facts: None,
        stage: OverviewStage::Next,
        ..o
    }
    &&& views(after.lines@) == views(o.lines@).push(
        line_said(catalogue, locale, wish.id, title, judged(wish, evidence, now.instant())),
    )
    &&& step == OverviewStep::Proceed
}

/// The queue a wish may be in.
pub open spec fn queue_for(o: Overview, kind: MediaKind) -> Fetched {
    match kind {
        MediaKind::Movie => o.movie_queue,
        MediaKind::Tv => o.tv_queue,
    }
}

/// What follows once the queue is known: the line of a wish that is in it, or
/// a look at the film or series.
pub open spec fn queue_read(
    catalogue: Catalogue,
    locale: Locale,
    record: Option<NoticesView>,
    now: Timestamp,
    o: Overview,
    after: Overview,
    step: OverviewStep,
) -> bool {
    let wish = o.wishes@[o.at as int];
    match queue_for(o, wish.kind) {
        Fetched::Items(items) => match item_of(items@, wish.arr_id) {
            Some(item) => lined(
                catalogue,
                locale,
                now,
                o,
                EvidenceView { queue_item: Some(item), ..own_evidence(wish, true, record) },
                after,
                step,
            ),
            None => if wish.arr_id is Some {
                &&& after == Overview { stage: OverviewStage::Evidence, ..o }
                &&& step == OverviewStep::Do(
                    match wish.kind {
                        MediaKind::Movie => Call::Movie(wish.arr_id->0),
                        MediaKind::Tv => Call::Series(wish.arr_id->0),
                    },
                )
            } else {
                lined(catalogue, locale, now, o, own_evidence(wish, true, record), after, step)
            },
        },
        _ => lined(catalogue, locale, now, o, own_evidence(wish, true, record), after, step),
    }
}

/// What follows once the title is known, or is known to be unknown.
pub open spec fn title_read(
    catalogue: Catalogue,
    locale: Locale,
    has_insight: bool,
    record: Option<NoticesView>,
    now: Timestamp,
    o: Overview,
    after: Overview,
    step: OverviewStep,
) -> bool {
    let wish = o.wishes@[o.at as int];
    if is_settled(wish) || !has_insight || wish.arr_id is None {
        lined(catalogue, locale, now, o, own_evidence(wish, has_insight, record), after, step)
    } else if queue_for(o, wish.kind) is NotYet {
        &&& after == Overview { stage: OverviewStage::Queue, ..o }
        &&& step == OverviewStep::Do(Call::Queue(wish.kind))
    } else {
        queue_read(catalogue, locale, record, now, o, after, step)
    }
}

/// One step of the answer.
pub open spec fn overview_stepped(
    catalogue: Catalogue,
    locale: Locale,
    has_insight: bool,
    record: Option<NoticesView>,
    now: Timestamp,
    o: Overview,
    reply: Reply,
    after: Overview,
    step: OverviewStep,
) -> bool {
    let wish = o.wishes@[o.at as int];
    let own = own_evidence(wish, has_insight, record);
    if o.at >= o.wishes@.len() {
        &&& after == o
        &&& step matches OverviewStep::Done(text) && text@ == joined_by(views(o.lines@), "\n"@)
    } else {
        match o.stage {
            OverviewStage::Next => match title_on_record(record, wish.id) {
                Some(title) => title_read(
                    catalogue,
                    locale,
                    has_insight,
                    record,
                    now,
                    Overview { title: Some(title), ..o },
                    after,
                    step,
                ),
                None => {
                    &&& after == Overview { stage: OverviewStage::Title, ..o }
                    &&& step == OverviewStep::Do(
                        Call::Title { kind: wish.kind, tmdb_id: wish.tmdb_id },
                    )
                },
            },
            OverviewStage::Title => title_read(
                catalogue,
                locale,
                has_insight,
                record,
                now,
                Overview {
                    title: match reply {
                        Reply::Title(found) => found,
                        _ => None,
                    },
                    ..o
                },
                after,
                step,
            ),
            OverviewStage::Queue => {
                let read = match reply {
                    Reply::Queue(Some(items)) => Fetched::Items(items),
                    _ => Fetched::Failed,
                };
                queue_read(
                    catalogue,
                    locale,
                    record,
                    now,
                    match wish.kind {
                        MediaKind::Movie => Overview { movie_queue: read, ..o },
                        MediaKind::Tv => Overview { tv_queue: read, ..o },
                    },
                    after,
                    step,
                )
            },
            OverviewStage::Evidence => match reply {
                Reply::Movie(Some(movie)) => if wish.arr_id is Some {
                    &&& after == Overview { movie: Some(movie), stage: OverviewStage::History, ..o }
                    &&& step == OverviewStep::Do(Call::History(wish.kind, wish.arr_id->0))
                } else {
                    lined(catalogue, locale, now, o, own, after, step)
                },
                Reply::Series(Some(series)) => if wish.arr_id is Some {
                    &&& after.facts is Some
                    &&& facts_of(
                        series.episodes@,
                        series.monitored_seasons@,
                        wish.seasons@,
                        now.instant(),
                        after.facts->0,
                    )
                    &&& after == Overview {
                        facts: after.facts,
                        stage: OverviewStage::History,
                        ..o
                    }
                    &&& step == OverviewStep::Do(Call::History(wish.kind, wish.arr_id->0))
                } else {
                    lined(catalogue, locale, now, o, own, after, step)
                },
                _ => lined(catalogue, locale, now, o, own, after, step),
            },
            OverviewStage::History => match reply {
                Reply::History(Some(event)) => lined(
                    catalogue,
                    locale,
                    now,
                    o,
                    EvidenceView { movie: o.movie, series: o.facts, last_event: event, ..own },
                    after,
                    step,
                ),
                _ => lined(catalogue, locale, now, o, own, after, step),
            },
        }
    }
}

impl Overview {
    /// An answer about some wishes, at its beginning.
    pub fn new(wishes: Vec<Wish>) -> (r: Overview)
        ensures
            r.wishes == wishes,
            r.at == 0,
            r.lines@.len() == 0,
            r.movie_queue is NotYet,
            r.tv_queue is NotYet,
            r.title is None,
            r.movie is None,
            r.facts is None,
            r.stage == OverviewStage::Next,
    {
        Overview {
            wishes,
            at: 0,
            lines: Vec::new(),
            movie_queue: Fetched::NotYet,
            tv_queue: Fetched::NotYet,
            title: None,
            movie: None,
            facts: None,
            stage: OverviewStage::Next,
        }
    }

    /// Writes the line of the wish in turn.
    fn line(
        &mut self,
        catalogue: &Catalogue,
        locale: Locale,
        now: Timestamp,
        evidence: &Evidence,
    ) -> (step: OverviewStep)
        requires
            old(self).at < old(self).wishes@.len(),
        ensures
            lined(*catalogue, locale, now, *old(self), evidence@, *final(self), step),
    {
        let state = classify(&self.wishes[self.at], evidence, now);
        let title = match &self.title {
            Some(title) => title.clone(),
            None => plain(catalogue, locale, "status.untitled"),
        };
        let line = status_line(
            catalogue,
            locale,
            self.wishes[self.at].id,
            title.as_str(),
            &state,
        );
        let ghost before = self.lines@;
        let ghost said = line@;
        self.lines.push(line);
        assert(views(self.lines@) =~= views(before).push(said));
        assert(self.at < self.wishes.len());
        self.at = self.at + 1;
        self.title = None;
        self.movie = None;
        self.facts = None;
        self.stage = OverviewStage::Next;
        OverviewStep::Proceed
    }

    /// Writes the line of the wish in turn from what is known without a look,
    /// and from what a look found.
    fn line_with(
        &mut self,
        catalogue: &Catalogue,
        locale: Locale,
        has_insight: bool,
        notices: Option<&Notices>,
        now: Timestamp,
        item: Option<QueueItem>,
        movie: Option<ArrMovie>,
        facts: Option<SeriesFacts>,
        event: Option<HistoryEvent>,
    ) -> (step: OverviewStep)
        requires
            old(self).at < old(self).wishes@.len(),
        ensures
            ({
                let own = own_evidence(
                    old(self).wishes@[old(self).at as int],
                    has_insight,
                    opt_record(notices),
                );
                lined(
                    *catalogue,
                    locale,
                    now,
                    *old(self),
                    EvidenceView {
                        movie,
                        series: facts,
                        queue_item: if item is Some {
                            item
                        } else {
                            own.queue_item
                        },
                        last_event: event,
                        ..own
                    },
                    *final(self),
                    step,
                )
            }),
    {
        let wish = &self.wishes[self.at];
        let reason = match notices {
            Some(record) => match record.note(wish.id) {
                Some(note) => note.reason.as_ref(),
                None => None,
            },
            None => None,
        };
        let own_item = match item {
            Some(found) => Some(found),
            None => match wish.download_percent {
                Some(percent) => if has_insight {
                    None
                } else {
                    Some(QueueItem { arr_id: 0, percent, state: QueueState::Downloading })
                },
                None => None,
            },
        };
        let evidence = Evidence {
            movie: movie.as_ref(),
            series: facts.as_ref(),
            queue_item: own_item.as_ref(),
            last_event: event,
            known_reason: reason,
        };
        self.line(catalogue, locale, now, &evidence)
    }

    fn after_queue(
        &mut self,
        catalogue: &Catalogue,
        locale: Locale,
        notices: Option<&Notices>,
        now: Timestamp,
    ) -> (step: OverviewStep)
        requires
            old(self).at < old(self).wishes@.len(),
        ensures
            queue_read(
                *catalogue,
                locale,
                opt_record(notices),
                now,
                *old(self),
                *final(self),
                step,
            ),
    {
        let wish = &self.wishes[self.at];
        let queue = match wish.kind {
            MediaKind::Movie => &self.movie_queue,
            MediaKind::Tv => &self.tv_queue,
        };
        let items = match queue {
            Fetched::Items(items) => items,
            _ => {
                return self.line_with(
                    catalogue,
                    locale,
                    true,
                    notices,
                    now,
                    None,
                    None,
                    None,
                    None,
                );
            },
        };
        let found = find_item(items, wish.arr_id);
        if found.is_some() {
            return self.line_with(
                catalogue,
                locale,
                true,
                notices,
                now,
                found,
                None,
                None,
                None,
            );
        }
        let arr_id = match wish.arr_id {
            Some(arr_id) => arr_id,
            None => {
                return self.line_with(
                    catalogue,
                    locale,
                    true,
                    notices,
                    now,
                    None,
                    None,
                    None,
                    None,
                );
            },
        };
        let call = match wish.kind {
            MediaKind::Movie => Call::Movie(arr_id),
            MediaKind::Tv => Call::Series(arr_id),
        };
        self.stage = OverviewStage::Evidence;
        OverviewStep::Do(call)
    }
}

impl Overview {
    fn after_title(
        &mut self,
        catalogue: &Catalogue,
        locale: Locale,
        has_insight: bool,
        notices: Option<&Notices>,
        now: Timestamp,
    ) -> (step: OverviewStep)
        requires
            old(self).at < old(self).wishes@.len(),
        ensures
            title_read(
                *catalogue,
                locale,
                has_insight,
                opt_record(notices),
                now,
                *old(self),
                *final(self),
                step,
            ),
    {
        let wish = &self.wishes[self.at];
        let settled = wish.media_status == 5 || wish.request_status == 3 || wish.request_status
            == 4;
        if settled || !has_insight || wish.arr_id.is_none() {
            return self.line_with(
                catalogue,
                locale,
                has_insight,
                notices,
                now,
                None,
                None,
                None,
                None,
            );
        }
        let kind = wish.kind;
        let unread = match kind {
            MediaKind::Movie => matches!(self.movie_queue, Fetched::NotYet),
            MediaKind::Tv => matches!(self.tv_queue, Fetched::NotYet),
        };
        if unread {
            self.stage = OverviewStage::Queue;
            return OverviewStep::Do(Call::Queue(kind));
        }
        self.after_queue(catalogue, locale, notices, now)
    }

    /// One step: takes what came of the last lookup, and says what is to be
    /// looked up next.
    pub fn step(
        &mut self,
        catalogue: &Catalogue,
        locale: Locale,
        has_insight: bool,
        notices: Option<&Notices>,
        now: Timestamp,
        reply: Reply,
    ) -> (step: OverviewStep)
        ensures
            overview_stepped(
                *catalogue,
                locale,
                has_insight,
                opt_record(notices),
                now,
                *old(self),
                reply,
                *final(self),
                step,
            ),
    {
        if self.at >= self.wishes.len() {
            return OverviewStep::Done(join_texts(&self.lines, "\n"));
        }
        let wish = &self.wishes[self.at];
        match self.stage {
            OverviewStage::Next => {
                let known = match notices {
                    Some(record) => match record.note(wish.id) {
                        Some(note) => clone_text(&note.title),
                        None => None,
                    },
                    None => None,
                };
                match known {
                    Some(title) => {
                        self.title = Some(title);
                        self.after_title(catalogue, locale, has_insight, notices, now)
                    },
                    None => {
                        let call = Call::Title { kind: wish.kind, tmdb_id: wish.tmdb_id };
                        self.stage = OverviewStage::Title;
                        OverviewStep::Do(call)
                    },
                }
            },
            OverviewStage::Title => {
                self.title = match reply {
                    Reply::Title(found) => found,
                    _ => None,
                };
                self.after_title(catalogue, locale, has_insight, notices, now)
            },
            OverviewStage::Queue => {
                let read = match reply {
                    Reply::Queue(Some(items)) => Fetched::Items(items),
                    _ => Fetched::Failed,
                };
                match wish.kind {
                    MediaKind::Movie => {
                        self.movie_queue = read;
                    },
                    MediaKind::Tv => {
                        self.tv_queue = read;
                    },
                }
                self.after_queue(catalogue, locale, notices, now)
            },
            OverviewStage::Evidence => {
                let kind = wish.kind;
                if let Some(arr_id) = wish.arr_id {
                    match reply {
                        Reply::Movie(Some(movie)) => {
                            self.movie = Some(movie);
                            self.stage = OverviewStage::History;
                            return OverviewStep::Do(Call::History(kind, arr_id));
                        },
                        Reply::Series(Some(series)) => {
                            self.facts = Some(series_facts(&series, &wish.seasons, now));
                            self.stage = OverviewStage::History;
                            return OverviewStep::Do(Call::History(kind, arr_id));
                        },
                        _ => {},
                    }
                }
                self.line_with(
                    catalogue,
                    locale,
                    has_insight,
                    notices,
                    now,
                    None,
                    None,
                    None,
                    None,
                )
            },
            OverviewStage::History => match reply {
                Reply::History(Some(event)) => {
                    let movie = self.movie;
                    let facts = self.facts;
                    self.line_with(
                        catalogue,
                        locale,
                        has_insight,
                        notices,
                        now,
                        None,
                        movie,
                        facts,
                        event,
                    )
                },
                _ => self.line_with(
                    catalogue,
                    locale,
                    has_insight,
                    notices,
                    now,
                    None,
                    None,
                    None,
                    None,
                ),
            },
        }
    }
}

/// Whether there is a line for each wish whose turn is over.
pub open spec fn in_step(o: Overview) -> bool {
    o.lines@.len() == o.at && o.at <= o.wishes@.len()
}

/// Every wish gets its line, in order: a finished answer has as many lines as
/// there are wishes.
pub proof fn law_one_line_per_wish(
    catalogue: Catalogue,
    locale: Locale,
    has_insight: bool,
    record: Option<NoticesView>,
    now: Timestamp,
    o: Overview,
    reply: Reply,
    after: Overview,
    step: OverviewStep,
)
    requires
        in_step(o),
        overview_stepped(catalogue, locale, has_insight, record, now, o, reply, after, step),
    ensures
        in_step(after),
        after.wishes == o.wishes,
        step is Done ==> after.lines@.len() == after.wishes@.len(),
        o.lines@.len() <= after.lines@.len() <= o.lines@.len() + 1,
{
    assert(o.wishes.len() <= usize::MAX);
    assert(views(after.lines@).len() == after.lines@.len());
    assert(views(o.lines@).len() == o.lines@.len());
}

/// Neither a declined wish nor one that is here costs a lookup in Radarr or
/// Sonarr.
pub proof fn law_settled_wishes_cost_no_lookup(
    catalogue: Catalogue,
    locale: Locale,
    has_insight: bool,
    record: Option<NoticesView>,
    now: Timestamp,
    o: Overview,
    reply: Reply,
    after: Overview,
    step: OverviewStep,
)
    requires
        o.at < o.wishes@.len(),
        is_settled(o.wishes@[o.at as int]),
        o.stage == OverviewStage::Next || o.stage == OverviewStage::Title,
        overview_stepped(catalogue, locale, has_insight, record, now, o, reply, after, step),
    ensures
        step matches OverviewStep::Do(call) ==> call is Title,
{
}

/// How many lookups the wish in turn may still cost, and one more.
pub open spec fn stage_left(stage: OverviewStage) -> nat {
    match stage {
        OverviewStage::Next => 4,
        OverviewStage::Title => 3,
        OverviewStage::Queue => 2,
        OverviewStage::Evidence => 1,
        OverviewStage::History => 0,
    }
}

/// An answer is finished in time: every step but the last brings a wish to
/// its line or costs one of the few lookups that it may cost.
pub proof fn law_an_overview_comes_to_its_end(
    catalogue: Catalogue,
    locale: Locale,
    has_insight: bool,
    record: Option<NoticesView>,
    now: Timestamp,
    o: Overview,
    reply: Reply,
    after: Overview,
    step: OverviewStep,
)
    requires
        overview_stepped(catalogue, locale, has_insight, record, now, o, reply, after, step),
    ensures
        step is Done <==> o.at >= o.wishes@.len(),
        !(step is Done) ==> after.wishes == o.wishes && (after.at == o.at + 1 || (after.at == o.at
            && stage_left(after.stage) < stage_left(o.stage))),
{
    assert(o.wishes.len() <= usize::MAX);
}

} // verus!
