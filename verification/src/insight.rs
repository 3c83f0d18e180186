//! Turning what Seerr and Radarr or Sonarr say about a wish into one state a
//! person can understand, and turning an interactive search into a reason.
//! Nothing in here makes a request: callers gather the evidence themselves.

pub mod laws;
pub mod reasons;

use crate::arr::{
    ArrEpisode, ArrMovie, ArrSeries, HistoryEvent, QueueItem, QueueState, Release, ReleaseView,
    release_views,
};
use crate::model::{
    PartCounts, PartCountsView, Reason, ReasonView, Wish, WishState, WishStateView, opt_day,
};
use crate::moment::{Date, Timestamp};
use crate::text::{contains, eq_ignore_ascii_case, occurs, same, same_ascii_caseless, views};
use vstd::prelude::*;

verus! {

/// The sentence Radarr rejects a release with that is too large.
pub const TOO_LARGE_PATTERN: &'static str = "larger than maximum allowed";

/// The sentence Radarr rejects a release with that is too small.
pub const TOO_SMALL_PATTERN: &'static str = "smaller than minimum allowed";

/// The sentence Radarr rejects a release with whose quality is not wanted.
pub const WRONG_QUALITY_PATTERN: &'static str = "is not wanted in profile";

/// A season search comes back with releases that belong to other series, each
/// rejected with this sentence or the next. They say nothing about the series
/// asked about, so they are dropped before anything is judged.
pub const UNKNOWN_SERIES_PATTERN: &'static str = "Unknown Series";

/// See [`UNKNOWN_SERIES_PATTERN`].
pub const ALIAS_PATTERN: &'static str = "matches an alias for series with TVDB ID";

/// What is currently known about a wish, gathered by the caller.
pub struct Evidence<'a> {
    pub movie: Option<&'a ArrMovie>,
    /// `None` for a movie, and for a series where Sonarr could not be asked.
    pub series: Option<&'a SeriesFacts>,
    pub queue_item: Option<&'a QueueItem>,
    pub last_event: Option<HistoryEvent>,
    pub known_reason: Option<&'a Reason>,
}

/// What an [`Evidence`] holds.
pub struct EvidenceView {
    pub movie: Option<ArrMovie>,
    pub series: Option<SeriesFacts>,
    pub queue_item: Option<QueueItem>,
    pub last_event: Option<HistoryEvent>,
    pub known_reason: Option<ReasonView>,
}

impl<'a> View for Evidence<'a> {
    type V = EvidenceView;

    open spec fn view(&self) -> EvidenceView {
        EvidenceView {
            movie: match self.movie {
                Some(m) => Some(*m),
                None => None,
            },
            series: match self.series {
                Some(f) => Some(*f),
                None => None,
            },
            queue_item: match self.queue_item {
                Some(q) => Some(*q),
                None => None,
            },
            last_event: self.last_event,
            known_reason: match self.known_reason {
                Some(r) => Some(r@),
                None => None,
            },
        }
    }
}

/// What the episodes of a series say, counted over the ones that count: in a
/// wished season (or any monitored season, if no seasons were named), with
/// both season and episode monitored.
#[derive(Clone, Copy, Debug, PartialEq)]
pub struct SeriesFacts {
    /// Counting episodes whose air date is known and past.
    pub aired: u32,
    /// Counting aired episodes on file.
    pub have: u32,
    /// The oldest aired-but-missing episode: when it aired, and its season.
    pub missing_oldest: Option<(Timestamp, u16)>,
    /// The first counting episode still ahead, if Sonarr knows a date.
    pub next_air: Option<Timestamp>,
}

/// Whether a season counts: it is monitored, and it was wished for or no
/// season was named.
pub open spec fn season_counts(monitored: Seq<u16>, wished: Seq<u16>, season: u16) -> bool {
    monitored.contains(season) && (wished.len() == 0 || wished.contains(season))
}

/// Whether an episode counts.
pub open spec fn counts(monitored: Seq<u16>, wished: Seq<u16>, e: ArrEpisode) -> bool {
    e.monitored && season_counts(monitored, wished, e.season)
}

/// Whether an episode counts and has aired.
pub open spec fn has_aired(monitored: Seq<u16>, wished: Seq<u16>, now: int, e: ArrEpisode) -> bool {
    counts(monitored, wished, e) && (e.air_date matches Some(air) && air.instant() <= now)
}

/// Whether an episode counts, has aired and is on file.
pub open spec fn is_there(monitored: Seq<u16>, wished: Seq<u16>, now: int, e: ArrEpisode) -> bool {
    has_aired(monitored, wished, now, e) && e.has_file
}

/// Whether an episode counts, has aired and is not on file.
pub open spec fn is_missing(
    monitored: Seq<u16>,
    wished: Seq<u16>,
    now: int,
    e: ArrEpisode,
) -> bool {
    has_aired(monitored, wished, now, e) && !e.has_file
}

/// Whether an episode counts and is known to air later.
pub open spec fn is_ahead(monitored: Seq<u16>, wished: Seq<u16>, now: int, e: ArrEpisode) -> bool {
    counts(monitored, wished, e) && (e.air_date matches Some(air) && air.instant() > now)
}

/// How many episodes have aired.
pub open spec fn aired_count(
    episodes: Seq<ArrEpisode>,
    monitored: Seq<u16>,
    wished: Seq<u16>,
    now: int,
) -> nat {
    episodes.filter(|e: ArrEpisode| has_aired(monitored, wished, now, e)).len()
}

/// How many aired episodes are on file.
pub open spec fn there_count(
    episodes: Seq<ArrEpisode>,
    monitored: Seq<u16>,
    wished: Seq<u16>,
    now: int,
) -> nat {
    episodes.filter(|e: ArrEpisode| is_there(monitored, wished, now, e)).len()
}

/// Whether `at` is the position of the oldest missing episode; of two that
/// aired together, the one listed first.
pub open spec fn oldest_missing_at(
    episodes: Seq<ArrEpisode>,
    monitored: Seq<u16>,
    wished: Seq<u16>,
    now: int,
    at: int,
) -> bool {
    &&& 0 <= at < episodes.len()
    &&& is_missing(monitored, wished, now, episodes[at])
    &&& forall|j: int|
        0 <= j < episodes.len() && is_missing(monitored, wished, now, #[trigger] episodes[j])
            ==> episodes[at].air_date->0.instant() <= episodes[j].air_date->0.instant()
    &&& forall|j: int|
        0 <= j < at && is_missing(monitored, wished, now, #[trigger] episodes[j])
            ==> episodes[at].air_date->0.instant() < episodes[j].air_date->0.instant()
}

/// Whether `at` is the position of the episode that airs next; of two that
/// air together, the one listed first.
pub open spec fn next_ahead_at(
    episodes: Seq<ArrEpisode>,
    monitored: Seq<u16>,
    wished: Seq<u16>,
    now: int,
    at: int,
) -> bool {
    &&& 0 <= at < episodes.len()
    &&& is_ahead(monitored, wished, now, episodes[at])
    &&& forall|j: int|
        0 <= j < episodes.len() && is_ahead(monitored, wished, now, #[trigger] episodes[j])
            ==> episodes[at].air_date->0.instant() <= episodes[j].air_date->0.instant()
    &&& forall|j: int|
        0 <= j < at && is_ahead(monitored, wished, now, #[trigger] episodes[j])
            ==> episodes[at].air_date->0.instant() < episodes[j].air_date->0.instant()
}

/// Whether `facts` is what a list of episodes says.
pub open spec fn facts_of(
    episodes: Seq<ArrEpisode>,
    monitored: Seq<u16>,
    wished: Seq<u16>,
    now: int,
    facts: SeriesFacts,
) -> bool {
    &&& facts.aired == at_most_u32(aired_count(episodes, monitored, wished, now))
    &&& facts.have == at_most_u32(there_count(episodes, monitored, wished, now))
    &&& match facts.missing_oldest {
        Some((air, season)) => exists|at: int| #[trigger]
            oldest_missing_at(episodes, monitored, wished, now, at) && episodes[at].air_date
                == Some(air) && episodes[at].season == season,
        None => forall|j: int|
            0 <= j < episodes.len() ==> !is_missing(monitored, wished, now, #[trigger] episodes[j]),
    }
    &&& match facts.next_air {
        Some(air) => exists|at: int| #[trigger]
            next_ahead_at(episodes, monitored, wished, now, at) && episodes[at].air_date == Some(
                air,
            ),
        None => forall|j: int|
            0 <= j < episodes.len() ==> !is_ahead(monitored, wished, now, #[trigger] episodes[j]),
    }
}

/// A count, no larger than 32 bits hold.
pub open spec fn at_most_u32(n: nat) -> u32 {
    if n <= u32::MAX {
        n as u32
    } else {
        u32::MAX
    }
}

fn has_season(list: &Vec<u16>, season: u16) -> (r: bool)
    ensures
        r == list@.contains(season),
{
    let mut i: usize = 0;
    while i < list.len()
        invariant
            i <= list@.len(),
            forall|j: int| 0 <= j < i ==> list@[j] != season,
        decreases list@.len() - i,
    {
        if list[i] == season {
            return true;
        }
        i += 1;
    }
    false
}

/// Counts what is there and what is missing. An episode without an air date
/// is neither aired nor missing: Sonarr does not know when it comes, so it
/// shows up nowhere, never as missing for decades.
pub fn series_facts(series: &ArrSeries, wished: &Vec<u16>, now: Timestamp) -> (facts: SeriesFacts)
    ensures
        facts_of(
            series.episodes@,
            series.monitored_seasons@,
            wished@,
            now.instant(),
            facts,
        ),
{
    let mut facts = SeriesFacts { aired: 0, have: 0, missing_oldest: None, next_air: None };
    let ghost all = series.episodes@;
    let ghost mon = series.monitored_seasons@;
    let ghost t = now.instant();
    let mut i: usize = 0;
    proof {
        reveal(Seq::filter);
        assert(all.take(0) =~= Seq::empty());
    }
    while i < series.episodes.len()
        invariant
            i <= all.len(),
            all == series.episodes@,
            mon == series.monitored_seasons@,
            t == now.instant(),
            facts_of(all.take(i as int), mon, wished@, t, facts),
        decreases all.len() - i,
    {
        let e = series.episodes[i];
        let ghost before = facts;
        let ghost done = all.take(i as int);
        let ghost next = all.take(i + 1);
        proof {
            assert(next =~= done.push(e));
            broadcast use Seq::lemma_filter_push;
        }
        let counting = e.monitored && has_season(&series.monitored_seasons, e.season) && (
        wished.len() == 0 || has_season(wished, e.season));
        if counting {
            if let Some(air) = e.air_date {
                if now.before(&air) {
                    let earlier = match facts.next_air {
                        Some(known) => air.before(&known),
                        None => true,
                    };
                    if earlier {
                        facts.next_air = Some(air);
                    }
                } else {
                    facts.aired = facts.aired.saturating_add(1);
                    if e.has_file {
                        facts.have = facts.have.saturating_add(1);
                    } else {
                        let older = match facts.missing_oldest {
                            Some(known) => air.before(&known.0),
                            None => true,
                        };
                        if older {
                            facts.missing_oldest = Some((air, e.season));
                        }
                    }
                }
            }
        }
        proof {
            lemma_facts_step(done, mon, wished@, t, e, before, facts);
        }
        i += 1;
    }
    assert(all.take(i as int) =~= all);
    facts
}

proof fn lemma_facts_step(
    done: Seq<ArrEpisode>,
    mon: Seq<u16>,
    wished: Seq<u16>,
    t: int,
    e: ArrEpisode,
    before: SeriesFacts,
    after: SeriesFacts,
)
    requires
        facts_of(done, mon, wished, t, before),
        after.aired == (if has_aired(mon, wished, t, e) && before.aired < u32::MAX {
            (before.aired + 1) as u32
        } else {
            before.aired
        }),
        after.have == (if is_there(mon, wished, t, e) && before.have < u32::MAX {
            (before.have + 1) as u32
        } else {
            before.have
        }),
        after.missing_oldest == (if is_missing(mon, wished, t, e) && (match before.missing_oldest {
            Some(known) => e.air_date->0.instant() < known.0.instant(),
            None => true,
        }) {
            Some((e.air_date->0, e.season))
        } else {
            before.missing_oldest
        }),
        after.next_air == (if is_ahead(mon, wished, t, e) && (match before.next_air {
            Some(known) => e.air_date->0.instant() < known.instant(),
            None => true,
        }) {
            Some(e.air_date->0)
        } else {
            before.next_air
        }),
    ensures
        facts_of(done.push(e), mon, wished, t, after),
{
    broadcast use Seq::lemma_filter_push;

    let next = done.push(e);
    let last = done.len() as int;
    assert(forall|j: int| 0 <= j < last ==> #[trigger] next[j] == done[j]);
    assert(next[last] == e);
    match before.missing_oldest {
        Some(known) => {
            let at = choose|at: int| #[trigger]
                oldest_missing_at(done, mon, wished, t, at) && done[at].air_date == Some(known.0)
                    && done[at].season == known.1;
            assert(next[at] == done[at]);
            if is_missing(mon, wished, t, e) && e.air_date->0.instant() < known.0.instant() {
                assert forall|j: int| 0 <= j < last && is_missing(
                    mon,
                    wished,
                    t,
                    #[trigger] next[j],
                ) implies e.air_date->0.instant() < next[j].air_date->0.instant() by {
                    assert(next[j] == done[j]);
                }
                assert(oldest_missing_at(next, mon, wished, t, last));
            } else {
                assert forall|j: int| 0 <= j < next.len() && is_missing(
                    mon,
                    wished,
                    t,
                    #[trigger] next[j],
                ) implies next[at].air_date->0.instant() <= next[j].air_date->0.instant() by {
                    if j < last {
                        assert(next[j] == done[j]);
                    }
                }
                assert forall|j: int| 0 <= j < at && is_missing(
                    mon,
                    wished,
                    t,
                    #[trigger] next[j],
                ) implies next[at].air_date->0.instant() < next[j].air_date->0.instant() by {
                    assert(next[j] == done[j]);
                }
                assert(oldest_missing_at(next, mon, wished, t, at));
            }
        },
        None => {
            assert forall|j: int| 0 <= j < last implies !is_missing(
                mon,
                wished,
                t,
                #[trigger] next[j],
            ) by {
                assert(next[j] == done[j]);
            }
            if is_missing(mon, wished, t, e) {
                assert(oldest_missing_at(next, mon, wished, t, last));
            }
        },
    }
    match before.next_air {
        Some(known) => {
            let at = choose|at: int| #[trigger]
                next_ahead_at(done, mon, wished, t, at) && done[at].air_date == Some(known);
            assert(next[at] == done[at]);
            if is_ahead(mon, wished, t, e) && e.air_date->0.instant() < known.instant() {
                assert forall|j: int| 0 <= j < last && is_ahead(
                    mon,
                    wished,
                    t,
                    #[trigger] next[j],
                ) implies e.air_date->0.instant() < next[j].air_date->0.instant() by {
                    assert(next[j] == done[j]);
                }
                assert(next_ahead_at(next, mon, wished, t, last));
            } else {
                assert forall|j: int| 0 <= j < next.len() && is_ahead(
                    mon,
                    wished,
                    t,
                    #[trigger] next[j],
                ) implies next[at].air_date->0.instant() <= next[j].air_date->0.instant() by {
                    if j < last {
                        assert(next[j] == done[j]);
                    }
                }
                assert forall|j: int| 0 <= j < at && is_ahead(
                    mon,
                    wished,
                    t,
                    #[trigger] next[j],
                ) implies next[at].air_date->0.instant() < next[j].air_date->0.instant() by {
                    assert(next[j] == done[j]);
                }
                assert(next_ahead_at(next, mon, wished, t, at));
            }
        },
        None => {
            assert forall|j: int| 0 <= j < last implies !is_ahead(
                mon,
                wished,
                t,
                #[trigger] next[j],
            ) by {
                assert(next[j] == done[j]);
            }
            if is_ahead(mon, wished, t, e) {
                assert(next_ahead_at(next, mon, wished, t, last));
            }
        },
    }
}

/// The day of an optional point, in the offset it was written in.
pub open spec fn opt_local_day(at: Option<Timestamp>) -> Option<int> {
    match at {
        Some(t) => Some(t.local_day()),
        None => None,
    }
}

/// A release date that still lies ahead.
pub open spec fn still_ahead(at: Option<Timestamp>, now: int) -> Option<Timestamp> {
    match at {
        Some(t) => if t.instant() > now {
            Some(t)
        } else {
            None
        },
        None => None,
    }
}

/// The earlier of a film's two release dates that still lie ahead.
pub open spec fn earliest_future(movie: ArrMovie, now: int) -> Option<Timestamp> {
    match (still_ahead(movie.digital_release, now), still_ahead(movie.physical_release, now)) {
        (Some(d), Some(p)) => if p.instant() < d.instant() {
            Some(p)
        } else {
            Some(d)
        },
        (Some(d), None) => Some(d),
        (None, p) => p,
    }
}

/// The state a wish is in, as the first row that matches says. The rows, in
/// order: what Seerr knows (available, declined, failed), the queue, the
/// episodes, Seerr's own "partly available", a film that is not out, a failed
/// download, a known reason, and what was looked at without a find. Without
/// any look the wish is merely waiting.
pub open spec fn judged(wish: Wish, ev: EvidenceView, now: int) -> WishStateView {
    if wish.media_status == 5 {
        WishStateView::Available
    } else if wish.request_status == 3 {
        WishStateView::Declined
    } else if wish.request_status == 4 {
        WishStateView::NotHandedOver
    } else if ev.queue_item is Some {
        match ev.queue_item->0.state {
            QueueState::ImportStuck => WishStateView::ImportStuck,
            QueueState::Downloading => WishStateView::Downloading {
                percent: ev.queue_item->0.percent,
            },
        }
    } else if ev.series is Some && ev.series->0.aired == 0 {
        WishStateView::NotAired { day: opt_local_day(ev.series->0.next_air) }
    } else if ev.series is Some && ev.series->0.missing_oldest is None {
        WishStateView::PartlyAvailable {
            counts: Some(
                PartCountsView {
                    have: ev.series->0.have,
                    aired: ev.series->0.aired,
                    next: opt_local_day(ev.series->0.next_air),
                },
            ),
        }
    } else if ev.series is None && wish.media_status == 4 {
        WishStateView::PartlyAvailable { counts: None }
    } else if ev.movie is Some && !ev.movie->0.is_available {
        WishStateView::NotReleased { day: opt_local_day(earliest_future(ev.movie->0, now)) }
    } else if ev.last_event == Some(HistoryEvent::DownloadFailed) {
        WishStateView::DownloadFailed
    } else if ev.known_reason is Some {
        WishStateView::Unsuitable(ev.known_reason->0)
    } else if ev.movie is Some || ev.series is Some {
        WishStateView::Searching
    } else {
        WishStateView::Waiting
    }
}

fn day_of(at: Option<Timestamp>) -> (r: Option<Date>)
    ensures
        opt_day(r) == opt_local_day(at),
{
    match at {
        Some(t) => Some(t.date()),
        None => None,
    }
}

fn ahead(at: Option<Timestamp>, now: Timestamp) -> (r: Option<Timestamp>)
    ensures
        r == still_ahead(at, now.instant()),
{
    match at {
        Some(t) => if now.before(&t) {
            Some(t)
        } else {
            None
        },
        None => None,
    }
}

/// The earlier of the two release dates that still lies in the future;
/// `None` if there is none.
pub fn earliest_future_date(movie: &ArrMovie, now: Timestamp) -> (r: Option<Date>)
    ensures
        opt_day(r) == opt_local_day(earliest_future(*movie, now.instant())),
{
    let first = match (ahead(movie.digital_release, now), ahead(movie.physical_release, now)) {
        (Some(d), Some(p)) => if p.before(&d) {
            Some(p)
        } else {
            Some(d)
        },
        (Some(d), None) => Some(d),
        (None, p) => p,
    };
    day_of(first)
}

/// Turns what Seerr and Radarr or Sonarr say about one wish into a single
/// state a person can be told about. Order matters: the first matching row
/// wins.
pub fn classify(wish: &Wish, ev: &Evidence, now: Timestamp) -> (state: WishState)
    ensures
        state@ == judged(*wish, ev@, now.instant()),
{
    if wish.media_status == 5 {
        return WishState::Available;
    }
    // Declined before failed: a declined wish was never handed over, so there
    // is no hand-over that could have failed. A missing `arr_id` is no
    // failure: Seerr fills it in a moment after the request is placed.
    if wish.request_status == 3 {
        return WishState::Declined;
    }
    if wish.request_status == 4 {
        return WishState::NotHandedOver;
    }
    if let Some(item) = ev.queue_item {
        return match item.state {
            QueueState::ImportStuck => WishState::ImportStuck,
            QueueState::Downloading => WishState::Downloading { percent: item.percent },
        };
    }
    // Below the queue rows: something coming down right now says more than
    // "half of it is here".
    if let Some(facts) = ev.series {
        if facts.aired == 0 {
            return WishState::NotAired { date: day_of(facts.next_air) };
        }
        if facts.missing_oldest.is_none() {
            return WishState::PartlyAvailable {
                counts: Some(
                    PartCounts {
                        have: facts.have,
                        aired: facts.aired,
                        next: day_of(facts.next_air),
                    },
                ),
            };
        }
    } else if wish.media_status == 4 {
        return WishState::PartlyAvailable { counts: None };
    }
    if let Some(movie) = ev.movie {
        if !movie.is_available {
            return WishState::NotReleased { date: earliest_future_date(movie, now) };
        }
    }
    if let Some(event) = ev.last_event {
        if event == HistoryEvent::DownloadFailed {
            return WishState::DownloadFailed;
        }
    }
    if let Some(reason) = ev.known_reason {
        return WishState::Unsuitable(reason.clone());
    }
    if ev.movie.is_some() || ev.series.is_some() {
        return WishState::Searching;
    }
    WishState::Waiting
}

/// What is available is available, whatever else is known.
pub proof fn law_available_comes_first(wish: Wish, ev: EvidenceView, now: int)
    requires
        wish.media_status == 5,
    ensures
        judged(wish, ev, now) == WishStateView::Available,
{
}

/// A film is called "not out yet" only where Radarr was asked about it and
/// said so.
pub proof fn law_not_released_needs_a_film(wish: Wish, ev: EvidenceView, now: int)
    ensures
        judged(wish, ev, now) is NotReleased ==> ev.movie is Some && !ev.movie->0.is_available,
{
}

/// "Still looking" is claimed only where somebody looked; without a look, a
/// queue entry, a failed download or a known reason, an open wish waits.
pub proof fn law_searching_needs_a_look(wish: Wish, ev: EvidenceView, now: int)
    ensures
        judged(wish, ev, now) is Searching ==> ev.movie is Some || ev.series is Some,
        (ev.movie is None && ev.series is None && ev.queue_item is None && ev.last_event is None
            && ev.known_reason is None && wish.media_status != 5 && wish.media_status != 4
            && wish.request_status != 3 && wish.request_status != 4) ==> judged(wish, ev, now)
            == WishStateView::Waiting,
{
}

/// A date named to a person lies ahead.
pub proof fn law_a_named_release_lies_ahead(movie: ArrMovie, now: int)
    ensures
        earliest_future(movie, now) matches Some(t) ==> t.instant() > now,
{
}

/// Whether one of a release's rejections contains `pattern`.
pub open spec fn rejected_with(release: ReleaseView, pattern: Seq<char>) -> bool {
    exists|i: int|
        0 <= i < release.rejections.len() && occurs(#[trigger] release.rejections[i], pattern)
}

/// Whether a release belongs to another series.
pub open spec fn foreign(release: ReleaseView) -> bool {
    rejected_with(release, UNKNOWN_SERIES_PATTERN@) || rejected_with(release, ALIAS_PATTERN@)
}

/// Whether a release carries one of the wanted languages, compared without
/// regard to ASCII case.
pub open spec fn carries(release: ReleaseView, wanted: Seq<Seq<char>>) -> bool {
    exists|i: int, j: int|
        #![trigger release.languages[i], wanted[j]]
        0 <= i < release.languages.len() && 0 <= j < wanted.len() && same_ascii_caseless(
            wanted[j],
            release.languages[i],
        )
}

/// Whether a name stands for a language at all: `Unknown` and `Original` do
/// not.
pub open spec fn is_language(name: Seq<char>) -> bool {
    !same_ascii_caseless("Unknown"@, name) && !same_ascii_caseless("Original"@, name)
}

/// How often `name` is in the list.
pub open spec fn count_of(list: Seq<Seq<char>>, name: Seq<char>) -> nat
    decreases list.len(),
{
    if list.len() == 0 {
        0
    } else {
        count_of(list.drop_last(), name) + if list.last() == name {
            1nat
        } else {
            0nat
        }
    }
}

/// Every mention of a language in a search, in order.
pub open spec fn mentions(releases: Seq<ReleaseView>) -> Seq<Seq<char>>
    decreases releases.len(),
{
    if releases.len() == 0 {
        Seq::empty()
    } else {
        mentions(releases.drop_last()) + releases.last().languages.filter(
            |name: Seq<char>| is_language(name),
        )
    }
}

/// Whether the name at `at` is the most frequent one; of several, the one
/// mentioned first.
pub open spec fn leads(list: Seq<Seq<char>>, at: int) -> bool {
    &&& 0 <= at < list.len()
    &&& forall|j: int|
        0 <= j < list.len() ==> count_of(list, #[trigger] list[j]) <= count_of(list, list[at])
    &&& forall|j: int|
        0 <= j < at ==> count_of(list, #[trigger] list[j]) < count_of(list, list[at])
}

/// The most frequent name of a list; of several, the one mentioned first.
pub open spec fn leader(list: Seq<Seq<char>>) -> Seq<char> {
    list[choose|at: int| leads(list, at)]
}

/// The list without every mention of `name`.
pub open spec fn without(list: Seq<Seq<char>>, name: Seq<char>) -> Seq<Seq<char>> {
    list.filter(|other: Seq<char>| other != name)
}

/// The two most frequent names, most frequent first; fewer where there are
/// fewer.
pub open spec fn top_two(list: Seq<Seq<char>>) -> Seq<Seq<char>> {
    if list.len() == 0 {
        Seq::empty()
    } else {
        let rest = without(list, leader(list));
        if rest.len() == 0 {
            seq![leader(list)]
        } else {
            seq![leader(list), leader(rest)]
        }
    }
}

/// The releases that belong to what was searched for.
pub open spec fn own_releases(releases: Seq<ReleaseView>) -> Seq<ReleaseView> {
    releases.filter(|r: ReleaseView| !foreign(r))
}

/// The releases in one of the wanted languages.
pub open spec fn wanted_releases(
    releases: Seq<ReleaseView>,
    wanted: Seq<Seq<char>>,
) -> Seq<ReleaseView> {
    releases.filter(|r: ReleaseView| carries(r, wanted))
}

/// Whether every release is rejected with `pattern`.
pub open spec fn all_rejected_with(releases: Seq<ReleaseView>, pattern: Seq<char>) -> bool {
    forall|i: int| 0 <= i < releases.len() ==> rejected_with(#[trigger] releases[i], pattern)
}

/// Why none of a row of rejected releases was taken.
pub open spec fn common_reason(releases: Seq<ReleaseView>) -> ReasonView {
    if all_rejected_with(releases, TOO_LARGE_PATTERN@) {
        ReasonView::TooLarge
    } else if all_rejected_with(releases, TOO_SMALL_PATTERN@) {
        ReasonView::TooSmall
    } else if all_rejected_with(releases, WRONG_QUALITY_PATTERN@) {
        ReasonView::WrongQuality
    } else {
        ReasonView::Otherwise
    }
}

/// The reason that a search gives. Releases of other series do not count. A
/// release that is not rejected is only pending. Where languages are wanted
/// and no release has one, the reason is the languages there are.
pub open spec fn reason_of(
    releases: Seq<ReleaseView>,
    wanted: Option<Seq<Seq<char>>>,
) -> ReasonView {
    let own = own_releases(releases);
    if own.len() == 0 {
        ReasonView::NothingExists
    } else if exists|i: int| 0 <= i < own.len() && !(#[trigger] own[i]).rejected {
        ReasonView::Otherwise
    } else {
        match wanted {
            Some(languages) => {
                let matching = wanted_releases(own, languages);
                if matching.len() > 0 {
                    common_reason(matching)
                } else if mentions(own).len() == 0 {
                    ReasonView::Otherwise
                } else {
                    ReasonView::OnlyInLanguages(top_two(mentions(own)))
                }
            },
            None => common_reason(own),
        }
    }
}

/// Whether one of the rejections of `release` contains `pattern`.
pub fn has_pattern(release: &Release, pattern: &str) -> (r: bool)
    ensures
        r == rejected_with(release@, pattern@),
{
    let mut i: usize = 0;
    while i < release.rejections.len()
        invariant
            i <= release.rejections@.len(),
            forall|j: int| 0 <= j < i ==> !occurs(#[trigger] release@.rejections[j], pattern@),
        decreases release.rejections@.len() - i,
    {
        assert(release@.rejections[i as int] == release.rejections@[i as int]@);
        if contains(release.rejections[i].as_str(), pattern) {
            return true;
        }
        i += 1;
    }
    false
}

/// Whether `release` belongs to another series.
pub fn is_foreign(release: &Release) -> (r: bool)
    ensures
        r == foreign(release@),
{
    has_pattern(release, UNKNOWN_SERIES_PATTERN) || has_pattern(release, ALIAS_PATTERN)
}

/// Whether `release` carries any of the `wanted` languages.
pub fn carries_any(release: &Release, wanted: &Vec<String>) -> (r: bool)
    ensures
        r == carries(release@, views(wanted@)),
{
    let mut i: usize = 0;
    while i < release.languages.len()
        invariant
            i <= release.languages@.len(),
            forall|k: int, j: int|
                #![trigger release@.languages[k], views(wanted@)[j]]
                0 <= k < i && 0 <= j < wanted@.len() ==> !same_ascii_caseless(
                    views(wanted@)[j],
                    release@.languages[k],
                ),
        decreases release.languages@.len() - i,
    {
        let mut j: usize = 0;
        assert(release@.languages[i as int] == release.languages@[i as int]@);
        while j < wanted.len()
            invariant
                i < release.languages@.len(),
                j <= wanted@.len(),
                release@.languages[i as int] == release.languages@[i as int]@,
                forall|k: int|
                    0 <= k < j ==> !same_ascii_caseless(
                        #[trigger] views(wanted@)[k],
                        release@.languages[i as int],
                    ),
            decreases wanted@.len() - j,
        {
            assert(views(wanted@)[j as int] == wanted@[j as int]@);
            if eq_ignore_ascii_case(wanted[j].as_str(), release.languages[i].as_str()) {
                return true;
            }
            j += 1;
        }
        i += 1;
    }
    false
}

proof fn lemma_count_bound(list: Seq<Seq<char>>, name: Seq<char>)
    ensures
        count_of(list, name) <= list.len(),
    decreases list.len(),
{
    if list.len() > 0 {
        lemma_count_bound(list.drop_last(), name);
    }
}

/// How often `name` is in the list.
pub fn count_in(list: &Vec<String>, name: &str) -> (n: usize)
    ensures
        n == count_of(views(list@), name@),
{
    let mut n: usize = 0;
    let mut i: usize = 0;
    assert(views(list@).take(0) =~= Seq::empty());
    while i < list.len()
        invariant
            i <= list@.len(),
            n <= i,
            n == count_of(views(list@).take(i as int), name@),
        decreases list@.len() - i,
    {
        proof {
            let next = views(list@).take(i + 1);
            assert(next.drop_last() =~= views(list@).take(i as int));
            assert(next.last() == list@[i as int]@);
        }
        if same(list[i].as_str(), name) {
            n += 1;
        }
        i += 1;
    }
    assert(views(list@).take(i as int) =~= views(list@));
    n
}

proof fn lemma_leader(list: Seq<Seq<char>>, at: int)
    requires
        leads(list, at),
    ensures
        leader(list) == list[at],
{
    let other = choose|at: int| leads(list, at);
    assert(leads(list, other));
    if other < at {
        assert(count_of(list, list[other]) < count_of(list, list[at]));
    }
    if at < other {
        assert(count_of(list, list[at]) < count_of(list, list[other]));
    }
}

/// The position of the most frequent name.
fn leader_of(list: &Vec<String>) -> (at: usize)
    requires
        list@.len() > 0,
    ensures
        at < list@.len(),
        list@[at as int]@ == leader(views(list@)),
{
    let ghost names = views(list@);
    let mut at: usize = 0;
    let mut best: usize = count_in(list, list[0].as_str());
    let mut i: usize = 1;
    assert(names[0] == list@[0]@);
    while i < list.len()
        invariant
            names == views(list@),
            1 <= i <= list@.len(),
            at < i,
            best == count_of(names, names[at as int]),
            forall|j: int| 0 <= j < i ==> count_of(names, #[trigger] names[j]) <= best,
            forall|j: int| 0 <= j < at ==> count_of(names, #[trigger] names[j]) < best,
        decreases list@.len() - i,
    {
        assert(names[i as int] == list@[i as int]@);
        let n: usize = count_in(list, list[i].as_str());
        if n > best {
            best = n;
            at = i;
        }
        i += 1;
    }
    proof {
        assert(leads(names, at as int));
        lemma_leader(names, at as int);
    }
    at
}

/// The languages actually offered, most frequent first, at most two of them.
/// `"Portuguese (Brazil)"` is counted separately from `"Portuguese"`: that is
/// how Radarr sends it.
pub fn languages_by_frequency(releases: &Vec<Release>) -> (r: Vec<String>)
    ensures
        views(r@) == top_two(mentions(release_views(releases@))),
{
    let list = mentioned(releases);
    let mut r: Vec<String> = Vec::new();
    if list.len() == 0 {
        assert(views(r@) =~= Seq::<Seq<char>>::empty());
        return r;
    }
    let first: usize = leader_of(&list);
    let rest = others(&list, list[first].as_str());
    r.push(list[first].clone());
    if rest.len() == 0 {
        assert(views(r@) =~= seq![leader(views(list@))]);
        return r;
    }
    let second: usize = leader_of(&rest);
    r.push(rest[second].clone());
    assert(views(r@) =~= seq![leader(views(list@)), leader(views(rest@))]);
    r
}

/// Every mention of a language, in order.
fn mentioned(releases: &Vec<Release>) -> (list: Vec<String>)
    ensures
        views(list@) == mentions(release_views(releases@)),
{
    let mut list: Vec<String> = Vec::new();
    let ghost all = release_views(releases@);
    assert(all.take(0) =~= Seq::empty());
    assert(views(list@) =~= Seq::<Seq<char>>::empty());
    let mut i: usize = 0;
    while i < releases.len()
        invariant
            i <= releases@.len(),
            all == release_views(releases@),
            views(list@) == mentions(all.take(i as int)),
        decreases releases@.len() - i,
    {
        let languages = &releases[i].languages;
        let ghost before = views(list@);
        let ghost names = views(languages@);
        let mut j: usize = 0;
        proof {
            reveal(Seq::filter);
            assert(names.take(0).filter(|name: Seq<char>| is_language(name)) =~= Seq::empty());
            assert(before + Seq::<Seq<char>>::empty() =~= before);
        }
        while j < languages.len()
            invariant
                j <= languages@.len(),
                names == views(languages@),
                views(list@) == before + names.take(j as int).filter(
                    |name: Seq<char>| is_language(name),
                ),
            decreases languages@.len() - j,
        {
            let ghost keep = |name: Seq<char>| is_language(name);
            let ghost done = names.take(j as int);
            proof {
                assert(names.take(j + 1) =~= done.push(names[j as int]));
                done.lemma_filter_push(names[j as int], keep);
                assert(names[j as int] == languages@[j as int]@);
            }
            if !eq_ignore_ascii_case("Unknown", languages[j].as_str()) && !eq_ignore_ascii_case(
                "Original",
                languages[j].as_str(),
            ) {
                let name = languages[j].clone();
                proof {
                    assert(views(list@.push(name)) =~= views(list@).push(name@));
                    assert(before + done.filter(keep).push(name@) =~= (before + done.filter(
                        keep,
                    )).push(name@));
                }
                list.push(name);
            }
            j += 1;
        }
        proof {
            let next = all.take(i + 1);
            assert(next.drop_last() =~= all.take(i as int));
            assert(next.last() == releases@[i as int]@);
            assert(names.take(j as int) =~= names);
        }
        i += 1;
    }
    assert(all.take(i as int) =~= all);
    list
}

/// The list without every mention of `name`.
fn others(list: &Vec<String>, name: &str) -> (r: Vec<String>)
    ensures
        views(r@) == without(views(list@), name@),
{
    let mut r: Vec<String> = Vec::new();
    let ghost names = views(list@);
    let ghost keep = |other: Seq<char>| other != name@;
    proof {
        reveal(Seq::filter);
        assert(names.take(0).filter(keep) =~= Seq::empty());
        assert(views(r@) =~= Seq::<Seq<char>>::empty());
    }
    let mut i: usize = 0;
    while i < list.len()
        invariant
            i <= list@.len(),
            names == views(list@),
            keep == (|other: Seq<char>| other != name@),
            views(r@) == names.take(i as int).filter(keep),
        decreases list@.len() - i,
    {
        proof {
            assert(names.take(i + 1) =~= names.take(i as int).push(names[i as int]));
            names.take(i as int).lemma_filter_push(names[i as int], keep);
            assert(names[i as int] == list@[i as int]@);
        }
        if !same(list[i].as_str(), name) {
            let copy = list[i].clone();
            assert(views(r@.push(copy)) =~= views(r@).push(copy@));
            r.push(copy);
        }
        i += 1;
    }
    assert(names.take(i as int) =~= names);
    r
}

fn clone_release(release: &Release) -> (r: Release)
    ensures
        r@ == release@,
{
    Release {
        rejected: release.rejected,
        rejections: crate::model::clone_texts(&release.rejections),
        languages: crate::model::clone_texts(&release.languages),
    }
}

fn keep_own(releases: &[Release]) -> (own: Vec<Release>)
    ensures
        release_views(own@) == own_releases(release_views(releases@)),
{
    let mut own: Vec<Release> = Vec::new();
    let ghost all = release_views(releases@);
    let ghost keep = |r: ReleaseView| !foreign(r);
    proof {
        reveal(Seq::filter);
        assert(all.take(0).filter(keep) =~= Seq::empty());
        assert(release_views(own@) =~= Seq::empty());
    }
    let mut i: usize = 0;
    while i < releases.len()
        invariant
            i <= releases@.len(),
            all == release_views(releases@),
            keep == (|r: ReleaseView| !foreign(r)),
            release_views(own@) == all.take(i as int).filter(keep),
        decreases releases@.len() - i,
    {
        proof {
            assert(all.take(i + 1) =~= all.take(i as int).push(all[i as int]));
            all.take(i as int).lemma_filter_push(all[i as int], keep);
            assert(all[i as int] == releases@[i as int]@);
        }
        if !is_foreign(&releases[i]) {
            let copy = clone_release(&releases[i]);
            assert(release_views(own@.push(copy)) =~= release_views(own@).push(copy@));
            own.push(copy);
        }
        i += 1;
    }
    assert(all.take(i as int) =~= all);
    own
}

fn keep_wanted(releases: &Vec<Release>, wanted: &Vec<String>) -> (r: Vec<Release>)
    ensures
        release_views(r@) == wanted_releases(release_views(releases@), views(wanted@)),
{
    let mut r: Vec<Release> = Vec::new();
    let ghost all = release_views(releases@);
    let ghost languages = views(wanted@);
    let ghost keep = |r: ReleaseView| carries(r, languages);
    proof {
        reveal(Seq::filter);
        assert(all.take(0).filter(keep) =~= Seq::empty());
        assert(release_views(r@) =~= Seq::empty());
    }
    let mut i: usize = 0;
    while i < releases.len()
        invariant
            i <= releases@.len(),
            all == release_views(releases@),
            languages == views(wanted@),
            keep == (|r: ReleaseView| carries(r, languages)),
            release_views(r@) == all.take(i as int).filter(keep),
        decreases releases@.len() - i,
    {
        proof {
            assert(all.take(i + 1) =~= all.take(i as int).push(all[i as int]));
            all.take(i as int).lemma_filter_push(all[i as int], keep);
            assert(all[i as int] == releases@[i as int]@);
        }
        if carries_any(&releases[i], wanted) {
            let copy = clone_release(&releases[i]);
            assert(release_views(r@.push(copy)) =~= release_views(r@).push(copy@));
            r.push(copy);
        }
        i += 1;
    }
    assert(all.take(i as int) =~= all);
    r
}

fn all_have_pattern(releases: &Vec<Release>, pattern: &str) -> (r: bool)
    ensures
        r == all_rejected_with(release_views(releases@), pattern@),
{
    let mut i: usize = 0;
    while i < releases.len()
        invariant
            i <= releases@.len(),
            forall|j: int|
                0 <= j < i ==> rejected_with(#[trigger] release_views(releases@)[j], pattern@),
        decreases releases@.len() - i,
    {
        assert(release_views(releases@)[i as int] == releases@[i as int]@);
        if !has_pattern(&releases[i], pattern) {
            return false;
        }
        i += 1;
    }
    true
}

fn common_reason_of(releases: &Vec<Release>) -> (r: Reason)
    ensures
        r@ == common_reason(release_views(releases@)),
{
    if all_have_pattern(releases, TOO_LARGE_PATTERN) {
        Reason::TooLarge
    } else if all_have_pattern(releases, TOO_SMALL_PATTERN) {
        Reason::TooSmall
    } else if all_have_pattern(releases, WRONG_QUALITY_PATTERN) {
        Reason::WrongQuality
    } else {
        Reason::Otherwise
    }
}

/// The view of an optional list of texts.
pub open spec fn opt_views(list: Option<&Vec<String>>) -> Option<Seq<Seq<char>>> {
    match list {
        Some(v) => Some(views(v@)),
        None => None,
    }
}

/// Turns one interactive search into a single reason class, using only the
/// structured fields: the free text in `rejections` never becomes a class by
/// itself, since it carries the operator's own custom-format names.
pub fn reason_from(releases: &[Release], wanted_languages: Option<&Vec<String>>) -> (r: Reason)
    ensures
        r@ == reason_of(release_views(releases@), opt_views(wanted_languages)),
{
    // Other series' releases first: a search that returned nothing but
    // strangers found nothing.
    let own = keep_own(releases);
    if own.len() == 0 {
        return Reason::NothingExists;
    }
    let ghost all = release_views(own@);
    let mut i: usize = 0;
    while i < own.len()
        invariant
            i <= own@.len(),
            all == release_views(own@),
            all == own_releases(release_views(releases@)),
            own@.len() > 0,
            forall|j: int| 0 <= j < i ==> (#[trigger] all[j]).rejected,
        decreases own@.len() - i,
    {
        assert(all[i as int] == own@[i as int]@);
        if !own[i].rejected {
            // Something acceptable already exists; the fetch is only pending.
            return Reason::Otherwise;
        }
        i += 1;
    }
    match wanted_languages {
        Some(wanted) => {
            let matching = keep_wanted(&own, wanted);
            if matching.len() > 0 {
                return common_reason_of(&matching);
            }
            let offered = languages_by_frequency(&own);
            proof {
                lemma_top_two(mentions(all));
            }
            // Nothing but `Unknown` and `Original` on offer: that is never an
            // empty list in a sentence.
            if offered.len() == 0 {
                Reason::Otherwise
            } else {
                Reason::OnlyInLanguages(offered)
            }
        },
        None => common_reason_of(&own),
    }
}

/// Whether the name at `at` leads among the first `n`.
spec fn leads_among(list: Seq<Seq<char>>, n: int, at: int) -> bool {
    &&& 0 <= at < n
    &&& forall|j: int|
        0 <= j < n ==> count_of(list, #[trigger] list[j]) <= count_of(list, list[at])
    &&& forall|j: int|
        0 <= j < at ==> count_of(list, #[trigger] list[j]) < count_of(list, list[at])
}

proof fn lemma_leader_prefix(list: Seq<Seq<char>>, n: int) -> (at: int)
    requires
        1 <= n <= list.len(),
    ensures
        leads_among(list, n, at),
    decreases n,
{
    if n == 1 {
        0
    } else {
        let at = lemma_leader_prefix(list, n - 1);
        if count_of(list, list[n - 1]) > count_of(list, list[at]) {
            n - 1
        } else {
            at
        }
    }
}

pub(crate) proof fn lemma_leader_exists(list: Seq<Seq<char>>) -> (at: int)
    requires
        list.len() > 0,
    ensures
        leads(list, at),
        leader(list) == list[at],
{
    let at = lemma_leader_prefix(list, list.len() as int);
    assert(leads(list, at));
    lemma_leader(list, at);
    at
}

proof fn lemma_without(list: Seq<Seq<char>>, name: Seq<char>)
    ensures
        forall|i: int|
            0 <= i < without(list, name).len() ==> #[trigger] without(list, name)[i] != name
                && list.contains(without(list, name)[i]),
    decreases list.len(),
{
    reveal(Seq::filter);
    if list.len() > 0 {
        let before = list.drop_last();
        lemma_without(before, name);
        assert forall|i: int| 0 <= i < without(list, name).len() implies #[trigger] without(
            list,
            name,
        )[i] != name && list.contains(without(list, name)[i]) by {
            let kept = without(before, name);
            if i < kept.len() {
                assert(without(list, name)[i] == kept[i]);
                let at = choose|at: int| 0 <= at < before.len() && before[at] == kept[i];
                assert(list[at] == kept[i]);
            } else {
                assert(without(list, name)[i] == list.last());
                assert(list[list.len() - 1] == list.last());
            }
        }
    }
}

pub(crate) proof fn lemma_top_two(list: Seq<Seq<char>>)
    ensures
        top_two(list).len() <= 2,
        top_two(list).len() == 0 <==> list.len() == 0,
        forall|i: int| 0 <= i < top_two(list).len() ==> list.contains(#[trigger] top_two(list)[i]),
        top_two(list).len() == 2 ==> top_two(list)[0] != top_two(list)[1],
{
    if list.len() > 0 {
        let at = lemma_leader_exists(list);
        assert(list.contains(leader(list)));
        let rest = without(list, leader(list));
        lemma_without(list, leader(list));
        if rest.len() > 0 {
            let second = lemma_leader_exists(rest);
            assert(rest[second] != leader(list));
        }
    }
}

pub(crate) proof fn lemma_mentions_are_languages(releases: Seq<ReleaseView>)
    ensures
        forall|i: int|
            0 <= i < mentions(releases).len() ==> is_language(#[trigger] mentions(releases)[i]),
    decreases releases.len(),
{
    if releases.len() > 0 {
        lemma_mentions_are_languages(releases.drop_last());
        let keep = |name: Seq<char>| is_language(name);
        let before = mentions(releases.drop_last());
        let added = releases.last().languages.filter(keep);
        assert forall|i: int| 0 <= i < mentions(releases).len() implies is_language(
            #[trigger] mentions(releases)[i],
        ) by {
            if i < before.len() {
                assert(mentions(releases)[i] == before[i]);
            } else {
                releases.last().languages.lemma_filter_pred(keep, i - before.len());
            }
        }
    }
}

/// A language reason names one or two languages, no language twice, and never
/// `Unknown` or `Original`.
pub proof fn law_a_language_reason_names_languages(
    releases: Seq<ReleaseView>,
    wanted: Option<Seq<Seq<char>>>,
)
    ensures
        reason_of(releases, wanted) matches ReasonView::OnlyInLanguages(names) ==> {
            &&& 1 <= names.len() <= 2
            &&& names.len() == 2 ==> names[0] != names[1]
            &&& forall|i: int| 0 <= i < names.len() ==> is_language(#[trigger] names[i])
        },
{
    let own = own_releases(releases);
    let list = mentions(own);
    lemma_top_two(list);
    lemma_mentions_are_languages(own);
    assert forall|i: int| 0 <= i < top_two(list).len() implies is_language(
        #[trigger] top_two(list)[i],
    ) by {
        assert(list.contains(top_two(list)[i]));
    }
}

/// Without a table of wanted languages a search never blames a language.
pub proof fn law_no_language_reason_without_a_table(releases: Seq<ReleaseView>)
    ensures
        !(reason_of(releases, None) is OnlyInLanguages),
{
}

/// A search that turned up nothing but releases of other series found
/// nothing.
pub proof fn law_strangers_are_nothing(
    releases: Seq<ReleaseView>,
    wanted: Option<Seq<Seq<char>>>,
)
    requires
        forall|i: int| 0 <= i < releases.len() ==> foreign(#[trigger] releases[i]),
    ensures
        reason_of(releases, wanted) == ReasonView::NothingExists,
{
    let keep = |r: ReleaseView| !foreign(r);
    if own_releases(releases).len() > 0 {
        releases.lemma_filter_pred(keep, 0);
        let r = own_releases(releases)[0];
        assert(own_releases(releases).contains(r));
        releases.lemma_filter_contains_rev(keep, r);
        let at = choose|at: int| 0 <= at < releases.len() && releases[at] == r;
        assert(foreign(releases[at]));
    }
}

} // verus!
