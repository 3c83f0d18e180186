//! What holds of every judgement, said of what Seerr, Radarr and Sonarr list.

use crate::arr::{ArrEpisode, ArrMovie, HistoryEvent, QueueState};
use crate::insight::{
    EvidenceView, SeriesFacts, earliest_future, facts_of, has_aired, is_ahead,
    is_missing, is_there, judged, next_ahead_at, oldest_missing_at,
};
use crate::model::{Wish, WishStateView};
use vstd::prelude::*;

verus! {

/// The date named for a film that is not out is the first that lies ahead: it
/// is one of the film's two release dates, and no release date that lies
/// ahead is earlier. Without one that lies ahead none is named.
pub proof fn law_the_first_release_ahead_is_named(movie: ArrMovie, now: int)
    ensures
        match earliest_future(movie, now) {
            Some(named) => {
                &&& movie.digital_release == Some(named) || movie.physical_release == Some(named)
                &&& named.instant() > now
                &&& movie.digital_release matches Some(d) ==> d.instant() > now ==> named.instant()
                    <= d.instant()
                &&& movie.physical_release matches Some(p) ==> p.instant() > now
                    ==> named.instant() <= p.instant()
            },
            None => {
                &&& movie.digital_release matches Some(d) ==> d.instant() <= now
                &&& movie.physical_release matches Some(p) ==> p.instant() <= now
            },
        },
{
}

/// Whoever asks about a film that is not out hears the day of its first
/// release that lies ahead, if there is one.
pub proof fn law_an_unreleased_film_has_its_day(
    wish: Wish,
    ev: EvidenceView,
    movie: ArrMovie,
    now: int,
)
    requires
        ev.movie == Some(movie),
        !movie.is_available,
        ev.series is None,
        ev.queue_item is None,
        wish.media_status != 4 && wish.media_status != 5,
        wish.request_status != 3 && wish.request_status != 4,
    ensures
        judged(wish, ev, now) matches WishStateView::NotReleased { day } && match day {
            Some(day) => {
                ||| movie.digital_release matches Some(d) && d.local_day() == day && d.instant()
                    > now && (movie.physical_release matches Some(p) ==> p.instant() <= now
                    || d.instant() <= p.instant())
                ||| movie.physical_release matches Some(p) && p.local_day() == day && p.instant()
                    > now && (movie.digital_release matches Some(d) ==> d.instant() <= now
                    || p.instant() <= d.instant())
            },
            None => (movie.digital_release matches Some(d) ==> d.instant() <= now) && (
            movie.physical_release matches Some(p) ==> p.instant() <= now),
        },
{
}

/// Whether an episode ought to be there: it is monitored and so is its
/// season, the season was wished for, or none was named, and it has aired.
pub open spec fn ought_to_be_there(
    monitored: Seq<u16>,
    wished: Seq<u16>,
    now: int,
    e: ArrEpisode,
) -> bool {
    &&& e.monitored
    &&& monitored.contains(e.season)
    &&& wished.len() == 0 || wished.contains(e.season)
    &&& e.air_date matches Some(air) && air.instant() <= now
}

/// Whether an episode is yet to come, of those that count.
pub open spec fn is_yet_to_come(
    monitored: Seq<u16>,
    wished: Seq<u16>,
    now: int,
    e: ArrEpisode,
) -> bool {
    &&& e.monitored
    &&& monitored.contains(e.season)
    &&& wished.len() == 0 || wished.contains(e.season)
    &&& e.air_date matches Some(air) && now < air.instant()
}

/// The oldest missing episode is one that Sonarr lists, that ought to be
/// there and is not, and none such aired before it. Where no episode is
/// named, none is missing.
pub proof fn law_the_oldest_missing_episode(
    episodes: Seq<ArrEpisode>,
    monitored: Seq<u16>,
    wished: Seq<u16>,
    now: int,
    facts: SeriesFacts,
)
    requires
        facts_of(episodes, monitored, wished, now, facts),
    ensures
        match facts.missing_oldest {
            Some((air, season)) => {
                &&& exists|i: int|
                    #![trigger episodes[i]]
                    0 <= i < episodes.len() && ought_to_be_there(
                        monitored,
                        wished,
                        now,
                        episodes[i],
                    ) && !episodes[i].has_file && episodes[i].air_date == Some(air)
                        && episodes[i].season == season && forall|j: int|
                        0 <= j < i && ought_to_be_there(
                            monitored,
                            wished,
                            now,
                            #[trigger] episodes[j],
                        ) && !episodes[j].has_file ==> air.instant()
                            < episodes[j].air_date->0.instant()
                &&& forall|j: int|
                    0 <= j < episodes.len() && ought_to_be_there(
                        monitored,
                        wished,
                        now,
                        #[trigger] episodes[j],
                    ) && !episodes[j].has_file ==> air.instant()
                        <= episodes[j].air_date->0.instant()
            },
            None => forall|j: int|
                0 <= j < episodes.len() && ought_to_be_there(
                    monitored,
                    wished,
                    now,
                    #[trigger] episodes[j],
                ) ==> episodes[j].has_file,
        },
{
    if let Some((air, season)) = facts.missing_oldest {
        let at = choose|at: int| #[trigger]
            oldest_missing_at(episodes, monitored, wished, now, at) && episodes[at].air_date
                == Some(air) && episodes[at].season == season;
        assert(ought_to_be_there(monitored, wished, now, episodes[at]));
        assert forall|j: int|
            0 <= j < episodes.len() && ought_to_be_there(
                monitored,
                wished,
                now,
                #[trigger] episodes[j],
            ) && !episodes[j].has_file implies air.instant()
            <= episodes[j].air_date->0.instant() by {
            assert(is_missing(monitored, wished, now, episodes[j]));
        }
        assert forall|j: int|
            0 <= j < at && ought_to_be_there(
                monitored,
                wished,
                now,
                #[trigger] episodes[j],
            ) && !episodes[j].has_file implies air.instant()
            < episodes[j].air_date->0.instant() by {
            assert(is_missing(monitored, wished, now, episodes[j]));
        }
    } else {
        assert forall|j: int|
            0 <= j < episodes.len() && ought_to_be_there(
                monitored,
                wished,
                now,
                #[trigger] episodes[j],
            ) implies episodes[j].has_file by {
            assert(!is_missing(monitored, wished, now, episodes[j]));
        }
    }
}

/// The date named for a series is that of the first of its episodes that is
/// yet to come.
pub proof fn law_the_next_episode(
    episodes: Seq<ArrEpisode>,
    monitored: Seq<u16>,
    wished: Seq<u16>,
    now: int,
    facts: SeriesFacts,
)
    requires
        facts_of(episodes, monitored, wished, now, facts),
    ensures
        match facts.next_air {
            Some(air) => {
                &&& exists|i: int|
                    #![trigger episodes[i]]
                    0 <= i < episodes.len() && is_yet_to_come(monitored, wished, now, episodes[i])
                        && episodes[i].air_date == Some(air)
                &&& forall|j: int|
                    0 <= j < episodes.len() && is_yet_to_come(
                        monitored,
                        wished,
                        now,
                        #[trigger] episodes[j],
                    ) ==> air.instant() <= episodes[j].air_date->0.instant()
            },
            None => forall|j: int|
                0 <= j < episodes.len() ==> !is_yet_to_come(
                    monitored,
                    wished,
                    now,
                    #[trigger] episodes[j],
                ),
        },
{
    if let Some(air) = facts.next_air {
        let at = choose|at: int| #[trigger]
            next_ahead_at(episodes, monitored, wished, now, at) && episodes[at].air_date == Some(
                air,
            );
        assert(is_yet_to_come(monitored, wished, now, episodes[at]));
        assert forall|j: int|
            0 <= j < episodes.len() && is_yet_to_come(
                monitored,
                wished,
                now,
                #[trigger] episodes[j],
            ) implies air.instant() <= episodes[j].air_date->0.instant() by {
            assert(is_ahead(monitored, wished, now, episodes[j]));
        }
    } else {
        assert forall|j: int| 0 <= j < episodes.len() implies !is_yet_to_come(
            monitored,
            wished,
            now,
            #[trigger] episodes[j],
        ) by {
            assert(!is_ahead(monitored, wished, now, episodes[j]));
        }
    }
}

/// The counts go up by one for each episode that ought to be there and, of
/// those, for each that is on file, as far as they go, and by none for any
/// other. Of no episodes they are zero.
pub proof fn law_every_episode_is_counted(
    episodes: Seq<ArrEpisode>,
    e: ArrEpisode,
    monitored: Seq<u16>,
    wished: Seq<u16>,
    now: int,
    before: SeriesFacts,
    after: SeriesFacts,
)
    requires
        facts_of(episodes, monitored, wished, now, before),
        facts_of(episodes.push(e), monitored, wished, now, after),
    ensures
        after.aired as int == if ought_to_be_there(monitored, wished, now, e) && before.aired
            < u32::MAX {
            before.aired + 1
        } else {
            before.aired as int
        },
        after.have as int == if ought_to_be_there(monitored, wished, now, e) && e.has_file
            && before.have < u32::MAX {
            before.have + 1
        } else {
            before.have as int
        },
        episodes.len() == 0 ==> before.aired == 0 && before.have == 0,
{
    let aired = |x: ArrEpisode| has_aired(monitored, wished, now, x);
    let there = |x: ArrEpisode| is_there(monitored, wished, now, x);
    episodes.lemma_filter_push(e, aired);
    episodes.lemma_filter_push(e, there);
    assert(has_aired(monitored, wished, now, e) == ought_to_be_there(monitored, wished, now, e));
    if episodes.len() == 0 {
        reveal(Seq::filter);
        assert(episodes.filter(aired).len() == 0);
        assert(episodes.filter(there).len() == 0);
    }
}

/// What Seerr says for certain comes before everything else: what is there is
/// there, what was declined was declined, and what could not be handed over
/// could not.
pub proof fn law_seerr_has_the_first_word(wish: Wish, ev: EvidenceView, now: int)
    ensures
        wish.media_status == 5 <==> judged(wish, ev, now) == WishStateView::Available,
        wish.media_status != 5 ==> (wish.request_status == 3 <==> judged(wish, ev, now)
            == WishStateView::Declined),
        wish.media_status != 5 && wish.request_status != 3 ==> (wish.request_status == 4
            <==> judged(wish, ev, now) == WishStateView::NotHandedOver),
{
}

/// Whether nothing that Seerr says settles how a wish stands.
pub open spec fn is_open(wish: Wish) -> bool {
    wish.media_status != 5 && wish.request_status != 3 && wish.request_status != 4
}

/// What is in the queue is downloading, with the queue's own percentage, or
/// stuck on its last step, and nothing else is either.
pub proof fn law_the_queue_speaks_next(wish: Wish, ev: EvidenceView, now: int)
    requires
        is_open(wish),
    ensures
        match ev.queue_item {
            Some(item) => judged(wish, ev, now) == (match item.state {
                QueueState::Downloading => WishStateView::Downloading { percent: item.percent },
                QueueState::ImportStuck => WishStateView::ImportStuck,
            }),
            None => !(judged(wish, ev, now) is Downloading) && !(judged(wish, ev, now)
                is ImportStuck),
        },
{
}

/// A series of which nothing has aired is not aired; one of which nothing
/// that aired is missing is partly there, with its counts; one with a missing
/// episode is neither. The day named is that of the next episode.
pub proof fn law_the_episodes_speak(wish: Wish, ev: EvidenceView, facts: SeriesFacts, now: int)
    requires
        is_open(wish),
        ev.queue_item is None,
        ev.series == Some(facts),
    ensures
        facts.aired == 0 ==> (judged(wish, ev, now) matches WishStateView::NotAired { day } && (
        match day {
            Some(day) => facts.next_air matches Some(air) && air.local_day() == day,
            None => facts.next_air is None,
        })),
        facts.aired > 0 && facts.missing_oldest is None ==> (judged(wish, ev, now)
            matches WishStateView::PartlyAvailable { counts: Some(c) } && c.have == facts.have
            && c.aired == facts.aired && (match c.next {
            Some(day) => facts.next_air matches Some(air) && air.local_day() == day,
            None => facts.next_air is None,
        })),
        facts.aired > 0 && facts.missing_oldest is Some ==> !(judged(wish, ev, now) is NotAired)
            && !(judged(wish, ev, now) is PartlyAvailable),
{
}

/// Without a look at the episodes only Seerr's own word makes a wish partly
/// available, and then without counts.
pub proof fn law_partly_available_without_episodes(wish: Wish, ev: EvidenceView, now: int)
    requires
        is_open(wish),
        ev.queue_item is None,
        ev.series is None,
    ensures
        wish.media_status == 4 ==> judged(wish, ev, now) == (WishStateView::PartlyAvailable {
            counts: None,
        }),
        wish.media_status != 4 ==> !(judged(wish, ev, now) is PartlyAvailable),
        !(judged(wish, ev, now) is NotAired),
{
}

/// Of a wish that is out and missing, a failed download is said first, a
/// known reason next, and that it is being looked for last. Without a look
/// neither Radarr nor Sonarr is quoted: the wish waits.
pub proof fn law_what_is_said_of_a_missing_title(wish: Wish, ev: EvidenceView, now: int)
    requires
        is_open(wish),
        ev.queue_item is None,
        ev.series is None ==> wish.media_status != 4,
        ev.series matches Some(facts) ==> facts.aired > 0 && facts.missing_oldest is Some,
        ev.movie matches Some(movie) ==> movie.is_available,
    ensures
        judged(wish, ev, now) is DownloadFailed <==> ev.last_event == Some(
            HistoryEvent::DownloadFailed,
        ),
        ev.last_event != Some(HistoryEvent::DownloadFailed) ==> {
            &&& ev.known_reason matches Some(reason) ==> judged(wish, ev, now)
                == WishStateView::Unsuitable(reason)
            &&& ev.known_reason is None && (ev.movie is Some || ev.series is Some) ==> judged(
                wish,
                ev,
                now,
            ) == WishStateView::Searching
            &&& ev.known_reason is None && ev.movie is None && ev.series is None ==> judged(
                wish,
                ev,
                now,
            ) == WishStateView::Waiting
        },
{
}

} // verus!
