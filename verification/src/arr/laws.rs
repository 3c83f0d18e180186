//! How the answers of Radarr and Sonarr are read, said of what they hold.

use crate::arr::{
    ArrEpisode, HistoryEvent, QueueRecordView, QueueState, date_of, episode_of, event_named,
    happened, happened_at, last_event_of, monitored_of, movie_of, newest, record_of, records_of,
    season_entry, series_of,
};
use crate::json::{
    JsonView, array_of, bool_of, elements_of, field_of, i64_of, number_text_of, text_of, u64_of,
};
use crate::model::MediaKind;
use vstd::prelude::*;

verus! {

/// A film is out, and is there, only where Radarr says so in so many words,
/// and its two dates are those of the two releases.
pub proof fn law_a_film_is_what_radarr_says(body: JsonView)
    ensures
        ({
            let movie = movie_of(body);
            &&& movie.is_available <==> field_of(Some(body), "isAvailable"@) == Some(
                JsonView::Bool(true),
            )
            &&& movie.has_file <==> field_of(Some(body), "hasFile"@) == Some(JsonView::Bool(true))
            &&& movie.digital_release == date_of(field_of(Some(body), "digitalRelease"@))
            &&& movie.physical_release == date_of(field_of(Some(body), "physicalRelease"@))
        }),
{
}

/// An import is stuck exactly where it is called blocked. Everything else,
/// and nothing at all, is a download on its way.
pub proof fn law_only_a_blocked_import_is_stuck(record: JsonView, kind: MediaKind, key: Seq<char>)
    requires
        key == if kind == MediaKind::Movie {
            "movieId"@
        } else {
            "seriesId"@
        },
    ensures
        record_of(record, key) is Some <==> i64_of(field_of(Some(record), key)) is Some,
        record_of(record, key) matches Some(entry) ==> {
            &&& i64_of(field_of(Some(record), key)) == Some(entry.arr_id)
            &&& entry.state == QueueState::ImportStuck <==> text_of(
                field_of(Some(record), "trackedDownloadState"@),
            ) == Some("importBlocked"@)
            &&& entry.size == number_text_of(field_of(Some(record), "size"@))
            &&& entry.left == number_text_of(field_of(Some(record), "sizeleft"@))
        },
{
}

/// Radarr's queue is read by the number of the film, and Sonarr's by the
/// number of the series: whatever is read was an entry of the list.
pub proof fn law_a_queue_is_read_by_its_kind(body: JsonView, kind: MediaKind, entry: QueueRecordView)
    requires
        records_of(body, kind).contains(entry),
    ensures
        exists|i: int| #![trigger elements_of(field_of(Some(body), "records"@))[i]]
            0 <= i < elements_of(field_of(Some(body), "records"@)).len() && i64_of(
                field_of(
                    Some(elements_of(field_of(Some(body), "records"@))[i]),
                    if kind == MediaKind::Movie {
                        "movieId"@
                    } else {
                        "seriesId"@
                    },
                ),
            ) == Some(entry.arr_id),
{
    let list = elements_of(field_of(Some(body), "records"@));
    let key = crate::arr::queue_key(kind);
    list.lemma_filter_map_contains(|record: JsonView| record_of(record, key), entry);
    let found = choose|t: JsonView| #[trigger]
        list.contains(t) && record_of(t, key) == Some(entry);
    let i = choose|i: int| 0 <= i < list.len() && list[i] == found;
    assert(list[i] == found);
}

/// What happened last is what the newest entry says: there is an entry with
/// that event, and none is newer.
pub proof fn law_the_last_event_is_the_newest(body: JsonView)
    ensures
        match last_event_of(body) {
            Some(event) => exists|i: int|
                #![trigger elements_of(Some(body))[i]]
                0 <= i < elements_of(Some(body)).len() && (happened(elements_of(Some(body))[i])
                    matches Some((when, named)) && event_named(named) == event && forall|j: int|
                    0 <= j < elements_of(Some(body)).len() && happened(
                        #[trigger] elements_of(Some(body))[j],
                    ) is Some ==> happened_at(elements_of(Some(body))[j])
                        <= when.instant()),
            None => forall|j: int|
                0 <= j < elements_of(Some(body)).len() ==> happened(
                    #[trigger] elements_of(Some(body))[j],
                ) is None,
        },
{
    let list = elements_of(Some(body));
    lemma_newest(list);
    if let Some((when, named)) = newest(list) {
        let i = choose|i: int|
            0 <= i < list.len() && happened(#[trigger] list[i]) == Some((when, named));
        assert forall|j: int|
            0 <= j < list.len() && happened(#[trigger] list[j])
                is Some implies happened_at(list[j]) <= when.instant() by {
            crate::arr::law_the_newest_is_newest(list, j);
        }
        assert(happened(list[i]) == Some((when, named)));
    }
}

proof fn lemma_newest(entries: Seq<JsonView>)
    ensures
        match newest(entries) {
            Some(found) => exists|i: int|
                0 <= i < entries.len() && happened(#[trigger] entries[i]) == Some(found),
            None => forall|j: int| 0 <= j < entries.len() ==> happened(#[trigger] entries[j]) is None,
        },
    decreases entries.len(),
{
    if entries.len() > 0 {
        let front = entries.drop_last();
        lemma_newest(front);
        match newest(front) {
            Some(found) => {
                let i = choose|i: int|
                    0 <= i < front.len() && happened(#[trigger] front[i]) == Some(found);
                assert(entries[i] == front[i]);
            },
            None => {
                assert forall|j: int| 0 <= j < front.len() implies happened(#[trigger] entries[j])
                    is None by {
                    assert(front[j] == entries[j]);
                }
            },
        }
        assert(entries[entries.len() - 1] == entries.last());
    }
}

/// Of several entries that are as new as each other, the one that is listed
/// first counts.
pub proof fn law_the_first_of_the_newest_counts(entries: Seq<JsonView>, i: int)
    requires
        0 <= i < entries.len(),
        happened(entries[i]) is Some,
        forall|j: int|
            0 <= j < entries.len() && happened(#[trigger] entries[j]) is Some ==> happened_at(
                entries[j],
            ) <= happened_at(entries[i]),
        forall|j: int|
            0 <= j < i && happened(#[trigger] entries[j]) is Some ==> happened_at(entries[j])
                < happened_at(entries[i]),
    ensures
        newest(entries) == happened(entries[i]),
    decreases entries.len(),
{
    let front = entries.drop_last();
    lemma_newest(front);
    if i < front.len() {
        assert forall|j: int|
            0 <= j < front.len() && happened(#[trigger] front[j]) is Some implies happened_at(
            front[j],
        ) <= happened_at(front[i]) by {
            assert(entries[j] == front[j]);
        }
        assert forall|j: int|
            0 <= j < i && happened(#[trigger] front[j]) is Some implies happened_at(front[j])
            < happened_at(front[i]) by {
            assert(entries[j] == front[j]);
        }
        law_the_first_of_the_newest_counts(front, i);
        assert(entries[entries.len() - 1] == entries.last());
    } else if let Some(found) = newest(front) {
        let n = choose|n: int|
            0 <= n < front.len() && happened(#[trigger] front[n]) == Some(found);
        assert(entries[n] == front[n]);
        assert(happened_at(entries[n]) < happened_at(entries[i]));
    }
}

/// The events are told apart by their names, and an unknown name is no event
/// that anything is concluded from.
pub proof fn law_events_are_told_apart(name: Seq<char>)
    ensures
        event_named(name) == HistoryEvent::Grabbed <==> name == "grabbed"@,
        event_named(name) == HistoryEvent::DownloadFailed <==> name == "downloadFailed"@,
        event_named(name) == HistoryEvent::Imported <==> name == "downloadFolderImported"@,
{
    reveal_strlit("grabbed");
    reveal_strlit("downloadFailed");
    reveal_strlit("downloadFolderImported");
    assert("grabbed"@.len() == 7);
    assert("downloadFailed"@.len() == 14);
    assert("downloadFolderImported"@.len() == 22);
}

/// An episode is what Sonarr lists: its season and number, whether it is
/// there and whether it is wanted. One without a date has none; one with a
/// date that makes no sense is not read.
pub proof fn law_an_episode_is_what_sonarr_lists(episode: JsonView, read: ArrEpisode)
    requires
        episode_of(episode) == Some(read),
    ensures
        u64_of(field_of(Some(episode), "seasonNumber"@)) == Some(read.season as u64),
        u64_of(field_of(Some(episode), "episodeNumber"@)) == Some(read.number as u64),
        field_of(Some(episode), "hasFile"@) == Some(JsonView::Bool(read.has_file)),
        field_of(Some(episode), "monitored"@) == Some(JsonView::Bool(read.monitored)),
        match read.air_date {
            Some(when) => date_of(field_of(Some(episode), "airDateUtc"@)) == Some(when),
            None => field_of(Some(episode), "airDateUtc"@) is None || field_of(
                Some(episode),
                "airDateUtc"@,
            ) == Some(JsonView::Null),
        },
{
}

/// The monitored seasons are those that Sonarr lists as monitored, and no
/// others.
pub proof fn law_monitored_seasons_are_listed(list: Seq<JsonView>, season: u16)
    ensures
        monitored_of(list).contains(season) <==> exists|i: int|
            0 <= i < list.len() && season_entry(#[trigger] list[i]) == Some((season, true)),
    decreases list.len(),
{
    if list.len() > 0 {
        let front = list.drop_last();
        law_monitored_seasons_are_listed(front, season);
        let before = monitored_of(front);
        let all = monitored_of(list);
        assert(list[list.len() - 1] == list.last());
        if before.contains(season) {
            let i = choose|i: int|
                0 <= i < front.len() && season_entry(#[trigger] front[i]) == Some((season, true));
            assert(list[i] == front[i]);
            let n = choose|n: int| 0 <= n < before.len() && before[n] == season;
            assert(all[n] == season);
        }
        if season_entry(list.last()) == Some((season, true)) {
            assert(all[before.len() as int] == season);
        }
        if all.contains(season) {
            let n = choose|n: int| 0 <= n < all.len() && all[n] == season;
            if n < before.len() {
                assert(before[n] == season);
            }
        }
        if exists|i: int|
            0 <= i < list.len() && season_entry(#[trigger] list[i]) == Some((season, true)) {
            let i = choose|i: int|
                0 <= i < list.len() && season_entry(#[trigger] list[i]) == Some((season, true));
            if i < front.len() {
                assert(front[i] == list[i]);
            }
        }
    }
}

/// A season is read by its number and its own flag, and the series by its
/// own.
pub proof fn law_a_series_is_what_sonarr_says(body: JsonView)
    ensures
        series_of(body) matches Some((monitored, seasons)) ==> field_of(Some(body), "monitored"@)
            == Some(JsonView::Bool(monitored)) && (array_of(field_of(Some(body), "seasons"@))
            matches Some(list) && seasons == monitored_of(list)),
        forall|season: JsonView| (#[trigger] season_entry(season)) matches Some((number, flag))
            ==> u64_of(field_of(Some(season), "seasonNumber"@)) == Some(number as u64) && bool_of(
            field_of(Some(season), "monitored"@),
        ) == Some(flag),
{
}

} // verus!
