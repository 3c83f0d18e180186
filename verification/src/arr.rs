//! What Radarr and Sonarr say, and how it is read out of their answers.

pub mod laws;

use crate::json::{
    Json, JsonView, array, array_of, bool_of, elements_of, field_of, flag, get, i64_of,
    number_text, number_text_of, opt_tree, text, text_of, tree, trees, u64_of, unsigned, whole,
};
use crate::model::MediaKind;
use crate::moment::{Timestamp, moment_named, parse_rfc3339};
use crate::text::{decimal, decimal_i64, decimal_int, decimal_u64, opt_view, owned, same, views};
use vstd::prelude::*;

verus! {

/// What Radarr says about a film.
#[derive(Clone, Copy, Debug, PartialEq)]
pub struct ArrMovie {
    pub is_available: bool,
    pub has_file: bool,
    pub digital_release: Option<Timestamp>,
    pub physical_release: Option<Timestamp>,
}

/// One episode as Sonarr lists it.
#[derive(Clone, Copy, Debug, PartialEq)]
pub struct ArrEpisode {
    pub season: u16,
    pub number: u16,
    pub air_date: Option<Timestamp>,
    pub has_file: bool,
    pub monitored: bool,
}

/// What Sonarr says about a series.
#[derive(Clone, Debug, PartialEq)]
pub struct ArrSeries {
    pub monitored: bool,
    pub monitored_seasons: Vec<u16>,
    pub episodes: Vec<ArrEpisode>,
}

/// How a queue entry stands.
#[derive(Clone, Copy, Debug, PartialEq, Eq, Structural)]
pub enum QueueState {
    Downloading,
    ImportStuck,
}

/// One entry of a download queue.
#[derive(Clone, Copy, Debug, PartialEq, Eq, Structural)]
pub struct QueueItem {
    pub arr_id: i64,
    pub percent: u8,
    pub state: QueueState,
}

/// What happened last to a title.
#[derive(Clone, Copy, Debug, PartialEq, Eq, Structural)]
pub enum HistoryEvent {
    Grabbed,
    DownloadFailed,
    Imported,
    Other,
}

/// One release that a search turned up. Deliberately three fields: titles,
/// indexers and addresses are never read, so they cannot end up in a message
/// or a log line.
#[derive(Clone, Debug, PartialEq)]
pub struct Release {
    pub rejected: bool,
    pub rejections: Vec<String>,
    pub languages: Vec<String>,
}

/// What a [`Release`] holds.
pub struct ReleaseView {
    pub rejected: bool,
    pub rejections: Seq<Seq<char>>,
    pub languages: Seq<Seq<char>>,
}

impl View for Release {
    type V = ReleaseView;

    open spec fn view(&self) -> ReleaseView {
        ReleaseView {
            rejected: self.rejected,
            rejections: views(self.rejections@),
            languages: views(self.languages@),
        }
    }
}

/// What a list of releases holds.
pub open spec fn release_views(releases: Seq<Release>) -> Seq<ReleaseView> {
    releases.map_values(|r: Release| r@)
}

/// How long a lookup may take, in seconds.
pub const STANDARD_DEADLINE: u64 = 20;

/// How long a search at the indexers may take, in seconds.
pub const RELEASE_DEADLINE: u64 = 120;

/// Which state of a queue entry a value of `trackedDownloadState` means. Only
/// the one value that is known to mean a stuck import is read as one; every
/// other, one never seen included, is a download in progress.
pub open spec fn state_tracked(value: Option<Seq<char>>) -> QueueState {
    if value == Some("importBlocked"@) {
        QueueState::ImportStuck
    } else {
        QueueState::Downloading
    }
}

/// Which state of a queue entry a value of `trackedDownloadState` means.
pub fn queue_state(value: Option<&str>) -> (r: QueueState)
    ensures
        r == state_tracked(
            match value {
                Some(s) => Some(s@),
                None => None,
            },
        ),
{
    match value {
        Some(word) => if same(word, "importBlocked") {
            QueueState::ImportStuck
        } else {
            QueueState::Downloading
        },
        None => QueueState::Downloading,
    }
}

/// The event that a value of `eventType` names.
pub open spec fn event_named(event_type: Seq<char>) -> HistoryEvent {
    if event_type == "grabbed"@ {
        HistoryEvent::Grabbed
    } else if event_type == "downloadFailed"@ {
        HistoryEvent::DownloadFailed
    } else if event_type == "downloadFolderImported"@ {
        HistoryEvent::Imported
    } else {
        HistoryEvent::Other
    }
}

/// The event that a value of `eventType` names.
pub fn map_event_type(event_type: &str) -> (r: HistoryEvent)
    ensures
        r == event_named(event_type@),
{
    if same(event_type, "grabbed") {
        HistoryEvent::Grabbed
    } else if same(event_type, "downloadFailed") {
        HistoryEvent::DownloadFailed
    } else if same(event_type, "downloadFolderImported") {
        HistoryEvent::Imported
    } else {
        HistoryEvent::Other
    }
}

/// The point that a value names; nothing where it names none.
pub open spec fn date_of(value: Option<JsonView>) -> Option<Timestamp> {
    match text_of(value) {
        Some(s) => moment_named(s),
        None => None,
    }
}

/// The point that a value names.
pub fn parse_date(value: Option<&Json>) -> (r: Option<Timestamp>)
    ensures
        r == date_of(opt_tree(value)),
{
    match text(value) {
        Some(s) => parse_rfc3339(s),
        None => None,
    }
}

/// The film that Radarr's answer describes. What it does not say is not so.
pub open spec fn movie_of(body: JsonView) -> ArrMovie {
    ArrMovie {
        is_available: bool_of(field_of(Some(body), "isAvailable"@)) == Some(true),
        has_file: bool_of(field_of(Some(body), "hasFile"@)) == Some(true),
        digital_release: date_of(field_of(Some(body), "digitalRelease"@)),
        physical_release: date_of(field_of(Some(body), "physicalRelease"@)),
    }
}

/// Reads a film out of Radarr's answer.
pub fn movie_from(body: &Json) -> (r: ArrMovie)
    ensures
        r == movie_of(body@),
{
    let is_available = match flag(get(Some(body), "isAvailable")) {
        Some(yes) => yes,
        None => false,
    };
    let has_file = match flag(get(Some(body), "hasFile")) {
        Some(yes) => yes,
        None => false,
    };
    ArrMovie {
        is_available,
        has_file,
        digital_release: parse_date(get(Some(body), "digitalRelease")),
        physical_release: parse_date(get(Some(body), "physicalRelease")),
    }
}

/// One entry of a queue, with its sizes as they are written: how far along it
/// is takes arithmetic that this library leaves to its caller.
#[derive(Clone, Debug, PartialEq)]
pub struct QueueRecord {
    pub arr_id: i64,
    pub size: Option<String>,
    pub left: Option<String>,
    pub state: QueueState,
}

/// What a [`QueueRecord`] holds.
pub struct QueueRecordView {
    pub arr_id: i64,
    pub size: Option<Seq<char>>,
    pub left: Option<Seq<char>>,
    pub state: QueueState,
}

impl View for QueueRecord {
    type V = QueueRecordView;

    open spec fn view(&self) -> QueueRecordView {
        QueueRecordView {
            arr_id: self.arr_id,
            size: opt_view(self.size),
            left: opt_view(self.left),
            state: self.state,
        }
    }
}

/// What a list of queue entries holds.
pub open spec fn record_views(records: Seq<QueueRecord>) -> Seq<QueueRecordView> {
    records.map_values(|r: QueueRecord| r@)
}

/// The field that says which title a queue entry is about.
pub open spec fn queue_key(kind: MediaKind) -> Seq<char> {
    match kind {
        MediaKind::Movie => "movieId"@,
        MediaKind::Tv => "seriesId"@,
    }
}

/// The queue entry that one record describes; nothing where it names no
/// title.
pub open spec fn record_of(record: JsonView, key: Seq<char>) -> Option<QueueRecordView> {
    match i64_of(field_of(Some(record), key)) {
        Some(arr_id) => Some(
            QueueRecordView {
                arr_id,
                size: number_text_of(field_of(Some(record), "size"@)),
                left: number_text_of(field_of(Some(record), "sizeleft"@)),
                state: state_tracked(text_of(field_of(Some(record), "trackedDownloadState"@))),
            },
        ),
        None => None,
    }
}

/// The entries that an answer about the queue lists.
pub open spec fn records_of(body: JsonView, kind: MediaKind) -> Seq<QueueRecordView> {
    elements_of(field_of(Some(body), "records"@)).filter_map(
        |record: JsonView| record_of(record, queue_key(kind)),
    )
}

fn read_record(record: &Json, key: &str) -> (r: Option<QueueRecord>)
    ensures
        match r {
            Some(found) => record_of(record@, key@) == Some(found@),
            None => record_of(record@, key@) is None,
        },
{
    let arr_id = match whole(get(Some(record), key)) {
        Some(arr_id) => arr_id,
        None => {
            return None;
        },
    };
    let size = owned(number_text(get(Some(record), "size")));
    let left = owned(number_text(get(Some(record), "sizeleft")));
    let state = queue_state(text(get(Some(record), "trackedDownloadState")));
    Some(QueueRecord { arr_id, size, left, state })
}

/// Reads the entries out of an answer about the queue.
pub fn queue_records(body: &Json, kind: MediaKind) -> (records: Vec<QueueRecord>)
    ensures
        record_views(records@) == records_of(body@, kind),
{
    let key = match kind {
        MediaKind::Movie => "movieId",
        MediaKind::Tv => "seriesId",
    };
    let mut records: Vec<QueueRecord> = Vec::new();
    let ghost read = |record: JsonView| record_of(record, queue_key(kind));
    assert(record_views(records@) =~= Seq::<JsonView>::empty().filter_map(read));
    if let Some(list) = array(get(Some(body), "records")) {
        let ghost all = trees(list@);
        let mut i: usize = 0;
        assert(all.take(0) =~= Seq::empty());
        while i < list.len()
            invariant
                i <= list@.len(),
                all == trees(list@),
                key@ == queue_key(kind),
                read == (|record: JsonView| record_of(record, queue_key(kind))),
                record_views(records@) == all.take(i as int).filter_map(read),
            decreases list@.len() - i,
        {
            proof {
                let next = all.take(i + 1);
                assert(next.drop_last() =~= all.take(i as int));
                assert(next.last() == tree(list@[i as int]));
            }
            if let Some(record) = read_record(&list[i], key) {
                assert(record_views(records@.push(record)) =~= record_views(records@) + seq![
                    record@,
                ]);
                records.push(record);
            }
            i += 1;
        }
        assert(all.take(i as int) =~= all);
    }
    records
}

/// When an entry of a history happened, and what it says; nothing where it
/// says only one of the two.
pub open spec fn happened(entry: JsonView) -> Option<(Timestamp, Seq<char>)> {
    match date_of(field_of(Some(entry), "date"@)) {
        Some(date) => match text_of(field_of(Some(entry), "eventType"@)) {
            Some(event_type) => Some((date, event_type)),
            None => None,
        },
        None => None,
    }
}

/// The instant of an entry of a history.
pub open spec fn happened_at(entry: JsonView) -> int {
    let found = happened(entry)->Some_0;
    found.0.instant()
}

/// The newest entry of a history, and the first of several as new.
pub open spec fn newest(entries: Seq<JsonView>) -> Option<(Timestamp, Seq<char>)>
    decreases entries.len(),
{
    if entries.len() == 0 {
        None
    } else {
        let before = newest(entries.drop_last());
        match happened(entries.last()) {
            Some(entry) => match before {
                Some(earlier) => if earlier.0.instant() < entry.0.instant() {
                    Some(entry)
                } else {
                    Some(earlier)
                },
                None => Some(entry),
            },
            None => before,
        }
    }
}

/// What happened last, as an answer about the history tells it.
pub open spec fn last_event_of(body: JsonView) -> Option<HistoryEvent> {
    match newest(elements_of(Some(body))) {
        Some(entry) => Some(event_named(entry.1)),
        None => None,
    }
}

/// Reads what happened last out of an answer about the history.
pub fn last_event(body: &Json) -> (r: Option<HistoryEvent>)
    ensures
        r == last_event_of(body@),
{
    let list = match array(Some(body)) {
        Some(list) => list,
        None => {
            return None;
        },
    };
    let ghost all = trees(list@);
    let mut best: Option<(Timestamp, &str)> = None;
    let mut i: usize = 0;
    assert(all.take(0) =~= Seq::empty());
    while i < list.len()
        invariant
            i <= list@.len(),
            all == trees(list@),
            match best {
                Some(found) => newest(all.take(i as int)) == Some((found.0, found.1@)),
                None => newest(all.take(i as int)) is None,
            },
        decreases list@.len() - i,
    {
        proof {
            let next = all.take(i + 1);
            assert(next.drop_last() =~= all.take(i as int));
            assert(next.last() == tree(list@[i as int]));
        }
        let entry = &list[i];
        if let Some(date) = parse_date(get(Some(entry), "date")) {
            if let Some(event_type) = text(get(Some(entry), "eventType")) {
                let newer = match &best {
                    Some(earlier) => earlier.0.before(&date),
                    None => true,
                };
                if newer {
                    best = Some((date, event_type));
                }
            }
        }
        i += 1;
    }
    assert(all.take(i as int) =~= all);
    match best {
        Some(found) => Some(map_event_type(found.1)),
        None => None,
    }
}

/// Nothing in a history is newer than its newest entry.
pub proof fn law_the_newest_is_newest(entries: Seq<JsonView>, i: int)
    requires
        0 <= i < entries.len(),
        happened(entries[i]) is Some,
    ensures
        newest(entries) matches Some(found) && happened_at(entries[i])
            <= found.0.instant(),
    decreases entries.len(),
{
    if i < entries.len() - 1 {
        assert(entries.drop_last()[i] == entries[i]);
        law_the_newest_is_newest(entries.drop_last(), i);
    }
}

/// A number that names a season or an episode.
pub open spec fn small_number(value: Option<JsonView>) -> Option<u16> {
    match u64_of(value) {
        Some(n) => if n <= u16::MAX {
            Some(n as u16)
        } else {
            None
        },
        None => None,
    }
}

/// A number that names a season or an episode.
pub fn read_small(value: Option<&Json>) -> (r: Option<u16>)
    ensures
        r == small_number(opt_tree(value)),
{
    match unsigned(value) {
        Some(n) => if n <= u16::MAX as u64 {
            Some(n as u16)
        } else {
            None
        },
        None => None,
    }
}

/// The air date of an episode: none where Sonarr knows none, and unreadable
/// where it is anything but a point.
pub open spec fn air_date_of(value: Option<JsonView>) -> Option<Option<Timestamp>> {
    match value {
        None => Some(None),
        Some(JsonView::Null) => Some(None),
        Some(_) => match date_of(value) {
            Some(date) => Some(Some(date)),
            None => None,
        },
    }
}

fn read_air_date(value: Option<&Json>) -> (r: Option<Option<Timestamp>>)
    ensures
        r == air_date_of(opt_tree(value)),
{
    match value {
        None => Some(None),
        Some(Json::Null) => Some(None),
        Some(_) => match parse_date(value) {
            Some(date) => Some(Some(date)),
            None => None,
        },
    }
}

/// The episode that one element of Sonarr's list describes; nothing where it
/// does not fit.
pub open spec fn episode_of(episode: JsonView) -> Option<ArrEpisode> {
    let season = small_number(field_of(Some(episode), "seasonNumber"@));
    let number = small_number(field_of(Some(episode), "episodeNumber"@));
    let air_date = air_date_of(field_of(Some(episode), "airDateUtc"@));
    let has_file = bool_of(field_of(Some(episode), "hasFile"@));
    let monitored = bool_of(field_of(Some(episode), "monitored"@));
    if season is Some && number is Some && air_date is Some && has_file is Some
        && monitored is Some {
        Some(
            ArrEpisode {
                season: season->0,
                number: number->0,
                air_date: air_date->0,
                has_file: has_file->0,
                monitored: monitored->0,
            },
        )
    } else {
        None
    }
}

fn read_episode(episode: &Json) -> (r: Option<ArrEpisode>)
    ensures
        r == episode_of(episode@),
{
    let season = read_small(get(Some(episode), "seasonNumber"));
    let number = read_small(get(Some(episode), "episodeNumber"));
    let air_date = read_air_date(get(Some(episode), "airDateUtc"));
    let has_file = flag(get(Some(episode), "hasFile"));
    let monitored = flag(get(Some(episode), "monitored"));
    match (season, number, air_date, has_file, monitored) {
        (Some(season), Some(number), Some(air_date), Some(has_file), Some(monitored)) => Some(
            ArrEpisode { season, number, air_date, has_file, monitored },
        ),
        _ => None,
    }
}

/// Whether every element of a list is an episode.
pub open spec fn all_episodes(list: Seq<JsonView>) -> bool {
    forall|i: int| 0 <= i < list.len() ==> episode_of(#[trigger] list[i]) is Some
}

/// The episodes that Sonarr's answer lists; nothing where one does not fit.
pub open spec fn episodes_of(body: JsonView) -> Option<Seq<ArrEpisode>> {
    match array_of(Some(body)) {
        Some(list) => if all_episodes(list) {
            Some(list.map_values(|e: JsonView| episode_of(e)->0))
        } else {
            None
        },
        None => None,
    }
}

/// Reads the episodes out of Sonarr's answer.
pub fn read_episodes(body: &Json) -> (r: Option<Vec<ArrEpisode>>)
    ensures
        match r {
            Some(episodes) => episodes_of(body@) == Some(episodes@),
            None => episodes_of(body@) is None,
        },
{
    let list = match array(Some(body)) {
        Some(list) => list,
        None => {
            return None;
        },
    };
    let ghost all = trees(list@);
    let mut episodes: Vec<ArrEpisode> = Vec::new();
    let mut i: usize = 0;
    while i < list.len()
        invariant
            i <= list@.len(),
            all == trees(list@),
            array_of(Some(body@)) == Some(all),
            episodes@.len() == i,
            forall|j: int| 0 <= j < i ==> episode_of(#[trigger] all[j]) == Some(episodes@[j]),
        decreases list@.len() - i,
    {
        assert(all[i as int] == tree(list@[i as int]));
        match read_episode(&list[i]) {
            Some(episode) => {
                episodes.push(episode);
            },
            None => {
                assert(!all_episodes(all));
                return None;
            },
        }
        i += 1;
    }
    assert(episodes@ =~= all.map_values(|e: JsonView| episode_of(e)->0));
    Some(episodes)
}

/// A season of a series, and whether it is monitored.
pub open spec fn season_entry(season: JsonView) -> Option<(u16, bool)> {
    let number = small_number(field_of(Some(season), "seasonNumber"@));
    let monitored = bool_of(field_of(Some(season), "monitored"@));
    if number is Some && monitored is Some {
        Some((number->0, monitored->0))
    } else {
        None
    }
}

/// Whether every element of a list is a season.
pub open spec fn all_season_entries(list: Seq<JsonView>) -> bool {
    forall|i: int| 0 <= i < list.len() ==> season_entry(#[trigger] list[i]) is Some
}

/// The monitored ones among the seasons of a series.
pub open spec fn monitored_of(list: Seq<JsonView>) -> Seq<u16>
    decreases list.len(),
{
    if list.len() == 0 {
        Seq::empty()
    } else {
        let before = monitored_of(list.drop_last());
        match season_entry(list.last()) {
            Some((number, true)) => before.push(number),
            _ => before,
        }
    }
}

/// Whether a series is monitored and which of its seasons are; nothing where
/// Sonarr's answer does not fit.
pub open spec fn series_of(body: JsonView) -> Option<(bool, Seq<u16>)> {
    match bool_of(field_of(Some(body), "monitored"@)) {
        Some(monitored) => match array_of(field_of(Some(body), "seasons"@)) {
            Some(list) => if all_season_entries(list) {
                Some((monitored, monitored_of(list)))
            } else {
                None
            },
            None => None,
        },
        None => None,
    }
}

/// Reads whether a series is monitored, and which of its seasons are.
pub fn read_series(body: &Json) -> (r: Option<(bool, Vec<u16>)>)
    ensures
        match r {
            Some(found) => series_of(body@) == Some((found.0, found.1@)),
            None => series_of(body@) is None,
        },
{
    let monitored = match flag(get(Some(body), "monitored")) {
        Some(monitored) => monitored,
        None => {
            return None;
        },
    };
    let list = match array(get(Some(body), "seasons")) {
        Some(list) => list,
        None => {
            return None;
        },
    };
    let ghost all = trees(list@);
    let mut seasons: Vec<u16> = Vec::new();
    let mut i: usize = 0;
    assert(all.take(0) =~= Seq::empty());
    while i < list.len()
        invariant
            i <= list@.len(),
            all == trees(list@),
            array_of(field_of(Some(body@), "seasons"@)) == Some(all),
            seasons@ == monitored_of(all.take(i as int)),
            forall|j: int| 0 <= j < i ==> season_entry(#[trigger] all[j]) is Some,
        decreases list@.len() - i,
    {
        proof {
            let next = all.take(i + 1);
            assert(next.drop_last() =~= all.take(i as int));
            assert(next.last() == tree(list@[i as int]));
            assert(all[i as int] == tree(list@[i as int]));
        }
        let season = &list[i];
        match (read_small(get(Some(season), "seasonNumber")), flag(get(Some(season), "monitored"))) {
            (Some(number), Some(yes)) => {
                if yes {
                    seasons.push(number);
                }
            },
            _ => {
                assert(season_entry(all[i as int]) is None);
                assert(!all_season_entries(all));
                return None;
            },
        }
        i += 1;
    }
    assert(all.take(i as int) =~= all);
    Some((monitored, seasons))
}

/// Reads a series out of Sonarr's two answers, the one about it and the one
/// with its episodes.
pub fn series_from(body: &Json, episodes: &Json) -> (r: Option<ArrSeries>)
    ensures
        match r {
            Some(series) => series_of(body@) == Some(
                (series.monitored, series.monitored_seasons@),
            ) && episodes_of(episodes@) == Some(series.episodes@),
            None => series_of(body@) is None || episodes_of(episodes@) is None,
        },
{
    match read_series(body) {
        Some(found) => match read_episodes(episodes) {
            Some(list) => Some(
                ArrSeries { monitored: found.0, monitored_seasons: found.1, episodes: list },
            ),
            None => None,
        },
        None => None,
    }
}

/// The two services behind Seerr.
#[derive(Clone, Copy, Debug, PartialEq, Eq, Structural)]
pub enum Service {
    Radarr,
    Sonarr,
}

/// The name of a service.
pub open spec fn service_named(service: Service) -> Seq<char> {
    match service {
        Service::Radarr => "radarr"@,
        Service::Sonarr => "sonarr"@,
    }
}

impl Service {
    /// The name of the service.
    pub fn name(self) -> (r: &'static str)
        ensures
            r@ == service_named(self),
    {
        match self {
            Service::Radarr => "radarr",
            Service::Sonarr => "sonarr",
        }
    }
}

/// Why Radarr or Sonarr gave no answer. The answer itself is never part of it:
/// it can carry names that are nobody's business, and keys.
#[derive(Clone, Debug, PartialEq)]
pub enum ArrFailure {
    /// A question about a series, without a Sonarr to ask.
    NotConfigured,
    TimedOut { service: Service, path: String, seconds: u64 },
    Unreachable { service: Service, path: String },
    /// An answer that is no success.
    Refused { service: Service, path: String, status: String },
    /// An answer that does not fit.
    Unreadable { service: Service, path: String, status: String },
}

/// A failure in words.
pub open spec fn failure_said(failure: ArrFailure) -> Seq<char> {
    match failure {
        ArrFailure::NotConfigured => "sonarr is not configured"@,
        ArrFailure::TimedOut { service, path, seconds } => service_named(service)
            + " did not answer within "@ + decimal(seconds as nat) + " s for "@ + path@,
        ArrFailure::Unreachable { service, path } => service_named(service)
            + " could not be reached for "@ + path@,
        ArrFailure::Refused { service, path, status } => service_named(service) + " answered "@
            + status@ + " for "@ + path@,
        ArrFailure::Unreadable { service, path, status } => service_named(service) + " answered "@
            + status@ + " for "@ + path@ + " with a body this bot cannot read"@,
    }
}

impl ArrFailure {
    /// The failure in words.
    pub fn message(&self) -> (r: String)
        ensures
            r@ == failure_said(*self),
    {
        match self {
            ArrFailure::NotConfigured => "sonarr is not configured".to_owned(),
            ArrFailure::TimedOut { service, path, seconds } => {
                let mut r = service.name().to_owned();
                r.append(" did not answer within ");
                r.append(decimal_u64(*seconds).as_str());
                r.append(" s for ");
                r.append(path.as_str());
                r
            },
            ArrFailure::Unreachable { service, path } => {
                let mut r = service.name().to_owned();
                r.append(" could not be reached for ");
                r.append(path.as_str());
                r
            },
            ArrFailure::Refused { service, path, status } => {
                let mut r = service.name().to_owned();
                r.append(" answered ");
                r.append(status.as_str());
                r.append(" for ");
                r.append(path.as_str());
                r
            },
            ArrFailure::Unreadable { service, path, status } => {
                let mut r = service.name().to_owned();
                r.append(" answered ");
                r.append(status.as_str());
                r.append(" for ");
                r.append(path.as_str());
                r.append(" with a body this bot cannot read");
                r
            },
        }
    }

    /// Why a call that was never answered failed: a deadline that ran out is
    /// called just that.
    pub fn while_sending(
        service: Service,
        path: String,
        seconds: u64,
        timed_out: bool,
    ) -> (r: ArrFailure)
        ensures
            r == (if timed_out {
                ArrFailure::TimedOut { service, path, seconds }
            } else {
                ArrFailure::Unreachable { service, path }
            }),
    {
        if timed_out {
            ArrFailure::TimedOut { service, path, seconds }
        } else {
            ArrFailure::Unreachable { service, path }
        }
    }

    /// Why an answer could not be read. A deadline that ran out halfway
    /// through looks like a broken answer, so it is asked about first.
    pub fn while_reading(
        service: Service,
        path: String,
        seconds: u64,
        status: String,
        timed_out: bool,
    ) -> (r: ArrFailure)
        ensures
            r == (if timed_out {
                ArrFailure::TimedOut { service, path, seconds }
            } else {
                ArrFailure::Unreadable { service, path, status }
            }),
    {
        if timed_out {
            ArrFailure::TimedOut { service, path, seconds }
        } else {
            ArrFailure::Unreadable { service, path, status }
        }
    }
}

/// Which service knows about a kind of media. Asking about a series without a
/// Sonarr is a failure, not an empty answer: that would look like "nothing is
/// downloading" when really nobody can tell.
pub fn service_for(kind: MediaKind, has_sonarr: bool) -> (r: Result<Service, ArrFailure>)
    ensures
        r == (match kind {
            MediaKind::Movie => Ok::<Service, ArrFailure>(Service::Radarr),
            MediaKind::Tv => if has_sonarr {
                Ok::<Service, ArrFailure>(Service::Sonarr)
            } else {
                Err::<Service, ArrFailure>(ArrFailure::NotConfigured)
            },
        }),
{
    match kind {
        MediaKind::Movie => Ok(Service::Radarr),
        MediaKind::Tv => if has_sonarr {
            Ok(Service::Sonarr)
        } else {
            Err(ArrFailure::NotConfigured)
        },
    }
}

fn with_number(before: &str, n: i64) -> (r: String)
    ensures
        r@ == before@ + decimal_int(n as int),
{
    let mut r = before.to_owned();
    r.append(decimal_i64(n).as_str());
    r
}

/// Where Radarr answers about a film.
pub fn movie_path(id: i64) -> (r: String)
    ensures
        r@ == "/api/v3/movie/"@ + decimal_int(id as int),
{
    with_number("/api/v3/movie/", id)
}

/// Where a service answers about its queue.
pub fn queue_path(kind: MediaKind) -> (r: &'static str)
    ensures
        r@ == (match kind {
            MediaKind::Movie => "/api/v3/queue?pageSize=200&includeMovie=false"@,
            MediaKind::Tv => "/api/v3/queue?pageSize=200&includeSeries=false"@,
        }),
{
    match kind {
        MediaKind::Movie => "/api/v3/queue?pageSize=200&includeMovie=false",
        MediaKind::Tv => "/api/v3/queue?pageSize=200&includeSeries=false",
    }
}

/// Where a service answers about the history of a title.
pub fn history_path(kind: MediaKind, id: i64) -> (r: String)
    ensures
        r@ == (match kind {
            MediaKind::Movie => "/api/v3/history/movie?movieId="@,
            MediaKind::Tv => "/api/v3/history/series?seriesId="@,
        }) + decimal_int(id as int),
{
    match kind {
        MediaKind::Movie => with_number("/api/v3/history/movie?movieId=", id),
        MediaKind::Tv => with_number("/api/v3/history/series?seriesId=", id),
    }
}

/// Where Sonarr answers about a series.
pub fn series_path(id: i64) -> (r: String)
    ensures
        r@ == "/api/v3/series/"@ + decimal_int(id as int),
{
    with_number("/api/v3/series/", id)
}

/// Where Sonarr lists the episodes of a series.
pub fn episodes_path(id: i64) -> (r: String)
    ensures
        r@ == "/api/v3/episode?seriesId="@ + decimal_int(id as int),
{
    with_number("/api/v3/episode?seriesId=", id)
}

/// Where Radarr searches the indexers for a film.
pub fn releases_path(movie_id: i64) -> (r: String)
    ensures
        r@ == "/api/v3/release?movieId="@ + decimal_int(movie_id as int),
{
    with_number("/api/v3/release?movieId=", movie_id)
}

/// Where Sonarr searches the indexers for a season.
pub fn season_releases_path(series_id: i64, season: u16) -> (r: String)
    ensures
        r@ == "/api/v3/release?seriesId="@ + decimal_int(series_id as int) + "&seasonNumber="@
            + decimal(season as nat),
{
    let mut r = with_number("/api/v3/release?seriesId=", series_id);
    r.append("&seasonNumber=");
    r.append(decimal_u64(season as u64).as_str());
    r
}

} // verus!
