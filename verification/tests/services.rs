//! What is asked of Seerr, Radarr and Sonarr, and how their answers are read.

use signal_seerr::arr::{
    ArrFailure, HistoryEvent, QueueState, RELEASE_DEADLINE, STANDARD_DEADLINE, Service,
    episodes_path, history_path, last_event, movie_from, movie_path, queue_path, queue_records,
    queue_state, releases_path, season_releases_path, series_from, series_path, service_for,
};
use signal_seerr::json::{Json, parse_json, write_json};
use signal_seerr::model::{Hit, MediaKind, Seasons, SeerrUserId};
use signal_seerr::moment::{Timestamp, format_rfc3339, parse_rfc3339};
use signal_seerr::seerr::{
    Paging, REQUEST_PATH, SeerrFailure, USERS_PATH, arr_of, default_server, hits_from,
    may_withdraw, pending_path, placed_id, profile_of, profiles_from, request_body, request_path,
    requester_of, results_len, retry_path, search_path, server_path, servers_path, subject_of,
    title_from, title_path, user_in, wish_from, wishes_from,
};
use signal_seerr::text::address;

fn json(text: &str) -> Json {
    parse_json(text).unwrap()
}

fn film() -> Hit {
    Hit {
        tmdb_id: 335984,
        kind: MediaKind::Movie,
        title: "Blade Runner 2049".to_string(),
        year: Some(2017),
        rating: Some("8.0".to_string()),
        seasons: 0,
        already: false,
    }
}

// -- searching -------------------------------------------------------------------

#[test]
fn search_maps_movies_and_series() {
    let hits = hits_from(
        &json(
            r#"{
            "page": 1, "totalPages": 2, "totalResults": 3,
            "results": [
                { "id": 335984, "mediaType": "movie", "title": "Blade Runner 2049",
                  "releaseDate": "2017-10-04", "voteAverage": 8.0 },
                { "id": 4321, "mediaType": "tv", "name": "Andor",
                  "firstAirDate": "2022-09-21", "voteAverage": 8.4,
                  "mediaInfo": { "status": 5 } },
                { "id": 999, "mediaType": "person", "name": "Denis Villeneuve" }
            ]
        }"#,
        ),
        None,
    );
    assert_eq!(hits.len(), 2, "people must be filtered out");
    assert_eq!(hits[0].title, "Blade Runner 2049");
    assert_eq!(hits[0].year, Some(2017));
    assert!(matches!(hits[0].kind, MediaKind::Movie));
    assert!(!hits[0].already);
    assert_eq!(hits[1].title, "Andor");
    assert!(hits[1].already, "status 5 is available, so it is already there");
    assert_eq!(hits[1].rating.as_deref(), Some("8.4"));
}

#[test]
fn search_can_be_narrowed_to_one_kind() {
    let hits = hits_from(
        &json(
            r#"{ "results": [
                { "id": 1, "mediaType": "movie", "title": "A", "releaseDate": "2001-01-01" },
                { "id": 2, "mediaType": "tv", "name": "B", "firstAirDate": "2002-01-01" }
            ] }"#,
        ),
        Some(MediaKind::Movie),
    );
    assert_eq!(hits.len(), 1);
    assert_eq!(hits[0].title, "A");
}

#[test]
fn a_missing_release_date_is_not_an_error() {
    let hits = hits_from(
        &json(r#"{ "results": [ { "id": 7, "mediaType": "movie", "title": "Untitled" } ] }"#),
        None,
    );
    assert_eq!(hits.len(), 1);
    assert_eq!(hits[0].year, None);
}

#[test]
fn a_space_in_the_query_is_percent_encoded_not_a_plus() {
    assert_eq!(
        search_path("blade runner", 1),
        "/api/v1/search?query=blade%20runner&page=1"
    );
    assert_eq!(
        search_path("Amélie & co_+", 12),
        "/api/v1/search?query=Am%C3%A9lie%20%26%20co%5F%2B&page=12"
    );
}

// -- placing and withdrawing -----------------------------------------------------

#[test]
fn a_request_is_placed_in_the_name_of_the_asker() {
    let body = request_body(&film(), &Seasons::NotApplicable, None);
    assert_eq!(write_json(&body), r#"{"mediaId":335984,"mediaType":"movie"}"#);
    assert_eq!(REQUEST_PATH, "/api/v1/request");
    assert_eq!(placed_id(&json(r#"{ "id": 1849, "status": 1 }"#)), Ok(1849));
    let nameless = placed_id(&json("{}")).unwrap_err();
    assert_eq!(nameless, SeerrFailure::NoRequestId);
    assert!(nameless.message().contains("seerr"));
}

#[test]
fn a_series_request_carries_its_seasons() {
    let andor = Hit { tmdb_id: 4321, kind: MediaKind::Tv, seasons: 2, ..film() };
    assert_eq!(
        write_json(&request_body(&andor, &Seasons::Only(vec![1, 2]), None)),
        r#"{"mediaId":4321,"mediaType":"tv","seasons":[1,2]}"#
    );
    assert_eq!(
        write_json(&request_body(&andor, &Seasons::All, None)),
        r#"{"mediaId":4321,"mediaType":"tv","seasons":"all"}"#
    );
}

#[test]
fn a_chosen_profile_travels_as_profile_id_and_none_omits_the_key() {
    let chosen = write_json(&request_body(&film(), &Seasons::NotApplicable, Some(11)));
    assert!(chosen.contains(r#""profileId":11"#), "got: {chosen}");
    let unchosen = write_json(&request_body(&film(), &Seasons::NotApplicable, None));
    assert!(!unchosen.contains("profileId"), "got: {unchosen}");
    assert_eq!(profile_of(&json(r#"{"profileId":11}"#)), Some(11));
    assert_eq!(profile_of(&json(r#"{"profileId":null}"#)), None);
}

#[test]
fn seerr_user_is_found_by_its_jellyfin_username() {
    let body = json(
        r#"{ "results": [
            { "id": 1, "jellyfinUsername": "alice", "displayName": "Alice" },
            { "id": 12, "jellyfinUsername": "bob", "displayName": "Bob" }
        ] }"#,
    );
    assert_eq!(user_in(&body, "bob"), Some(SeerrUserId(12)));
    assert_eq!(user_in(&body, "nobody"), None);
    assert!(USERS_PATH.starts_with("/api/v1/user"));
}

#[test]
fn withdrawing_somebody_elses_request_is_refused_before_it_is_sent() {
    let theirs = json(r#"{ "id": 1849, "requestedBy": { "id": 99 } }"#);
    let err = may_withdraw(&theirs, 1849, SeerrUserId(12)).unwrap_err();
    assert_eq!(err, SeerrFailure::NotYours { id: 1849 });
    assert_eq!(err.message(), "request 1849 is not yours");
    assert!(may_withdraw(&theirs, 1849, SeerrUserId(99)).is_ok());
    assert!(may_withdraw(&json("{}"), 1849, SeerrUserId(12)).is_err());
}

// -- profiles --------------------------------------------------------------------

#[test]
fn quality_profiles_come_from_the_server_flagged_default() {
    let servers = json(
        r#"[ { "id": 3, "name": "Ein anderer", "isDefault": false },
             { "id": 7, "name": "Radarr", "isDefault": true } ]"#,
    );
    assert_eq!(arr_of(MediaKind::Movie), Service::Radarr);
    assert_eq!(servers_path(Service::Radarr), "/api/v1/service/radarr");
    assert_eq!(default_server(&servers, Service::Radarr), Ok(7));
    assert_eq!(server_path(Service::Radarr, 7), "/api/v1/service/radarr/7");

    let profiles = profiles_from(&json(
        r#"{ "server": { "id": 7 },
             "profiles": [
                { "id": 11, "name": "Rarität, Originalsprache (auch SD)" },
                { "id": 7, "name": "Dual Language, sonst Deutsch (1080p)" }
             ] }"#,
    ));
    assert_eq!(profiles.len(), 2);
    assert_eq!(profiles[0].id, 11);
    assert_eq!(profiles[0].name, "Rarität, Originalsprache (auch SD)");
    assert_eq!(profiles[1].id, 7);
}

#[test]
fn a_series_asks_sonarr_not_radarr_for_its_profile_ids() {
    let service = arr_of(MediaKind::Tv);
    assert_eq!(servers_path(service), "/api/v1/service/sonarr");
    assert_eq!(
        default_server(&json(r#"[ { "id": 0, "name": "Sonarr", "isDefault": true } ]"#), service),
        Ok(0)
    );
    assert_eq!(server_path(service, 0), "/api/v1/service/sonarr/0");
}

#[test]
fn without_a_flag_the_first_server_counts_and_without_a_server_there_is_none() {
    let unflagged = json(r#"[ { "id": 3 }, { "id": 7 } ]"#);
    assert_eq!(default_server(&unflagged, Service::Radarr), Ok(3));
    let radarr = Service::Radarr;
    assert_eq!(
        default_server(&json("{}"), radarr),
        Err(SeerrFailure::NoServerList { service: radarr })
    );
    assert_eq!(
        default_server(&json("[]"), radarr),
        Err(SeerrFailure::NoServer { service: radarr })
    );
    assert_eq!(
        default_server(&json(r#"[{"name":"x"}]"#), radarr),
        Err(SeerrFailure::NoServerId { service: radarr })
    );
    for failure in [
        SeerrFailure::NoServerList { service: radarr },
        SeerrFailure::NoServer { service: radarr },
        SeerrFailure::NoServerId { service: radarr },
    ] {
        assert!(failure.message().contains("radarr"), "got: {}", failure.message());
    }
    assert_eq!(
        SeerrFailure::Refused { status: "503 Service Unavailable".to_string() }.message(),
        "seerr answered 503 Service Unavailable"
    );
    assert_eq!(
        SeerrFailure::NotWithdrawn { status: "404 Not Found".to_string(), id: 7 }.message(),
        "seerr answered 404 Not Found when withdrawing 7"
    );
}

// -- wishes ----------------------------------------------------------------------

/// A request as Seerr lists it.
fn request(id: i64, media_status: i64) -> String {
    format!(
        r#"{{ "id": {id}, "type": "movie", "status": 2, "createdAt": "2026-09-21T10:00:00.000Z",
              "profileName": "Deutsch",
              "requestedBy": {{ "jellyfinUsername": "person-1", "displayName": "P" }},
              "seasons": [ {{ "seasonNumber": 2 }} ],
              "media": {{ "tmdbId": {}, "status": {media_status},
                          "externalServiceId": 42,
                          "downloadStatus": [ {{ "status": "queued" }},
                                              {{ "status": "downloading", "size": 1000,
                                                 "sizeLeft": 250.5 }} ] }} }}"#,
        100_000 + id
    )
}

#[test]
fn a_wish_is_read_out_of_a_request() {
    let record = wish_from(&json(&request(7, 3))).unwrap();
    let wish = &record.wish;
    assert_eq!((wish.id, wish.tmdb_id, wish.request_status, wish.media_status), (7, 100_007, 2, 3));
    assert_eq!(wish.kind, MediaKind::Movie);
    assert_eq!(wish.arr_id, Some(42));
    assert_eq!(wish.created_at, Timestamp::new(1_789_984_800, 0, 0).unwrap());
    assert_eq!(wish.requested_by.as_deref(), Some("person-1"));
    assert_eq!(wish.seasons, vec![2]);
    assert_eq!(wish.download_percent, None);
    let download = record.download.unwrap();
    assert_eq!(download.size.as_deref(), Some("1000"));
    assert_eq!(download.left.as_deref(), Some("250.5"));
    assert!(wish_from(&json("{}")).is_none());
}

#[test]
fn open_wishes_drops_what_is_already_available() {
    let page = |a: &str, b: &str| {
        json(&format!(
            r#"{{ "pageInfo": {{ "pages": 2 }}, "results": [ {a}, {b} ] }}"#
        ))
    };
    let first = page(&request(1, 3), &request(2, 5));
    assert_eq!(wishes_from(&first).len(), 2, "no entry may be dropped silently");
    assert_eq!(results_len(&first), 2);

    let mut paging = Paging::new();
    assert_eq!(paging.path(), "/api/v1/request?take=100&skip=0&filter=all&sort=added");
    assert!(paging.take_page(&first), "there is a second page");
    assert_eq!(
        paging.path(),
        "/api/v1/request?take=100&skip=2&filter=all&sort=added",
        "what was delivered counts, not what was asked for"
    );
    assert!(!paging.take_page(&page(&request(3, 4), &request(4, 5))));
    let ids: Vec<i64> = paging.wishes.iter().map(|r| r.wish.id).collect();
    assert_eq!(ids, [1, 3]);
}

#[test]
fn requester_of_reads_the_jellyfin_username() {
    let body = json(
        r#"{ "id": 1849,
             "requestedBy": { "jellyfinUsername": "alice", "displayName": "Alice Example" } }"#,
    );
    assert_eq!(requester_of(&body), Some("alice".to_string()));
}

#[test]
fn requester_of_ignores_the_editable_display_name() {
    let body = json(
        r#"{ "id": 1850,
             "requestedBy": { "jellyfinUsername": "", "displayName": "Somebody Else" } }"#,
    );
    assert_eq!(requester_of(&body), None, "must not fall back to the editable display name");
}

#[test]
fn a_title_is_found_by_way_of_the_request() {
    let subject = subject_of(&json(r#"{ "media": { "mediaType": "tv", "tmdbId": 9 } }"#));
    assert_eq!(subject, Some((MediaKind::Tv, 9)));
    assert_eq!(title_path(MediaKind::Tv, 9), "/api/v1/tv/9");
    assert_eq!(title_path(MediaKind::Movie, 9), "/api/v1/movie/9");
    assert_eq!(title_from(&json(r#"{"title":"Arrival"}"#)), Some("Arrival".to_string()));
    assert_eq!(title_from(&json(r#"{"name":"Andor"}"#)), Some("Andor".to_string()));
    assert_eq!(title_from(&json(r#"{"title":"  "}"#)), None);
}

#[test]
fn every_wish_has_its_address() {
    assert_eq!(request_path(7), "/api/v1/request/7");
    assert_eq!(retry_path(7), "/api/v1/request/7/retry");
    assert!(pending_path(SeerrUserId(12)).starts_with("/api/v1/user/12/requests"));
}

// -- Radarr and Sonarr -----------------------------------------------------------

#[test]
fn a_film_is_read_out_of_radarrs_answer() {
    let announced = movie_from(&json(
        r#"{ "isAvailable": false, "hasFile": false, "digitalRelease": "2026-12-01T00:00:00Z" }"#,
    ));
    assert!(!announced.is_available);
    assert_eq!(announced.digital_release, parse_rfc3339("2026-12-01T00:00:00Z"));
    assert_eq!(announced.physical_release, None);
    let missing = movie_from(&json(r#"{ "isAvailable": true, "hasFile": false }"#));
    assert!(missing.is_available);
    assert!(!missing.has_file);
}

#[test]
fn the_newest_entry_of_a_history_counts() {
    let history = json(
        r#"[ { "date": "2026-09-20T10:00:00Z", "eventType": "grabbed" },
             { "date": "2026-09-21T10:00:00Z", "eventType": "downloadFailed" },
             { "date": "2026-09-21T10:00:00Z", "eventType": "downloadFolderImported" } ]"#,
    );
    assert_eq!(
        last_event(&history),
        Some(HistoryEvent::DownloadFailed),
        "of two at one moment the one listed first"
    );
    assert_eq!(last_event(&json("[]")), None);
}

/// A queue with one entry in the given state.
fn queue(state: &str) -> Json {
    json(&format!(
        r#"{{ "records": [ {{ "movieId": 42, "size": 4000, "sizeleft": 1000,
                              "trackedDownloadState": "{state}" }} ] }}"#
    ))
}

#[test]
fn a_queue_entry_carries_its_sizes_and_its_state() {
    let records = queue_records(&queue("downloading"), MediaKind::Movie);
    assert_eq!(records.len(), 1);
    assert_eq!(records[0].arr_id, 42);
    assert_eq!(records[0].size.as_deref(), Some("4000"));
    assert_eq!(records[0].left.as_deref(), Some("1000"));
    assert_eq!(records[0].state, QueueState::Downloading);
    assert!(queue_records(&queue("downloading"), MediaKind::Tv).is_empty(), "no series in it");
    assert!(queue_records(&json(r#"{"records":[]}"#), MediaKind::Movie).is_empty());
}

#[test]
fn a_blocked_import_is_stuck() {
    let records = queue_records(&queue("importBlocked"), MediaKind::Movie);
    assert_eq!(records[0].state, QueueState::ImportStuck);
}

#[test]
fn importing_and_an_unknown_value_stay_downloading() {
    for value in ["importing", "imported", "ignored", "somethingNew"] {
        let records = queue_records(&queue(value), MediaKind::Movie);
        assert_eq!(records[0].state, QueueState::Downloading, "{value}");
    }
    assert_eq!(queue_state(None), QueueState::Downloading);
}

#[test]
fn a_path_part_in_the_base_url_is_kept() {
    assert_eq!(
        address("http://192.0.2.50:7870/radarr", &movie_path(111)),
        "http://192.0.2.50:7870/radarr/api/v3/movie/111"
    );
    assert_eq!(
        address("http://192.0.2.50:7870//", &movie_path(-1)),
        "http://192.0.2.50:7870/api/v3/movie/-1"
    );
}

#[test]
fn sonarr_queue_asks_for_series_not_movies() {
    assert_eq!(queue_path(MediaKind::Tv), "/api/v3/queue?pageSize=200&includeSeries=false");
    assert_eq!(queue_path(MediaKind::Movie), "/api/v3/queue?pageSize=200&includeMovie=false");
}

#[test]
fn sonarr_history_is_keyed_by_series_id() {
    assert_eq!(history_path(MediaKind::Tv, 222), "/api/v3/history/series?seriesId=222");
    assert_eq!(history_path(MediaKind::Movie, 222), "/api/v3/history/movie?movieId=222");
}

#[test]
fn a_series_query_without_sonarr_configured_is_an_error() {
    assert!(service_for(MediaKind::Tv, false).is_err());
    assert_eq!(service_for(MediaKind::Tv, true), Ok(Service::Sonarr));
    assert_eq!(service_for(MediaKind::Movie, false), Ok(Service::Radarr));
}

#[test]
fn a_series_call_without_sonarr_configured_is_an_error() {
    let err = service_for(MediaKind::Tv, false).unwrap_err();
    assert!(err.message().contains("sonarr is not configured"));
}

#[test]
fn a_deadline_that_runs_out_is_called_just_that() {
    let path = || "/api/v3/release?movieId=111".to_string();
    let radarr = Service::Radarr;
    let late = ArrFailure::while_sending(radarr, path(), 20, true).message();
    assert!(late.contains("did not answer within"), "got: {late}");
    let halfway =
        ArrFailure::while_reading(radarr, path(), 120, "200 OK".to_string(), true).message();
    assert!(halfway.contains("did not answer within"), "got: {halfway}");
    assert!(!halfway.contains("cannot read"), "got: {halfway}");
    assert!(halfway.contains("/api/v3/release"), "got: {halfway}");
    let unreadable =
        ArrFailure::while_reading(radarr, path(), 120, "200 OK".to_string(), false).message();
    assert!(unreadable.contains("cannot read"), "got: {unreadable}");
}

#[test]
fn a_host_that_refuses_is_neither_a_timeout_nor_an_unreadable_body() {
    let err = ArrFailure::while_sending(Service::Radarr, movie_path(111), 20, false).message();
    assert!(err.contains("could not be reached"), "got: {err}");
    assert!(!err.contains("cannot read"), "got: {err}");
    assert!(!err.contains("did not answer within"), "got: {err}");
}

#[test]
fn the_release_deadline_is_two_minutes_and_the_others_twenty_seconds() {
    assert_eq!(RELEASE_DEADLINE, 120);
    assert_eq!(STANDARD_DEADLINE, 20);
}

#[test]
fn a_refused_call_names_its_path_and_its_status() {
    let refused = ArrFailure::Refused {
        service: Service::Sonarr,
        path: series_path(1),
        status: "500 Internal Server Error".to_string(),
    };
    assert_eq!(
        refused.message(),
        "sonarr answered 500 Internal Server Error for /api/v3/series/1"
    );
}

#[test]
fn two_missing_episodes_and_one_without_a_date_are_read_as_such() {
    let body = json(
        r#"{ "monitored": true,
             "seasons": [ { "seasonNumber": 0, "monitored": false },
                          { "seasonNumber": 1, "monitored": true } ] }"#,
    );
    let episodes = json(
        r#"[ { "seasonNumber": 1, "episodeNumber": 1, "airDateUtc": "2026-01-01T00:00:00Z",
               "hasFile": true, "monitored": true },
             { "seasonNumber": 1, "episodeNumber": 2, "airDateUtc": "2030-01-08T00:00:00Z",
               "hasFile": false, "monitored": true },
             { "seasonNumber": 1, "episodeNumber": 3, "hasFile": false, "monitored": false } ]"#,
    );
    let series = series_from(&body, &episodes).unwrap();
    assert!(series.monitored);
    assert_eq!(series.monitored_seasons, vec![1]);
    let missing: Vec<u16> =
        series.episodes.iter().filter(|e| !e.has_file).map(|e| e.number).collect();
    assert_eq!(missing, vec![2, 3]);
    assert_eq!(series.episodes[1].air_date, parse_rfc3339("2030-01-08T00:00:00Z"));
    assert_eq!(series.episodes[2].air_date, None);
    assert!(series_from(&json("{}"), &episodes).is_none());
    assert!(series_from(&body, &json("{}")).is_none());
}

#[test]
fn a_season_is_searched_with_series_and_season() {
    assert_eq!(season_releases_path(1, 2), "/api/v3/release?seriesId=1&seasonNumber=2");
    assert_eq!(releases_path(111), "/api/v3/release?movieId=111");
    assert_eq!(episodes_path(1), "/api/v3/episode?seriesId=1");
}

#[test]
fn a_moment_is_written_the_way_it_is_read() {
    let moment = Timestamp::new(1_789_984_800, 500_000_000, 7_200).unwrap();
    let written = format_rfc3339(&moment);
    assert_eq!(written, "2026-09-21T12:00:00.5+02:00");
    assert_eq!(parse_rfc3339(&written), Some(moment));
    assert_eq!(parse_rfc3339("yesterday"), None);
}
