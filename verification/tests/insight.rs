//! Judging a wish: its state, and the reason a search comes back with.

use signal_seerr::arr::{
    ArrEpisode, ArrMovie, ArrSeries, HistoryEvent, QueueItem, QueueState, Release,
};
use signal_seerr::insight::{Evidence, classify, reason_from, series_facts};
use signal_seerr::model::{MediaKind, PartCounts, Reason, Wish, WishState};
use signal_seerr::moment::Timestamp;

const SECONDS_PER_DAY: i64 = 86_400;

/// So many days after 1970-01-01.
fn day(n: i64) -> Timestamp {
    Timestamp::new(n * SECONDS_PER_DAY, 0, 0).unwrap()
}

/// 2026-09-24 12:00 UTC.
fn now() -> Timestamp {
    after_now(0)
}

fn after_now(days: i64) -> Timestamp {
    Timestamp::new(1_790_251_200 + days * SECONDS_PER_DAY, 0, 0).unwrap()
}

fn wish() -> Wish {
    Wish {
        id: 1,
        kind: MediaKind::Movie,
        tmdb_id: 100001,
        request_status: 2,
        media_status: 3,
        arr_id: Some(42),
        created_at: day(0),
        profile_name: None,
        requested_by: None,
        download_percent: None,
        seasons: Vec::new(),
    }
}

fn no_evidence() -> Evidence<'static> {
    Evidence {
        movie: None,
        series: None,
        queue_item: None,
        last_event: None,
        known_reason: None,
    }
}

// -- classify: one test per row of the order, plus which of them comes first.

#[test]
fn media_status_5_is_available_even_with_a_queue_item() {
    let mut w = wish();
    w.media_status = 5;
    let item = QueueItem {
        arr_id: 42,
        percent: 10,
        state: QueueState::Downloading,
    };
    let ev = Evidence {
        queue_item: Some(&item),
        ..no_evidence()
    };
    assert_eq!(
        classify(&w, &ev, day(0)),
        WishState::Available
    );
}

#[test]
fn request_status_4_is_not_handed_over() {
    let mut w = wish();
    w.request_status = 4;
    assert_eq!(
        classify(&w, &no_evidence(), day(0)),
        WishState::NotHandedOver
    );
}

#[test]
fn a_missing_arr_id_while_the_wish_is_being_handed_over_is_waiting() {
    // Seerr fills `externalServiceId` on the hand-over, a moment or two
    // after the request is placed -- and that is precisely when somebody
    // asks `/status` about what they just wished for. Answering "I
    // couldn't put it on the list" there tells them their wish failed
    // while it is on its way. Status 1 is pending, status 2 approved;
    // both are open, not failed.
    for status in [1, 2] {
        let mut w = wish();
        w.arr_id = None;
        w.request_status = status;
        assert_eq!(
            classify(&w, &no_evidence(), day(0)),
            WishState::Waiting,
            "request_status {status}"
        );
    }
}

#[test]
fn a_missing_arr_id_does_not_make_a_failed_wish_anything_else() {
    // The other half of the same rule: status 4 keeps its own answer
    // whether or not an id was ever written.
    let mut w = wish();
    w.arr_id = None;
    w.request_status = 4;
    assert_eq!(
        classify(&w, &no_evidence(), day(0)),
        WishState::NotHandedOver
    );
}

#[test]
fn import_stuck_beats_not_released() {
    let w = wish();
    let item = QueueItem {
        arr_id: 42,
        percent: 0,
        state: QueueState::ImportStuck,
    };
    let movie = ArrMovie {
        is_available: false,
        has_file: false,
        digital_release: None,
        physical_release: None,
    };
    let ev = Evidence {
        movie: Some(&movie),
        queue_item: Some(&item),
        ..no_evidence()
    };
    assert_eq!(
        classify(&w, &ev, day(0)),
        WishState::ImportStuck
    );
}

#[test]
fn downloading_carries_the_percent() {
    let w = wish();
    let item = QueueItem {
        arr_id: 42,
        percent: 40,
        state: QueueState::Downloading,
    };
    let ev = Evidence {
        queue_item: Some(&item),
        ..no_evidence()
    };
    assert_eq!(
        classify(&w, &ev, day(0)),
        WishState::Downloading { percent: 40 }
    );
}

#[test]
fn not_released_picks_the_earlier_future_date() {
    let w = wish();
    let now = day(100);
    let digital = day(200);
    let physical = day(150);
    let movie = ArrMovie {
        is_available: false,
        has_file: false,
        digital_release: Some(digital),
        physical_release: Some(physical),
    };
    let ev = Evidence {
        movie: Some(&movie),
        ..no_evidence()
    };
    assert_eq!(
        classify(&w, &ev, now),
        WishState::NotReleased {
            date: Some(physical.date())
        }
    );
}

#[test]
fn not_released_with_both_dates_in_the_past_has_no_date() {
    let w = wish();
    let now = day(300);
    let digital = day(200);
    let physical = day(150);
    let movie = ArrMovie {
        is_available: false,
        has_file: false,
        digital_release: Some(digital),
        physical_release: Some(physical),
    };
    let ev = Evidence {
        movie: Some(&movie),
        ..no_evidence()
    };
    assert_eq!(
        classify(&w, &ev, now),
        WishState::NotReleased { date: None }
    );
}

#[test]
fn without_a_movie_not_released_is_never_produced() {
    // A series, or a movie with no [insight] configured: `ev.movie` is
    // `None`, so classify falls straight through the NotReleased row.
    let mut w = wish();
    w.kind = MediaKind::Tv;
    assert_ne!(
        classify(&w, &no_evidence(), day(0)),
        WishState::NotReleased { date: None }
    );
}

#[test]
fn media_status_4_is_partly_available() {
    let mut w = wish();
    w.media_status = 4;
    assert_eq!(
        classify(&w, &no_evidence(), day(0)),
        WishState::PartlyAvailable { counts: None }
    );
}

#[test]
fn a_queue_item_beats_partly_available() {
    // Half a series being there says less than the part that is coming
    // down right now: the queue row stands above the media status.
    let mut w = wish();
    w.media_status = 4;
    let item = QueueItem {
        arr_id: 42,
        percent: 60,
        state: QueueState::Downloading,
    };
    let ev = Evidence {
        queue_item: Some(&item),
        ..no_evidence()
    };
    assert_eq!(
        classify(&w, &ev, day(0)),
        WishState::Downloading { percent: 60 }
    );
}

#[test]
fn a_series_with_an_empty_queue_is_waiting_not_searching() {
    // THE POINT OF `Waiting`. There is no film evidence for a series --
    // no `movie()` and no interactive search exist on the Sonarr side --
    // so "still looking, nothing suitable so far" would be a claim about
    // a measurement that was never made. That is the very defect this
    // whole feature removes; it must not be reintroduced by a default.
    let mut w = wish();
    w.kind = MediaKind::Tv;
    assert_eq!(
        classify(&w, &no_evidence(), day(0)),
        WishState::Waiting
    );
}

#[test]
fn a_film_without_configured_insight_is_waiting_too() {
    // Same reasoning for a movie when no [insight] is configured: the
    // caller gathers no evidence, so there is nothing to claim.
    assert_eq!(
        classify(&wish(), &no_evidence(), day(0)),
        WishState::Waiting
    );
}

#[test]
fn no_queue_item_and_download_failed() {
    let w = wish();
    let ev = Evidence {
        last_event: Some(HistoryEvent::DownloadFailed),
        ..no_evidence()
    };
    assert_eq!(
        classify(&w, &ev, day(0)),
        WishState::DownloadFailed
    );
}

#[test]
fn known_reason_is_unsuitable() {
    let w = wish();
    let reason = Reason::TooLarge;
    let ev = Evidence {
        known_reason: Some(&reason),
        ..no_evidence()
    };
    assert_eq!(
        classify(&w, &ev, day(0)),
        WishState::Unsuitable(Reason::TooLarge)
    );
}

#[test]
fn a_released_film_with_nothing_else_to_show_is_searching() {
    // Radarr was asked, it has the film, it is out, nothing is in the
    // queue and no attempt has failed: only now() is "still looking"
    // something that was actually measured.
    let w = wish();
    let movie = ArrMovie {
        is_available: true,
        has_file: false,
        digital_release: None,
        physical_release: None,
    };
    let ev = Evidence {
        movie: Some(&movie),
        ..no_evidence()
    };
    assert_eq!(
        classify(&w, &ev, day(0)),
        WishState::Searching
    );
}

// -- reason_from: constructed releases, plus a whole search at every indexer.

fn release(rejected: bool, rejections: &[&str], languages: &[&str]) -> Release {
    Release {
        rejected,
        rejections: rejections.iter().map(|s| s.to_string()).collect(),
        languages: languages.iter().map(|s| s.to_string()).collect(),
    }
}

/// A whole search for one film: 37 releases, all of them rejected,
/// each with a language and none in German, most of them in Portuguese. All
/// three of Radarr's fixed sentences are among the rejections.
fn recorded_search() -> Vec<Release> {
    let score = "Custom Formats Not German or English have score -35000 below Movie's profile minimum 10000";
    let large = "43.7 GB is larger than maximum allowed 12.8 GB (for Film A)";
    let small = "1.1 GB is smaller than minimum allowed 2.0 GB (for Film A)";
    let quality = "Bluray-480p is not wanted in profile";
    let mut releases = Vec::new();
    for _ in 0..14 {
        releases.push(release(true, &[score], &["Portuguese"]));
    }
    for _ in 0..6 {
        releases.push(release(true, &[large, score], &["Portuguese"]));
    }
    for _ in 0..3 {
        releases.push(release(true, &[small], &["Portuguese"]));
    }
    for _ in 0..5 {
        releases.push(release(true, &[quality], &["English", "Portuguese"]));
    }
    for _ in 0..6 {
        releases.push(release(true, &[score], &["English"]));
    }
    for _ in 0..3 {
        releases.push(release(true, &[large], &["Spanish"]));
    }
    releases
}

#[test]
fn the_recorded_search_is_a_language_problem() {
    let releases = recorded_search();
    assert_eq!(releases.len(), 37);
    let wanted = vec!["German".to_string()];
    match reason_from(&releases, Some(&wanted)) {
        Reason::OnlyInLanguages(l) => {
            assert!(!l.is_empty() && l.len() <= 2);
            assert_eq!(l[0], "Portuguese");
        }
        other => panic!("expected a language reason, got {other:?}"),
    }
}

#[test]
fn without_a_language_table_the_same_search_is_only_otherwise() {
    assert_eq!(reason_from(&recorded_search(), None), Reason::Otherwise);
}

#[test]
fn only_in_languages_caps_at_the_two_most_frequent() {
    // Three distinct non-wanted languages, none of them "German": five
    // releases in Portuguese, three in Spanish, one in French. The
    // reason may name at most two -- the two most frequent, in
    // frequency order -- never all three.
    let wanted = vec!["German".to_string()];
    let mut releases = Vec::new();
    for _ in 0..5 {
        releases.push(release(true, &[], &["Portuguese"]));
    }
    for _ in 0..3 {
        releases.push(release(true, &[], &["Spanish"]));
    }
    releases.push(release(true, &[], &["French"]));
    match reason_from(&releases, Some(&wanted)) {
        Reason::OnlyInLanguages(l) => {
            assert_eq!(l, vec!["Portuguese".to_string(), "Spanish".to_string()]);
        }
        other => panic!("expected a language reason, got {other:?}"),
    }
}

#[test]
fn empty_release_list_is_nothing_exists() {
    assert_eq!(reason_from(&[], None), Reason::NothingExists);
}

#[test]
fn one_allowed_release_is_otherwise_even_with_a_language_mismatch() {
    // Something acceptable already exists -- the fetch is only pending,
    // never claim a language reason on top of that.
    let releases = vec![
        release(true, &[], &["Portuguese"]),
        release(false, &[], &["Portuguese"]),
    ];
    let wanted = vec!["German".to_string()];
    assert_eq!(reason_from(&releases, Some(&wanted)), Reason::Otherwise);
}

#[test]
fn all_wanted_language_releases_too_large_is_too_large() {
    let wanted = vec!["German".to_string()];
    let releases = vec![
        release(
            true,
            &["43.7 GB is larger than maximum allowed 12.8 GB (for Film A)"],
            &["German"],
        ),
        release(
            true,
            &["50.1 GB is larger than maximum allowed 12.8 GB (for Film A)"],
            &["German"],
        ),
        // Different language, unrelated rejection -- must be ignored,
        // since it does not carry the wanted language.
        release(
            true,
            &["Custom Formats Not German or English have score -35000 below Movie's profile minimum 10000"],
            &["Portuguese"],
        ),
    ];
    assert_eq!(reason_from(&releases, Some(&wanted)), Reason::TooLarge);
}

#[test]
fn all_wanted_language_releases_too_small_is_too_small() {
    let wanted = vec!["German".to_string()];
    let releases = vec![
        release(
            true,
            &["0.3 GB is smaller than minimum allowed 0.5 GB (for Film A)"],
            &["German"],
        ),
        release(
            true,
            &["0.2 GB is smaller than minimum allowed 0.5 GB (for Film A)"],
            &["German"],
        ),
    ];
    assert_eq!(reason_from(&releases, Some(&wanted)), Reason::TooSmall);
}

#[test]
fn all_wanted_language_releases_wrong_quality_is_wrong_quality() {
    let wanted = vec!["German".to_string()];
    let releases = vec![
        release(true, &["Bluray-480p is not wanted in profile"], &["German"]),
        release(true, &["BR-DISK is not wanted in profile"], &["German"]),
    ];
    assert_eq!(reason_from(&releases, Some(&wanted)), Reason::WrongQuality);
}

#[test]
fn mixed_patterns_among_wanted_language_releases_is_otherwise() {
    let wanted = vec!["German".to_string()];
    let releases = vec![
        release(
            true,
            &["43.7 GB is larger than maximum allowed 12.8 GB (for Film A)"],
            &["German"],
        ),
        release(true, &["Bluray-480p is not wanted in profile"], &["German"]),
    ];
    assert_eq!(reason_from(&releases, Some(&wanted)), Reason::Otherwise);
}

#[test]
fn without_a_language_table_patterns_are_judged_over_all_releases() {
    let releases = vec![
        release(
            true,
            &["43.7 GB is larger than maximum allowed 12.8 GB (for Film A)"],
            &["German"],
        ),
        release(
            true,
            &["50.1 GB is larger than maximum allowed 12.8 GB (for Film A)"],
            &["Portuguese"],
        ),
    ];
    assert_eq!(reason_from(&releases, None), Reason::TooLarge);
}

#[test]
fn language_match_is_case_insensitive() {
    let wanted = vec!["german".to_string()];
    let releases = vec![release(
        true,
        &["Bluray-480p is not wanted in profile"],
        &["German"],
    )];
    assert_eq!(reason_from(&releases, Some(&wanted)), Reason::WrongQuality);
}

// -- series: `series_facts`, and what `classify` makes of them.

fn episode(
    season: u16,
    number: u16,
    air: Option<Timestamp>,
    has_file: bool,
) -> ArrEpisode {
    ArrEpisode {
        season,
        number,
        air_date: air,
        has_file,
        monitored: true,
    }
}

fn tv_wish(seasons: Vec<u16>) -> Wish {
    let mut w = wish();
    w.kind = MediaKind::Tv;
    w.seasons = seasons;
    w
}

fn days(n: i64) -> Option<Timestamp> {
    Some(after_now(n))
}

#[test]
fn declined_comes_before_not_handed_over() {
    let mut w = wish();
    w.request_status = 3;
    assert_eq!(classify(&w, &no_evidence(), now()), WishState::Declined);
    assert_eq!(WishState::Declined.notice_class(), None);
}

#[test]
fn a_series_with_no_aired_episode_is_not_aired_with_the_first_air_date() {
    let series = ArrSeries {
        monitored: true,
        monitored_seasons: vec![1],
        episodes: vec![
            episode(1, 1, days(10), false),
            episode(1, 2, days(3), false),
        ],
    };
    let facts = series_facts(&series, &vec![1], now());
    assert_eq!(facts.aired, 0);
    let ev = Evidence {
        series: Some(&facts),
        ..no_evidence()
    };
    assert_eq!(
        classify(&tv_wish(vec![1]), &ev, now()),
        WishState::NotAired {
            date: Some((after_now(3)).date())
        }
    );
}

#[test]
fn a_series_with_all_aired_on_file_is_partly_available_with_counts_and_next() {
    let series = ArrSeries {
        monitored: true,
        monitored_seasons: vec![1],
        episodes: vec![
            episode(1, 1, days(-14), true),
            episode(1, 2, days(-7), true),
            episode(1, 3, days(7), false),
        ],
    };
    let facts = series_facts(&series, &vec![1], now());
    let ev = Evidence {
        series: Some(&facts),
        ..no_evidence()
    };
    // Even with Seerr saying 3 (processing): the episodes are the finer
    // measurement, and they say the rest is not out yet.
    assert_eq!(
        classify(&tv_wish(vec![1]), &ev, now()),
        WishState::PartlyAvailable {
            counts: Some(PartCounts {
                have: 2,
                aired: 2,
                next: Some((after_now(7)).date()),
            }),
        }
    );
    assert_eq!(
        WishState::PartlyAvailable { counts: None }.notice_class(),
        None
    );
}

#[test]
fn a_series_with_a_missing_aired_episode_is_searching() {
    let series = ArrSeries {
        monitored: true,
        monitored_seasons: vec![1, 2],
        episodes: vec![
            episode(1, 1, days(-30), true),
            episode(2, 1, days(-20), false),
            episode(2, 2, days(-13), false),
        ],
    };
    let facts = series_facts(&series, &vec![1, 2], now());
    assert_eq!(facts.have, 1);
    assert_eq!(facts.aired, 3);
    // The OLDEST missing one: its air date starts the clock, its season
    // is where a search would look.
    assert_eq!(facts.missing_oldest, Some((after_now(-20), 2)));
    let ev = Evidence {
        series: Some(&facts),
        ..no_evidence()
    };
    assert_eq!(
        classify(&tv_wish(vec![1, 2]), &ev, now()),
        WishState::Searching
    );
    // ... and Seerr's own "partly available" does not override the
    // measured gap.
    let mut w = tv_wish(vec![1, 2]);
    w.media_status = 4;
    assert_eq!(classify(&w, &ev, now()), WishState::Searching);
}

#[test]
fn an_empty_wish_list_counts_every_monitored_season() {
    let series = ArrSeries {
        monitored: true,
        monitored_seasons: vec![1, 2],
        episodes: vec![
            episode(1, 1, days(-30), true),
            episode(2, 1, days(-20), false),
        ],
    };
    let facts = series_facts(&series, &vec![], now());
    assert_eq!((facts.have, facts.aired), (1, 2));
    // ... while naming season 1 alone leaves season 2 out entirely.
    let only_one = series_facts(&series, &vec![1], now());
    assert_eq!((only_one.have, only_one.aired), (1, 1));
    assert_eq!(only_one.missing_oldest, None);
}

#[test]
fn an_episode_without_an_air_date_is_neither_aired_nor_missing() {
    let series = ArrSeries {
        monitored: true,
        monitored_seasons: vec![1],
        episodes: vec![episode(1, 1, days(-30), true), episode(1, 2, None, false)],
    };
    let facts = series_facts(&series, &vec![1], now());
    assert_eq!((facts.have, facts.aired), (1, 1));
    assert_eq!(facts.missing_oldest, None);
    assert_eq!(facts.next_air, None);
}

#[test]
fn an_unmonitored_season_or_episode_does_not_count() {
    let mut unmonitored = episode(2, 1, days(-20), false);
    unmonitored.monitored = false;
    let series = ArrSeries {
        monitored: true,
        monitored_seasons: vec![1], // season 2 is not monitored at all
        episodes: vec![
            episode(1, 1, days(-30), true),
            episode(1, 2, days(-25), false),
            unmonitored,
            episode(2, 2, days(-10), false),
        ],
    };
    let facts = series_facts(&series, &vec![], now());
    assert_eq!((facts.have, facts.aired), (1, 2));
    assert_eq!(facts.missing_oldest, Some((after_now(-25), 1)));
}

#[test]
fn a_series_without_evidence_is_still_waiting_or_partly_available() {
    let w = tv_wish(vec![1]);
    assert_eq!(classify(&w, &no_evidence(), now()), WishState::Waiting);
    let mut w4 = tv_wish(vec![1]);
    w4.media_status = 4;
    assert_eq!(
        classify(&w4, &no_evidence(), now()),
        WishState::PartlyAvailable { counts: None }
    );
}

#[test]
fn the_recorded_episodes_give_the_expected_facts() {
    // A season of 2019, a week between the episodes: the first three are on
    // file, the next two are missing, and the last is moved to
    // 2030-01-01T20:00:00Z.
    let weekly = |n: i64| Timestamp::new(1_557_194_400 + n * 7 * SECONDS_PER_DAY, 0, 0);
    let series = ArrSeries {
        monitored: true,
        monitored_seasons: vec![1],
        episodes: vec![
            episode(1, 1, weekly(0), true),
            episode(1, 2, weekly(1), true),
            episode(1, 3, weekly(2), true),
            episode(1, 4, weekly(3), false),
            episode(1, 5, weekly(4), false),
            episode(1, 6, Timestamp::new(1_893_528_000, 0, 0), false),
        ],
    };
    let facts = series_facts(&series, &vec![1], now());
    assert_eq!((facts.have, facts.aired), (3, 5));
    assert_eq!(facts.missing_oldest.map(|(_, s)| s), Some(1));
    assert_eq!(facts.next_air.map(|t| t.date().civil().0), Some(2030));
}

// -- reason_from: the season search's strangers and non-languages.

#[test]
fn foreign_releases_are_dropped_before_judging() {
    // 80 releases of a season search: 29 of another series, ten of an unknown
    // one, and 41 in German that fall on the profile's own sentences.
    let alias = "Series X matches an alias for series with TVDB ID: 0";
    let mut releases = Vec::new();
    for _ in 0..29 {
        releases.push(release(true, &[alias], &["English"]));
    }
    for _ in 0..10 {
        releases.push(release(true, &["Unknown Series"], &["Spanish"]));
    }
    for _ in 0..10 {
        releases.push(release(true, &["HDTV-720p is not wanted in profile"], &["German"]));
    }
    for _ in 0..31 {
        releases.push(release(
            true,
            &["Custom Formats have score -10000 below Series' profile minimum 0"],
            &["German", "English"],
        ));
    }
    assert_eq!(releases.len(), 80);
    let wanted = vec!["German".to_string()];
    assert_eq!(reason_from(&releases, Some(&wanted)), Reason::Otherwise);
}

#[test]
fn only_foreign_releases_is_nothing_exists() {
    let releases = vec![
        release(true, &["Unknown Series"], &["German"]),
        release(
            true,
            &["Series X matches an alias for series with TVDB ID: 0"],
            &["German"],
        ),
    ];
    assert_eq!(reason_from(&releases, None), Reason::NothingExists);
    let wanted = vec!["German".to_string()];
    assert_eq!(reason_from(&releases, Some(&wanted)), Reason::NothingExists);
}

#[test]
fn unknown_and_original_are_not_languages() {
    let wanted = vec!["German".to_string()];
    let releases = vec![
        release(true, &[], &["Unknown"]),
        release(true, &[], &["Unknown"]),
        release(true, &[], &["Original"]),
        release(true, &[], &["Spanish"]),
    ];
    assert_eq!(
        reason_from(&releases, Some(&wanted)),
        Reason::OnlyInLanguages(vec!["Spanish".to_string()])
    );
}

#[test]
fn a_search_with_only_unknown_languages_is_otherwise_not_an_empty_list() {
    let wanted = vec!["German".to_string()];
    let releases = vec![
        release(true, &[], &["Unknown"]),
        release(true, &[], &["Original"]),
    ];
    assert_eq!(reason_from(&releases, Some(&wanted)), Reason::Otherwise);
}
