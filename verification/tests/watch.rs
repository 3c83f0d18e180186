//! A watcher's round: once per wish and class, at most one search per wish,
//! and the record written before the message goes out.
//!
//! Every test drives a fixed clock: the whole module is about deadlines.

use signal_seerr::arr::{
    ArrEpisode, ArrMovie, ArrSeries, HistoryEvent, QueueItem, QueueState, Release,
};
use signal_seerr::dialog::status::state_text;
use signal_seerr::i18n::{Catalogue, Locale};
use signal_seerr::model::{Aci, MediaKind, Reason, Wish, WishState};
use signal_seerr::moment::{Span, Timestamp};
use signal_seerr::notices::{Note, Notices, SCHEMA};
use signal_seerr::state::{Entry, State};
use signal_seerr::table::Table;
use signal_seerr::watch::consider::{Answer, Ask};
use signal_seerr::watch::round::{Round, RoundStep};
use signal_seerr::watch::{HEARTBEAT, RoundReport, SearchTarget, WatchSettings, Watcher, same_class};

/// 2026-09-22 12:00 UTC.
const NOW: i64 = 1_790_078_400;
const HOUR: i64 = 3_600;
const DAY: i64 = 86_400;
const TITLE: &str = "Der Wunsch";
const PROFILE: &str = "Deutsch";

fn at(seconds: i64) -> Timestamp {
    Timestamp::new(seconds, 0, 0).unwrap()
}

/// The world around a round, and a note of every call it was asked for.
struct World {
    wishes: Vec<Wish>,
    /// Seerr does not answer: an outage, and not an empty list.
    seerr_down: bool,
    title: Option<String>,
    movies: Vec<(i64, ArrMovie)>,
    series: Vec<(i64, ArrSeries)>,
    queue: Vec<(MediaKind, QueueItem)>,
    event: Option<HistoryEvent>,
    releases: Vec<Release>,
    releases_fail: bool,
    send_fails: bool,
    save_fails: bool,
    movie_calls: usize,
    release_calls: usize,
    targets: Vec<SearchTarget>,
    retries: Vec<i64>,
    queue_kinds: Vec<MediaKind>,
    sent: Vec<(String, String)>,
    watcher: Watcher,
    notices: Notices,
    directory: State,
}

fn settings(per_day: u32) -> WatchSettings {
    let mut profile_languages: Table<String, Vec<String>> = Table::new();
    profile_languages.insert(PROFILE.to_string(), vec!["German".to_string()]);
    WatchSettings {
        stall_after: Span::hours(24),
        max_searches_per_day: per_day,
        notices_file: "notices.json".to_string(),
        profile_languages,
        retry_failed_after: None,
        refresh_reason_after: None,
    }
}

fn directory(locale: Locale) -> State {
    let mut state = State::default();
    state.upsert(Entry {
        authentik_username: "robert".to_string(),
        signal_username: "robert.1".to_string(),
        aci: Aci("aaaa".to_string()),
        greeted: true,
        locale,
        groups: vec!["Medien".to_string()],
    });
    state
}

fn world() -> World {
    World {
        wishes: vec![movie_wish(1)],
        seerr_down: false,
        title: Some(TITLE.to_string()),
        movies: vec![(401, available())],
        series: Vec::new(),
        queue: Vec::new(),
        event: None,
        releases: Vec::new(),
        releases_fail: false,
        send_fails: false,
        save_fails: false,
        movie_calls: 0,
        release_calls: 0,
        targets: Vec::new(),
        retries: Vec::new(),
        queue_kinds: Vec::new(),
        sent: Vec::new(),
        watcher: Watcher {
            catalogue: Catalogue::load().unwrap(),
            settings: settings(5),
            search: true,
        },
        notices: Notices::default(),
        directory: directory(Locale::De),
    }
}

impl World {
    fn answer(&mut self, ask: Ask) -> Answer {
        match ask {
            Ask::OpenWishes => Answer::Wishes(if self.seerr_down {
                None
            } else {
                Some(self.wishes.clone())
            }),
            Ask::Queue(kind) => {
                self.queue_kinds.push(kind);
                Answer::Queue(Some(
                    self.queue
                        .iter()
                        .filter(|(k, _)| *k == kind)
                        .map(|(_, item)| *item)
                        .collect(),
                ))
            }
            Ask::Title { .. } => Answer::Title(self.title.clone()),
            Ask::Save => Answer::Saved(!self.save_fails),
            Ask::Retry(id) => {
                self.retries.push(id);
                Answer::Retried
            }
            Ask::Movie(id) => {
                self.movie_calls += 1;
                Answer::Movie(self.movies.iter().find(|(known, _)| *known == id).map(|(_, m)| *m))
            }
            Ask::Series(id) => Answer::Series(
                self.series.iter().find(|(known, _)| *known == id).map(|(_, s)| s.clone()),
            ),
            Ask::History(..) => Answer::History(Some(self.event)),
            Ask::Search(target) => {
                self.release_calls += 1;
                self.targets.push(target);
                Answer::Releases(if self.releases_fail {
                    None
                } else {
                    Some(self.releases.clone())
                })
            }
            Ask::Send { to, text } => {
                if !self.send_fails {
                    self.sent.push((to.0, text));
                }
                Answer::Sent(!self.send_fails)
            }
        }
    }

    fn round(&mut self, now: i64) -> RoundReport {
        let mut round = Round::new();
        let mut answer = Answer::Begun;
        for _ in 0..10_000 {
            match round.step(
                &self.watcher,
                &mut self.notices,
                &self.directory,
                at(now),
                answer,
            ) {
                RoundStep::Do(ask) => answer = self.answer(ask),
                RoundStep::Proceed => answer = Answer::Begun,
                RoundStep::Finished(report) => return report,
            }
        }
        panic!("the round does not end");
    }

    fn note(&self, id: i64) -> &Note {
        self.notices.note(id).unwrap()
    }

    /// The record as it comes back from where it was stored.
    fn restart(&mut self) {
        let notes = self.notices.ids().into_iter().map(|id| (id, copy(self.note(id)))).collect();
        self.notices = Notices::restore(
            SCHEMA,
            notes,
            self.notices.search_day(),
            self.notices.searches_today(),
        )
        .unwrap();
    }
}

fn copy(note: &Note) -> Note {
    let mut told: Table<String, String> = Table::new();
    for i in 0..note.told.len() {
        let key = note.told.key_at(i);
        told.insert(key.clone(), note.told.get(key).unwrap().clone());
    }
    Note {
        title: note.title.clone(),
        first_seen: note.first_seen,
        seen_unreleased: note.seen_unreleased,
        released_seen: note.released_seen,
        reason: note.reason.clone(),
        searched_at: note.searched_at,
        retried_at: note.retried_at,
        told,
        last_notice: note.last_notice,
    }
}

fn report(wishes: usize, notices_sent: usize, searches: usize) -> RoundReport {
    RoundReport { wishes, notices_sent, searches, retries: 0, refreshes: 0 }
}

fn movie_wish(id: i64) -> Wish {
    Wish {
        id,
        kind: MediaKind::Movie,
        tmdb_id: 100_000 + id,
        request_status: 2,
        media_status: 3,
        arr_id: Some(400 + id),
        created_at: at(NOW - 25 * HOUR),
        profile_name: Some(PROFILE.to_string()),
        requested_by: Some("robert".to_string()),
        download_percent: None,
        seasons: Vec::new(),
    }
}

fn available() -> ArrMovie {
    ArrMovie {
        is_available: true,
        has_file: false,
        digital_release: None,
        physical_release: None,
    }
}

fn not_released() -> ArrMovie {
    ArrMovie {
        is_available: false,
        has_file: false,
        digital_release: Some(at(NOW + 30 * DAY)),
        physical_release: None,
    }
}

fn release(language: &str) -> Release {
    Release {
        rejected: true,
        rejections: vec![
            "Custom Formats Not German have score -10000 below profile minimum".to_string(),
            format!("{language} is wanted, but found otherwise"),
        ],
        languages: vec![language.to_string()],
    }
}

/// A search that found the film in two languages, and in neither of them
/// suitable.
fn foreign_releases() -> Vec<Release> {
    vec![
        release("Portuguese"),
        release("Portuguese (Brazil)"),
        release("Portuguese"),
    ]
}

fn only_in_portuguese() -> WishState {
    WishState::Unsuitable(Reason::OnlyInLanguages(vec![
        "Portuguese".to_string(),
        "Portuguese (Brazil)".to_string(),
    ]))
}

fn expected_notice(state: &WishState, id: i64) -> String {
    let catalogue = Catalogue::load().unwrap();
    let said = state_text(&catalogue, Locale::De, state);
    let mut text = catalogue.text(
        Locale::De,
        "notice.unsuitable",
        &[("title", TITLE), ("state", &said)],
    );
    if let WishState::Unsuitable(reason) = state {
        if *reason != Reason::NothingExists {
            text.push_str("\n\n");
            text.push_str(&catalogue.text(
                Locale::De,
                "notice.unsuitable_hint",
                &[("id", &id.to_string())],
            ));
        }
    }
    text
}

#[test]
fn a_wish_an_hour_short_of_the_deadline_is_left_alone() {
    let mut w = world();
    w.wishes[0].created_at = at(NOW - 23 * HOUR);

    assert_eq!(w.round(NOW), report(1, 0, 0));
    assert!(w.sent.is_empty());
    assert_eq!(w.release_calls, 0);
}

#[test]
fn a_stalled_wish_is_told_once_and_no_rejection_text_leaks() {
    let mut w = world();
    w.releases = foreign_releases();

    assert_eq!(w.round(NOW), report(1, 1, 1));
    assert_eq!(w.sent.len(), 1);
    assert_eq!(w.sent[0].0, "aaaa");
    let text = &w.sent[0].1;
    assert!(text.contains(TITLE), "the title must be in it: {text}");
    for forbidden in ["Custom", "Not German", "score"] {
        assert!(!text.contains(forbidden), "{forbidden} must not be in it: {text}");
    }
    assert_eq!(*text, expected_notice(&only_in_portuguese(), 1));
}

#[test]
fn a_told_wish_stays_quiet_across_the_next_round_and_a_restart() {
    let mut w = world();
    w.releases = foreign_releases();

    assert_eq!(w.round(NOW).notices_sent, 1);
    assert_eq!(w.round(NOW + HOUR), report(1, 0, 0));

    w.restart();
    assert_eq!(
        w.round(NOW + 2 * HOUR),
        report(1, 0, 0),
        "the record must have survived the restart"
    );
    assert_eq!(w.sent.len(), 1, "still exactly one message in total");
}

#[test]
fn a_failed_send_is_retried_next_round_without_a_second_search() {
    let mut w = world();
    w.releases = foreign_releases();
    w.send_fails = true;

    let first = w.round(NOW);
    assert_eq!(first.notices_sent, 0);
    assert_eq!(first.searches, 1);
    assert_eq!(w.note(1).told.len(), 0, "a message that never arrived was not sent");

    w.send_fails = false;
    assert_eq!(w.round(NOW + HOUR), report(1, 1, 0));
    assert_eq!(w.release_calls, 1);
    assert_eq!(w.sent[0].1, expected_notice(&only_in_portuguese(), 1));
}

#[test]
fn the_deadline_starts_when_a_film_becomes_available() {
    let mut w = world();
    w.movies = vec![(401, not_released())];
    w.watcher.search = false;
    w.wishes[0].created_at = at(NOW - 10 * DAY);

    assert_eq!(w.round(NOW).notices_sent, 0);

    let released_at = NOW + HOUR;
    w.movies = vec![(401, available())];
    assert_eq!(w.round(released_at).notices_sent, 0);
    assert_eq!(
        w.round(released_at + 23 * HOUR).notices_sent,
        0,
        "23 hours after release is still inside the deadline"
    );
    assert_eq!(w.round(released_at + 25 * HOUR).notices_sent, 1);
}

fn downloading(percent: u8) -> Vec<(MediaKind, QueueItem)> {
    vec![(
        MediaKind::Movie,
        QueueItem { arr_id: 401, percent, state: QueueState::Downloading },
    )]
}

#[test]
fn a_downloading_wish_is_never_announced() {
    let mut w = world();
    w.movies = Vec::new();
    w.queue = downloading(40);
    w.wishes[0].created_at = at(NOW - 10 * DAY);

    let report = w.round(NOW);
    assert_eq!(report.notices_sent, 0);
    assert_eq!(report.searches, 0);
    assert_eq!(w.movie_calls, 0, "a queue entry is evidence enough; no second lookup");
}

#[test]
fn one_search_per_round_five_a_day_and_a_fresh_budget_tomorrow() {
    let mut w = world();
    w.movies = (1..=6).map(|id| (400 + id, available())).collect();
    w.releases = foreign_releases();
    w.wishes = (1..=6).map(movie_wish).collect();

    for round in 0..5 {
        let report = w.round(NOW + 60 * round);
        assert_eq!(
            (report.searches, report.notices_sent),
            (1, 1),
            "round {round} must search once and tell one person"
        );
    }

    let sixth = w.round(NOW + 60 * 5);
    assert_eq!(
        (sixth.searches, sixth.notices_sent),
        (0, 0),
        "today's budget is used up, and the last wish waits for its search"
    );

    let tomorrow = w.round(NOW + DAY);
    assert_eq!((tomorrow.searches, tomorrow.notices_sent), (1, 1));
    assert_eq!(w.release_calls, 6);
}

#[test]
fn without_the_search_the_general_sentence_goes_out_right_away() {
    let mut w = world();
    w.watcher.search = false;

    assert_eq!(w.round(NOW), report(1, 1, 0));
    assert_eq!(w.sent[0].1, expected_notice(&WishState::Searching, 1));
}

#[test]
fn a_requester_without_a_signal_name_is_never_told_and_nothing_is_recorded() {
    let mut w = world();
    w.releases = foreign_releases();
    w.directory = State::default();

    let report = w.round(NOW);
    assert_eq!(report.notices_sent, 0);
    assert_eq!(report.searches, 0, "no budget on somebody unreachable");
    assert!(w.sent.is_empty());
    assert_eq!(w.note(1).told.len(), 0);
}

#[test]
fn a_wish_gone_from_seerr_loses_its_note() {
    let mut w = world();
    w.releases = foreign_releases();
    w.round(NOW);
    assert!(w.notices.note(1).is_some());

    w.wishes = Vec::new();
    w.round(NOW + HOUR);
    assert!(w.notices.note(1).is_none());
}

/// Without an answer about the series nothing was measured, and nothing is
/// claimed.
#[test]
fn a_stalled_series_costs_no_lookup_and_is_told_nothing() {
    let mut w = world();
    w.movies = Vec::new();
    w.wishes[0].kind = MediaKind::Tv;

    let report = w.round(NOW);

    assert_eq!(w.movie_calls, 0);
    assert_eq!(w.release_calls, 0);
    assert_eq!(report.searches, 0);
    assert_eq!(report.notices_sent, 0, "nothing was measured, so there is nothing to claim");
    assert!(w.sent.is_empty());
    assert_eq!(w.note(1).told.len(), 0);
    assert_eq!(w.queue_kinds, vec![MediaKind::Movie, MediaKind::Tv]);
}

#[test]
fn a_seerr_outage_is_not_a_withdrawal() {
    let mut w = world();
    w.releases = foreign_releases();
    w.round(NOW);

    w.seerr_down = true;
    assert_eq!(w.round(NOW + HOUR), RoundReport::default());
    assert!(w.notices.note(1).is_some(), "an outage must not look like a withdrawal");
}

#[test]
fn a_wish_waiting_for_its_search_is_not_told_anything_yet() {
    let mut w = world();
    w.movies = vec![(401, available()), (402, available())];
    w.releases = foreign_releases();
    w.watcher.settings = settings(1);
    w.wishes = vec![movie_wish(1), movie_wish(2)];

    let first = w.round(NOW);
    assert_eq!((first.searches, first.notices_sent), (1, 1));

    let second = w.round(NOW + HOUR);
    assert_eq!(
        (second.searches, second.notices_sent),
        (0, 0),
        "no message while the wish is still waiting for its search"
    );
    assert_eq!(w.note(2).told.len(), 0);
}

#[test]
fn a_limit_of_zero_allows_no_search() {
    let mut w = world();
    w.releases = foreign_releases();
    w.watcher.settings = settings(0);

    for hour in 0..30 {
        assert_eq!(w.round(NOW + hour * HOUR).searches, 0);
    }
    assert_eq!(w.release_calls, 0);
    assert_eq!(w.notices.searches_today(), 0);
}

#[test]
fn a_day_of_rounds_keeps_to_its_limit() {
    let mut w = world();
    w.releases_fail = true;
    w.watcher.settings = settings(3);

    let midnight = NOW - NOW.rem_euclid(DAY);
    for hour in 0..24 {
        w.round(midnight + hour * HOUR);
    }
    assert_eq!(w.release_calls, 3, "failed searches count too");
    w.round(midnight + DAY);
    assert_eq!(w.release_calls, 4, "a new day has its budget");
}

#[test]
fn a_failed_search_costs_its_budget_and_says_nothing() {
    let mut w = world();
    w.releases_fail = true;
    w.watcher.settings = settings(1);

    let first = w.round(NOW);
    assert_eq!((first.searches, first.notices_sent), (1, 0));
    assert!(w.note(1).reason.is_none(), "a failed search knows no reason");
    assert!(w.note(1).searched_at.is_none());
    assert_eq!(w.note(1).told.len(), 0);

    let second = w.round(NOW + HOUR);
    assert_eq!((second.searches, second.notices_sent), (0, 0));
    assert_eq!(w.release_calls, 1);
}

#[test]
fn a_wish_first_seen_in_the_queue_does_not_restart_its_clock_afterwards() {
    let mut w = world();
    w.queue = downloading(30);
    w.event = Some(HistoryEvent::DownloadFailed);
    w.wishes[0].created_at = at(NOW - 3 * DAY);

    assert_eq!(w.round(NOW).notices_sent, 0);
    assert_eq!(w.movie_calls, 0, "a queue entry answers on its own");

    w.queue = Vec::new();
    assert_eq!(w.round(NOW + HOUR).notices_sent, 1);
}

#[test]
fn a_wish_whose_first_lookup_failed_does_not_restart_its_clock_either() {
    let mut w = world();
    w.movies = Vec::new();
    w.event = Some(HistoryEvent::DownloadFailed);
    w.wishes[0].created_at = at(NOW - 3 * DAY);

    assert_eq!(w.round(NOW).notices_sent, 0);
    assert!(
        w.notices.note(1).is_some(),
        "the note is written even when the round gives up on the wish"
    );

    w.movies = vec![(401, available())];
    assert_eq!(
        w.round(NOW + HOUR).notices_sent,
        1,
        "one failed lookup must not cost the person a further day"
    );
}

#[test]
fn the_searching_notice_reads_as_a_sentence_in_both_languages() {
    for (locale, expected) in [
        (
            Locale::De,
            "Zu \u{201e}Der Wunsch\": ich suche noch, bisher war nichts Passendes dabei. \
             Ich suche weiter und melde mich, wenn er da ist.",
        ),
        (
            Locale::En,
            "About \"Der Wunsch\": still looking, nothing suitable so far. \
             I keep looking and will tell you when it is here.",
        ),
    ] {
        let mut w = world();
        w.watcher.search = false;
        w.directory = directory(locale);

        assert_eq!(w.round(NOW).notices_sent, 1);
        assert_eq!(w.sent[0].1, expected, "{locale:?}");
    }
}

#[test]
fn the_nothing_exists_notice_reads_as_a_sentence_in_both_languages() {
    for (locale, expected) in [
        (
            Locale::De,
            "Zu \u{201e}Der Wunsch\": bisher nirgends aufzutreiben. \
             Ich suche weiter und melde mich, wenn er da ist.",
        ),
        (
            Locale::En,
            "About \"Der Wunsch\": nowhere to be found so far. \
             I keep looking and will tell you when it is here.",
        ),
    ] {
        let mut w = world();
        w.directory = directory(locale);

        let report = w.round(NOW);
        assert_eq!((report.searches, report.notices_sent), (1, 1));
        assert_eq!(w.sent[0].1, expected, "{locale:?}");
    }
}

#[test]
fn both_ways_out_of_a_round_end_in_a_report() {
    assert_eq!(HEARTBEAT, "watch: round complete");
    let mut w = world();
    w.wishes = Vec::new();
    assert_eq!(w.round(NOW), RoundReport::default());
    w.seerr_down = true;
    assert_eq!(w.round(NOW), RoundReport::default());
}

// -- a series, a retry, a second look --------------------------------------

/// The first season aired completely and lacks its second episode.
fn with_a_gap() -> ArrSeries {
    let episode = |number: u16, has_file: bool| ArrEpisode {
        season: 1,
        number,
        air_date: Some(at(NOW - (40 - number as i64) * DAY)),
        has_file,
        monitored: true,
    };
    ArrSeries {
        monitored: true,
        monitored_seasons: vec![1],
        episodes: vec![episode(1, true), episode(2, false)],
    }
}

#[test]
fn a_stalled_series_is_searched_by_the_season_that_lacks_an_episode() {
    let mut w = world();
    w.movies = Vec::new();
    w.series = vec![(401, with_a_gap())];
    w.wishes[0].kind = MediaKind::Tv;
    w.wishes[0].created_at = at(NOW - 60 * DAY);
    w.releases = foreign_releases();

    assert_eq!(w.round(NOW), report(1, 1, 1));
    assert_eq!(w.targets, vec![SearchTarget::Season(401, 1)]);
    assert!(w.sent[0].1.contains(TITLE));
}

#[test]
fn a_wish_that_could_not_be_handed_over_is_tried_once_more_before_anybody_hears() {
    let mut w = world();
    w.wishes[0].request_status = 4;
    w.watcher.settings.retry_failed_after = Some(Span::hours(1));

    let first = w.round(NOW);
    assert_eq!((first.retries, first.notices_sent), (1, 0));
    assert_eq!(w.retries, vec![1]);
    assert!(w.note(1).retried_at.is_some());

    // It failed again: now somebody has to know, and no third try is made.
    let second = w.round(NOW + 25 * HOUR);
    assert_eq!((second.retries, second.notices_sent), (0, 1));
    assert_eq!(w.retries, vec![1]);
}

#[test]
fn a_recorded_reason_is_looked_at_again_and_only_news_is_told() {
    let mut w = world();
    w.releases = foreign_releases();
    w.watcher.settings.refresh_reason_after = Some(Span::hours(48));
    assert_eq!(w.round(NOW), report(1, 1, 1));

    // The same languages in another order are no news.
    w.releases = vec![
        release("Portuguese (Brazil)"),
        release("Portuguese"),
        release("Portuguese (Brazil)"),
    ];
    let again = w.round(NOW + 49 * HOUR);
    assert_eq!((again.refreshes, again.notices_sent), (1, 0));

    w.releases = Vec::new();
    let news = w.round(NOW + 98 * HOUR);
    assert_eq!((news.refreshes, news.notices_sent), (1, 1));
    assert_eq!(w.sent.len(), 2);
}

#[test]
fn a_reason_that_cannot_be_saved_is_not_told() {
    let mut w = world();
    w.releases = foreign_releases();
    w.save_fails = true;

    let report = w.round(NOW);
    assert_eq!((report.searches, report.notices_sent), (1, 0));
    assert!(w.sent.is_empty());
}

#[test]
fn a_retry_that_cannot_be_written_down_is_not_made() {
    let mut w = world();
    w.wishes[0].request_status = 4;
    w.watcher.settings.retry_failed_after = Some(Span::hours(1));
    w.save_fails = true;

    assert_eq!(w.round(NOW).retries, 0);
    assert!(w.retries.is_empty());
}

#[test]
fn two_reasons_are_one_class_whatever_the_order_of_their_languages() {
    let both = |a: &str, b: &str| Reason::OnlyInLanguages(vec![a.to_string(), b.to_string()]);
    assert!(same_class(&both("German", "French"), &both("French", "German")));
    assert!(!same_class(&both("German", "French"), &both("German", "German")));
    let one = Reason::OnlyInLanguages(vec!["German".to_string()]);
    assert!(same_class(&both("German", "German"), &one), "languages are a set");
    assert!(same_class(&one, &both("German", "German")));
    assert!(!same_class(&one, &Reason::OnlyInLanguages(Vec::new())));
    assert!(!same_class(&Reason::TooLarge, &Reason::TooSmall));
    assert!(same_class(&Reason::TooLarge, &Reason::TooLarge));
}
