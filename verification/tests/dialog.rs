//! Conversations: what a message leads to, and what is answered.

use signal_seerr::arr::{ArrEpisode, ArrMovie, ArrSeries, HistoryEvent, QueueItem};
use signal_seerr::dialog::{
    Call, Conversation, Dialog, RESULTS_LIVE, Reply, STRANGER_QUIET, Turn, prune_stale_strangers,
};
use signal_seerr::directory::Member;
use signal_seerr::i18n::{Catalogue, Locale};
use signal_seerr::model::{
    Aci, Hit, MediaKind, QualityProfile, Seasons, SeerrUserId, Wish,
};
use signal_seerr::moment::Timestamp;
use signal_seerr::notices::Notices;
use signal_seerr::table::Table;

/// 2026-09-21 12:00 UTC.
const NOW: i64 = 1_789_992_000;
const DAY: i64 = 86_400;
/// The reading of the clock that dates conversations.
const TICK: u64 = 50_000_000_000_000;
const SECOND: u64 = 1_000_000_000;

fn at(seconds: i64) -> Timestamp {
    Timestamp::new(seconds, 0, 0).unwrap()
}

/// A dialog, the world around it, and a note of every call it made.
struct Chat {
    dialog: Dialog,
    members: Vec<(&'static str, Member)>,
    tick: u64,
    notices: Option<Notices>,
    hits: Vec<Hit>,
    /// Seerr does not answer a search.
    search_fails: bool,
    profiles: Vec<QualityProfile>,
    /// The profile that Seerr says a request kept.
    readback: Option<i64>,
    wishes: Vec<Wish>,
    title: Option<String>,
    /// Authentik name to Seerr account; whoever is not in it is 12.
    users: Vec<(&'static str, i64)>,
    withdraw_refused: bool,
    movies: Vec<(i64, ArrMovie)>,
    series: Vec<(i64, ArrSeries)>,
    queue: Vec<QueueItem>,
    event: Option<HistoryEvent>,
    /// Radarr and Sonarr do not answer.
    insight_fails: bool,
    placed: Vec<(i64, Seasons, SeerrUserId)>,
    asked_profile: Option<i64>,
    queries: Vec<String>,
    pending_calls: Vec<SeerrUserId>,
    title_calls: usize,
    movie_calls: Vec<i64>,
    series_calls: Vec<i64>,
    queue_calls: Vec<MediaKind>,
    withdrawn: Vec<(i64, SeerrUserId)>,
}

fn member(name: &str) -> Member {
    Member {
        authentik_username: name.to_string(),
        locale: Locale::De,
        allowed: true,
    }
}

fn chat() -> Chat {
    Chat {
        dialog: Dialog::new(
            Catalogue::load().unwrap(),
            "https://example.invalid".to_string(),
            "the operator".to_string(),
            Vec::new(),
            false,
        ),
        members: vec![("aaaa", member("robert")), ("eeee", member("silvia"))],
        tick: TICK,
        notices: None,
        hits: Vec::new(),
        search_fails: false,
        profiles: Vec::new(),
        readback: None,
        wishes: Vec::new(),
        title: None,
        users: Vec::new(),
        withdraw_refused: false,
        movies: Vec::new(),
        series: Vec::new(),
        queue: Vec::new(),
        event: None,
        insight_fails: false,
        placed: Vec::new(),
        asked_profile: None,
        queries: Vec::new(),
        pending_calls: Vec::new(),
        title_calls: 0,
        movie_calls: Vec::new(),
        series_calls: Vec::new(),
        queue_calls: Vec::new(),
        withdrawn: Vec::new(),
    }
}

impl Chat {
    fn reply(&mut self, call: Call) -> Reply {
        match call {
            Call::Search { query, kind, page } => {
                self.queries.push(query);
                if self.search_fails {
                    return Reply::Hits(None);
                }
                let matching: Vec<Hit> = self
                    .hits
                    .iter()
                    .filter(|h| kind.is_none_or(|k| k == h.kind))
                    .cloned()
                    .collect();
                Reply::Hits(Some(
                    matching
                        .chunks(5)
                        .nth(page as usize - 1)
                        .map(|c| c.to_vec())
                        .unwrap_or_default(),
                ))
            }
            Call::User(name) => {
                let id = self.users.iter().find(|(n, _)| *n == name).map_or(12, |(_, id)| *id);
                Reply::User(Some(SeerrUserId(id)))
            }
            Call::Profiles(_) => Reply::Profiles(Some(self.profiles.clone())),
            Call::Place { hit, seasons, user, profile } => {
                self.asked_profile = profile;
                self.placed.push((hit.tmdb_id, seasons, user));
                Reply::Placed(Some(1849))
            }
            Call::ProfileOf(_) => Reply::ProfileIs(self.readback),
            Call::Pending(user) => {
                self.pending_calls.push(user);
                Reply::Pending(Some(self.wishes.clone()))
            }
            Call::Withdraw { id, user } => {
                self.withdrawn.push((id, user));
                Reply::Withdrawn(!self.withdraw_refused)
            }
            Call::Title { .. } => {
                self.title_calls += 1;
                Reply::Title(self.title.clone())
            }
            Call::Queue(kind) => {
                self.queue_calls.push(kind);
                Reply::Queue(if self.insight_fails { None } else { Some(self.queue.clone()) })
            }
            Call::Movie(id) => {
                self.movie_calls.push(id);
                let found = self.movies.iter().find(|(known, _)| *known == id).map(|(_, m)| *m);
                Reply::Movie(if self.insight_fails { None } else { found })
            }
            Call::Series(id) => {
                self.series_calls.push(id);
                let found =
                    self.series.iter().find(|(known, _)| *known == id).map(|(_, s)| s.clone());
                Reply::Series(if self.insight_fails { None } else { found })
            }
            Call::History(..) => {
                Reply::History(if self.insight_fails { None } else { Some(self.event) })
            }
        }
    }

    fn from(&mut self, account: &str, text: &str) -> Vec<String> {
        let aci = Aci(account.to_string());
        let member = self.members.iter().find(|(a, _)| *a == account).map(|(_, m)| m);
        let mut turn = self.dialog.handle(&aci, member, text, self.tick);
        for _ in 0..10_000 {
            let (waiting, reply) = match turn {
                Turn::Say(texts) => return texts,
                Turn::Proceed(waiting) => (waiting, Reply::Nothing),
                Turn::Call { call, waiting } => {
                    let reply = self.reply(call);
                    (waiting, reply)
                }
            };
            turn = self.dialog.resume(waiting, reply, self.notices.as_ref(), at(NOW), self.tick);
        }
        panic!("no answer");
    }

    fn says(&mut self, text: &str) -> Vec<String> {
        self.from("aaaa", text)
    }
}

fn catalogue_text(key: &str, args: &[(&str, &str)]) -> String {
    Catalogue::load().unwrap().text(Locale::De, key, args)
}

fn movie(id: i64, title: &str) -> Hit {
    Hit {
        tmdb_id: id,
        kind: MediaKind::Movie,
        title: title.to_string(),
        year: Some(2017),
        rating: Some("8.0".to_string()),
        seasons: 0,
        already: false,
    }
}

fn series(id: i64, title: &str, seasons: u16) -> Hit {
    Hit { kind: MediaKind::Tv, seasons, ..movie(id, title) }
}

#[test]
fn a_bare_title_searches() {
    let mut c = chat();
    c.hits = vec![movie(1, "Blade Runner 2049")];
    let out = c.says("blade runner");
    assert_eq!(out.len(), 1);
    assert!(out[0].contains("1. Blade Runner 2049"), "got: {}", out[0]);
    assert!(out[0].contains("2017"), "got: {}", out[0]);
}

#[test]
fn a_whole_conversation_in_english_reads_as_it_should() {
    let mut c = chat();
    c.members[0].1.locale = Locale::En;
    c.hits = vec![
        Hit { rating: None, ..movie(335984, "Blade Runner 2049") },
        Hit { rating: None, year: Some(1982), ..movie(78, "Blade Runner") },
    ];
    assert_eq!(
        c.says("Blade Runner 2049"),
        ["1. Blade Runner 2049 (2017) · Movie\n\
          2. Blade Runner (1982) · Movie\n\n\
          Reply with the number. \"m\" shows more."]
    );
    assert_eq!(
        c.says("1"),
        ["Blade Runner 2049 is on the list. I'll let you know once it's here.\n\
          Wrong one? /withdraw 1849 takes it off again."]
    );
}

#[test]
fn a_line_of_a_list_names_the_rating_and_what_is_there_already() {
    let mut c = chat();
    c.hits = vec![Hit { already: true, year: None, ..series(2, "Andor", 2) }];
    assert_eq!(
        c.says("andor"),
        ["1. Andor · Serie · ★ 8.0 · schon da\n\nAntworte mit der Nummer. \"m\" zeigt mehr."]
    );
}

#[test]
fn an_unknown_sender_is_told_where_to_go_and_then_left_alone() {
    let mut c = chat();
    let first = c.from("zzzz", "hallo");
    assert_eq!(first.len(), 1);
    assert!(first[0].contains("example.invalid"), "got: {}", first[0]);

    let second = c.from("zzzz", "hallo?");
    assert!(second.is_empty(), "answered a stranger twice: {second:?}");

    // An hour later the same person may have forgotten.
    c.tick += STRANGER_QUIET;
    assert_eq!(c.from("zzzz", "hallo?").len(), 1);
}

#[test]
fn a_known_account_without_the_media_group_gets_a_different_sentence() {
    let mut c = chat();
    c.members[0].1.allowed = false;
    let out = c.says("blade runner");
    assert!(!out[0].contains("example.invalid"), "got: {}", out[0]);
    assert!(out[0].contains("Gruppe"), "got: {}", out[0]);
}

#[test]
fn nothing_found_says_so() {
    let out = chat().says("asdfghjkl");
    assert!(out[0].contains("nichts"), "got: {}", out[0]);
}

#[test]
fn seerr_being_down_is_not_reported_as_nothing_found() {
    let mut c = chat();
    c.search_fails = true;
    let out = c.says("blade runner");
    assert!(out[0].contains("Wunschliste"), "got: {}", out[0]);
}

#[test]
fn a_hit_that_is_already_there_is_marked() {
    let mut c = chat();
    c.hits = vec![Hit { already: true, ..movie(1, "Blade Runner") }];
    let out = c.says("blade");
    assert!(out[0].contains("schon da"), "got: {}", out[0]);
}

#[test]
fn m_shows_the_next_page_and_then_says_there_is_no_more() {
    let mut c = chat();
    c.hits = (1..=7).map(|i| movie(i, &format!("Film {i}"))).collect();

    let first = c.says("film");
    assert!(first[0].contains("5. Film 5"), "five per page: {}", first[0]);

    let second = c.says("m");
    assert!(second[0].contains("Film 6"), "got: {}", second[0]);
    assert!(
        second[0].contains("1. Film 6"),
        "numbering restarts per page: {}",
        second[0]
    );

    let third = c.says("m");
    assert!(third[0].contains("Mehr habe ich nicht"), "got: {}", third[0]);
}

#[test]
fn film_and_serie_narrow_the_search() {
    let mut c = chat();
    c.hits = vec![movie(1, "Andor the Movie"), series(2, "Andor", 2)];

    let only_films = c.says("/film andor");
    assert!(only_films[0].contains("Andor the Movie"));
    assert!(!only_films[0].contains("1. Andor\n"), "the series leaked in");

    let only_series = c.says("/serie andor");
    assert!(only_series[0].contains("Andor"));
    assert!(!only_series[0].contains("Andor the Movie"), "the film leaked in");
}

#[test]
fn a_film_command_reaches_seerr_with_the_original_case_preserved() {
    let mut c = chat();
    c.says("/film Blade Runner 2049");
    assert_eq!(c.queries, ["Blade Runner 2049"]);
}

#[test]
fn a_bare_title_reaches_seerr_unchanged() {
    let mut c = chat();
    c.says("Blade Runner");
    assert_eq!(c.queries, ["Blade Runner"]);
}

#[test]
fn a_query_that_changes_byte_length_when_lowercased_does_not_panic() {
    let mut c = chat();
    let out = c.says("/film ẞ");
    assert_eq!(c.queries, ["ẞ"], "the original character, not the lowercased one");
    assert!(!out.is_empty(), "must still answer");
}

#[test]
fn m_with_no_open_list_says_it_does_not_understand() {
    let out = chat().says("m");
    assert_eq!(out[0], catalogue_text("error.not_understood", &[]));
}

#[test]
fn each_stranger_is_told_once_independently() {
    let mut c = chat();
    assert_eq!(c.from("stranger-a", "hi").len(), 1, "a must be told");
    assert_eq!(c.from("stranger-b", "hi").len(), 1, "a different stranger must be told too");
    assert!(c.from("stranger-a", "hi again").is_empty(), "a was just told");
    assert!(c.from("stranger-b", "hi again").is_empty(), "b was just told");
}

#[test]
fn stale_stranger_entries_are_pruned_and_fresh_ones_survive() {
    let mut told: Table<String, u64> = Table::new();
    told.insert("old".to_string(), TICK - STRANGER_QUIET - SECOND);
    told.insert("fresh".to_string(), TICK);

    prune_stale_strangers(&mut told, TICK);

    assert_eq!(told.len(), 1, "the stale entry must be gone");
    assert!(told.contains_key(&"fresh".to_string()));
    assert!(!told.contains_key(&"old".to_string()));
}

#[test]
fn a_digit_places_the_request_in_the_asker_s_name() {
    let mut c = chat();
    c.hits = vec![movie(335984, "Blade Runner 2049")];
    c.says("blade runner");
    let out = c.says("1");
    assert!(out[0].contains("eingetragen"), "got: {}", out[0]);
    assert!(out[0].contains("1849"), "the withdrawal number must be named: {}", out[0]);
    assert_eq!(c.placed.len(), 1);
    assert_eq!((c.placed[0].0, c.placed[0].2), (335984, SeerrUserId(12)));
}

#[test]
fn a_digit_outside_the_list_is_not_a_request() {
    let mut c = chat();
    c.hits = vec![movie(1, "A")];
    c.says("a");
    let out = c.says("4");
    assert!(out[0].contains("nichts anfangen"), "got: {}", out[0]);
}

#[test]
fn a_digit_with_no_open_list_is_a_search() {
    let out = chat().says("2");
    assert!(out[0].contains("nichts"), "expected a search, got: {}", out[0]);
}

#[test]
fn a_digit_against_a_backdated_results_list_is_a_fresh_search() {
    let mut c = chat();
    c.dialog.conversations.insert(
        "aaaa".to_string(),
        Conversation::Results {
            query: "old".to_string(),
            kind: None,
            page: 1,
            hits: vec![movie(1, "A")],
            at: TICK - RESULTS_LIVE - SECOND,
        },
    );
    c.says("2");
    assert_eq!(c.queries, ["2"], "a backdated list must not be chosen from");
    assert!(c.placed.is_empty(), "must not have placed anything from a stale list");
}

#[test]
fn a_seasons_answer_against_a_backdated_question_does_not_place_a_request() {
    let mut c = chat();
    c.dialog.conversations.insert(
        "aaaa".to_string(),
        Conversation::Seasons { hit: series(1, "A", 2), at: TICK - RESULTS_LIVE - SECOND },
    );
    c.says("alle");
    assert!(c.placed.is_empty(), "a backdated question must not accept an answer");
}

#[test]
fn a_stale_list_is_forgotten_only_when_it_is_answered() {
    let stale = |c: &mut Chat| {
        c.dialog.conversations.insert(
            "aaaa".to_string(),
            Conversation::Results {
                query: "old".to_string(),
                kind: None,
                page: 1,
                hits: vec![movie(1, "A")],
                at: TICK - RESULTS_LIVE - SECOND,
            },
        );
    };
    let is_kept = |c: &Chat| c.dialog.conversations.contains_key(&"aaaa".to_string());

    for text in ["/help", "/status", "/weg 3", "a title"] {
        let mut c = chat();
        stale(&mut c);
        c.says(text);
        assert!(is_kept(&c), "{text} has nothing to do with the list");
    }
    for text in ["1", "m", "/cancel"] {
        let mut c = chat();
        stale(&mut c);
        c.says(text);
        assert!(!is_kept(&c), "{text} meets a stale list");
        assert!(c.placed.is_empty());
    }
}

#[test]
fn a_stale_question_is_forgotten_by_everything_but_help() {
    for (text, kept) in [("/help", true), ("/status", false), ("a title", false), ("1", false)] {
        let mut c = chat();
        c.dialog.conversations.insert(
            "aaaa".to_string(),
            Conversation::Seasons { hit: series(1, "A", 2), at: TICK - RESULTS_LIVE - SECOND },
        );
        c.says(text);
        assert_eq!(c.dialog.conversations.contains_key(&"aaaa".to_string()), kept, "{text}");
    }
}

#[test]
fn a_series_is_asked_about_its_seasons_before_anything_is_placed() {
    let mut c = chat();
    c.hits = vec![series(4321, "Andor", 2)];
    c.says("andor");
    let asked = c.says("1");
    assert!(asked[0].contains("Staffeln"), "got: {}", asked[0]);
    assert!(c.placed.is_empty());

    let done = c.says("alle");
    assert!(done[0].contains("eingetragen"), "got: {}", done[0]);
}

#[test]
fn named_seasons_are_passed_through() {
    let mut c = chat();
    c.hits = vec![series(4321, "Andor", 3)];
    c.says("andor");
    c.says("1");
    c.says("1 3");

    assert_eq!(c.placed.len(), 1);
    assert_eq!(c.placed[0].1, Seasons::Only(vec![1, 3]));
    assert_eq!(c.placed[0].2, SeerrUserId(12), "placed as the asker, not as the key owner");
}

#[test]
fn a_season_number_that_does_not_exist_is_refused() {
    let mut c = chat();
    c.hits = vec![series(4321, "Andor", 2)];
    c.says("andor");
    c.says("1");
    let out = c.says("1 9");
    assert!(out[0].contains("Staffeln"), "asked again, got: {}", out[0]);
    assert!(c.placed.is_empty(), "placed a season that does not exist");
}

#[test]
fn status_lists_what_is_still_on_its_way() {
    let mut c = chat();
    c.title = Some("Blade Runner 2049".to_string());
    c.wishes = vec![Wish { request_status: 1, created_at: at(0), ..wish(1849, None) }];

    let out = c.says("/status");
    assert!(out[0].contains("1849"), "got: {}", out[0]);
    assert!(out[0].contains("Blade Runner 2049"), "got: {}", out[0]);
    assert!(out[0].contains("wartet"), "got: {}", out[0]);
    assert!(
        !out[0].contains("nicht eintragen"),
        "a wish on its way must not read as a failure: {}",
        out[0]
    );
}

#[test]
fn status_says_so_when_there_is_nothing() {
    let out = chat().says("/status");
    assert!(out[0].contains("nichts unterwegs"), "got: {}", out[0]);
}

#[test]
fn weg_withdraws_and_confirms() {
    let mut c = chat();
    let out = c.says("/weg 1849");
    assert!(out[0].contains("zurückgenommen"), "got: {}", out[0]);
    assert_eq!(c.withdrawn, vec![(1849, SeerrUserId(12))]);
}

#[test]
fn weg_without_a_number_does_not_reach_seerr() {
    let mut c = chat();
    let out = c.says("/weg");
    assert!(out[0].contains("nichts anfangen"), "got: {}", out[0]);
    assert!(c.withdrawn.is_empty());
}

#[test]
fn weg_on_somebody_elses_request_reports_it_as_not_yours() {
    let mut c = chat();
    c.withdraw_refused = true;
    let out = c.says("/weg 1849");
    assert!(out[0].contains("1849"), "the number must be named back: {}", out[0]);
    assert!(!out[0].contains("zurückgenommen"), "claimed success: {}", out[0]);
}

#[test]
fn help_is_the_same_text_as_the_greeting() {
    let out = chat().says("/help");
    assert_eq!(out[0], catalogue_text("help.body", &[]));
}

/// A series was picked, and the seasons are asked for.
fn mid_seasons_question(seasons: u16) -> Chat {
    let mut c = chat();
    c.hits = vec![series(4321, "Andor", seasons)];
    c.says("andor");
    c.says("1");
    c
}

#[test]
fn status_mid_seasons_question_re_asks_instead_of_listing() {
    let out = mid_seasons_question(2).says("/status");
    assert!(out[0].contains("Staffeln"), "must re-ask, not list: {}", out[0]);
}

#[test]
fn abbruch_mid_seasons_question_clears_it_and_a_following_digit_is_a_fresh_search() {
    let mut c = mid_seasons_question(2);
    let cancelled = c.says("/abbruch");
    assert!(cancelled.is_empty(), "got: {cancelled:?}");

    c.says("3");
    assert_eq!(c.queries, ["andor", "3"], "the digit must be a fresh search");
    assert!(c.placed.is_empty(), "must not have placed anything for '3'");
}

#[test]
fn hilfe_mid_seasons_question_answers_and_leaves_the_question_open() {
    let mut c = mid_seasons_question(3);
    let help = c.says("/hilfe");
    assert_eq!(help[0], catalogue_text("help.body", &[]));

    let done = c.says("alle");
    assert!(done[0].contains("eingetragen"), "the seasons question was lost: {}", done[0]);
}

#[test]
fn season_zero_is_refused() {
    let mut c = mid_seasons_question(2);
    let out = c.says("0");
    assert!(out[0].contains("Staffeln"), "asked again, got: {}", out[0]);
    assert!(c.placed.is_empty());
}

#[test]
fn a_season_number_equal_to_the_count_is_accepted() {
    let mut c = mid_seasons_question(2);
    let out = c.says("2");
    assert!(out[0].contains("eingetragen"), "got: {}", out[0]);
    assert_eq!(c.placed.len(), 1);
    assert_eq!(c.placed[0].1, Seasons::Only(vec![2]));
}

#[test]
fn an_empty_seasons_answer_is_refused() {
    let mut c = mid_seasons_question(2);
    let out = c.says("   ");
    assert!(out[0].contains("Staffeln"), "asked again, got: {}", out[0]);
    assert!(c.placed.is_empty());
}

#[test]
fn a_non_numeric_seasons_answer_is_refused() {
    let mut c = mid_seasons_question(2);
    let out = c.says("eins");
    assert!(out[0].contains("Staffeln"), "asked again, got: {}", out[0]);
    assert!(c.placed.is_empty());
}

// -- the profile -------------------------------------------------------------

/// Two profiles whose numbers are not their positions, so a mix-up shows.
fn two_profiles() -> Vec<QualityProfile> {
    vec![
        QualityProfile { id: 7, name: "Dual Language, sonst Deutsch (1080p)".to_string() },
        QualityProfile { id: 11, name: "Rarität, Originalsprache (auch SD)".to_string() },
    ]
}

fn with_profiles() -> Chat {
    let mut c = chat();
    c.hits = vec![movie(1, "Blade Runner 2049")];
    c.profiles = two_profiles();
    c
}

#[test]
fn choosing_a_film_asks_for_the_profile_before_placing_anything() {
    let mut c = with_profiles();
    c.says("blade runner");
    let answer = c.says("1").join("\n");
    assert!(
        answer.contains("Dual Language, sonst Deutsch (1080p)"),
        "the question must list the profiles, got: {answer}"
    );
    assert!(answer.contains("Rarität, Originalsprache (auch SD)"));
    assert!(c.placed.is_empty(), "nothing may be requested before the profile is chosen");
}

#[test]
fn the_answer_sends_that_profiles_id_not_its_position() {
    let mut c = with_profiles();
    c.says("blade runner");
    c.says("1");
    c.says("2");
    assert_eq!(c.asked_profile, Some(11), "position 2 is the profile with id 11");
    assert_eq!(c.placed.len(), 1);
}

#[test]
fn without_profiles_the_request_goes_out_unasked() {
    let mut c = chat();
    c.hits = vec![movie(1, "Blade Runner 2049")];
    c.says("blade runner");
    let answer = c.says("1").join("\n");
    assert_eq!(c.placed.len(), 1);
    assert_eq!(c.asked_profile, None);
    assert!(
        answer.contains("Blade Runner 2049"),
        "the confirmation, not a question: {answer}"
    );
}

#[test]
fn a_series_is_asked_for_seasons_first_then_the_profile() {
    let mut c = chat();
    c.hits = vec![Hit {
        year: Some(2022),
        rating: Some("8.4".to_string()),
        ..series(2, "Andor", 2)
    }];
    c.profiles = two_profiles();

    c.says("andor");
    let after_choice = c.says("1").join("\n");
    assert!(after_choice.contains("Staffeln"), "seasons come first: {after_choice}");

    let after_seasons = c.says("alle").join("\n");
    assert!(
        after_seasons.contains("Rarität, Originalsprache (auch SD)"),
        "and the profile question follows: {after_seasons}"
    );
    assert!(c.placed.is_empty(), "still nothing placed");

    c.says("1");
    assert_eq!(c.asked_profile, Some(7));
    assert_eq!(c.placed.len(), 1);
}

#[test]
fn cancel_and_help_still_get_through_an_open_profile_question() {
    let mut c = with_profiles();
    c.says("blade runner");
    c.says("1");

    let help = c.says("/hilfe").join("\n");
    assert!(help.contains("/abbruch"), "help, not the question again");

    let on = c.says("1");
    assert_eq!(c.placed.len(), 1, "{on:?}");

    c.says("blade runner");
    c.says("1");
    assert!(c.says("/abbruch").is_empty(), "cancel says nothing and clears");
}

#[test]
fn a_number_outside_the_list_repeats_the_profile_question() {
    let mut c = with_profiles();
    c.says("blade runner");
    c.says("1");
    let again = c.says("9").join("\n");
    assert!(again.contains("Rarität, Originalsprache (auch SD)"));
    assert!(c.placed.is_empty());
}

#[test]
fn the_confirmation_names_the_profile_seerr_actually_kept() {
    let mut c = with_profiles();
    // The bot asks for 7; Seerr answers that it kept 11.
    c.readback = Some(11);
    c.says("blade runner");
    c.says("1");
    let confirmation = c.says("1").join("\n");
    assert_eq!(c.asked_profile, Some(7));
    assert!(
        confirmation.contains("Rarität, Originalsprache (auch SD)"),
        "the confirmation must name what Seerr kept: {confirmation}"
    );
}

#[test]
fn the_configured_order_wins_over_seerrs_own() {
    let mut c = with_profiles();
    c.dialog.quality_profiles = vec![
        "Rarität, Originalsprache (auch SD)".to_string(),
        "Gibt es nicht".to_string(),
        "Dual Language, sonst Deutsch (1080p)".to_string(),
    ];
    c.says("blade runner");
    let question = c.says("1").join("\n");

    let rarity = question.find("Rarität").unwrap();
    let dual = question.find("Dual Language").unwrap();
    assert!(rarity < dual, "the configured order counts: {question}");
    assert!(!question.contains("Gibt es nicht"), "an unknown name is not listed: {question}");

    c.says("1");
    assert_eq!(c.asked_profile, Some(11));
}

// -- the status --------------------------------------------------------------

/// An open film: handed over, approved, and not there yet.
fn wish(id: i64, arr_id: Option<i64>) -> Wish {
    Wish {
        id,
        kind: MediaKind::Movie,
        tmdb_id: 4321,
        request_status: 2,
        media_status: 3,
        arr_id,
        created_at: at(NOW),
        profile_name: None,
        requested_by: None,
        download_percent: None,
        seasons: Vec::new(),
    }
}

fn arr_movie(is_available: bool) -> ArrMovie {
    ArrMovie { is_available, has_file: false, digital_release: None, physical_release: None }
}

fn with_insight() -> Chat {
    let mut c = chat();
    c.dialog.has_insight = true;
    c
}

#[test]
fn status_names_a_film_that_is_not_released_yet() {
    let mut c = with_insight();
    c.wishes = vec![wish(1849, Some(42)), wish(1850, Some(43))];
    c.title = Some("Blade Runner 2049".to_string());
    c.movies = vec![(42, arr_movie(false)), (43, arr_movie(false))];

    let out = c.says("/status").join("\n");
    assert!(out.contains(&catalogue_text("status.not_released", &[])), "got: {out}");
    assert!(!out.contains("wird geholt"), "got: {out}");
    assert_eq!(c.queue_calls.len(), 1, "the queue is read once per status, not once per wish");
}

#[test]
fn status_only_ever_asks_about_the_senders_own_wishes() {
    let mut c = with_insight();
    c.wishes = vec![wish(24, Some(5))];
    c.title = Some("Arrival".to_string());
    c.users = vec![("robert", 12), ("silvia", 77)];
    c.movies = vec![(5, arr_movie(true))];

    c.from("eeee", "/status");
    assert_eq!(c.pending_calls, [SeerrUserId(77)], "their own account, and nobody else's");

    c.from("eeee", "/status 24");
    assert_eq!(
        c.pending_calls,
        [SeerrUserId(77)],
        "a number after /status must not fetch anybody's wish list again"
    );
    assert_eq!(c.movie_calls, [5], "only the film of their own wish was ever asked about");
}

#[test]
fn status_lists_open_wishes_and_only_recently_available_ones() {
    let mut c = chat();
    c.wishes = vec![
        Wish { created_at: at(NOW - 30 * DAY), ..wish(1, None) },
        Wish { media_status: 5, created_at: at(NOW - 30 * DAY), ..wish(2, None) },
        Wish { media_status: 5, created_at: at(NOW - DAY), ..wish(3, None) },
    ];
    c.title = Some("Arrival".to_string());

    let out = c.says("/status").join("\n");
    let ids: Vec<&str> = out.lines().map(|line| line.split(':').next().unwrap()).collect();
    assert_eq!(ids, ["1", "3"], "the open one and the fresh one: {out}");
}

#[test]
fn a_remembered_title_is_used_and_costs_no_lookup() {
    let mut notices = Notices::default();
    notices.note_mut(1849, at(NOW)).title = Some("Arrival".to_string());
    let mut c = chat();
    c.notices = Some(notices);
    c.wishes = vec![wish(1849, None), wish(1850, None)];
    c.title = Some("Blade Runner 2049".to_string());

    let out = c.says("/status").join("\n");
    assert!(out.contains("Arrival"), "got: {out}");
    assert!(out.contains("Blade Runner 2049"), "got: {out}");
    assert_eq!(c.title_calls, 1, "only the wish with no remembered title may cost a lookup");
}

#[test]
fn without_insight_the_bot_does_not_claim_to_be_searching() {
    let mut c = chat();
    c.wishes = vec![wish(1849, Some(42))];
    c.title = Some("Arrival".to_string());

    let out = c.says("/status").join("\n");
    assert!(out.contains(&catalogue_text("status.waiting", &[])), "got: {out}");
    assert!(
        !out.contains(&catalogue_text("status.searching", &[])),
        "a claim about a search nobody measured: {out}"
    );
}

#[test]
fn without_insight_seerrs_own_download_percent_is_shown() {
    let mut c = chat();
    c.wishes = vec![Wish { download_percent: Some(54), ..wish(1849, Some(42)) }];
    c.title = Some("Arrival".to_string());

    let out = c.says("/status").join("\n");
    assert!(
        out.contains(&catalogue_text("status.downloading", &[("percent", "54")])),
        "got: {out}"
    );
    assert!(!out.contains(&catalogue_text("status.waiting", &[])), "got: {out}");
}

#[test]
fn placing_a_film_that_is_not_out_yet_says_so_in_the_confirmation() {
    let mut c = with_insight();
    c.hits = vec![movie(1, "Blade Runner 2049")];
    c.wishes = vec![wish(1849, Some(7))];
    c.movies = vec![(7, arr_movie(false))];

    c.says("blade runner");
    let out = c.says("1").join("\n");
    assert_eq!(
        out,
        catalogue_text(
            "request.placed_not_released",
            &[("title", "Blade Runner 2049"), ("id", "1849")],
        )
    );
}

#[test]
fn a_failing_lookup_leaves_the_ordinary_confirmation() {
    let mut c = with_insight();
    c.hits = vec![movie(1, "Blade Runner 2049")];
    c.wishes = vec![wish(1849, Some(7))];
    c.insight_fails = true;

    c.says("blade runner");
    let out = c.says("1").join("\n");
    assert_eq!(
        out,
        catalogue_text("request.placed", &[("title", "Blade Runner 2049"), ("id", "1849")])
    );
    assert_eq!(c.placed.len(), 1, "the wish itself went out all the same");
}

fn tv_wish(id: i64, arr_id: i64) -> Wish {
    Wish { kind: MediaKind::Tv, seasons: vec![1], ..wish(id, Some(arr_id)) }
}

fn one_season(episodes: &[(u16, i64, bool)]) -> ArrSeries {
    ArrSeries {
        monitored: true,
        monitored_seasons: vec![1],
        episodes: episodes
            .iter()
            .map(|&(number, days_from_now, has_file)| ArrEpisode {
                season: 1,
                number,
                air_date: Some(at(NOW + days_from_now * DAY)),
                has_file,
                monitored: true,
            })
            .collect(),
    }
}

#[test]
fn status_reads_a_series_off_its_episodes() {
    let mut c = with_insight();
    c.wishes = vec![tv_wish(1, 42), tv_wish(2, 43), tv_wish(3, 44)];
    c.title = Some("Die Serie".to_string());
    c.series = vec![
        (42, one_season(&[(1, -30, true), (2, -20, false)])),
        (43, one_season(&[(1, -30, true), (2, 7, false)])),
        (44, one_season(&[(1, 14, false)])),
    ];

    let out = c.says("/status").join("\n");
    let lines: Vec<&str> = out.lines().collect();
    assert_eq!(lines.len(), 3, "{out}");
    assert!(lines[0].ends_with(&catalogue_text("status.searching", &[])), "{out}");
    assert!(lines[1].contains("die nächste kommt am"), "{out}");
    assert!(lines[2].contains("die erste Folge kommt am"), "{out}");
    assert_eq!(c.series_calls, vec![42, 43, 44]);
    assert!(c.movie_calls.is_empty());
}

#[test]
fn status_calls_a_declined_wish_declined_without_asking_anybody() {
    let mut c = with_insight();
    c.wishes = vec![Wish { request_status: 3, ..wish(1, Some(42)) }];
    c.title = Some("Der Wunsch".to_string());

    let out = c.says("/status").join("\n");
    assert!(out.ends_with(&catalogue_text("status.declined", &[])), "{out}");
    assert!(c.movie_calls.is_empty());
    assert!(c.queue_calls.is_empty());
}

#[test]
fn two_people_have_two_conversations() {
    let mut c = chat();
    c.hits = vec![movie(1, "Blade Runner 2049")];
    c.says("blade runner");
    c.from("eeee", "1");
    assert!(c.placed.is_empty(), "a number means nothing to somebody without a list");
    assert_eq!(c.queries, ["blade runner", "1"]);
    c.says("1");
    assert_eq!(c.placed.len(), 1);
}
