//! The people the bot knows, how the directory follows Authentik, and the
//! record of what they were told.

use signal_seerr::directory::diff::{AuthentikUser, Change, plan};
use signal_seerr::directory::{Pass, PassEvent, PassStep, Resolution, member_of, parse_users};
use signal_seerr::i18n::{Catalogue, Locale};
use signal_seerr::json::parse_json;
use signal_seerr::model::{Aci, Reason};
use signal_seerr::moment::Timestamp;
use signal_seerr::notices::{Note, Notices, SCHEMA};
use signal_seerr::state::{Entry, State};
use signal_seerr::table::Table;

/// 2026-09-21 00:00 UTC.
const MIDNIGHT: i64 = 1_789_948_800;

fn at(hour: i64, minute: i64) -> Timestamp {
    Timestamp::new(MIDNIGHT + hour * 3_600 + minute * 60, 0, 0).unwrap()
}

fn user(name: &str, signal: Option<&str>) -> AuthentikUser {
    AuthentikUser {
        username: name.to_string(),
        signal_username: signal.map(|s| s.to_string()),
        locale: "de".to_string(),
        groups: vec!["Medien".to_string()],
    }
}

fn entry(user: &str, signal: &str, aci: &str) -> Entry {
    Entry {
        authentik_username: user.to_string(),
        signal_username: signal.to_string(),
        aci: Aci(aci.to_string()),
        greeted: false,
        locale: Locale::De,
        groups: vec!["Medien".to_string()],
    }
}

/// A directory with one person, who has been greeted.
fn known(name: &str, signal: &str, aci: &str) -> State {
    let mut state = State::default();
    state.upsert(Entry { greeted: true, ..entry(name, signal, aci) });
    state
}

// -- what has changed ----------------------------------------------------------

#[test]
fn a_new_name_is_added() {
    assert_eq!(
        plan(&State::default(), &[user("robert", Some("robert.42"))]),
        vec![Change::Added {
            username: "robert".to_string(),
            signal_username: "robert.42".to_string(),
        }]
    );
}

#[test]
fn an_unchanged_name_produces_nothing() {
    let state = known("robert", "robert.42", "aaaa");
    assert!(plan(&state, &[user("robert", Some("robert.42"))]).is_empty());
}

#[test]
fn a_changed_name_is_rebound() {
    let state = known("robert", "robert.42", "aaaa");
    assert_eq!(
        plan(&state, &[user("robert", Some("robert.99"))]),
        vec![Change::Rebound {
            username: "robert".to_string(),
            signal_username: "robert.99".to_string(),
        }]
    );
}

#[test]
fn a_cleared_field_says_goodbye() {
    let state = known("robert", "robert.42", "aaaa");
    assert_eq!(
        plan(&state, &[user("robert", None)]),
        vec![Change::Removed {
            username: "robert".to_string(),
            aci: Aci("aaaa".to_string()),
        }]
    );
}

#[test]
fn a_deleted_account_says_goodbye_too() {
    let state = known("robert", "robert.42", "aaaa");
    assert_eq!(
        plan(&state, &[]),
        vec![Change::Removed {
            username: "robert".to_string(),
            aci: Aci("aaaa".to_string()),
        }]
    );
}

#[test]
fn a_name_already_bound_elsewhere_is_a_conflict_not_a_silent_takeover() {
    let state = known("robert", "robert.42", "aaaa");
    assert_eq!(
        plan(
            &state,
            &[user("robert", Some("robert.42")), user("konrad", Some("ROBERT.42"))],
        ),
        vec![Change::Conflict {
            username: "konrad".to_string(),
            signal_username: "ROBERT.42".to_string(),
            held_by: "robert".to_string(),
        }],
        "case must not open a back door"
    );
}

#[test]
fn two_new_accounts_claiming_one_name_yield_one_add_and_one_conflict() {
    let got = plan(
        &State::default(),
        &[user("a", Some("shared.1")), user("b", Some("shared.1"))],
    );
    assert_eq!(got.len(), 2);
    assert!(matches!(got[0], Change::Added { .. }));
    assert!(matches!(got[1], Change::Conflict { .. }));
}

#[test]
fn whitespace_around_a_name_is_ignored() {
    let state = known("robert", "robert.42", "aaaa");
    assert!(plan(&state, &[user("robert", Some("  robert.42  "))]).is_empty());
}

#[test]
fn an_empty_field_counts_as_no_name() {
    assert!(plan(&State::default(), &[user("robert", Some("   "))]).is_empty());
}

// -- carrying it out -----------------------------------------------------------

/// Carries a plan out, with a way to look names up and one account that
/// cannot be reached, and returns what was sent.
fn carry_out(
    state: &mut State,
    changes: Vec<Change>,
    users: &[AuthentikUser],
    resolve: fn(&str) -> Resolution,
    unreachable: &str,
) -> Vec<(String, String)> {
    let catalogue = Catalogue::load().unwrap();
    let mut pass = Pass::new(changes);
    let mut event = PassEvent::Begun;
    let mut sent = Vec::new();
    for _ in 0..1_000 {
        match pass.step(state, users, &catalogue, event) {
            PassStep::Done => return sent,
            PassStep::Resolve { signal_username } => {
                event = PassEvent::Resolved(resolve(&signal_username));
            }
            PassStep::Send { aci, text } => {
                let ok = aci.0 != unreachable;
                if ok {
                    sent.push((aci.0, text));
                }
                event = PassEvent::Sent(ok);
            }
        }
    }
    panic!("the pass does not end");
}

fn found(_name: &str) -> Resolution {
    Resolution::Found(Aci("aaaa".to_string()))
}

#[test]
fn an_added_user_is_greeted_exactly_once() {
    let mut state = State::default();
    let users = vec![user("robert", Some("robert.42"))];

    let changes = plan(&state, &users);
    let sent = carry_out(&mut state, changes, &users, found, "");
    assert_eq!(sent.len(), 1);
    assert!(state.by_user("robert").unwrap().greeted);

    let changes = plan(&state, &users);
    assert!(carry_out(&mut state, changes, &users, found, "").is_empty(), "greeted twice");
}

#[test]
fn everybody_is_welcomed_once_over_two_passes() {
    let mut state = State::default();
    let mut half = vec![user("silvia", Some("silvia.1"))];
    let changes = plan(&state, &half);
    assert!(carry_out(&mut state, changes, &half, found, "aaaa").is_empty());
    assert!(!state.by_user("silvia").unwrap().greeted);

    half.push(user("robert", Some("robert.42")));
    half.push(user("nobody", None));
    let changes = plan(&state, &half);
    assert_eq!(carry_out(&mut state, changes, &half, found, "").len(), 2);
    let changes = plan(&state, &half);
    assert!(changes.is_empty());
    assert!(carry_out(&mut state, changes, &half, found, "").is_empty());
}

#[test]
fn a_name_that_does_not_resolve_is_not_stored() {
    let mut state = State::default();
    let users = vec![user("robert", Some("typo.99"))];
    for _ in 0..2 {
        let changes = plan(&state, &users);
        let sent = carry_out(&mut state, changes, &users, |_| Resolution::Unknown, "");
        assert!(sent.is_empty(), "nobody to greet");
        assert!(state.by_user("robert").is_none(), "an unresolvable name must not be pinned");
    }
}

#[test]
fn a_failing_send_leaves_the_person_retriable_and_the_next_pass_greets_them() {
    let mut state = State::default();
    let users = vec![user("robert", Some("robert.42"))];

    let changes = plan(&state, &users);
    assert!(carry_out(&mut state, changes, &users, found, "aaaa").is_empty());
    assert_eq!(
        state.by_user("robert").map(|e| e.greeted),
        Some(false),
        "the mapping exists, but the welcome never went out"
    );

    let changes = plan(&state, &users);
    assert_eq!(changes, vec![Change::Greet { username: "robert".to_string() }]);
    let sent = carry_out(&mut state, changes, &users, found, "");
    assert_eq!(sent.len(), 1);
    assert!(state.by_user("robert").unwrap().greeted);
}

#[test]
fn one_failing_recipient_does_not_block_the_others_in_the_same_pass() {
    let mut state = State::default();
    let users = vec![user("a", Some("a.1")), user("b", Some("b.1"))];
    let changes = plan(&state, &users);
    carry_out(
        &mut state,
        changes,
        &users,
        |name| Resolution::Found(Aci(format!("aci-{name}"))),
        "aci-a.1",
    );
    assert_eq!(
        state.by_user("a").map(|e| e.greeted),
        Some(false),
        "a is retriable, not lost"
    );
    assert_eq!(
        state.by_user("b").map(|e| e.greeted),
        Some(true),
        "b must still be greeted despite a's failure"
    );
}

#[test]
fn a_person_who_is_gone_hears_goodbye_once_and_is_forgotten() {
    let catalogue = Catalogue::load().unwrap();
    let mut state = known("robert", "robert.42", "aaaa");
    let changes = plan(&state, &[]);
    let sent = carry_out(&mut state, changes, &[], found, "");
    assert_eq!(
        sent,
        vec![("aaaa".to_string(), catalogue.text(Locale::De, "farewell.body", &[]))]
    );
    assert!(state.is_empty());
}

#[test]
fn run_once_greets_a_new_user_end_to_end() {
    let page = parse_json(
        r#"{"results":[{"username":"robert","attributes":{"signal_username":"robert.42"},
            "groups_obj":[{"name":"Medien"}]}]}"#,
    )
    .unwrap();
    let users = parse_users(&page, "de");
    let mut state = State::default();
    let changes = plan(&state, &users);
    carry_out(
        &mut state,
        changes,
        &users,
        |_| Resolution::Found(Aci("aaaa-bbbb".to_string())),
        "",
    );
    let entry = state.by_user("robert").expect("robert was greeted");
    assert!(entry.greeted);
    assert_eq!(entry.aci, Aci("aaaa-bbbb".to_string()));
    assert_eq!(entry.groups, vec!["Medien".to_string()]);
}

// -- reading Authentik ---------------------------------------------------------

#[test]
fn users_are_read_out_of_authentiks_page() {
    let body = parse_json(
        r#"{
            "pagination": { "next": 0 },
            "results": [
                { "username": "robert", "attributes": { "signal_username": "robert.42" },
                  "groups_obj": [ { "name": "Medien" } ] },
                { "username": "konrad", "attributes": {}, "groups_obj": [] },
                { "username": "svc-ldap", "attributes": { "signal_username": "" },
                  "groups_obj": [ { "name": "LDAP-Suche" } ] }
            ]
        }"#,
    )
    .unwrap();
    let got = parse_users(&body, "de");
    assert_eq!(got.len(), 3);
    assert_eq!(got[0].signal_name(), Some("robert.42"));
    assert!(got[0].groups.contains(&"Medien".to_string()));
    assert_eq!(got[1].signal_name(), None, "a missing attribute is no name");
    assert_eq!(got[2].signal_name(), None, "an empty attribute is no name");
}

#[test]
fn the_locale_falls_back_when_authentik_has_none() {
    let body =
        parse_json(r#"{ "results": [ { "username": "a", "attributes": { "settings": {} } } ] }"#)
            .unwrap();
    assert_eq!(parse_users(&body, "de")[0].locale, "de");
}

#[test]
fn the_locale_is_read_from_the_settings_attribute() {
    let body = parse_json(
        r#"{ "results": [ { "username": "a", "attributes": { "settings": { "locale": "en" } } } ] }"#,
    )
    .unwrap();
    assert_eq!(parse_users(&body, "de")[0].locale, "en");
}

// -- the directory -------------------------------------------------------------

#[test]
fn a_new_directory_is_empty() {
    assert!(State::default().is_empty());
}

#[test]
fn state_it_round_trips() {
    let mut s = State::default();
    s.upsert(entry("robert", "robert.42", "aaaa"));

    let back = State::restore(s.iter().clone());
    assert_eq!(
        back.by_aci(&Aci("aaaa".to_string())).unwrap().authentik_username,
        "robert"
    );
    assert_eq!(back.by_user("robert").unwrap().signal_username, "robert.42");
    assert_eq!(back.iter(), s.iter());
}

#[test]
fn upsert_replaces_the_entry_for_that_account() {
    let mut s = State::default();
    s.upsert(entry("robert", "robert.42", "aaaa"));
    s.upsert(entry("robert", "robert.99", "bbbb"));
    assert_eq!(s.len(), 1);
    assert!(s.by_aci(&Aci("aaaa".to_string())).is_none(), "the old aci is gone");
    assert_eq!(s.by_user("robert").unwrap().signal_username, "robert.99");
}

#[test]
fn a_person_is_forgotten_and_the_others_stay() {
    let mut s = State::default();
    s.upsert(entry("robert", "robert.42", "aaaa"));
    s.upsert(entry("silvia", "silvia.7", "eeee"));
    assert_eq!(s.remove_user("robert").unwrap().aci, Aci("aaaa".to_string()));
    assert!(s.remove_user("robert").is_none());
    assert_eq!(s.len(), 1);
    assert_eq!(
        s.signal_name_taken_by("SILVIA.7").unwrap().authentik_username,
        "silvia",
        "a Signal name is the same in any case"
    );
}

#[test]
fn only_the_media_group_may_ask() {
    let mut s = State::default();
    s.upsert(entry("robert", "robert.42", "aaaa"));
    let aci = Aci("aaaa".to_string());
    assert!(member_of(&s, &aci, "Medien").unwrap().allowed);
    assert!(!member_of(&s, &aci, "Anderes").unwrap().allowed);
    assert!(member_of(&s, &Aci("zzzz".to_string()), "Medien").is_none());
}

// -- the record ----------------------------------------------------------------

#[test]
fn a_new_record_is_empty() {
    assert!(Notices::default().note(1).is_none());
}

fn arrival() -> Note {
    let mut note = Note::new(at(10, 0));
    note.title = Some("Arrival".to_string());
    note.reason = Some(Reason::OnlyInLanguages(vec!["Portuguese".to_string()]));
    note.searched_at = Some(at(10, 5));
    let mut told: Table<String, String> = Table::new();
    told.insert("unsuitable".to_string(), "2026-09-21T10:06:00Z".to_string());
    note.told = told;
    note.last_notice = Some(at(10, 6));
    note
}

#[test]
fn notices_it_round_trips() {
    let mut n = Notices::default();
    *n.note_mut(42, at(10, 0)) = arrival();
    n.count_search(at(10, 0));

    let back = Notices::restore(
        SCHEMA,
        vec![(42, arrival())],
        n.search_day(),
        n.searches_today(),
    )
    .unwrap();
    assert_eq!(n.ids(), back.ids());
    assert_eq!(format!("{:?}", back.note(42)), format!("{:?}", n.note(42)));
    assert!(back.may_search(at(12, 0), 2));
    assert!(!back.may_search(at(12, 0), 1));
}

#[test]
fn an_unknown_layout_is_refused_by_its_number() {
    let refused = Notices::restore(2, Vec::new(), None, 0).unwrap_err();
    assert_eq!(refused.schema, 2);
}

#[test]
fn may_search_counts_per_utc_calendar_day_and_resets_on_the_next() {
    let mut n = Notices::default();
    let morning = at(8, 0);
    let evening = at(23, 0);
    let next_day = at(24, 30);

    assert!(n.may_search(morning, 2));
    n.count_search(morning);
    assert!(n.may_search(evening, 2));
    n.count_search(evening);
    assert!(!n.may_search(evening, 2), "budget for today is used up");

    assert!(n.may_search(next_day, 2));
}

#[test]
fn no_budget_is_no_search() {
    let mut n = Notices::default();
    assert!(!n.may_search(at(8, 0), 0), "not even the first of a day");
    assert!(n.may_search(at(8, 0), 1));
    n.count_search(at(8, 0));
    assert!(!n.may_search(at(32, 0), 0), "nor the first of the next");
}

#[test]
fn every_id_comes_once_and_a_copy_holds_the_same() {
    let mut n = Notices::default();
    for id in [3, 1, 3, 2, 1] {
        n.note_mut(id, at(10, 0));
    }
    assert_eq!(n.ids(), [3, 1, 2]);
    n.count_search(at(10, 0));

    let copy = n.clone();
    n.retain_only(&[2]);
    assert_eq!(n.ids(), [2]);
    assert_eq!(copy.ids(), [3, 1, 2]);
    assert_eq!(copy.searches_today(), 1);
}

#[test]
fn retain_only_drops_entries_not_in_the_given_ids() {
    let mut n = Notices::default();
    n.note_mut(1, at(10, 0));
    n.note_mut(2, at(10, 0));
    n.note_mut(3, at(10, 0));

    n.retain_only(&[1, 3]);

    assert!(n.note(1).is_some());
    assert!(n.note(2).is_none(), "withdrawn wish must be dropped");
    assert!(n.note(3).is_some());
}

#[test]
fn a_note_keeps_the_moment_it_was_made() {
    let mut n = Notices::default();
    n.note_mut(1, at(10, 0));
    assert_eq!(n.note_mut(1, at(11, 0)).first_seen, at(10, 0));
}
