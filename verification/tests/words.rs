//! The messages, and how states and dates are put into words.

use signal_seerr::dialog::commands::strip_command;
use signal_seerr::dialog::status::{language_name, render_date, state_text};
use signal_seerr::i18n::{Catalogue, Locale};
use signal_seerr::model::{Reason, WishState};
use signal_seerr::moment::Date;
use signal_seerr::secret::Secret;

fn catalogue() -> Catalogue {
    Catalogue::load().expect("the messages parse")
}

#[test]
fn both_catalogues_carry_the_same_keys() {
    let c = catalogue();
    let mut de = c.keys(Locale::De);
    let mut en = c.keys(Locale::En);
    de.sort();
    en.sort();
    assert_eq!(de, en, "both languages must define exactly the same keys");
    assert!(!de.is_empty());
    de.dedup();
    assert_eq!(de.len(), en.len(), "every key comes once");
}

#[test]
fn placeholders_are_substituted() {
    let c = catalogue();
    let s = c.text(
        Locale::De,
        "request.placed",
        &[("title", "Andor"), ("id", "17")],
    );
    assert!(s.contains("Andor"), "got: {s}");
    assert!(s.contains("17"), "got: {s}");
    assert!(!s.contains('{'), "no placeholder may survive: {s}");
}

#[test]
fn an_unknown_key_yields_the_key_itself() {
    let c = catalogue();
    assert_eq!(c.text(Locale::De, "nope.nothing", &[]), "nope.nothing");
}

#[test]
fn a_message_that_is_not_there_is_not_looked_up() {
    let c = catalogue();
    assert_eq!(c.lookup(Locale::De, "nope.nothing"), None);
    assert_eq!(c.lookup(Locale::De, "search.kind_tv"), Some("Serie"));
    assert_eq!(c.lookup(Locale::En, "search.kind_tv"), Some("Series"));
}

#[test]
fn a_name_that_the_message_does_not_mention_changes_nothing() {
    let c = catalogue();
    assert_eq!(
        c.text(Locale::En, "search.none", &[("title", "Andor")]),
        c.text(Locale::En, "search.none", &[])
    );
}

#[test]
fn messages_are_read_from_nested_tables_of_texts() {
    let c = Catalogue::from_toml("[a.b]\nc = \"x {n}\"\n", "d = \"y\"\n").unwrap();
    assert_eq!(c.text(Locale::De, "a.b.c", &[("n", "1")]), "x 1");
    assert_eq!(c.text(Locale::En, "d", &[]), "y");
    assert!(Catalogue::from_toml("a = 1\n", "").is_none());
    assert!(Catalogue::from_toml("a = \n", "").is_none());
}

#[test]
fn authentik_locale_maps_to_english_by_default() {
    assert!(matches!(Locale::from_authentik("de"), Locale::De));
    assert!(matches!(Locale::from_authentik("de-DE"), Locale::De));
    assert!(matches!(Locale::from_authentik(""), Locale::En));
    assert!(matches!(Locale::from_authentik("fr"), Locale::En));
}

#[test]
fn debug_never_shows_the_value() {
    let s = Secret::from("hunter2-and-then-some".to_string());
    let shown = s.redacted();
    assert!(!shown.contains("hunter2"), "leaked: {shown}");
    assert_eq!(shown, "<redacted>");
}

#[test]
fn matches_accepts_the_exact_value_and_nothing_else() {
    let s = Secret::from("t-o-k-e-n".to_string());
    assert!(s.matches("t-o-k-e-n"));
    assert!(!s.matches("t-o-k-e-m"), "one byte off must not pass");
    assert!(!s.matches("t-o-k-e"), "a prefix must not pass");
    assert!(!s.matches("t-o-k-e-n-x"), "an extension must not pass");
    assert!(!s.matches(""), "empty must not pass");
}

#[test]
fn a_secret_file_is_trimmed() {
    assert_eq!(Secret::from_file_text("  s3cret\n").expose(), "s3cret");
}

#[test]
fn strip_command_uses_the_prefixs_own_length_not_the_lowered_remainders() {
    assert_eq!(
        strip_command("/film ẞ", "/film ß", &["/film "]),
        Some("ẞ"),
        "the original character, not the lowercased one"
    );
    assert_eq!(
        strip_command("/FILM Blade Runner", "/film blade runner", &["/film "]),
        Some("Blade Runner")
    );
    assert_eq!(
        strip_command("blade runner", "blade runner", &["/film "]),
        None
    );
}

fn november_14() -> Date {
    Date::from_day_number(20_771).unwrap()
}

#[test]
fn a_release_date_is_rendered_the_way_each_language_writes_one() {
    let date = november_14();
    assert_eq!(render_date(Locale::De, date), "14.11.2026");
    assert_eq!(render_date(Locale::En, date), "2026-11-14");
}

#[test]
fn a_language_the_catalogue_does_not_name_is_passed_through_unchanged() {
    let c = catalogue();
    assert_eq!(language_name(&c, Locale::De, "German"), "Deutsch");
    assert_eq!(language_name(&c, Locale::De, "Icelandic"), "Icelandic");
}

#[test]
fn two_languages_are_joined_and_translated() {
    let c = catalogue();
    let state = WishState::Unsuitable(Reason::OnlyInLanguages(vec![
        "Portuguese".into(),
        "Spanish".into(),
    ]));
    let text = state_text(&c, Locale::De, &state);
    assert!(text.contains("Portugiesisch / Spanisch"), "got: {text}");
    assert!(!text.contains('{'), "no placeholder may survive: {text}");
}

#[test]
fn every_state_says_something_other_than_its_own_key() {
    let c = catalogue();
    let states = [
        WishState::Available,
        WishState::NotHandedOver,
        WishState::ImportStuck,
        WishState::Downloading { percent: 40 },
        WishState::NotReleased { date: None },
        WishState::NotReleased {
            date: Some(november_14()),
        },
        WishState::DownloadFailed,
        WishState::Searching,
        WishState::Unsuitable(Reason::NothingExists),
        WishState::Unsuitable(Reason::OnlyInLanguages(vec!["German".into()])),
        WishState::Unsuitable(Reason::TooLarge),
        WishState::Unsuitable(Reason::TooSmall),
        WishState::Unsuitable(Reason::WrongQuality),
        WishState::Unsuitable(Reason::Otherwise),
        WishState::Declined,
        WishState::NotAired { date: None },
        WishState::NotAired {
            date: Some(november_14()),
        },
        WishState::PartlyAvailable { counts: None },
        WishState::Waiting,
    ];
    for locale in [Locale::De, Locale::En] {
        for state in &states {
            let text = state_text(&c, locale, state);
            assert!(
                !text.starts_with("status."),
                "{state:?} fell through to its key: {text}"
            );
            assert!(!text.contains('{'), "{state:?} left a placeholder: {text}");
        }
    }
}

#[test]
fn the_two_states_without_film_evidence_are_never_announced_unasked() {
    assert_eq!(WishState::Waiting.notice_class(), None);
    assert_eq!(
        WishState::PartlyAvailable { counts: None }.notice_class(),
        None
    );
}
