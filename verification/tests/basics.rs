//! Texts, tables, moments and JSON, and what the conversations read.

use signal_seerr::dialog::commands::{Heard, Open, id_to_withdraw, lower, read_seasons, understand};
use signal_seerr::dialog::listing::{find_profile, offer};
use signal_seerr::i18n::{Catalogue, Locale};
use signal_seerr::insight::{count_in, earliest_future_date};
use signal_seerr::arr::ArrMovie;
use signal_seerr::json::{array, flag, get, number_text, parse_json, text, unsigned, whole, write_json};
use signal_seerr::model::{QualityProfile, Seasons};
use signal_seerr::moment::{Date, Span, Timestamp};
use signal_seerr::table::Table;
use signal_seerr::text::{
    contains, decimal_i64, decimal_u64, eq_ignore_ascii_case, join_texts, parse_i64,
    parse_unsigned, replace, same, starts_with, trim, words_of,
};

#[test]
fn texts_are_compared_and_cut() {
    assert!(same("Grüße", "Grüße") && !same("a", "A") && !same("a", "ab"));
    assert!(eq_ignore_ascii_case("Robert.42", "rOBERT.42"));
    assert!(!eq_ignore_ascii_case("Ä", "ä"), "only ASCII letters");
    assert!(contains("abcabd", "abd") && contains("x", "") && !contains("ab", "abc"));
    assert!(starts_with("http://x", "http://") && !starts_with("htt", "http"));
    assert_eq!(trim(" \t\u{a0}a b\u{2003}\n"), "a b");
    assert_eq!(trim("   "), "");
    assert_eq!(words_of("  1  3\t5 "), ["1", "3", "5"]);
    assert_eq!(replace("{a} und {a}", "{a}", "b{a}"), "b{a} und b{a}");
    let list = vec!["a".to_string(), "b".to_string(), "c".to_string()];
    assert_eq!(join_texts(&list, ", "), "a, b, c");
    assert_eq!(join_texts(&Vec::new(), ", "), "");
}

#[test]
fn numbers_are_read_and_written() {
    assert_eq!(parse_unsigned("65535", 65_535), Some(65_535));
    assert_eq!(parse_unsigned("65536", 65_535), None);
    assert_eq!(parse_unsigned("+7", 9), Some(7));
    assert_eq!(parse_unsigned("18446744073709551616", u64::MAX), None);
    for bad in ["", "+", "-1", "1 ", "1a", "\u{661}"] {
        assert_eq!(parse_unsigned(bad, 100), None, "{bad:?}");
    }
    assert_eq!(parse_i64("-9223372036854775808"), Some(i64::MIN));
    assert_eq!(parse_i64("9223372036854775808"), None);
    assert_eq!(parse_i64("+0"), Some(0));
    assert_eq!(parse_i64("--1"), None);
    assert_eq!(decimal_i64(i64::MIN), "-9223372036854775808");
    assert_eq!(decimal_i64(-7), "-7");
    assert_eq!(decimal_u64(u64::MAX), "18446744073709551615");
    assert_eq!(decimal_u64(0), "0");
}

#[test]
fn a_table_holds_one_value_per_key_in_the_order_they_came() {
    let mut table: Table<i64, &str> = Table::new();
    table.insert(3, "c");
    table.insert(1, "a");
    table.insert(3, "C");
    assert_eq!(table.len(), 2);
    assert_eq!((*table.key_at(0), *table.key_at(1)), (3, 1));
    assert_eq!(table.get(&3), Some(&"C"));
    *table.get_mut(&1) = "A";
    assert_eq!(table.remove(&1), Some("A"));
    assert_eq!(table.remove(&1), None);
    assert!(!table.contains_key(&1));
}

#[test]
fn a_document_is_read_by_its_kinds() {
    let doc = parse_json(
        r#"{"a":{"b":[1,-2,3.5,18446744073709551615,"x",true,null]},"a2":"äöü\n"}"#,
    )
    .unwrap();
    let list = array(get(get(Some(&doc), "a"), "b")).unwrap();
    assert_eq!(whole(Some(&list[0])), Some(1));
    assert_eq!(unsigned(Some(&list[0])), Some(1));
    assert_eq!((whole(Some(&list[1])), unsigned(Some(&list[1]))), (Some(-2), None));
    assert_eq!((whole(Some(&list[2])), number_text(Some(&list[2]))), (None, Some("3.5")));
    assert_eq!((whole(Some(&list[3])), unsigned(Some(&list[3]))), (None, Some(u64::MAX)));
    assert_eq!(text(Some(&list[4])), Some("x"));
    assert_eq!((flag(Some(&list[5])), flag(Some(&list[6]))), (Some(true), None));
    assert_eq!(text(get(Some(&doc), "a2")), Some("äöü\n"));
    assert!(get(Some(&doc), "c").is_none());
    assert!(get(Some(&list[0]), "a").is_none());
    assert!(array(None).is_none());
    assert_eq!(
        write_json(&doc),
        r#"{"a":{"b":[1,-2,3.5,18446744073709551615,"x",true,null]},"a2":"äöü\n"}"#
    );
    assert!(parse_json("{").is_none());
}

#[test]
fn moments_are_compared_by_the_instant_and_dated_by_the_offset() {
    // 2026-09-21 23:30 UTC is the next day two hours further east.
    let here = Timestamp::new(1_790_033_400, 0, 0).unwrap();
    let east = Timestamp::new(1_790_033_400, 0, 7_200).unwrap();
    assert_eq!(here, east);
    assert_eq!(here.date().civil(), (2026, 9, 21));
    assert_eq!(east.date().civil(), (2026, 9, 22));
    assert_eq!(east.utc_day(), here.utc_day());
    let later = Timestamp::new(1_790_037_000, 1, 0).unwrap();
    assert!(here.before(&later) && !later.before(&here) && !here.before(&east));
    assert_eq!(later.since(&here).nanos, Span::hours(1).nanos + 1);
    assert_eq!(here.later(later), later);
    assert!(Timestamp::new(0, 1_000_000_000, 0).is_none());
    assert_eq!(Date::from_day_number(0).unwrap().civil(), (1970, 1, 1));
    assert_eq!(Date::from_day_number(-1).unwrap().civil(), (1969, 12, 31));
    assert_eq!(Date::from_day_number(11_016).unwrap().civil(), (2000, 2, 29));
    assert_eq!(Date::from_day_number(-25_508).unwrap().civil(), (1900, 3, 1));
    assert_eq!(Date::from_day_number(-25_509).unwrap().civil(), (1900, 2, 28));
    assert_eq!(Date::from_day_number(-2_440_588).unwrap().civil(), (-4713, 11, 24));
    assert_eq!(Date::from_day_number(-4_371_587).unwrap().civil(), (-9999, 1, 1));
    assert_eq!(Date::from_day_number(2_932_896).unwrap().civil(), (9999, 12, 31));
}

#[test]
fn the_next_release_is_the_earlier_one_that_lies_ahead() {
    let now = Timestamp::new(1_790_078_400, 0, 0).unwrap();
    let in_days = |days: i64| Timestamp::new(1_790_078_400 + days * 86_400, 0, 0);
    let film = |digital: Option<Timestamp>, physical: Option<Timestamp>| ArrMovie {
        is_available: false,
        has_file: false,
        digital_release: digital,
        physical_release: physical,
    };
    let date = |movie: ArrMovie| earliest_future_date(&movie, now).map(|d| d.civil());
    assert_eq!(date(film(in_days(9), in_days(4))), Some((2026, 9, 26)));
    assert_eq!(date(film(in_days(-4), in_days(9))), Some((2026, 10, 1)));
    assert_eq!(date(film(in_days(-4), None)), None);
}

#[test]
fn a_command_is_understood_in_any_case() {
    let heard = |message: &str, open: Open| understand(message, &lower(message), open);
    assert_eq!(heard("/STATUS", Open::Nothing), heard("/status", Open::Nothing));
    assert_ne!(heard("/STATUS", Open::Nothing), heard("/x", Open::Nothing));
    assert_eq!(lower("ÄẞX"), "äßx");
    assert!(matches!(heard("/HILFE", Open::Profile), Heard::Help));
    assert!(matches!(heard("/Abbruch", Open::Seasons), Heard::Cancel));
}

#[test]
fn a_number_to_withdraw_is_the_second_word() {
    assert_eq!(id_to_withdraw("/weg 1849"), Some(1849));
    assert_eq!(id_to_withdraw("/weg"), None);
    assert_eq!(id_to_withdraw("/weg bald"), None);
}

#[test]
fn seasons_are_all_of_them_or_ones_that_exist() {
    assert_eq!(read_seasons("alle", 3), Some(Seasons::All));
    assert_eq!(read_seasons("all", 3), Some(Seasons::All));
    assert_eq!(read_seasons("1 3", 3), Some(Seasons::Only(vec![1, 3])));
    for bad in ["", "0", "4", "1 x", "-1"] {
        assert_eq!(read_seasons(bad, 3), None, "{bad:?}");
    }
}

#[test]
fn profiles_are_offered_in_the_configured_order() {
    let listed = vec![
        QualityProfile { id: 7, name: "A".to_string() },
        QualityProfile { id: 11, name: "B".to_string() },
    ];
    let ids = |configured: &[&str]| -> Vec<i64> {
        let names: Vec<String> = configured.iter().map(|n| n.to_string()).collect();
        offer(&names, &listed).iter().map(|p| p.id).collect()
    };
    assert_eq!(ids(&["B", "none", "A"]), [11, 7]);
    assert_eq!(ids(&[]), [7, 11]);
    assert_eq!(find_profile(&listed, 11).unwrap().name, "B");
    assert!(find_profile(&listed, 2).is_none());
}

#[test]
fn names_are_counted() {
    let list = vec!["a".to_string(), "b".to_string(), "a".to_string()];
    assert_eq!((count_in(&list, "a"), count_in(&list, "c")), (2, 0));
}

#[test]
fn messages_come_from_both_catalogues_or_not_at_all() {
    let c = Catalogue::from_toml("[a]\nb = \"{x}!\"", "[a]\nb = \"? {x}\"").unwrap();
    assert_eq!(c.text(Locale::De, "a.b", &[("x", "1")]), "1!");
    assert_eq!(c.text(Locale::En, "a.b", &[("x", "1")]), "? 1");
    assert!(Catalogue::from_toml("[a", "").is_none());
}
