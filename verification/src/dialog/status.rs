//! Putting one state of a wish into words, in one place. What is told unasked
//! and what is answered when asked have to say the same thing about the same
//! state.

use crate::i18n::{Catalogue, Locale, arg_views};
use crate::model::{PartCounts, PartCountsView, Reason, ReasonView, WishState, WishStateView};
use crate::moment::{Date, calendar, two_digit_text, two_digits, year_text};
use crate::text::{decimal, decimal_int, decimal_u64, join_texts, joined_by, views};
use vstd::prelude::*;

verus! {

/// A day the way each language writes one: 14.11.2026 and 2026-11-14.
pub open spec fn written_day(locale: Locale, day: int) -> Seq<char> {
    let (year, month, day_of_month) = calendar(day + 2_440_588);
    match locale {
        Locale::De => two_digits(day_of_month) + "."@ + two_digits(month) + "."@ + decimal_int(
            year as int,
        ),
        Locale::En => decimal_int(year as int) + "-"@ + two_digits(month) + "-"@ + two_digits(
            day_of_month,
        ),
    }
}

/// The name of a language: what the catalogue has for it, and the name itself
/// where it has none.
pub open spec fn named_language(
    catalogue: Catalogue,
    locale: Locale,
    name: Seq<char>,
) -> Seq<char> {
    if catalogue.messages_in(locale).contains_key("language."@ + name) {
        catalogue.messages_in(locale)["language."@ + name]
    } else {
        name
    }
}

/// Why nothing suitable was found, in words.
pub open spec fn reason_said(
    catalogue: Catalogue,
    locale: Locale,
    reason: ReasonView,
) -> Seq<char> {
    match reason {
        ReasonView::NothingExists => catalogue.says(
            locale,
            "status.nothing_exists"@,
            Seq::empty(),
        ),
        ReasonView::OnlyInLanguages(names) => catalogue.says(
            locale,
            "status.only_in_languages"@,
            seq![
                (
                    "languages"@,
                    joined_by(
                        names.map_values(
                            |name: Seq<char>| named_language(catalogue, locale, name),
                        ),
                        " / "@,
                    ),
                ),
            ],
        ),
        ReasonView::TooLarge => catalogue.says(locale, "status.too_large"@, Seq::empty()),
        ReasonView::TooSmall => catalogue.says(locale, "status.too_small"@, Seq::empty()),
        ReasonView::WrongQuality => catalogue.says(locale, "status.wrong_quality"@, Seq::empty()),
        ReasonView::Otherwise => catalogue.says(locale, "status.otherwise"@, Seq::empty()),
    }
}

/// How much of a series is there, in words.
pub open spec fn counts_said(
    catalogue: Catalogue,
    locale: Locale,
    counts: PartCountsView,
) -> Seq<char> {
    match counts.next {
        Some(day) => catalogue.says(
            locale,
            "status.partly_counts_next"@,
            seq![
                ("have"@, decimal(counts.have as nat)),
                ("aired"@, decimal(counts.aired as nat)),
                ("date"@, written_day(locale, day)),
            ],
        ),
        None => catalogue.says(
            locale,
            "status.partly_counts"@,
            seq![
                ("have"@, decimal(counts.have as nat)),
                ("aired"@, decimal(counts.aired as nat)),
            ],
        ),
    }
}

/// A state in words.
pub open spec fn state_said(
    catalogue: Catalogue,
    locale: Locale,
    state: WishStateView,
) -> Seq<char> {
    match state {
        WishStateView::Available => catalogue.says(locale, "status.available"@, Seq::empty()),
        WishStateView::Declined => catalogue.says(locale, "status.declined"@, Seq::empty()),
        WishStateView::NotHandedOver => catalogue.says(
            locale,
            "status.not_handed_over"@,
            Seq::empty(),
        ),
        WishStateView::PartlyAvailable { counts: None } => catalogue.says(
            locale,
            "status.partly_available"@,
            Seq::empty(),
        ),
        WishStateView::PartlyAvailable { counts: Some(c) } => counts_said(catalogue, locale, c),
        WishStateView::ImportStuck => catalogue.says(locale, "status.import_stuck"@, Seq::empty()),
        WishStateView::Downloading { percent } => catalogue.says(
            locale,
            "status.downloading"@,
            seq![("percent"@, decimal(percent as nat))],
        ),
        WishStateView::NotReleased { day: None } => catalogue.says(
            locale,
            "status.not_released"@,
            Seq::empty(),
        ),
        WishStateView::NotReleased { day: Some(day) } => catalogue.says(
            locale,
            "status.not_released_date"@,
            seq![("date"@, written_day(locale, day))],
        ),
        WishStateView::NotAired { day: None } => catalogue.says(
            locale,
            "status.not_aired"@,
            Seq::empty(),
        ),
        WishStateView::NotAired { day: Some(day) } => catalogue.says(
            locale,
            "status.not_aired_date"@,
            seq![("date"@, written_day(locale, day))],
        ),
        WishStateView::DownloadFailed => catalogue.says(
            locale,
            "status.download_failed"@,
            Seq::empty(),
        ),
        WishStateView::Unsuitable(reason) => reason_said(catalogue, locale, reason),
        WishStateView::Searching => catalogue.says(locale, "status.searching"@, Seq::empty()),
        WishStateView::Waiting => catalogue.says(locale, "status.waiting"@, Seq::empty()),
    }
}

/// The message under `key`, without placeholders to fill in.
pub fn plain(catalogue: &Catalogue, locale: Locale, key: &str) -> (r: String)
    ensures
        r@ == catalogue.says(locale, key@, Seq::empty()),
{
    let none: [(&str, &str); 0] = [];
    assert(arg_views(none@) =~= Seq::empty());
    catalogue.text(locale, key, &none)
}

/// The message under `key` with one placeholder filled in.
pub fn with_one(
    catalogue: &Catalogue,
    locale: Locale,
    key: &str,
    name: &str,
    value: &str,
) -> (r: String)
    ensures
        r@ == catalogue.says(locale, key@, seq![(name@, value@)]),
{
    let args = [(name, value)];
    assert(arg_views(args@) =~= seq![(name@, value@)]);
    catalogue.text(locale, key, &args)
}

/// A day the way each language writes one. Numerically in both: a month's
/// name would need a table of its own per language.
pub fn render_date(locale: Locale, date: Date) -> (r: String)
    ensures
        r@ == written_day(locale, date.day_number()),
{
    let (year, month, day) = date.civil();
    match locale {
        Locale::De => {
            let mut r = two_digit_text(day);
            r.append(".");
            r.append(two_digit_text(month).as_str());
            r.append(".");
            r.append(year_text(year).as_str());
            r
        },
        Locale::En => {
            let mut r = year_text(year);
            r.append("-");
            r.append(two_digit_text(month).as_str());
            r.append("-");
            r.append(two_digit_text(day).as_str());
            r
        },
    }
}

/// Radarr's own English name of a language, translated where the catalogue
/// has a name for it and passed through where it has not.
pub fn language_name(catalogue: &Catalogue, locale: Locale, name: &str) -> (r: String)
    ensures
        r@ == named_language(*catalogue, locale, name@),
{
    let mut key = "language.".to_owned();
    key.append(name);
    match catalogue.lookup(locale, key.as_str()) {
        Some(translated) => translated.to_owned(),
        None => name.to_owned(),
    }
}

fn language_names(catalogue: &Catalogue, locale: Locale, names: &Vec<String>) -> (r: Vec<String>)
    ensures
        views(r@) == views(names@).map_values(
            |name: Seq<char>| named_language(*catalogue, locale, name),
        ),
{
    let mut r: Vec<String> = Vec::new();
    let mut i: usize = 0;
    while i < names.len()
        invariant
            i <= names@.len(),
            r@.len() == i,
            forall|j: int|
                0 <= j < i ==> (#[trigger] r@[j])@ == named_language(
                    *catalogue,
                    locale,
                    names@[j]@,
                ),
        decreases names@.len() - i,
    {
        r.push(language_name(catalogue, locale, names[i].as_str()));
        i += 1;
    }
    assert(views(r@) =~= views(names@).map_values(
        |name: Seq<char>| named_language(*catalogue, locale, name),
    ));
    r
}

/// Why nothing suitable was found, in everyday words, and never with a custom
/// format's, a release's or an indexer's own name in them.
pub fn reason_text(catalogue: &Catalogue, locale: Locale, reason: &Reason) -> (r: String)
    ensures
        r@ == reason_said(*catalogue, locale, reason@),
{
    match reason {
        Reason::NothingExists => plain(catalogue, locale, "status.nothing_exists"),
        Reason::OnlyInLanguages(languages) => {
            let named = language_names(catalogue, locale, languages);
            let list = join_texts(&named, " / ");
            with_one(catalogue, locale, "status.only_in_languages", "languages", list.as_str())
        },
        Reason::TooLarge => plain(catalogue, locale, "status.too_large"),
        Reason::TooSmall => plain(catalogue, locale, "status.too_small"),
        Reason::WrongQuality => plain(catalogue, locale, "status.wrong_quality"),
        Reason::Otherwise => plain(catalogue, locale, "status.otherwise"),
    }
}

fn counts_text(catalogue: &Catalogue, locale: Locale, counts: &PartCounts) -> (r: String)
    ensures
        r@ == counts_said(*catalogue, locale, counts@),
{
    let have = decimal_u64(counts.have as u64);
    let aired = decimal_u64(counts.aired as u64);
    match counts.next {
        Some(date) => {
            let day = render_date(locale, date);
            let args = [("have", have.as_str()), ("aired", aired.as_str()), ("date", day.as_str())];
            assert(arg_views(args@) =~= seq![
                ("have"@, have@),
                ("aired"@, aired@),
                ("date"@, day@),
            ]);
            catalogue.text(locale, "status.partly_counts_next", &args)
        },
        None => {
            let args = [("have", have.as_str()), ("aired", aired.as_str())];
            assert(arg_views(args@) =~= seq![("have"@, have@), ("aired"@, aired@)]);
            catalogue.text(locale, "status.partly_counts", &args)
        },
    }
}

/// The sentence fragment that goes into a line of the status.
pub fn state_text(catalogue: &Catalogue, locale: Locale, state: &WishState) -> (r: String)
    ensures
        r@ == state_said(*catalogue, locale, state@),
{
    match state {
        WishState::Available => plain(catalogue, locale, "status.available"),
        WishState::Declined => plain(catalogue, locale, "status.declined"),
        WishState::NotHandedOver => plain(catalogue, locale, "status.not_handed_over"),
        WishState::PartlyAvailable { counts } => match counts {
            None => plain(catalogue, locale, "status.partly_available"),
            Some(c) => counts_text(catalogue, locale, c),
        },
        WishState::ImportStuck => plain(catalogue, locale, "status.import_stuck"),
        WishState::Downloading { percent } => with_one(
            catalogue,
            locale,
            "status.downloading",
            "percent",
            decimal_u64(*percent as u64).as_str(),
        ),
        WishState::NotReleased { date } => match date {
            None => plain(catalogue, locale, "status.not_released"),
            Some(d) => with_one(
                catalogue,
                locale,
                "status.not_released_date",
                "date",
                render_date(locale, *d).as_str(),
            ),
        },
        WishState::NotAired { date } => match date {
            None => plain(catalogue, locale, "status.not_aired"),
            Some(d) => with_one(
                catalogue,
                locale,
                "status.not_aired_date",
                "date",
                render_date(locale, *d).as_str(),
            ),
        },
        WishState::DownloadFailed => plain(catalogue, locale, "status.download_failed"),
        WishState::Unsuitable(reason) => reason_text(catalogue, locale, reason),
        WishState::Searching => plain(catalogue, locale, "status.searching"),
        WishState::Waiting => plain(catalogue, locale, "status.waiting"),
    }
}

} // verus!
