//! What a message means.

use crate::model::{MediaKind, Seasons, SeasonsView};
use crate::text::{
    lowercase, parse_i64, parse_unsigned, parsed_i64, parsed_unsigned, same, starts_with,
    to_lowercase, trim, trimmed, words, words_of,
};
use vstd::prelude::*;
use vstd::utf8::{decode_utf8, encode_utf8, encode_utf8_decode_utf8, is_char_boundary};

verus! {

/// Which question or list of a person is still open.
#[derive(Clone, Copy, Debug, PartialEq, Eq, Structural)]
pub enum Open {
    Nothing,
    /// A list of results.
    Results,
    /// The question for seasons.
    Seasons,
    /// The question for a quality profile.
    Profile,
}

/// What a message means.
#[derive(Clone, Debug, PartialEq, Eq)]
pub enum Heard {
    Help,
    Cancel,
    /// An answer to the question for seasons.
    Seasons,
    /// An answer to the question for a profile.
    Profile,
    /// A number out of the list.
    Choice(usize),
    More,
    Status,
    Withdraw,
    Find { query: String, kind: Option<MediaKind> },
}

/// What a [`Heard`] holds.
pub enum HeardView {
    Help,
    Cancel,
    Seasons,
    Profile,
    Choice(usize),
    More,
    Status,
    Withdraw,
    Find { query: Seq<char>, kind: Option<MediaKind> },
}

impl View for Heard {
    type V = HeardView;

    open spec fn view(&self) -> HeardView {
        match self {
            Heard::Help => HeardView::Help,
            Heard::Cancel => HeardView::Cancel,
            Heard::Seasons => HeardView::Seasons,
            Heard::Profile => HeardView::Profile,
            Heard::Choice(n) => HeardView::Choice(*n),
            Heard::More => HeardView::More,
            Heard::Status => HeardView::Status,
            Heard::Withdraw => HeardView::Withdraw,
            Heard::Find { query, kind } => HeardView::Find { query: query@, kind: *kind },
        }
    }
}

/// The views of several texts.
pub open spec fn str_views(list: Seq<&str>) -> Seq<Seq<char>> {
    list.map_values(|s: &str| s@)
}

/// The first of several prefixes that a text begins with.
pub open spec fn first_prefix(text: Seq<char>, prefixes: Seq<Seq<char>>) -> Option<Seq<char>>
    decreases prefixes.len(),
{
    if prefixes.len() == 0 {
        None
    } else if prefixes[0].is_prefix_of(text) {
        Some(prefixes[0])
    } else {
        first_prefix(text, prefixes.skip(1))
    }
}

/// Whether a text can be parted after as many bytes as a prefix has.
pub open spec fn parts_after(text: Seq<char>, prefix: Seq<char>) -> bool {
    is_char_boundary(encode_utf8(text), encode_utf8(prefix).len() as int)
}

/// What follows in a text after as many bytes as a prefix has.
pub open spec fn rest_after(text: Seq<char>, prefix: Seq<char>) -> Seq<char> {
    decode_utf8(
        encode_utf8(text).subrange(
            encode_utf8(prefix).len() as int,
            encode_utf8(text).len() as int,
        ),
    )
}

/// What follows a command word in a message, with the case it was written in.
pub open spec fn command_rest(
    text: Seq<char>,
    lowered: Seq<char>,
    prefixes: Seq<Seq<char>>,
) -> Option<Seq<char>> {
    match first_prefix(lowered, prefixes) {
        Some(prefix) => if parts_after(text, prefix) {
            Some(trimmed(rest_after(text, prefix)))
        } else {
            None
        },
        None => None,
    }
}

/// What a message means, given its lower-case form and what is open. The ways
/// out of a stuck conversation come before everything else; an open question
/// swallows whatever is not one of them.
pub open spec fn heard(text: Seq<char>, lowered: Seq<char>, open: Open) -> HeardView {
    if lowered == "/hilfe"@ || lowered == "/help"@ {
        HeardView::Help
    } else if lowered == "/abbruch"@ || lowered == "/cancel"@ {
        HeardView::Cancel
    } else if open == Open::Seasons {
        HeardView::Seasons
    } else if open == Open::Profile {
        HeardView::Profile
    } else if open == Open::Results && parsed_unsigned(text, usize::MAX as nat) is Some {
        HeardView::Choice(parsed_unsigned(text, usize::MAX as nat)->0 as usize)
    } else if lowered == "m"@ || lowered == "mehr"@ || lowered == "more"@ {
        HeardView::More
    } else if lowered == "/status"@ {
        HeardView::Status
    } else if command_rest(text, lowered, seq!["/film "@, "/movie "@]) is Some {
        HeardView::Find {
            query: command_rest(text, lowered, seq!["/film "@, "/movie "@])->0,
            kind: Some(MediaKind::Movie),
        }
    } else if command_rest(text, lowered, seq!["/serie "@, "/series "@]) is Some {
        HeardView::Find {
            query: command_rest(text, lowered, seq!["/serie "@, "/series "@])->0,
            kind: Some(MediaKind::Tv),
        }
    } else if lowered == "/weg"@ || lowered == "/withdraw"@ || "/weg "@.is_prefix_of(lowered)
        || "/withdraw "@.is_prefix_of(lowered) {
        HeardView::Withdraw
    } else {
        HeardView::Find { query: text, kind: None }
    }
}

/// Strips a known command prefix, matched against `lowered`, and returns the
/// remainder in its original case, trimmed.
///
/// The prefix's own byte length parts `text`, never a length derived from
/// `lowered`: lowering does not keep byte lengths.
pub fn strip_command<'a>(text: &'a str, lowered: &str, prefixes: &[&str]) -> (r: Option<&'a str>)
    requires
        first_prefix(lowered@, str_views(prefixes@)) matches Some(prefix) ==> parts_after(
            text@,
            prefix,
        ),
    ensures
        match r {
            Some(rest) => first_prefix(lowered@, str_views(prefixes@)) matches Some(prefix)
                && rest@ == trimmed(rest_after(text@, prefix)),
            None => first_prefix(lowered@, str_views(prefixes@)) is None,
        },
{
    match find_prefix(lowered, prefixes) {
        Some(prefix) => {
            let rest = text.split_at(prefix.as_bytes().len()).1;
            proof {
                encode_utf8_decode_utf8(rest@);
            }
            Some(trim(rest))
        },
        None => None,
    }
}

fn find_prefix<'a>(lowered: &str, prefixes: &[&'a str]) -> (r: Option<&'a str>)
    ensures
        match r {
            Some(prefix) => first_prefix(lowered@, str_views(prefixes@)) == Some(prefix@),
            None => first_prefix(lowered@, str_views(prefixes@)) is None,
        },
{
    let ghost all = str_views(prefixes@);
    let mut i: usize = 0;
    assert(all.skip(0) =~= all);
    while i < prefixes.len()
        invariant
            i <= prefixes@.len(),
            all == str_views(prefixes@),
            first_prefix(lowered@, all.skip(i as int)) == first_prefix(lowered@, all),
        decreases prefixes@.len() - i,
    {
        assert(all.skip(i as int).skip(1) =~= all.skip(i + 1));
        assert(all.skip(i as int)[0] == prefixes@[i as int]@);
        if starts_with(lowered, prefixes[i]) {
            return Some(prefixes[i]);
        }
        i += 1;
    }
    None
}

/// What follows a command word, if the message begins with one.
fn after_command<'a>(text: &'a str, lowered: &str, prefixes: &[&str]) -> (r: Option<&'a str>)
    ensures
        match r {
            Some(rest) => command_rest(text@, lowered@, str_views(prefixes@)) == Some(rest@),
            None => command_rest(text@, lowered@, str_views(prefixes@)) is None,
        },
{
    match find_prefix(lowered, prefixes) {
        Some(prefix) => if text.is_char_boundary(prefix.as_bytes().len()) {
            strip_command(text, lowered, prefixes)
        } else {
            None
        },
        None => None,
    }
}

/// What a message means, given its lower-case form and what is open.
pub fn understand(text: &str, lowered: &str, open: Open) -> (r: Heard)
    ensures
        r@ == heard(text@, lowered@, open),
{
    if same(lowered, "/hilfe") || same(lowered, "/help") {
        return Heard::Help;
    }
    if same(lowered, "/abbruch") || same(lowered, "/cancel") {
        return Heard::Cancel;
    }
    if open == Open::Seasons {
        return Heard::Seasons;
    }
    if open == Open::Profile {
        return Heard::Profile;
    }
    if open == Open::Results {
        if let Some(n) = parse_unsigned(text, usize::MAX as u64) {
            return Heard::Choice(n as usize);
        }
    }
    if same(lowered, "m") || same(lowered, "mehr") || same(lowered, "more") {
        return Heard::More;
    }
    if same(lowered, "/status") {
        return Heard::Status;
    }
    let film = ["/film ", "/movie "];
    assert(str_views(film@) =~= seq!["/film "@, "/movie "@]);
    if let Some(query) = after_command(text, lowered, &film) {
        return Heard::Find { query: query.to_owned(), kind: Some(MediaKind::Movie) };
    }
    let series = ["/serie ", "/series "];
    assert(str_views(series@) =~= seq!["/serie "@, "/series "@]);
    if let Some(query) = after_command(text, lowered, &series) {
        return Heard::Find { query: query.to_owned(), kind: Some(MediaKind::Tv) };
    }
    if same(lowered, "/weg") || same(lowered, "/withdraw") || starts_with(lowered, "/weg ")
        || starts_with(lowered, "/withdraw ") {
        return Heard::Withdraw;
    }
    Heard::Find { query: text.to_owned(), kind: None }
}

/// The number of the wish that a message wants withdrawn: its second word.
pub open spec fn withdrawn_id(text: Seq<char>) -> Option<i64> {
    if words(text).len() < 2 {
        None
    } else {
        parsed_i64(words(text)[1])
    }
}

/// The number of the wish that a message wants withdrawn.
pub fn id_to_withdraw(text: &str) -> (r: Option<i64>)
    ensures
        r == withdrawn_id(text@),
{
    let list = words_of(text);
    if list.len() < 2 {
        return None;
    }
    assert(words(text@)[1] == list@[1]@);
    parse_i64(list[1].as_str())
}

/// The season that a word names, if it is one of the series.
pub open spec fn season_word(word: Seq<char>, seasons: u16) -> Option<u16> {
    match parsed_unsigned(word, u16::MAX as nat) {
        Some(n) => if 1 <= n <= seasons {
            Some(n as u16)
        } else {
            None
        },
        None => None,
    }
}

/// Whether every word names a season of the series.
pub open spec fn all_seasons(list: Seq<Seq<char>>, seasons: u16) -> bool {
    forall|i: int| 0 <= i < list.len() ==> season_word(#[trigger] list[i], seasons) is Some
}

/// The seasons that an answer asks for: all of them, or those that its words
/// name. A season that does not exist would be accepted by Seerr and then sit
/// in the list for ever, so such an answer asks for nothing.
pub open spec fn seasons_meant(lowered: Seq<char>, seasons: u16) -> Option<SeasonsView> {
    if lowered == "alle"@ || lowered == "all"@ {
        Some(SeasonsView::All)
    } else if words(lowered).len() > 0 && all_seasons(words(lowered), seasons) {
        Some(
            SeasonsView::Only(
                words(lowered).map_values(|w: Seq<char>| season_word(w, seasons)->0),
            ),
        )
    } else {
        None
    }
}

/// The seasons that an answer asks for, given its lower-case form.
pub fn read_seasons(lowered: &str, seasons: u16) -> (r: Option<Seasons>)
    ensures
        match r {
            Some(s) => seasons_meant(lowered@, seasons) == Some(s@),
            None => seasons_meant(lowered@, seasons) is None,
        },
{
    if same(lowered, "alle") || same(lowered, "all") {
        return Some(Seasons::All);
    }
    let list = words_of(lowered);
    if list.len() == 0 {
        return None;
    }
    let ghost all = words(lowered@);
    let mut wanted: Vec<u16> = Vec::new();
    let mut i: usize = 0;
    while i < list.len()
        invariant
            i <= list@.len(),
            crate::text::views(list@) == all,
            all == words(lowered@),
            lowered@ != "alle"@,
            lowered@ != "all"@,
            wanted@.len() == i,
            forall|j: int|
                0 <= j < i ==> season_word(#[trigger] all[j], seasons) == Some(wanted@[j]),
        decreases list@.len() - i,
    {
        assert(all[i as int] == list@[i as int]@);
        match parse_unsigned(list[i].as_str(), u16::MAX as u64) {
            Some(n) => {
                if n < 1 || n > seasons as u64 {
                    assert(season_word(all[i as int], seasons) is None);
                    return None;
                }
                wanted.push(n as u16);
            },
            None => {
                assert(season_word(all[i as int], seasons) is None);
                return None;
            },
        }
        i += 1;
    }
    assert(wanted@ =~= all.map_values(|w: Seq<char>| season_word(w, seasons)->0));
    Some(Seasons::Only(wanted))
}

/// The lower-case form of a message.
pub fn lower(text: &str) -> (r: String)
    ensures
        r@ == lowercase(text@),
{
    to_lowercase(text)
}

/// Whatever is open, there is a way out: help and cancel are always heard.
pub proof fn law_there_is_a_way_out(text: Seq<char>, open: Open)
    ensures
        heard(text, "/hilfe"@, open) == HeardView::Help,
        heard(text, "/help"@, open) == HeardView::Help,
        heard(text, "/abbruch"@, open) == HeardView::Cancel,
        heard(text, "/cancel"@, open) == HeardView::Cancel,
{
    reveal_strlit("/hilfe");
    reveal_strlit("/help");
    reveal_strlit("/abbruch");
    reveal_strlit("/cancel");
    assert("/abbruch"@[1] == 'a');
    assert("/hilfe"@[1] == 'h');
    assert("/help"@[1] == 'h');
    assert("/cancel"@[1] == 'c');
}

/// An open question swallows every message that is not a way out.
pub proof fn law_an_open_question_swallows(text: Seq<char>, lowered: Seq<char>)
    requires
        heard(text, lowered, Open::Nothing) != HeardView::Help,
        heard(text, lowered, Open::Nothing) != HeardView::Cancel,
    ensures
        heard(text, lowered, Open::Seasons) == HeardView::Seasons,
        heard(text, lowered, Open::Profile) == HeardView::Profile,
{
}

/// Every season that is asked for by number exists.
pub proof fn law_only_seasons_that_exist(lowered: Seq<char>, seasons: u16, list: Seq<u16>, i: int)
    requires
        seasons_meant(lowered, seasons) == Some(SeasonsView::Only(list)),
        0 <= i < list.len(),
    ensures
        1 <= list[i] <= seasons,
        list.len() > 0,
{
    assert(season_word(words(lowered)[i], seasons) is Some);
}

} // verus!
