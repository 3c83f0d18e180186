//! What the commands mean, said of the words of a message.

use crate::dialog::commands::{
    HeardView, Open, command_rest, first_prefix, heard, parts_after, rest_after, season_word,
    seasons_meant, withdrawn_id,
};
use crate::model::{MediaKind, SeasonsView};
use crate::text::laws::{is_word, law_a_text_falls_into_its_words, law_a_written_integer_is_read_back};
use crate::text::{decimal_int, trimmed, white_space, words};
use vstd::prelude::*;
use vstd::utf8::{
    encode_utf8, encode_utf8_decode_utf8, encode_utf8_valid_utf8, is_ascii_chars,
    is_ascii_chars_encode_utf8, is_char_boundary, is_char_boundary_iff_not_is_continuation_byte,
    is_char_boundary_start_end_of_seq, is_continuation_byte,
};

verus! {

pub(crate) proof fn lemma_encoded_in_parts(a: Seq<char>, b: Seq<char>)
    ensures
        encode_utf8(a + b) == encode_utf8(a) + encode_utf8(b),
    decreases a.len(),
{
    if a.len() == 0 {
        assert(a + b =~= b);
        assert(encode_utf8(a) + encode_utf8(b) =~= encode_utf8(b));
    } else {
        assert((a + b)[0] == a[0]);
        assert((a + b).drop_first() =~= a.drop_first() + b);
        lemma_encoded_in_parts(a.drop_first(), b);
        assert(encode_utf8(a + b) =~= encode_utf8(a) + encode_utf8(b));
    }
}

/// What follows a word of as many plain letters as a command has is what
/// follows the command.
proof fn lemma_after_a_word(word: Seq<char>, rest: Seq<char>, prefix: Seq<char>)
    requires
        is_ascii_chars(word),
        is_ascii_chars(prefix),
        word.len() == prefix.len(),
    ensures
        parts_after(word + rest, prefix),
        rest_after(word + rest, prefix) == rest,
{
    is_ascii_chars_encode_utf8(prefix);
    lemma_parted_after_a_word(word, rest);
    encode_utf8_decode_utf8(rest);
}

/// Plain letters take one byte each, so that a text is parted after as many
/// bytes as it has of them in front.
pub(crate) proof fn lemma_parted_after_a_word(word: Seq<char>, rest: Seq<char>)
    requires
        is_ascii_chars(word),
    ensures
        ({
            let bytes = encode_utf8(word + rest);
            let n = word.len() as int;
            &&& is_char_boundary(bytes, n)
            &&& n <= bytes.len()
            &&& bytes.subrange(0, n) == encode_utf8(word)
            &&& bytes.subrange(n, bytes.len() as int) == encode_utf8(rest)
        }),
{
    let text = word + rest;
    let bytes = encode_utf8(text);
    let n = word.len() as int;
    is_ascii_chars_encode_utf8(word);
    lemma_encoded_in_parts(word, rest);
    encode_utf8_valid_utf8(text);
    encode_utf8_valid_utf8(rest);
    assert(bytes.subrange(0, n) =~= encode_utf8(word));
    assert(bytes.subrange(n, bytes.len() as int) =~= encode_utf8(rest));
    if n < bytes.len() {
        let tail = encode_utf8(rest);
        assert(bytes[n] == tail[0]);
        is_char_boundary_iff_not_is_continuation_byte(bytes, n);
        is_char_boundary_iff_not_is_continuation_byte(tail, 0);
        assert(is_char_boundary(tail, 0));
        assert(!is_continuation_byte(tail[0]));
        assert(!is_continuation_byte(bytes[n]));
    } else {
        is_char_boundary_start_end_of_seq(bytes);
    }
}

proof fn lemma_command_words()
    ensures
        is_ascii_chars("/film "@),
        is_ascii_chars("/movie "@),
        is_ascii_chars("/serie "@),
        is_ascii_chars("/series "@),
{
    reveal_strlit("/film ");
    reveal_strlit("/movie ");
    reveal_strlit("/serie ");
    reveal_strlit("/series ");
}

/// Whether a message begins with a command word, in whatever case it is
/// written, and goes on with the rest.
pub open spec fn begins_with(
    text: Seq<char>,
    lowered: Seq<char>,
    command: Seq<char>,
    rest: Seq<char>,
) -> bool {
    &&& command.is_prefix_of(lowered)
    &&& text.len() == command.len() + rest.len()
    &&& text.skip(command.len() as int) == rest
    &&& is_ascii_chars(text.take(command.len() as int))
}

/// Whoever asks for a film or a series by the command for it has that kind
/// searched, and for exactly what stands behind the command, in the case it
/// was written in and without the white space around it.
pub proof fn law_a_kind_is_searched_by_its_command(
    text: Seq<char>,
    lowered: Seq<char>,
    rest: Seq<char>,
)
    ensures
        begins_with(text, lowered, "/film "@, rest) || begins_with(text, lowered, "/movie "@, rest)
            ==> heard(text, lowered, Open::Nothing) == (HeardView::Find {
            query: trimmed(rest),
            kind: Some(MediaKind::Movie),
        }),
        begins_with(text, lowered, "/serie "@, rest) || begins_with(
            text,
            lowered,
            "/series "@,
            rest,
        ) ==> heard(text, lowered, Open::Nothing) == (HeardView::Find {
            query: trimmed(rest),
            kind: Some(MediaKind::Tv),
        }),
{
    lemma_command_words();
    reveal_strlit("/film ");
    reveal_strlit("/movie ");
    reveal_strlit("/serie ");
    reveal_strlit("/series ");
    reveal_strlit("/hilfe");
    reveal_strlit("/help");
    reveal_strlit("/abbruch");
    reveal_strlit("/cancel");
    reveal_strlit("/status");
    reveal_strlit("m");
    reveal_strlit("mehr");
    reveal_strlit("more");
    assert("/film "@[1] == 'f' && "/movie "@[1] == 'm' && "/serie "@[1] == 's' && "/series "@[1]
        == 's');
    assert("/serie "@[6] == ' ' && "/series "@[6] == 's' && "/serie "@[2] == 'e');
    assert("/film "@[0] == '/' && "/movie "@[0] == '/' && "/serie "@[0] == '/' && "/series "@[0]
        == '/');
    assert("/hilfe"@[1] == 'h' && "/help"@[1] == 'h' && "/abbruch"@[1] == 'a' && "/cancel"@[1]
        == 'c');
    assert("/status"@[2] == 't' && "/series "@[2] == 'e');
    assert("m"@[0] == 'm' && "mehr"@[0] == 'm' && "more"@[0] == 'm');
    let films = seq!["/film "@, "/movie "@];
    let series = seq!["/serie "@, "/series "@];
    assert(films.skip(1)[0] == "/movie "@);
    assert(series.skip(1)[0] == "/series "@);
    assert(films.skip(1).skip(1).len() == 0);
    assert(series.skip(1).skip(1).len() == 0);
    reveal_with_fuel(first_prefix, 3);
    if begins_with(text, lowered, "/film "@, rest) {
        lemma_after_a_word(text.take(6), rest, "/film "@);
        assert(text =~= text.take(6) + rest);
        assert(lowered[1] == 'f' && lowered[0] == '/');
        assert(first_prefix(lowered, films) == Some("/film "@));
    } else if begins_with(text, lowered, "/movie "@, rest) {
        lemma_after_a_word(text.take(7), rest, "/movie "@);
        assert(text =~= text.take(7) + rest);
        assert(lowered[1] == 'm' && lowered[0] == '/');
        assert(first_prefix(lowered, films) == Some("/movie "@));
    }
    if begins_with(text, lowered, "/serie "@, rest) {
        lemma_after_a_word(text.take(7), rest, "/serie "@);
        assert(text =~= text.take(7) + rest);
        assert(lowered[1] == 's' && lowered[0] == '/' && lowered[2] == 'e');
        assert(first_prefix(lowered, films) is None);
        assert(first_prefix(lowered, series) == Some("/serie "@));
    } else if begins_with(text, lowered, "/series "@, rest) {
        lemma_after_a_word(text.take(8), rest, "/series "@);
        assert(text =~= text.take(8) + rest);
        assert(lowered[1] == 's' && lowered[0] == '/' && lowered[6] == 's' && lowered[2] == 'e');
        assert(first_prefix(lowered, films) is None);
        assert(first_prefix(lowered, series) == Some("/series "@));
    }
}

/// What is no command is a title, and is searched for as it was written, in
/// films and series alike.
pub proof fn law_everything_else_is_a_title(text: Seq<char>, lowered: Seq<char>)
    requires
        lowered.len() > 0,
        lowered[0] != '/',
        lowered != "m"@,
        lowered != "mehr"@,
        lowered != "more"@,
    ensures
        heard(text, lowered, Open::Nothing) == (HeardView::Find { query: text, kind: None }),
{
    reveal_strlit("/film ");
    reveal_strlit("/movie ");
    reveal_strlit("/serie ");
    reveal_strlit("/series ");
    reveal_strlit("/hilfe");
    reveal_strlit("/help");
    reveal_strlit("/abbruch");
    reveal_strlit("/cancel");
    reveal_strlit("/status");
    reveal_strlit("/weg");
    reveal_strlit("/withdraw");
    reveal_strlit("/weg ");
    reveal_strlit("/withdraw ");
    assert("/film "@[0] == '/' && "/movie "@[0] == '/' && "/serie "@[0] == '/' && "/series "@[0]
        == '/');
    assert("/hilfe"@[0] == '/' && "/help"@[0] == '/' && "/abbruch"@[0] == '/' && "/cancel"@[0]
        == '/');
    assert("/status"@[0] == '/' && "/weg"@[0] == '/' && "/withdraw"@[0] == '/');
    assert("/weg "@[0] == '/' && "/withdraw "@[0] == '/');
    let films = seq!["/film "@, "/movie "@];
    let series = seq!["/serie "@, "/series "@];
    assert(films.skip(1)[0] == "/movie "@);
    assert(series.skip(1)[0] == "/series "@);
    assert(films.skip(1).skip(1).len() == 0);
    assert(series.skip(1).skip(1).len() == 0);
    reveal_with_fuel(first_prefix, 3);
    assert(command_rest(text, lowered, films) is None);
    assert(command_rest(text, lowered, series) is None);
}

/// A wish is withdrawn by the number that stands behind the command; without
/// a word behind it there is none.
pub proof fn law_a_wish_is_withdrawn_by_its_number(command: Seq<char>, id: i64, rest: Seq<char>)
    requires
        is_word(command),
        rest.len() == 0 || white_space(rest[0]),
    ensures
        withdrawn_id(command + " "@ + decimal_int(id as int) + rest) == Some(id),
        withdrawn_id(command) is None,
{
    reveal_strlit(" ");
    let number = decimal_int(id as int);
    let text = command + " "@ + number + rest;
    let behind = " "@ + number + rest;
    lemma_a_number_is_a_word(id);
    law_a_text_falls_into_its_words(Seq::empty(), command, behind);
    assert(Seq::<char>::empty() + command + behind =~= text);
    law_a_text_falls_into_its_words(" "@, number, rest);
    assert(words(text)[1] == number);
    law_a_written_integer_is_read_back(id);
    law_a_text_falls_into_its_words(Seq::empty(), command, Seq::empty());
    assert(Seq::<char>::empty() + command + Seq::<char>::empty() =~= command);
    assert(words(command).len() == 1);
}

pub(crate) proof fn lemma_a_number_is_a_word(id: i64)
    ensures
        is_word(decimal_int(id as int)),
{
    let size = if id < 0 {
        (-(id as int)) as nat
    } else {
        id as nat
    };
    let digits = crate::text::decimal(size);
    crate::text::laws::law_a_written_number_is_read_back(size, size);
    crate::text::laws::law_a_number_is_read_digit_by_digit(digits, size, 0);
    let number = decimal_int(id as int);
    assert forall|i: int| 0 <= i < number.len() implies !white_space(#[trigger] number[i]) by {
        let at = if id < 0 {
            i - 1
        } else {
            i
        };
        if at >= 0 {
            assert(number[i] == digits[at]);
            if at > 0 {
                assert('0' <= digits[at] <= '9');
            }
        }
    }
}

/// The seasons that are named are asked for, one for each word and in that
/// order; and as soon as one of the words is no season of the series, none
/// is.
pub proof fn law_named_seasons_are_asked_for(lowered: Seq<char>, seasons: u16)
    requires
        lowered != "alle"@,
        lowered != "all"@,
    ensures
        match seasons_meant(lowered, seasons) {
            Some(SeasonsView::Only(list)) => {
                &&& list.len() == words(lowered).len() && list.len() > 0
                &&& forall|i: int|
                    0 <= i < list.len() ==> crate::text::parsed_unsigned(
                        #[trigger] words(lowered)[i],
                        u16::MAX as nat,
                    ) == Some(list[i] as nat) && 1 <= list[i] <= seasons
            },
            Some(_) => false,
            None => words(lowered).len() == 0 || exists|i: int|
                0 <= i < words(lowered).len() && !(crate::text::parsed_unsigned(
                    #[trigger] words(lowered)[i],
                    u16::MAX as nat,
                ) matches Some(n) && 1 <= n <= seasons),
        },
{
    let list = words(lowered);
    if seasons_meant(lowered, seasons) is None && list.len() > 0 {
        let i = choose|i: int| 0 <= i < list.len() && season_word(#[trigger] list[i], seasons) is None;
        assert(!(crate::text::parsed_unsigned(list[i], u16::MAX as nat) matches Some(n) && 1 <= n
            <= seasons));
    }
}

} // verus!
