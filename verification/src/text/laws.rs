//! What holds of the operations on text, said of the characters alone.

use crate::text::{
    decimal, decimal_int, digit_char, digits_value, is_digits, joined_by, lemma_trim_start,
    occurs, parsed_i64, parsed_unsigned, replaced, same_ascii_caseless, stands_at,
    trim_end, trim_start, trimmed, white_space, without_end_slashes, word_len, words,
};
use vstd::prelude::*;

verus! {

/// A number in decimal digits is made of digits that write it, without a zero
/// in front.
proof fn lemma_decimal(n: nat)
    ensures
        is_digits(decimal(n)),
        digits_value(decimal(n)) == n,
        n > 0 ==> decimal(n)[0] != '0',
    decreases n,
{
    if n >= 10 {
        lemma_decimal(n / 10);
        let front = decimal(n / 10);
        let all = decimal(n);
        assert(all.drop_last() =~= front);
        assert(all[0] == front[0]);
        assert forall|i: int| 0 <= i < all.len() implies '0' <= #[trigger] all[i] <= '9' by {
            if i < front.len() {
                assert(all[i] == front[i]);
            }
        }
    } else {
        assert(decimal(n).drop_last() =~= Seq::<char>::empty());
        assert(digits_value(Seq::<char>::empty()) == 0);
    }
}

/// A number that is written out is read back as it was, as long as it is
/// small enough to be read at all.
pub proof fn law_a_written_number_is_read_back(n: nat, max: nat)
    ensures
        n <= max ==> parsed_unsigned(decimal(n), max) == Some(n),
        n > max ==> parsed_unsigned(decimal(n), max) is None,
        decimal(n).len() > 0,
        '0' <= decimal(n)[0] <= '9',
{
    lemma_decimal(n);
    assert(decimal(n)[0] != '+');
}

/// A signed number that is written out is read back as it was.
pub proof fn law_a_written_integer_is_read_back(n: i64)
    ensures
        parsed_i64(decimal_int(n as int)) == Some(n),
{
    if n < 0 {
        let size = (-(n as int)) as nat;
        lemma_decimal(size);
        let text = decimal_int(n as int);
        assert(text.skip(1) =~= decimal(size));
    } else {
        law_a_written_number_is_read_back(n as nat, 0x7fff_ffff_ffff_ffff);
    }
}

/// What is read as a number is nothing but digits, but for one plus sign that
/// may stand in front; and one more digit at the end makes it ten times as
/// large, and that digit larger.
pub proof fn law_a_number_is_read_digit_by_digit(s: Seq<char>, max: nat, digit: nat)
    requires
        digit < 10,
        parsed_unsigned(s, max) is Some,
    ensures
        s.len() > 0,
        s[0] == '+' || '0' <= s[0] <= '9',
        s[0] == '+' ==> s.len() > 1,
        forall|i: int| 1 <= i < s.len() ==> '0' <= #[trigger] s[i] <= '9',
        parsed_unsigned(s, max)->0 * 10 + digit <= max ==> parsed_unsigned(
            s.push(digit_char(digit)),
            max,
        ) == Some((parsed_unsigned(s, max)->0 * 10 + digit) as nat),
{
    let digits = if s.len() > 0 && s[0] == '+' {
        s.skip(1)
    } else {
        s
    };
    assert(is_digits(digits));
    let longer = s.push(digit_char(digit));
    assert forall|i: int| 1 <= i < s.len() implies '0' <= #[trigger] s[i] <= '9' by {
        if s[0] == '+' {
            assert(digits[i - 1] == s[i]);
        } else {
            assert(digits[i] == s[i]);
        }
    }
    if s[0] == '+' {
        assert(longer.skip(1) =~= digits.push(digit_char(digit)));
    } else {
        assert(digits[0] == s[0]);
    }
    let more = digits.push(digit_char(digit));
    assert(more.drop_last() =~= digits);
    assert(is_digits(more)) by {
        assert forall|i: int| 0 <= i < more.len() implies '0' <= #[trigger] more[i] <= '9' by {
            if i < digits.len() {
                assert(more[i] == digits[i]);
            }
        }
    }
}

/// A plus sign in front of a number changes nothing.
pub proof fn law_a_plus_sign_changes_nothing(n: nat, max: nat)
    ensures
        parsed_unsigned(seq!['+'] + decimal(n), max) == parsed_unsigned(decimal(n), max),
{
    law_a_written_number_is_read_back(n, max);
    lemma_decimal(n);
    let signed = seq!['+'] + decimal(n);
    assert(signed.skip(1) =~= decimal(n));
}

/// White space is the tab, the ends of lines and pages, and the spaces of
/// whatever width, those that keep words together among them; nothing else
/// is.
pub proof fn law_what_white_space_is(c: char)
    ensures
        white_space(c) <==> {
            ||| c == '\t' || c == '\n' || c == '\u{b}' || c == '\u{c}' || c == '\r'
            ||| c == ' ' || c == '\u{85}' || c == '\u{a0}' || c == '\u{1680}'
            ||| '\u{2000}' <= c <= '\u{200a}'
            ||| c == '\u{2028}' || c == '\u{2029}' || c == '\u{202f}'
            ||| c == '\u{205f}' || c == '\u{3000}'
        },
{
}

/// Whether a text is white space throughout.
pub open spec fn is_blank(s: Seq<char>) -> bool {
    forall|i: int| 0 <= i < s.len() ==> white_space(#[trigger] s[i])
}

proof fn lemma_trim_start_parts(s: Seq<char>) -> (front: Seq<char>)
    ensures
        is_blank(front),
        s == front + trim_start(s),
    decreases s.len(),
{
    if s.len() > 0 && white_space(s[0]) {
        let rest = lemma_trim_start_parts(s.skip(1));
        let front = seq![s[0]] + rest;
        assert(s =~= front + trim_start(s)) by {
            assert(s =~= seq![s[0]] + s.skip(1));
        }
        front
    } else {
        assert(s =~= Seq::<char>::empty() + s);
        Seq::empty()
    }
}

proof fn lemma_trim_end_parts(s: Seq<char>) -> (back: Seq<char>)
    ensures
        is_blank(back),
        s == trim_end(s) + back,
        trim_end(s).len() > 0 ==> !white_space(trim_end(s).last()) && trim_end(s)[0] == s[0],
    decreases s.len(),
{
    if s.len() > 0 && white_space(s.last()) {
        let rest = lemma_trim_end_parts(s.drop_last());
        let back = rest.push(s.last());
        assert(s =~= trim_end(s) + back) by {
            assert(s =~= s.drop_last().push(s.last()));
        }
        back
    } else {
        assert(s =~= s + Seq::<char>::empty());
        Seq::empty()
    }
}

/// Trimming takes the white space around a text, all of it, and nothing else.
pub proof fn law_trimming_takes_what_is_blank(s: Seq<char>)
    ensures
        exists|front: Seq<char>, back: Seq<char>| #[trigger]
            (front + trimmed(s) + back) == s && is_blank(front) && is_blank(back),
        trimmed(s).len() > 0 ==> !white_space(trimmed(s)[0]) && !white_space(trimmed(s).last()),
{
    let front = lemma_trim_start_parts(s);
    lemma_trim_start(s);
    let t = trim_start(s);
    let back = lemma_trim_end_parts(t);
    assert(front + trimmed(s) + back =~= s);
}

/// Whether a text has no white space.
pub open spec fn is_word(s: Seq<char>) -> bool {
    s.len() > 0 && forall|i: int| 0 <= i < s.len() ==> !white_space(#[trigger] s[i])
}

proof fn lemma_word_first(word: Seq<char>, rest: Seq<char>)
    requires
        forall|i: int| 0 <= i < word.len() ==> !white_space(#[trigger] word[i]),
        rest.len() == 0 || white_space(rest[0]),
    ensures
        word_len(word + rest) == word.len(),
    decreases word.len(),
{
    if word.len() > 0 {
        assert((word + rest)[0] == word[0]);
        assert((word + rest).skip(1) =~= word.skip(1) + rest);
        lemma_word_first(word.skip(1), rest);
    } else {
        assert(word + rest =~= rest);
    }
}

proof fn lemma_blank_trims_away(space: Seq<char>, rest: Seq<char>)
    requires
        is_blank(space),
        rest.len() == 0 || !white_space(rest[0]),
    ensures
        trim_start(space + rest) == rest,
    decreases space.len(),
{
    if space.len() > 0 {
        assert((space + rest)[0] == space[0]);
        assert((space + rest).skip(1) =~= space.skip(1) + rest);
        lemma_blank_trims_away(space.skip(1), rest);
    } else {
        assert(space + rest =~= rest);
    }
}

/// A text falls into the words that stand between its white space: whatever
/// white space comes first is passed over, the first word ends where white
/// space follows, and the rest falls into the words after it.
pub proof fn law_a_text_falls_into_its_words(space: Seq<char>, word: Seq<char>, rest: Seq<char>)
    requires
        is_blank(space),
        is_word(word),
        rest.len() == 0 || white_space(rest[0]),
    ensures
        words(space + word + rest) == seq![word] + words(rest),
        words(space) == Seq::<Seq<char>>::empty(),
{
    let s = space + word + rest;
    assert(s =~= space + (word + rest));
    assert((word + rest)[0] == word[0]);
    lemma_blank_trims_away(space, word + rest);
    lemma_word_first(word, rest);
    assert((word + rest).take(word.len() as int) =~= word);
    assert((word + rest).skip(word.len() as int) =~= rest);
    lemma_blank_trims_away(space, Seq::empty());
    assert(space + Seq::<char>::empty() =~= space);
}

/// A text occurs in another where the other is something, that text, and
/// something again.
pub proof fn law_what_occurs_is_a_part(hay: Seq<char>, needle: Seq<char>)
    ensures
        occurs(hay, needle) <==> exists|front: Seq<char>, back: Seq<char>| #[trigger]
            (front + needle + back) == hay,
{
    if occurs(hay, needle) {
        let at = choose|at: int| #[trigger] stands_at(hay, at, needle);
        let front = hay.take(at);
        let back = hay.skip(at + needle.len());
        assert(front + needle + back =~= hay);
    }
    if exists|front: Seq<char>, back: Seq<char>| #[trigger] (front + needle + back) == hay {
        let (front, back) = choose|front: Seq<char>, back: Seq<char>| #[trigger]
            (front + needle + back) == hay;
        assert(hay.subrange(front.len() as int, (front.len() + needle.len()) as int) =~= needle);
        assert(stands_at(hay, front.len() as int, needle));
    }
}

/// Where case counts for nothing, two texts are the same if each character is
/// the same, or the two are one letter of the alphabet, once small and once
/// large.
pub proof fn law_case_counts_for_nothing(a: Seq<char>, b: Seq<char>)
    ensures
        same_ascii_caseless(a, b) <==> a.len() == b.len() && forall|i: int|
            0 <= i < a.len() ==> {
                ||| #[trigger] a[i] == b[i]
                ||| 'a' <= a[i] <= 'z' && b[i] as u32 + 32 == a[i] as u32
                ||| 'a' <= b[i] <= 'z' && a[i] as u32 + 32 == b[i] as u32
            },
{
    assert forall|x: char| 'A' <= x <= 'Z' implies #[trigger] crate::text::ascii_lower(x) as u32
        == x as u32 + 32 by {
        vstd::utf8::char_is_scalar(x);
    }
    if a.len() == b.len() {
        assert forall|i: int| 0 <= i < a.len() implies (crate::text::ascii_lower(#[trigger] a[i])
            == crate::text::ascii_lower(b[i]) <==> {
            ||| a[i] == b[i]
            ||| 'a' <= a[i] <= 'z' && b[i] as u32 + 32 == a[i] as u32
            ||| 'a' <= b[i] <= 'z' && a[i] as u32 + 32 == b[i] as u32
        }) by {
            let x = crate::text::ascii_lower(a[i]);
            let y = crate::text::ascii_lower(b[i]);
            assert(x == y <==> x as u32 == y as u32);
        }
    }
}

/// Texts are joined with the separator between each two of them, and nowhere
/// else.
pub proof fn law_joined_in_order(
    front: Seq<Seq<char>>,
    back: Seq<Seq<char>>,
    separator: Seq<char>,
)
    ensures
        front.len() > 0 && back.len() > 0 ==> joined_by(front + back, separator) == joined_by(
            front,
            separator,
        ) + separator + joined_by(back, separator),
        front.len() == 1 ==> joined_by(front, separator) == front[0],
        front.len() == 0 ==> joined_by(front, separator) == Seq::<char>::empty(),
    decreases back.len(),
{
    if front.len() > 0 && back.len() > 0 {
        let all = front + back;
        assert(all.drop_last() =~= front + back.drop_last());
        assert(all.last() == back.last());
        if back.len() == 1 {
            assert(all.drop_last() =~= front);
        } else {
            law_joined_in_order(front, back.drop_last(), separator);
            assert(joined_by(all, separator) =~= joined_by(front, separator) + separator
                + joined_by(back, separator));
        }
    }
}

/// The slashes at the end of an address are dropped, all of them, and nothing
/// else.
pub proof fn law_only_the_last_slashes_go(s: Seq<char>)
    ensures
        exists|slashes: Seq<char>| #[trigger]
            (without_end_slashes(s) + slashes) == s && forall|i: int|
                0 <= i < slashes.len() ==> slashes[i] == '/',
        without_end_slashes(s).len() > 0 ==> without_end_slashes(s).last() != '/',
    decreases s.len(),
{
    if s.len() > 0 && s.last() == '/' {
        law_only_the_last_slashes_go(s.drop_last());
        let front = s.drop_last();
        let slashes = choose|slashes: Seq<char>| #[trigger]
            (without_end_slashes(front) + slashes) == front && forall|i: int|
                0 <= i < slashes.len() ==> slashes[i] == '/';
        let all = slashes.push('/');
        assert(without_end_slashes(s) + all =~= s) by {
            assert(s =~= front.push('/'));
        }
    } else {
        assert(without_end_slashes(s) + Seq::<char>::empty() =~= s);
    }
}

/// The first place where a text stands is where it is replaced, and the rest
/// is treated in the same way.
pub proof fn law_replaced_where_it_stands(
    front: Seq<char>,
    from: Seq<char>,
    back: Seq<char>,
    to: Seq<char>,
)
    requires
        from.len() > 0,
        forall|at: int| 0 <= at < front.len() ==> !#[trigger] stands_at(front + from + back, at, from),
    ensures
        replaced(front + from + back, from, to) == front + to + replaced(back, from, to),
    decreases front.len(),
{
    let s = front + from + back;
    if front.len() == 0 {
        assert(s.subrange(0, from.len() as int) =~= from);
        assert(stands_at(s, 0, from));
        assert(s.skip(from.len() as int) =~= back);
        assert(front + to + replaced(back, from, to) =~= to + replaced(back, from, to));
    } else {
        assert(!stands_at(s, 0, from));
        let rest = front.skip(1) + from + back;
        assert(s.skip(1) =~= rest);
        assert forall|at: int| 0 <= at < front.len() - 1 implies !#[trigger] stands_at(
            rest,
            at,
            from,
        ) by {
            if stands_at(rest, at, from) {
                assert(s.subrange(at + 1, at + 1 + from.len()) =~= rest.subrange(
                    at,
                    at + from.len(),
                ));
                assert(stands_at(s, at + 1, from));
            }
        }
        law_replaced_where_it_stands(front.skip(1), from, back, to);
        assert(s[0] == front[0]);
        assert(seq![s[0]] + (front.skip(1) + to + replaced(back, from, to)) =~= front + to
            + replaced(back, from, to));
    }
}

} // verus!
