//! Operations on text, stated over sequences of characters.

use vstd::prelude::*;
use vstd::utf8::*;

pub mod laws;

verus! {

/// The views of a sequence of strings.
pub open spec fn views(list: Seq<String>) -> Seq<Seq<char>> {
    list.map_values(|s: String| s@)
}

/// The view of an optional string.
pub open spec fn opt_view(text: Option<String>) -> Option<Seq<char>> {
    match text {
        Some(s) => Some(s@),
        None => None,
    }
}

/// Whether two texts are equal.
pub fn same(a: &str, b: &str) -> (r: bool)
    ensures
        r == (a@ == b@),
{
    let x = a.as_bytes();
    let y = b.as_bytes();
    proof {
        encode_utf8_decode_utf8(a@);
        encode_utf8_decode_utf8(b@);
    }
    if x.len() != y.len() {
        return false;
    }
    let mut i: usize = 0;
    while i < x.len()
        invariant
            x@ == encode_utf8(a@),
            y@ == encode_utf8(b@),
            x@.len() == y@.len(),
            i <= x@.len(),
            forall|j: int| 0 <= j < i ==> x@[j] == y@[j],
        decreases x@.len() - i,
    {
        if x[i] != y[i] {
            return false;
        }
        i += 1;
    }
    assert(x@ =~= y@);
    true
}

/// The characters of a text.
pub fn chars_of(s: &str) -> (v: Vec<char>)
    ensures
        v@ == s@,
{
    let mut v: Vec<char> = Vec::new();
    for c in it: s.chars()
        invariant
            it.seq() == s@,
            v@ == s@.take(it.index() as int),
    {
        v.push(c);
    }
    assert(s@.take(s@.len() as int) =~= s@);
    v
}

/// Whether `needle` stands in `hay` from position `at` on.
pub open spec fn stands_at(hay: Seq<char>, at: int, needle: Seq<char>) -> bool {
    0 <= at && at + needle.len() <= hay.len() && hay.subrange(at, at + needle.len()) == needle
}

/// Whether `needle` occurs anywhere in `hay`.
pub open spec fn occurs(hay: Seq<char>, needle: Seq<char>) -> bool {
    exists|at: int| #[trigger] stands_at(hay, at, needle)
}

/// Whether `needle` stands in `hay` from position `at` on.
fn matches_at(hay: &Vec<char>, at: usize, needle: &Vec<char>) -> (r: bool)
    requires
        at <= hay@.len(),
    ensures
        r == stands_at(hay@, at as int, needle@),
{
    if hay.len() - at < needle.len() {
        return false;
    }
    let mut i: usize = 0;
    while i < needle.len()
        invariant
            at + needle@.len() <= hay.len(),
            i <= needle@.len(),
            forall|j: int| 0 <= j < i ==> hay@[at + j] == needle@[j],
        decreases needle@.len() - i,
    {
        if hay[at + i] != needle[i] {
            assert(hay@.subrange(at as int, at + needle@.len())[i as int] != needle@[i as int]);
            return false;
        }
        i += 1;
    }
    assert(hay@.subrange(at as int, at + needle@.len()) =~= needle@);
    true
}

/// Whether `needle` occurs in `hay`.
pub fn contains(hay: &str, needle: &str) -> (r: bool)
    ensures
        r == occurs(hay@, needle@),
{
    let h = chars_of(hay);
    let n = chars_of(needle);
    if h.len() < n.len() {
        return false;
    }
    if n.len() == 0 {
        assert(hay@.subrange(0, 0) =~= needle@);
        assert(stands_at(hay@, 0, needle@));
        return true;
    }
    let count: usize = h.len() - n.len() + 1;
    let mut at: usize = 0;
    while at < count
        invariant
            h@ == hay@,
            n@ == needle@,
            n@.len() > 0,
            count == h@.len() - n@.len() + 1,
            at <= count,
            forall|j: int| 0 <= j < at ==> !#[trigger] stands_at(h@, j, n@),
        decreases count - at,
    {
        if matches_at(&h, at, &n) {
            assert(stands_at(hay@, at as int, needle@));
            return true;
        }
        at += 1;
    }
    false
}

/// Whether `text` begins with `prefix`.
pub fn starts_with(text: &str, prefix: &str) -> (r: bool)
    ensures
        r == prefix@.is_prefix_of(text@),
{
    let t = chars_of(text);
    let p = chars_of(prefix);
    matches_at(&t, 0, &p)
}

/// The lower-case form of an ASCII letter; every other character as it is.
pub open spec fn ascii_lower(c: char) -> char {
    if 'A' <= c <= 'Z' {
        ((c as u32 + 32) as u32) as char
    } else {
        c
    }
}

/// Whether two texts are equal when ASCII letters are compared without
/// regard to case.
pub open spec fn same_ascii_caseless(a: Seq<char>, b: Seq<char>) -> bool {
    &&& a.len() == b.len()
    &&& forall|i: int| 0 <= i < a.len() ==> ascii_lower(#[trigger] a[i]) == ascii_lower(b[i])
}

fn lower_code(c: char) -> (r: u32)
    ensures
        r == ascii_lower(c) as u32,
{
    if 'A' <= c && c <= 'Z' {
        c as u32 + 32
    } else {
        c as u32
    }
}

/// Whether two texts are equal when ASCII letters are compared without
/// regard to case.
pub fn eq_ignore_ascii_case(a: &str, b: &str) -> (r: bool)
    ensures
        r == same_ascii_caseless(a@, b@),
{
    let x = chars_of(a);
    let y = chars_of(b);
    if x.len() != y.len() {
        return false;
    }
    let mut i: usize = 0;
    while i < x.len()
        invariant
            x@ == a@,
            y@ == b@,
            x@.len() == y@.len(),
            i <= x@.len(),
            forall|j: int| 0 <= j < i ==> ascii_lower(#[trigger] x@[j]) == ascii_lower(y@[j]),
        decreases x@.len() - i,
    {
        if lower_code(x[i]) != lower_code(y[i]) {
            assert(ascii_lower(a@[i as int]) != ascii_lower(b@[i as int]));
            return false;
        }
        i += 1;
    }
    true
}

/// The characters that Unicode gives the `White_Space` property.
pub open spec fn white_space(c: char) -> bool {
    let n = c as u32;
    ||| 0x9 <= n <= 0xd
    ||| n == 0x20
    ||| n == 0x85
    ||| n == 0xa0
    ||| n == 0x1680
    ||| 0x2000 <= n <= 0x200a
    ||| n == 0x2028
    ||| n == 0x2029
    ||| n == 0x202f
    ||| n == 0x205f
    ||| n == 0x3000
}

/// Whether a character has the `White_Space` property.
pub fn is_white_space(c: char) -> (r: bool)
    ensures
        r == white_space(c),
{
    let n: u32 = c as u32;
    (0x9 <= n && n <= 0xd) || n == 0x20 || n == 0x85 || n == 0xa0 || n == 0x1680 || (0x2000 <= n
        && n <= 0x200a) || n == 0x2028 || n == 0x2029 || n == 0x202f || n == 0x205f || n == 0x3000
}

/// The text without its leading white space.
pub open spec fn trim_start(s: Seq<char>) -> Seq<char>
    decreases s.len(),
{
    if s.len() > 0 && white_space(s[0]) {
        trim_start(s.skip(1))
    } else {
        s
    }
}

/// The text without its trailing white space.
pub open spec fn trim_end(s: Seq<char>) -> Seq<char>
    decreases s.len(),
{
    if s.len() > 0 && white_space(s.last()) {
        trim_end(s.drop_last())
    } else {
        s
    }
}

/// The text without the white space around it.
pub open spec fn trimmed(s: Seq<char>) -> Seq<char> {
    trim_end(trim_start(s))
}

/// How many characters of leading white space `v` has from `from` on.
fn skip_space(v: &Vec<char>, from: usize) -> (at: usize)
    requires
        from <= v@.len(),
    ensures
        from <= at <= v@.len(),
        v@.skip(at as int) == trim_start(v@.skip(from as int)),
        at < v@.len() ==> !white_space(v@[at as int]),
{
    let mut at: usize = from;
    while at < v.len() && is_white_space(v[at])
        invariant
            from <= at <= v@.len(),
            trim_start(v@.skip(at as int)) == trim_start(v@.skip(from as int)),
        decreases v@.len() - at,
    {
        assert(v@.skip(at as int).skip(1) =~= v@.skip(at + 1));
        at += 1;
    }
    at
}

/// The text without the white space around it.
pub fn trim<'a>(s: &'a str) -> (r: &'a str)
    ensures
        r@ == trimmed(s@),
{
    let v = chars_of(s);
    assert(v@.skip(0) =~= v@);
    let start: usize = skip_space(&v, 0);
    let mut end: usize = v.len();
    assert(v@.subrange(start as int, end as int) =~= v@.skip(start as int));
    while end > start && is_white_space(v[end - 1])
        invariant
            start <= end <= v@.len(),
            trim_end(v@.subrange(start as int, end as int)) == trim_end(v@.skip(start as int)),
        decreases end,
    {
        assert(v@.subrange(start as int, end as int).drop_last() =~= v@.subrange(
            start as int,
            end - 1,
        ));
        end -= 1;
    }
    s.substring_char(start, end)
}

/// How many characters `s` has before its first white space.
pub open spec fn word_len(s: Seq<char>) -> nat
    decreases s.len(),
{
    if s.len() > 0 && !white_space(s[0]) {
        1 + word_len(s.skip(1))
    } else {
        0
    }
}

pub proof fn lemma_word_len(s: Seq<char>)
    ensures
        word_len(s) <= s.len(),
        s.len() > 0 && !white_space(s[0]) ==> word_len(s) >= 1,
    decreases s.len(),
{
    if s.len() > 0 && !white_space(s[0]) {
        lemma_word_len(s.skip(1));
    }
}

pub proof fn lemma_trim_start(s: Seq<char>)
    ensures
        trim_start(s).len() <= s.len(),
        trim_start(s).len() > 0 ==> !white_space(trim_start(s)[0]),
    decreases s.len(),
{
    if s.len() > 0 && white_space(s[0]) {
        lemma_trim_start(s.skip(1));
    }
}

/// The maximal runs of characters that are not white space, in order.
pub open spec fn words(s: Seq<char>) -> Seq<Seq<char>>
    decreases s.len(),
{
    let t = trim_start(s);
    if t.len() == 0 {
        Seq::empty()
    } else {
        proof {
            lemma_trim_start(s);
            lemma_word_len(t);
        }
        seq![t.take(word_len(t) as int)] + words(t.skip(word_len(t) as int))
    }
}

/// The words of a text: what stands between its white space.
pub fn words_of(s: &str) -> (list: Vec<String>)
    ensures
        views(list@) == words(s@),
{
    let v = chars_of(s);
    let mut list: Vec<String> = Vec::new();
    assert(v@.skip(0) =~= v@);
    let mut from: usize = skip_space(&v, 0);
    proof {
        assert(words(s@.skip(from as int)) == words(s@)) by {
            lemma_trim_start(s@);
            assert(trim_start(trim_start(s@)) == trim_start(s@));
        }
    }
    while from < v.len()
        invariant
            v@ == s@,
            from <= v@.len(),
            from < v@.len() ==> !white_space(v@[from as int]),
            views(list@) + words(v@.skip(from as int)) == words(v@),
        decreases v@.len() - from,
    {
        let mut end: usize = from;
        while end < v.len() && !is_white_space(v[end])
            invariant
                from <= end <= v@.len(),
                from < v@.len(),
                !white_space(v@[from as int]),
                word_len(v@.skip(from as int)) == (end - from) + word_len(v@.skip(end as int)),
            decreases v@.len() - end,
        {
            assert(v@.skip(end as int).skip(1) =~= v@.skip(end + 1));
            end += 1;
        }
        let next: usize = skip_space(&v, end);
        let word = s.substring_char(from, end).to_owned();
        proof {
            let rest = v@.skip(from as int);
            let tail = v@.skip(end as int);
            assert(trim_start(rest) == rest);
            assert(word_len(rest) == end - from);
            assert(rest.take(end - from) =~= v@.subrange(from as int, end as int));
            assert(rest.skip(end - from) =~= tail);
            lemma_trim_start(tail);
            assert(trim_start(trim_start(tail)) == trim_start(tail));
            assert(words(v@.skip(next as int)) == words(tail));
            assert(words(rest) == seq![word@] + words(tail));
            assert(views(list@.push(word)) =~= views(list@).push(word@));
            assert(views(list@).push(word@) + words(tail) =~= views(list@) + (seq![word@] + words(
                tail,
            )));
        }
        list.push(word);
        from = next;
    }
    assert(views(list@) + Seq::<Seq<char>>::empty() =~= views(list@));
    list
}

/// The value of an ASCII digit.
pub open spec fn digit_value(c: char) -> nat {
    (c as u32 - 48) as nat
}

/// Whether the text is one or more ASCII digits.
pub open spec fn is_digits(s: Seq<char>) -> bool {
    s.len() > 0 && forall|i: int| 0 <= i < s.len() ==> '0' <= #[trigger] s[i] <= '9'
}

/// The number that a row of digits writes.
pub open spec fn digits_value(s: Seq<char>) -> nat
    decreases s.len(),
{
    if s.len() == 0 {
        0
    } else {
        digits_value(s.drop_last()) * 10 + digit_value(s.last())
    }
}

/// The text without one leading plus sign.
pub open spec fn without_plus(s: Seq<char>) -> Seq<char> {
    if s.len() > 0 && s[0] == '+' {
        s.skip(1)
    } else {
        s
    }
}

/// An unsigned number of at most `max`, as Rust parses one: digits, with an
/// optional plus sign in front.
pub open spec fn parsed_unsigned(s: Seq<char>, max: nat) -> Option<nat> {
    let digits = without_plus(s);
    if is_digits(digits) && digits_value(digits) <= max {
        Some(digits_value(digits))
    } else {
        None
    }
}

/// A signed 64-bit number, as Rust parses one: digits, with an optional sign
/// in front.
pub open spec fn parsed_i64(s: Seq<char>) -> Option<i64> {
    if s.len() > 0 && s[0] == '-' {
        let digits = s.skip(1);
        if is_digits(digits) && digits_value(digits) <= 0x8000_0000_0000_0000 {
            Some((-(digits_value(digits) as int)) as i64)
        } else {
            None
        }
    } else {
        match parsed_unsigned(s, 0x7fff_ffff_ffff_ffff) {
            Some(n) => Some(n as i64),
            None => None,
        }
    }
}

proof fn lemma_digits_grow(s: Seq<char>, n: int)
    requires
        0 <= n <= s.len(),
    ensures
        digits_value(s.take(n)) <= digits_value(s),
    decreases s.len(),
{
    if n < s.len() {
        lemma_digits_grow(s.drop_last(), n);
        assert(s.drop_last().take(n) =~= s.take(n));
    } else {
        assert(s.take(n) =~= s);
    }
}

/// The number that the digits from `from` on write, if there are any, all of
/// them are digits and the number is at most `max`.
fn digits_from(v: &Vec<char>, from: usize, max: u64) -> (r: Option<u64>)
    requires
        from <= v@.len(),
    ensures
        match r {
            Some(n) => is_digits(v@.skip(from as int)) && n == digits_value(v@.skip(from as int))
                && n <= max,
            None => !(is_digits(v@.skip(from as int)) && digits_value(v@.skip(from as int)) <= max),
        },
{
    let ghost digits = v@.skip(from as int);
    if from == v.len() {
        return None;
    }
    let mut value: u64 = 0;
    let mut at: usize = from;
    while at < v.len()
        invariant
            from <= at <= v@.len(),
            digits == v@.skip(from as int),
            value <= max,
            value == digits_value(digits.take(at - from)),
            forall|i: int| 0 <= i < at - from ==> '0' <= #[trigger] digits[i] <= '9',
        decreases v@.len() - at,
    {
        let c = v[at];
        assert(digits[at - from] == c);
        if c < '0' || '9' < c {
            return None;
        }
        let d: u64 = c as u64 - 48;
        proof {
            let next = digits.take(at - from + 1);
            assert(next.drop_last() =~= digits.take(at - from));
            assert(next.last() == c);
            assert(digits_value(next) == value * 10 + d);
            lemma_digits_grow(digits, at - from + 1);
        }
        if value > max / 10 || value * 10 > max || d > max - value * 10 {
            return None;
        }
        value = value * 10 + d;
        at += 1;
    }
    assert(digits.take(digits.len() as int) =~= digits);
    Some(value)
}

/// Reads an unsigned number of at most `max`.
pub fn parse_unsigned(s: &str, max: u64) -> (r: Option<u64>)
    ensures
        match r {
            Some(n) => parsed_unsigned(s@, max as nat) == Some(n as nat),
            None => parsed_unsigned(s@, max as nat) is None,
        },
{
    let v = chars_of(s);
    if v.len() > 0 && v[0] == '+' {
        digits_from(&v, 1, max)
    } else {
        assert(v@.skip(0) =~= v@);
        digits_from(&v, 0, max)
    }
}

/// Reads a signed 64-bit number.
pub fn parse_i64(s: &str) -> (r: Option<i64>)
    ensures
        r == parsed_i64(s@),
{
    let v = chars_of(s);
    if v.len() > 0 && v[0] == '-' {
        match digits_from(&v, 1, 0x8000_0000_0000_0000) {
            Some(n) => if n == 0x8000_0000_0000_0000 {
                Some(i64::MIN)
            } else {
                Some(-(n as i64))
            },
            None => None,
        }
    } else {
        match parse_unsigned(s, 0x7fff_ffff_ffff_ffff) {
            Some(n) => Some(n as i64),
            None => None,
        }
    }
}

/// The character of a decimal digit.
pub open spec fn digit_char(d: nat) -> char {
    ((48 + d) as u32) as char
}

/// A natural number in decimal digits, without leading zeros.
pub open spec fn decimal(n: nat) -> Seq<char>
    decreases n,
{
    if n < 10 {
        seq![digit_char(n)]
    } else {
        decimal(n / 10).push(digit_char(n % 10))
    }
}

/// An integer in decimal digits, with a minus sign in front where it is
/// negative.
pub open spec fn decimal_int(n: int) -> Seq<char> {
    if n < 0 {
        seq!['-'] + decimal((-n) as nat)
    } else {
        decimal(n as nat)
    }
}

fn digit_text(d: u64) -> (r: &'static str)
    requires
        d < 10,
    ensures
        r@ == seq![digit_char(d as nat)],
{
    proof {
        reveal_strlit("0");
        reveal_strlit("1");
        reveal_strlit("2");
        reveal_strlit("3");
        reveal_strlit("4");
        reveal_strlit("5");
        reveal_strlit("6");
        reveal_strlit("7");
        reveal_strlit("8");
        reveal_strlit("9");
    }
    let r = if d == 0 {
        "0"
    } else if d == 1 {
        "1"
    } else if d == 2 {
        "2"
    } else if d == 3 {
        "3"
    } else if d == 4 {
        "4"
    } else if d == 5 {
        "5"
    } else if d == 6 {
        "6"
    } else if d == 7 {
        "7"
    } else if d == 8 {
        "8"
    } else {
        "9"
    };
    assert(r@ =~= seq![digit_char(d as nat)]);
    r
}

/// A number in decimal digits.
pub fn decimal_u64(n: u64) -> (r: String)
    ensures
        r@ == decimal(n as nat),
    decreases n,
{
    if n < 10 {
        digit_text(n).to_owned()
    } else {
        let mut r = decimal_u64(n / 10);
        r.append(digit_text(n % 10));
        assert(r@ =~= decimal(n as nat));
        r
    }
}

/// A signed number in decimal digits.
pub fn decimal_i64(n: i64) -> (r: String)
    ensures
        r@ == decimal_int(n as int),
{
    if n < 0 {
        let magnitude: u64 = if n == i64::MIN {
            0x8000_0000_0000_0000
        } else {
            (-n) as u64
        };
        proof {
            reveal_strlit("-");
        }
        let mut r = "-".to_owned();
        r.append(decimal_u64(magnitude).as_str());
        assert(r@ =~= decimal_int(n as int));
        r
    } else {
        decimal_u64(n as u64)
    }
}

/// The text with every occurrence of `from` replaced by `to`, read from left
/// to right and without looking again at what was put in.
pub open spec fn replaced(s: Seq<char>, from: Seq<char>, to: Seq<char>) -> Seq<char>
    decreases s.len(),
{
    if s.len() == 0 || from.len() == 0 {
        s
    } else if stands_at(s, 0, from) {
        to + replaced(s.skip(from.len() as int), from, to)
    } else {
        seq![s[0]] + replaced(s.skip(1), from, to)
    }
}

/// Replaces every occurrence of `from` by `to`.
pub fn replace(s: &str, from: &str, to: &str) -> (r: String)
    requires
        from@.len() > 0,
    ensures
        r@ == replaced(s@, from@, to@),
{
    let v = chars_of(s);
    let f = chars_of(from);
    let mut r = String::new();
    let mut at: usize = 0;
    assert(v@.skip(0) =~= v@);
    assert(r@ + replaced(v@, f@, to@) =~= replaced(v@, f@, to@));
    while at < v.len()
        invariant
            v@ == s@,
            f@ == from@,
            f@.len() > 0,
            at <= v@.len(),
            r@ + replaced(v@.skip(at as int), f@, to@) == replaced(s@, from@, to@),
        decreases v@.len() - at,
    {
        let ghost before = r@;
        let ghost rest = v@.skip(at as int);
        if matches_at(&v, at, &f) {
            proof {
                assert(rest.subrange(0, f@.len() as int) =~= v@.subrange(at as int, at + f@.len()));
                assert(stands_at(rest, 0, f@));
                assert(rest.skip(f@.len() as int) =~= v@.skip(at + f@.len()));
            }
            r.append(to);
            at += f.len();
            assert(before + (to@ + replaced(v@.skip(at as int), f@, to@)) =~= r@ + replaced(
                v@.skip(at as int),
                f@,
                to@,
            ));
        } else {
            proof {
                if stands_at(rest, 0, f@) {
                    assert(rest.subrange(0, f@.len() as int) =~= v@.subrange(
                        at as int,
                        at + f@.len(),
                    ));
                }
                assert(rest.skip(1) =~= v@.skip(at + 1));
                assert(s@.subrange(at as int, at + 1) =~= seq![rest[0]]);
            }
            r.append(s.substring_char(at, at + 1));
            at += 1;
            assert(before + (seq![rest[0]] + replaced(v@.skip(at as int), f@, to@)) =~= r@
                + replaced(v@.skip(at as int), f@, to@));
        }
    }
    assert(v@.skip(at as int) =~= Seq::<char>::empty());
    assert(r@ + Seq::<char>::empty() =~= r@);
    r
}

/// The lower-case form of a text, as Unicode maps it.
pub uninterp spec fn lowercase(text: Seq<char>) -> Seq<char>;

/// Calls `str::to_lowercase`. The result is a function of the text alone,
/// named [`lowercase`].
#[verifier::external_body]
pub(crate) fn to_lowercase(text: &str) -> (r: String)
    ensures
        r@ == lowercase(text@),
{
    text.to_lowercase()
}

/// The texts of a list, one after the other with `separator` between them.
pub open spec fn joined_by(list: Seq<Seq<char>>, separator: Seq<char>) -> Seq<char>
    decreases list.len(),
{
    if list.len() == 0 {
        Seq::empty()
    } else if list.len() == 1 {
        list[0]
    } else {
        joined_by(list.drop_last(), separator) + separator + list.last()
    }
}

/// Joins the texts of a list.
pub fn join_texts(list: &Vec<String>, separator: &str) -> (r: String)
    ensures
        r@ == joined_by(views(list@), separator@),
{
    let ghost all = views(list@);
    if list.len() == 0 {
        return String::new();
    }
    let mut r = list[0].clone();
    let mut i: usize = 1;
    assert(all.take(1).len() == 1);
    while i < list.len()
        invariant
            1 <= i <= list@.len(),
            all == views(list@),
            r@ == joined_by(all.take(i as int), separator@),
        decreases list@.len() - i,
    {
        proof {
            let next = all.take(i + 1);
            assert(next.drop_last() =~= all.take(i as int));
            assert(next.last() == list@[i as int]@);
        }
        r.append(separator);
        r.append(list[i].as_str());
        i += 1;
    }
    assert(all.take(i as int) =~= all);
    r
}

/// A copy of an optional text.
pub fn owned(text: Option<&str>) -> (r: Option<String>)
    ensures
        opt_view(r) == (match text {
            Some(s) => Some(s@),
            None => None,
        }),
{
    match text {
        Some(s) => Some(s.to_owned()),
        None => None,
    }
}

/// The text without the slashes at its end.
pub open spec fn without_end_slashes(s: Seq<char>) -> Seq<char>
    decreases s.len(),
{
    if s.len() > 0 && s.last() == '/' {
        without_end_slashes(s.drop_last())
    } else {
        s
    }
}

/// The address of a path under a base. The base may have a path of its own,
/// which is kept; slashes at its end are dropped.
pub fn address(base: &str, path: &str) -> (r: String)
    ensures
        r@ == without_end_slashes(base@) + path@,
{
    let v = chars_of(base);
    let mut end: usize = v.len();
    assert(v@.take(end as int) =~= v@);
    while end > 0 && v[end - 1] == '/'
        invariant
            v@ == base@,
            end <= v@.len(),
            without_end_slashes(v@.take(end as int)) == without_end_slashes(base@),
        decreases end,
    {
        assert(v@.take(end as int).drop_last() =~= v@.take(end - 1));
        end -= 1;
    }
    let mut r = base.substring_char(0, end).to_owned();
    assert(r@ =~= v@.take(end as int));
    r.append(path);
    r
}

} // verus!
