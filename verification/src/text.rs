//! Strings as sequences of characters: trimming, splitting, searching,
//! case-insensitive comparison and decimal numbers.

use vstd::prelude::*;
use vstd::string::*;
use vstd::utf8::*;

verus! {

/// The characters with the Unicode property `White_Space`.
pub open spec fn is_white(c: char) -> bool {
    ||| '\u{9}' <= c <= '\u{d}'
    ||| c == ' '
    ||| c == '\u{85}'
    ||| c == '\u{a0}'
    ||| c == '\u{1680}'
    ||| '\u{2000}' <= c <= '\u{200a}'
    ||| c == '\u{2028}'
    ||| c == '\u{2029}'
    ||| c == '\u{202f}'
    ||| c == '\u{205f}'
    ||| c == '\u{3000}'
}

/// Tells whether `c` is white space.
pub fn is_white_space(c: char) -> (r: bool)
    ensures
        r == is_white(c),
{
    ('\u{9}' <= c && c <= '\u{d}') || c == ' ' || c == '\u{85}' || c == '\u{a0}' || c == '\u{1680}'
        || ('\u{2000}' <= c && c <= '\u{200a}') || c == '\u{2028}' || c == '\u{2029}'
        || c == '\u{202f}' || c == '\u{205f}' || c == '\u{3000}'
}

/// `s` without its leading white space.
pub open spec fn trim_start_of(s: Seq<char>) -> Seq<char>
    decreases s.len(),
{
    if s.len() > 0 && is_white(s[0]) {
        trim_start_of(s.drop_first())
    } else {
        s
    }
}

/// `s` without its trailing white space.
pub open spec fn trim_end_of(s: Seq<char>) -> Seq<char>
    decreases s.len(),
{
    if s.len() > 0 && is_white(s.last()) {
        trim_end_of(s.drop_last())
    } else {
        s
    }
}

/// `s` without leading and trailing white space.
pub open spec fn trimmed(s: Seq<char>) -> Seq<char> {
    trim_end_of(trim_start_of(s))
}

/// The characters of `s`, in order.
pub fn chars_of(s: &str) -> (r: Vec<char>)
    ensures
        r@ == s@,
{
    let mut out: Vec<char> = Vec::new();
    for c in it: s.chars()
        invariant
            it.seq() == s@,
            out@ == s@.take(it.index()),
    {
        proof {
            assert(s@.take(it.index() + 1) =~= s@.take(it.index()).push(c));
        }
        out.push(c);
    }
    proof {
        assert(s@.take(s@.len() as int) =~= s@);
    }
    out
}

/// Tells whether two strings hold the same characters.
pub fn same_str(a: &str, b: &str) -> (r: bool)
    ensures
        r == (a@ == b@),
{
    let x = a.to_owned();
    let y = b.to_owned();
    x == y
}

/// The characters of an optional string.
pub open spec fn opt_text(s: Option<String>) -> Option<Seq<char>> {
    match s {
        Some(t) => Some(t@),
        None => None,
    }
}

/// The characters of each string of a list.
pub open spec fn texts(list: Seq<String>) -> Seq<Seq<char>> {
    Seq::new(list.len(), |i: int| list[i]@)
}

/// The parts of a text put together.
pub open spec fn joined(parts: Seq<Seq<char>>) -> Seq<char>
    decreases parts.len(),
{
    if parts.len() == 0 {
        Seq::empty()
    } else {
        joined(parts.drop_last()) + parts.last()
    }
}

/// A copy of an optional string.
pub fn clone_opt(s: &Option<String>) -> (r: Option<String>)
    ensures
        r == *s,
{
    match s {
        Some(t) => Some(t.clone()),
        None => None,
    }
}

/// The trimmed part of `s`.
pub fn trim<'a>(s: &'a str) -> (r: &'a str)
    ensures
        r@ == trimmed(s@),
{
    let cs = chars_of(s);
    proof {
        assert(cs@.skip(0) =~= cs@);
    }
    let mut lo: usize = 0;
    while lo < cs.len() && is_white_space(cs[lo])
        invariant
            lo <= cs.len(),
            cs@ == s@,
            trim_start_of(cs@) == trim_start_of(cs@.skip(lo as int)),
        decreases cs.len() - lo,
    {
        proof {
            assert(cs@.skip(lo as int).drop_first() =~= cs@.skip(lo + 1));
        }
        lo += 1;
    }
    let ghost mid = cs@.skip(lo as int);
    let mut hi: usize = cs.len();
    while hi > lo && is_white_space(cs[hi - 1])
        invariant
            lo <= hi <= cs.len(),
            mid == cs@.skip(lo as int),
            trim_end_of(mid) == trim_end_of(cs@.subrange(lo as int, hi as int)),
        decreases hi,
    {
        proof {
            assert(cs@.subrange(lo as int, hi as int).drop_last() =~= cs@.subrange(
                lo as int,
                hi - 1,
            ));
        }
        hi -= 1;
    }
    s.substring_char(lo, hi)
}

/// How many characters at the head of `s` are not white space.
pub open spec fn word_len(s: Seq<char>) -> nat
    decreases s.len(),
{
    if s.len() > 0 && !is_white(s[0]) {
        1 + word_len(s.drop_first())
    } else {
        0
    }
}

/// The maximal runs of characters of `s` that are not white space, in order.
pub open spec fn words_of(s: Seq<char>) -> Seq<Seq<char>>
    decreases s.len(),
    via words_of_decreases
{
    let t = trim_start_of(s);
    if t.len() == 0 {
        Seq::empty()
    } else {
        seq![t.take(word_len(t) as int)] + words_of(t.skip(word_len(t) as int))
    }
}

#[via_fn]
proof fn words_of_decreases(s: Seq<char>) {
    lemma_trim_start_len(s);
    lemma_word_len(trim_start_of(s));
}

/// What is left after trimming the start is no longer, and begins with no white
/// space.
pub proof fn lemma_trim_start_len(s: Seq<char>)
    ensures
        trim_start_of(s).len() <= s.len(),
        trim_start_of(s).len() > 0 ==> !is_white(trim_start_of(s)[0]),
    decreases s.len(),
{
    if s.len() > 0 && is_white(s[0]) {
        lemma_trim_start_len(s.drop_first());
    }
}

proof fn lemma_word_len(s: Seq<char>)
    ensures
        word_len(s) <= s.len(),
        s.len() > 0 && !is_white(s[0]) ==> word_len(s) > 0,
    decreases s.len(),
{
    if s.len() > 0 && !is_white(s[0]) {
        lemma_word_len(s.drop_first());
    }
}

/// The words of `s`, in order.
pub fn split_words(s: &str) -> (r: Vec<String>)
    ensures
        r@.len() == words_of(s@).len(),
        forall|i: int| 0 <= i < r@.len() ==> #[trigger] r@[i]@ == words_of(s@)[i],
{
    let cs = chars_of(s);
    let mut out: Vec<String> = Vec::new();
    let mut at: usize = 0;
    proof {
        assert(cs@.skip(0) =~= cs@);
    }
    let ghost mut done: Seq<Seq<char>> = Seq::empty();
    proof {
        assert(done + words_of(cs@) =~= words_of(cs@));
    }
    loop
        invariant
            at <= cs@.len(),
            cs@ == s@,
            words_of(cs@) == done + words_of(cs@.skip(at as int)),
            out@.len() == done.len(),
            forall|i: int| 0 <= i < out@.len() ==> #[trigger] out@[i]@ == done[i],
        ensures
            words_of(cs@) == done,
            out@.len() == done.len(),
            forall|i: int| 0 <= i < out@.len() ==> #[trigger] out@[i]@ == done[i],
        decreases cs@.len() - at,
    {
        let ghost rest = cs@.skip(at as int);
        let mut lo: usize = at;
        while lo < cs.len() && is_white_space(cs[lo])
            invariant
                at <= lo <= cs.len(),
                rest == cs@.skip(at as int),
                trim_start_of(rest) == trim_start_of(cs@.skip(lo as int)),
            decreases cs.len() - lo,
        {
            proof {
                assert(cs@.skip(lo as int).drop_first() =~= cs@.skip(lo + 1));
            }
            lo += 1;
        }
        let ghost t = cs@.skip(lo as int);
        assert(trim_start_of(rest) == t);
        if lo >= cs.len() {
            proof {
                assert(words_of(rest) =~= Seq::<Seq<char>>::empty());
                assert(done + words_of(rest) =~= done);
            }
            break;
        }
        let mut hi: usize = lo;
        while hi < cs.len() && !is_white_space(cs[hi])
            invariant
                lo <= hi <= cs.len(),
                t == cs@.skip(lo as int),
                word_len(t) == (hi - lo) + word_len(cs@.skip(hi as int)),
            decreases cs.len() - hi,
        {
            proof {
                assert(cs@.skip(hi as int).drop_first() =~= cs@.skip(hi + 1));
            }
            hi += 1;
        }
        assert(word_len(t) == hi - lo);
        proof {
            assert(t.take(hi - lo) =~= cs@.subrange(lo as int, hi as int));
            assert(t.skip(hi - lo) =~= cs@.skip(hi as int));
            lemma_word_len(t);
            let w = cs@.subrange(lo as int, hi as int);
            assert(words_of(rest) == seq![w] + words_of(cs@.skip(hi as int)));
            assert(done + (seq![w] + words_of(cs@.skip(hi as int))) =~= done.push(w) + words_of(
                cs@.skip(hi as int),
            ));
            done = done.push(w);
        }
        out.push(s.substring_char(lo, hi).to_owned());
        at = hi;
    }
    out
}

/// `needle` stands in `hay` at position `at`.
pub open spec fn occurs_at(hay: Seq<char>, needle: Seq<char>, at: int) -> bool {
    0 <= at && at + needle.len() <= hay.len() && hay.subrange(at, at + needle.len()) == needle
}

/// `needle` stands somewhere in `hay`.
pub open spec fn occurs_in(hay: Seq<char>, needle: Seq<char>) -> bool {
    exists|at: int| occurs_at(hay, needle, at)
}

fn matches_at(hay: &Vec<char>, needle: &Vec<char>, at: usize) -> (r: bool)
    requires
        at + needle@.len() <= hay@.len(),
    ensures
        r == occurs_at(hay@, needle@, at as int),
{
    let end: usize = hay.len();
    let mut i: usize = 0;
    while i < needle.len()
        invariant
            i <= needle@.len(),
            end == hay@.len(),
            at + needle@.len() <= end,
            forall|j: int| 0 <= j < i ==> hay@[at + j] == needle@[j],
        decreases needle.len() - i,
    {
        if hay[at + i] != needle[i] {
            proof {
                assert(hay@.subrange(at as int, at + needle@.len())[i as int] != needle@[i as int]);
            }
            return false;
        }
        i += 1;
    }
    proof {
        assert(hay@.subrange(at as int, at + needle@.len()) =~= needle@);
    }
    true
}

/// Tells whether `needle` stands somewhere in `hay`.
pub fn contains(hay: &str, needle: &str) -> (r: bool)
    ensures
        r == occurs_in(hay@, needle@),
{
    let h = chars_of(hay);
    let n = chars_of(needle);
    if n.len() > h.len() {
        return false;
    }
    let last: usize = h.len() - n.len();
    let mut at: usize = 0;
    while at <= last
        invariant
            at <= last + 1,
            last == h@.len() - n@.len(),
            h@.len() <= usize::MAX,
            h@ == hay@,
            n@ == needle@,
            forall|k: int| 0 <= k < at ==> !occurs_at(h@, n@, k),
        decreases last + 1 - at,
    {
        if matches_at(&h, &n, at) {
            return true;
        }
        if at == last {
            return false;
        }
        at += 1;
    }
    false
}

/// `s` begins with `head`.
pub open spec fn begins_with(s: Seq<char>, head: Seq<char>) -> bool {
    occurs_at(s, head, 0)
}

/// `s` ends with `tail`.
pub open spec fn ends_in(s: Seq<char>, tail: Seq<char>) -> bool {
    occurs_at(s, tail, s.len() - tail.len())
}

/// Tells whether `s` begins with `head`.
pub fn starts_with(s: &str, head: &str) -> (r: bool)
    ensures
        r == begins_with(s@, head@),
{
    let h = chars_of(s);
    let n = chars_of(head);
    n.len() <= h.len() && matches_at(&h, &n, 0)
}

/// Tells whether `s` ends with `tail`.
pub fn ends_with(s: &str, tail: &str) -> (r: bool)
    ensures
        r == ends_in(s@, tail@),
{
    let h = chars_of(s);
    let n = chars_of(tail);
    n.len() <= h.len() && matches_at(&h, &n, h.len() - n.len())
}

/// `c` with an upper-case ASCII letter mapped to its lower case.
pub open spec fn ascii_lower(c: char) -> char {
    if 'A' <= c <= 'Z' {
        ((c as u32) + 32) as char
    } else {
        c
    }
}

/// Every character of `s` with upper-case ASCII letters mapped to lower case.
pub open spec fn ascii_lowered(s: Seq<char>) -> Seq<char> {
    Seq::new(s.len(), |i: int| ascii_lower(s[i]))
}

/// The two strings differ at most in the case of ASCII letters.
pub open spec fn same_ignoring_case(a: Seq<char>, b: Seq<char>) -> bool {
    ascii_lowered(a) == ascii_lowered(b)
}

fn lower_code(c: char) -> (r: u32)
    ensures
        r == ascii_lower(c) as u32,
{
    let code: u32 = c as u32;
    if 'A' <= c && c <= 'Z' {
        code + 32
    } else {
        code
    }
}

/// Tells whether two strings are equal up to the case of ASCII letters.
pub fn eq_ignore_ascii_case(a: &str, b: &str) -> (r: bool)
    ensures
        r == same_ignoring_case(a@, b@),
{
    let x = chars_of(a);
    let y = chars_of(b);
    if x.len() != y.len() {
        proof {
            assert(ascii_lowered(a@).len() != ascii_lowered(b@).len());
        }
        return false;
    }
    let mut i: usize = 0;
    while i < x.len()
        invariant
            i <= x@.len(),
            x@ == a@,
            y@ == b@,
            x@.len() == y@.len(),
            forall|j: int| 0 <= j < i ==> ascii_lower(x@[j]) == ascii_lower(y@[j]),
        decreases x.len() - i,
    {
        if lower_code(x[i]) != lower_code(y[i]) {
            proof {
                assert(ascii_lowered(a@)[i as int] != ascii_lowered(b@)[i as int]);
            }
            return false;
        }
        i += 1;
    }
    proof {
        assert(ascii_lowered(a@) =~= ascii_lowered(b@));
    }
    true
}

/// What `str::to_lowercase` of the standard library gives for a string.
pub uninterp spec fn lowercase(s: Seq<char>) -> Seq<char>;

/// Calls `str::to_lowercase`: the Unicode lower case of the string, which for
/// a string of ASCII characters changes exactly the letters `A` to `Z`.
#[verifier::external_body]
pub(crate) fn to_lowercase(s: &str) -> (r: String)
    ensures
        r@ == lowercase(s@),
        is_ascii_chars(s@) ==> r@ == ascii_lowered(s@),
{
    s.to_lowercase()
}

/// What `String::from_utf8_lossy` of the standard library gives for bytes.
pub uninterp spec fn utf8_lossy(bytes: Seq<u8>) -> Seq<char>;

/// Calls `String::from_utf8_lossy`: bytes that are valid UTF-8 are decoded as
/// they stand. What stands in place of invalid sequences is left to the name.
#[verifier::external_body]
pub(crate) fn from_utf8_lossy(bytes: &[u8]) -> (r: String)
    ensures
        r@ == utf8_lossy(bytes@),
        valid_utf8(bytes@) ==> r@ == decode_utf8(bytes@),
{
    String::from_utf8_lossy(bytes).into_owned()
}

/// Calls `String::from_utf8`: the text that the bytes encode, where they are
/// valid UTF-8.
#[verifier::external_body]
pub(crate) fn from_utf8(bytes: Vec<u8>) -> (r: Option<String>)
    ensures
        r is Some <==> valid_utf8(bytes@),
        r matches Some(s) ==> s@ == decode_utf8(bytes@),
{
    String::from_utf8(bytes).ok()
}

/// `c` is one of the ten decimal digits.
pub open spec fn is_digit(c: char) -> bool {
    '0' <= c <= '9'
}

/// The number that a digit stands for.
pub open spec fn digit_value(c: char) -> nat {
    (c as u32 - '0' as u32) as nat
}

/// The number that a sequence of digits stands for.
pub open spec fn digits_value(s: Seq<char>) -> nat
    decreases s.len(),
{
    if s.len() == 0 {
        0
    } else {
        10 * digits_value(s.drop_last()) + digit_value(s.last())
    }
}

/// Every character of `s` is a digit.
pub open spec fn all_digits(s: Seq<char>) -> bool {
    forall|i: int| 0 <= i < s.len() ==> is_digit(#[trigger] s[i])
}

/// `s` without one leading plus sign.
pub open spec fn without_plus(s: Seq<char>) -> Seq<char> {
    if s.len() > 0 && s[0] == '+' {
        s.drop_first()
    } else {
        s
    }
}

/// The number that `s` denotes: an optional plus sign and then one or more
/// digits, with a value of at most `max`.
pub open spec fn parsed_number(s: Seq<char>, max: nat) -> Option<nat> {
    let d = without_plus(s);
    if d.len() > 0 && all_digits(d) && digits_value(d) <= max {
        Some(digits_value(d))
    } else {
        None
    }
}

proof fn lemma_digits_value_prefix(s: Seq<char>, i: int)
    requires
        0 <= i <= s.len(),
        all_digits(s),
    ensures
        digits_value(s.take(i)) <= digits_value(s),
    decreases s.len() - i,
{
    if i < s.len() {
        lemma_digits_value_prefix(s, i + 1);
        assert(s.take(i + 1).drop_last() =~= s.take(i));
    } else {
        assert(s.take(i) =~= s);
    }
}

/// The number in `s`, where there is one and it is at most `max`.
pub fn parse_number(s: &str, max: u64) -> (r: Option<u64>)
    ensures
        r matches Some(v) ==> parsed_number(s@, max as nat) == Some(v as nat),
        r is None ==> parsed_number(s@, max as nat) is None,
{
    let cs = chars_of(s);
    let first: usize = if cs.len() > 0 && cs[0] == '+' {
        1
    } else {
        0
    };
    let ghost d = without_plus(s@);
    proof {
        assert(d =~= cs@.skip(first as int));
    }
    if first >= cs.len() {
        return None;
    }
    let mut value: u64 = 0;
    let mut i: usize = first;
    while i < cs.len()
        invariant
            first <= i <= cs@.len(),
            cs@ == s@,
            d == cs@.skip(first as int),
            d == without_plus(s@),
            value <= max,
            value == digits_value(d.take(i - first)),
            all_digits(d.take(i - first)),
        decreases cs.len() - i,
    {
        let c = cs[i];
        proof {
            assert(d[i - first] == c);
        }
        if !('0' <= c && c <= '9') {
            return None;
        }
        let digit: u64 = (c as u32 - '0' as u32) as u64;
        proof {
            assert(d.take(i + 1 - first).drop_last() =~= d.take(i - first));
            assert(d.take(i + 1 - first).last() == c);
            assert(digits_value(d.take(i + 1 - first)) == 10 * value + digit);
            if all_digits(d) {
                lemma_digits_value_prefix(d, i + 1 - first);
            }
            assert forall|j: int| 0 <= j < d.take(i + 1 - first).len() implies is_digit(
                #[trigger] d.take(i + 1 - first)[j],
            ) by {
                if j < i - first {
                    assert(d.take(i - first)[j] == d.take(i + 1 - first)[j]);
                }
            }
        }
        if digit > max || value > (max - digit) / 10 {
            return None;
        }
        value = 10 * value + digit;
        i += 1;
    }
    proof {
        assert(d.take(cs@.len() - first) =~= d);
    }
    Some(value)
}

/// The digit that stands for `d`.
pub open spec fn digit_char(d: nat) -> char {
    ('0' as u32 + d) as char
}

/// `n` in decimal notation, without leading zeros.
pub open spec fn decimal(n: nat) -> Seq<char>
    decreases n,
{
    if n < 10 {
        seq![digit_char(n)]
    } else {
        decimal(n / 10).push(digit_char(n % 10))
    }
}

fn digit_str(d: u64) -> (r: &'static str)
    requires
        d < 10,
    ensures
        r@ == seq![digit_char(d as nat)],
{
    proof {
        reveal_strlit("0");
        reveal_strlit("1");
        reveal_strlit("2");
        reveal_strlit("3");
        reveal_strlit("4");
        reveal_strlit("5");
        reveal_strlit("6");
        reveal_strlit("7");
        reveal_strlit("8");
        reveal_strlit("9");
    }
    match d {
        0 => "0",
        1 => "1",
        2 => "2",
        3 => "3",
        4 => "4",
        5 => "5",
        6 => "6",
        7 => "7",
        8 => "8",
        _ => "9",
    }
}

/// `n` in decimal notation.
pub fn decimal_string(n: u64) -> (r: String)
    ensures
        r@ == decimal(n as nat),
    decreases n,
{
    if n < 10 {
        digit_str(n).to_owned()
    } else {
        let mut s = decimal_string(n / 10);
        s.append(digit_str(n % 10));
        proof {
            assert(decimal((n / 10) as nat) + seq![digit_char((n % 10) as nat)] =~= decimal(
                (n / 10) as nat,
            ).push(digit_char((n % 10) as nat)));
        }
        s
    }
}

/// The decimal notation of a number is a non-empty sequence of digits that
/// stands for that number.
pub proof fn decimal_denotes(n: nat)
    ensures
        decimal(n).len() > 0,
        all_digits(decimal(n)),
        digits_value(decimal(n)) == n,
    decreases n,
{
    if n < 10 {
        assert(decimal(n).drop_last() =~= Seq::<char>::empty());
        assert(digits_value(decimal(n).drop_last()) == 0);
    } else {
        decimal_denotes(n / 10);
        assert(decimal(n).drop_last() =~= decimal(n / 10));
    }
}

/// Reading a number back from its decimal notation gives the number.
pub proof fn parse_undoes_decimal(n: nat, max: nat)
    requires
        n <= max,
    ensures
        parsed_number(decimal(n), max) == Some(n),
{
    decimal_denotes(n);
    assert(is_digit(decimal(n)[0]));
}

/// A text stands in every text that it is a part of; it begins and ends those
/// that it stands at the ends of.
pub proof fn parts_occur(head: Seq<char>, part: Seq<char>, tail: Seq<char>)
    ensures
        occurs_in(head + part + tail, part),
        begins_with(part + tail, part),
        ends_in(head + part, part),
{
    let s = head + part + tail;
    let at = head.len() as int;
    assert(s.subrange(at, at + part.len()) =~= part);
    assert(occurs_at(s, part, at));
    assert((part + tail).subrange(0, part.len() as int) =~= part);
    assert((head + part).subrange(at, at + part.len()) =~= part);
}

/// A text stands only in texts that it is a part of, at their beginning or end
/// where they begin or end with it.
pub proof fn only_parts_occur(s: Seq<char>, part: Seq<char>)
    ensures
        occurs_in(s, part) ==> exists|at: int|
            0 <= at && at + part.len() <= s.len() && s == #[trigger] s.take(at) + part + s.skip(
                at + part.len(),
            ),
        begins_with(s, part) ==> part.len() <= s.len() && s == part + s.skip(part.len() as int),
        ends_in(s, part) ==> part.len() <= s.len() && s == s.take(s.len() - part.len()) + part,
{
    if occurs_in(s, part) {
        let at = choose|at: int| occurs_at(s, part, at);
        assert(s =~= s.take(at) + s.subrange(at, at + part.len()) + s.skip(at + part.len()));
    }
    if begins_with(s, part) {
        assert(s =~= s.subrange(0, part.len() as int) + s.skip(part.len() as int));
    }
    if ends_in(s, part) {
        let at = s.len() - part.len();
        assert(s =~= s.take(at) + s.subrange(at, at + part.len()));
    }
}

/// Every character of the text is white space.
pub open spec fn all_white(s: Seq<char>) -> bool {
    forall|i: int| 0 <= i < s.len() ==> is_white(#[trigger] s[i])
}

proof fn lemma_trim_start(s: Seq<char>) -> (n: int)
    ensures
        0 <= n <= s.len(),
        trim_start_of(s) == s.skip(n),
        all_white(s.take(n)),
    decreases s.len(),
{
    if s.len() > 0 && is_white(s[0]) {
        let n = lemma_trim_start(s.drop_first());
        assert(s.skip(n + 1) =~= s.drop_first().skip(n));
        assert forall|i: int| 0 <= i < n + 1 implies is_white(#[trigger] s.take(n + 1)[i]) by {
            if i > 0 {
                assert(s.drop_first().take(n)[i - 1] == s[i]);
            }
        }
        n + 1
    } else {
        assert(s.skip(0) =~= s);
        0
    }
}

proof fn lemma_trim_end(s: Seq<char>) -> (n: int)
    ensures
        0 <= n <= s.len(),
        trim_end_of(s) == s.take(n),
        all_white(s.skip(n)),
        n > 0 ==> !is_white(s[n - 1]),
    decreases s.len(),
{
    if s.len() > 0 && is_white(s.last()) {
        let n = lemma_trim_end(s.drop_last());
        assert(s.take(n) =~= s.drop_last().take(n));
        assert forall|i: int| 0 <= i < s.skip(n).len() implies is_white(
            #[trigger] s.skip(n)[i],
        ) by {
            if i + n < s.len() - 1 {
                assert(s.drop_last().skip(n)[i] == s.skip(n)[i]);
            }
        }
        n
    } else {
        assert(s.take(s.len() as int) =~= s);
        s.len() as int
    }
}

/// Trimming takes white space off both ends and nothing else, and leaves none
/// there.
pub proof fn trimming_takes_white_off(s: Seq<char>) -> (cut: (int, int))
    ensures
        0 <= cut.0 <= cut.1 <= s.len(),
        trimmed(s) == s.subrange(cut.0, cut.1),
        all_white(s.take(cut.0)),
        all_white(s.skip(cut.1)),
        trimmed(s).len() > 0 ==> !is_white(trimmed(s)[0]) && !is_white(trimmed(s).last()),
{
    let a = lemma_trim_start(s);
    let t = s.skip(a);
    let n = lemma_trim_end(t);
    lemma_trim_start_len(s);
    assert(t.take(n) =~= s.subrange(a, a + n));
    assert(s.skip(a + n) =~= t.skip(n));
    if n > 0 {
        assert(t.take(n)[0] == t[0]);
        assert(t.take(n).last() == t[n - 1]);
    }
    (a, a + n)
}

/// A text without white space at its ends is trimmed already.
pub proof fn trimming_again(s: Seq<char>)
    ensures
        trimmed(trimmed(s)) == trimmed(s),
{
    let t = trimmed(s);
    let cut = trimming_takes_white_off(s);
    assert(trim_start_of(t) == t);
    assert(trim_end_of(t) == t);
}

/// The text is one word: it is not empty and holds no white space.
pub open spec fn is_word(w: Seq<char>) -> bool {
    w.len() > 0 && forall|i: int| 0 <= i < w.len() ==> !is_white(#[trigger] w[i])
}

proof fn lemma_word_at_head(w: Seq<char>, rest: Seq<char>)
    requires
        forall|i: int| 0 <= i < w.len() ==> !is_white(#[trigger] w[i]),
        rest.len() == 0 || is_white(rest[0]),
    ensures
        word_len(w + rest) == w.len(),
    decreases w.len(),
{
    let s = w + rest;
    if w.len() > 0 {
        assert(s[0] == w[0]);
        assert(s.drop_first() =~= w.drop_first() + rest);
        assert forall|i: int| 0 <= i < w.drop_first().len() implies !is_white(
            #[trigger] w.drop_first()[i],
        ) by {
            assert(w.drop_first()[i] == w[i + 1]);
        }
        lemma_word_at_head(w.drop_first(), rest);
    } else {
        assert(s =~= rest);
    }
}

/// The words of a text are what stands between its white space: an empty text
/// has none, white space in front does not matter, and a word with white space
/// or nothing behind it is the first, followed by the words of the rest.
pub proof fn words_stand_between_white(c: char, w: Seq<char>, rest: Seq<char>)
    requires
        is_white(c),
        is_word(w),
    ensures
        words_of(Seq::empty()) == Seq::<Seq<char>>::empty(),
        words_of(seq![c] + rest) == words_of(rest),
        words_of(w) == seq![w],
        words_of(w + seq![c] + rest) == seq![w] + words_of(rest),
{
    let none = Seq::<char>::empty();
    assert(words_of(none) =~= Seq::<Seq<char>>::empty());
    let spaced = seq![c] + rest;
    assert(spaced.drop_first() =~= rest);
    assert(trim_start_of(spaced) == trim_start_of(rest));
    assert(!is_white(w[0]));
    assert(w + none =~= w);
    lemma_word_at_head(w, none);
    assert(w.take(w.len() as int) =~= w);
    assert(w.skip(w.len() as int) =~= none);
    assert(words_of(w) =~= seq![w]);
    let s = w + seq![c] + rest;
    assert(s =~= w + spaced);
    assert(spaced[0] == c);
    lemma_word_at_head(w, spaced);
    assert(s[0] == w[0]);
    assert(s.take(w.len() as int) =~= w);
    assert(s.skip(w.len() as int) =~= spaced);
}

/// Two characters are the same up to the case of the letters A to Z.
pub open spec fn same_letter(a: char, b: char) -> bool {
    ||| a == b
    ||| 'A' <= a <= 'Z' && b as int == a as int + 32
    ||| 'A' <= b <= 'Z' && a as int == b as int + 32
}

/// Texts are the same up to case where they are as long as each other and each
/// character is the same up to the case of the letters A to Z.
pub proof fn case_does_not_matter(a: Seq<char>, b: Seq<char>)
    ensures
        same_ignoring_case(a, b) == (a.len() == b.len() && forall|i: int|
            0 <= i < a.len() ==> same_letter(#[trigger] a[i], b[i])),
        ascii_lowered(a).len() == a.len(),
        same_ignoring_case(a, ascii_lowered(a)),
{
    if a.len() == b.len() {
        if same_ignoring_case(a, b) {
            assert forall|i: int| 0 <= i < a.len() implies same_letter(#[trigger] a[i], b[i]) by {
                assert(ascii_lowered(a)[i] == ascii_lowered(b)[i]);
            }
        }
        if forall|i: int| 0 <= i < a.len() ==> same_letter(#[trigger] a[i], b[i]) {
            assert forall|i: int| 0 <= i < a.len() implies ascii_lowered(a)[i] == ascii_lowered(
                b,
            )[i] by {
                assert(same_letter(a[i], b[i]));
            }
            assert(ascii_lowered(a) =~= ascii_lowered(b));
        }
    } else {
        assert(ascii_lowered(a).len() != ascii_lowered(b).len());
    }
    assert(ascii_lowered(ascii_lowered(a)) =~= ascii_lowered(a));
}

/// A number is written with digits alone, behind a plus sign at most; zeros in
/// front do not matter, and one that is larger than the limit is none.
pub proof fn numbers_are_digits(s: Seq<char>, n: nat, max: nat)
    ensures
        n <= max ==> parsed_number(seq!['+'] + decimal(n), max) == Some(n),
        n > max ==> parsed_number(decimal(n), max) is None,
        parsed_number(Seq::empty(), max) is None,
        parsed_number(seq!['+'], max) is None,
        parsed_number(s, max) matches Some(v) ==> v <= max && s.len() > 0 && forall|i: int|
            0 < i < s.len() ==> is_digit(#[trigger] s[i]),
        parsed_number(s, max) is Some ==> is_digit(s[0]) || s[0] == '+',
{
    decimal_denotes(n);
    assert(is_digit(decimal(n)[0]));
    assert((seq!['+'] + decimal(n)).drop_first() =~= decimal(n));
    assert(seq!['+'].drop_first() =~= Seq::<char>::empty());
    if parsed_number(s, max) is Some {
        let d = without_plus(s);
        assert forall|i: int| 0 < i < s.len() implies is_digit(#[trigger] s[i]) by {
            if s[0] == '+' {
                assert(d[i - 1] == s[i]);
            } else {
                assert(d[i] == s[i]);
            }
        }
        assert(is_digit(d[0]));
    }
}

/// Each digit behind a number stands for ten times the number plus the digit,
/// as it is written and as it is read.
pub proof fn digits_count_by_tens(s: Seq<char>, n: nat, d: nat)
    requires
        d < 10,
    ensures
        n > 0 ==> decimal(10 * n + d) == decimal(n).push(digit_char(d)),
        decimal(d) == seq![digit_char(d)],
        digits_value(s.push(digit_char(d))) == 10 * digits_value(s) + d,
        digits_value(Seq::empty()) == 0,
        digit_char(d) as int == 48 + d,
        is_digit(digit_char(d)),
{
    assert((10 * n + d) / 10 == n);
    assert((10 * n + d) % 10 == d);
    assert(s.push(digit_char(d)).drop_last() =~= s);
}

/// The parts of a text put together stand one behind the other.
pub proof fn parts_are_put_together(parts: Seq<Seq<char>>, part: Seq<char>)
    ensures
        joined(Seq::empty()) == Seq::<char>::empty(),
        joined(parts.push(part)) == joined(parts) + part,
{
    assert(parts.push(part).drop_last() =~= parts);
}

} // verus!
