//! Texts as sequences of characters: searching, and numbers in decimal.

use vstd::prelude::*;
use vstd::string::*;

verus! {

/// What each text of `v` holds, in the same order.
pub open spec fn texts(v: Seq<String>) -> Seq<Seq<char>> {
    Seq::new(v.len(), |i: int| v[i]@)
}

/// What `t` holds, if it is there.
pub open spec fn text_of(t: Option<String>) -> Option<Seq<char>> {
    match t {
        Some(s) => Some(s@),
        None => None,
    }
}

/// The characters of `s`, in order.
pub fn chars_of(s: &str) -> (v: Vec<char>)
    ensures
        v@ == s@,
{
    let mut v: Vec<char> = Vec::new();
    for c in it: s.chars()
        invariant
            it.seq() == s@,
            v@ == it.seq().take(it.index() as int),
    {
        v.push(c);
    }
    v
}

/// `needle` stands in `haystack` at position `at`.
pub open spec fn occurs_at(haystack: Seq<char>, needle: Seq<char>, at: int) -> bool {
    &&& 0 <= at
    &&& at + needle.len() <= haystack.len()
    &&& haystack.subrange(at, at + needle.len()) == needle
}

/// `needle` stands somewhere in `haystack`.
pub open spec fn contains_text(haystack: Seq<char>, needle: Seq<char>) -> bool {
    exists|at: int| occurs_at(haystack, needle, at)
}

/// `at` is the leftmost position at which `needle` stands in `haystack`.
pub open spec fn first_occurrence(haystack: Seq<char>, needle: Seq<char>, at: int) -> bool {
    &&& occurs_at(haystack, needle, at)
    &&& forall|earlier: int| 0 <= earlier < at ==> !occurs_at(haystack, needle, earlier)
}

/// Whether `needle` stands in `haystack` at position `at`.
fn matches_at(haystack: &Vec<char>, needle: &Vec<char>, at: usize) -> (found: bool)
    requires
        at + needle@.len() <= haystack@.len(),
    ensures
        found == occurs_at(haystack@, needle@, at as int),
{
    let mut k: usize = 0;
    while k < needle.len()
        invariant
            k <= needle@.len(),
            at + needle.len() <= haystack.len(),
            forall|j: int| 0 <= j < k ==> haystack@[at + j] == needle@[j],
        decreases needle@.len() - k,
    {
        if haystack[at + k] != needle[k] {
            assert(haystack@.subrange(at as int, at + needle@.len())[k as int] != needle@[k as int]);
            return false;
        }
        k += 1;
    }
    assert(haystack@.subrange(at as int, at + needle@.len()) =~= needle@);
    true
}

/// The leftmost position at which `needle` stands in `haystack`, counted in
/// characters.
pub fn find_text(haystack: &str, needle: &str) -> (place: Option<usize>)
    ensures
        match place {
            Some(at) => first_occurrence(haystack@, needle@, at as int),
            None => !contains_text(haystack@, needle@),
        },
{
    let hay = chars_of(haystack);
    let pin = chars_of(needle);
    if pin.len() > hay.len() {
        return None;
    }
    if pin.len() == 0 {
        assert(hay@.subrange(0, 0) =~= pin@);
        return Some(0);
    }
    let last: usize = hay.len() - pin.len();
    let mut at: usize = 0;
    while at <= last
        invariant
            hay@ == haystack@,
            pin@ == needle@,
            last + pin.len() == hay.len(),
            pin@.len() > 0,
            at <= last + 1,
            forall|earlier: int| 0 <= earlier < at ==> !occurs_at(hay@, pin@, earlier),
        decreases last + 1 - at,
    {
        if matches_at(&hay, &pin, at) {
            return Some(at);
        }
        at += 1;
    }
    None
}

/// The leftmost position at which `needle` stands in `haystack`.
pub open spec fn first_place_of(haystack: Seq<char>, needle: Seq<char>) -> int {
    choose|at: int| first_occurrence(haystack, needle, at)
}

/// What follows the leftmost `needle` in `haystack`.
pub open spec fn text_after(haystack: Seq<char>, needle: Seq<char>) -> Seq<char> {
    haystack.skip(first_place_of(haystack, needle) + needle.len())
}

/// What follows the leftmost `needle` in `haystack`, if `needle` stands in
/// it at all.
pub fn rest_after<'a>(haystack: &'a str, needle: &str) -> (rest: Option<&'a str>)
    ensures
        match rest {
            Some(r) => contains_text(haystack@, needle@) && r@ == text_after(haystack@, needle@),
            None => !contains_text(haystack@, needle@),
        },
{
    match find_text(haystack, needle) {
        Some(at) => {
            let size: usize = haystack.unicode_len();
            let from: usize = at + needle.unicode_len();
            proof {
                let first = first_place_of(haystack@, needle@);
                assert(first_occurrence(haystack@, needle@, first));
                if first < at {
                    assert(!occurs_at(haystack@, needle@, first));
                }
                if at < first {
                    assert(!occurs_at(haystack@, needle@, at as int));
                }
                assert(haystack@.subrange(from as int, size as int) =~= haystack@.skip(
                    from as int,
                ));
            }
            Some(haystack.substring_char(from, size))
        },
        None => None,
    }
}

/// Whether `a` and `b` hold the same characters.
pub fn same_text(a: &str, b: &str) -> (same: bool)
    ensures
        same == (a@ == b@),
{
    let left = chars_of(a);
    let right = chars_of(b);
    if left.len() != right.len() {
        return false;
    }
    let mut i: usize = 0;
    while i < left.len()
        invariant
            left@ == a@,
            right@ == b@,
            left.len() == right.len(),
            i <= left.len(),
            forall|j: int| 0 <= j < i ==> left@[j] == right@[j],
        decreases left.len() - i,
    {
        if left[i] != right[i] {
            return false;
        }
        i += 1;
    }
    assert(left@ =~= right@);
    true
}

/// Whether `c` is one of the ten digits `0` to `9`.
pub open spec fn is_digit(c: char) -> bool {
    '0' <= c && c <= '9'
}

/// Whether `s` holds digits only.
pub open spec fn all_digits(s: Seq<char>) -> bool {
    forall|i: int| 0 <= i < s.len() ==> is_digit(#[trigger] s[i])
}

/// The number that the digit `c` stands for.
pub open spec fn digit_value(c: char) -> nat {
    (c as int - '0' as int) as nat
}

/// The digit that stands for `d`, for `d` below ten.
pub open spec fn digit_char(d: nat) -> char {
    ('0' as int + d) as char
}

/// The number that a row of digits stands for in base ten; leading zeros
/// count for nothing.
pub open spec fn decimal_value(digits: Seq<char>) -> nat
    decreases digits.len(),
{
    if digits.len() == 0 {
        0
    } else {
        decimal_value(digits.drop_last()) * 10 + digit_value(digits.last())
    }
}

/// The number that `s` stands for as a `u32`: a row of at least one digit,
/// with or without a `+` in front, whose value fits. Any other text stands
/// for none.
pub open spec fn u32_of_text(s: Seq<char>) -> Option<u32> {
    let digits = if s.len() > 0 && s[0] == '+' {
        s.skip(1)
    } else {
        s
    };
    if digits.len() > 0 && all_digits(digits) && decimal_value(digits) <= u32::MAX {
        Some(decimal_value(digits) as u32)
    } else {
        None
    }
}

/// A row of digits is worth at least as much as any of its beginnings.
proof fn lemma_value_of_beginning(digits: Seq<char>, n: int)
    requires
        0 <= n <= digits.len(),
    ensures
        decimal_value(digits.take(n)) <= decimal_value(digits),
    decreases digits.len(),
{
    if n == digits.len() {
        assert(digits.take(n) =~= digits);
    } else {
        assert(digits.drop_last().take(n) =~= digits.take(n));
        lemma_value_of_beginning(digits.drop_last(), n);
    }
}

/// Reads `s` as a `u32` in base ten.
pub fn parse_u32(s: &str) -> (number: Option<u32>)
    ensures
        number == u32_of_text(s@),
{
    let chars = chars_of(s);
    let start: usize = if chars.len() > 0 && chars[0] == '+' {
        1
    } else {
        0
    };
    let ghost digits = s@.skip(start as int);
    assert(s@.skip(0) =~= s@);
    if start == chars.len() {
        return None;
    }
    let mut value: u64 = 0;
    let mut i: usize = start;
    while i < chars.len()
        invariant
            chars@ == s@,
            start == (if s@.len() > 0 && s@[0] == '+' {
                1int
            } else {
                0int
            }),
            digits == s@.skip(start as int),
            s@.skip(0) == s@,
            start < chars.len(),
            start <= i <= chars.len(),
            all_digits(digits.take(i - start)),
            value == decimal_value(digits.take(i - start)),
            value <= u32::MAX,
        decreases chars.len() - i,
    {
        let c = chars[i];
        if c < '0' || c > '9' {
            assert(!is_digit(digits[i - start]));
            return None;
        }
        let d: u64 = (c as u32 - '0' as u32) as u64;
        proof {
            let longer = digits.take(i - start + 1);
            assert(longer.drop_last() =~= digits.take(i - start));
            assert(longer.last() == c);
            assert forall|j: int| 0 <= j < longer.len() implies is_digit(#[trigger] longer[j]) by {
                if j < i - start {
                    assert(digits.take(i - start)[j] == longer[j]);
                }
            }
        }
        value = value * 10 + d;
        assert(value == decimal_value(digits.take(i - start + 1)));
        if value > 0xffff_ffff {
            proof {
                lemma_value_of_beginning(digits, i - start + 1);
            }
            return None;
        }
        i += 1;
    }
    assert(digits.take(digits.len() as int) =~= digits);
    Some(value as u32)
}

/// `n` in base ten, without leading zeros.
pub open spec fn decimal_text(n: nat) -> Seq<char>
    decreases n,
{
    if n < 10 {
        seq![digit_char(n)]
    } else {
        decimal_text(n / 10).push(digit_char(n % 10))
    }
}

/// `n` in base ten, with `-` in front where it is negative.
pub open spec fn int_text(n: int) -> Seq<char> {
    if n < 0 {
        seq!['-'] + decimal_text((-n) as nat)
    } else {
        decimal_text(n as nat)
    }
}

/// The one-character text of the digit `d`.
fn digit_str(d: u32) -> (text: &'static str)
    requires
        d < 10,
    ensures
        text@ == seq![digit_char(d as nat)],
{
    proof {
        reveal_strlit("0");
        reveal_strlit("1");
        reveal_strlit("2");
        reveal_strlit("3");
        reveal_strlit("4");
        reveal_strlit("5");
        reveal_strlit("6");
        reveal_strlit("7");
        reveal_strlit("8");
        reveal_strlit("9");
    }
    let text = match d {
        0 => "0",
        1 => "1",
        2 => "2",
        3 => "3",
        4 => "4",
        5 => "5",
        6 => "6",
        7 => "7",
        8 => "8",
        _ => "9",
    };
    assert(text@ =~= seq![digit_char(d as nat)]);
    text
}

/// Writes `n` in base ten at the end of `out`.
pub fn append_decimal(out: &mut String, n: u32)
    ensures
        final(out)@ == old(out)@ + decimal_text(n as nat),
    decreases n,
{
    if n >= 10 {
        append_decimal(out, n / 10);
    }
    out.append(digit_str(n % 10));
    proof {
        let before = old(out)@;
        if n >= 10 {
            assert(before + decimal_text(n as nat / 10) + seq![digit_char(n as nat % 10)] =~= before
                + decimal_text(n as nat));
        }
    }
}

/// `n` in base ten, as a text of its own.
pub fn i32_text(n: i32) -> (text: String)
    ensures
        text@ == int_text(n as int),
{
    let mut text = String::new();
    if n < 0 {
        text.append("-");
        proof {
            reveal_strlit("-");
        }
        let size: u32 = (-(n as i64)) as u32;
        append_decimal(&mut text, size);
        assert(text@ =~= seq!['-'] + decimal_text((-n) as nat));
    } else {
        append_decimal(&mut text, n as u32);
        assert(text@ =~= decimal_text(n as nat));
    }
    text
}

} // verus!
