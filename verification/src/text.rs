//! Text: decimal numbers, search in strings, and shortening.

use vstd::prelude::*;
use vstd::string::*;
use vstd::utf8::*;

verus! {

/// The decimal digit of `d`, for `d` below ten.
pub open spec fn digit_char(d: nat) -> char {
    (('0' as u32) + d) as char
}

/// `n` in decimal, without leading zeros.
pub open spec fn decimal(n: nat) -> Seq<char>
    decreases n,
{
    if n < 10 {
        seq![digit_char(n)]
    } else {
        decimal(n / 10).push(digit_char(n % 10))
    }
}

/// `n` in decimal, with a leading minus where it is negative.
pub open spec fn signed_decimal(n: int) -> Seq<char> {
    if n < 0 {
        "-"@ + decimal((-n) as nat)
    } else {
        decimal(n as nat)
    }
}

/// `n` in decimal, filled up to two places from the left with `fill`.
pub open spec fn two_places(fill: Seq<char>, n: nat) -> Seq<char> {
    if n < 10 {
        fill + decimal(n)
    } else {
        decimal(n)
    }
}

/// The one-character text of a digit.
fn digit_text(d: u64) -> (text: &'static str)
    requires
        d < 10,
    ensures
        text@ == seq![digit_char(d as nat)],
{
    proof {
        reveal_strlit("0");
        reveal_strlit("1");
        reveal_strlit("2");
        reveal_strlit("3");
        reveal_strlit("4");
        reveal_strlit("5");
        reveal_strlit("6");
        reveal_strlit("7");
        reveal_strlit("8");
        reveal_strlit("9");
    }
    match d {
        0 => "0",
        1 => "1",
        2 => "2",
        3 => "3",
        4 => "4",
        5 => "5",
        6 => "6",
        7 => "7",
        8 => "8",
        _ => "9",
    }
}

/// Writes `n` in decimal.
pub fn decimal_text(n: u64) -> (text: String)
    ensures
        text@ == decimal(n as nat),
    decreases n,
{
    if n < 10 {
        digit_text(n).to_owned()
    } else {
        let head = decimal_text(n / 10);
        let text = head.concat(digit_text(n % 10));
        assert(text@ =~= decimal(n as nat));
        text
    }
}

/// Writes `n` in decimal, with a leading minus where it is negative.
pub fn signed_decimal_text(n: i32) -> (text: String)
    ensures
        text@ == signed_decimal(n as int),
{
    if n < 0 {
        let magnitude: u64 = (-(n as i64)) as u64;
        "-".to_owned().concat(decimal_text(magnitude).as_str())
    } else {
        decimal_text(n as u64)
    }
}

/// Writes `n` in decimal, filled up to two places from the left with `fill`.
pub fn two_places_text(fill: &str, n: u64) -> (text: String)
    ensures
        text@ == two_places(fill@, n as nat),
{
    if n < 10 {
        fill.to_owned().concat(decimal_text(n).as_str())
    } else {
        decimal_text(n)
    }
}

/// The characters of `s`, one by one.
pub fn chars_of(s: &str) -> (chars: Vec<char>)
    ensures
        chars@ == s@,
{
    let mut chars: Vec<char> = Vec::new();
    for c in it: s.chars()
        invariant
            chars@ == it.seq().take(it.index()),
            it.seq() == s@,
    {
        proof {
            assert(it.seq().take(it.index()).push(c) =~= it.seq().take(it.index() + 1));
        }
        chars.push(c);
    }
    proof {
        assert(s@.take(s@.len() as int) =~= s@);
    }
    chars
}

/// `part` stands in `whole` at `at`.
pub open spec fn occurs_at(whole: Seq<char>, part: Seq<char>, at: int) -> bool {
    &&& 0 <= at
    &&& at + part.len() <= whole.len()
    &&& whole.subrange(at, at + part.len()) == part
}

/// `part` stands somewhere in `whole`.
pub open spec fn occurs(whole: Seq<char>, part: Seq<char>) -> bool {
    exists|at: int| occurs_at(whole, part, at)
}

/// `whole` ends with `part`.
pub open spec fn is_ending(whole: Seq<char>, part: Seq<char>) -> bool {
    occurs_at(whole, part, whole.len() - part.len())
}

/// Tells whether `part` stands in `whole` at `at`.
fn chars_match(whole: &Vec<char>, part: &Vec<char>, at: usize) -> (found: bool)
    requires
        at + part@.len() <= whole@.len(),
    ensures
        found == occurs_at(whole@, part@, at as int),
{
    let end: usize = whole.len();
    let mut i: usize = 0;
    while i < part.len()
        invariant
            i <= part@.len(),
            end == whole@.len(),
            at + part@.len() <= whole@.len(),
            forall|j: int| 0 <= j < i ==> whole@[at + j] == part@[j],
        decreases part@.len() - i,
    {
        if whole[at + i] != part[i] {
            proof {
                assert(whole@.subrange(at as int, at + part@.len())[i as int] != part@[i as int]);
            }
            return false;
        }
        i = i + 1;
    }
    proof {
        assert(whole@.subrange(at as int, at + part@.len()) =~= part@);
    }
    true
}

/// Tells whether `whole` ends with `part`.
pub fn text_ends_with(whole: &str, part: &str) -> (found: bool)
    ensures
        found == is_ending(whole@, part@),
{
    let w = chars_of(whole);
    let p = chars_of(part);
    if w.len() < p.len() {
        return false;
    }
    chars_match(&w, &p, w.len() - p.len())
}

/// Tells whether `part` stands somewhere in `whole`.
pub fn text_contains(whole: &str, part: &str) -> (found: bool)
    ensures
        found == occurs(whole@, part@),
{
    let w = chars_of(whole);
    let p = chars_of(part);
    if w.len() < p.len() {
        return false;
    }
    let mut at: usize = 0;
    while at < w.len() - p.len()
        invariant
            at <= w@.len() - p@.len(),
            p@.len() <= w@.len(),
            w@ == whole@,
            p@ == part@,
            forall|j: int| 0 <= j < at ==> !occurs_at(w@, p@, j),
        decreases w@.len() - at,
    {
        if chars_match(&w, &p, at) {
            return true;
        }
        at = at + 1;
    }
    chars_match(&w, &p, at)
}

/// The text of an optional string.
pub open spec fn optional_text(s: Option<String>) -> Option<Seq<char>> {
    match s {
        Some(text) => Some(text@),
        None => None,
    }
}

/// The bytes up to which a long name is shown.
pub const NAME_BYTES: usize = 10;

/// The name is short, or can be cut behind its tenth byte.
pub open spec fn can_shorten(name: Seq<char>) -> bool {
    encode_utf8(name).len() <= NAME_BYTES || is_char_boundary(encode_utf8(name), NAME_BYTES as int)
}

/// The first ten bytes of a name, or all of it where it is not longer.
pub open spec fn shortened(name: Seq<char>) -> Seq<char> {
    if encode_utf8(name).len() <= NAME_BYTES {
        name
    } else {
        decode_utf8(encode_utf8(name).subrange(0, NAME_BYTES as int))
    }
}

/// Tells whether a name can be shortened: a long one whose tenth byte ends no
/// character cannot.
pub fn can_shorten_text(name: &str) -> (can: bool)
    ensures
        can == can_shorten(name@),
{
    let bytes = name.as_bytes();
    bytes.len() <= NAME_BYTES || name.is_char_boundary(NAME_BYTES)
}

/// Cuts a name behind its tenth byte.
pub fn shortened_text(name: &str) -> (text: String)
    requires
        can_shorten(name@),
    ensures
        text@ == shortened(name@),
{
    let bytes = name.as_bytes();
    if bytes.len() <= NAME_BYTES {
        return name.to_owned();
    }
    let (head, _tail) = name.split_at(NAME_BYTES);
    proof {
        encode_utf8_decode_utf8(head@);
    }
    head.to_owned()
}

} // verus!
