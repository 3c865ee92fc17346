//! What holds of texts: numbers that are written down, searches, the order of
//! texts, and spans of time.

use crate::args::worker_count;
use crate::clock::{
    clock_text, date_stamp_text, is_clock, is_date_stamp, span_text, year_text,
};
use crate::order::{below_at, bytes_lt, lemma_text_lt_total, sorted, text_lt};
use crate::path::{last_part, name_or, path_file_name, shown_name, trimmed_path, TestView};
use crate::text::{
    can_shorten, decimal, digit_char, is_ending, occurs, occurs_at, shortened, signed_decimal,
    two_places,
};
use vstd::prelude::*;
use vstd::utf8::*;

verus! {

/// The number that a row of digits stands for.
pub open spec fn number_of(digits: Seq<char>) -> int
    decreases digits.len(),
{
    if digits.len() == 0 {
        0
    } else {
        10 * number_of(digits.drop_last()) + (digits.last() as int - '0' as int)
    }
}

/// All characters are digits.
pub open spec fn all_digits(text: Seq<char>) -> bool {
    forall|i: int| 0 <= i < text.len() ==> '0' <= #[trigger] text[i] <= '9'
}

/// A number that is written down can be read back: what is written are digits,
/// without a zero in front of others, and they stand for the number.
pub proof fn law_decimals_are_read_back(n: nat)
    ensures
        number_of(decimal(n)) == n,
        all_digits(decimal(n)),
        decimal(n).len() > 0,
        decimal(n)[0] == '0' ==> n == 0 && decimal(n).len() == 1,
    decreases n,
{
    if n < 10 {
        assert(decimal(n).drop_last() =~= Seq::empty());
        assert(number_of(decimal(n).drop_last()) == 0);
        assert(decimal(n).last() as int == '0' as int + n);
    } else {
        law_decimals_are_read_back(n / 10);
        let head = decimal(n / 10);
        let c = digit_char(n % 10);
        assert(c as int == '0' as int + n % 10);
        assert(decimal(n).drop_last() =~= head);
        assert(decimal(n)[0] == head[0]);
        assert forall|i: int| 0 <= i < decimal(n).len() implies '0' <= #[trigger] decimal(n)[i]
            <= '9' by {
            if i < head.len() {
                assert(decimal(n)[i] == head[i]);
            }
        }
    }
}

/// Different numbers are written down differently.
pub proof fn law_decimals_differ(m: nat, n: nat)
    requires
        decimal(m) == decimal(n),
    ensures
        m == n,
{
    law_decimals_are_read_back(m);
    law_decimals_are_read_back(n);
}

/// A negative number has a minus in front of the digits of what is left without
/// it; another number has its digits alone.
pub proof fn law_signed_decimals_are_read_back(n: int)
    ensures
        n >= 0 ==> number_of(signed_decimal(n)) == n && all_digits(signed_decimal(n)),
        n < 0 ==> signed_decimal(n).len() > 1 && signed_decimal(n)[0] == '-' && number_of(
            signed_decimal(n).skip(1),
        ) == -n && all_digits(signed_decimal(n).skip(1)),
        n != 0 ==> signed_decimal(n)[0] != '0' && (n < 0 ==> signed_decimal(n)[1] != '0'),
        n == 0 ==> signed_decimal(n).len() == 1,
{
    reveal_strlit("-");
    if n >= 0 {
        law_decimals_are_read_back(n as nat);
    } else {
        law_decimals_are_read_back((-n) as nat);
        assert(signed_decimal(n).skip(1) =~= decimal((-n) as nat));
    }
}

/// A number of one digit is filled up from the left; any other stands as it is.
pub proof fn law_two_places_hold_the_number(fill: Seq<char>, n: nat)
    ensures
        n >= 10 ==> number_of(two_places(fill, n)) == n && all_digits(two_places(fill, n))
            && two_places(fill, n)[0] != '0',
        n < 10 ==> two_places(fill, n).len() == fill.len() + 1 && two_places(fill, n).take(
            fill.len() as int,
        ) == fill && two_places(fill, n).last() as int == '0' as int + n,
        n < 100 && fill.len() == 1 ==> two_places(fill, n).len() == 2,
        n < 100 && fill == seq!['0'] ==> number_of(two_places(fill, n)) == n,
        fill == seq!['0'] ==> all_digits(two_places(fill, n)),
{
    law_decimals_are_read_back(n);
    if n < 10 {
        assert(two_places(fill, n).take(fill.len() as int) =~= fill);
        if fill == seq!['0'] {
            let t = two_places(fill, n);
            reveal_with_fuel(number_of, 3);
            assert(t.drop_last() =~= seq!['0']);
            assert(t.drop_last().drop_last() =~= Seq::empty());
        }
    } else if n < 100 {
        assert(decimal(n / 10).len() == 1);
    }
}

/// A part stands in a text exactly where the text is something, the part, and
/// something.
pub proof fn law_occurs_means_between(whole: Seq<char>, part: Seq<char>)
    ensures
        occurs(whole, part) <==> exists|a: Seq<char>, b: Seq<char>| whole == #[trigger] (a + part
            + b),
        is_ending(whole, part) <==> exists|a: Seq<char>| whole == #[trigger] (a + part),
{
    if occurs(whole, part) {
        let at = choose|at: int| occurs_at(whole, part, at);
        let a = whole.take(at);
        let b = whole.skip(at + part.len());
        assert(whole =~= a + part + b) by {
            assert(whole.subrange(at, at + part.len()) == part);
            assert forall|i: int| 0 <= i < whole.len() implies whole[i] == (a + part + b)[i] by {
                if at <= i < at + part.len() {
                    assert(whole.subrange(at, at + part.len())[i - at] == part[i - at]);
                }
            }
        }
    }
    if exists|a: Seq<char>, b: Seq<char>| whole == #[trigger] (a + part + b) {
        let (a, b) = choose|a: Seq<char>, b: Seq<char>| whole == #[trigger] (a + part + b);
        assert(whole.subrange(a.len() as int, (a.len() + part.len()) as int) =~= part);
        assert(occurs_at(whole, part, a.len() as int));
    }
    if is_ending(whole, part) {
        let at = whole.len() - part.len();
        let a = whole.take(at);
        assert(whole =~= a + part) by {
            assert forall|i: int| 0 <= i < whole.len() implies whole[i] == (a + part)[i] by {
                if at <= i {
                    assert(whole.subrange(at, at + part.len())[i - at] == part[i - at]);
                }
            }
        }
    }
    if exists|a: Seq<char>| whole == #[trigger] (a + part) {
        let a = choose|a: Seq<char>| whole == #[trigger] (a + part);
        assert(whole.subrange(a.len() as int, (a.len() + part.len()) as int) =~= part);
    }
}

/// The encoding of two texts is that of the one and that of the other.
proof fn lemma_encoding_adds(a: Seq<char>, b: Seq<char>)
    ensures
        encode_utf8(a + b) == encode_utf8(a) + encode_utf8(b),
    decreases a.len(),
{
    if a.len() == 0 {
        assert(a + b =~= b);
        assert(encode_utf8(a) + encode_utf8(b) =~= encode_utf8(b));
    } else {
        lemma_encoding_adds(a.drop_first(), b);
        assert((a + b).drop_first() =~= a.drop_first() + b);
        assert(encode_utf8(a + b) =~= encode_utf8(a) + encode_utf8(b));
    }
}

/// A name that is not longer than ten bytes is shown whole; of a longer one that
/// begins with a text of ten bytes just that text is shown; and a longer one
/// that begins with no such text cannot be shortened.
pub proof fn law_names_are_cut_behind_ten_bytes(name: Seq<char>)
    ensures
        encode_utf8(name).len() <= 10 ==> can_shorten(name) && shortened(name) == name,
        forall|head: Seq<char>, rest: Seq<char>|
            name == #[trigger] (head + rest) && encode_utf8(head).len() == 10 ==> can_shorten(name)
                && shortened(name) == head,
        encode_utf8(name).len() > 10 && can_shorten(name) ==> exists|
            head: Seq<char>,
            rest: Seq<char>,
        | name == #[trigger] (head + rest) && encode_utf8(head).len() == 10,
{
    broadcast use encode_utf8_valid_utf8;

    let bytes = encode_utf8(name);
    encode_utf8_decode_utf8(name);
    assert forall|head: Seq<char>, rest: Seq<char>|
        name == #[trigger] (head + rest) && encode_utf8(head).len() == 10 implies can_shorten(name)
        && shortened(name) == head by {
        lemma_encoding_adds(head, rest);
        encode_utf8_decode_utf8(head);
        assert(bytes.subrange(0, 10) =~= encode_utf8(head));
        if bytes.len() > 10 {
            lemma_boundary_behind(head, rest);
        } else {
            assert(encode_utf8(rest).len() == 0);
            if rest.len() > 0 {
                encode_utf8_first_scalar(rest);
                assert(encode_utf8(rest).len() >= encode_scalar(rest[0] as u32).len());
            }
            assert(name =~= head);
        }
    }
    if bytes.len() > 10 && can_shorten(name) {
        valid_utf8_split(bytes, 10);
        decode_utf8_split(bytes, 10);
        let head = decode_utf8(bytes.subrange(0, 10));
        let rest = decode_utf8(bytes.subrange(10, bytes.len() as int));
        decode_utf8_encode_utf8(bytes.subrange(0, 10));
        assert(name == head + rest);
        assert(encode_utf8(head).len() == 10);
    }
}

/// Behind the encoding of a text is a boundary.
proof fn lemma_boundary_behind(head: Seq<char>, rest: Seq<char>)
    ensures
        is_char_boundary(encode_utf8(head + rest), encode_utf8(head).len() as int),
    decreases head.len(),
{
    broadcast use encode_utf8_valid_utf8;

    let all = head + rest;
    if head.len() > 0 {
        encode_utf8_first_scalar(all);
        assert(all.drop_first() =~= head.drop_first() + rest);
        lemma_boundary_behind(head.drop_first(), rest);
        let bytes = encode_utf8(all);
        assert(pop_first_scalar(bytes) =~= encode_utf8(all.drop_first()));
        assert(encode_utf8(head).len() == encode_scalar(head[0] as u32).len() + encode_utf8(
            head.drop_first(),
        ).len());
        lemma_encoding_adds(head, rest);
    }
}

/// A name of characters that take one byte each is cut behind ten of them.
pub proof fn law_plain_names_are_cut_behind_ten_characters(name: Seq<char>)
    requires
        is_ascii_chars(name),
    ensures
        can_shorten(name),
        name.len() <= 10 ==> shortened(name) == name,
        name.len() > 10 ==> shortened(name) == name.take(10),
{
    is_ascii_chars_encode_utf8(name);
    law_names_are_cut_behind_ten_bytes(name);
    if name.len() > 10 {
        let head = name.take(10);
        assert(is_ascii_chars(head));
        is_ascii_chars_encode_utf8(head);
        assert(name =~= head + name.skip(10));
    }
}

/// The first byte in which two byte strings differ decides which comes first,
/// and a byte string comes before what it is the beginning of.
pub proof fn law_the_first_difference_decides(
    p: Seq<u8>,
    x: u8,
    y: u8,
    a: Seq<u8>,
    b: Seq<u8>,
)
    ensures
        x != y ==> (bytes_lt(p.push(x) + a, p.push(y) + b) <==> x < y),
        bytes_lt(p, p.push(x) + a),
        !bytes_lt(p.push(x) + a, p),
{
    let (u, w) = (p.push(x) + a, p.push(y) + b);
    let k = p.len() as int;
    assert(forall|i: int| 0 <= i < k ==> #[trigger] u[i] == p[i]);
    assert(forall|i: int| 0 <= i < k ==> #[trigger] w[i] == p[i]);
    assert(u[k] == x && w[k] == y);
    assert(below_at(p, u, k));
    if x < y {
        assert(below_at(u, w, k));
    } else if y < x {
        assert forall|j: int| !below_at(u, w, j) by {
            if below_at(u, w, j) && j > k {
                assert(u[k] == w[k]);
            }
            if below_at(u, w, j) && j < k {
                assert(u[j] == w[j]);
            }
        }
    }
    assert forall|j: int| !below_at(u, p, j) by {
        if below_at(u, p, j) {
            assert(u[j] == p[j]);
        }
    }
}

/// Texts of characters that take one byte each are ordered by the first
/// character in which they differ.
pub proof fn law_plain_texts_are_ordered_by_character(
    p: Seq<char>,
    x: char,
    y: char,
    a: Seq<char>,
    b: Seq<char>,
)
    requires
        x <= '\u{7f}',
        y <= '\u{7f}',
        x != y,
    ensures
        text_lt(p.push(x) + a, p.push(y) + b) <==> x < y,
        text_lt(p, p.push(x) + a),
{
    let (xs, ys) = (seq![x], seq![y]);
    assert(is_ascii_chars(xs) && is_ascii_chars(ys));
    is_ascii_chars_encode_utf8(xs);
    is_ascii_chars_encode_utf8(ys);
    assert(xs[0] == x && ys[0] == y);
    let (i, j) = (encode_utf8(xs)[0], encode_utf8(ys)[0]);
    assert(i == x as u8 && j == y as u8);
    assert(p.push(x) + a =~= p + (xs + a));
    assert(p.push(y) + b =~= p + (ys + b));
    lemma_encoding_adds(p, xs + a);
    lemma_encoding_adds(xs, a);
    lemma_encoding_adds(p, ys + b);
    lemma_encoding_adds(ys, b);
    let q = encode_utf8(p);
    assert(encode_utf8(p.push(x) + a) =~= q.push(i) + encode_utf8(a));
    assert(encode_utf8(p.push(y) + b) =~= q.push(j) + encode_utf8(b));
    law_the_first_difference_decides(q, i, j, encode_utf8(a), encode_utf8(b));
}

/// Texts are ordered as the byte strings of their encodings are.
pub proof fn law_texts_are_ordered_by_their_bytes(a: Seq<char>, b: Seq<char>)
    ensures
        text_lt(a, b) <==> bytes_lt(encode_utf8(a), encode_utf8(b)),
{
}

/// In a sorted list every text is the same as one that stands behind it, or
/// comes before it.
pub proof fn law_sorted_means_in_order(list: Seq<Seq<char>>)
    ensures
        sorted(list) <==> forall|i: int, j: int|
            0 <= i < j < list.len() ==> #[trigger] list[i] == #[trigger] list[j] || text_lt(
                list[i],
                list[j],
            ),
{
    assert forall|i: int, j: int|
        0 <= i < j < list.len() && sorted(list) implies #[trigger] list[i] == #[trigger] list[j]
        || text_lt(list[i], list[j]) by {
        lemma_text_lt_total(list[i], list[j]);
        assert(!text_lt(list[j], list[i]));
    }
    if forall|i: int, j: int|
        0 <= i < j < list.len() ==> #[trigger] list[i] == #[trigger] list[j] || text_lt(
            list[i],
            list[j],
        ) {
        assert forall|i: int, j: int| 0 <= i < j < list.len() implies !text_lt(
            #[trigger] list[j],
            #[trigger] list[i],
        ) by {
            crate::order::lemma_text_lt_irreflexive(list[i]);
            assert(list[i] == list[j] || text_lt(list[i], list[j]));
            if text_lt(list[i], list[j]) && text_lt(list[j], list[i]) {
                crate::order::lemma_text_lt_transitive(list[i], list[j], list[i]);
            }
        }
    }
}

/// Hours, minutes and seconds can be read off their places, between colons.
pub proof fn law_clocks_are_read_back(hours: nat, minutes: nat, seconds: nat)
    requires
        minutes < 100,
        seconds < 100,
    ensures
        ({
            let text = clock_text(hours, minutes, seconds);
            let n = text.len() as int;
            &&& n >= 8
            &&& hours < 100 ==> n == 8
            &&& hours >= 10 ==> text[0] != '0'
            &&& all_digits(text.take(n - 6))
            &&& all_digits(text.subrange(n - 5, n - 3))
            &&& all_digits(text.skip(n - 2))
            &&& number_of(text.take(n - 6)) == hours
            &&& text[n - 6] == ':'
            &&& number_of(text.subrange(n - 5, n - 3)) == minutes
            &&& text[n - 3] == ':'
            &&& number_of(text.skip(n - 2)) == seconds
        }),
{
    reveal_strlit("0");
    reveal_strlit(":");
    assert("0"@ =~= seq!['0']);
    law_two_places_hold_the_number("0"@, hours);
    law_two_places_hold_the_number("0"@, minutes);
    law_two_places_hold_the_number("0"@, seconds);
    let (h, m, s) = (two_places("0"@, hours), two_places("0"@, minutes), two_places("0"@, seconds));
    if hours >= 10 {
        assert(h == decimal(hours));
        law_decimals_are_read_back(hours / 10);
        assert(h.len() == decimal(hours / 10).len() + 1);
    }
    let text = clock_text(hours, minutes, seconds);
    let n = text.len() as int;
    assert(n == h.len() + 6);
    assert(text.take(n - 6) =~= h);
    assert(text.subrange(n - 5, n - 3) =~= m);
    assert(text.skip(n - 2) =~= s);
}

/// A span can be read off its text: the hours, the minutes and the seconds add
/// up to it, and neither the minutes nor the seconds reach sixty.
pub proof fn law_spans_are_read_back(span: nat)
    ensures
        ({
            let text = span_text(span);
            let n = text.len() as int;
            let hours = number_of(text.take(n - 6));
            let minutes = number_of(text.subrange(n - 5, n - 3));
            let seconds = number_of(text.skip(n - 2));
            &&& n >= 8
            &&& 3600 * hours + 60 * minutes + seconds == span
            &&& 0 <= minutes < 60
            &&& 0 <= seconds < 60
            &&& text[n - 6] == ':' && text[n - 3] == ':'
            &&& all_digits(text.take(n - 6))
            &&& all_digits(text.subrange(n - 5, n - 3))
            &&& all_digits(text.skip(n - 2))
            &&& n > 8 ==> text[0] != '0'
        }),
{
    law_clocks_are_read_back(span / 3600, (span % 3600) / 60, span % 60);
}

/// A time of day has eight places: digits below 24, 60 and 61, and two colons.
pub proof fn law_times_of_day_are_read_back(text: Seq<char>)
    requires
        is_clock(text),
    ensures
        text.len() == 8,
        0 <= number_of(text.take(2)) < 24,
        text[2] == ':',
        0 <= number_of(text.subrange(3, 5)) < 60,
        text[5] == ':',
        0 <= number_of(text.skip(6)) <= 60,
{
    let (h, m, s) = choose|h: nat, m: nat, s: nat|
        h < 24 && m < 60 && s <= 60 && text == #[trigger] clock_text(h, m, s);
    law_clocks_are_read_back(h, m, s);
}

/// A date stamp ends with a month, a day, an underscore, and a time of day, each
/// in its two places; the year stands before them, with a sign where it has more
/// than four places.
pub proof fn law_date_stamps_are_read_back(text: Seq<char>)
    requires
        is_date_stamp(text),
    ensures
        ({
            let n = text.len() as int;
            let year = number_of(text.take(n - 11));
            &&& n >= 15
            &&& n == 15 ==> all_digits(text.take(4)) && 1969 <= year < 10000
            &&& n > 15 ==> text[0] == '+' && all_digits(text.subrange(1, n - 11)) && number_of(
                text.subrange(1, n - 11),
            ) >= 10000
            &&& 1 <= number_of(text.subrange(n - 11, n - 9)) <= 12
            &&& 1 <= number_of(text.subrange(n - 9, n - 7)) <= 31
            &&& text[n - 7] == '_'
            &&& 0 <= number_of(text.subrange(n - 6, n - 4)) < 24
            &&& 0 <= number_of(text.subrange(n - 4, n - 2)) < 60
            &&& 0 <= number_of(text.skip(n - 2)) <= 60
            &&& all_digits(text.subrange(n - 11, n - 7))
            &&& all_digits(text.skip(n - 6))
        }),
{
    let (year, month, day, hours, minutes, seconds) = choose|
        year: nat,
        month: nat,
        day: nat,
        hours: nat,
        minutes: nat,
        seconds: nat,
    |
        {
            &&& 1969 <= year
            &&& 1 <= month <= 12
            &&& 1 <= day <= 31
            &&& hours < 24
            &&& minutes < 60
            &&& seconds <= 60
            &&& text == #[trigger] date_stamp_text(year, month, day, hours, minutes, seconds)
        };
    reveal_strlit("0");
    reveal_strlit("_");
    reveal_strlit("+");
    assert("0"@ =~= seq!['0']);
    law_two_places_hold_the_number("0"@, month);
    law_two_places_hold_the_number("0"@, day);
    law_two_places_hold_the_number("0"@, hours);
    law_two_places_hold_the_number("0"@, minutes);
    law_two_places_hold_the_number("0"@, seconds);
    law_decimals_are_read_back(year);
    lemma_four_places(year);
    let y = year_text(year);
    let n = text.len() as int;
    assert(n == y.len() + 11);
    assert(text.take(n - 11) =~= y);
    assert(text.subrange(n - 11, n - 9) =~= two_places("0"@, month));
    assert(text.subrange(n - 9, n - 7) =~= two_places("0"@, day));
    assert(text.subrange(n - 6, n - 4) =~= two_places("0"@, hours));
    assert(text.subrange(n - 4, n - 2) =~= two_places("0"@, minutes));
    assert(text.skip(n - 2) =~= two_places("0"@, seconds));
    assert(text.subrange(n - 11, n - 7) =~= two_places("0"@, month) + two_places("0"@, day));
    assert(text.skip(n - 6) =~= two_places("0"@, hours) + two_places("0"@, minutes) + two_places(
        "0"@,
        seconds,
    ));
    if year >= 10000 {
        assert(text.subrange(1, n - 11) =~= decimal(year));
    }
}

/// Years from 1000 to 9999 take four places, and later ones more.
proof fn lemma_four_places(year: nat)
    requires
        year >= 1000,
    ensures
        year < 10000 ==> decimal(year).len() == 4,
        year >= 10000 ==> decimal(year).len() > 4,
{
    reveal_with_fuel(decimal, 5);
    law_decimals_are_read_back(year / 10000);
}

/// A test is shown by its file name where it has one, else by what stands in
/// for it.
pub proof fn law_tests_are_shown_by_their_names(test: TestView, fallback: Seq<char>)
    ensures
        test.file_name == Some(name_or(test, fallback)) || test.file_name is None && name_or(
            test,
            fallback,
        ) == fallback,
        test.file_name == Some(shown_name(test)) || test.file_name is None && shown_name(test)
            == test.path,
{
}

/// The file name is what stands behind the last separator, unless that is
/// nothing or dots alone; separators at the end change nothing.
pub proof fn law_file_names_stand_behind_the_last_separator(dir: Seq<char>, name: Seq<char>)
    requires
        name.len() > 0,
        forall|i: int| 0 <= i < name.len() ==> #[trigger] name[i] != '/',
        name != seq!['.'],
        name != seq!['.', '.'],
    ensures
        path_file_name(dir.push('/') + name) == Some(name),
        path_file_name(name) == Some(name),
        path_file_name((dir.push('/') + name).push('/')) == Some(name),
{
    reveal_strlit("..");
    let path = dir.push('/') + name;
    assert(".."@ =~= seq!['.', '.']);
    lemma_last_part(dir.push('/'), name);
    lemma_last_part(Seq::empty(), name);
    assert(Seq::<char>::empty() + name =~= name);
    assert(path.last() == name.last());
    if name.last() == '.' {
        if name.len() == 1 {
            assert(name =~= seq!['.']);
        }
        assert(path[path.len() - 2] == name[name.len() - 2]);
    }
    assert(trimmed_path(path) == path);
    assert(trimmed_path(name) == name);
    assert(path.push('/').drop_last() =~= path);
}

/// What stands behind the last separator.
proof fn lemma_last_part(head: Seq<char>, name: Seq<char>)
    requires
        head.len() == 0 || head.last() == '/',
        forall|i: int| 0 <= i < name.len() ==> #[trigger] name[i] != '/',
    ensures
        last_part(head + name) == name,
    decreases name.len(),
{
    if name.len() == 0 {
        assert(head + name =~= head);
        assert(last_part(head) =~= name);
    } else {
        lemma_last_part(head, name.drop_last());
        assert((head + name).drop_last() =~= head + name.drop_last());
        assert(last_part(head + name) =~= name);
    }
}

/// There are as many workers as were asked for; where none were asked for, as
/// many as the machine runs threads; and four where it does not tell.
pub proof fn law_workers_are_as_many_as_asked(asked: Option<usize>, parallelism: Option<usize>)
    ensures
        asked is Some ==> Some(worker_count(asked, parallelism)) == asked,
        asked is None && parallelism is Some ==> Some(worker_count(asked, parallelism))
            == parallelism,
        asked is None && parallelism is None ==> worker_count(asked, parallelism) == 4,
{
}

} // verus!
