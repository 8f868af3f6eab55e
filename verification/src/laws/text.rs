//! Texts and numerals.
use crate::text::{
    begins_with, digits_value, first_index, int_numeral, is_digit, lossy, numeral, occurs,
    occurs_at, parse_unsigned, replaced, unsigned_digits,
};
use vstd::prelude::*;
use vstd::utf8::*;

verus! {

/// A part with something before it and something behind it is found.
pub proof fn law_a_part_is_found<T>(a: Seq<T>, part: Seq<T>, b: Seq<T>)
    ensures
        occurs(a + part + b, part),
        occurs_at(a + part + b, part, a.len() as int),
{
    assert((a + part + b).subrange(a.len() as int, (a.len() + part.len()) as int) =~= part);
    assert(occurs_at(a + part + b, part, a.len() as int));
}

/// What is found is a part: there is something before it, perhaps empty, and something behind it.
pub proof fn law_what_is_found_is_a_part<T>(s: Seq<T>, part: Seq<T>) -> (r: (Seq<T>, Seq<T>))
    requires
        occurs(s, part),
    ensures
        s == r.0 + part + r.1,
{
    let i = choose|i: int| occurs_at(s, part, i);
    let a = s.take(i);
    let b = s.skip(i + part.len());
    assert(s =~= a + part + b);
    (a, b)
}

/// A part stands at a place exactly where its items stand there one after the other.
pub proof fn law_where_a_part_stands<T>(s: Seq<T>, part: Seq<T>, i: int)
    ensures
        occurs_at(s, part, i) <==> 0 <= i && i + part.len() <= s.len() && (forall|k: int|
            0 <= k < part.len() ==> s[i + k] == #[trigger] part[k]),
{
    if 0 <= i && i + part.len() <= s.len() {
        let cut = s.subrange(i, i + part.len());
        if forall|k: int| 0 <= k < part.len() ==> s[i + k] == #[trigger] part[k] {
            assert(cut =~= part);
        }
        if cut == part {
            assert forall|k: int| 0 <= k < part.len() implies s[i + k] == #[trigger] part[k] by {
                assert(cut[k] == s[i + k]);
            }
        }
    }
}

/// A text begins with what was put in front of it, and with nothing else of that length.
pub proof fn law_begins_with_what_stands_in_front(front: Seq<char>, rest: Seq<char>, other: Seq<char>)
    requires
        other.len() == front.len(),
    ensures
        begins_with(front + rest, other) <==> other == front,
        rest.len() > 0 ==> !begins_with(front, front + rest),
{
    assert((front + rest).subrange(0, front.len() as int) =~= front);
}

/// The first place of a character that stands behind a text without it is the end of that text.
pub proof fn law_first_place_of_a_character(a: Seq<char>, c: char, b: Seq<char>)
    requires
        !a.contains(c),
    ensures
        first_index(a + seq![c] + b, c) == Some(a.len() as int),
        first_index(a, c) is None,
    decreases a.len(),
{
    let s = a + seq![c] + b;
    if a.len() == 0 {
        assert(s[0] == c);
    } else {
        assert(a[0] != c);
        assert(s.skip(1) =~= a.skip(1) + seq![c] + b);
        assert forall|j: int| 0 <= j < a.skip(1).len() implies a.skip(1)[j] != c by {
            assert(a.contains(a[j + 1]));
        }
        law_first_place_of_a_character(a.skip(1), c, b);
    }
}

/// A numeral is a row of decimal digits that stands for its number, without a zero in front of
/// others.
pub proof fn law_a_numeral_stands_for_its_number(n: nat)
    ensures
        numeral(n).len() > 0,
        forall|i: int| 0 <= i < numeral(n).len() ==> '0' <= #[trigger] numeral(n)[i] <= '9',
        digits_value(numeral(n)) == n,
        n > 0 ==> numeral(n)[0] != '0',
    decreases n,
{
    if n < 10 {
        assert(numeral(n).drop_last() =~= seq![]);
        assert(digits_value(seq![]) == 0);
    } else {
        law_a_numeral_stands_for_its_number(n / 10);
        assert(numeral(n).drop_last() =~= numeral(n / 10));
    }
}

/// A digit behind a row of digits counts once, and what stood there ten times.
pub proof fn law_digits_count_in_tens(s: Seq<char>, c: char)
    requires
        '0' <= c <= '9',
    ensures
        digits_value(seq![]) == 0,
        digits_value(s.push(c)) == 10 * digits_value(s) + (c as nat - '0' as nat),
{
    assert(s.push(c).drop_last() =~= s);
}

/// A negative number is written with a minus sign, every other one without a sign.
pub proof fn law_signs(n: nat)
    ensures
        int_numeral(n as int) == numeral(n),
        n > 0 ==> int_numeral(-n) == seq!['-'] + numeral(n),
{
}

/// A number that was written is read, with a plus sign in front of it too, wherever it is not above
/// the greatest that is allowed.
pub proof fn law_a_written_number_is_read(n: nat, max: nat)
    ensures
        parse_unsigned(numeral(n), max) == (if n <= max {
            Some(n)
        } else {
            None::<nat>
        }),
        parse_unsigned(seq!['+'] + numeral(n), max) == (if n <= max {
            Some(n)
        } else {
            None::<nat>
        }),
{
    law_a_numeral_stands_for_its_number(n);
    let s = numeral(n);
    assert('0' <= s[0]);
    assert(unsigned_digits(s) == s);
    assert((seq!['+'] + s).skip(1) =~= s);
    assert(forall|i: int| 0 <= i < s.len() ==> is_digit(#[trigger] s[i]));
}

/// Only a row of digits is read as a number, with or without one plus sign in front of it, and read
/// as what it stands for.
pub proof fn law_only_digits_are_read(d: Seq<char>, max: nat)
    requires
        d.len() > 0 ==> d[0] != '+',
    ensures
        parse_unsigned(d, max) == (if d.len() > 0 && digits_value(d) <= max && (forall|i: int|
            0 <= i < d.len() ==> '0' <= #[trigger] d[i] <= '9') {
            Some(digits_value(d))
        } else {
            None::<nat>
        }),
        parse_unsigned(seq!['+'] + d, max) == parse_unsigned(d, max),
{
    assert(unsigned_digits(d) == d);
    assert((seq!['+'] + d).skip(1) =~= d);
    if forall|i: int| 0 <= i < d.len() ==> '0' <= #[trigger] d[i] <= '9' {
        assert forall|i: int| 0 <= i < d.len() implies is_digit(#[trigger] d[i]) by {}
    } else {
        let i = choose|i: int| 0 <= i < d.len() && !('0' <= #[trigger] d[i] <= '9');
        assert(!is_digit(d[i]));
    }
}

/// Bytes that are the encoding of a text are that text; others are left to the standard library.
pub proof fn law_bytes_as_text(bytes: Seq<u8>)
    ensures
        valid_utf8(bytes) ==> lossy(bytes) == decode_utf8(bytes) && encode_utf8(lossy(bytes))
            == bytes,
        !valid_utf8(bytes) ==> lossy(bytes) == replaced(bytes),
{
    if valid_utf8(bytes) {
        decode_utf8_encode_utf8(bytes);
    }
}

} // verus!
