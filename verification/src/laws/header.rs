//! The head of an HTTP message.
use crate::header::{
    content_length, field_value, first_line, has_field, is_space, lines, same_ignoring_case,
    split_field, trim, trim_end, trim_start,
};
use crate::laws::text::{
    law_a_numeral_stands_for_its_number, law_a_written_number_is_read,
    law_first_place_of_a_character,
};
use crate::text::{numeral, parse_unsigned};
use vstd::prelude::*;

verus! {

/// A line ends at a carriage return and a line feed, and the rest has lines of its own.
pub proof fn law_a_line_ends_at_its_return(a: Seq<char>, rest: Seq<char>)
    requires
        !a.contains('\n'),
    ensures
        lines(a + seq!['\r', '\n'] + rest) == seq![a] + lines(rest),
{
    let s = a + seq!['\r', '\n'] + rest;
    let front = a.push('\r');
    assert(s =~= front + seq!['\n'] + rest);
    assert forall|j: int| 0 <= j < front.len() implies front[j] != '\n' by {
        if j < a.len() {
            assert(a.contains(a[j]));
        }
    }
    law_first_place_of_a_character(front, '\n', rest);
    assert(s.take(front.len() as int) =~= front);
    assert(front.drop_last() =~= a);
    assert(s.skip(front.len() as int + 1) =~= rest);
}

/// A line feed alone ends a line too.
pub proof fn law_a_line_ends_at_its_feed(a: Seq<char>, rest: Seq<char>)
    requires
        !a.contains('\n'),
        a.len() > 0 ==> a.last() != '\r',
    ensures
        lines(a + seq!['\n'] + rest) == seq![a] + lines(rest),
{
    let s = a + seq!['\n'] + rest;
    law_first_place_of_a_character(a, '\n', rest);
    assert(s.take(a.len() as int) =~= a);
    assert(s.skip(a.len() as int + 1) =~= rest);
}

/// A text without a line end is one line, and nothing is none.
pub proof fn law_the_last_line(a: Seq<char>)
    requires
        !a.contains('\n'),
    ensures
        lines(a) == (if a.len() > 0 {
            seq![a]
        } else {
            seq![]
        }),
{
    law_first_place_of_a_character(a, '\n', seq![]);
}

/// The first line is what stands before the first line end.
pub proof fn law_the_first_line(a: Seq<char>, rest: Seq<char>)
    requires
        !a.contains('\n'),
    ensures
        first_line(a + seq!['\r', '\n'] + rest) == a,
        first_line(a) == a,
{
    law_a_line_ends_at_its_return(a, rest);
    law_the_last_line(a);
}

/// A field is split at its first colon; a line without one is no field.
pub proof fn law_a_field_is_split_at_its_colon(name: Seq<char>, value: Seq<char>)
    requires
        !name.contains(':'),
    ensures
        split_field(name + seq![':'] + value) == Some((name, value)),
        split_field(name) is None,
{
    let line = name + seq![':'] + value;
    law_first_place_of_a_character(name, ':', value);
    assert(line.take(name.len() as int) =~= name);
    assert(line.skip(name.len() as int + 1) =~= value);
}

/// Two names are the same where they differ at most in the case of the letters from A to Z.
pub proof fn law_case_does_not_matter(a: Seq<char>, b: Seq<char>)
    ensures
        same_ignoring_case(a, b) <==> a.len() == b.len() && (forall|i: int|
            0 <= i < a.len() ==> {
                ||| #[trigger] a[i] == b[i]
                ||| 'A' <= a[i] <= 'Z' && b[i] as u32 == a[i] as u32 + 32
                ||| 'A' <= b[i] <= 'Z' && a[i] as u32 == b[i] as u32 + 32
            }),
{
}

/// The white space is that of Unicode.
pub proof fn law_white_space(c: char)
    ensures
        is_space(c) <==> seq![
            '\t',
            '\n',
            '\u{b}',
            '\u{c}',
            '\r',
            ' ',
            '\u{85}',
            '\u{a0}',
            '\u{1680}',
            '\u{2000}',
            '\u{2001}',
            '\u{2002}',
            '\u{2003}',
            '\u{2004}',
            '\u{2005}',
            '\u{2006}',
            '\u{2007}',
            '\u{2008}',
            '\u{2009}',
            '\u{200a}',
            '\u{2028}',
            '\u{2029}',
            '\u{202f}',
            '\u{205f}',
            '\u{3000}',
        ].contains(c),
{
    let all = seq![
        '\t',
        '\n',
        '\u{b}',
        '\u{c}',
        '\r',
        ' ',
        '\u{85}',
        '\u{a0}',
        '\u{1680}',
        '\u{2000}',
        '\u{2001}',
        '\u{2002}',
        '\u{2003}',
        '\u{2004}',
        '\u{2005}',
        '\u{2006}',
        '\u{2007}',
        '\u{2008}',
        '\u{2009}',
        '\u{200a}',
        '\u{2028}',
        '\u{2029}',
        '\u{202f}',
        '\u{205f}',
        '\u{3000}',
    ];
    if is_space(c) {
        let u = c as u32;
        let i = if 9 <= u <= 13 {
            u - 9
        } else if u == 0x20 {
            5
        } else if u == 0x85 {
            6
        } else if u == 0xa0 {
            7
        } else if u == 0x1680 {
            8
        } else if 0x2000 <= u <= 0x200a {
            u - 0x2000 + 9
        } else if u == 0x2028 {
            20
        } else if u == 0x2029 {
            21
        } else if u == 0x202f {
            22
        } else if u == 0x205f {
            23
        } else {
            24
        };
        assert(all[i] == c);
    }
}

/// White space around a text is trimmed, and nothing of the text itself.
pub proof fn law_white_space_is_trimmed(lead: Seq<char>, core: Seq<char>, trail: Seq<char>)
    requires
        forall|i: int| 0 <= i < lead.len() ==> is_space(#[trigger] lead[i]),
        forall|i: int| 0 <= i < trail.len() ==> is_space(#[trigger] trail[i]),
        core.len() > 0 ==> !is_space(core[0]) && !is_space(core.last()),
    ensures
        trim(lead + core + trail) == core,
    decreases lead.len() + trail.len(),
{
    let s = lead + core + trail;
    if lead.len() > 0 {
        assert(s[0] == lead[0]);
        assert(s.skip(1) =~= lead.skip(1) + core + trail);
        assert forall|i: int| 0 <= i < lead.skip(1).len() implies is_space(
            #[trigger] lead.skip(1)[i],
        ) by {
            assert(lead.skip(1)[i] == lead[i + 1]);
        }
        law_white_space_is_trimmed(lead.skip(1), core, trail);
    } else if core.len() == 0 {
        lemma_all_space(trail);
        assert(s =~= trail);
        assert(trim_end(Seq::<char>::empty()) =~= seq![]);
        assert(core =~= seq![]);
    } else {
        assert(s =~= core + trail);
        assert(s[0] == core[0]);
        lemma_trail(core, trail);
    }
}

proof fn lemma_all_space(s: Seq<char>)
    requires
        forall|i: int| 0 <= i < s.len() ==> is_space(#[trigger] s[i]),
    ensures
        trim_start(s) == Seq::<char>::empty(),
    decreases s.len(),
{
    if s.len() > 0 {
        assert(is_space(s[0]));
        assert forall|i: int| 0 <= i < s.skip(1).len() implies is_space(#[trigger] s.skip(1)[i]) by {
            assert(s.skip(1)[i] == s[i + 1]);
        }
        lemma_all_space(s.skip(1));
    } else {
        assert(s =~= seq![]);
    }
}

proof fn lemma_trail(core: Seq<char>, trail: Seq<char>)
    requires
        core.len() > 0,
        !is_space(core.last()),
        forall|i: int| 0 <= i < trail.len() ==> is_space(#[trigger] trail[i]),
    ensures
        trim_end(core + trail) == core,
    decreases trail.len(),
{
    let s = core + trail;
    if trail.len() > 0 {
        assert(s.last() == trail[trail.len() - 1]);
        assert(s.drop_last() =~= core + trail.drop_last());
        lemma_trail(core, trail.drop_last());
    } else {
        assert(s =~= core);
    }
}

/// The value of a field is that of the first line with its name; lines before it that are no such
/// field are passed over.
pub proof fn law_the_first_field_counts(
    name: Seq<char>,
    key: Seq<char>,
    value: Seq<char>,
    rest: Seq<Seq<char>>,
)
    requires
        !key.contains(':'),
    ensures
        field_value(seq![], name) is None,
        field_value(seq![key + seq![':'] + value] + rest, name) == (if same_ignoring_case(
            key,
            name,
        ) {
            Some(value)
        } else {
            field_value(rest, name)
        }),
        field_value(seq![key] + rest, name) == field_value(rest, name),
{
    law_a_field_is_split_at_its_colon(key, value);
    let l = key + seq![':'] + value;
    assert((seq![l] + rest).skip(1) =~= rest);
    assert((seq![key] + rest).skip(1) =~= rest);
}

/// A head has a field with a value where one of its lines is such a field with that value, white
/// space aside, wherever it stands.
pub proof fn law_any_field_may_hold_the_value(
    name: Seq<char>,
    wanted: Seq<char>,
    key: Seq<char>,
    value: Seq<char>,
    rest: Seq<Seq<char>>,
)
    requires
        !key.contains(':'),
    ensures
        !has_field(seq![], name, wanted),
        has_field(seq![key + seq![':'] + value] + rest, name, wanted) <==> (same_ignoring_case(
            key,
            name,
        ) && trim(value) == wanted) || has_field(rest, name, wanted),
        has_field(seq![key] + rest, name, wanted) <==> has_field(rest, name, wanted),
{
    law_a_field_is_split_at_its_colon(key, value);
    let l = key + seq![':'] + value;
    assert((seq![l] + rest).skip(1) =~= rest);
    assert((seq![key] + rest).skip(1) =~= rest);
}

/// The announced length is the number that the first `Content-Length` line holds, white space
/// around it aside; a line that is no such field is passed over, and without one nothing is
/// announced.
pub proof fn law_the_announced_length(
    key: Seq<char>,
    lead: Seq<char>,
    n: nat,
    trail: Seq<char>,
    rest: Seq<char>,
)
    requires
        same_ignoring_case(key, "content-length"@),
        !key.contains(':'),
        !key.contains('\n'),
        forall|i: int|
            0 <= i < lead.len() ==> is_space(#[trigger] lead[i]) && lead[i] != '\n',
        forall|i: int|
            0 <= i < trail.len() ==> is_space(#[trigger] trail[i]) && trail[i] != '\n',
    ensures
        content_length(
            key + seq![':'] + (lead + numeral(n) + trail) + seq!['\r', '\n'] + rest,
        ) == (if n <= usize::MAX {
            Some(n)
        } else {
            None::<nat>
        }),
        content_length(seq![]) is None,
{
    let value = lead + numeral(n) + trail;
    let line = key + seq![':'] + value;
    law_a_numeral_stands_for_its_number(n);
    law_a_written_number_is_read(n, usize::MAX as nat);
    assert forall|j: int| 0 <= j < line.len() implies line[j] != '\n' by {
        if j < key.len() {
            assert(key.contains(key[j]));
        } else if j > key.len() {
            let k = j - key.len() - 1;
            assert(line[j] == value[k]);
            if k >= lead.len() && k < lead.len() + numeral(n).len() {
                assert('0' <= numeral(n)[k - lead.len()]);
            }
        }
    }
    law_a_line_ends_at_its_return(line, rest);
    law_the_first_field_counts("content-length"@, key, value, lines(rest));
    assert('0' <= numeral(n)[0] <= '9');
    assert('0' <= numeral(n)[numeral(n).len() - 1] <= '9');
    law_white_space_is_trimmed(lead, numeral(n), trail);
}

/// A line that is no `Content-Length` field does not change the announced length.
pub proof fn law_other_lines_announce_nothing(key: Seq<char>, value: Seq<char>, rest: Seq<char>)
    requires
        !key.contains(':'),
        !key.contains('\n'),
        !value.contains('\n'),
    ensures
        !same_ignoring_case(key, "content-length"@) ==> content_length(
            key + seq![':'] + value + seq!['\r', '\n'] + rest,
        ) == content_length(rest),
        content_length(key + seq!['\r', '\n'] + rest) == content_length(rest),
{
    let line = key + seq![':'] + value;
    assert forall|j: int| 0 <= j < line.len() implies line[j] != '\n' by {
        if j < key.len() {
            assert(key.contains(key[j]));
        } else if j > key.len() {
            assert(value.contains(value[j - key.len() - 1]));
        }
    }
    law_a_line_ends_at_its_return(line, rest);
    law_a_line_ends_at_its_return(key, rest);
    law_the_first_field_counts("content-length"@, key, value, lines(rest));
}

/// A `Content-Length` line that holds no number announces nothing, whatever follows it.
pub proof fn law_a_length_that_is_none(key: Seq<char>, value: Seq<char>, rest: Seq<char>)
    requires
        same_ignoring_case(key, "content-length"@),
        !key.contains(':'),
        !key.contains('\n'),
        !value.contains('\n'),
        parse_unsigned(trim(value), usize::MAX as nat) is None,
    ensures
        content_length(key + seq![':'] + value + seq!['\r', '\n'] + rest) is None,
{
    let line = key + seq![':'] + value;
    assert forall|j: int| 0 <= j < line.len() implies line[j] != '\n' by {
        if j < key.len() {
            assert(key.contains(key[j]));
        } else if j > key.len() {
            assert(value.contains(value[j - key.len() - 1]));
        }
    }
    law_a_line_ends_at_its_return(line, rest);
    law_the_first_field_counts("content-length"@, key, value, lines(rest));
}

} // verus!
