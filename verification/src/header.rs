//! The head of an HTTP message as a client reads it: lines, fields, field values.
use crate::text::{
    chars_of, find_from, first_index, lemma_first_index, parse_unsigned, part, read_unsigned,
};
use vstd::prelude::*;

verus! {

/// A line without the carriage return that belongs to its line end.
pub open spec fn strip_return(line: Seq<char>) -> Seq<char> {
    if line.len() > 0 && line.last() == '\r' {
        line.drop_last()
    } else {
        line
    }
}

/// The lines of a text. A line ends at a line feed, which a carriage return may precede; the last
/// line may lack its end, and then keeps a trailing carriage return.
pub open spec fn lines(s: Seq<char>) -> Seq<Seq<char>>
    decreases s.len(),
    via lines_decreases
{
    if s.len() == 0 {
        seq![]
    } else {
        match first_index(s, '\n') {
            Some(i) => seq![strip_return(s.take(i))] + lines(s.skip(i + 1)),
            None => seq![s],
        }
    }
}

#[via_fn]
proof fn lines_decreases(s: Seq<char>) {
    lemma_first_index(s, '\n');
}

/// A field line split at its first colon, or nothing where there is none.
pub open spec fn split_field(line: Seq<char>) -> Option<(Seq<char>, Seq<char>)> {
    match first_index(line, ':') {
        Some(i) => Some((line.take(i), line.skip(i + 1))),
        None => None,
    }
}

/// An ASCII letter in lower case; any other character as it is.
pub open spec fn ascii_lower(c: char) -> char {
    if 'A' <= c <= 'Z' {
        (c as u32 + 32) as u32 as char
    } else {
        c
    }
}

/// Whether two texts differ at most in the case of ASCII letters.
pub open spec fn same_ignoring_case(a: Seq<char>, b: Seq<char>) -> bool {
    &&& a.len() == b.len()
    &&& forall|i: int| 0 <= i < a.len() ==> ascii_lower(#[trigger] a[i]) == ascii_lower(b[i])
}

/// The characters with the Unicode property `White_Space`.
pub open spec fn is_space(c: char) -> bool {
    let u = c as u32;
    ||| 0x9 <= u <= 0xd
    ||| u == 0x20
    ||| u == 0x85
    ||| u == 0xa0
    ||| u == 0x1680
    ||| 0x2000 <= u <= 0x200a
    ||| u == 0x2028
    ||| u == 0x2029
    ||| u == 0x202f
    ||| u == 0x205f
    ||| u == 0x3000
}

/// A text without the white space before it.
pub open spec fn trim_start(s: Seq<char>) -> Seq<char>
    decreases s.len(),
{
    if s.len() > 0 && is_space(s[0]) {
        trim_start(s.skip(1))
    } else {
        s
    }
}

/// A text without the white space after it.
pub open spec fn trim_end(s: Seq<char>) -> Seq<char>
    decreases s.len(),
{
    if s.len() > 0 && is_space(s.last()) {
        trim_end(s.drop_last())
    } else {
        s
    }
}

/// A text without the white space around it.
pub open spec fn trim(s: Seq<char>) -> Seq<char> {
    trim_end(trim_start(s))
}

/// The value of the first field of that name, untrimmed.
pub open spec fn field_value(ls: Seq<Seq<char>>, name: Seq<char>) -> Option<Seq<char>>
    decreases ls.len(),
{
    if ls.len() == 0 {
        None
    } else {
        match split_field(ls[0]) {
            Some((k, v)) if same_ignoring_case(k, name) => Some(v),
            _ => field_value(ls.skip(1), name),
        }
    }
}

/// The body length that a head announces.
pub open spec fn content_length(head: Seq<char>) -> Option<nat> {
    match field_value(lines(head), "content-length"@) {
        Some(v) => parse_unsigned(trim(v), usize::MAX as nat),
        None => None,
    }
}

/// Whether some field of that name holds exactly `value`.
pub open spec fn has_field(ls: Seq<Seq<char>>, name: Seq<char>, value: Seq<char>) -> bool
    decreases ls.len(),
{
    if ls.len() == 0 {
        false
    } else {
        ||| (split_field(ls[0]) matches Some((k, v)) && same_ignoring_case(k, name) && trim(v)
            == value)
        ||| has_field(ls.skip(1), name, value)
    }
}

/// Two positions in a text with `start <= end`: the part between them.
#[derive(Clone, Copy)]
pub struct Span {
    pub start: usize,
    pub end: usize,
}

impl Span {
    /// Whether the span lies in a text of that length.
    pub open spec fn within(self, len: nat) -> bool {
        self.start <= self.end <= len
    }

    /// The characters that the span covers.
    pub open spec fn of(self, s: Seq<char>) -> Seq<char> {
        s.subrange(self.start as int, self.end as int)
    }
}

/// The parts of a text that some spans cover.
pub open spec fn spans_of(spans: Seq<Span>, s: Seq<char>) -> Seq<Seq<char>> {
    spans.map_values(|x: Span| x.of(s))
}

/// The spans of the lines of a text.
pub fn line_spans(s: &Vec<char>) -> (r: Vec<Span>)
    ensures
        spans_of(r@, s@) == lines(s@),
        forall|i: int| 0 <= i < r@.len() ==> (#[trigger] r@[i]).within(s@.len()),
{
    let mut out: Vec<Span> = Vec::new();
    let mut start: usize = 0;
    assert(s@.skip(0) =~= s@);
    assert(spans_of(out@, s@) + lines(s@) =~= lines(s@));
    while start < s.len()
        invariant
            start <= s@.len(),
            spans_of(out@, s@) + lines(s@.skip(start as int)) == lines(s@),
            forall|i: int| 0 <= i < out@.len() ==> (#[trigger] out@[i]).within(s@.len()),
        decreases s@.len() - start,
    {
        let stop = find_from(s, '\n', start, s.len());
        let ghost rest = s@.skip(start as int);
        let ghost before = spans_of(out@, s@);
        assert(rest =~= s@.subrange(start as int, s@.len() as int));
        let end: usize = if stop < s.len() && stop > start && s[stop - 1] == '\r' {
            stop - 1
        } else {
            stop
        };
        let span = Span { start, end };
        out.push(span);
        assert(spans_of(out@, s@) =~= before.push(span.of(s@)));
        if stop == s.len() {
            assert(span.of(s@) =~= rest);
            assert(lines(rest) =~= seq![rest]);
            assert(lines(s@.skip(s@.len() as int)) =~= seq![]);
            assert(spans_of(out@, s@) =~= before + lines(rest));
            assert(spans_of(out@, s@) + lines(s@.skip(s@.len() as int)) =~= lines(s@));
            start = s.len();
        } else {
            proof {
                let i = stop - start;
                assert(span.of(s@) =~= strip_return(rest.take(i)));
                assert(rest.skip(i + 1) =~= s@.skip(stop + 1));
                assert(lines(rest) =~= seq![strip_return(rest.take(i))] + lines(s@.skip(stop + 1)));
                assert(spans_of(out@, s@) + lines(s@.skip(stop + 1)) =~= before + lines(rest));
            }
            start = stop + 1;
        }
    }
    assert(s@.skip(start as int) =~= Seq::<char>::empty());
    assert(spans_of(out@, s@) + lines(s@.skip(start as int)) =~= spans_of(out@, s@));
    out
}

fn space(c: char) -> (r: bool)
    ensures
        r == is_space(c),
{
    let u = c as u32;
    (0x9 <= u && u <= 0xd) || u == 0x20 || u == 0x85 || u == 0xa0 || u == 0x1680 || (0x2000 <= u
        && u <= 0x200a) || u == 0x2028 || u == 0x2029 || u == 0x202f || u == 0x205f || u == 0x3000
}

/// The span without the white space at its two ends.
pub fn trim_span(s: &Vec<char>, x: Span) -> (r: Span)
    requires
        x.within(s@.len()),
    ensures
        r.within(s@.len()),
        r.of(s@) == trim(x.of(s@)),
{
    let mut start: usize = x.start;
    while start < x.end && space(s[start])
        invariant
            x.start <= start <= x.end <= s@.len(),
            trim_start(s@.subrange(start as int, x.end as int)) == trim_start(x.of(s@)),
        decreases x.end - start,
    {
        assert(s@.subrange(start as int, x.end as int).skip(1) =~= s@.subrange(
            start + 1,
            x.end as int,
        ));
        start += 1;
    }
    let mut end: usize = x.end;
    assert(s@.subrange(start as int, end as int) == trim_start(x.of(s@)));
    while end > start && space(s[end - 1])
        invariant
            start <= end <= s@.len(),
            trim_end(s@.subrange(start as int, end as int)) == trim(x.of(s@)),
        decreases end - start,
    {
        assert(s@.subrange(start as int, end as int).drop_last() =~= s@.subrange(
            start as int,
            end - 1,
        ));
        end -= 1;
    }
    Span { start, end }
}

fn lower(c: char) -> (r: u32)
    ensures
        r == ascii_lower(c) as u32,
{
    if 'A' <= c && c <= 'Z' {
        c as u32 + 32
    } else {
        c as u32
    }
}

fn span_is_ignoring_case(s: &Vec<char>, x: Span, name: &Vec<char>) -> (r: bool)
    requires
        x.within(s@.len()),
    ensures
        r == same_ignoring_case(x.of(s@), name@),
{
    if x.end - x.start != name.len() {
        return false;
    }
    let mut i: usize = 0;
    while i < name.len()
        invariant
            i <= name@.len(),
            x.within(s.len() as nat),
            x.end - x.start == name@.len(),
            forall|j: int| 0 <= j < i ==> ascii_lower(#[trigger] x.of(s@)[j]) == ascii_lower(name@[j]),
        decreases name@.len() - i,
    {
        assert(x.of(s@)[i as int] == s@[x.start + i]);
        if lower(s[x.start + i]) != lower(name[i]) {
            return false;
        }
        i += 1;
    }
    true
}

fn span_is(s: &Vec<char>, x: Span, text: &Vec<char>) -> (r: bool)
    requires
        x.within(s@.len()),
    ensures
        r == (x.of(s@) == text@),
{
    if x.end - x.start != text.len() {
        return false;
    }
    let mut i: usize = 0;
    while i < text.len()
        invariant
            i <= text@.len(),
            x.within(s.len() as nat),
            x.end - x.start == text@.len(),
            forall|j: int| 0 <= j < i ==> #[trigger] x.of(s@)[j] == text@[j],
        decreases text@.len() - i,
    {
        assert(x.of(s@)[i as int] == s@[x.start + i]);
        if s[x.start + i] != text[i] {
            return false;
        }
        i += 1;
    }
    assert(x.of(s@) =~= text@);
    true
}

/// The value span of a field line of that name, or nothing where the line is no such field.
fn value_span(s: &Vec<char>, x: Span, name: &Vec<char>) -> (r: Option<Span>)
    requires
        x.within(s@.len()),
    ensures
        match split_field(x.of(s@)) {
            Some((k, v)) if same_ignoring_case(k, name@) => r matches Some(y) && y.within(s@.len())
                && y.of(s@) == v,
            _ => r is None,
        },
{
    let colon = find_from(s, ':', x.start, x.end);
    if colon == x.end {
        return None;
    }
    let key = Span { start: x.start, end: colon };
    assert(key.of(s@) =~= x.of(s@).take(colon - x.start));
    if !span_is_ignoring_case(s, key, name) {
        return None;
    }
    let value = Span { start: colon + 1, end: x.end };
    assert(value.of(s@) =~= x.of(s@).skip(colon - x.start + 1));
    Some(value)
}

/// The body length that a head announces: the first `Content-Length` field decides, and a value
/// that is no number announces none.
pub fn read_content_length(head: &str) -> (r: Option<usize>)
    ensures
        match r {
            Some(n) => content_length(head@) == Some(n as nat),
            None => content_length(head@) is None,
        },
{
    let s = chars_of(head);
    let name = chars_of("content-length");
    let spans = line_spans(&s);
    let mut i: usize = 0;
    assert(lines(s@).skip(0) =~= lines(s@));
    while i < spans.len()
        invariant
            i <= spans@.len(),
            s@ == head@,
            name@ == "content-length"@,
            spans_of(spans@, s@) == lines(s@),
            forall|k: int| 0 <= k < spans@.len() ==> (#[trigger] spans@[k]).within(s@.len()),
            field_value(lines(s@).skip(i as int), name@) == field_value(lines(s@), name@),
        decreases spans@.len() - i,
    {
        let ghost rest = lines(s@).skip(i as int);
        assert(rest[0] == spans_of(spans@, s@)[i as int]);
        assert(rest.skip(1) =~= lines(s@).skip(i + 1));
        if let Some(v) = value_span(&s, spans[i], &name) {
            let t = trim_span(&s, v);
            return match read_unsigned(&s, t.start, t.end, usize::MAX as u64) {
                Some(n) => Some(n as usize),
                None => None,
            };
        }
        i += 1;
    }
    assert(lines(s@).skip(i as int) =~= seq![]);
    None
}

/// Whether the head has a field of that name with that value, white space around it aside.
pub fn has_field_value(head: &str, name: &str, value: &str) -> (r: bool)
    ensures
        r == has_field(lines(head@), name@, value@),
{
    let s = chars_of(head);
    let wanted_name = chars_of(name);
    let wanted = chars_of(value);
    let spans = line_spans(&s);
    let mut i: usize = 0;
    assert(lines(s@).skip(0) =~= lines(s@));
    while i < spans.len()
        invariant
            i <= spans@.len(),
            s@ == head@,
            wanted_name@ == name@,
            wanted@ == value@,
            spans_of(spans@, s@) == lines(s@),
            forall|k: int| 0 <= k < spans@.len() ==> (#[trigger] spans@[k]).within(s@.len()),
            has_field(lines(s@).skip(i as int), name@, value@) == has_field(
                lines(s@),
                name@,
                value@,
            ),
        decreases spans@.len() - i,
    {
        let ghost rest = lines(s@).skip(i as int);
        assert(rest[0] == spans_of(spans@, s@)[i as int]);
        assert(rest.skip(1) =~= lines(s@).skip(i + 1));
        if let Some(v) = value_span(&s, spans[i], &wanted_name) {
            let t = trim_span(&s, v);
            if span_is(&s, t, &wanted) {
                return true;
            }
        }
        i += 1;
    }
    assert(lines(s@).skip(i as int) =~= seq![]);
    false
}

/// The first line of a text; a text without lines has an empty one.
pub open spec fn first_line(s: Seq<char>) -> Seq<char> {
    if lines(s).len() > 0 {
        lines(s)[0]
    } else {
        seq![]
    }
}

/// The first line of a text; a text without lines has an empty one.
pub fn read_first_line(s: &str) -> (r: String)
    ensures
        r@ == first_line(s@),
{
    let chars = chars_of(s);
    let spans = line_spans(&chars);
    if spans.len() > 0 {
        assert(lines(s@)[0] == spans_of(spans@, s@)[0]);
        part(s, spans[0].start, spans[0].end)
    } else {
        String::new()
    }
}

} // verus!
