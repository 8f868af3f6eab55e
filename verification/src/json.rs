//! JSON values as the logic reads and writes them.
//!
//! `Json` is what the code holds, `JsonView` what the contracts speak of. Reading JSON text into a
//! value and writing a value as text are left to `serde_json`; looking into values and building
//! them is done here. Numbers of double precision are held as their bits and their displayed text,
//! which is all that is ever asked of them.
use crate::text::same;
use serde_json::{Number, Value};
use vstd::prelude::*;

verus! {

// ---------------------------------------------------------------------------
// Doubles
// ---------------------------------------------------------------------------

/// A number of double precision: its bits, and the text that it displays as.
#[derive(Debug, Clone, PartialEq, Eq)]
pub struct Real {
    pub bits: u64,
    pub text: String,
}

/// What a [`Real`] holds.
pub struct RealView {
    pub bits: u64,
    pub text: Seq<char>,
}

impl View for Real {
    type V = RealView;

    open spec fn view(&self) -> RealView {
        RealView { bits: self.bits, text: self.text@ }
    }
}

/// The bits without the sign.
pub open spec fn magnitude(bits: u64) -> int {
    if bits >= 0x8000_0000_0000_0000 {
        bits - 0x8000_0000_0000_0000
    } else {
        bits as int
    }
}

/// Whether the bits stand for no number.
pub open spec fn is_nan(bits: u64) -> bool {
    magnitude(bits) > 0x7ff0_0000_0000_0000
}

/// Whether the bits stand for a number that is not infinite.
pub open spec fn is_finite(bits: u64) -> bool {
    magnitude(bits) < 0x7ff0_0000_0000_0000
}

/// An integer that orders the doubles as their values do; both zeros have rank zero.
pub open spec fn rank(bits: u64) -> int {
    if bits >= 0x8000_0000_0000_0000 {
        -magnitude(bits)
    } else {
        magnitude(bits)
    }
}

/// Whether the first double is less than the second; a comparison with no number is false.
pub open spec fn less(a: u64, b: u64) -> bool {
    &&& !is_nan(a)
    &&& !is_nan(b)
    &&& rank(a) < rank(b)
}

/// Whether a double is greater than zero.
pub open spec fn positive(bits: u64) -> bool {
    less(0, bits)
}

impl Real {
    /// Zero.
    pub fn zero() -> (r: Real)
        ensures
            r@ == zero_view(),
    {
        Real { bits: 0, text: "0".to_owned() }
    }

    /// Whether this is less than `other`.
    pub fn less_than(&self, other: &Real) -> (r: bool)
        ensures
            r == less(self.bits, other.bits),
    {
        let a = rank_of(self.bits);
        let b = rank_of(other.bits);
        match (a, b) {
            (Some(x), Some(y)) => x < y,
            _ => false,
        }
    }

    /// Whether this is greater than zero.
    pub fn is_positive(&self) -> (r: bool)
        ensures
            r == positive(self.bits),
    {
        match rank_of(self.bits) {
            Some(x) => x > 0,
            None => false,
        }
    }

    /// Whether this is a number that is not infinite.
    pub fn is_finite(&self) -> (r: bool)
        ensures
            r == is_finite(self.bits),
    {
        if self.bits >= 0x8000_0000_0000_0000 {
            self.bits - 0x8000_0000_0000_0000 < 0x7ff0_0000_0000_0000
        } else {
            self.bits < 0x7ff0_0000_0000_0000
        }
    }

    /// The same number again.
    pub fn copy(&self) -> (r: Real)
        ensures
            r@ == self@,
    {
        Real { bits: self.bits, text: self.text.clone() }
    }
}

/// What zero holds.
pub open spec fn zero_view() -> RealView {
    RealView { bits: 0, text: "0"@ }
}

fn rank_of(bits: u64) -> (r: Option<i64>)
    ensures
        match r {
            Some(x) => !is_nan(bits) && x == rank(bits),
            None => is_nan(bits),
        },
{
    let negative = bits >= 0x8000_0000_0000_0000;
    let size: u64 = if negative {
        bits - 0x8000_0000_0000_0000
    } else {
        bits
    };
    if size > 0x7ff0_0000_0000_0000 {
        None
    } else if negative {
        Some(-(size as i64))
    } else {
        Some(size as i64)
    }
}

// ---------------------------------------------------------------------------
// Values
// ---------------------------------------------------------------------------

/// A JSON value.
#[derive(Debug, PartialEq, Eq)]
pub enum Json {
    Null,
    Bool(bool),
    Int(i128),
    Float(Real),
    Str(String),
    Array(Vec<Json>),
    Object(Vec<Member>),
}

/// A member of an object. Of two members with one key the later one counts.
#[derive(Debug, PartialEq, Eq)]
pub struct Member {
    pub key: String,
    pub value: Json,
}

/// What a [`Json`] value holds.
pub enum JsonView {
    Null,
    Bool(bool),
    Int(int),
    Float(RealView),
    Str(Seq<char>),
    Array(Seq<JsonView>),
    Object(Map<Seq<char>, JsonView>),
}

impl Json {
    pub open spec fn view(&self) -> JsonView
        decreases self,
    {
        match self {
            Json::Null => JsonView::Null,
            Json::Bool(b) => JsonView::Bool(*b),
            Json::Int(n) => JsonView::Int(*n as int),
            Json::Float(x) => JsonView::Float(x@),
            Json::Str(s) => JsonView::Str(s@),
            Json::Array(items) => JsonView::Array(views(items@)),
            Json::Object(members) => JsonView::Object(members_view(members@)),
        }
    }
}

/// What each of some values holds.
pub open spec fn views(items: Seq<Json>) -> Seq<JsonView>
    decreases items,
{
    Seq::new(
        items.len(),
        |i: int|
            if 0 <= i < items.len() {
                items[i].view()
            } else {
                JsonView::Null
            },
    )
}

/// What the members of an object hold.
pub open spec fn members_view(members: Seq<Member>) -> Map<Seq<char>, JsonView>
    decreases members,
{
    if members.len() == 0 {
        Map::empty()
    } else {
        members_view(members.drop_last()).insert(members.last().key@, members.last().value.view())
    }
}

impl JsonView {
    /// The member of that key, where this is an object that has one.
    pub open spec fn get(self, key: Seq<char>) -> Option<JsonView> {
        match self {
            JsonView::Object(m) if m.contains_key(key) => Some(m[key]),
            _ => None,
        }
    }

    /// The text, where this is one.
    pub open spec fn as_str(self) -> Option<Seq<char>> {
        match self {
            JsonView::Str(s) => Some(s),
            _ => None,
        }
    }

    /// The truth value, where this is one.
    pub open spec fn as_bool(self) -> Option<bool> {
        match self {
            JsonView::Bool(b) => Some(b),
            _ => None,
        }
    }

    /// The integer, where this is one that fits a signed word.
    pub open spec fn as_i64(self) -> Option<int> {
        match self {
            JsonView::Int(n) if i64::MIN <= n <= i64::MAX => Some(n),
            _ => None,
        }
    }

    /// The integer, where this is one that fits an unsigned word.
    pub open spec fn as_u64(self) -> Option<int> {
        match self {
            JsonView::Int(n) if 0 <= n <= u64::MAX => Some(n),
            _ => None,
        }
    }

    /// The nearest double, where this is a number.
    pub open spec fn as_f64(self) -> Option<RealView> {
        match self {
            JsonView::Float(x) => Some(x),
            JsonView::Int(n) if in_range(n) => Some(
                RealView { bits: int_double(n), text: double_text(int_double(n)) },
            ),
            _ => None,
        }
    }

    /// The items, where this is an array.
    pub open spec fn as_array(self) -> Option<Seq<JsonView>> {
        match self {
            JsonView::Array(items) => Some(items),
            _ => None,
        }
    }

    /// The object without members.
    pub open spec fn object() -> JsonView {
        JsonView::Object(Map::empty())
    }

    /// This object with one member set.
    pub open spec fn with(self, key: Seq<char>, value: JsonView) -> JsonView {
        match self {
            JsonView::Object(m) => JsonView::Object(m.insert(key, value)),
            _ => self,
        }
    }

    /// The text of that member, or the empty text.
    pub open spec fn text_at(self, key: Seq<char>) -> Seq<char> {
        match self.get(key) {
            Some(v) => match v.as_str() {
                Some(s) => s,
                None => seq![],
            },
            None => seq![],
        }
    }

    /// The integer of that member, where it has one that fits a signed word.
    pub open spec fn int_at(self, key: Seq<char>) -> Option<int> {
        match self.get(key) {
            Some(v) => v.as_i64(),
            None => None,
        }
    }

    /// The truth value of that member, where it has one.
    pub open spec fn bool_at(self, key: Seq<char>) -> Option<bool> {
        match self.get(key) {
            Some(v) => v.as_bool(),
            None => None,
        }
    }

    /// That member, or null.
    pub open spec fn at(self, key: Seq<char>) -> JsonView {
        or_null(self.get(key))
    }
}

/// A value, or null where there is none.
pub open spec fn or_null(v: Option<JsonView>) -> JsonView {
    match v {
        Some(x) => x,
        None => JsonView::Null,
    }
}

/// The integers that a JSON number can be.
pub open spec fn in_range(n: int) -> bool {
    i64::MIN <= n <= u64::MAX
}

/// Whether a value is one that JSON text can hold: integers of a word, finite doubles with their
/// own text.
pub open spec fn sound(v: JsonView) -> bool
    decreases v,
{
    match v {
        JsonView::Int(n) => in_range(n),
        JsonView::Float(x) => is_finite(x.bits) && x.text == double_text(x.bits),
        JsonView::Array(items) => forall|i: int| 0 <= i < items.len() ==> sound(#[trigger] items[i]),
        JsonView::Object(m) => forall|k: Seq<char>| #[trigger]
            m.contains_key(k) ==> sound(m[k]),
        _ => true,
    }
}

proof fn lemma_members_last(members: Seq<Member>, i: int, key: Seq<char>)
    requires
        0 <= i <= members.len(),
        forall|j: int| i <= j < members.len() ==> (#[trigger] members[j]).key@ != key,
    ensures
        members_view(members).contains_key(key) == members_view(members.take(i)).contains_key(key),
        members_view(members).contains_key(key) ==> members_view(members)[key] == members_view(
            members.take(i),
        )[key],
    decreases members.len(),
{
    if i < members.len() {
        lemma_members_last(members.drop_last(), i, key);
        assert(members.drop_last().take(i) =~= members.take(i));
    } else {
        assert(members.take(i) =~= members);
    }
}

proof fn lemma_members_replace(members: Seq<Member>, i: int, value: Json)
    requires
        0 <= i < members.len(),
        forall|j: int| i < j < members.len() ==> (#[trigger] members[j]).key@ != members[i].key@,
    ensures
        members_view(members.update(i, Member { key: members[i].key, value })) == members_view(
            members,
        ).insert(members[i].key@, value@),
    decreases members.len(),
{
    let changed = members.update(i, Member { key: members[i].key, value });
    if i == members.len() - 1 {
        assert(changed.drop_last() =~= members.drop_last());
        assert(members_view(changed) =~= members_view(members).insert(members[i].key@, value@));
    } else {
        lemma_members_replace(members.drop_last(), i, value);
        assert(changed.drop_last() =~= members.drop_last().update(
            i,
            Member { key: members[i].key, value },
        ));
        assert(changed.last() == members.last());
        assert(members_view(changed) =~= members_view(members).insert(members[i].key@, value@));
    }
}

/// Whether the reference is to what the view holds: both there, or both not.
pub open spec fn refers(r: Option<&Json>, v: Option<JsonView>) -> bool {
    match r {
        Some(x) => v == Some(x@),
        None => v is None,
    }
}

impl Json {
    /// The same value again.
    pub fn copy(&self) -> (r: Json)
        ensures
            r@ == self@,
        decreases self,
    {
        match self {
            Json::Null => Json::Null,
            Json::Bool(b) => Json::Bool(*b),
            Json::Int(n) => Json::Int(*n),
            Json::Float(x) => Json::Float(x.copy()),
            Json::Str(s) => Json::Str(s.clone()),
            Json::Array(items) => {
                let mut out: Vec<Json> = Vec::new();
                let mut i: usize = 0;
                while i < items.len()
                    invariant
                        i <= items@.len(),
                        out@.len() == i,
                        *self == Json::Array(*items),
                        forall|j: int| 0 <= j < i ==> (#[trigger] out@[j])@ == items@[j]@,
                    decreases items@.len() - i,
                {
                    assert(decreases_to!(*self => self->Array_0));
                    assert(decreases_to!(self->Array_0 => self->Array_0@));
                    assert(decreases_to!(self->Array_0@ => self->Array_0@[i as int]));
                    out.push(items[i].copy());
                    i += 1;
                }
                assert(views(out@) =~= views(items@));
                Json::Array(out)
            },
            Json::Object(members) => {
                let mut out: Vec<Member> = Vec::new();
                let mut i: usize = 0;
                while i < members.len()
                    invariant
                        i <= members@.len(),
                        out@.len() == i,
                        *self == Json::Object(*members),
                        members_view(out@) == members_view(members@.take(i as int)),
                    decreases members@.len() - i,
                {
                    let ghost before = out@;
                    assert(decreases_to!(*self => self->Object_0));
                    assert(decreases_to!(self->Object_0 => self->Object_0@));
                    assert(decreases_to!(self->Object_0@ => self->Object_0@[i as int]));
                    assert(decreases_to!(self->Object_0@[i as int] => self->Object_0@[i as int].value));
                    let value = members[i].value.copy();
                    out.push(Member { key: members[i].key.clone(), value });
                    proof {
                        assert(out@.drop_last() =~= before);
                        assert(members@.take(i + 1).drop_last() =~= members@.take(i as int));
                    }
                    i += 1;
                }
                assert(members@.take(i as int) =~= members@);
                Json::Object(out)
            },
        }
    }

    /// The member of that key, where this is an object that has one.
    pub fn get(&self, key: &str) -> (r: Option<&Json>)
        ensures
            refers(r, self@.get(key@)),
    {
        match self {
            Json::Object(members) => {
                let mut i: usize = members.len();
                while i > 0
                    invariant
                        i <= members@.len(),
                        *self == Json::Object(*members),
                        forall|j: int|
                            i <= j < members@.len() ==> (#[trigger] members@[j]).key@ != key@,
                    decreases i,
                {
                    if same(members[i - 1].key.as_str(), key) {
                        proof {
                            lemma_members_last(members@, i as int, key@);
                            let upto = members@.take(i as int);
                            assert(upto.last() == members@[i - 1]);
                        }
                        return Some(&members[i - 1].value);
                    }
                    i -= 1;
                }
                proof {
                    lemma_members_last(members@, 0, key@);
                    assert(members_view(members@.take(0)) =~= Map::empty());
                }
                None
            },
            _ => None,
        }
    }

    /// The text, where this is one.
    pub fn as_str(&self) -> (r: Option<&str>)
        ensures
            match r {
                Some(s) => self@.as_str() == Some(s@),
                None => self@.as_str() is None,
            },
    {
        match self {
            Json::Str(s) => Some(s.as_str()),
            _ => None,
        }
    }

    /// The truth value, where this is one.
    pub fn as_bool(&self) -> (r: Option<bool>)
        ensures
            r == self@.as_bool(),
    {
        match self {
            Json::Bool(b) => Some(*b),
            _ => None,
        }
    }

    /// The integer, where this is one that fits a signed word.
    pub fn as_i64(&self) -> (r: Option<i64>)
        ensures
            match r {
                Some(n) => self@.as_i64() == Some(n as int),
                None => self@.as_i64() is None,
            },
    {
        match self {
            Json::Int(n) => if i64::MIN as i128 <= *n && *n <= i64::MAX as i128 {
                Some(*n as i64)
            } else {
                None
            },
            _ => None,
        }
    }

    /// The integer, where this is one that fits an unsigned word.
    pub fn as_u64(&self) -> (r: Option<u64>)
        ensures
            match r {
                Some(n) => self@.as_u64() == Some(n as int),
                None => self@.as_u64() is None,
            },
    {
        match self {
            Json::Int(n) => if 0 <= *n && *n <= u64::MAX as i128 {
                Some(*n as u64)
            } else {
                None
            },
            _ => None,
        }
    }

    /// The nearest double, where this is a number.
    pub fn as_f64(&self) -> (r: Option<Real>)
        ensures
            match r {
                Some(x) => self@.as_f64() == Some(x@),
                None => self@.as_f64() is None,
            },
    {
        match self {
            Json::Float(x) => Some(x.copy()),
            Json::Int(n) => if i64::MIN as i128 <= *n && *n <= u64::MAX as i128 {
                Some(int_as_double(*n))
            } else {
                None
            },
            _ => None,
        }
    }

    /// The items, where this is an array.
    pub fn as_array(&self) -> (r: Option<&Vec<Json>>)
        ensures
            match r {
                Some(items) => self@.as_array() == Some(views(items@)),
                None => self@.as_array() is None,
            },
    {
        match self {
            Json::Array(items) => Some(items),
            _ => None,
        }
    }

    /// The object without members.
    pub fn object() -> (r: Json)
        ensures
            r@ == JsonView::object(),
    {
        Json::Object(Vec::new())
    }

    /// This object with one member set.
    pub fn with(self, key: &str, value: Json) -> (r: Json)
        requires
            self@ is Object,
        ensures
            r@ == self@.with(key@, value@),
            r@ is Object,
    {
        match self {
            Json::Object(members) => {
                let mut members = members;
                let ghost before = members@;
                let mut i: usize = members.len();
                while i > 0
                    invariant
                        i <= members@.len(),
                        members@ == before,
                        self@ == JsonView::Object(members_view(before)),
                        forall|j: int|
                            i <= j < members@.len() ==> (#[trigger] members@[j]).key@ != key@,
                    decreases i,
                {
                    if same(members[i - 1].key.as_str(), key) {
                        let kept = members[i - 1].key.clone();
                        proof {
                            lemma_members_replace(members@, i - 1, value);
                        }
                        members[i - 1] = Member { key: kept, value };
                        return Json::Object(members);
                    }
                    i -= 1;
                }
                members.push(Member { key: key.to_owned(), value });
                assert(members@.drop_last() =~= before);
                Json::Object(members)
            },
            other => other,
        }
    }

    /// A text value.
    pub fn text(s: &str) -> (r: Json)
        ensures
            r@ == JsonView::Str(s@),
    {
        Json::Str(s.to_owned())
    }

    /// The text of that member, or the empty text.
    pub fn text_at(&self, key: &str) -> (r: String)
        ensures
            r@ == self@.text_at(key@),
    {
        match self.get(key) {
            Some(v) => match v.as_str() {
                Some(s) => s.to_owned(),
                None => String::new(),
            },
            None => String::new(),
        }
    }

    /// The integer of that member, where it has one that fits a signed word.
    pub fn int_at(&self, key: &str) -> (r: Option<i64>)
        ensures
            match r {
                Some(n) => self@.int_at(key@) == Some(n as int),
                None => self@.int_at(key@) is None,
            },
    {
        match self.get(key) {
            Some(v) => v.as_i64(),
            None => None,
        }
    }

    /// The truth value of that member, where it has one.
    pub fn bool_at(&self, key: &str) -> (r: Option<bool>)
        ensures
            r == self@.bool_at(key@),
    {
        match self.get(key) {
            Some(v) => v.as_bool(),
            None => None,
        }
    }

    /// A copy of that member, or null.
    pub fn at(&self, key: &str) -> (r: Json)
        ensures
            r@ == self@.at(key@),
    {
        match self.get(key) {
            Some(v) => v.copy(),
            None => Json::Null,
        }
    }
}

/// Copies of some values, in their order.
pub fn copy_all(items: &Vec<Json>) -> (r: Vec<Json>)
    ensures
        views(r@) == views(items@),
{
    let mut out: Vec<Json> = Vec::new();
    let mut i: usize = 0;
    while i < items.len()
        invariant
            i <= items@.len(),
            out@.len() == i,
            forall|j: int| 0 <= j < i ==> (#[trigger] out@[j])@ == items@[j]@,
        decreases items@.len() - i,
    {
        out.push(items[i].copy());
        i += 1;
    }
    assert(views(out@) =~= views(items@));
    out
}

/// A member that was set is the member that is read; every other member stays as it was.
pub proof fn law_with_then_get(v: JsonView, key: Seq<char>, value: JsonView, other: Seq<char>)
    requires
        v is Object,
    ensures
        v.with(key, value).get(key) == Some(value),
        other != key ==> v.with(key, value).get(other) == v.get(other),
{
}

/// A sound object stays sound when a sound member is set.
pub proof fn lemma_sound_with(v: JsonView, key: Seq<char>, value: JsonView)
    requires
        v is Object,
        sound(v),
        sound(value),
    ensures
        sound(v.with(key, value)),
{
    let m = v->Object_0;
    let n = m.insert(key, value);
    assert forall|k: Seq<char>| #[trigger] n.contains_key(k) implies sound(n[k]) by {
        if k != key {
            assert(m.contains_key(k));
        }
    }
}

/// The place of the first item for which `p` holds, or nothing.
pub open spec fn first_that(items: Seq<JsonView>, p: spec_fn(JsonView) -> bool) -> Option<int>
    decreases items.len(),
{
    if items.len() == 0 {
        None
    } else if p(items[0]) {
        Some(0)
    } else {
        match first_that(items.skip(1), p) {
            Some(i) => Some(i + 1),
            None => None,
        }
    }
}

/// The first place is `i` where `p` holds there and nowhere before, and nothing where it holds
/// nowhere.
pub proof fn lemma_first_that(items: Seq<JsonView>, p: spec_fn(JsonView) -> bool, i: int)
    requires
        0 <= i <= items.len(),
        forall|j: int| 0 <= j < i ==> !p(#[trigger] items[j]),
        i < items.len() ==> p(items[i]),
    ensures
        first_that(items, p) == (if i < items.len() {
            Some(i)
        } else {
            None::<int>
        }),
    decreases items.len(),
{
    if items.len() > 0 && i > 0 {
        assert(!p(items[0]));
        assert forall|j: int| 0 <= j < i - 1 implies !p(#[trigger] items.skip(1)[j]) by {
            assert(items.skip(1)[j] == items[j + 1]);
        }
        lemma_first_that(items.skip(1), p, i - 1);
    }
}

/// The first place is one where `p` holds, and it holds nowhere before; where there is none it holds
/// nowhere.
pub proof fn lemma_first_that_holds(items: Seq<JsonView>, p: spec_fn(JsonView) -> bool)
    ensures
        match first_that(items, p) {
            Some(i) => {
                &&& 0 <= i < items.len()
                &&& p(items[i])
                &&& forall|j: int| 0 <= j < i ==> !p(#[trigger] items[j])
            },
            None => forall|j: int| 0 <= j < items.len() ==> !p(#[trigger] items[j]),
        },
    decreases items.len(),
{
    if items.len() > 0 && !p(items[0]) {
        let rest = items.skip(1);
        lemma_first_that_holds(rest, p);
        match first_that(rest, p) {
            Some(i) => {
                assert forall|j: int| 0 <= j < i + 1 implies !p(#[trigger] items[j]) by {
                    if j > 0 {
                        assert(items[j] == rest[j - 1]);
                    }
                }
            },
            None => {
                assert forall|j: int| 0 <= j < items.len() implies !p(#[trigger] items[j]) by {
                    if j > 0 {
                        assert(items[j] == rest[j - 1]);
                    }
                }
            },
        }
    }
}

// ---------------------------------------------------------------------------
// Text and values: `serde_json`
// ---------------------------------------------------------------------------

/// A value as `serde_json` holds it.
#[verifier::external_type_specification]
#[verifier::external_body]
pub struct ExValue(serde_json::Value);

/// What a value of `serde_json` holds: its tree, with numbers as integers where they are held as
/// such and as doubles otherwise.
pub uninterp spec fn value_contents(v: Value) -> JsonView;

/// The display text of the double with those bits.
pub uninterp spec fn double_text(bits: u64) -> Seq<char>;

/// The bits of the double nearest to an integer.
pub uninterp spec fn int_double(n: int) -> u64;

/// What `serde_json` reads from a text: a value, or its message where the text is none.
pub uninterp spec fn parsed(text: Seq<char>) -> Result<JsonView, Seq<char>>;

/// What `serde_json` reads from a text that should be an array.
pub uninterp spec fn parsed_list(text: Seq<char>) -> Result<Seq<JsonView>, Seq<char>>;

/// The compact text that `serde_json` displays a value as.
pub uninterp spec fn displayed(v: JsonView) -> Seq<char>;

/// Reads a text with `serde_json::from_str` as a value; an error is reduced to its message.
#[verifier::external_body]
fn parse_value(text: &str) -> (r: Result<Value, String>)
    ensures
        match r {
            Ok(v) => parsed(text@) == Ok::<JsonView, Seq<char>>(value_contents(v)),
            Err(e) => parsed(text@) == Err::<JsonView, Seq<char>>(e@),
        },
{
    serde_json::from_str::<Value>(text).map_err(|e| e.to_string())
}

/// Reads a text with `serde_json::from_str` as an array of values; an error is reduced to its
/// message.
#[verifier::external_body]
fn parse_values(text: &str) -> (r: Result<Vec<Value>, String>)
    ensures
        match r {
            Ok(vs) => parsed_list(text@) == Ok::<Seq<JsonView>, Seq<char>>(
                vs@.map_values(|v: Value| value_contents(v)),
            ),
            Err(e) => parsed_list(text@) == Err::<Seq<JsonView>, Seq<char>>(e@),
        },
{
    serde_json::from_str::<Vec<Value>>(text).map_err(|e| e.to_string())
}

/// Turns a `serde_json::Value` into a [`Json`] value with the same contents, variant by variant.
/// `Number::as_i128` gives the integers, which are those of a signed or an unsigned word;
/// `Number::as_f64` gives every other number, which is a finite double.
#[verifier::external_body]
fn from_value(v: &Value) -> (r: Json)
    ensures
        r@ == value_contents(*v),
        sound(r@),
{
    match v {
        Value::Null => Json::Null,
        Value::Bool(b) => Json::Bool(*b),
        Value::Number(n) => match n.as_i128() {
            Some(i) => Json::Int(i),
            None => n.as_f64().map(|x| Json::Float(Real { bits: x.to_bits(), text: x.to_string() })).unwrap(),
        },
        Value::String(s) => Json::Str(s.clone()),
        Value::Array(a) => Json::Array(a.iter().map(from_value).collect()),
        Value::Object(m) => Json::Object(
            m.iter().map(|(k, v)| Member { key: k.clone(), value: from_value(v) }).collect(),
        ),
    }
}

/// Turns a [`Json`] value into a `serde_json::Value`, variant by variant. A sound value keeps its
/// contents: `Number::from_i128` holds every integer of a word, and the text of a finite double
/// reads back as the double that `Number::from_f64` then holds. The members of an object go in
/// their order through `Map::insert`, by which the later of two with one key counts. Of other
/// values nothing is said.
#[verifier::external_body]
fn to_value(v: &Json) -> (r: Value)
    ensures
        sound(v@) ==> value_contents(r) == v@,
{
    match v {
        Json::Null => Value::Null,
        Json::Bool(b) => Value::Bool(*b),
        Json::Int(n) => Number::from_i128(*n).into(),
        Json::Float(x) => x.text.parse().ok().and_then(Number::from_f64).into(),
        Json::Str(s) => Value::String(s.clone()),
        Json::Array(a) => a.iter().map(to_value).collect(),
        Json::Object(m) => {
            let mut o = serde_json::Map::new();
            m.iter().for_each(|e| drop(o.insert(e.key.clone(), to_value(&e.value))));
            o.into()
        },
    }
}

/// Writes a value with the `Display` of `serde_json::Value`, the compact form.
#[verifier::external_body]
fn display_value(v: &Value) -> (r: String)
    ensures
        r@ == displayed(value_contents(*v)),
{
    v.to_string()
}

/// The double nearest to an integer, by `serde_json::Number::as_f64`. It has the sign of the
/// integer, and its text is that of its bits.
#[verifier::external_body]
fn int_as_double(n: i128) -> (r: Real)
    requires
        in_range(n as int),
    ensures
        r.bits == int_double(n as int),
        r.text@ == double_text(r.bits),
        is_finite(r.bits),
        n > 0 <==> rank(r.bits) > 0,
        n < 0 <==> rank(r.bits) < 0,
{
    Number::from_i128(n).and_then(|x| x.as_f64()).map(|x| Real { bits: x.to_bits(), text: x.to_string() }).unwrap()
}

/// The value that a value of `serde_json` holds.
pub fn read_value(v: &Value) -> (r: Json)
    ensures
        r@ == value_contents(*v),
        sound(r@),
{
    from_value(v)
}

/// A value as `serde_json` holds it.
pub fn write_value(v: &Json) -> (r: Value)
    ensures
        sound(v@) ==> value_contents(r) == v@,
{
    to_value(v)
}

/// Reads a text as a JSON value, or gives the reason why it is none.
pub fn parse(text: &str) -> (r: Result<Json, String>)
    ensures
        match r {
            Ok(v) => parsed(text@) == Ok::<JsonView, Seq<char>>(v@) && sound(v@),
            Err(e) => parsed(text@) == Err::<JsonView, Seq<char>>(e@),
        },
{
    match parse_value(text) {
        Ok(v) => Ok(from_value(&v)),
        Err(e) => Err(e),
    }
}

/// Reads a text as an array of JSON values, or gives the reason why it is none.
pub fn parse_list(text: &str) -> (r: Result<Vec<Json>, String>)
    ensures
        match r {
            Ok(vs) => parsed_list(text@) == Ok::<Seq<JsonView>, Seq<char>>(views(vs@)),
            Err(e) => parsed_list(text@) == Err::<Seq<JsonView>, Seq<char>>(e@),
        },
{
    match parse_values(text) {
        Ok(vs) => {
            let mut out: Vec<Json> = Vec::new();
            let mut i: usize = 0;
            while i < vs.len()
                invariant
                    i <= vs@.len(),
                    out@.len() == i,
                    forall|j: int| 0 <= j < i ==> (#[trigger] out@[j])@ == value_contents(vs@[j]),
                decreases vs@.len() - i,
            {
                out.push(from_value(&vs[i]));
                i += 1;
            }
            assert(views(out@) =~= vs@.map_values(|v: Value| value_contents(v)));
            Ok(out)
        },
        Err(e) => Err(e),
    }
}

/// Writes a value as compact JSON text.
pub fn render(v: &Json) -> (r: String)
    ensures
        sound(v@) ==> r@ == displayed(v@),
{
    display_value(&to_value(v))
}

} // verus!
