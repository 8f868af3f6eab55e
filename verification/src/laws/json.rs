//! JSON values and doubles.
use crate::json::{
    double_text, first_that, int_double, is_finite, less, members_view, positive, refers,
    sound, views, zero_view, Json, JsonView, Member, Real, RealView,
};
use vstd::prelude::*;

verus! {

/// What a value holds is what it is made of.
pub proof fn law_what_a_value_holds(
    b: bool,
    n: i128,
    x: Real,
    s: String,
    items: Vec<Json>,
    members: Vec<Member>,
)
    ensures
        Json::Null@ == JsonView::Null,
        Json::Bool(b)@ == JsonView::Bool(b),
        Json::Int(n)@ == JsonView::Int(n as int),
        Json::Float(x)@ == JsonView::Float(RealView { bits: x.bits, text: x.text@ }),
        Json::Str(s)@ == JsonView::Str(s@),
        Json::Array(items)@ == JsonView::Array(items@.map_values(|v: Json| v@)),
        Json::Object(members)@ == JsonView::Object(members_view(members@)),
{
    assert(views(items@) =~= items@.map_values(|v: Json| v@));
}

/// Some values hold what each of them holds, in their order.
pub proof fn law_what_some_values_hold(items: Seq<Json>)
    ensures
        views(items) == items.map_values(|v: Json| v@),
{
    assert(views(items) =~= items.map_values(|v: Json| v@));
}

/// What is handed out is the member that is there, and nothing where none is.
pub proof fn law_what_is_handed_out(r: Option<&Json>, v: JsonView)
    ensures
        r matches Some(x) ==> (refers(r, Some(v)) <==> x@ == v) && !refers(r, None),
        r is None ==> refers(r, None) && !refers(r, Some(v)),
{
}

/// Of the members of an object with one key the last one counts.
pub proof fn law_the_later_member_counts(members: Seq<Member>, key: Seq<char>, i: int)
    requires
        0 <= i < members.len(),
        members[i].key@ == key,
        forall|j: int| i < j < members.len() ==> (#[trigger] members[j]).key@ != key,
    ensures
        members_view(members).contains_key(key),
        members_view(members)[key] == members[i].value@,
    decreases members.len(),
{
    let n = members.len() - 1;
    if i < n {
        let init = members.drop_last();
        assert(init[i] == members[i]);
        assert forall|j: int| i < j < init.len() implies (#[trigger] init[j]).key@ != key by {
            assert(members[j].key@ != key);
        }
        law_the_later_member_counts(init, key, i);
        assert(members[n].key@ != key);
    }
}

/// An object has no member beyond those that it is made of.
pub proof fn law_no_other_member_counts(members: Seq<Member>, key: Seq<char>)
    requires
        forall|j: int| 0 <= j < members.len() ==> (#[trigger] members[j]).key@ != key,
    ensures
        !members_view(members).contains_key(key),
    decreases members.len(),
{
    if members.len() > 0 {
        let init = members.drop_last();
        assert forall|j: int| 0 <= j < init.len() implies (#[trigger] init[j]).key@ != key by {
            assert(members[j].key@ != key);
        }
        law_no_other_member_counts(init, key);
        assert(members[members.len() - 1].key@ != key);
    }
}

/// A member is read from an object that has it, and from nothing else.
pub proof fn law_reading_a_member(m: Map<Seq<char>, JsonView>, key: Seq<char>, other: JsonView)
    requires
        other !is Object,
    ensures
        JsonView::Object(m).get(key) == (if m.dom().contains(key) {
            Some(m[key])
        } else {
            None::<JsonView>
        }),
        JsonView::Object(m).at(key) == (if m.dom().contains(key) {
            m[key]
        } else {
            JsonView::Null
        }),
        other.get(key) is None,
        other.at(key) == JsonView::Null,
        other.text_at(key) == Seq::<char>::empty(),
        other.int_at(key) is None,
        other.bool_at(key) is None,
{
}

/// A member is read as what it is, and as nothing else.
pub proof fn law_reading_a_member_as_what_it_is(m: Map<Seq<char>, JsonView>, key: Seq<char>)
    ensures
        JsonView::Object(m).text_at(key) == (if m.dom().contains(key) && m[key] is Str {
            m[key]->Str_0
        } else {
            Seq::<char>::empty()
        }),
        JsonView::Object(m).bool_at(key) == (if m.dom().contains(key) && m[key] is Bool {
            Some(m[key]->Bool_0)
        } else {
            None::<bool>
        }),
        JsonView::Object(m).int_at(key) == (if m.dom().contains(key) && m[key] is Int
            && -0x8000_0000_0000_0000 <= m[key]->Int_0 <= 0x7fff_ffff_ffff_ffff {
            Some(m[key]->Int_0)
        } else {
            None::<int>
        }),
{
}

/// A value is read as what it is, and as nothing else; an integer only where it fits.
pub proof fn law_reading_a_value(v: JsonView)
    ensures
        v.as_str() == (if v is Str {
            Some(v->Str_0)
        } else {
            None::<Seq<char>>
        }),
        v.as_bool() == (if v is Bool {
            Some(v->Bool_0)
        } else {
            None::<bool>
        }),
        v.as_array() == (if v is Array {
            Some(v->Array_0)
        } else {
            None::<Seq<JsonView>>
        }),
        v.as_i64() == (if v is Int && -0x8000_0000_0000_0000 <= v->Int_0 <= 0x7fff_ffff_ffff_ffff {
            Some(v->Int_0)
        } else {
            None::<int>
        }),
        v.as_u64() == (if v is Int && 0 <= v->Int_0 <= 0xffff_ffff_ffff_ffff {
            Some(v->Int_0)
        } else {
            None::<int>
        }),
        v is Float ==> v.as_f64() == Some(v->Float_0),
        v is Int && -0x8000_0000_0000_0000 <= v->Int_0 <= 0xffff_ffff_ffff_ffff ==> v.as_f64()
            == Some(
            RealView { bits: int_double(v->Int_0), text: double_text(int_double(v->Int_0)) },
        ),
        !(v is Float || v is Int) ==> v.as_f64() is None,
{
}

/// Setting members makes an object of them.
pub proof fn law_setting_members(m: Map<Seq<char>, JsonView>, key: Seq<char>, value: JsonView)
    ensures
        JsonView::object() == JsonView::Object(Map::empty()),
        JsonView::Object(m).with(key, value) == JsonView::Object(m.insert(key, value)),
{
}

/// JSON text can hold null, truth values, texts, the integers of a word, finite doubles with their
/// text, and arrays and objects of these.
pub proof fn law_what_json_can_hold(v: JsonView)
    ensures
        v is Null || v is Bool || v is Str ==> sound(v),
        v matches JsonView::Int(n) ==> (sound(v) <==> -0x8000_0000_0000_0000 <= n
            <= 0xffff_ffff_ffff_ffff),
        v matches JsonView::Float(x) ==> (sound(v) <==> x.text == double_text(x.bits) && is_finite(
            x.bits,
        )),
        v matches JsonView::Array(items) ==> (sound(v) <==> forall|i: int|
            0 <= i < items.len() ==> sound(#[trigger] items[i])),
        v matches JsonView::Object(m) ==> (sound(v) <==> forall|k: Seq<char>| #[trigger]
            m.dom().contains(k) ==> sound(m[k])),
{
    if let JsonView::Object(m) = v {
        if forall|k: Seq<char>| #[trigger] m.dom().contains(k) ==> sound(m[k]) {
            assert forall|k: Seq<char>| #[trigger] m.contains_key(k) implies sound(m[k]) by {
                assert(m.dom().contains(k));
            }
        }
        if sound(v) {
            assert forall|k: Seq<char>| #[trigger] m.dom().contains(k) implies sound(m[k]) by {
                assert(m.contains_key(k));
            }
        }
    }
}

/// Doubles without a sign are ordered as their bits, those with a sign the other way round and below
/// the others; the two zeros are equal, and what is no number is neither less nor greater.
pub proof fn law_the_order_of_doubles(a: u64, b: u64)
    ensures
        a < 0x7ff0_0000_0000_0001 && b < 0x7ff0_0000_0000_0001 ==> (less(a, b) <==> a < b),
        0x8000_0000_0000_0000 <= a < 0xfff0_0000_0000_0001 && 0x8000_0000_0000_0000 <= b
            < 0xfff0_0000_0000_0001 ==> (less(a, b) <==> b < a),
        0x8000_0000_0000_0000 <= a < 0xfff0_0000_0000_0001 && b < 0x7ff0_0000_0000_0001 ==> (less(
            a,
            b,
        ) <==> a != 0x8000_0000_0000_0000 || b != 0),
        a < 0x7ff0_0000_0000_0001 && 0x8000_0000_0000_0000 <= b < 0xfff0_0000_0000_0001 ==> !less(
            a,
            b,
        ),
        0x7ff0_0000_0000_0000 < a < 0x8000_0000_0000_0000 || 0xfff0_0000_0000_0000 < a ==> !less(
            a,
            b,
        ) && !less(b, a),
        positive(a) <==> 0 < a < 0x7ff0_0000_0000_0001,
        is_finite(a) <==> a < 0x7ff0_0000_0000_0000 || 0x8000_0000_0000_0000 <= a
            < 0xfff0_0000_0000_0000,
{
}

/// Zero has no bits and is written as a single digit.
pub proof fn law_zero()
    ensures
        zero_view() == (RealView { bits: 0, text: seq!['0'] }),
{
    reveal_strlit("0");
    assert("0"@ =~= seq!['0']);
}

/// The first item of some kind stands behind those that are not of it.
pub proof fn law_the_first_of_a_kind(
    before: Seq<JsonView>,
    item: JsonView,
    behind: Seq<JsonView>,
    p: spec_fn(JsonView) -> bool,
)
    requires
        forall|i: int| 0 <= i < before.len() ==> !p(#[trigger] before[i]),
        p(item),
    ensures
        first_that(before + seq![item] + behind, p) == Some(before.len() as int),
        first_that(before, p) is None,
{
    let all = before + seq![item] + behind;
    assert forall|j: int| 0 <= j < before.len() implies !p(#[trigger] all[j]) by {
        assert(all[j] == before[j]);
    }
    crate::json::lemma_first_that(all, p, before.len() as int);
    crate::json::lemma_first_that(before, p, before.len() as int);
}

} // verus!
