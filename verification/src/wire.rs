//! The wire document model: a tagged JSON value, its mathematical view, and
//! the lax-array convention by which a field holding zero, one, or many
//! values is written as an absent field, a bare value, or an array.

use vstd::prelude::*;

verus! {

broadcast use vstd::std_specs::vec::group_vec_axioms;

/// A JSON document value. Numbers are restricted to the unsigned integers
/// that the wire formats handled here use (item counts, page indices,
/// link dimensions).
#[derive(Debug, PartialEq, Eq)]
pub enum JsonValue {
    Null,
    Bool(bool),
    Nat(u64),
    Str(String),
    Array(Vec<JsonValue>),
    Object(Vec<(String, JsonValue)>),
}

/// The mathematical shape of a JSON document: what [`JsonValue`] looks like
/// in specifications, with sequences in place of vectors and strings.
pub enum JsonV {
    Null,
    Bool(bool),
    Nat(u64),
    Str(Seq<char>),
    Array(Seq<JsonV>),
    Object(Seq<(Seq<char>, JsonV)>),
}

impl JsonValue {
    #[via_fn]
    proof fn deep_view_decreases(&self) {
        broadcast use vstd::std_specs::vec::group_vec_axioms;

        match self {
            JsonValue::Array(items) => {
                assert(decreases_to!(*items => items@));
            },
            JsonValue::Object(entries) => {
                assert(decreases_to!(*entries => entries@));
            },
            _ => {},
        }
    }

    /// The mathematical value of this document.
    pub open spec fn dv(&self) -> JsonV
        decreases self, 1int,
        via Self::deep_view_decreases
    {
        match self {
            JsonValue::Null => JsonV::Null,
            JsonValue::Bool(b) => JsonV::Bool(*b),
            JsonValue::Nat(n) => JsonV::Nat(*n),
            JsonValue::Str(s) => JsonV::Str(s@),
            JsonValue::Array(items) => JsonV::Array(dv_list(items@)),
            JsonValue::Object(entries) => JsonV::Object(dv_entries(entries@)),
        }
    }
}

/// The views of a sequence of documents, element by element.
pub open spec fn dv_list(items: Seq<JsonValue>) -> Seq<JsonV>
    decreases items, 0int,
{
    if items.len() == 0 {
        Seq::empty()
    } else {
        seq![items[0].dv()] + dv_list(items.subrange(1, items.len() as int))
    }
}

/// The views of an object's entry list, element by element.
pub open spec fn dv_entries(entries: Seq<(String, JsonValue)>) -> Seq<(Seq<char>, JsonV)>
    decreases entries, 0int,
{
    if entries.len() == 0 {
        Seq::empty()
    } else {
        seq![(entries[0].0@, entries[0].1.dv())] + dv_entries(
            entries.subrange(1, entries.len() as int),
        )
    }
}

/// `dv_list` maps each element to its view.
pub proof fn lemma_dv_list(items: Seq<JsonValue>)
    ensures
        dv_list(items).len() == items.len(),
        forall|i: int| 0 <= i < items.len() ==> dv_list(items)[i] == #[trigger] items[i].dv(),
    decreases items.len(),
{
    if items.len() > 0 {
        let rest = items.subrange(1, items.len() as int);
        lemma_dv_list(rest);
        assert forall|i: int| 0 <= i < items.len() implies dv_list(items)[i] == #[trigger] items[i].dv() by {
            if i > 0 {
                assert(rest[i - 1] == items[i]);
            }
        }
    }
}

/// `dv_entries` maps each entry to its view.
pub proof fn lemma_dv_entries(entries: Seq<(String, JsonValue)>)
    ensures
        dv_entries(entries).len() == entries.len(),
        forall|i: int|
            0 <= i < entries.len() ==> dv_entries(entries)[i] == (
                #[trigger] entries[i].0@,
                entries[i].1.dv(),
            ),
    decreases entries.len(),
{
    if entries.len() > 0 {
        let rest = entries.subrange(1, entries.len() as int);
        lemma_dv_entries(rest);
        assert forall|i: int|
            0 <= i < entries.len() implies dv_entries(entries)[i] == (
                #[trigger] entries[i].0@,
                entries[i].1.dv(),
            ) by {
            if i > 0 {
                assert(rest[i - 1] == entries[i]);
            }
        }
    }
}

impl DeepView for JsonValue {
    type V = JsonV;

    open spec fn deep_view(&self) -> JsonV {
        self.dv()
    }
}

/// An array value's view is the array of its elements' views.
pub broadcast proof fn lemma_array_deep_view(items: Vec<JsonValue>)
    ensures
        #[trigger] JsonValue::Array(items).deep_view() == JsonV::Array(items.deep_view()),
{
    lemma_dv_list(items@);
    assert(JsonValue::Array(items).deep_view()->Array_0 =~= items.deep_view());
}

/// An object value's view is the entry list of its entries' views.
pub broadcast proof fn lemma_object_deep_view(entries: Vec<(String, JsonValue)>)
    ensures
        #[trigger] JsonValue::Object(entries).deep_view() == JsonV::Object(entries.deep_view()),
{
    lemma_dv_entries(entries@);
    assert(JsonValue::Object(entries).deep_view()->Object_0 =~= entries.deep_view());
}

/// A value and its view are of the same variant.
pub proof fn lemma_dv_variant(v: &JsonValue)
    ensures
        v.deep_view() is Null <==> v is Null,
        v.deep_view() is Bool <==> v is Bool,
        v.deep_view() is Nat <==> v is Nat,
        v.deep_view() is Str <==> v is Str,
        v.deep_view() is Array <==> v is Array,
        v.deep_view() is Object <==> v is Object,
{
    match v {
        JsonValue::Null => {},
        JsonValue::Bool(_) => {},
        JsonValue::Nat(_) => {},
        JsonValue::Str(_) => {},
        JsonValue::Array(_) => {},
        JsonValue::Object(_) => {},
    }
}

/// The value stored under the first occurrence of `key` in an object's
/// entry list, if any.
pub open spec fn spec_get(entries: Seq<(Seq<char>, JsonV)>, key: Seq<char>) -> Option<JsonV>
    decreases entries.len(),
{
    if entries.len() == 0 {
        None
    } else if entries[0].0 == key {
        Some(entries[0].1)
    } else {
        spec_get(entries.drop_first(), key)
    }
}

/// What a document holds under `key`: `None` when the document is not an
/// object or has no entry under that key.
pub open spec fn spec_field(v: JsonV, key: Seq<char>) -> Option<JsonV> {
    match v {
        JsonV::Object(entries) => spec_get(entries, key),
        _ => None,
    }
}

/// True character-for-character string equality.
pub fn str_eq(a: &str, b: &str) -> (r: bool)
    ensures
        r == (a@ == b@),
{
    let sa: String = a.to_owned();
    let sb: String = b.to_owned();
    sa == sb
}

impl JsonValue {
    /// The value under the first occurrence of `key` when `self` is an
    /// object holding that key.
    pub fn get<'a>(&'a self, key: &str) -> (r: Option<&'a JsonValue>)
        ensures
            match r {
                Some(v) => spec_field(self.deep_view(), key@) == Some(v.deep_view())
                    && decreases_to!(*self => *v),
                None => spec_field(self.deep_view(), key@) is None,
            },
    {
        match self {
            JsonValue::Object(entries) => {
                let ghost all = self.deep_view()->Object_0;
                proof {
                    lemma_dv_entries(entries@);
                    assert(all.skip(0) =~= all);
                }
                let mut i: usize = 0;
                while i < entries.len()
                    invariant
                        0 <= i <= entries.len(),
                        *self == JsonValue::Object(*entries),
                        all == self.deep_view()->Object_0,
                        self.deep_view() == JsonV::Object(all),
                        all.len() == entries@.len(),
                        forall|j: int|
                            0 <= j < entries@.len() ==> all[j] == (
                                entries@[j].0@,
                                entries@[j].1.deep_view(),
                            ),
                        spec_get(all, key@) == spec_get(all.skip(i as int), key@),
                    decreases entries.len() - i,
                {
                    if str_eq(entries[i].0.as_str(), key) {
                        proof {
                            assert(all.skip(i as int)[0] == all[i as int]);
                            assert(decreases_to!(*self => self->Object_0));
                            assert(self->Object_0 == *entries);
                            assert(decreases_to!(*entries => entries@));
                            assert(decreases_to!(entries@ => entries@[i as int]));
                            assert(decreases_to!(entries@[i as int] => entries@[i as int].1));
                        }
                        return Some(&entries[i].1);
                    }
                    proof {
                        assert(all.skip(i as int).drop_first() =~= all.skip(i + 1));
                    }
                    i += 1;
                }
                proof {
                    assert(all.skip(i as int).len() == 0);
                }
                None
            },
            _ => None,
        }
    }
}

/// Encodes an ordered sequence of values by the lax-array convention: no
/// value gives an absent field, one value stands bare, two or more stand
/// as an array in their original order.
pub open spec fn spec_to_lax(values: Seq<JsonV>) -> Option<JsonV> {
    if values.len() == 0 {
        None
    } else if values.len() == 1 {
        Some(values[0])
    } else {
        Some(JsonV::Array(values))
    }
}

/// Decodes a lax-array field back into the ordered sequence it stands for:
/// an absent field is the empty sequence, an array is its elements, any
/// other value is a one-element sequence.
pub open spec fn spec_from_lax(v: Option<JsonV>) -> Seq<JsonV> {
    match v {
        None => Seq::empty(),
        Some(JsonV::Array(items)) => items,
        Some(other) => seq![other],
    }
}

/// Lax-array round trip: any ordered sequence of values survives
/// `spec_from_lax(spec_to_lax(..))` unchanged, provided a lone element is
/// not itself an array (a lone array is indistinguishable on the wire from
/// a many-valued field). For two or more values the encoding is an array
/// of exactly those values in order; a single value is never wrapped in an
/// array.
pub proof fn lemma_lax_roundtrip(values: Seq<JsonV>)
    requires
        values.len() == 1 ==> !(values[0] is Array),
    ensures
        spec_from_lax(spec_to_lax(values)) == values,
        values.len() >= 2 ==> spec_to_lax(values) == Some(JsonV::Array(values)),
        values.len() == 1 ==> spec_to_lax(values) == Some(values[0]),
        values.len() == 0 ==> spec_to_lax(values) is None,
{
    if values.len() == 0 {
        assert(spec_from_lax(spec_to_lax(values)) =~= values);
    } else if values.len() == 1 {
        assert(spec_from_lax(spec_to_lax(values)) =~= values);
    }
}

/// Exec form of the lax-array encoder.
pub fn to_lax_array(values: Vec<JsonValue>) -> (r: Option<JsonValue>)
    ensures
        r.deep_view() == spec_to_lax(values.deep_view()),
{
    if values.len() == 0 {
        proof {
            assert(values.deep_view() =~= Seq::<JsonV>::empty());
        }
        None
    } else if values.len() == 1 {
        let mut values = values;
        let v = values.pop().unwrap();
        Some(v)
    } else {
        proof {
            lemma_array_deep_view(values);
        }
        Some(JsonValue::Array(values))
    }
}

/// Exec form of the lax-array decoder.
pub fn from_lax_array(v: Option<JsonValue>) -> (r: Vec<JsonValue>)
    ensures
        r.deep_view() == spec_from_lax(v.deep_view()),
{
    match v {
        None => {
            let r: Vec<JsonValue> = Vec::new();
            proof {
                assert(r.deep_view() =~= spec_from_lax(None));
            }
            r
        },
        Some(JsonValue::Array(items)) => {
            proof {
                lemma_array_deep_view(items);
            }
            items
        },
        Some(other) => {
            let mut r: Vec<JsonValue> = Vec::new();
            let ghost g = other.deep_view();
            r.push(other);
            proof {
                assert(r.deep_view() =~= seq![g]);
            }
            r
        },
    }
}

} // verus!
