//! JSON values, as far as the outputs of container runtimes are read.
//!
//! A text is read whole, as a `serde_json::Value`, and records are picked out of
//! the value. So of a key that an object repeats the last value counts, and what
//! a record does not look at must be JSON that such a value can hold all the same.
use vstd::prelude::*;
use vstd::string::*;
use crate::compose::maps::{from_pairs, OrderedMap};
use crate::text::{lemma_texts_push, same, texts};

verus! {

broadcast use lemma_texts_push;

#[verifier::external_type_specification]
#[verifier::external_body]
pub struct ExJsonValue(serde_json::Value);

/// What a JSON value is. Of a number only what it is as a `u64` is known, where
/// it is one.
pub enum JsonView {
    Null,
    Bool(bool),
    Number(Option<u64>),
    String(Seq<char>),
    Array(Seq<JsonView>),
    Object(Seq<(Seq<char>, JsonView)>),
}

/// What a JSON value holds.
pub uninterp spec fn json_of(v: serde_json::Value) -> JsonView;

/// What a text is as JSON, or what is wrong with it.
pub uninterp spec fn json_parsed(text: Seq<char>) -> Result<JsonView, Seq<char>>;

/// Reads a text as JSON; calls `serde_json::from_str`. What comes out follows
/// from the text alone. An error is handed on as its `Display` text.
#[verifier::external_body]
pub(crate) fn parse(text: &str) -> (r: Result<serde_json::Value, String>)
    ensures
        match r {
            Ok(v) => json_parsed(text@) == Ok::<JsonView, Seq<char>>(json_of(v)),
            Err(e) => json_parsed(text@) == Err::<JsonView, Seq<char>>(e@),
        },
{
    serde_json::from_str(text).map_err(|e: serde_json::Error| e.to_string())
}

/// What the values of a list hold.
pub open spec fn json_items(items: Seq<serde_json::Value>) -> Seq<JsonView> {
    items.map_values(|v: serde_json::Value| json_of(v))
}

/// What the entries of an object hold.
pub open spec fn json_entries(
    entries: Seq<(&String, &serde_json::Value)>,
) -> Seq<(Seq<char>, JsonView)> {
    entries.map_values(|e: (&String, &serde_json::Value)| (e.0@, json_of(*e.1)))
}

/// A JSON value opened by one level.
pub enum Json<'a> {
    Null,
    Bool(bool),
    Number(Option<u64>),
    String(&'a String),
    Array(&'a Vec<serde_json::Value>),
    Object(Vec<(&'a String, &'a serde_json::Value)>),
}

/// What an opened value holds.
pub open spec fn json_opened(j: Json) -> JsonView {
    match j {
        Json::Null => JsonView::Null,
        Json::Bool(b) => JsonView::Bool(b),
        Json::Number(n) => JsonView::Number(n),
        Json::String(s) => JsonView::String(s@),
        Json::Array(items) => JsonView::Array(json_items(items@)),
        Json::Object(entries) => JsonView::Object(json_entries(entries@)),
    }
}

/// Tells the variants of `serde_json::Value` apart. A number comes as what
/// `Number::as_u64` makes of it; the entries of an object come in the order of
/// `Map::iter`.
#[verifier::external_body]
pub(crate) fn open(v: &serde_json::Value) -> (r: Json<'_>)
    ensures
        json_opened(r) == json_of(*v),
{
    match v {
        serde_json::Value::Null => Json::Null,
        serde_json::Value::Bool(b) => Json::Bool(*b),
        serde_json::Value::Number(n) => Json::Number(n.as_u64()),
        serde_json::Value::String(s) => Json::String(s),
        serde_json::Value::Array(items) => Json::Array(items),
        serde_json::Value::Object(m) => Json::Object(m.iter().collect()),
    }
}

// ---- records ----

/// What stands in a field of a record.
pub enum SlotView {
    Absent,
    Value(JsonView),
    /// The field is given more than once.
    Clash,
}

/// What stands in a field of a record.
pub enum Slot<'a> {
    Absent,
    Value(&'a serde_json::Value),
    Clash,
}

/// What a slot holds.
pub open spec fn slot_view(s: Slot) -> SlotView {
    match s {
        Slot::Absent => SlotView::Absent,
        Slot::Value(v) => SlotView::Value(json_of(*v)),
        Slot::Clash => SlotView::Clash,
    }
}

/// The names of a field.
#[derive(Clone, Copy)]
pub struct Names<'a> {
    pub a: &'a str,
    pub b: &'a str,
    pub c: &'a str,
    pub d: &'a str,
}

/// Whether a key is one of the names of a field.
pub open spec fn is_named(key: Seq<char>, names: Names) -> bool {
    key == names.a@ || key == names.b@ || key == names.c@ || key == names.d@
}

/// A field with one name.
pub open spec fn named<'a>(a: &'a str) -> Names<'a> {
    Names { a, b: a, c: a, d: a }
}

/// A field with two names.
pub open spec fn either<'a>(a: &'a str, b: &'a str) -> Names<'a> {
    Names { a, b, c: b, d: b }
}

/// A field with one name.
pub fn one_name<'a>(a: &'a str) -> (r: Names<'a>)
    ensures
        r == named(a),
{
    Names { a, b: a, c: a, d: a }
}

/// A field with two names.
pub fn two_names<'a>(a: &'a str, b: &'a str) -> (r: Names<'a>)
    ensures
        r == either(a, b),
{
    Names { a, b, c: b, d: b }
}

/// What the entries of an object give for a field.
pub open spec fn under(entries: Seq<(Seq<char>, JsonView)>, names: Names) -> SlotView
    decreases entries.len(),
{
    if entries.len() == 0 {
        SlotView::Absent
    } else {
        let before = under(entries.drop_last(), names);
        if !is_named(entries.last().0, names) {
            before
        } else if before is Absent {
            SlotView::Value(entries.last().1)
        } else {
            SlotView::Clash
        }
    }
}

/// What a record gives for a field: by name where the record is an object, by
/// position where it is an array.
pub open spec fn field(v: JsonView, i: int, names: Names) -> SlotView {
    match v {
        JsonView::Object(entries) => under(entries, names),
        JsonView::Array(items) => if i < items.len() {
            SlotView::Value(items[i])
        } else {
            SlotView::Absent
        },
        _ => SlotView::Absent,
    }
}

/// Whether a value can be a record of `n` fields.
pub open spec fn is_record(v: JsonView, n: int) -> bool {
    match v {
        JsonView::Object(_) => true,
        JsonView::Array(items) => items.len() <= n,
        _ => false,
    }
}

/// Whether an opened value can be a record of `n` fields.
pub fn record(j: &Json, n: usize) -> (r: bool)
    ensures
        r == is_record(json_opened(*j), n as int),
{
    match j {
        Json::Object(_) => true,
        Json::Array(items) => items.len() <= n,
        _ => false,
    }
}

fn matches_name(key: &str, names: Names) -> (r: bool)
    ensures
        r == is_named(key@, names),
{
    same(key, names.a) || same(key, names.b) || same(key, names.c) || same(key, names.d)
}

/// What a record gives for a field.
pub fn slot<'a>(j: &Json<'a>, i: usize, names: Names) -> (r: Slot<'a>)
    ensures
        slot_view(r) == field(json_opened(*j), i as int, names),
{
    match j {
        Json::Object(entries) => {
            let ghost all = json_entries(entries@);
            let mut out: Slot<'a> = Slot::Absent;
            let mut k: usize = 0;
            assert(all.take(0) =~= Seq::empty());
            while k < entries.len()
                invariant
                    k <= entries@.len(),
                    all == json_entries(entries@),
                    slot_view(out) == under(all.take(k as int), names),
                decreases entries@.len() - k,
            {
                proof {
                    assert(all.take(k + 1).drop_last() =~= all.take(k as int));
                    assert(all.take(k + 1).last() == all[k as int]);
                }
                let (key, value) = entries[k];
                if matches_name(key.as_str(), names) {
                    out = match out {
                        Slot::Absent => Slot::Value(value),
                        _ => Slot::Clash,
                    };
                }
                k += 1;
            }
            assert(all.take(k as int) =~= all);
            out
        },
        Json::Array(items) => {
            if i < items.len() {
                Slot::Value(&items[i])
            } else {
                Slot::Absent
            }
        },
        _ => Slot::Absent,
    }
}

// ---- values of fields ----

/// A text that must be there.
pub open spec fn text_value(s: SlotView) -> Option<Seq<char>> {
    match s {
        SlotView::Value(JsonView::String(t)) => Some(t),
        _ => None,
    }
}

/// A text that may be missing.
pub open spec fn text_or_default(s: SlotView) -> Option<Seq<char>> {
    match s {
        SlotView::Absent => Some(Seq::empty()),
        _ => text_value(s),
    }
}

/// Whether an optional string is an optional text.
pub open spec fn same_text(r: Option<String>, t: Option<Seq<char>>) -> bool {
    match r {
        Some(s) => t == Some(s@),
        None => t is None,
    }
}

/// Reads a text that must be there.
pub fn required_text(s: Slot) -> (r: Option<String>)
    ensures
        same_text(r, text_value(slot_view(s))),
{
    match s {
        Slot::Value(v) => match open(v) {
            Json::String(t) => Some(t.clone()),
            _ => None,
        },
        _ => None,
    }
}

/// Reads a text that may be missing.
pub fn default_text(s: Slot) -> (r: Option<String>)
    ensures
        same_text(r, text_or_default(slot_view(s))),
{
    match s {
        Slot::Absent => Some(String::new()),
        _ => required_text(s),
    }
}

/// A number that may be missing.
pub open spec fn number_or_default(s: SlotView) -> Option<u64> {
    match s {
        SlotView::Absent => Some(0),
        SlotView::Value(JsonView::Number(n)) => n,
        _ => None,
    }
}

/// Reads a number that may be missing.
pub fn default_number(s: Slot) -> (r: Option<u64>)
    ensures
        r == number_or_default(slot_view(s)),
{
    match s {
        Slot::Absent => Some(0),
        Slot::Value(v) => match open(v) {
            Json::Number(n) => n,
            _ => None,
        },
        Slot::Clash => None,
    }
}

/// The texts that values are, where all of them are texts.
pub open spec fn all_texts(items: Seq<JsonView>) -> Option<Seq<Seq<char>>>
    decreases items.len(),
{
    if items.len() == 0 {
        Some(Seq::empty())
    } else {
        match (all_texts(items.drop_last()), items.last()) {
            (Some(ts), JsonView::String(t)) => Some(ts.push(t)),
            _ => None,
        }
    }
}

/// A list of texts that may be missing.
pub open spec fn texts_or_default(s: SlotView) -> Option<Seq<Seq<char>>> {
    match s {
        SlotView::Absent => Some(Seq::empty()),
        SlotView::Value(JsonView::Array(items)) => all_texts(items),
        _ => None,
    }
}

proof fn lemma_all_texts_prefix(items: Seq<JsonView>, k: int)
    requires
        0 <= k <= items.len(),
        all_texts(items.take(k)) is None,
    ensures
        all_texts(items) is None,
    decreases items.len() - k,
{
    if k == items.len() {
        assert(items.take(k) =~= items);
    } else {
        assert(items.take(k + 1).drop_last() =~= items.take(k));
        lemma_all_texts_prefix(items, k + 1);
    }
}

/// Reads a list of texts that may be missing.
pub fn default_texts(s: Slot) -> (r: Option<Vec<String>>)
    ensures
        match r {
            Some(v) => texts_or_default(slot_view(s)) == Some(texts(v@)),
            None => texts_or_default(slot_view(s)) is None,
        },
{
    let mut out: Vec<String> = Vec::new();
    assert(texts(out@) =~= Seq::<Seq<char>>::empty());
    match s {
        Slot::Absent => Some(out),
        Slot::Value(v) => match open(v) {
            Json::Array(items) => {
                let ghost all = json_items(items@);
                let mut i: usize = 0;
                assert(all.take(0) =~= Seq::empty());
                while i < items.len()
                    invariant
                        i <= items@.len(),
                        all == json_items(items@),
                        all_texts(all.take(i as int)) == Some(texts(out@)),
                        slot_view(s) == SlotView::Value(JsonView::Array(all)),
                    decreases items@.len() - i,
                {
                    proof {
                        assert(all.take(i + 1).drop_last() =~= all.take(i as int));
                        assert(all.take(i + 1).last() == all[i as int]);
                    }
                    match open(&items[i]) {
                        Json::String(t) => out.push(t.clone()),
                        _ => {
                            proof {
                                lemma_all_texts_prefix(all, i + 1);
                            }
                            return None;
                        },
                    }
                    i += 1;
                }
                assert(all.take(i as int) =~= all);
                Some(out)
            },
            _ => None,
        },
        Slot::Clash => None,
    }
}

/// The texts under the keys of an object, where all values are texts.
pub open spec fn all_text_pairs(entries: Seq<(Seq<char>, JsonView)>) -> Option<
    Seq<(Seq<char>, Seq<char>)>,
>
    decreases entries.len(),
{
    if entries.len() == 0 {
        Some(Seq::empty())
    } else {
        match (all_text_pairs(entries.drop_last()), entries.last().1) {
            (Some(ts), JsonView::String(t)) => Some(ts.push((entries.last().0, t))),
            _ => None,
        }
    }
}

/// A map of texts that may be missing.
pub open spec fn pairs_or_default(s: SlotView) -> Option<Seq<(Seq<char>, Seq<char>)>> {
    match s {
        SlotView::Absent => Some(Seq::empty()),
        SlotView::Value(JsonView::Object(entries)) => match all_text_pairs(entries) {
            Some(ps) => Some(from_pairs(ps)),
            None => None,
        },
        _ => None,
    }
}

proof fn lemma_all_pairs_prefix(entries: Seq<(Seq<char>, JsonView)>, k: int)
    requires
        0 <= k <= entries.len(),
        all_text_pairs(entries.take(k)) is None,
    ensures
        all_text_pairs(entries) is None,
    decreases entries.len() - k,
{
    if k == entries.len() {
        assert(entries.take(k) =~= entries);
    } else {
        assert(entries.take(k + 1).drop_last() =~= entries.take(k));
        lemma_all_pairs_prefix(entries, k + 1);
    }
}

/// Whether a map is what was read.
pub open spec fn same_pairs(
    r: Option<OrderedMap<String>>,
    ps: Option<Seq<(Seq<char>, Seq<char>)>>,
) -> bool {
    match r {
        Some(m) => ps == Some(m.pairs()),
        None => ps is None,
    }
}

/// Reads a map of texts that may be missing.
pub fn default_pairs(s: Slot) -> (r: Option<OrderedMap<String>>)
    ensures
        same_pairs(r, pairs_or_default(slot_view(s))),
{
    let mut out: OrderedMap<String> = OrderedMap::new();
    assert(out.pairs() =~= Seq::empty());
    match s {
        Slot::Absent => Some(out),
        Slot::Value(v) => match open(v) {
            Json::Object(entries) => {
                let ghost all = json_entries(entries@);
                let mut i: usize = 0;
                let ghost mut ps: Seq<(Seq<char>, Seq<char>)> = Seq::empty();
                assert(all.take(0) =~= Seq::empty());
                while i < entries.len()
                    invariant
                        i <= entries@.len(),
                        all == json_entries(entries@),
                        all_text_pairs(all.take(i as int)) == Some(ps),
                        out.pairs() == from_pairs(ps),
                        slot_view(s) == SlotView::Value(JsonView::Object(all)),
                    decreases entries@.len() - i,
                {
                    proof {
                        assert(all.take(i + 1).drop_last() =~= all.take(i as int));
                        assert(all.take(i + 1).last() == all[i as int]);
                    }
                    let (key, value) = entries[i];
                    match open(value) {
                        Json::String(t) => {
                            out.put(key.clone(), t.clone());
                            proof {
                                let more = ps.push((key@, t@));
                                assert(more.drop_last() =~= ps);
                                ps = more;
                            }
                        },
                        _ => {
                            proof {
                                lemma_all_pairs_prefix(all, i + 1);
                            }
                            return None;
                        },
                    }
                    i += 1;
                }
                assert(all.take(i as int) =~= all);
                Some(out)
            },
            _ => None,
        },
        Slot::Clash => None,
    }
}

} // verus!
