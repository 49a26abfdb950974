//! The wire-level data model: a JSON-like tree of maps, sequences and
//! scalars, plus its mathematical model and well-formedness conditions.

use vstd::prelude::*;

verus! {

/// A JSON-like tree. This is the escape hatch for free-form content
/// (examples, extension values, arbitrary nested fragments) and the input
/// and output type of the decode/encode engine.
///
/// Object entries preserve insertion order. Key uniqueness is a
/// well-formedness condition (`wf_val` on the model), not enforced by the
/// type itself.
///
/// Numbers are held as `i64`; a host front end that meets numbers outside
/// that range must reject the document before handing the tree over.
#[derive(Debug)]
pub enum Value {
    Null,
    Bool(bool),
    Int(i64),
    Str(String),
    Arr(Vec<Value>),
    Obj(Vec<(String, Value)>),
}

/// Arbitrary free-form content attached to a typed node.
pub type Any = Value;

/// The mathematical model of a `Value`.
#[verifier::ext_equal]
pub enum SpecVal {
    Null,
    Bool(bool),
    Int(int),
    Str(Seq<char>),
    Arr(Seq<SpecVal>),
    Obj(Seq<(Seq<char>, SpecVal)>),
}

/// The entry list of an object node, at the model level.
pub type SpecEntries = Seq<(Seq<char>, SpecVal)>;

pub open spec fn view_val(v: Value) -> SpecVal
    decreases v,
{
    match v {
        Value::Null => SpecVal::Null,
        Value::Bool(b) => SpecVal::Bool(b),
        Value::Int(i) => SpecVal::Int(i as int),
        Value::Str(s) => SpecVal::Str(s@),
        Value::Arr(items) => SpecVal::Arr(view_arr(items@)),
        Value::Obj(entries) => SpecVal::Obj(view_entries(entries@)),
    }
}

pub open spec fn view_arr(items: Seq<Value>) -> Seq<SpecVal>
    decreases items,
{
    if items.len() == 0 {
        Seq::empty()
    } else {
        seq![view_val(items[0])] + view_arr(items.drop_first())
    }
}

pub open spec fn view_entries(entries: Seq<(String, Value)>) -> SpecEntries
    decreases entries,
{
    if entries.len() == 0 {
        Seq::empty()
    } else {
        seq![(entries[0].0@, view_val(entries[0].1))] + view_entries(entries.drop_first())
    }
}

impl DeepView for Value {
    type V = SpecVal;

    open spec fn deep_view(&self) -> SpecVal {
        view_val(*self)
    }
}

/// Keys of an object entry list are pairwise distinct.
pub open spec fn keys_unique(es: SpecEntries) -> bool {
    forall|i: int, j: int| 0 <= i < j < es.len() ==> es[i].0 != es[j].0
}

/// Well-formedness of a tree: every object in it has unique keys.
pub open spec fn wf_val(v: SpecVal) -> bool
    decreases v,
{
    match v {
        SpecVal::Arr(items) => forall|i: int|
            0 <= i < items.len() ==> wf_val(#[trigger] items[i]),
        SpecVal::Obj(es) => keys_unique(es) && forall|i: int|
            0 <= i < es.len() ==> wf_val(#[trigger] es[i].1),
        _ => true,
    }
}

/// `view_arr` is the pointwise map of `view_val`.
pub proof fn lemma_view_arr(items: Seq<Value>)
    ensures
        view_arr(items).len() == items.len(),
        forall|i: int| 0 <= i < items.len() ==> #[trigger] view_arr(items)[i] == view_val(items[i]),
    decreases items,
{
    if items.len() > 0 {
        lemma_view_arr(items.drop_first());
    }
}

/// `view_entries` is the pointwise map of key view and value view.
pub proof fn lemma_view_entries(entries: Seq<(String, Value)>)
    ensures
        view_entries(entries).len() == entries.len(),
        forall|i: int| 0 <= i < entries.len() ==> #[trigger] view_entries(entries)[i]
            == (entries[i].0@, view_val(entries[i].1)),
    decreases entries,
{
    if entries.len() > 0 {
        lemma_view_entries(entries.drop_first());
    }
}

/// Appending one element extends the entry-list view by one entry.
pub proof fn lemma_view_entries_push(entries: Seq<(String, Value)>, k: String, v: Value)
    ensures
        view_entries(entries.push((k, v))) =~= view_entries(entries).push((k@, view_val(v))),
{
    let pushed = entries.push((k, v));
    lemma_view_entries(pushed);
    lemma_view_entries(entries);
    assert(forall|i: int| 0 <= i < entries.len() ==> #[trigger] pushed[i] == entries[i]);
    assert(pushed[entries.len() as int] == (k, v));
}

/// Appending one element extends the array view by one element.
pub proof fn lemma_view_arr_push(items: Seq<Value>, v: Value)
    ensures
        view_arr(items.push(v)) =~= view_arr(items).push(view_val(v)),
{
    let pushed = items.push(v);
    lemma_view_arr(pushed);
    lemma_view_arr(items);
    assert(forall|i: int| 0 <= i < items.len() ==> #[trigger] pushed[i] == items[i]);
    assert(pushed[items.len() as int] == v);
}

} // verus!
