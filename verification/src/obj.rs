//! Model-level machinery for object nodes: key lookup, the image of a
//! record (its declared fields in schema order followed by its extension
//! entries), and the lemmas that make decode-after-encode proofs go
//! through for every object kind.

use vstd::prelude::*;

use crate::value::{SpecEntries, SpecVal, keys_unique, wf_val};

verus! {

/// First entry with the given key, if any.
pub open spec fn obj_get(es: SpecEntries, k: Seq<char>) -> Option<SpecVal>
    decreases es,
{
    if es.len() == 0 {
        None
    } else if es[0].0 == k {
        Some(es[0].1)
    } else {
        obj_get(es.drop_first(), k)
    }
}

pub open spec fn has_key(es: SpecEntries, k: Seq<char>) -> bool {
    obj_get(es, k) is Some
}

/// The image of a record under encode: one slot per declared field, in
/// declared schema order; `None` marks an absent optional field.
pub type FieldImage = Seq<(Seq<char>, Option<SpecVal>)>;

/// The entries (none or one) that a single field slot contributes.
pub open spec fn opt_entry(k: Seq<char>, slot: Option<SpecVal>) -> SpecEntries {
    match slot {
        Some(v) => seq![(k, v)],
        None => Seq::empty(),
    }
}

/// The object entries that a field image produces: present fields only,
/// in declared order.
pub open spec fn fields_entries(fs: FieldImage) -> SpecEntries
    decreases fs,
{
    if fs.len() == 0 {
        Seq::empty()
    } else {
        opt_entry(fs[0].0, fs[0].1) + fields_entries(fs.drop_first())
    }
}

/// Declared field names are pairwise distinct.
pub open spec fn distinct_names(fs: FieldImage) -> bool {
    forall|i: int, j: int| 0 <= i < j < fs.len() ==> fs[i].0 != fs[j].0
}

pub open spec fn field_names(fs: FieldImage) -> Seq<Seq<char>> {
    fs.map_values(|f: (Seq<char>, Option<SpecVal>)| f.0)
}

/// No entry of `es` carries a name declared in `fs`.
pub open spec fn entries_avoid(es: SpecEntries, fs: FieldImage) -> bool {
    forall|i: int, j: int|
        0 <= i < es.len() && 0 <= j < fs.len() ==> es[i].0 != fs[j].0
}

/// No entry of `es` has the key `k`.
pub open spec fn entries_lack(es: SpecEntries, k: Seq<char>) -> bool {
    forall|i: int| 0 <= i < es.len() ==> es[i].0 != k
}

/// Skipping a prefix free of the key leaves the lookup unchanged.
pub proof fn lemma_get_skip(es: SpecEntries, k: Seq<char>, i: int)
    requires
        0 <= i <= es.len(),
        forall|j: int| 0 <= j < i ==> es[j].0 != k,
    ensures
        obj_get(es, k) == obj_get(es.skip(i), k),
    decreases i,
{
    if i > 0 {
        lemma_get_skip(es, k, i - 1);
        assert(es.skip(i - 1).len() > 0);
        assert(es.skip(i - 1)[0] == es[i - 1]);
        assert(es.skip(i - 1).drop_first() =~= es.skip(i));
    } else {
        assert(es.skip(0) =~= es);
    }
}

/// Lookup in a one-entry list.
pub proof fn lemma_get_single(e: (Seq<char>, SpecVal), k: Seq<char>)
    ensures
        obj_get(seq![e], k) == if e.0 == k {
            Some(e.1)
        } else {
            None::<SpecVal>
        },
{
    reveal_with_fuel(obj_get, 2);
    assert(seq![e].drop_first() =~= Seq::<(Seq<char>, SpecVal)>::empty());
}

pub proof fn lemma_get_absent(es: SpecEntries, k: Seq<char>)
    requires
        entries_lack(es, k),
    ensures
        obj_get(es, k) is None,
    decreases es,
{
    if es.len() > 0 {
        assert(es.drop_first().len() == es.len() - 1);
        assert(forall|i: int| 0 <= i < es.drop_first().len() ==> es.drop_first()[i] == es[i + 1]);
        lemma_get_absent(es.drop_first(), k);
    }
}

/// Lookup over a concatenation: the left part is consulted first.
pub proof fn lemma_get_concat(a: SpecEntries, b: SpecEntries, k: Seq<char>)
    ensures
        obj_get(a + b, k) == if has_key(a, k) {
            obj_get(a, k)
        } else {
            obj_get(b, k)
        },
    decreases a,
{
    if a.len() == 0 {
        assert(a + b =~= b);
    } else {
        assert((a + b)[0] == a[0]);
        assert((a + b).drop_first() =~= a.drop_first() + b);
        lemma_get_concat(a.drop_first(), b, k);
    }
}

/// Every key found among a record's field entries is a declared name.
pub proof fn lemma_fields_key_declared(fs: FieldImage, k: Seq<char>)
    requires
        has_key(fields_entries(fs), k),
    ensures
        exists|j: int| 0 <= j < fs.len() && fs[j].0 == k,
    decreases fs,
{
    if fs.len() > 0 {
        let head: SpecEntries = match fs[0].1 {
            Some(v) => seq![(fs[0].0, v)],
            None => Seq::empty(),
        };
        lemma_get_concat(head, fields_entries(fs.drop_first()), k);
        if fs[0].1 is Some {
            lemma_get_single((fs[0].0, fs[0].1->0), k);
        }
        if has_key(head, k) {
            assert(fs[0].0 == k);
        } else {
            lemma_fields_key_declared(fs.drop_first(), k);
            let j = choose|j: int| 0 <= j < fs.drop_first().len() && fs.drop_first()[j].0 == k;
            assert(fs[j + 1].0 == k);
        }
    }
}

/// Looking up a declared name in a record's field entries yields exactly
/// that field's slot.
pub proof fn lemma_fields_get(fs: FieldImage, j: int)
    requires
        distinct_names(fs),
        0 <= j < fs.len(),
    ensures
        obj_get(fields_entries(fs), fs[j].0) == fs[j].1,
    decreases fs,
{
    let head: SpecEntries = match fs[0].1 {
        Some(v) => seq![(fs[0].0, v)],
        None => Seq::empty(),
    };
    let rest = fields_entries(fs.drop_first());
    lemma_get_concat(head, rest, fs[j].0);
    if fs[0].1 is Some {
        lemma_get_single((fs[0].0, fs[0].1->0), fs[j].0);
    }
    if j == 0 {
        match fs[0].1 {
            Some(v) => {
                assert(obj_get(head, fs[0].0) == Some(v));
            },
            None => {
                if has_key(rest, fs[0].0) {
                    lemma_fields_key_declared(fs.drop_first(), fs[0].0);
                    let i = choose|i: int|
                        0 <= i < fs.drop_first().len() && fs.drop_first()[i].0 == fs[0].0;
                    assert(fs[i + 1].0 == fs[0].0);
                    assert(false);
                }
            },
        }
    } else {
        assert(fs.drop_first()[j - 1] == fs[j]);
        assert(fs[0].0 != fs[j].0);
        assert(!has_key(head, fs[j].0));
        assert(distinct_names(fs.drop_first())) by {
            assert(forall|p: int, q: int|
                0 <= p < q < fs.drop_first().len() ==> fs.drop_first()[p].0 != fs.drop_first()[q].0)
                by {
                assert(forall|p: int| 0 <= p < fs.drop_first().len()
                    ==> #[trigger] fs.drop_first()[p] == fs[p + 1]);
            }
        }
        lemma_fields_get(fs.drop_first(), j - 1);
    }
}

/// A record's encoded entries: declared lookups resolve to the field
/// slots, extension entries pass through the non-declared filter, and the
/// keys are unique.
pub proof fn lemma_record(fs: FieldImage, extras: SpecEntries)
    requires
        distinct_names(fs),
        entries_avoid(extras, fs),
        keys_unique(extras),
    ensures
        forall|j: int| 0 <= j < fs.len()
            ==> obj_get(fields_entries(fs) + extras, #[trigger] fs[j].0) == fs[j].1,
        keys_unique(fields_entries(fs) + extras),
    decreases fs,
{
    let whole = fields_entries(fs) + extras;
    assert forall|j: int| 0 <= j < fs.len()
        implies obj_get(whole, #[trigger] fs[j].0) == fs[j].1 by {
        lemma_get_concat(fields_entries(fs), extras, fs[j].0);
        lemma_fields_get(fs, j);
        if fs[j].1 is None {
            assert(entries_lack(extras, fs[j].0));
            lemma_get_absent(extras, fs[j].0);
        }
    }
    lemma_record_unique(fs, extras);
}

proof fn lemma_record_unique(fs: FieldImage, extras: SpecEntries)
    requires
        distinct_names(fs),
        entries_avoid(extras, fs),
        keys_unique(extras),
    ensures
        keys_unique(fields_entries(fs) + extras),
    decreases fs,
{
    if fs.len() == 0 {
        assert(fields_entries(fs) + extras =~= extras);
    } else {
        let head: SpecEntries = match fs[0].1 {
            Some(v) => seq![(fs[0].0, v)],
            None => Seq::empty(),
        };
        let tail = fs.drop_first();
        assert(forall|p: int| 0 <= p < tail.len() ==> #[trigger] tail[p] == fs[p + 1]);
        assert(distinct_names(tail));
        assert(entries_avoid(extras, tail));
        lemma_record_unique(tail, extras);
        let rest = fields_entries(tail) + extras;
        assert(fields_entries(fs) + extras =~= head + rest);
        match fs[0].1 {
            None => {
                assert(head + rest =~= rest);
            },
            Some(v) => {
                // the head key collides with nothing further right
                assert(entries_lack(rest, fs[0].0)) by {
                    if !entries_lack(rest, fs[0].0) {
                        let i = choose|i: int| 0 <= i < rest.len() && rest[i].0 == fs[0].0;
                        if i < fields_entries(tail).len() {
                            assert(fields_entries(tail)[i].0 == fs[0].0);
                            assert(has_key(fields_entries(tail), fs[0].0)) by {
                                lemma_index_has_key(fields_entries(tail), i);
                            }
                            lemma_fields_key_declared(tail, fs[0].0);
                        } else {
                            assert(extras[i - fields_entries(tail).len()].0 == fs[0].0);
                        }
                    }
                }
                assert forall|p: int, q: int| 0 <= p < q < (head + rest).len()
                    implies (head + rest)[p].0 != (head + rest)[q].0 by {
                    if p == 0 {
                        assert((head + rest)[q] == rest[q - 1]);
                    } else {
                        assert((head + rest)[p] == rest[p - 1]);
                        assert((head + rest)[q] == rest[q - 1]);
                    }
                }
            },
        }
    }
}

/// A found key witnesses an entry index.
pub proof fn lemma_has_key_index(es: SpecEntries, k: Seq<char>)
    requires
        has_key(es, k),
    ensures
        exists|i: int| 0 <= i < es.len() && es[i].0 == k,
    decreases es,
{
    if es.len() > 0 && es[0].0 != k {
        lemma_has_key_index(es.drop_first(), k);
        let i = choose|i: int| 0 <= i < es.drop_first().len() && es.drop_first()[i].0 == k;
        assert(es[i + 1].0 == k);
    }
}

/// An entry at a concrete index witnesses `has_key`.
pub proof fn lemma_index_has_key(es: SpecEntries, i: int)
    requires
        0 <= i < es.len(),
    ensures
        has_key(es, es[i].0),
    decreases es,
{
    if i > 0 && es[0].0 != es[i].0 {
        assert(es.drop_first()[i - 1] == es[i]);
        lemma_index_has_key(es.drop_first(), i - 1);
    }
}

/// A looked-up value in a well-formed entry list is well-formed.
pub proof fn lemma_get_wf(es: SpecEntries, k: Seq<char>)
    requires
        forall|i: int| 0 <= i < es.len() ==> wf_val(#[trigger] es[i].1),
        has_key(es, k),
    ensures
        wf_val(obj_get(es, k)->0),
    decreases es,
{
    if es.len() > 0 && es[0].0 != k {
        assert(forall|i: int| 0 <= i < es.drop_first().len() ==> #[trigger] es.drop_first()[i]
            == es[i + 1]);
        lemma_get_wf(es.drop_first(), k);
    }
}

/// The entries whose keys are not declared: the extension bucket that
/// decode collects, in encounter order.
pub open spec fn extras_of(es: SpecEntries, names: Seq<Seq<char>>) -> SpecEntries
    decreases es,
{
    if es.len() == 0 {
        Seq::empty()
    } else if names.contains(es[0].0) {
        extras_of(es.drop_first(), names)
    } else {
        seq![es[0]] + extras_of(es.drop_first(), names)
    }
}

/// Each collected extension entry is an entry of the source with an
/// undeclared key; uniqueness of the source keys carries over.
pub proof fn lemma_extras_of(es: SpecEntries, names: Seq<Seq<char>>)
    ensures
        forall|i: int| 0 <= i < extras_of(es, names).len() ==> exists|j: int|
            0 <= j < es.len() && es[j] == #[trigger] extras_of(es, names)[i],
        forall|i: int| 0 <= i < extras_of(es, names).len() ==> !names.contains(
            #[trigger] extras_of(es, names)[i].0,
        ),
        keys_unique(es) ==> keys_unique(extras_of(es, names)),
    decreases es,
{
    let out = extras_of(es, names);
    if es.len() > 0 {
        let tail = es.drop_first();
        assert(forall|i: int| 0 <= i < tail.len() ==> #[trigger] tail[i] == es[i + 1]);
        lemma_extras_of(tail, names);
        let sub = extras_of(tail, names);
        if names.contains(es[0].0) {
            assert forall|i: int| 0 <= i < out.len() implies exists|j: int|
                0 <= j < es.len() && es[j] == #[trigger] out[i] by {
                let j = choose|j: int| 0 <= j < tail.len() && tail[j] == out[i];
                assert(es[j + 1] == out[i]);
            }
        } else {
            assert forall|i: int| 0 <= i < out.len() implies exists|j: int|
                0 <= j < es.len() && es[j] == #[trigger] out[i] && !names.contains(out[i].0) by {
                if i == 0 {
                    assert(out[0] == es[0]);
                } else {
                    assert(out[i] == sub[i - 1]);
                    let j = choose|j: int| 0 <= j < tail.len() && tail[j] == sub[i - 1];
                    assert(es[j + 1] == out[i]);
                }
            }
            if keys_unique(es) {
                assert forall|p: int, q: int| 0 <= p < q < out.len() implies out[p].0
                    != out[q].0 by {
                    if p == 0 {
                        assert(out[q] == sub[q - 1]);
                        let j = choose|j: int| 0 <= j < tail.len() && tail[j] == sub[q - 1];
                        assert(es[j + 1] == out[q]);
                        assert(es[0].0 != es[j + 1].0);
                    } else {
                        assert(out[p] == sub[p - 1] && out[q] == sub[q - 1]);
                        assert(keys_unique(tail));
                    }
                }
            }
        }
    }
}

/// Collecting extensions from a record's encoded entries recovers
/// exactly the extension bucket.
pub proof fn lemma_record_extras_of(fs: FieldImage, extras: SpecEntries, names: Seq<Seq<char>>)
    requires
        forall|j: int| 0 <= j < fs.len() ==> names.contains(#[trigger] fs[j].0),
        forall|i: int| 0 <= i < extras.len() ==> !names.contains(#[trigger] extras[i].0),
    ensures
        extras_of(fields_entries(fs) + extras, names) =~= extras,
    decreases fs,
{
    if fs.len() == 0 {
        assert(fields_entries(fs) + extras =~= extras);
        lemma_extras_keep(extras, names);
    } else {
        let tail = fs.drop_first();
        assert(forall|p: int| 0 <= p < tail.len() ==> #[trigger] tail[p] == fs[p + 1]);
        lemma_record_extras_of(tail, extras, names);
        let rest = fields_entries(tail) + extras;
        assert(fields_entries(fs) + extras =~= opt_entry(fs[0].0, fs[0].1) + rest);
        match fs[0].1 {
            None => {
                assert(opt_entry(fs[0].0, fs[0].1) + rest =~= rest);
            },
            Some(v) => {
                let whole = opt_entry(fs[0].0, fs[0].1) + rest;
                assert(whole.len() == 1 + rest.len());
                assert(whole[0] == (fs[0].0, v));
                assert(whole.drop_first() =~= rest);
                assert(names.contains(whole[0].0));
                assert(extras_of(whole, names) == extras_of(rest, names));
            },
        }
    }
}

/// Entries that are all undeclared come through the collection verbatim.
proof fn lemma_extras_keep(extras: SpecEntries, names: Seq<Seq<char>>)
    requires
        forall|i: int| 0 <= i < extras.len() ==> !names.contains(#[trigger] extras[i].0),
    ensures
        extras_of(extras, names) =~= extras,
    decreases extras,
{
    if extras.len() > 0 {
        let tail = extras.drop_first();
        assert(forall|p: int| 0 <= p < tail.len() ==> #[trigger] tail[p] == extras[p + 1]);
        lemma_extras_keep(tail, names);
        assert(extras_of(extras, names) =~= seq![extras[0]] + tail);
        assert(seq![extras[0]] + tail =~= extras);
    }
}

/// The entries of a concatenated field image are the concatenated
/// entries.
pub proof fn lemma_fields_entries_app(a: FieldImage, b: FieldImage)
    ensures
        fields_entries(a + b) =~= fields_entries(a) + fields_entries(b),
    decreases a,
{
    if a.len() == 0 {
        assert(a + b =~= b);
        assert(fields_entries(a) =~= Seq::<(Seq<char>, SpecVal)>::empty());
    } else {
        assert((a + b).len() > 0);
        assert((a + b)[0] == a[0]);
        assert((a + b).drop_first() =~= a.drop_first() + b);
        lemma_fields_entries_app(a.drop_first(), b);
    }
}

/// Every encoded entry's value is one of the present field slots.
pub proof fn lemma_fields_values(fs: FieldImage)
    ensures
        forall|i: int| 0 <= i < fields_entries(fs).len() ==> exists|j: int|
            0 <= j < fs.len() && fs[j].1 == Some(#[trigger] fields_entries(fs)[i].1),
    decreases fs,
{
    if fs.len() > 0 {
        let head = opt_entry(fs[0].0, fs[0].1);
        let rest = fields_entries(fs.drop_first());
        lemma_fields_values(fs.drop_first());
        assert(forall|p: int| 0 <= p < fs.drop_first().len() ==> #[trigger] fs.drop_first()[p]
            == fs[p + 1]);
        assert forall|i: int| 0 <= i < fields_entries(fs).len() implies exists|j: int|
            0 <= j < fs.len() && fs[j].1 == Some(#[trigger] fields_entries(fs)[i].1) by {
            if i < head.len() {
                assert(fields_entries(fs)[i] == head[0]);
                assert(fs[0].1 == Some(head[0].1));
            } else {
                assert(fields_entries(fs)[i] == rest[i - head.len()]);
                let j = choose|j: int|
                    0 <= j < fs.drop_first().len() && fs.drop_first()[j].1 == Some(
                        rest[i - head.len()].1,
                    );
                assert(fs[j + 1].1 == Some(fields_entries(fs)[i].1));
            }
        }
    }
}

/// The full record statement: declared lookups resolve to the field
/// slots, the encoded object is a well-formed tree, and a key declared
/// nowhere (such as the pointer sentinel) does not occur.
pub proof fn lemma_record_obj(fs: FieldImage, extras: SpecEntries, probe: Seq<char>)
    requires
        distinct_names(fs),
        entries_avoid(extras, fs),
        keys_unique(extras),
        forall|j: int| 0 <= j < fs.len() ==> (match #[trigger] fs[j].1 {
            Some(sv) => wf_val(sv),
            None => true,
        }),
        forall|i: int| 0 <= i < extras.len() ==> wf_val(#[trigger] extras[i].1),
    ensures
        forall|j: int| 0 <= j < fs.len()
            ==> obj_get(fields_entries(fs) + extras, #[trigger] fs[j].0) == fs[j].1,
        wf_val(SpecVal::Obj(fields_entries(fs) + extras)),
        ((forall|j: int| 0 <= j < fs.len() ==> (#[trigger] fs[j].0) != probe) && (forall|i: int|
            0 <= i < extras.len() ==> (#[trigger] extras[i].0) != probe)) ==> !has_key(
            fields_entries(fs) + extras,
            probe,
        ),
{
    lemma_record(fs, extras);
    lemma_fields_values(fs);
    let fe = fields_entries(fs);
    let whole = fe + extras;
    assert forall|i: int| 0 <= i < whole.len() implies wf_val(#[trigger] whole[i].1) by {
        if i < fe.len() {
            assert(whole[i] == fe[i]);
            let j = choose|j: int| 0 <= j < fs.len() && fs[j].1 == Some(fe[i].1);
            assert(wf_val(fs[j].1->0));
        } else {
            assert(whole[i] == extras[i - fe.len()]);
        }
    }
    assert(wf_val(SpecVal::Obj(whole)));
    if (forall|j: int| 0 <= j < fs.len() ==> (#[trigger] fs[j].0) != probe) && (forall|i: int|
        0 <= i < extras.len() ==> (#[trigger] extras[i].0) != probe) {
        lemma_get_concat(fe, extras, probe);
        if has_key(fe, probe) {
            lemma_fields_key_declared(fs, probe);
        }
        lemma_get_absent(extras, probe);
    }
}

} // verus!
