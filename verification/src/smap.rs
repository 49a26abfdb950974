//! Named buckets: string-keyed maps whose iteration and encode order is
//! the ascending order of their keys, regardless of insertion order. Two
//! documents with the same logical content therefore always encode to the
//! same output.

use vstd::prelude::*;

use crate::codec::{Codec, no_ref_key, ref_key};
use crate::err::DecodeError;
use crate::obj::{lemma_has_key_index, lemma_index_has_key, obj_get};
use crate::value::{SpecEntries, SpecVal, Value, keys_unique, lemma_view_entries, view_entries,
    view_val, wf_val};

verus! {

/// Lexicographic order on character sequences, by code point.
pub open spec fn str_lt(a: Seq<char>, b: Seq<char>) -> bool
    decreases a.len(),
{
    if b.len() == 0 {
        false
    } else if a.len() == 0 {
        true
    } else if a[0] < b[0] {
        true
    } else if a[0] == b[0] {
        str_lt(a.drop_first(), b.drop_first())
    } else {
        false
    }
}

pub proof fn lemma_str_lt_irrefl(a: Seq<char>)
    ensures
        !str_lt(a, a),
    decreases a.len(),
{
    if a.len() > 0 {
        lemma_str_lt_irrefl(a.drop_first());
    }
}

pub proof fn lemma_str_lt_asym(a: Seq<char>, b: Seq<char>)
    ensures
        str_lt(a, b) ==> !str_lt(b, a),
    decreases a.len(),
{
    if a.len() > 0 && b.len() > 0 {
        lemma_str_lt_asym(a.drop_first(), b.drop_first());
    }
}

pub proof fn lemma_str_lt_neq(a: Seq<char>, b: Seq<char>)
    ensures
        str_lt(a, b) ==> a != b,
{
    if str_lt(a, b) && a == b {
        lemma_str_lt_irrefl(a);
    }
}

pub proof fn lemma_str_lt_trans(a: Seq<char>, b: Seq<char>, c: Seq<char>)
    ensures
        str_lt(a, b) && str_lt(b, c) ==> str_lt(a, c),
    decreases a.len(),
{
    if str_lt(a, b) && str_lt(b, c) {
        if a.len() > 0 && b.len() > 0 && c.len() > 0 {
            lemma_str_lt_trans(a.drop_first(), b.drop_first(), c.drop_first());
        }
    }
}

/// Two distinct strings are ordered one way or the other.
pub proof fn lemma_str_lt_connex(a: Seq<char>, b: Seq<char>)
    ensures
        a != b ==> str_lt(a, b) || str_lt(b, a),
    decreases a.len(),
{
    if a.len() == 0 && b.len() == 0 {
        assert(a =~= b);
    }
    if a.len() > 0 && b.len() > 0 && a[0] == b[0] {
        lemma_str_lt_connex(a.drop_first(), b.drop_first());
        if a.drop_first() == b.drop_first() {
            assert(a.drop_first().len() == b.drop_first().len());
            assert(a.len() == b.len());
            assert forall|x: int| 0 <= x < a.len() implies a[x] == b[x] by {
                if x > 0 {
                    assert(a.drop_first()[x - 1] == b.drop_first()[x - 1]);
                }
            }
            assert(a =~= b);
        }
    }
}

/// Decide the lexicographic order on two strings.
#[verifier::loop_isolation(false)]
pub fn str_lt_exec(a: &str, b: &str) -> (r: bool)
    ensures
        r == str_lt(a@, b@),
{
    let alen = a.unicode_len();
    let blen = b.unicode_len();
    let mut i: usize = 0;
    proof {
        assert(a@.skip(0) =~= a@);
        assert(b@.skip(0) =~= b@);
    }
    loop
        invariant
            alen == a@.len(),
            blen == b@.len(),
            i <= alen,
            i <= blen,
            str_lt(a@, b@) == str_lt(a@.skip(i as int), b@.skip(i as int)),
        decreases alen - i,
    {
        let ghost ask = a@.skip(i as int);
        let ghost bsk = b@.skip(i as int);
        if i == alen {
            proof {
                assert(ask =~= Seq::<char>::empty());
            }
            return i < blen;
        }
        if i == blen {
            proof {
                assert(bsk =~= Seq::<char>::empty());
            }
            return false;
        }
        let ca = a.get_char(i);
        let cb = b.get_char(i);
        proof {
            assert(ask.len() > 0 && bsk.len() > 0);
            assert(ask[0] == a@[i as int] && bsk[0] == b@[i as int]);
        }
        if ca < cb {
            return true;
        }
        if cb < ca {
            return false;
        }
        proof {
            assert(ca == cb);
            assert(ask.drop_first() =~= a@.skip(i + 1));
            assert(bsk.drop_first() =~= b@.skip(i + 1));
        }
        i = i + 1;
    }
}

/// Keys in strictly ascending order.
pub open spec fn map_sorted<M>(ms: Seq<(Seq<char>, M)>) -> bool {
    forall|i: int| 0 <= i < ms.len() - 1 ==> str_lt(#[trigger] ms[i].0, ms[i + 1].0)
}

/// Sortedness gives the full pairwise order.
pub proof fn lemma_map_sorted_pairwise<M>(ms: Seq<(Seq<char>, M)>)
    requires
        map_sorted(ms),
    ensures
        forall|i: int, j: int| 0 <= i < j < ms.len() ==> str_lt(ms[i].0, ms[j].0),
{
    assert forall|i: int, j: int| 0 <= i < j < ms.len() implies str_lt(ms[i].0, ms[j].0) by {
        lemma_map_sorted_reach(ms, i, j);
    }
}

proof fn lemma_map_sorted_reach<M>(ms: Seq<(Seq<char>, M)>, i: int, j: int)
    requires
        map_sorted(ms),
        0 <= i < j < ms.len(),
    ensures
        str_lt(ms[i].0, ms[j].0),
    decreases j - i,
{
    if j == i + 1 {
    } else {
        lemma_map_sorted_reach(ms, i, j - 1);
        assert(str_lt(ms[j - 1].0, ms[j].0));
        lemma_str_lt_trans(ms[i].0, ms[j - 1].0, ms[j].0);
    }
}

/// Insertion into a key-sorted entry list; an equal key replaces the
/// stored value.
pub open spec fn sorted_insert<M>(ms: Seq<(Seq<char>, M)>, k: Seq<char>, v: M) -> Seq<
    (Seq<char>, M),
>
    decreases ms.len(),
{
    if ms.len() == 0 {
        seq![(k, v)]
    } else if str_lt(k, ms[0].0) {
        seq![(k, v)] + ms
    } else if k == ms[0].0 {
        seq![(k, v)] + ms.drop_first()
    } else {
        seq![ms[0]] + sorted_insert(ms.drop_first(), k, v)
    }
}

/// Inserting behind everything appends.
pub proof fn lemma_sorted_insert_append<M>(ms: Seq<(Seq<char>, M)>, k: Seq<char>, v: M)
    requires
        forall|i: int| 0 <= i < ms.len() ==> str_lt(#[trigger] ms[i].0, k),
    ensures
        sorted_insert(ms, k, v) =~= ms.push((k, v)),
    decreases ms.len(),
{
    if ms.len() == 0 {
    } else {
        lemma_str_lt_asym(ms[0].0, k);
        lemma_str_lt_neq(ms[0].0, k);
        assert(forall|i: int| 0 <= i < ms.drop_first().len() ==> #[trigger] ms.drop_first()[i]
            == ms[i + 1]);
        lemma_sorted_insert_append(ms.drop_first(), k, v);
        assert(seq![ms[0]] + ms.drop_first().push((k, v)) =~= ms.push((k, v)));
    }
}

/// The keys after an insertion are the old keys plus the new one.
pub proof fn lemma_sorted_insert_keys<M>(ms: Seq<(Seq<char>, M)>, k: Seq<char>, v: M)
    ensures
        forall|i: int| 0 <= i < sorted_insert(ms, k, v).len()
            ==> #[trigger] sorted_insert(ms, k, v)[i].0 == k || exists|j: int|
            0 <= j < ms.len() && ms[j].0 == sorted_insert(ms, k, v)[i].0,
    decreases ms.len(),
{
    let out = sorted_insert(ms, k, v);
    if ms.len() == 0 {
    } else if str_lt(k, ms[0].0) {
    } else if k == ms[0].0 {
        assert forall|i: int| 0 <= i < out.len() implies #[trigger] out[i].0 == k || exists|j: int|
            0 <= j < ms.len() && ms[j].0 == out[i].0 by {
            if i > 0 {
                assert(out[i] == ms.drop_first()[i - 1]);
                assert(ms[i] == out[i]);
            }
        }
    } else {
        lemma_sorted_insert_keys(ms.drop_first(), k, v);
        let sub = sorted_insert(ms.drop_first(), k, v);
        assert forall|i: int| 0 <= i < out.len() implies #[trigger] out[i].0 == k || exists|j: int|
            0 <= j < ms.len() && ms[j].0 == out[i].0 by {
            if i == 0 {
                assert(out[0] == ms[0]);
                assert(ms[0].0 == out[0].0);
            } else {
                assert(out[i] == sub[i - 1]);
                if sub[i - 1].0 != k {
                    let j = choose|j: int|
                        0 <= j < ms.drop_first().len() && ms.drop_first()[j].0 == sub[i - 1].0;
                    assert(ms[j + 1].0 == out[i].0);
                }
            }
        }
    }
}

/// Insertion keeps the keys sorted.
pub proof fn lemma_sorted_insert_sorted<M>(ms: Seq<(Seq<char>, M)>, k: Seq<char>, v: M)
    requires
        map_sorted(ms),
    ensures
        map_sorted(sorted_insert(ms, k, v)),
    decreases ms.len(),
{
    let out = sorted_insert(ms, k, v);
    if ms.len() == 0 {
    } else if str_lt(k, ms[0].0) {
        assert forall|i: int| 0 <= i < out.len() - 1 implies str_lt(#[trigger] out[i].0, out[i + 1].0) by {
            if i > 0 {
                assert(out[i] == ms[i - 1] && out[i + 1] == ms[i]);
            }
        }
    } else if k == ms[0].0 {
        assert forall|i: int| 0 <= i < out.len() - 1 implies str_lt(#[trigger] out[i].0, out[i + 1].0) by {
            if i == 0 {
                assert(out[1] == ms.drop_first()[0]);
                assert(out[1] == ms[1]);
            } else {
                assert(out[i] == ms[i] && out[i + 1] == ms[i + 1]);
            }
        }
    } else {
        lemma_str_lt_connex(k, ms[0].0);
        assert(str_lt(ms[0].0, k));
        assert(forall|i: int| 0 <= i < ms.drop_first().len() ==> #[trigger] ms.drop_first()[i]
            == ms[i + 1]);
        lemma_sorted_insert_sorted(ms.drop_first(), k, v);
        let sub = sorted_insert(ms.drop_first(), k, v);
        lemma_sorted_insert_keys(ms.drop_first(), k, v);
        assert forall|i: int| 0 <= i < out.len() - 1 implies str_lt(#[trigger] out[i].0, out[i + 1].0) by {
            if i == 0 {
                assert(out[0] == ms[0] && out[1] == sub[0]);
                assert(sub[0].0 == k || exists|j: int|
                    0 <= j < ms.drop_first().len() && ms.drop_first()[j].0 == sub[0].0);
                if sub[0].0 != k {
                    let j = choose|j: int|
                        0 <= j < ms.drop_first().len() && ms.drop_first()[j].0 == sub[0].0;
                    if j > 0 {
                        lemma_map_sorted_pairwise(ms);
                    }
                    assert(str_lt(ms[0].0, ms[j + 1].0));
                }
            } else {
                assert(out[i] == sub[i - 1] && out[i + 1] == sub[i]);
            }
        }
    }
}

/// One entry of an insertion is the new pair or one of the old entries.
pub proof fn lemma_sorted_insert_members<M>(ms: Seq<(Seq<char>, M)>, k: Seq<char>, v: M)
    ensures
        forall|i: int| 0 <= i < sorted_insert(ms, k, v).len()
            ==> #[trigger] sorted_insert(ms, k, v)[i] == (k, v) || exists|j: int|
            0 <= j < ms.len() && ms[j] == sorted_insert(ms, k, v)[i],
    decreases ms.len(),
{
    let out = sorted_insert(ms, k, v);
    if ms.len() == 0 {
    } else if str_lt(k, ms[0].0) {
        assert forall|i: int| 0 <= i < out.len() implies #[trigger] out[i] == (k, v) || exists|
            j: int,
        | 0 <= j < ms.len() && ms[j] == out[i] by {
            if i > 0 {
                assert(ms[i - 1] == out[i]);
            }
        }
    } else if k == ms[0].0 {
        assert forall|i: int| 0 <= i < out.len() implies #[trigger] out[i] == (k, v) || exists|
            j: int,
        | 0 <= j < ms.len() && ms[j] == out[i] by {
            if i > 0 {
                assert(out[i] == ms.drop_first()[i - 1]);
                assert(ms[i] == out[i]);
            }
        }
    } else {
        lemma_sorted_insert_members(ms.drop_first(), k, v);
        let sub = sorted_insert(ms.drop_first(), k, v);
        assert forall|i: int| 0 <= i < out.len() implies #[trigger] out[i] == (k, v) || exists|
            j: int,
        | 0 <= j < ms.len() && ms[j] == out[i] by {
            if i == 0 {
                assert(ms[0] == out[0]);
            } else {
                assert(out[i] == sub[i - 1]);
                if sub[i - 1] != (k, v) {
                    let j = choose|j: int|
                        0 <= j < ms.drop_first().len() && ms.drop_first()[j] == sub[i - 1];
                    assert(ms[j + 1] == out[i]);
                }
            }
        }
    }
}

/// Positional characterization of `sorted_insert`: inserting at the first
/// position whose key is not below the new key.
pub proof fn lemma_sorted_insert_at<M>(ms: Seq<(Seq<char>, M)>, k: Seq<char>, v: M, i: int)
    requires
        0 <= i <= ms.len(),
        forall|j: int| 0 <= j < i ==> str_lt(#[trigger] ms[j].0, k),
        i < ms.len() ==> !str_lt(ms[i].0, k),
    ensures
        (i < ms.len() && ms[i].0 == k) ==> sorted_insert(ms, k, v) =~= ms.take(i) + seq![(k, v)]
            + ms.skip(i + 1),
        !(i < ms.len() && ms[i].0 == k) ==> sorted_insert(ms, k, v) =~= ms.take(i) + seq![(k, v)]
            + ms.skip(i),
    decreases i,
{
    if i == 0 {
        if ms.len() == 0 {
            assert(sorted_insert(ms, k, v) =~= ms.take(0) + seq![(k, v)] + ms.skip(0));
        } else if ms[0].0 == k {
            lemma_str_lt_irrefl(k);
            assert(sorted_insert(ms, k, v) == seq![(k, v)] + ms.drop_first());
            assert(ms.drop_first() =~= ms.skip(1));
            assert(sorted_insert(ms, k, v) =~= ms.take(0) + seq![(k, v)] + ms.skip(1));
        } else {
            lemma_str_lt_connex(k, ms[0].0);
            assert(str_lt(k, ms[0].0));
            assert(ms.skip(0) =~= ms);
            assert(sorted_insert(ms, k, v) =~= ms.take(0) + seq![(k, v)] + ms.skip(0));
        }
    } else {
        assert(str_lt(ms[0].0, k));
        lemma_str_lt_asym(ms[0].0, k);
        lemma_str_lt_neq(ms[0].0, k);
        let tail = ms.drop_first();
        assert(forall|j: int| 0 <= j < tail.len() ==> #[trigger] tail[j] == ms[j + 1]);
        lemma_sorted_insert_at(tail, k, v, i - 1);
        assert(sorted_insert(ms, k, v) == seq![ms[0]] + sorted_insert(tail, k, v));
        if i < ms.len() && ms[i].0 == k {
            assert(tail[i - 1].0 == k);
            assert(seq![ms[0]] + (tail.take(i - 1) + seq![(k, v)] + tail.skip(i)) =~= ms.take(i)
                + seq![(k, v)] + ms.skip(i + 1));
        } else {
            assert(seq![ms[0]] + (tail.take(i - 1) + seq![(k, v)] + tail.skip(i - 1)) =~= ms.take(
                i,
            ) + seq![(k, v)] + ms.skip(i));
        }
    }
}

/// A string-keyed map held in ascending key order. Whatever order entries
/// were inserted in, iteration and encode order is the ascending order of
/// the keys.
#[derive(Debug, Clone)]
pub struct SortedMap<T> {
    /// The bindings, always kept in ascending key order; `model_wf` of
    /// the containing kind states that order. Writing this field
    /// directly can break the order, and `encode`'s precondition
    /// (`model_wf`) then no longer holds: build maps through `new` and
    /// `insert`, which keep it.
    pub entries: Vec<(String, T)>,
}

impl<T: DeepView> DeepView for SortedMap<T> {
    type V = Seq<(Seq<char>, T::V)>;

    open spec fn deep_view(&self) -> Self::V {
        self.entries.deep_view()
    }
}

impl<T: DeepView> SortedMap<T> {
    /// The empty map.
    pub fn new() -> (r: Self)
        ensures
            r.deep_view() == Seq::<(Seq<char>, T::V)>::empty(),
    {
        let r = SortedMap { entries: Vec::new() };
        proof {
            assert(r.deep_view() =~= Seq::<(Seq<char>, T::V)>::empty());
        }
        r
    }

    pub fn len(&self) -> (n: usize)
        ensures
            n == self.deep_view().len(),
    {
        self.entries.len()
    }

    pub fn is_empty(&self) -> (r: bool)
        ensures
            r == (self.deep_view().len() == 0),
    {
        self.entries.len() == 0
    }

    /// The entries, in ascending key order.
    pub fn entries(&self) -> (r: &Vec<(String, T)>)
        ensures
            r.deep_view() == self.deep_view(),
    {
        &self.entries
    }

    /// Insert a binding; an equal key replaces the stored value. The
    /// entry goes to its place in the key order.
    #[verifier::loop_isolation(false)]
    pub fn insert(&mut self, k: String, v: T)
        ensures
            final(self).deep_view() == sorted_insert(old(self).deep_view(), k@, v.deep_view()),
    {
        let ghost ms = self.deep_view();
        let ghost gk = k;
        let ghost gv = v;
        let n = self.entries.len();
        proof {
            assert(ms.len() == n);
            assert(forall|j: int| 0 <= j < n ==> #[trigger] ms[j]
                == (self.entries@[j].0@, self.entries@[j].1.deep_view()));
        }
        let mut i: usize = 0;
        while i < n
            invariant
                i <= n,
                self == old(self),
                forall|j: int| 0 <= j < i ==> str_lt(#[trigger] ms[j].0, k@),
            decreases n - i,
        {
            if !str_lt_exec(self.entries[i].0.as_str(), k.as_str()) {
                break;
            }
            i += 1;
        }
        let ghost pos = i as int;
        let replace = i < n && self.entries[i].0 == k;
        proof {
            lemma_sorted_insert_at(ms, gk@, gv.deep_view(), pos);
        }
        if replace {
            self.entries.remove(i);
            self.entries.insert(i, (k, v));
            proof {
                assert(self.entries@ =~= old(self).entries@.take(pos).push((gk, gv))
                    + old(self).entries@.skip(pos + 1));
                lemma_deep_view_entries(self.entries);
                lemma_deep_view_entries(old(self).entries);
                assert(self.deep_view() =~= ms.take(pos) + seq![(gk@, gv.deep_view())] + ms.skip(
                    pos + 1,
                ));
            }
        } else {
            self.entries.insert(i, (k, v));
            proof {
                assert(self.entries@ =~= old(self).entries@.take(pos).push((gk, gv))
                    + old(self).entries@.skip(pos));
                lemma_deep_view_entries(self.entries);
                lemma_deep_view_entries(old(self).entries);
                assert(self.deep_view() =~= ms.take(pos) + seq![(gk@, gv.deep_view())] + ms.skip(
                    pos,
                ));
            }
        }
    }

    /// Look the key up.
    #[verifier::loop_isolation(false)]
    pub fn get(&self, k: &String) -> (r: Option<&T>)
        ensures
            match r {
                Some(t) => map_get(self.deep_view(), k@) == Some(t.deep_view()),
                None => map_get(self.deep_view(), k@) is None,
            },
    {
        let ghost ms = self.deep_view();
        let n = self.entries.len();
        proof {
            assert(ms.len() == n);
            assert(forall|j: int| 0 <= j < n ==> #[trigger] ms[j]
                == (self.entries@[j].0@, self.entries@[j].1.deep_view()));
            assert(ms.skip(0) =~= ms);
        }
        let mut i: usize = 0;
        while i < n
            invariant
                i <= n,
                map_get(ms, k@) == map_get(ms.skip(i as int), k@),
            decreases n - i,
        {
            if self.entries[i].0 == *k {
                proof {
                    assert(ms.skip(i as int)[0] == ms[i as int]);
                }
                return Some(&self.entries[i].1);
            }
            proof {
                assert(ms.skip(i as int)[0] == ms[i as int]);
                assert(ms.skip(i as int).drop_first() =~= ms.skip(i + 1));
            }
            i += 1;
        }
        proof {
            assert(ms.skip(n as int) =~= Seq::<(Seq<char>, T::V)>::empty());
        }
        None
    }
}

/// Pointwise form of the deep view of an entry vector.
pub proof fn lemma_deep_view_entries<T: DeepView>(entries: Vec<(String, T)>)
    ensures
        entries.deep_view().len() == entries@.len(),
        forall|j: int| 0 <= j < entries@.len() ==> #[trigger] entries.deep_view()[j]
            == (entries@[j].0@, entries@[j].1.deep_view()),
{
    assert forall|j: int| 0 <= j < entries@.len() implies #[trigger] entries.deep_view()[j]
        == (entries@[j].0@, entries@[j].1.deep_view()) by {
        assert(entries.deep_view()[j] == entries@[j].deep_view());
    }
}

/// First binding for the key, if any.
pub open spec fn map_get<M>(ms: Seq<(Seq<char>, M)>, k: Seq<char>) -> Option<M>
    decreases ms.len(),
{
    if ms.len() == 0 {
        None
    } else if ms[0].0 == k {
        Some(ms[0].1)
    } else {
        map_get(ms.drop_first(), k)
    }
}

// ---------------------------------------------------------------------
// The named-bucket codec: decode collects the source object's entries
// into key order; encode emits them in that order.
// ---------------------------------------------------------------------

/// Fold the source entries into a sorted map, decoding each value.
pub open spec fn sd_map<T: Codec>(
    acc: Seq<(Seq<char>, T::V)>,
    es: SpecEntries,
) -> Option<Seq<(Seq<char>, T::V)>>
    decreases es.len(),
{
    if es.len() == 0 {
        Some(acc)
    } else {
        match T::spec_decode(es[0].1) {
            None => None,
            Some(m) => sd_map::<T>(sorted_insert(acc, es[0].0, m), es.drop_first()),
        }
    }
}

/// Encode each binding, in stored (ascending) order.
pub open spec fn se_map<T: Codec>(ms: Seq<(Seq<char>, T::V)>) -> SpecEntries {
    ms.map_values(|e: (Seq<char>, T::V)| (e.0, T::spec_encode(e.1)))
}

/// Folding the encoded entries of a sorted tail onto a sorted prefix
/// reassembles the whole map.
pub proof fn lemma_sd_map_roundtrip<T: Codec>(
    acc: Seq<(Seq<char>, T::V)>,
    ms: Seq<(Seq<char>, T::V)>,
)
    requires
        map_sorted(ms),
        forall|i: int| 0 <= i < ms.len() ==> T::model_wf(#[trigger] ms[i].1),
        forall|i: int, j: int|
            0 <= i < acc.len() && 0 <= j < ms.len() ==> str_lt(
                #[trigger] acc[i].0,
                #[trigger] ms[j].0,
            ),
    ensures
        sd_map::<T>(acc, se_map::<T>(ms)) == Some(acc + ms),
    decreases ms.len(),
{
    let enc = se_map::<T>(ms);
    if ms.len() == 0 {
        assert(enc =~= Seq::<(Seq<char>, SpecVal)>::empty());
        assert(acc + ms =~= acc);
    } else {
        assert(enc[0] == (ms[0].0, T::spec_encode(ms[0].1)));
        T::lemma_codec(ms[0].1);
        let acc2 = sorted_insert(acc, ms[0].0, ms[0].1);
        lemma_sorted_insert_append(acc, ms[0].0, ms[0].1);
        assert(acc2 =~= acc.push(ms[0]));
        let tail = ms.drop_first();
        assert(forall|i: int| 0 <= i < tail.len() ==> #[trigger] tail[i] == ms[i + 1]);
        lemma_map_sorted_pairwise(ms);
        assert forall|i: int, j: int| 0 <= i < acc2.len() && 0 <= j < tail.len() implies str_lt(
            #[trigger] acc2[i].0,
            #[trigger] tail[j].0,
        ) by {
            if i < acc.len() {
                assert(acc2[i] == acc[i]);
            } else {
                assert(acc2[i] == ms[0]);
                assert(str_lt(ms[0].0, ms[j + 1].0));
            }
        }
        assert(enc.drop_first() =~= se_map::<T>(tail));
        lemma_sd_map_roundtrip::<T>(acc2, tail);
        assert(sd_map::<T>(acc, enc) == Some(acc2 + tail));
        assert(acc2 + tail =~= acc + ms);
    }
}

/// Every key of a fold result comes from the accumulator or the source.
pub proof fn lemma_sd_map_keys<T: Codec>(acc: Seq<(Seq<char>, T::V)>, es: SpecEntries, k: Seq<char>)
    requires
        sd_map::<T>(acc, es) is Some,
        forall|i: int| 0 <= i < acc.len() ==> (#[trigger] acc[i].0) != k,
        forall|i: int| 0 <= i < es.len() ==> (#[trigger] es[i].0) != k,
    ensures
        forall|i: int| 0 <= i < sd_map::<T>(acc, es)->0.len() ==> (#[trigger] sd_map::<T>(
            acc,
            es,
        )->0[i].0) != k,
    decreases es.len(),
{
    if es.len() > 0 {
        let m = T::spec_decode(es[0].1)->0;
        let acc2 = sorted_insert(acc, es[0].0, m);
        lemma_sorted_insert_members(acc, es[0].0, m);
        assert forall|i: int| 0 <= i < acc2.len() implies (#[trigger] acc2[i].0) != k by {
            if acc2[i] != (es[0].0, m) {
                let j = choose|j: int| 0 <= j < acc.len() && acc[j] == acc2[i];
                assert(acc[j].0 != k);
            }
        }
        assert(forall|i: int| 0 <= i < es.drop_first().len() ==> #[trigger] es.drop_first()[i]
            == es[i + 1]);
        lemma_sd_map_keys::<T>(acc2, es.drop_first(), k);
    }
}

impl<T: Codec> Codec for SortedMap<T> {
    open spec fn spec_decode(v: SpecVal) -> Option<Seq<(Seq<char>, T::V)>> {
        match v {
            SpecVal::Obj(es) => sd_map::<T>(Seq::empty(), es),
            _ => None,
        }
    }

    open spec fn spec_encode(ms: Seq<(Seq<char>, T::V)>) -> SpecVal {
        SpecVal::Obj(se_map::<T>(ms))
    }

    open spec fn model_wf(ms: Seq<(Seq<char>, T::V)>) -> bool {
        map_sorted(ms) && forall|i: int| 0 <= i < ms.len() ==> T::model_wf(#[trigger] ms[i].1)
    }

    open spec fn sentinel_free(ms: Seq<(Seq<char>, T::V)>) -> bool {
        forall|i: int| 0 <= i < ms.len() ==> (#[trigger] ms[i].0) != ref_key()
    }

    proof fn lemma_codec(ms: Seq<(Seq<char>, T::V)>) {
        lemma_sd_map_roundtrip::<T>(Seq::empty(), ms);
        assert(Seq::empty() + ms =~= ms);
        let enc = se_map::<T>(ms);
        lemma_map_sorted_pairwise(ms);
        assert forall|i: int, j: int| 0 <= i < j < enc.len() implies enc[i].0 != enc[j].0 by {
            assert(enc[i].0 == ms[i].0 && enc[j].0 == ms[j].0);
            lemma_str_lt_neq(ms[i].0, ms[j].0);
        }
        assert(keys_unique(enc));
        assert forall|i: int| 0 <= i < enc.len() implies wf_val(#[trigger] enc[i].1) by {
            T::lemma_codec(ms[i].1);
            assert(enc[i].1 == T::spec_encode(ms[i].1));
        }
        if Self::sentinel_free(ms) {
            if obj_get(enc, ref_key()) is Some {
                lemma_has_key_index(enc, ref_key());
                let i = choose|i: int| 0 <= i < enc.len() && enc[i].0 == ref_key();
                assert(ms[i].0 == ref_key());
            }
        }
    }

    proof fn lemma_decode_wf(v: SpecVal) {
        let es = v->Obj_0;
        lemma_sd_map_wf::<T>(Seq::empty(), es);
    }

    proof fn lemma_decode_sentinel(v: SpecVal) {
        let es = v->Obj_0;
        assert forall|i: int| 0 <= i < es.len() implies (#[trigger] es[i].0) != ref_key() by {
            if es[i].0 == ref_key() {
                lemma_index_has_key(es, i);
            }
        }
        lemma_sd_map_keys::<T>(Seq::empty(), es, ref_key());
    }

    /// Beyond the inherited exactness contract: anything but an object is
    /// a type mismatch; a failing value reports that value's own error.
    #[verifier::loop_isolation(false)]
    fn decode(v: &Value) -> (r: Result<Self, DecodeError>)
        ensures
            !(v.deep_view() is Obj) ==> (r matches Err(e) && e is TypeMismatch),
    {
        match v {
            Value::Obj(entries) => {
                let ghost es = view_entries(entries@);
                proof {
                    lemma_view_entries(entries@);
                    assert(es.skip(0) =~= es);
                }
                let mut out: SortedMap<T> = SortedMap::new();
                let n = entries.len();
                let mut i: usize = 0;
                while i < n
                    invariant
                        n == entries.len(),
                        i <= n,
                        es.len() == n,
                        forall|j: int| 0 <= j < n ==> #[trigger] es[j]
                            == (entries@[j].0@, view_val(entries@[j].1)),
                        sd_map::<T>(Seq::empty(), es) == sd_map::<T>(
                            out.deep_view(),
                            es.skip(i as int),
                        ),
                    decreases n - i,
                {
                    let ghost pre = out.deep_view();
                    proof {
                        assert(es.skip(i as int).len() > 0);
                        assert(es.skip(i as int)[0] == es[i as int]);
                        assert(es.skip(i as int).drop_first() =~= es.skip(i + 1));
                    }
                    match T::decode(&entries[i].1) {
                        Ok(t) => {
                            let k = entries[i].0.clone();
                            out.insert(k, t);
                        },
                        Err(e) => {
                            return Err(e);
                        },
                    }
                    i += 1;
                }
                proof {
                    assert(es.skip(n as int) =~= Seq::<(Seq<char>, SpecVal)>::empty());
                    if wf_val(v.deep_view()) {
                        Self::lemma_decode_wf(v.deep_view());
                    }
                }
                Ok(out)
            },
            _ => Err(
                DecodeError::TypeMismatch {
                    field: "".to_owned(),
                    kind: "map".to_owned(),
                    expected: "object".to_owned(),
                },
            ),
        }
    }

    #[verifier::loop_isolation(false)]
    fn encode(&self) -> (r: Value) {
        let ghost ms = self.deep_view();
        proof {
            lemma_deep_view_entries(self.entries);
        }
        let mut out: Vec<(String, Value)> = Vec::new();
        let n = self.entries.len();
        let mut i: usize = 0;
        while i < n
            invariant
                n == self.entries@.len(),
                i <= n,
                view_entries(out@) =~= se_map::<T>(ms.take(i as int)),
            decreases n - i,
        {
            proof {
                assert(T::model_wf(ms[i as int].1));
                assert(self.entries@[i as int].1.deep_view() == ms[i as int].1);
            }
            let ghost pre = out@;
            let k = self.entries[i].0.clone();
            let ev = self.entries[i].1.encode();
            let ghost gk = k;
            let ghost gv = ev;
            out.push((k, ev));
            proof {
                crate::value::lemma_view_entries_push(pre, gk, gv);
                assert(ms.take(i + 1) =~= ms.take(i as int).push(ms[i as int]));
                assert(se_map::<T>(ms.take(i + 1)) =~= se_map::<T>(ms.take(i as int)).push(
                    (ms[i as int].0, T::spec_encode(ms[i as int].1)),
                ));
                assert(view_entries(out@) =~= se_map::<T>(ms.take(i + 1)));
            }
            i += 1;
        }
        proof {
            assert(ms.take(n as int) =~= ms);
        }
        Value::Obj(out)
    }
}

/// The fold keeps the accumulated map sorted and its values well-formed.
pub proof fn lemma_sd_map_wf<T: Codec>(acc: Seq<(Seq<char>, T::V)>, es: SpecEntries)
    requires
        sd_map::<T>(acc, es) is Some,
        map_sorted(acc),
        forall|i: int| 0 <= i < acc.len() ==> T::model_wf(#[trigger] acc[i].1),
        forall|i: int| 0 <= i < es.len() ==> wf_val(#[trigger] es[i].1),
    ensures
        map_sorted(sd_map::<T>(acc, es)->0),
        forall|i: int| 0 <= i < sd_map::<T>(acc, es)->0.len() ==> T::model_wf(
            #[trigger] sd_map::<T>(acc, es)->0[i].1,
        ),
    decreases es.len(),
{
    if es.len() > 0 {
        let m = T::spec_decode(es[0].1)->0;
        let acc2 = sorted_insert(acc, es[0].0, m);
        lemma_sorted_insert_sorted(acc, es[0].0, m);
        lemma_sorted_insert_members(acc, es[0].0, m);
        assert(T::model_wf(m)) by {
            T::lemma_decode_wf(es[0].1);
        }
        assert forall|i: int| 0 <= i < acc2.len() implies T::model_wf(#[trigger] acc2[i].1) by {
            if acc2[i] != (es[0].0, m) {
                let j = choose|j: int| 0 <= j < acc.len() && acc[j] == acc2[i];
                assert(T::model_wf(acc[j].1));
            }
        }
        assert(forall|i: int| 0 <= i < es.drop_first().len() ==> #[trigger] es.drop_first()[i]
            == es[i + 1]);
        lemma_sd_map_wf::<T>(acc2, es.drop_first());
    }
}

} // verus!
