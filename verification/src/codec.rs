//! The decode/encode engine: the `Codec` contract that every object kind
//! meets, the field-level helpers that route declared fields, and the
//! codecs for free-form values, strings and sequences.

use vstd::prelude::*;

use crate::err::DecodeError;
use crate::obj::{obj_get, has_key, lemma_get_skip, opt_entry};
use crate::value::{SpecEntries, SpecVal, Value, view_arr, view_entries, view_val, wf_val,
    lemma_view_arr, lemma_view_entries, lemma_view_arr_push, lemma_view_entries_push};

verus! {

/// The sentinel key that marks a pointer node.
pub open spec fn ref_key() -> Seq<char> {
    "$ref"@
}

/// The tree is not an object carrying the pointer sentinel key, so the
/// shape-based union dispatch will never mistake it for a pointer.
pub open spec fn no_ref_key(v: SpecVal) -> bool {
    !(v is Obj && has_key(v->Obj_0, ref_key()))
}

/// The contract of one object kind: how it decodes from and encodes into
/// the wire tree.
///
/// `spec_decode` and `spec_encode` are the mathematical statements of the
/// two directions; `decode` and `encode` are the executable engine, each
/// pinned to its statement. `lemma_codec` is the round-trip law: decoding
/// what was encoded restores the model exactly.
pub trait Codec: DeepView + Sized {
    /// What decode yields on a given tree, or `None` where decode fails.
    spec fn spec_decode(v: SpecVal) -> Option<Self::V>;

    /// The tree that encode writes for a given model.
    spec fn spec_encode(m: Self::V) -> SpecVal;

    /// Internal consistency of a model: named buckets sorted by key,
    /// extension entries unique and clear of declared names, and so on
    /// recursively. Decode always yields a well-formed model.
    spec fn model_wf(m: Self::V) -> bool;

    /// The model will not encode to an object carrying the pointer
    /// sentinel key. Trivially true for kinds without an extension
    /// bucket; for bucket kinds it rules the sentinel key out of the
    /// bucket.
    spec fn sentinel_free(m: Self::V) -> bool;

    /// Round-trip law: encoding a well-formed model and decoding the
    /// result restores the model; the encoded tree is well-formed; and a
    /// sentinel-free model encodes without the pointer sentinel key.
    proof fn lemma_codec(m: Self::V)
        requires
            Self::model_wf(m),
        ensures
            Self::spec_decode(Self::spec_encode(m)) == Some(m),
            wf_val(Self::spec_encode(m)),
            Self::sentinel_free(m) ==> no_ref_key(Self::spec_encode(m)),
    ;

    /// Decoding a well-formed tree yields a well-formed model.
    proof fn lemma_decode_wf(v: SpecVal)
        requires
            Self::spec_decode(v) is Some,
            wf_val(v),
        ensures
            Self::model_wf(Self::spec_decode(v)->0),
    ;

    /// A tree without the pointer sentinel key decodes, if at all, to a
    /// sentinel-free model.
    proof fn lemma_decode_sentinel(v: SpecVal)
        requires
            Self::spec_decode(v) is Some,
            no_ref_key(v),
        ensures
            Self::sentinel_free(Self::spec_decode(v)->0),
    ;

    fn decode(v: &Value) -> (r: Result<Self, DecodeError>)
        ensures
            (r is Ok) == (Self::spec_decode(v.deep_view()) is Some),
            r matches Ok(t) ==> Self::spec_decode(v.deep_view()) == Some(t.deep_view()),
            (r is Ok && wf_val(v.deep_view())) ==> Self::model_wf(
                Self::spec_decode(v.deep_view())->0,
            ),
    ;

    fn encode(&self) -> (r: Value)
        requires
            Self::model_wf(self.deep_view()),
        ensures
            r.deep_view() == Self::spec_encode(self.deep_view()),
    ;
}

// ---------------------------------------------------------------------
// Field decode statements
// ---------------------------------------------------------------------

/// A required string field: `None` means the field is missing or not a
/// string, which fails the record.
pub open spec fn sd_req_str(es: SpecEntries, k: Seq<char>) -> Option<Seq<char>> {
    match obj_get(es, k) {
        Some(SpecVal::Str(s)) => Some(s),
        _ => None,
    }
}

/// An optional string field: absent is `Some(None)`; present with the
/// wrong shape fails the record.
pub open spec fn sd_opt_str(es: SpecEntries, k: Seq<char>) -> Option<Option<Seq<char>>> {
    match obj_get(es, k) {
        None => Some(None),
        Some(SpecVal::Str(s)) => Some(Some(s)),
        Some(_) => None,
    }
}

/// An optional boolean field.
pub open spec fn sd_opt_bool(es: SpecEntries, k: Seq<char>) -> Option<Option<bool>> {
    match obj_get(es, k) {
        None => Some(None),
        Some(SpecVal::Bool(b)) => Some(Some(b)),
        Some(_) => None,
    }
}

/// A required nested field decoded by `T`.
pub open spec fn sd_req<T: Codec>(es: SpecEntries, k: Seq<char>) -> Option<T::V> {
    match obj_get(es, k) {
        Some(v) => T::spec_decode(v),
        None => None,
    }
}

/// An optional nested field decoded by `T`.
pub open spec fn sd_opt<T: Codec>(es: SpecEntries, k: Seq<char>) -> Option<Option<T::V>> {
    match obj_get(es, k) {
        None => Some(None),
        Some(v) => match T::spec_decode(v) {
            Some(m) => Some(Some(m)),
            None => None,
        },
    }
}

// ---------------------------------------------------------------------
// Field encode statements: the slot a field contributes to the record's
// field image (`None` = key omitted).
// ---------------------------------------------------------------------

pub open spec fn str_slot(s: Seq<char>) -> Option<SpecVal> {
    Some(SpecVal::Str(s))
}

pub open spec fn opt_str_slot(o: Option<Seq<char>>) -> Option<SpecVal> {
    match o {
        Some(s) => Some(SpecVal::Str(s)),
        None => None,
    }
}

pub open spec fn opt_bool_slot(o: Option<bool>) -> Option<SpecVal> {
    match o {
        Some(b) => Some(SpecVal::Bool(b)),
        None => None,
    }
}

pub open spec fn req_slot<T: Codec>(m: T::V) -> Option<SpecVal> {
    Some(T::spec_encode(m))
}

pub open spec fn opt_slot<T: Codec>(o: Option<T::V>) -> Option<SpecVal> {
    match o {
        Some(m) => Some(T::spec_encode(m)),
        None => None,
    }
}

// ---------------------------------------------------------------------
// Executable plumbing
// ---------------------------------------------------------------------

impl Clone for Value {
    #[verifier::loop_isolation(false)]
    fn clone(&self) -> (r: Self)
        ensures
            r.deep_view() == self.deep_view(),
        decreases self,
    {
        match self {
            Value::Null => Value::Null,
            Value::Bool(b) => Value::Bool(*b),
            Value::Int(i) => Value::Int(*i),
            Value::Str(s) => Value::Str(s.clone()),
            Value::Arr(items) => {
                let mut out: Vec<Value> = Vec::new();
                let n = items.len();
                let mut i: usize = 0;
                while i < n
                    invariant
                        n == items.len(),
                        i <= n,
                        out@.len() == i,
                        forall|j: int| 0 <= j < i ==> #[trigger] out@[j].deep_view()
                            == items@[j].deep_view(),
                    decreases n - i,
                {
                    proof {
                        assert(decreases_to!(*self => (*self)->Arr_0));
                        assert((*self)->Arr_0 == *items);
                        assert(decreases_to!(*items => items@[i as int]));
                    }
                    out.push(items[i].clone());
                    i += 1;
                }
                proof {
                    lemma_view_arr(out@);
                    lemma_view_arr(items@);
                    assert forall|j: int| 0 <= j < n implies view_arr(out@)[j] == view_arr(
                        items@,
                    )[j] by {
                        assert(out@[j].deep_view() == items@[j].deep_view());
                    }
                    assert(view_arr(out@) =~= view_arr(items@));
                }
                Value::Arr(out)
            },
            Value::Obj(entries) => {
                let mut out: Vec<(String, Value)> = Vec::new();
                let n = entries.len();
                let mut i: usize = 0;
                while i < n
                    invariant
                        n == entries.len(),
                        i <= n,
                        out@.len() == i,
                        forall|j: int| 0 <= j < i ==> #[trigger] out@[j].0@ == entries@[j].0@
                            && out@[j].1.deep_view() == entries@[j].1.deep_view(),
                    decreases n - i,
                {
                    proof {
                        assert(decreases_to!(*self => (*self)->Obj_0));
                        assert((*self)->Obj_0 == *entries);
                        assert(decreases_to!(*entries => entries@[i as int]));
                        assert(decreases_to!(entries@[i as int] => entries@[i as int].1));
                    }
                    let k = entries[i].0.clone();
                    let v = entries[i].1.clone();
                    out.push((k, v));
                    i += 1;
                }
                proof {
                    lemma_view_entries(out@);
                    lemma_view_entries(entries@);
                    assert forall|j: int| 0 <= j < n implies view_entries(out@)[j] == view_entries(
                        entries@,
                    )[j] by {
                        assert(out@[j].0@ == entries@[j].0@);
                        assert(out@[j].1.deep_view() == entries@[j].1.deep_view());
                    }
                    assert(view_entries(out@) =~= view_entries(entries@));
                }
                Value::Obj(out)
            },
        }
    }
}

/// First entry of the object with the given key, if any.
#[verifier::loop_isolation(false)]
pub fn find_entry<'a>(entries: &'a Vec<(String, Value)>, k: &String) -> (r: Option<&'a Value>)
    ensures
        match r {
            Some(v) => obj_get(view_entries(entries@), k@) == Some(v.deep_view()),
            None => obj_get(view_entries(entries@), k@) is None,
        },
{
    let ghost es = view_entries(entries@);
    proof {
        lemma_view_entries(entries@);
    }
    let n = entries.len();
    let mut i: usize = 0;
    while i < n
        invariant
            n == entries.len(),
            es == view_entries(entries@),
            es.len() == entries@.len(),
            forall|j: int| 0 <= j < entries@.len() ==> #[trigger] es[j]
                == (entries@[j].0@, view_val(entries@[j].1)),
            i <= n,
            forall|j: int| 0 <= j < i ==> #[trigger] es[j].0 != k@,
        decreases n - i,
    {
        if entries[i].0 == *k {
            proof {
                lemma_get_skip(es, k@, i as int);
                assert(es.skip(i as int)[0] == es[i as int]);
            }
            return Some(&entries[i].1);
        }
        i += 1;
    }
    proof {
        lemma_get_skip(es, k@, n as int);
        assert(es.skip(n as int) =~= Seq::empty());
    }
    None
}

/// Decode a required string field.
pub fn dec_req_str(entries: &Vec<(String, Value)>, k: &str, kind: &str) -> (r: Result<
    String,
    DecodeError,
>)
    ensures
        (r is Ok) == (sd_req_str(view_entries(entries@), k@) is Some),
        r matches Ok(s) ==> sd_req_str(view_entries(entries@), k@) == Some(s@),
        obj_get(view_entries(entries@), k@) is None ==> (r matches Err(e)
            && e is MissingRequiredField),
        (match obj_get(view_entries(entries@), k@) {
            Some(sv) => !(sv is Str),
            None => false,
        }) ==> (r matches Err(e) && e is TypeMismatch),
{
    let ks = k.to_owned();
    match find_entry(entries, &ks) {
        Some(Value::Str(s)) => Ok(s.clone()),
        Some(_) => Err(
            DecodeError::TypeMismatch {
                field: k.to_owned(),
                kind: kind.to_owned(),
                expected: "string".to_owned(),
            },
        ),
        None => Err(
            DecodeError::MissingRequiredField { field: k.to_owned(), kind: kind.to_owned() },
        ),
    }
}

/// Decode an optional string field; absence is not an error.
pub fn dec_opt_str(entries: &Vec<(String, Value)>, k: &str, kind: &str) -> (r: Result<
    Option<String>,
    DecodeError,
>)
    ensures
        (r is Ok) == (sd_opt_str(view_entries(entries@), k@) is Some),
        r matches Ok(o) ==> sd_opt_str(view_entries(entries@), k@) == Some(o.deep_view()),
        r is Err ==> (r matches Err(e) && e is TypeMismatch),
{
    let ks = k.to_owned();
    match find_entry(entries, &ks) {
        None => Ok(None),
        Some(Value::Str(s)) => Ok(Some(s.clone())),
        Some(_) => Err(
            DecodeError::TypeMismatch {
                field: k.to_owned(),
                kind: kind.to_owned(),
                expected: "string".to_owned(),
            },
        ),
    }
}

/// Decode an optional boolean field.
pub fn dec_opt_bool(entries: &Vec<(String, Value)>, k: &str, kind: &str) -> (r: Result<
    Option<bool>,
    DecodeError,
>)
    ensures
        (r is Ok) == (sd_opt_bool(view_entries(entries@), k@) is Some),
        r matches Ok(o) ==> sd_opt_bool(view_entries(entries@), k@) == Some(o),
        r is Err ==> (r matches Err(e) && e is TypeMismatch),
{
    let ks = k.to_owned();
    match find_entry(entries, &ks) {
        None => Ok(None),
        Some(Value::Bool(b)) => Ok(Some(*b)),
        Some(_) => Err(
            DecodeError::TypeMismatch {
                field: k.to_owned(),
                kind: kind.to_owned(),
                expected: "boolean".to_owned(),
            },
        ),
    }
}

/// Decode a required nested field with `T`'s decoder.
pub fn dec_req<T: Codec>(entries: &Vec<(String, Value)>, k: &str, kind: &str) -> (r: Result<
    T,
    DecodeError,
>)
    ensures
        (r is Ok) == (sd_req::<T>(view_entries(entries@), k@) is Some),
        r matches Ok(t) ==> sd_req::<T>(view_entries(entries@), k@) == Some(t.deep_view()),
        (r is Ok && (match obj_get(view_entries(entries@), k@) {
            Some(sv) => wf_val(sv),
            None => false,
        })) ==> T::model_wf(sd_req::<T>(view_entries(entries@), k@)->0),
        obj_get(view_entries(entries@), k@) is None ==> (r matches Err(e)
            && e is MissingRequiredField),
{
    let ks = k.to_owned();
    match find_entry(entries, &ks) {
        Some(v) => T::decode(v),
        None => Err(
            DecodeError::MissingRequiredField { field: k.to_owned(), kind: kind.to_owned() },
        ),
    }
}

/// Decode an optional nested field with `T`'s decoder.
pub fn dec_opt<T: Codec>(entries: &Vec<(String, Value)>, k: &str) -> (r: Result<
    Option<T>,
    DecodeError,
>)
    ensures
        (r is Ok) == (sd_opt::<T>(view_entries(entries@), k@) is Some),
        r matches Ok(o) ==> sd_opt::<T>(view_entries(entries@), k@) == Some(o.deep_view()),
        (r is Ok && (match obj_get(view_entries(entries@), k@) {
            Some(sv) => wf_val(sv),
            None => true,
        })) ==> (match sd_opt::<T>(view_entries(entries@), k@)->0 {
            Some(m) => T::model_wf(m),
            None => true,
        }),
{
    let ks = k.to_owned();
    match find_entry(entries, &ks) {
        None => Ok(None),
        Some(v) => match T::decode(v) {
            Ok(t) => Ok(Some(t)),
            Err(e) => Err(e),
        },
    }
}

/// Append one field entry to an object under construction.
pub fn enc_field(out: &mut Vec<(String, Value)>, k: &str, v: Value)
    ensures
        view_entries(final(out)@) =~= view_entries(old(out)@) + seq![(k@, v.deep_view())],
{
    let ghost pre = out@;
    let kk = k.to_owned();
    let ghost gk = kk;
    let ghost gv = v;
    out.push((kk, v));
    proof {
        lemma_view_entries_push(pre, gk, gv);
        assert(view_entries(pre).push((gk@, view_val(gv))) =~= view_entries(pre) + seq![
            (gk@, view_val(gv)),
        ]);
    }
}

/// Write a required string field.
pub fn enc_str(out: &mut Vec<(String, Value)>, k: &str, s: &String)
    ensures
        view_entries(final(out)@) =~= view_entries(old(out)@) + opt_entry(k@, str_slot(s@)),
{
    enc_field(out, k, Value::Str(s.clone()));
}

/// Write an optional string field; an absent field writes nothing.
pub fn enc_opt_str(out: &mut Vec<(String, Value)>, k: &str, o: &Option<String>)
    ensures
        view_entries(final(out)@) =~= view_entries(old(out)@) + opt_entry(
            k@,
            opt_str_slot(o.deep_view()),
        ),
{
    match o {
        Some(s) => enc_field(out, k, Value::Str(s.clone())),
        None => {
            proof {
                assert(view_entries(out@) =~= view_entries(out@) + Seq::empty());
            }
        },
    }
}

/// Write an optional boolean field.
pub fn enc_opt_bool(out: &mut Vec<(String, Value)>, k: &str, o: &Option<bool>)
    ensures
        view_entries(final(out)@) =~= view_entries(old(out)@) + opt_entry(k@, opt_bool_slot(*o)),
{
    match o {
        Some(b) => enc_field(out, k, Value::Bool(*b)),
        None => {
            proof {
                assert(view_entries(out@) =~= view_entries(out@) + Seq::empty());
            }
        },
    }
}

/// Write a required nested field with `T`'s encoder.
pub fn enc_req<T: Codec>(out: &mut Vec<(String, Value)>, k: &str, t: &T)
    requires
        T::model_wf(t.deep_view()),
    ensures
        view_entries(final(out)@) =~= view_entries(old(out)@) + opt_entry(
            k@,
            req_slot::<T>(t.deep_view()),
        ),
{
    let v = t.encode();
    enc_field(out, k, v);
}

/// Write an optional nested field with `T`'s encoder.
pub fn enc_opt<T: Codec>(out: &mut Vec<(String, Value)>, k: &str, o: &Option<T>)
    requires
        o matches Some(t) ==> T::model_wf(t.deep_view()),
    ensures
        view_entries(final(out)@) =~= view_entries(old(out)@) + opt_entry(
            k@,
            opt_slot::<T>(o.deep_view()),
        ),
{
    match o {
        Some(t) => {
            let v = t.encode();
            enc_field(out, k, v);
        },
        None => {
            proof {
                assert(view_entries(out@) =~= view_entries(out@) + Seq::empty());
            }
        },
    }
}

/// Append the extension bucket, entry by entry, in its stored order.
#[verifier::loop_isolation(false)]
pub fn enc_extras(out: &mut Vec<(String, Value)>, extras: &Vec<(String, Value)>)
    ensures
        view_entries(final(out)@) =~= view_entries(old(out)@) + view_entries(extras@),
{
    let ghost base = out@;
    let n = extras.len();
    let mut i: usize = 0;
    proof {
        lemma_view_entries(extras@);
    }
    while i < n
        invariant
            n == extras.len(),
            i <= n,
            view_entries(extras@).len() == n,
            forall|j: int| 0 <= j < n ==> #[trigger] view_entries(extras@)[j]
                == (extras@[j].0@, view_val(extras@[j].1)),
            view_entries(out@) =~= view_entries(base) + view_entries(extras@).take(i as int),
        decreases n - i,
    {
        let ghost pre = out@;
        let k = extras[i].0.clone();
        let v = extras[i].1.clone();
        let ghost gk = k;
        let ghost gv = v;
        out.push((k, v));
        proof {
            lemma_view_entries_push(pre, gk, gv);
            assert(view_entries(extras@).take(i as int).push((gk@, view_val(gv)))
                =~= view_entries(extras@).take(i + 1));
            assert(view_entries(out@) =~= view_entries(base) + view_entries(extras@).take(i + 1));
        }
        i += 1;
    }
    proof {
        assert(view_entries(extras@).take(n as int) =~= view_entries(extras@));
    }
}

// ---------------------------------------------------------------------
// Codec for free-form values: the identity engine.
// ---------------------------------------------------------------------

impl Codec for Value {
    open spec fn spec_decode(v: SpecVal) -> Option<SpecVal> {
        Some(v)
    }

    open spec fn spec_encode(m: SpecVal) -> SpecVal {
        m
    }

    open spec fn model_wf(m: SpecVal) -> bool {
        wf_val(m)
    }

    open spec fn sentinel_free(m: SpecVal) -> bool {
        no_ref_key(m)
    }

    proof fn lemma_codec(m: SpecVal) {
    }

    proof fn lemma_decode_wf(v: SpecVal) {
    }

    proof fn lemma_decode_sentinel(v: SpecVal) {
    }

    fn decode(v: &Value) -> (r: Result<Self, DecodeError>) {
        Ok(v.clone())
    }

    fn encode(&self) -> (r: Value) {
        self.clone()
    }
}

// ---------------------------------------------------------------------
// Codec for plain strings.
// ---------------------------------------------------------------------

impl Codec for String {
    open spec fn spec_decode(v: SpecVal) -> Option<Seq<char>> {
        match v {
            SpecVal::Str(s) => Some(s),
            _ => None,
        }
    }

    open spec fn spec_encode(m: Seq<char>) -> SpecVal {
        SpecVal::Str(m)
    }

    open spec fn model_wf(m: Seq<char>) -> bool {
        true
    }

    open spec fn sentinel_free(m: Seq<char>) -> bool {
        true
    }

    proof fn lemma_codec(m: Seq<char>) {
    }

    proof fn lemma_decode_wf(v: SpecVal) {
    }

    proof fn lemma_decode_sentinel(v: SpecVal) {
    }

    /// Beyond the inherited exactness contract: anything but a string is
    /// a type mismatch.
    fn decode(v: &Value) -> (r: Result<Self, DecodeError>)
        ensures
            !(v.deep_view() is Str) ==> (r matches Err(e) && e is TypeMismatch),
    {
        match v {
            Value::Str(s) => Ok(s.clone()),
            _ => Err(
                DecodeError::TypeMismatch {
                    field: "".to_owned(),
                    kind: "string".to_owned(),
                    expected: "string".to_owned(),
                },
            ),
        }
    }

    fn encode(&self) -> (r: Value) {
        Value::Str(self.clone())
    }
}

// ---------------------------------------------------------------------
// Codec for sequences of a decodable element.
// ---------------------------------------------------------------------

/// Element-wise decode of an array body; fails if any element fails.
pub open spec fn sd_arr<T: Codec>(items: Seq<SpecVal>) -> Option<Seq<T::V>>
    decreases items,
{
    if items.len() == 0 {
        Some(Seq::empty())
    } else {
        match T::spec_decode(items[0]) {
            None => None,
            Some(m) => match sd_arr::<T>(items.drop_first()) {
                None => None,
                Some(rest) => Some(seq![m] + rest),
            },
        }
    }
}

/// Element-wise encode of a sequence model.
pub open spec fn se_arr<T: Codec>(ms: Seq<T::V>) -> Seq<SpecVal> {
    ms.map_values(|m: T::V| T::spec_encode(m))
}

/// Array decode over a concatenation: both halves must decode, and the
/// models concatenate.
pub proof fn lemma_sd_arr_concat<T: Codec>(a: Seq<SpecVal>, b: Seq<SpecVal>)
    ensures
        (sd_arr::<T>(a + b) is Some) == (sd_arr::<T>(a) is Some && sd_arr::<T>(b) is Some),
        (sd_arr::<T>(a) is Some && sd_arr::<T>(b) is Some) ==> sd_arr::<T>(a + b)->0
            =~= sd_arr::<T>(a)->0 + sd_arr::<T>(b)->0,
    decreases a,
{
    if a.len() == 0 {
        assert(a + b =~= b);
        assert(sd_arr::<T>(a) == Some(Seq::<T::V>::empty()));
    } else {
        assert((a + b).len() > 0);
        assert((a + b)[0] == a[0]);
        assert((a + b).drop_first() =~= a.drop_first() + b);
        lemma_sd_arr_concat::<T>(a.drop_first(), b);
    }
}

/// Array decode of a single element.
pub proof fn lemma_sd_arr_single<T: Codec>(v: SpecVal)
    ensures
        (sd_arr::<T>(seq![v]) is Some) == (T::spec_decode(v) is Some),
        T::spec_decode(v) matches Some(m) ==> sd_arr::<T>(seq![v]) == Some(seq![m]),
{
    reveal_with_fuel(sd_arr, 2);
    assert(seq![v].drop_first() =~= Seq::<SpecVal>::empty());
    if T::spec_decode(v) is Some {
        let m = T::spec_decode(v)->0;
        assert(sd_arr::<T>(seq![v]) == Some(seq![m] + Seq::<T::V>::empty()));
        assert(seq![m] + Seq::<T::V>::empty() =~= seq![m]);
    }
}

/// Round trip for element-wise array codecs.
pub proof fn lemma_arr_roundtrip<T: Codec>(ms: Seq<T::V>)
    requires
        forall|i: int| 0 <= i < ms.len() ==> T::model_wf(#[trigger] ms[i]),
    ensures
        sd_arr::<T>(se_arr::<T>(ms)) == Some(ms),
        forall|i: int| 0 <= i < se_arr::<T>(ms).len() ==> wf_val(#[trigger] se_arr::<T>(ms)[i]),
    decreases ms.len(),
{
    let enc = se_arr::<T>(ms);
    if ms.len() == 0 {
        assert(enc =~= Seq::<SpecVal>::empty());
        assert(sd_arr::<T>(enc) == Some(Seq::<T::V>::empty()));
        assert(Seq::<T::V>::empty() =~= ms);
    } else {
        T::lemma_codec(ms[0]);
        assert(enc[0] == T::spec_encode(ms[0]));
        assert(enc.drop_first() =~= se_arr::<T>(ms.drop_first()));
        assert(forall|i: int| 0 <= i < ms.drop_first().len()
            ==> #[trigger] ms.drop_first()[i] == ms[i + 1]);
        lemma_arr_roundtrip::<T>(ms.drop_first());
        assert(sd_arr::<T>(enc) == Some(seq![ms[0]] + ms.drop_first()));
        assert(seq![ms[0]] + ms.drop_first() =~= ms);
        assert forall|i: int| 0 <= i < enc.len() implies wf_val(#[trigger] enc[i]) by {
            if i > 0 {
                assert(enc[i] == se_arr::<T>(ms.drop_first())[i - 1]);
            }
        }
    }
}

/// Decoding well-formed array elements yields well-formed models.
proof fn lemma_sd_arr_wf<T: Codec>(items: Seq<SpecVal>)
    requires
        sd_arr::<T>(items) is Some,
        forall|i: int| 0 <= i < items.len() ==> wf_val(#[trigger] items[i]),
    ensures
        forall|i: int| 0 <= i < sd_arr::<T>(items)->0.len() ==> T::model_wf(
            #[trigger] sd_arr::<T>(items)->0[i],
        ),
    decreases items,
{
    if items.len() > 0 {
        let r = sd_arr::<T>(items)->0;
        T::lemma_decode_wf(items[0]);
        assert(forall|i: int| 0 <= i < items.drop_first().len() ==> #[trigger] items.drop_first()[i]
            == items[i + 1]);
        lemma_sd_arr_wf::<T>(items.drop_first());
        let rest = sd_arr::<T>(items.drop_first())->0;
        assert forall|i: int| 0 <= i < r.len() implies T::model_wf(#[trigger] r[i]) by {
            if i > 0 {
                assert(r[i] == rest[i - 1]);
            }
        }
    }
}

impl<T: Codec> Codec for Vec<T> {
    open spec fn spec_decode(v: SpecVal) -> Option<Seq<T::V>> {
        match v {
            SpecVal::Arr(items) => sd_arr::<T>(items),
            _ => None,
        }
    }

    open spec fn spec_encode(ms: Seq<T::V>) -> SpecVal {
        SpecVal::Arr(se_arr::<T>(ms))
    }

    open spec fn model_wf(ms: Seq<T::V>) -> bool {
        forall|i: int| 0 <= i < ms.len() ==> T::model_wf(#[trigger] ms[i])
    }

    open spec fn sentinel_free(ms: Seq<T::V>) -> bool {
        true
    }

    proof fn lemma_codec(ms: Seq<T::V>) {
        lemma_arr_roundtrip::<T>(ms);
    }

    proof fn lemma_decode_wf(v: SpecVal) {
        lemma_sd_arr_wf::<T>(v->Arr_0);
    }

    proof fn lemma_decode_sentinel(v: SpecVal) {
    }

    /// Beyond the inherited exactness contract: anything but an array is
    /// a type mismatch; a failing element reports that element's own
    /// error.
    #[verifier::loop_isolation(false)]
    fn decode(v: &Value) -> (r: Result<Self, DecodeError>)
        ensures
            !(v.deep_view() is Arr) ==> (r matches Err(e) && e is TypeMismatch),
    {
        match v {
            Value::Arr(items) => {
                let ghost sv = view_arr(items@);
                proof {
                    lemma_view_arr(items@);
                    assert(v.deep_view() == SpecVal::Arr(sv));
                }
                let mut out: Vec<T> = Vec::new();
                let n = items.len();
                let mut i: usize = 0;
                while i < n
                    invariant
                        n == items.len(),
                        i <= n,
                        sv == view_arr(items@),
                        sv.len() == n,
                        forall|j: int| 0 <= j < n ==> #[trigger] sv[j] == view_val(items@[j]),
                        sd_arr::<T>(sv.take(i as int)) == Some(out.deep_view()),
                        out.deep_view().len() == i,
                        forall|j: int| 0 <= j < i ==> wf_val(sv[j]) ==> T::model_wf(
                            #[trigger] out.deep_view()[j],
                        ),
                    decreases n - i,
                {
                    let ghost pre = out.deep_view();
                    match T::decode(&items[i]) {
                        Ok(t) => {
                            let ghost tm = t.deep_view();
                            out.push(t);
                            proof {
                                assert(out.deep_view() =~= pre.push(tm));
                                lemma_sd_arr_single::<T>(sv[i as int]);
                                lemma_sd_arr_concat::<T>(sv.take(i as int), seq![sv[i as int]]);
                                assert(sv.take(i + 1) =~= sv.take(i as int) + seq![sv[i as int]]);
                                assert(sd_arr::<T>(sv.take(i + 1)) == Some(pre + seq![tm]));
                                assert(pre + seq![tm] =~= pre.push(tm));
                            }
                        },
                        Err(e) => {
                            proof {
                                assert(sv[i as int] == view_val(items@[i as int]));
                                assert(T::spec_decode(sv[i as int]) is None);
                                assert(sv.skip(i as int).len() > 0);
                                assert(sv.skip(i as int)[0] == sv[i as int]);
                                assert(sd_arr::<T>(sv.skip(i as int)) is None);
                                lemma_sd_arr_concat::<T>(sv.take(i as int), sv.skip(i as int));
                                assert(sv.take(i as int) + sv.skip(i as int) =~= sv);
                            }
                            return Err(e);
                        },
                    }
                    i += 1;
                }
                proof {
                    assert(sv.take(n as int) =~= sv);
                    if wf_val(v.deep_view()) {
                        assert(forall|j: int| 0 <= j < n ==> wf_val(#[trigger] sv[j]));
                    }
                }
                Ok(out)
            },
            _ => Err(
                DecodeError::TypeMismatch {
                    field: "".to_owned(),
                    kind: "array".to_owned(),
                    expected: "array".to_owned(),
                },
            ),
        }
    }

    #[verifier::loop_isolation(false)]
    fn encode(&self) -> (r: Value) {
        let mut out: Vec<Value> = Vec::new();
        let n = self.len();
        let mut i: usize = 0;
        while i < n
            invariant
                n == self.len(),
                i <= n,
                Vec::<T>::model_wf(self.deep_view()),
                self.deep_view().len() == n,
                view_arr(out@) =~= se_arr::<T>(self.deep_view().take(i as int)),
            decreases n - i,
        {
            let ghost pre = out@;
            assert(T::model_wf(self.deep_view()[i as int]));
            assert(self[i as int].deep_view() == self.deep_view()[i as int]);
            let ev = self[i].encode();
            let ghost gv = ev;
            out.push(ev);
            proof {
                lemma_view_arr_push(pre, gv);
                assert(self.deep_view().take(i + 1) =~= self.deep_view().take(i as int).push(
                    self.deep_view()[i as int],
                ));
                assert(se_arr::<T>(self.deep_view().take(i + 1)) =~= se_arr::<T>(
                    self.deep_view().take(i as int),
                ).push(T::spec_encode(self.deep_view()[i as int])));
            }
            i += 1;
        }
        proof {
            assert(self.deep_view().take(n as int) =~= self.deep_view());
        }
        Value::Arr(out)
    }
}

} // verus!
