//! Pointer nodes and the inline-or-pointer union.
//!
//! A node of any referenceable kind is either a concrete value or a named
//! indirection. No tag is stored: the shape decides. An object carrying
//! the `$ref` sentinel key is a pointer, whatever else stands beside it;
//! anything else is decoded inline.

use vstd::prelude::*;

use crate::codec::{Codec, no_ref_key, ref_key};
use crate::err::DecodeError;
use crate::obj::{has_key, lemma_get_single, obj_get};
use crate::value::{SpecVal, Value, keys_unique, view_entries, wf_val};

verus! {

/// A node that names another object by path instead of containing it.
/// The string is stored verbatim; whether the named object exists is not
/// this crate's concern.
#[derive(Debug, Clone)]
pub struct Reference {
    /// The reference string, conventionally `#/components/<bucket>/<name>`.
    pub _ref: String,
}

impl DeepView for Reference {
    type V = Seq<char>;

    open spec fn deep_view(&self) -> Seq<char> {
        self._ref@
    }
}

impl Reference {
    /// Wrap a raw reference string; no validation is performed.
    pub fn new(reference: &str) -> (r: Self)
        ensures
            r.deep_view() == reference@,
    {
        Reference { _ref: reference.to_owned() }
    }
}

impl Codec for Reference {
    open spec fn spec_decode(v: SpecVal) -> Option<Seq<char>> {
        match v {
            SpecVal::Obj(es) => match obj_get(es, ref_key()) {
                Some(SpecVal::Str(s)) => Some(s),
                _ => None,
            },
            _ => None,
        }
    }

    open spec fn spec_encode(m: Seq<char>) -> SpecVal {
        SpecVal::Obj(seq![(ref_key(), SpecVal::Str(m))])
    }

    open spec fn model_wf(m: Seq<char>) -> bool {
        true
    }

    open spec fn sentinel_free(m: Seq<char>) -> bool {
        false
    }

    proof fn lemma_codec(m: Seq<char>) {
        lemma_get_single((ref_key(), SpecVal::Str(m)), ref_key());
        let es = seq![(ref_key(), SpecVal::Str(m))];
        assert(keys_unique(es));
        assert(wf_val(es[0].1));
        assert(wf_val(SpecVal::Obj(es)));
    }

    proof fn lemma_decode_wf(v: SpecVal) {
    }

    proof fn lemma_decode_sentinel(v: SpecVal) {
    }

    /// Beyond the inherited exactness contract: which error kind comes
    /// back for each failing shape.
    fn decode(v: &Value) -> (r: Result<Self, DecodeError>)
        ensures
            !(v.deep_view() is Obj) ==> (r matches Err(e) && e is TypeMismatch),
            (v.deep_view() matches SpecVal::Obj(es) && obj_get(es, ref_key()) is None) ==> (r
                matches Err(e) && e is MissingRequiredField),
            (v.deep_view() matches SpecVal::Obj(es) && (match obj_get(es, ref_key()) {
                Some(sv) => !(sv is Str),
                None => false,
            })) ==> (r matches Err(e) && e is TypeMismatch),
    {
        match v {
            Value::Obj(entries) => {
                let ks = "$ref".to_owned();
                match crate::codec::find_entry(entries, &ks) {
                    Some(Value::Str(s)) => Ok(Reference { _ref: s.clone() }),
                    Some(_) => Err(
                        DecodeError::TypeMismatch {
                            field: "$ref".to_owned(),
                            kind: "Reference".to_owned(),
                            expected: "string".to_owned(),
                        },
                    ),
                    None => Err(
                        DecodeError::MissingRequiredField {
                            field: "$ref".to_owned(),
                            kind: "Reference".to_owned(),
                        },
                    ),
                }
            },
            _ => Err(
                DecodeError::TypeMismatch {
                    field: "$ref".to_owned(),
                    kind: "Reference".to_owned(),
                    expected: "object".to_owned(),
                },
            ),
        }
    }

    fn encode(&self) -> (r: Value) {
        let mut out: Vec<(String, Value)> = Vec::new();
        crate::codec::enc_field(&mut out, "$ref", Value::Str(self._ref.clone()));
        proof {
            assert(view_entries(out@) =~= seq![(ref_key(), SpecVal::Str(self._ref@))]);
        }
        Value::Obj(out)
    }
}

/// The model of a referenceable node.
pub enum ReferenceableV<M> {
    Data(M),
    Reference(Seq<char>),
}

/// A node that contains either inline data of kind `T` or a pointer to a
/// reusable component. Which variant is present is decided at decode time
/// by shape alone: the pointer sentinel key wins whenever it is present.
#[derive(Debug, Clone)]
pub enum Referenceable<T> {
    /// Inline data
    Data(T),
    /// Reference to a component
    Reference(Reference),
}

impl<T: DeepView> DeepView for Referenceable<T> {
    type V = ReferenceableV<T::V>;

    open spec fn deep_view(&self) -> ReferenceableV<T::V> {
        match self {
            Referenceable::Data(t) => ReferenceableV::Data(t.deep_view()),
            Referenceable::Reference(r) => ReferenceableV::Reference(r._ref@),
        }
    }
}

impl<T: Codec> Codec for Referenceable<T> {
    open spec fn spec_decode(v: SpecVal) -> Option<ReferenceableV<T::V>> {
        if v is Obj && has_key(v->Obj_0, ref_key()) {
            match obj_get(v->Obj_0, ref_key()) {
                Some(SpecVal::Str(s)) => Some(ReferenceableV::Reference(s)),
                _ => None,
            }
        } else {
            match T::spec_decode(v) {
                Some(m) => Some(ReferenceableV::Data(m)),
                None => None,
            }
        }
    }

    open spec fn spec_encode(m: ReferenceableV<T::V>) -> SpecVal {
        match m {
            ReferenceableV::Data(t) => T::spec_encode(t),
            ReferenceableV::Reference(s) => SpecVal::Obj(seq![(ref_key(), SpecVal::Str(s))]),
        }
    }

    open spec fn model_wf(m: ReferenceableV<T::V>) -> bool {
        match m {
            ReferenceableV::Data(t) => T::model_wf(t) && T::sentinel_free(t),
            ReferenceableV::Reference(s) => true,
        }
    }

    open spec fn sentinel_free(m: ReferenceableV<T::V>) -> bool {
        m is Data
    }

    proof fn lemma_codec(m: ReferenceableV<T::V>) {
        match m {
            ReferenceableV::Data(t) => {
                T::lemma_codec(t);
            },
            ReferenceableV::Reference(s) => {
                lemma_get_single((ref_key(), SpecVal::Str(s)), ref_key());
                let es = seq![(ref_key(), SpecVal::Str(s))];
                assert(keys_unique(es));
                assert(wf_val(es[0].1));
                assert(wf_val(SpecVal::Obj(es)));
            },
        }
    }

    proof fn lemma_decode_wf(v: SpecVal) {
        if !(v is Obj && has_key(v->Obj_0, ref_key())) {
            T::lemma_decode_wf(v);
            T::lemma_decode_sentinel(v);
        }
    }

    proof fn lemma_decode_sentinel(v: SpecVal) {
    }

    /// Beyond the inherited exactness contract: a pointer sentinel key
    /// whose value is not a string is a type mismatch, never an attempted
    /// inline decode.
    fn decode(v: &Value) -> (r: Result<Self, DecodeError>)
        ensures
            (v.deep_view() matches SpecVal::Obj(es) && (match obj_get(es, ref_key()) {
                Some(sv) => !(sv is Str),
                None => false,
            })) ==> (r matches Err(e) && e is TypeMismatch),
    {
        match v {
            Value::Obj(entries) => {
                let ks = "$ref".to_owned();
                match crate::codec::find_entry(entries, &ks) {
                    Some(Value::Str(s)) => Ok(
                        Referenceable::Reference(Reference { _ref: s.clone() }),
                    ),
                    Some(_) => Err(
                        DecodeError::TypeMismatch {
                            field: "$ref".to_owned(),
                            kind: "Reference".to_owned(),
                            expected: "string".to_owned(),
                        },
                    ),
                    None => {
                        let inner = T::decode(v);
                        proof {
                            if T::spec_decode(v.deep_view()) is Some && wf_val(v.deep_view()) {
                                T::lemma_decode_wf(v.deep_view());
                                T::lemma_decode_sentinel(v.deep_view());
                            }
                        }
                        match inner {
                            Ok(t) => Ok(Referenceable::Data(t)),
                            Err(e) => Err(e),
                        }
                    },
                }
            },
            _ => {
                let inner = T::decode(v);
                proof {
                    if T::spec_decode(v.deep_view()) is Some && wf_val(v.deep_view()) {
                        T::lemma_decode_wf(v.deep_view());
                        T::lemma_decode_sentinel(v.deep_view());
                    }
                }
                match inner {
                    Ok(t) => Ok(Referenceable::Data(t)),
                    Err(e) => Err(e),
                }
            },
        }
    }

    fn encode(&self) -> (r: Value) {
        match self {
            Referenceable::Data(t) => t.encode(),
            Referenceable::Reference(rf) => {
                let mut out: Vec<(String, Value)> = Vec::new();
                crate::codec::enc_field(&mut out, "$ref", Value::Str(rf._ref.clone()));
                proof {
                    assert(view_entries(out@) =~= seq![(ref_key(), SpecVal::Str(rf._ref@))]);
                }
                Value::Obj(out)
            },
        }
    }
}

impl<T: DeepView> Referenceable<T> {
    /// Create a new referenceable node with inline data.
    pub fn data(data: T) -> (r: Self)
        ensures
            r.deep_view() == ReferenceableV::<T::V>::Data(data.deep_view()),
    {
        Referenceable::Data(data)
    }

    /// Create a new referenceable node from a raw reference string.
    pub fn reference(reference: &str) -> (r: Self)
        ensures
            r.deep_view() == ReferenceableV::<T::V>::Reference(reference@),
    {
        Referenceable::Reference(Reference::new(reference))
    }

    /// Create a reference to a named component:
    /// `#/components/<component_type>/<name>`.
    pub fn component_ref(component_type: &str, name: &str) -> (r: Self)
        ensures
            r.deep_view() == ReferenceableV::<T::V>::Reference(
                "#/components/"@ + component_type@ + "/"@ + name@,
            ),
    {
        let mut target = "#/components/".to_owned();
        target.append(component_type);
        target.append("/");
        target.append(name);
        Referenceable::Reference(Reference { _ref: target })
    }

    /// The inline data, if this node holds data.
    pub fn as_data(&self) -> (r: Option<&T>)
        ensures
            match r {
                Some(t) => self.deep_view() == ReferenceableV::<T::V>::Data(t.deep_view()),
                None => self.deep_view() is Reference,
            },
    {
        match self {
            Referenceable::Data(data) => Some(data),
            Referenceable::Reference(_) => None,
        }
    }

    /// The reference, if this node is a pointer.
    pub fn as_reference(&self) -> (r: Option<&Reference>)
        ensures
            match r {
                Some(rf) => self.deep_view() == ReferenceableV::<T::V>::Reference(rf._ref@),
                None => self.deep_view() is Data,
            },
    {
        match self {
            Referenceable::Data(_) => None,
            Referenceable::Reference(rf) => Some(rf),
        }
    }

    /// Whether this node holds inline data.
    pub fn is_data(&self) -> (r: bool)
        ensures
            r == (self.deep_view() is Data),
    {
        matches!(self, Referenceable::Data(_))
    }

    /// Whether this node is a pointer.
    pub fn is_reference(&self) -> (r: bool)
        ensures
            r == (self.deep_view() is Reference),
    {
        matches!(self, Referenceable::Reference(_))
    }
}

} // verus!
