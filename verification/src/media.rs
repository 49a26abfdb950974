//! Media types, encodings and headers: how payload content is described.

use vstd::prelude::*;

use crate::codec::{Codec, dec_opt, dec_opt_bool, dec_opt_str, dec_req, dec_req_str, enc_opt,
    enc_opt_bool, enc_opt_str, enc_req, enc_str, opt_bool_slot, opt_slot, opt_str_slot, ref_key,
    req_slot, sd_opt, sd_opt_bool, sd_opt_str, sd_req, sd_req_str, str_slot};
use crate::err::DecodeError;
use crate::obj::{FieldImage, distinct_names, fields_entries, lemma_get_wf, lemma_record_obj,
    obj_get, opt_entry};
use crate::refs::{Referenceable, ReferenceableV};
use crate::schema::{Schema, SchemaV};
use crate::smap::SortedMap;
use crate::value::{SpecVal, Value, view_entries, wf_val};

verus! {


/// A response or encoding header. Its content map is held as raw trees:
/// that cuts the type recursion through media types and encodings, so
/// the content is preserved losslessly but is not checked against the
/// media-type shape at decode time and has no typed accessors.
#[derive(Debug, Clone)]
pub struct Header {
    pub description: Option<String>,
    pub required: Option<bool>,
    pub deprecated: Option<bool>,
    pub allow_empty_value: Option<bool>,
    pub style: Option<String>,
    pub explode: Option<bool>,
    pub allow_reserved: Option<bool>,
    pub schema: Option<Referenceable<Schema>>,
    pub example: Option<Value>,
    pub examples: Option<SortedMap<Referenceable<crate::meta::Example>>>,
    pub content: Option<SortedMap<Value>>,
}

/// The model of a `Header`.
pub struct HeaderV {
    pub description: Option<Seq<char>>,
    pub required: Option<bool>,
    pub deprecated: Option<bool>,
    pub allow_empty_value: Option<bool>,
    pub style: Option<Seq<char>>,
    pub explode: Option<bool>,
    pub allow_reserved: Option<bool>,
    pub schema: Option<ReferenceableV<SchemaV>>,
    pub example: Option<SpecVal>,
    pub examples: Option<Seq<(Seq<char>, ReferenceableV<crate::meta::ExampleV>)>>,
    pub content: Option<Seq<(Seq<char>, SpecVal)>>,
}

impl DeepView for Header {
    type V = HeaderV;

    open spec fn deep_view(&self) -> HeaderV {
        HeaderV {
            description: self.description.deep_view(),
            required: self.required.deep_view(),
            deprecated: self.deprecated.deep_view(),
            allow_empty_value: self.allow_empty_value.deep_view(),
            style: self.style.deep_view(),
            explode: self.explode.deep_view(),
            allow_reserved: self.allow_reserved.deep_view(),
            schema: self.schema.deep_view(),
            example: self.example.deep_view(),
            examples: self.examples.deep_view(),
            content: self.content.deep_view(),
        }
    }
}

/// The declared fields of the header kind, in schema order.
pub open spec fn header_fields(m: HeaderV) -> FieldImage {
    seq![
        ("description"@, opt_str_slot(m.description)),
        ("required"@, opt_bool_slot(m.required)),
        ("deprecated"@, opt_bool_slot(m.deprecated)),
        ("allowEmptyValue"@, opt_bool_slot(m.allow_empty_value)),
        ("style"@, opt_str_slot(m.style)),
        ("explode"@, opt_bool_slot(m.explode)),
        ("allowReserved"@, opt_bool_slot(m.allow_reserved)),
        ("schema"@, opt_slot::<Referenceable<Schema>>(m.schema)),
        ("example"@, opt_slot::<Value>(m.example)),
        ("examples"@, opt_slot::<SortedMap<Referenceable<crate::meta::Example>>>(m.examples)),
        ("content"@, opt_slot::<SortedMap<Value>>(m.content)),
    ]
}

impl Codec for Header {
    open spec fn spec_decode(v: SpecVal) -> Option<HeaderV> {
        match v {
            SpecVal::Obj(es) => {
                if sd_opt_str(es, "description"@) is Some && sd_opt_bool(es, "required"@) is Some && sd_opt_bool(es, "deprecated"@) is Some && sd_opt_bool(es, "allowEmptyValue"@) is Some && sd_opt_str(es, "style"@) is Some && sd_opt_bool(es, "explode"@) is Some && sd_opt_bool(es, "allowReserved"@) is Some && sd_opt::<Referenceable<Schema>>(es, "schema"@) is Some && sd_opt::<Value>(es, "example"@) is Some && sd_opt::<SortedMap<Referenceable<crate::meta::Example>>>(es, "examples"@) is Some && sd_opt::<SortedMap<Value>>(es, "content"@) is Some {
                    Some(
                        HeaderV {
                            description: sd_opt_str(es, "description"@)->0,
                            required: sd_opt_bool(es, "required"@)->0,
                            deprecated: sd_opt_bool(es, "deprecated"@)->0,
                            allow_empty_value: sd_opt_bool(es, "allowEmptyValue"@)->0,
                            style: sd_opt_str(es, "style"@)->0,
                            explode: sd_opt_bool(es, "explode"@)->0,
                            allow_reserved: sd_opt_bool(es, "allowReserved"@)->0,
                            schema: sd_opt::<Referenceable<Schema>>(es, "schema"@)->0,
                            example: sd_opt::<Value>(es, "example"@)->0,
                            examples: sd_opt::<SortedMap<Referenceable<crate::meta::Example>>>(es, "examples"@)->0,
                            content: sd_opt::<SortedMap<Value>>(es, "content"@)->0,
                        },
                    )
                } else {
                    None
                }
            },
            _ => None,
        }
    }

    open spec fn spec_encode(m: HeaderV) -> SpecVal {
        SpecVal::Obj(fields_entries(header_fields(m)))
    }

    open spec fn model_wf(m: HeaderV) -> bool {
        (match m.schema {
            Some(t) => Referenceable::<Schema>::model_wf(t),
            None => true,
        }) && (match m.example {
            Some(t) => Value::model_wf(t),
            None => true,
        }) && (match m.examples {
            Some(t) => SortedMap::<Referenceable<crate::meta::Example>>::model_wf(t),
            None => true,
        }) && (match m.content {
            Some(t) => SortedMap::<Value>::model_wf(t),
            None => true,
        })
    }

    open spec fn sentinel_free(m: HeaderV) -> bool {
        true
    }

    #[verifier::rlimit(100)]
    #[verifier::spinoff_prover]
    proof fn lemma_codec(m: HeaderV) {
        reveal_strlit("description");
        reveal_strlit("required");
        reveal_strlit("deprecated");
        reveal_strlit("allowEmptyValue");
        reveal_strlit("style");
        reveal_strlit("explode");
        reveal_strlit("allowReserved");
        reveal_strlit("schema");
        reveal_strlit("example");
        reveal_strlit("examples");
        reveal_strlit("content");
        reveal_strlit("$ref");
        let fs = header_fields(m);
        assert(fs[0].0 == "description"@);
        assert(fs[1].0 == "required"@);
        assert(fs[2].0 == "deprecated"@);
        assert(fs[3].0 == "allowEmptyValue"@);
        assert(fs[4].0 == "style"@);
        assert(fs[5].0 == "explode"@);
        assert(fs[6].0 == "allowReserved"@);
        assert(fs[7].0 == "schema"@);
        assert(fs[8].0 == "example"@);
        assert(fs[9].0 == "examples"@);
        assert(fs[10].0 == "content"@);
        assert(("required"@)[0] == 'r');
        assert(("examples"@)[0] == 'e');
        assert(("explode"@)[2] == 'p');
        assert(("example"@)[2] == 'a');
        assert(("explode"@)[0] == 'e');
        assert(("content"@)[0] == 'c');
        assert(("example"@)[0] == 'e');
        assert("description"@ != "required"@ && "description"@ != "deprecated"@ && "description"@ != "allowEmptyValue"@);
        assert("description"@ != "style"@ && "description"@ != "explode"@ && "description"@ != "allowReserved"@);
        assert("description"@ != "schema"@ && "description"@ != "example"@ && "description"@ != "examples"@);
        assert("description"@ != "content"@ && "required"@ != "deprecated"@ && "required"@ != "allowEmptyValue"@);
        assert("required"@ != "style"@ && "required"@ != "explode"@ && "required"@ != "allowReserved"@);
        assert("required"@ != "schema"@ && "required"@ != "example"@ && "required"@ != "examples"@);
        assert("required"@ != "content"@ && "deprecated"@ != "allowEmptyValue"@ && "deprecated"@ != "style"@);
        assert("deprecated"@ != "explode"@ && "deprecated"@ != "allowReserved"@ && "deprecated"@ != "schema"@);
        assert("deprecated"@ != "example"@ && "deprecated"@ != "examples"@ && "deprecated"@ != "content"@);
        assert("allowEmptyValue"@ != "style"@ && "allowEmptyValue"@ != "explode"@ && "allowEmptyValue"@ != "allowReserved"@);
        assert("allowEmptyValue"@ != "schema"@ && "allowEmptyValue"@ != "example"@ && "allowEmptyValue"@ != "examples"@);
        assert("allowEmptyValue"@ != "content"@ && "style"@ != "explode"@ && "style"@ != "allowReserved"@);
        assert("style"@ != "schema"@ && "style"@ != "example"@ && "style"@ != "examples"@);
        assert("style"@ != "content"@ && "explode"@ != "allowReserved"@ && "explode"@ != "schema"@);
        assert("explode"@ != "example"@ && "explode"@ != "examples"@ && "explode"@ != "content"@);
        assert("allowReserved"@ != "schema"@ && "allowReserved"@ != "example"@ && "allowReserved"@ != "examples"@);
        assert("allowReserved"@ != "content"@ && "schema"@ != "example"@ && "schema"@ != "examples"@);
        assert("schema"@ != "content"@ && "example"@ != "examples"@ && "example"@ != "content"@);
        assert("examples"@ != "content"@);
        assert("description"@ != "$ref"@ && "required"@ != "$ref"@ && "deprecated"@ != "$ref"@);
        assert("allowEmptyValue"@ != "$ref"@ && "style"@ != "$ref"@ && "explode"@ != "$ref"@);
        assert("allowReserved"@ != "$ref"@ && "schema"@ != "$ref"@ && "example"@ != "$ref"@);
        assert("examples"@ != "$ref"@ && "content"@ != "$ref"@);
        assert(distinct_names(fs));
        if m.schema is Some {
            Referenceable::<Schema>::lemma_codec(m.schema->0);
        }
        if m.example is Some {
            Value::lemma_codec(m.example->0);
        }
        if m.examples is Some {
            SortedMap::<Referenceable<crate::meta::Example>>::lemma_codec(m.examples->0);
        }
        if m.content is Some {
            SortedMap::<Value>::lemma_codec(m.content->0);
        }
        assert(match fs[0].1 {
            Some(sv) => wf_val(sv),
            None => true,
        });
        assert(match fs[1].1 {
            Some(sv) => wf_val(sv),
            None => true,
        });
        assert(match fs[2].1 {
            Some(sv) => wf_val(sv),
            None => true,
        });
        assert(match fs[3].1 {
            Some(sv) => wf_val(sv),
            None => true,
        });
        assert(match fs[4].1 {
            Some(sv) => wf_val(sv),
            None => true,
        });
        assert(match fs[5].1 {
            Some(sv) => wf_val(sv),
            None => true,
        });
        assert(match fs[6].1 {
            Some(sv) => wf_val(sv),
            None => true,
        });
        assert(match fs[7].1 {
            Some(sv) => wf_val(sv),
            None => true,
        });
        assert(match fs[8].1 {
            Some(sv) => wf_val(sv),
            None => true,
        });
        assert(match fs[9].1 {
            Some(sv) => wf_val(sv),
            None => true,
        });
        assert(match fs[10].1 {
            Some(sv) => wf_val(sv),
            None => true,
        });
        lemma_record_obj(fs, Seq::empty(), ref_key());
        let es = fields_entries(fs) + Seq::<(Seq<char>, SpecVal)>::empty();
        assert(es =~= fields_entries(fs));
        assert(obj_get(es, "description"@) == opt_str_slot(m.description));
        assert(obj_get(es, "required"@) == opt_bool_slot(m.required));
        assert(obj_get(es, "deprecated"@) == opt_bool_slot(m.deprecated));
        assert(obj_get(es, "allowEmptyValue"@) == opt_bool_slot(m.allow_empty_value));
        assert(obj_get(es, "style"@) == opt_str_slot(m.style));
        assert(obj_get(es, "explode"@) == opt_bool_slot(m.explode));
        assert(obj_get(es, "allowReserved"@) == opt_bool_slot(m.allow_reserved));
        assert(obj_get(es, "schema"@) == opt_slot::<Referenceable<Schema>>(m.schema));
        assert(obj_get(es, "example"@) == opt_slot::<Value>(m.example));
        assert(obj_get(es, "examples"@) == opt_slot::<SortedMap<Referenceable<crate::meta::Example>>>(m.examples));
        assert(obj_get(es, "content"@) == opt_slot::<SortedMap<Value>>(m.content));
    }

    proof fn lemma_decode_wf(v: SpecVal) {
        let es = v->Obj_0;
        assert(forall|i: int| 0 <= i < es.len() ==> wf_val(#[trigger] es[i].1));
        if obj_get(es, "schema"@) is Some {
            lemma_get_wf(es, "schema"@);
            Referenceable::<Schema>::lemma_decode_wf(obj_get(es, "schema"@)->0);
        }
        if obj_get(es, "example"@) is Some {
            lemma_get_wf(es, "example"@);
            Value::lemma_decode_wf(obj_get(es, "example"@)->0);
        }
        if obj_get(es, "examples"@) is Some {
            lemma_get_wf(es, "examples"@);
            SortedMap::<Referenceable<crate::meta::Example>>::lemma_decode_wf(obj_get(es, "examples"@)->0);
        }
        if obj_get(es, "content"@) is Some {
            lemma_get_wf(es, "content"@);
            SortedMap::<Value>::lemma_decode_wf(obj_get(es, "content"@)->0);
        }
    }

    proof fn lemma_decode_sentinel(v: SpecVal) {
    }

    /// Beyond the inherited exactness contract: which error kind comes
    /// back, field by field in declared order.
    fn decode(v: &Value) -> (r: Result<Self, DecodeError>)
        ensures
            !(v.deep_view() is Obj) ==> (r matches Err(e) && e is TypeMismatch),
            (v.deep_view() matches SpecVal::Obj(es) && (match obj_get(es, "description"@) {
                Some(sv) => !(sv is Str),
                None => false,
            })) ==> (r matches Err(e) && e is TypeMismatch),
            (v.deep_view() matches SpecVal::Obj(es) && sd_opt_str(es, "description"@) is Some && (match obj_get(es, "required"@) {
                Some(sv) => !(sv is Bool),
                None => false,
            })) ==> (r matches Err(e) && e is TypeMismatch),
            (v.deep_view() matches SpecVal::Obj(es) && sd_opt_str(es, "description"@) is Some && sd_opt_bool(es, "required"@) is Some && (match obj_get(es, "deprecated"@) {
                Some(sv) => !(sv is Bool),
                None => false,
            })) ==> (r matches Err(e) && e is TypeMismatch),
            (v.deep_view() matches SpecVal::Obj(es) && sd_opt_str(es, "description"@) is Some && sd_opt_bool(es, "required"@) is Some && sd_opt_bool(es, "deprecated"@) is Some && (match obj_get(es, "allowEmptyValue"@) {
                Some(sv) => !(sv is Bool),
                None => false,
            })) ==> (r matches Err(e) && e is TypeMismatch),
            (v.deep_view() matches SpecVal::Obj(es) && sd_opt_str(es, "description"@) is Some && sd_opt_bool(es, "required"@) is Some && sd_opt_bool(es, "deprecated"@) is Some && sd_opt_bool(es, "allowEmptyValue"@) is Some && (match obj_get(es, "style"@) {
                Some(sv) => !(sv is Str),
                None => false,
            })) ==> (r matches Err(e) && e is TypeMismatch),
            (v.deep_view() matches SpecVal::Obj(es) && sd_opt_str(es, "description"@) is Some && sd_opt_bool(es, "required"@) is Some && sd_opt_bool(es, "deprecated"@) is Some && sd_opt_bool(es, "allowEmptyValue"@) is Some && sd_opt_str(es, "style"@) is Some && (match obj_get(es, "explode"@) {
                Some(sv) => !(sv is Bool),
                None => false,
            })) ==> (r matches Err(e) && e is TypeMismatch),
            (v.deep_view() matches SpecVal::Obj(es) && sd_opt_str(es, "description"@) is Some && sd_opt_bool(es, "required"@) is Some && sd_opt_bool(es, "deprecated"@) is Some && sd_opt_bool(es, "allowEmptyValue"@) is Some && sd_opt_str(es, "style"@) is Some && sd_opt_bool(es, "explode"@) is Some && (match obj_get(es, "allowReserved"@) {
                Some(sv) => !(sv is Bool),
                None => false,
            })) ==> (r matches Err(e) && e is TypeMismatch),
    {
        match v {
            Value::Obj(entries) => {
                let description = match dec_opt_str(entries, "description", "Header") {
                    Ok(x) => x,
                    Err(e) => return Err(e),
                };
                let required = match dec_opt_bool(entries, "required", "Header") {
                    Ok(x) => x,
                    Err(e) => return Err(e),
                };
                let deprecated = match dec_opt_bool(entries, "deprecated", "Header") {
                    Ok(x) => x,
                    Err(e) => return Err(e),
                };
                let allow_empty_value = match dec_opt_bool(entries, "allowEmptyValue", "Header") {
                    Ok(x) => x,
                    Err(e) => return Err(e),
                };
                let style = match dec_opt_str(entries, "style", "Header") {
                    Ok(x) => x,
                    Err(e) => return Err(e),
                };
                let explode = match dec_opt_bool(entries, "explode", "Header") {
                    Ok(x) => x,
                    Err(e) => return Err(e),
                };
                let allow_reserved = match dec_opt_bool(entries, "allowReserved", "Header") {
                    Ok(x) => x,
                    Err(e) => return Err(e),
                };
                let schema = match dec_opt::<Referenceable<Schema>>(entries, "schema") {
                    Ok(x) => x,
                    Err(e) => return Err(e),
                };
                let example = match dec_opt::<Value>(entries, "example") {
                    Ok(x) => x,
                    Err(e) => return Err(e),
                };
                let examples = match dec_opt::<SortedMap<Referenceable<crate::meta::Example>>>(entries, "examples") {
                    Ok(x) => x,
                    Err(e) => return Err(e),
                };
                let content = match dec_opt::<SortedMap<Value>>(entries, "content") {
                    Ok(x) => x,
                    Err(e) => return Err(e),
                };
                let out = Header { description, required, deprecated, allow_empty_value, style, explode, allow_reserved, schema, example, examples, content };
                proof {
                    if wf_val(v.deep_view()) {
                        Self::lemma_decode_wf(v.deep_view());
                    }
                }
                Ok(out)
            },
            _ => Err(
                DecodeError::TypeMismatch {
                    field: "".to_owned(),
                    kind: "Header".to_owned(),
                    expected: "object".to_owned(),
                },
            ),
        }
    }

    #[verifier::rlimit(100)]
    #[verifier::spinoff_prover]
    fn encode(&self) -> (r: Value) {
        let mut out: Vec<(String, Value)> = Vec::new();
        let ghost m = self.deep_view();
        enc_opt_str(&mut out, "description", &self.description);
        proof {
            assert(view_entries(out@) =~= opt_entry("description"@, opt_str_slot(m.description)));
        }
        enc_opt_bool(&mut out, "required", &self.required);
        proof {
            assert(view_entries(out@) =~= opt_entry("description"@, opt_str_slot(m.description)) + opt_entry("required"@, opt_bool_slot(m.required)));
        }
        enc_opt_bool(&mut out, "deprecated", &self.deprecated);
        proof {
            assert(view_entries(out@) =~= opt_entry("description"@, opt_str_slot(m.description)) + opt_entry("required"@, opt_bool_slot(m.required)) + opt_entry("deprecated"@, opt_bool_slot(m.deprecated)));
        }
        enc_opt_bool(&mut out, "allowEmptyValue", &self.allow_empty_value);
        proof {
            assert(view_entries(out@) =~= opt_entry("description"@, opt_str_slot(m.description)) + opt_entry("required"@, opt_bool_slot(m.required)) + opt_entry("deprecated"@, opt_bool_slot(m.deprecated)) + opt_entry("allowEmptyValue"@, opt_bool_slot(m.allow_empty_value)));
        }
        enc_opt_str(&mut out, "style", &self.style);
        proof {
            assert(view_entries(out@) =~= opt_entry("description"@, opt_str_slot(m.description)) + opt_entry("required"@, opt_bool_slot(m.required)) + opt_entry("deprecated"@, opt_bool_slot(m.deprecated)) + opt_entry("allowEmptyValue"@, opt_bool_slot(m.allow_empty_value)) + opt_entry("style"@, opt_str_slot(m.style)));
        }
        enc_opt_bool(&mut out, "explode", &self.explode);
        proof {
            assert(view_entries(out@) =~= opt_entry("description"@, opt_str_slot(m.description)) + opt_entry("required"@, opt_bool_slot(m.required)) + opt_entry("deprecated"@, opt_bool_slot(m.deprecated)) + opt_entry("allowEmptyValue"@, opt_bool_slot(m.allow_empty_value)) + opt_entry("style"@, opt_str_slot(m.style)) + opt_entry("explode"@, opt_bool_slot(m.explode)));
        }
        enc_opt_bool(&mut out, "allowReserved", &self.allow_reserved);
        proof {
            assert(view_entries(out@) =~= opt_entry("description"@, opt_str_slot(m.description)) + opt_entry("required"@, opt_bool_slot(m.required)) + opt_entry("deprecated"@, opt_bool_slot(m.deprecated)) + opt_entry("allowEmptyValue"@, opt_bool_slot(m.allow_empty_value)) + opt_entry("style"@, opt_str_slot(m.style)) + opt_entry("explode"@, opt_bool_slot(m.explode)) + opt_entry("allowReserved"@, opt_bool_slot(m.allow_reserved)));
        }
        enc_opt::<Referenceable<Schema>>(&mut out, "schema", &self.schema);
        proof {
            assert(view_entries(out@) =~= opt_entry("description"@, opt_str_slot(m.description)) + opt_entry("required"@, opt_bool_slot(m.required)) + opt_entry("deprecated"@, opt_bool_slot(m.deprecated)) + opt_entry("allowEmptyValue"@, opt_bool_slot(m.allow_empty_value)) + opt_entry("style"@, opt_str_slot(m.style)) + opt_entry("explode"@, opt_bool_slot(m.explode)) + opt_entry("allowReserved"@, opt_bool_slot(m.allow_reserved)) + opt_entry("schema"@, opt_slot::<Referenceable<Schema>>(m.schema)));
        }
        enc_opt::<Value>(&mut out, "example", &self.example);
        proof {
            assert(view_entries(out@) =~= opt_entry("description"@, opt_str_slot(m.description)) + opt_entry("required"@, opt_bool_slot(m.required)) + opt_entry("deprecated"@, opt_bool_slot(m.deprecated)) + opt_entry("allowEmptyValue"@, opt_bool_slot(m.allow_empty_value)) + opt_entry("style"@, opt_str_slot(m.style)) + opt_entry("explode"@, opt_bool_slot(m.explode)) + opt_entry("allowReserved"@, opt_bool_slot(m.allow_reserved)) + opt_entry("schema"@, opt_slot::<Referenceable<Schema>>(m.schema)) + opt_entry("example"@, opt_slot::<Value>(m.example)));
        }
        enc_opt::<SortedMap<Referenceable<crate::meta::Example>>>(&mut out, "examples", &self.examples);
        proof {
            assert(view_entries(out@) =~= opt_entry("description"@, opt_str_slot(m.description)) + opt_entry("required"@, opt_bool_slot(m.required)) + opt_entry("deprecated"@, opt_bool_slot(m.deprecated)) + opt_entry("allowEmptyValue"@, opt_bool_slot(m.allow_empty_value)) + opt_entry("style"@, opt_str_slot(m.style)) + opt_entry("explode"@, opt_bool_slot(m.explode)) + opt_entry("allowReserved"@, opt_bool_slot(m.allow_reserved)) + opt_entry("schema"@, opt_slot::<Referenceable<Schema>>(m.schema)) + opt_entry("example"@, opt_slot::<Value>(m.example)) + opt_entry("examples"@, opt_slot::<SortedMap<Referenceable<crate::meta::Example>>>(m.examples)));
        }
        enc_opt::<SortedMap<Value>>(&mut out, "content", &self.content);
        proof {
            assert(view_entries(out@) =~= opt_entry("description"@, opt_str_slot(m.description)) + opt_entry("required"@, opt_bool_slot(m.required)) + opt_entry("deprecated"@, opt_bool_slot(m.deprecated)) + opt_entry("allowEmptyValue"@, opt_bool_slot(m.allow_empty_value)) + opt_entry("style"@, opt_str_slot(m.style)) + opt_entry("explode"@, opt_bool_slot(m.explode)) + opt_entry("allowReserved"@, opt_bool_slot(m.allow_reserved)) + opt_entry("schema"@, opt_slot::<Referenceable<Schema>>(m.schema)) + opt_entry("example"@, opt_slot::<Value>(m.example)) + opt_entry("examples"@, opt_slot::<SortedMap<Referenceable<crate::meta::Example>>>(m.examples)) + opt_entry("content"@, opt_slot::<SortedMap<Value>>(m.content)));
        }
        proof {
            lemma_header_entries(m);
            assert(view_entries(out@) =~= fields_entries(header_fields(m)));
        }
        Value::Obj(out)
    }
}

/// The encoded entry list of the header kind, written out field by field.
#[verifier::rlimit(100)]
#[verifier::spinoff_prover]
pub proof fn lemma_header_entries(m: HeaderV) 
    ensures
        fields_entries(header_fields(m)) == opt_entry("description"@, opt_str_slot(m.description)) + opt_entry("required"@, opt_bool_slot(m.required)) + opt_entry("deprecated"@, opt_bool_slot(m.deprecated)) + opt_entry("allowEmptyValue"@, opt_bool_slot(m.allow_empty_value)) + opt_entry("style"@, opt_str_slot(m.style)) + opt_entry("explode"@, opt_bool_slot(m.explode)) + opt_entry("allowReserved"@, opt_bool_slot(m.allow_reserved)) + opt_entry("schema"@, opt_slot::<Referenceable<Schema>>(m.schema)) + opt_entry("example"@, opt_slot::<Value>(m.example)) + opt_entry("examples"@, opt_slot::<SortedMap<Referenceable<crate::meta::Example>>>(m.examples)) + opt_entry("content"@, opt_slot::<SortedMap<Value>>(m.content)),
{
    let fs = header_fields(m);
    assert(fs.len() == 11);
    let fs1 = fs.drop_first();
    assert(fs1[0] == fs[1] && fs1.len() == 10);
    let fs2 = fs1.drop_first();
    assert(fs2[0] == fs[2] && fs2.len() == 9);
    let fs3 = fs2.drop_first();
    assert(fs3[0] == fs[3] && fs3.len() == 8);
    let fs4 = fs3.drop_first();
    assert(fs4[0] == fs[4] && fs4.len() == 7);
    let fs5 = fs4.drop_first();
    assert(fs5[0] == fs[5] && fs5.len() == 6);
    let fs6 = fs5.drop_first();
    assert(fs6[0] == fs[6] && fs6.len() == 5);
    let fs7 = fs6.drop_first();
    assert(fs7[0] == fs[7] && fs7.len() == 4);
    let fs8 = fs7.drop_first();
    assert(fs8[0] == fs[8] && fs8.len() == 3);
    let fs9 = fs8.drop_first();
    assert(fs9[0] == fs[9] && fs9.len() == 2);
    let fs10 = fs9.drop_first();
    assert(fs10[0] == fs[10] && fs10.len() == 1);
    let fs11 = fs10.drop_first();
    assert(fs11.len() == 0);
    assert(fields_entries(fs11) =~= Seq::<(Seq<char>, SpecVal)>::empty());
    assert(fields_entries(fs10) =~= opt_entry(fs[10].0, fs[10].1) + fields_entries(fs11));
    assert(fields_entries(fs9) =~= opt_entry(fs[9].0, fs[9].1) + fields_entries(fs10));
    assert(fields_entries(fs8) =~= opt_entry(fs[8].0, fs[8].1) + fields_entries(fs9));
    assert(fields_entries(fs7) =~= opt_entry(fs[7].0, fs[7].1) + fields_entries(fs8));
    assert(fields_entries(fs6) =~= opt_entry(fs[6].0, fs[6].1) + fields_entries(fs7));
    assert(fields_entries(fs5) =~= opt_entry(fs[5].0, fs[5].1) + fields_entries(fs6));
    assert(fields_entries(fs4) =~= opt_entry(fs[4].0, fs[4].1) + fields_entries(fs5));
    assert(fields_entries(fs3) =~= opt_entry(fs[3].0, fs[3].1) + fields_entries(fs4));
    assert(fields_entries(fs2) =~= opt_entry(fs[2].0, fs[2].1) + fields_entries(fs3));
    assert(fields_entries(fs1) =~= opt_entry(fs[1].0, fs[1].1) + fields_entries(fs2));
    assert(fields_entries(fs) =~= opt_entry(fs[0].0, fs[0].1) + fields_entries(fs1));
    let e1 = opt_entry("description"@, opt_str_slot(m.description));
    let e2 = opt_entry("required"@, opt_bool_slot(m.required));
    let e3 = opt_entry("deprecated"@, opt_bool_slot(m.deprecated));
    let e4 = opt_entry("allowEmptyValue"@, opt_bool_slot(m.allow_empty_value));
    let e5 = opt_entry("style"@, opt_str_slot(m.style));
    let e6 = opt_entry("explode"@, opt_bool_slot(m.explode));
    let e7 = opt_entry("allowReserved"@, opt_bool_slot(m.allow_reserved));
    let e8 = opt_entry("schema"@, opt_slot::<Referenceable<Schema>>(m.schema));
    let e9 = opt_entry("example"@, opt_slot::<Value>(m.example));
    let e10 = opt_entry("examples"@, opt_slot::<SortedMap<Referenceable<crate::meta::Example>>>(m.examples));
    let e11 = opt_entry("content"@, opt_slot::<SortedMap<Value>>(m.content));
    assert(fields_entries(fs) == e1 + fields_entries(fs1));
    vstd::seq_lib::lemma_concat_associative(e1, e2, fields_entries(fs2));
    assert((e1 + e2) + fields_entries(fs2) == (e1) + (e2 + fields_entries(fs2)));
    vstd::seq_lib::lemma_concat_associative(e1 + e2, e3, fields_entries(fs3));
    assert((e1 + e2 + e3) + fields_entries(fs3) == (e1 + e2) + (e3 + fields_entries(fs3)));
    vstd::seq_lib::lemma_concat_associative(e1 + e2 + e3, e4, fields_entries(fs4));
    assert((e1 + e2 + e3 + e4) + fields_entries(fs4) == (e1 + e2 + e3) + (e4 + fields_entries(fs4)));
    vstd::seq_lib::lemma_concat_associative(e1 + e2 + e3 + e4, e5, fields_entries(fs5));
    assert((e1 + e2 + e3 + e4 + e5) + fields_entries(fs5) == (e1 + e2 + e3 + e4) + (e5 + fields_entries(fs5)));
    vstd::seq_lib::lemma_concat_associative(e1 + e2 + e3 + e4 + e5, e6, fields_entries(fs6));
    assert((e1 + e2 + e3 + e4 + e5 + e6) + fields_entries(fs6) == (e1 + e2 + e3 + e4 + e5) + (e6 + fields_entries(fs6)));
    vstd::seq_lib::lemma_concat_associative(e1 + e2 + e3 + e4 + e5 + e6, e7, fields_entries(fs7));
    assert((e1 + e2 + e3 + e4 + e5 + e6 + e7) + fields_entries(fs7) == (e1 + e2 + e3 + e4 + e5 + e6) + (e7 + fields_entries(fs7)));
    vstd::seq_lib::lemma_concat_associative(e1 + e2 + e3 + e4 + e5 + e6 + e7, e8, fields_entries(fs8));
    assert((e1 + e2 + e3 + e4 + e5 + e6 + e7 + e8) + fields_entries(fs8) == (e1 + e2 + e3 + e4 + e5 + e6 + e7) + (e8 + fields_entries(fs8)));
    vstd::seq_lib::lemma_concat_associative(e1 + e2 + e3 + e4 + e5 + e6 + e7 + e8, e9, fields_entries(fs9));
    assert((e1 + e2 + e3 + e4 + e5 + e6 + e7 + e8 + e9) + fields_entries(fs9) == (e1 + e2 + e3 + e4 + e5 + e6 + e7 + e8) + (e9 + fields_entries(fs9)));
    vstd::seq_lib::lemma_concat_associative(e1 + e2 + e3 + e4 + e5 + e6 + e7 + e8 + e9, e10, fields_entries(fs10));
    assert((e1 + e2 + e3 + e4 + e5 + e6 + e7 + e8 + e9 + e10) + fields_entries(fs10) == (e1 + e2 + e3 + e4 + e5 + e6 + e7 + e8 + e9) + (e10 + fields_entries(fs10)));
    vstd::seq_lib::lemma_concat_associative(e1 + e2 + e3 + e4 + e5 + e6 + e7 + e8 + e9 + e10, e11, fields_entries(fs11));
    assert((e1 + e2 + e3 + e4 + e5 + e6 + e7 + e8 + e9 + e10 + e11) + fields_entries(fs11) == (e1 + e2 + e3 + e4 + e5 + e6 + e7 + e8 + e9 + e10) + (e11 + fields_entries(fs11)));
    assert((e1 + e2 + e3 + e4 + e5 + e6 + e7 + e8 + e9 + e10 + e11) + fields_entries(fs11) =~= e1 + e2 + e3 + e4 + e5 + e6 + e7 + e8 + e9 + e10 + e11);
    assert(fields_entries(fs) == e1 + e2 + e3 + e4 + e5 + e6 + e7 + e8 + e9 + e10 + e11);
}

/// A single encoding definition applied to one schema property.
#[derive(Debug, Clone)]
pub struct Encoding {
    pub content_type: Option<String>,
    pub headers: Option<SortedMap<Referenceable<Header>>>,
    pub style: Option<String>,
    pub explode: Option<bool>,
    pub allow_reserved: Option<bool>,
}

/// The model of a `Encoding`.
pub struct EncodingV {
    pub content_type: Option<Seq<char>>,
    pub headers: Option<Seq<(Seq<char>, ReferenceableV<HeaderV>)>>,
    pub style: Option<Seq<char>>,
    pub explode: Option<bool>,
    pub allow_reserved: Option<bool>,
}

impl DeepView for Encoding {
    type V = EncodingV;

    open spec fn deep_view(&self) -> EncodingV {
        EncodingV {
            content_type: self.content_type.deep_view(),
            headers: self.headers.deep_view(),
            style: self.style.deep_view(),
            explode: self.explode.deep_view(),
            allow_reserved: self.allow_reserved.deep_view(),
        }
    }
}

/// The declared fields of the encoding kind, in schema order.
pub open spec fn encoding_fields(m: EncodingV) -> FieldImage {
    seq![
        ("contentType"@, opt_str_slot(m.content_type)),
        ("headers"@, opt_slot::<SortedMap<Referenceable<Header>>>(m.headers)),
        ("style"@, opt_str_slot(m.style)),
        ("explode"@, opt_bool_slot(m.explode)),
        ("allowReserved"@, opt_bool_slot(m.allow_reserved)),
    ]
}

impl Codec for Encoding {
    open spec fn spec_decode(v: SpecVal) -> Option<EncodingV> {
        match v {
            SpecVal::Obj(es) => {
                if sd_opt_str(es, "contentType"@) is Some && sd_opt::<SortedMap<Referenceable<Header>>>(es, "headers"@) is Some && sd_opt_str(es, "style"@) is Some && sd_opt_bool(es, "explode"@) is Some && sd_opt_bool(es, "allowReserved"@) is Some {
                    Some(
                        EncodingV {
                            content_type: sd_opt_str(es, "contentType"@)->0,
                            headers: sd_opt::<SortedMap<Referenceable<Header>>>(es, "headers"@)->0,
                            style: sd_opt_str(es, "style"@)->0,
                            explode: sd_opt_bool(es, "explode"@)->0,
                            allow_reserved: sd_opt_bool(es, "allowReserved"@)->0,
                        },
                    )
                } else {
                    None
                }
            },
            _ => None,
        }
    }

    open spec fn spec_encode(m: EncodingV) -> SpecVal {
        SpecVal::Obj(fields_entries(encoding_fields(m)))
    }

    open spec fn model_wf(m: EncodingV) -> bool {
        (match m.headers {
            Some(t) => SortedMap::<Referenceable<Header>>::model_wf(t),
            None => true,
        })
    }

    open spec fn sentinel_free(m: EncodingV) -> bool {
        true
    }

    proof fn lemma_codec(m: EncodingV) {
        reveal_strlit("contentType");
        reveal_strlit("headers");
        reveal_strlit("style");
        reveal_strlit("explode");
        reveal_strlit("allowReserved");
        reveal_strlit("$ref");
        let fs = encoding_fields(m);
        assert(fs[0].0 == "contentType"@);
        assert(fs[1].0 == "headers"@);
        assert(fs[2].0 == "style"@);
        assert(fs[3].0 == "explode"@);
        assert(fs[4].0 == "allowReserved"@);
        assert(("headers"@)[0] == 'h');
        assert(("explode"@)[0] == 'e');
        assert("contentType"@ != "headers"@ && "contentType"@ != "style"@ && "contentType"@ != "explode"@);
        assert("contentType"@ != "allowReserved"@ && "headers"@ != "style"@ && "headers"@ != "explode"@);
        assert("headers"@ != "allowReserved"@ && "style"@ != "explode"@ && "style"@ != "allowReserved"@);
        assert("explode"@ != "allowReserved"@);
        assert("contentType"@ != "$ref"@ && "headers"@ != "$ref"@ && "style"@ != "$ref"@);
        assert("explode"@ != "$ref"@ && "allowReserved"@ != "$ref"@);
        assert(distinct_names(fs));
        if m.headers is Some {
            SortedMap::<Referenceable<Header>>::lemma_codec(m.headers->0);
        }
        assert(match fs[0].1 {
            Some(sv) => wf_val(sv),
            None => true,
        });
        assert(match fs[1].1 {
            Some(sv) => wf_val(sv),
            None => true,
        });
        assert(match fs[2].1 {
            Some(sv) => wf_val(sv),
            None => true,
        });
        assert(match fs[3].1 {
            Some(sv) => wf_val(sv),
            None => true,
        });
        assert(match fs[4].1 {
            Some(sv) => wf_val(sv),
            None => true,
        });
        lemma_record_obj(fs, Seq::empty(), ref_key());
        let es = fields_entries(fs) + Seq::<(Seq<char>, SpecVal)>::empty();
        assert(es =~= fields_entries(fs));
        assert(obj_get(es, "contentType"@) == opt_str_slot(m.content_type));
        assert(obj_get(es, "headers"@) == opt_slot::<SortedMap<Referenceable<Header>>>(m.headers));
        assert(obj_get(es, "style"@) == opt_str_slot(m.style));
        assert(obj_get(es, "explode"@) == opt_bool_slot(m.explode));
        assert(obj_get(es, "allowReserved"@) == opt_bool_slot(m.allow_reserved));
    }

    proof fn lemma_decode_wf(v: SpecVal) {
        let es = v->Obj_0;
        assert(forall|i: int| 0 <= i < es.len() ==> wf_val(#[trigger] es[i].1));
        if obj_get(es, "headers"@) is Some {
            lemma_get_wf(es, "headers"@);
            SortedMap::<Referenceable<Header>>::lemma_decode_wf(obj_get(es, "headers"@)->0);
        }
    }

    proof fn lemma_decode_sentinel(v: SpecVal) {
    }

    /// Beyond the inherited exactness contract: which error kind comes
    /// back, field by field in declared order.
    fn decode(v: &Value) -> (r: Result<Self, DecodeError>)
        ensures
            !(v.deep_view() is Obj) ==> (r matches Err(e) && e is TypeMismatch),
            (v.deep_view() matches SpecVal::Obj(es) && (match obj_get(es, "contentType"@) {
                Some(sv) => !(sv is Str),
                None => false,
            })) ==> (r matches Err(e) && e is TypeMismatch),
            (v.deep_view() matches SpecVal::Obj(es) && sd_opt_str(es, "contentType"@) is Some && sd_opt::<SortedMap<Referenceable<Header>>>(es, "headers"@) is Some && (match obj_get(es, "style"@) {
                Some(sv) => !(sv is Str),
                None => false,
            })) ==> (r matches Err(e) && e is TypeMismatch),
            (v.deep_view() matches SpecVal::Obj(es) && sd_opt_str(es, "contentType"@) is Some && sd_opt::<SortedMap<Referenceable<Header>>>(es, "headers"@) is Some && sd_opt_str(es, "style"@) is Some && (match obj_get(es, "explode"@) {
                Some(sv) => !(sv is Bool),
                None => false,
            })) ==> (r matches Err(e) && e is TypeMismatch),
            (v.deep_view() matches SpecVal::Obj(es) && sd_opt_str(es, "contentType"@) is Some && sd_opt::<SortedMap<Referenceable<Header>>>(es, "headers"@) is Some && sd_opt_str(es, "style"@) is Some && sd_opt_bool(es, "explode"@) is Some && (match obj_get(es, "allowReserved"@) {
                Some(sv) => !(sv is Bool),
                None => false,
            })) ==> (r matches Err(e) && e is TypeMismatch),
    {
        match v {
            Value::Obj(entries) => {
                let content_type = match dec_opt_str(entries, "contentType", "Encoding") {
                    Ok(x) => x,
                    Err(e) => return Err(e),
                };
                let headers = match dec_opt::<SortedMap<Referenceable<Header>>>(entries, "headers") {
                    Ok(x) => x,
                    Err(e) => return Err(e),
                };
                let style = match dec_opt_str(entries, "style", "Encoding") {
                    Ok(x) => x,
                    Err(e) => return Err(e),
                };
                let explode = match dec_opt_bool(entries, "explode", "Encoding") {
                    Ok(x) => x,
                    Err(e) => return Err(e),
                };
                let allow_reserved = match dec_opt_bool(entries, "allowReserved", "Encoding") {
                    Ok(x) => x,
                    Err(e) => return Err(e),
                };
                let out = Encoding { content_type, headers, style, explode, allow_reserved };
                proof {
                    if wf_val(v.deep_view()) {
                        Self::lemma_decode_wf(v.deep_view());
                    }
                }
                Ok(out)
            },
            _ => Err(
                DecodeError::TypeMismatch {
                    field: "".to_owned(),
                    kind: "Encoding".to_owned(),
                    expected: "object".to_owned(),
                },
            ),
        }
    }

    fn encode(&self) -> (r: Value) {
        let mut out: Vec<(String, Value)> = Vec::new();
        let ghost m = self.deep_view();
        enc_opt_str(&mut out, "contentType", &self.content_type);
        proof {
            assert(view_entries(out@) =~= opt_entry("contentType"@, opt_str_slot(m.content_type)));
        }
        enc_opt::<SortedMap<Referenceable<Header>>>(&mut out, "headers", &self.headers);
        proof {
            assert(view_entries(out@) =~= opt_entry("contentType"@, opt_str_slot(m.content_type)) + opt_entry("headers"@, opt_slot::<SortedMap<Referenceable<Header>>>(m.headers)));
        }
        enc_opt_str(&mut out, "style", &self.style);
        proof {
            assert(view_entries(out@) =~= opt_entry("contentType"@, opt_str_slot(m.content_type)) + opt_entry("headers"@, opt_slot::<SortedMap<Referenceable<Header>>>(m.headers)) + opt_entry("style"@, opt_str_slot(m.style)));
        }
        enc_opt_bool(&mut out, "explode", &self.explode);
        proof {
            assert(view_entries(out@) =~= opt_entry("contentType"@, opt_str_slot(m.content_type)) + opt_entry("headers"@, opt_slot::<SortedMap<Referenceable<Header>>>(m.headers)) + opt_entry("style"@, opt_str_slot(m.style)) + opt_entry("explode"@, opt_bool_slot(m.explode)));
        }
        enc_opt_bool(&mut out, "allowReserved", &self.allow_reserved);
        proof {
            assert(view_entries(out@) =~= opt_entry("contentType"@, opt_str_slot(m.content_type)) + opt_entry("headers"@, opt_slot::<SortedMap<Referenceable<Header>>>(m.headers)) + opt_entry("style"@, opt_str_slot(m.style)) + opt_entry("explode"@, opt_bool_slot(m.explode)) + opt_entry("allowReserved"@, opt_bool_slot(m.allow_reserved)));
        }
        proof {
            lemma_encoding_entries(m);
            assert(view_entries(out@) =~= fields_entries(encoding_fields(m)));
        }
        Value::Obj(out)
    }
}

/// The encoded entry list of the encoding kind, written out field by field.
pub proof fn lemma_encoding_entries(m: EncodingV) 
    ensures
        fields_entries(encoding_fields(m)) == opt_entry("contentType"@, opt_str_slot(m.content_type)) + opt_entry("headers"@, opt_slot::<SortedMap<Referenceable<Header>>>(m.headers)) + opt_entry("style"@, opt_str_slot(m.style)) + opt_entry("explode"@, opt_bool_slot(m.explode)) + opt_entry("allowReserved"@, opt_bool_slot(m.allow_reserved)),
{
    let fs = encoding_fields(m);
    assert(fs.len() == 5);
    let fs1 = fs.drop_first();
    assert(fs1[0] == fs[1] && fs1.len() == 4);
    let fs2 = fs1.drop_first();
    assert(fs2[0] == fs[2] && fs2.len() == 3);
    let fs3 = fs2.drop_first();
    assert(fs3[0] == fs[3] && fs3.len() == 2);
    let fs4 = fs3.drop_first();
    assert(fs4[0] == fs[4] && fs4.len() == 1);
    let fs5 = fs4.drop_first();
    assert(fs5.len() == 0);
    assert(fields_entries(fs5) =~= Seq::<(Seq<char>, SpecVal)>::empty());
    assert(fields_entries(fs4) =~= opt_entry(fs[4].0, fs[4].1) + fields_entries(fs5));
    assert(fields_entries(fs3) =~= opt_entry(fs[3].0, fs[3].1) + fields_entries(fs4));
    assert(fields_entries(fs2) =~= opt_entry(fs[2].0, fs[2].1) + fields_entries(fs3));
    assert(fields_entries(fs1) =~= opt_entry(fs[1].0, fs[1].1) + fields_entries(fs2));
    assert(fields_entries(fs) =~= opt_entry(fs[0].0, fs[0].1) + fields_entries(fs1));
    let e1 = opt_entry("contentType"@, opt_str_slot(m.content_type));
    let e2 = opt_entry("headers"@, opt_slot::<SortedMap<Referenceable<Header>>>(m.headers));
    let e3 = opt_entry("style"@, opt_str_slot(m.style));
    let e4 = opt_entry("explode"@, opt_bool_slot(m.explode));
    let e5 = opt_entry("allowReserved"@, opt_bool_slot(m.allow_reserved));
    assert(fields_entries(fs) == e1 + fields_entries(fs1));
    vstd::seq_lib::lemma_concat_associative(e1, e2, fields_entries(fs2));
    assert((e1 + e2) + fields_entries(fs2) == (e1) + (e2 + fields_entries(fs2)));
    vstd::seq_lib::lemma_concat_associative(e1 + e2, e3, fields_entries(fs3));
    assert((e1 + e2 + e3) + fields_entries(fs3) == (e1 + e2) + (e3 + fields_entries(fs3)));
    vstd::seq_lib::lemma_concat_associative(e1 + e2 + e3, e4, fields_entries(fs4));
    assert((e1 + e2 + e3 + e4) + fields_entries(fs4) == (e1 + e2 + e3) + (e4 + fields_entries(fs4)));
    vstd::seq_lib::lemma_concat_associative(e1 + e2 + e3 + e4, e5, fields_entries(fs5));
    assert((e1 + e2 + e3 + e4 + e5) + fields_entries(fs5) == (e1 + e2 + e3 + e4) + (e5 + fields_entries(fs5)));
    assert((e1 + e2 + e3 + e4 + e5) + fields_entries(fs5) =~= e1 + e2 + e3 + e4 + e5);
    assert(fields_entries(fs) == e1 + e2 + e3 + e4 + e5);
}

/// Schema and examples for the media type identified by its key.
#[derive(Debug, Clone)]
pub struct MediaType {
    pub schema: Option<Referenceable<Schema>>,
    pub example: Option<Value>,
    pub examples: Option<SortedMap<Referenceable<crate::meta::Example>>>,
    pub encoding: Option<SortedMap<Encoding>>,
}

/// The model of a `MediaType`.
pub struct MediaTypeV {
    pub schema: Option<ReferenceableV<SchemaV>>,
    pub example: Option<SpecVal>,
    pub examples: Option<Seq<(Seq<char>, ReferenceableV<crate::meta::ExampleV>)>>,
    pub encoding: Option<Seq<(Seq<char>, EncodingV)>>,
}

impl DeepView for MediaType {
    type V = MediaTypeV;

    open spec fn deep_view(&self) -> MediaTypeV {
        MediaTypeV {
            schema: self.schema.deep_view(),
            example: self.example.deep_view(),
            examples: self.examples.deep_view(),
            encoding: self.encoding.deep_view(),
        }
    }
}

/// The declared fields of the mediatype kind, in schema order.
pub open spec fn mediatype_fields(m: MediaTypeV) -> FieldImage {
    seq![
        ("schema"@, opt_slot::<Referenceable<Schema>>(m.schema)),
        ("example"@, opt_slot::<Value>(m.example)),
        ("examples"@, opt_slot::<SortedMap<Referenceable<crate::meta::Example>>>(m.examples)),
        ("encoding"@, opt_slot::<SortedMap<Encoding>>(m.encoding)),
    ]
}

impl Codec for MediaType {
    open spec fn spec_decode(v: SpecVal) -> Option<MediaTypeV> {
        match v {
            SpecVal::Obj(es) => {
                if sd_opt::<Referenceable<Schema>>(es, "schema"@) is Some && sd_opt::<Value>(es, "example"@) is Some && sd_opt::<SortedMap<Referenceable<crate::meta::Example>>>(es, "examples"@) is Some && sd_opt::<SortedMap<Encoding>>(es, "encoding"@) is Some {
                    Some(
                        MediaTypeV {
                            schema: sd_opt::<Referenceable<Schema>>(es, "schema"@)->0,
                            example: sd_opt::<Value>(es, "example"@)->0,
                            examples: sd_opt::<SortedMap<Referenceable<crate::meta::Example>>>(es, "examples"@)->0,
                            encoding: sd_opt::<SortedMap<Encoding>>(es, "encoding"@)->0,
                        },
                    )
                } else {
                    None
                }
            },
            _ => None,
        }
    }

    open spec fn spec_encode(m: MediaTypeV) -> SpecVal {
        SpecVal::Obj(fields_entries(mediatype_fields(m)))
    }

    open spec fn model_wf(m: MediaTypeV) -> bool {
        (match m.schema {
            Some(t) => Referenceable::<Schema>::model_wf(t),
            None => true,
        }) && (match m.example {
            Some(t) => Value::model_wf(t),
            None => true,
        }) && (match m.examples {
            Some(t) => SortedMap::<Referenceable<crate::meta::Example>>::model_wf(t),
            None => true,
        }) && (match m.encoding {
            Some(t) => SortedMap::<Encoding>::model_wf(t),
            None => true,
        })
    }

    open spec fn sentinel_free(m: MediaTypeV) -> bool {
        true
    }

    proof fn lemma_codec(m: MediaTypeV) {
        reveal_strlit("schema");
        reveal_strlit("example");
        reveal_strlit("examples");
        reveal_strlit("encoding");
        reveal_strlit("$ref");
        let fs = mediatype_fields(m);
        assert(fs[0].0 == "schema"@);
        assert(fs[1].0 == "example"@);
        assert(fs[2].0 == "examples"@);
        assert(fs[3].0 == "encoding"@);
        assert(("examples"@)[1] == 'x');
        assert(("encoding"@)[1] == 'n');
        assert("schema"@ != "example"@ && "schema"@ != "examples"@ && "schema"@ != "encoding"@);
        assert("example"@ != "examples"@ && "example"@ != "encoding"@ && "examples"@ != "encoding"@);
        assert("schema"@ != "$ref"@ && "example"@ != "$ref"@ && "examples"@ != "$ref"@);
        assert("encoding"@ != "$ref"@);
        assert(distinct_names(fs));
        if m.schema is Some {
            Referenceable::<Schema>::lemma_codec(m.schema->0);
        }
        if m.example is Some {
            Value::lemma_codec(m.example->0);
        }
        if m.examples is Some {
            SortedMap::<Referenceable<crate::meta::Example>>::lemma_codec(m.examples->0);
        }
        if m.encoding is Some {
            SortedMap::<Encoding>::lemma_codec(m.encoding->0);
        }
        assert(match fs[0].1 {
            Some(sv) => wf_val(sv),
            None => true,
        });
        assert(match fs[1].1 {
            Some(sv) => wf_val(sv),
            None => true,
        });
        assert(match fs[2].1 {
            Some(sv) => wf_val(sv),
            None => true,
        });
        assert(match fs[3].1 {
            Some(sv) => wf_val(sv),
            None => true,
        });
        lemma_record_obj(fs, Seq::empty(), ref_key());
        let es = fields_entries(fs) + Seq::<(Seq<char>, SpecVal)>::empty();
        assert(es =~= fields_entries(fs));
        assert(obj_get(es, "schema"@) == opt_slot::<Referenceable<Schema>>(m.schema));
        assert(obj_get(es, "example"@) == opt_slot::<Value>(m.example));
        assert(obj_get(es, "examples"@) == opt_slot::<SortedMap<Referenceable<crate::meta::Example>>>(m.examples));
        assert(obj_get(es, "encoding"@) == opt_slot::<SortedMap<Encoding>>(m.encoding));
    }

    proof fn lemma_decode_wf(v: SpecVal) {
        let es = v->Obj_0;
        assert(forall|i: int| 0 <= i < es.len() ==> wf_val(#[trigger] es[i].1));
        if obj_get(es, "schema"@) is Some {
            lemma_get_wf(es, "schema"@);
            Referenceable::<Schema>::lemma_decode_wf(obj_get(es, "schema"@)->0);
        }
        if obj_get(es, "example"@) is Some {
            lemma_get_wf(es, "example"@);
            Value::lemma_decode_wf(obj_get(es, "example"@)->0);
        }
        if obj_get(es, "examples"@) is Some {
            lemma_get_wf(es, "examples"@);
            SortedMap::<Referenceable<crate::meta::Example>>::lemma_decode_wf(obj_get(es, "examples"@)->0);
        }
        if obj_get(es, "encoding"@) is Some {
            lemma_get_wf(es, "encoding"@);
            SortedMap::<Encoding>::lemma_decode_wf(obj_get(es, "encoding"@)->0);
        }
    }

    proof fn lemma_decode_sentinel(v: SpecVal) {
    }

    /// Beyond the inherited exactness contract: which error kind comes
    /// back, field by field in declared order.
    fn decode(v: &Value) -> (r: Result<Self, DecodeError>)
        ensures
            !(v.deep_view() is Obj) ==> (r matches Err(e) && e is TypeMismatch),
    {
        match v {
            Value::Obj(entries) => {
                let schema = match dec_opt::<Referenceable<Schema>>(entries, "schema") {
                    Ok(x) => x,
                    Err(e) => return Err(e),
                };
                let example = match dec_opt::<Value>(entries, "example") {
                    Ok(x) => x,
                    Err(e) => return Err(e),
                };
                let examples = match dec_opt::<SortedMap<Referenceable<crate::meta::Example>>>(entries, "examples") {
                    Ok(x) => x,
                    Err(e) => return Err(e),
                };
                let encoding = match dec_opt::<SortedMap<Encoding>>(entries, "encoding") {
                    Ok(x) => x,
                    Err(e) => return Err(e),
                };
                let out = MediaType { schema, example, examples, encoding };
                proof {
                    if wf_val(v.deep_view()) {
                        Self::lemma_decode_wf(v.deep_view());
                    }
                }
                Ok(out)
            },
            _ => Err(
                DecodeError::TypeMismatch {
                    field: "".to_owned(),
                    kind: "MediaType".to_owned(),
                    expected: "object".to_owned(),
                },
            ),
        }
    }

    fn encode(&self) -> (r: Value) {
        let mut out: Vec<(String, Value)> = Vec::new();
        let ghost m = self.deep_view();
        enc_opt::<Referenceable<Schema>>(&mut out, "schema", &self.schema);
        proof {
            assert(view_entries(out@) =~= opt_entry("schema"@, opt_slot::<Referenceable<Schema>>(m.schema)));
        }
        enc_opt::<Value>(&mut out, "example", &self.example);
        proof {
            assert(view_entries(out@) =~= opt_entry("schema"@, opt_slot::<Referenceable<Schema>>(m.schema)) + opt_entry("example"@, opt_slot::<Value>(m.example)));
        }
        enc_opt::<SortedMap<Referenceable<crate::meta::Example>>>(&mut out, "examples", &self.examples);
        proof {
            assert(view_entries(out@) =~= opt_entry("schema"@, opt_slot::<Referenceable<Schema>>(m.schema)) + opt_entry("example"@, opt_slot::<Value>(m.example)) + opt_entry("examples"@, opt_slot::<SortedMap<Referenceable<crate::meta::Example>>>(m.examples)));
        }
        enc_opt::<SortedMap<Encoding>>(&mut out, "encoding", &self.encoding);
        proof {
            assert(view_entries(out@) =~= opt_entry("schema"@, opt_slot::<Referenceable<Schema>>(m.schema)) + opt_entry("example"@, opt_slot::<Value>(m.example)) + opt_entry("examples"@, opt_slot::<SortedMap<Referenceable<crate::meta::Example>>>(m.examples)) + opt_entry("encoding"@, opt_slot::<SortedMap<Encoding>>(m.encoding)));
        }
        proof {
            lemma_mediatype_entries(m);
            assert(view_entries(out@) =~= fields_entries(mediatype_fields(m)));
        }
        Value::Obj(out)
    }
}

/// The encoded entry list of the mediatype kind, written out field by field.
pub proof fn lemma_mediatype_entries(m: MediaTypeV) 
    ensures
        fields_entries(mediatype_fields(m)) == opt_entry("schema"@, opt_slot::<Referenceable<Schema>>(m.schema)) + opt_entry("example"@, opt_slot::<Value>(m.example)) + opt_entry("examples"@, opt_slot::<SortedMap<Referenceable<crate::meta::Example>>>(m.examples)) + opt_entry("encoding"@, opt_slot::<SortedMap<Encoding>>(m.encoding)),
{
    let fs = mediatype_fields(m);
    assert(fs.len() == 4);
    let fs1 = fs.drop_first();
    assert(fs1[0] == fs[1] && fs1.len() == 3);
    let fs2 = fs1.drop_first();
    assert(fs2[0] == fs[2] && fs2.len() == 2);
    let fs3 = fs2.drop_first();
    assert(fs3[0] == fs[3] && fs3.len() == 1);
    let fs4 = fs3.drop_first();
    assert(fs4.len() == 0);
    assert(fields_entries(fs4) =~= Seq::<(Seq<char>, SpecVal)>::empty());
    assert(fields_entries(fs3) =~= opt_entry(fs[3].0, fs[3].1) + fields_entries(fs4));
    assert(fields_entries(fs2) =~= opt_entry(fs[2].0, fs[2].1) + fields_entries(fs3));
    assert(fields_entries(fs1) =~= opt_entry(fs[1].0, fs[1].1) + fields_entries(fs2));
    assert(fields_entries(fs) =~= opt_entry(fs[0].0, fs[0].1) + fields_entries(fs1));
    let e1 = opt_entry("schema"@, opt_slot::<Referenceable<Schema>>(m.schema));
    let e2 = opt_entry("example"@, opt_slot::<Value>(m.example));
    let e3 = opt_entry("examples"@, opt_slot::<SortedMap<Referenceable<crate::meta::Example>>>(m.examples));
    let e4 = opt_entry("encoding"@, opt_slot::<SortedMap<Encoding>>(m.encoding));
    assert(fields_entries(fs) == e1 + fields_entries(fs1));
    vstd::seq_lib::lemma_concat_associative(e1, e2, fields_entries(fs2));
    assert((e1 + e2) + fields_entries(fs2) == (e1) + (e2 + fields_entries(fs2)));
    vstd::seq_lib::lemma_concat_associative(e1 + e2, e3, fields_entries(fs3));
    assert((e1 + e2 + e3) + fields_entries(fs3) == (e1 + e2) + (e3 + fields_entries(fs3)));
    vstd::seq_lib::lemma_concat_associative(e1 + e2 + e3, e4, fields_entries(fs4));
    assert((e1 + e2 + e3 + e4) + fields_entries(fs4) == (e1 + e2 + e3) + (e4 + fields_entries(fs4)));
    assert((e1 + e2 + e3 + e4) + fields_entries(fs4) =~= e1 + e2 + e3 + e4);
    assert(fields_entries(fs) == e1 + e2 + e3 + e4);
}

} // verus!
