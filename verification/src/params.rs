//! Operation inputs and outputs: parameters, request bodies, responses
//! and links.

use vstd::prelude::*;

use crate::codec::{Codec, dec_opt, dec_opt_bool, dec_opt_str, dec_req, dec_req_str, enc_opt,
    enc_opt_bool, enc_opt_str, enc_req, enc_str, opt_bool_slot, opt_slot, opt_str_slot, ref_key,
    req_slot, sd_opt, sd_opt_bool, sd_opt_str, sd_req, sd_req_str, str_slot};
use crate::err::DecodeError;
use crate::obj::{FieldImage, distinct_names, fields_entries, lemma_get_wf, lemma_record_obj,
    obj_get, opt_entry};
use crate::refs::{Referenceable, ReferenceableV};
use crate::schema::{Schema, SchemaV};
use crate::smap::SortedMap;
use crate::value::{SpecVal, Value, view_entries, wf_val};

use crate::media::{Header, HeaderV, MediaType, MediaTypeV};
use crate::meta::{ParameterIn, Server, ServerV};

verus! {


/// A single operation parameter, identified by its name and location.
#[derive(Debug, Clone)]
pub struct Parameter {
    pub name: String,
    pub _in: ParameterIn,
    pub description: Option<String>,
    pub required: Option<bool>,
    pub deprecated: Option<bool>,
    pub allow_empty_value: Option<bool>,
    pub style: Option<String>,
    pub explode: Option<bool>,
    pub allow_reserved: Option<bool>,
    pub schema: Option<Referenceable<Schema>>,
    pub example: Option<Value>,
    pub examples: Option<SortedMap<Referenceable<crate::meta::Example>>>,
    pub content: Option<SortedMap<MediaType>>,
}

/// The model of a `Parameter`.
pub struct ParameterV {
    pub name: Seq<char>,
    pub _in: ParameterIn,
    pub description: Option<Seq<char>>,
    pub required: Option<bool>,
    pub deprecated: Option<bool>,
    pub allow_empty_value: Option<bool>,
    pub style: Option<Seq<char>>,
    pub explode: Option<bool>,
    pub allow_reserved: Option<bool>,
    pub schema: Option<ReferenceableV<SchemaV>>,
    pub example: Option<SpecVal>,
    pub examples: Option<Seq<(Seq<char>, ReferenceableV<crate::meta::ExampleV>)>>,
    pub content: Option<Seq<(Seq<char>, MediaTypeV)>>,
}

impl DeepView for Parameter {
    type V = ParameterV;

    open spec fn deep_view(&self) -> ParameterV {
        ParameterV {
            name: self.name.deep_view(),
            _in: self._in.deep_view(),
            description: self.description.deep_view(),
            required: self.required.deep_view(),
            deprecated: self.deprecated.deep_view(),
            allow_empty_value: self.allow_empty_value.deep_view(),
            style: self.style.deep_view(),
            explode: self.explode.deep_view(),
            allow_reserved: self.allow_reserved.deep_view(),
            schema: self.schema.deep_view(),
            example: self.example.deep_view(),
            examples: self.examples.deep_view(),
            content: self.content.deep_view(),
        }
    }
}

/// The declared fields of the parameter kind, in schema order.
pub open spec fn parameter_fields(m: ParameterV) -> FieldImage {
    seq![
        ("name"@, str_slot(m.name)),
        ("in"@, req_slot::<ParameterIn>(m._in)),
        ("description"@, opt_str_slot(m.description)),
        ("required"@, opt_bool_slot(m.required)),
        ("deprecated"@, opt_bool_slot(m.deprecated)),
        ("allowEmptyValue"@, opt_bool_slot(m.allow_empty_value)),
        ("style"@, opt_str_slot(m.style)),
        ("explode"@, opt_bool_slot(m.explode)),
        ("allowReserved"@, opt_bool_slot(m.allow_reserved)),
        ("schema"@, opt_slot::<Referenceable<Schema>>(m.schema)),
        ("example"@, opt_slot::<Value>(m.example)),
        ("examples"@, opt_slot::<SortedMap<Referenceable<crate::meta::Example>>>(m.examples)),
        ("content"@, opt_slot::<SortedMap<MediaType>>(m.content)),
    ]
}

impl Codec for Parameter {
    open spec fn spec_decode(v: SpecVal) -> Option<ParameterV> {
        match v {
            SpecVal::Obj(es) => {
                if sd_req_str(es, "name"@) is Some && sd_req::<ParameterIn>(es, "in"@) is Some && sd_opt_str(es, "description"@) is Some && sd_opt_bool(es, "required"@) is Some && sd_opt_bool(es, "deprecated"@) is Some && sd_opt_bool(es, "allowEmptyValue"@) is Some && sd_opt_str(es, "style"@) is Some && sd_opt_bool(es, "explode"@) is Some && sd_opt_bool(es, "allowReserved"@) is Some && sd_opt::<Referenceable<Schema>>(es, "schema"@) is Some && sd_opt::<Value>(es, "example"@) is Some && sd_opt::<SortedMap<Referenceable<crate::meta::Example>>>(es, "examples"@) is Some && sd_opt::<SortedMap<MediaType>>(es, "content"@) is Some {
                    Some(
                        ParameterV {
                            name: sd_req_str(es, "name"@)->0,
                            _in: sd_req::<ParameterIn>(es, "in"@)->0,
                            description: sd_opt_str(es, "description"@)->0,
                            required: sd_opt_bool(es, "required"@)->0,
                            deprecated: sd_opt_bool(es, "deprecated"@)->0,
                            allow_empty_value: sd_opt_bool(es, "allowEmptyValue"@)->0,
                            style: sd_opt_str(es, "style"@)->0,
                            explode: sd_opt_bool(es, "explode"@)->0,
                            allow_reserved: sd_opt_bool(es, "allowReserved"@)->0,
                            schema: sd_opt::<Referenceable<Schema>>(es, "schema"@)->0,
                            example: sd_opt::<Value>(es, "example"@)->0,
                            examples: sd_opt::<SortedMap<Referenceable<crate::meta::Example>>>(es, "examples"@)->0,
                            content: sd_opt::<SortedMap<MediaType>>(es, "content"@)->0,
                        },
                    )
                } else {
                    None
                }
            },
            _ => None,
        }
    }

    open spec fn spec_encode(m: ParameterV) -> SpecVal {
        SpecVal::Obj(fields_entries(parameter_fields(m)))
    }

    open spec fn model_wf(m: ParameterV) -> bool {
        ParameterIn::model_wf(m._in) && (match m.schema {
            Some(t) => Referenceable::<Schema>::model_wf(t),
            None => true,
        }) && (match m.example {
            Some(t) => Value::model_wf(t),
            None => true,
        }) && (match m.examples {
            Some(t) => SortedMap::<Referenceable<crate::meta::Example>>::model_wf(t),
            None => true,
        }) && (match m.content {
            Some(t) => SortedMap::<MediaType>::model_wf(t),
            None => true,
        })
    }

    open spec fn sentinel_free(m: ParameterV) -> bool {
        true
    }

    #[verifier::rlimit(100)]
    #[verifier::spinoff_prover]
    proof fn lemma_codec(m: ParameterV) {
        reveal_strlit("name");
        reveal_strlit("in");
        reveal_strlit("description");
        reveal_strlit("required");
        reveal_strlit("deprecated");
        reveal_strlit("allowEmptyValue");
        reveal_strlit("style");
        reveal_strlit("explode");
        reveal_strlit("allowReserved");
        reveal_strlit("schema");
        reveal_strlit("example");
        reveal_strlit("examples");
        reveal_strlit("content");
        reveal_strlit("$ref");
        let fs = parameter_fields(m);
        assert(fs[0].0 == "name"@);
        assert(fs[1].0 == "in"@);
        assert(fs[2].0 == "description"@);
        assert(fs[3].0 == "required"@);
        assert(fs[4].0 == "deprecated"@);
        assert(fs[5].0 == "allowEmptyValue"@);
        assert(fs[6].0 == "style"@);
        assert(fs[7].0 == "explode"@);
        assert(fs[8].0 == "allowReserved"@);
        assert(fs[9].0 == "schema"@);
        assert(fs[10].0 == "example"@);
        assert(fs[11].0 == "examples"@);
        assert(fs[12].0 == "content"@);
        assert(("name"@)[0] == 'n');
        assert(("$ref"@)[0] == '$');
        assert(("required"@)[0] == 'r');
        assert(("examples"@)[0] == 'e');
        assert(("explode"@)[2] == 'p');
        assert(("example"@)[2] == 'a');
        assert(("explode"@)[0] == 'e');
        assert(("content"@)[0] == 'c');
        assert(("example"@)[0] == 'e');
        assert("name"@ != "in"@ && "name"@ != "description"@ && "name"@ != "required"@);
        assert("name"@ != "deprecated"@ && "name"@ != "allowEmptyValue"@ && "name"@ != "style"@);
        assert("name"@ != "explode"@ && "name"@ != "allowReserved"@ && "name"@ != "schema"@);
        assert("name"@ != "example"@ && "name"@ != "examples"@ && "name"@ != "content"@);
        assert("in"@ != "description"@ && "in"@ != "required"@ && "in"@ != "deprecated"@);
        assert("in"@ != "allowEmptyValue"@ && "in"@ != "style"@ && "in"@ != "explode"@);
        assert("in"@ != "allowReserved"@ && "in"@ != "schema"@ && "in"@ != "example"@);
        assert("in"@ != "examples"@ && "in"@ != "content"@ && "description"@ != "required"@);
        assert("description"@ != "deprecated"@ && "description"@ != "allowEmptyValue"@ && "description"@ != "style"@);
        assert("description"@ != "explode"@ && "description"@ != "allowReserved"@ && "description"@ != "schema"@);
        assert("description"@ != "example"@ && "description"@ != "examples"@ && "description"@ != "content"@);
        assert("required"@ != "deprecated"@ && "required"@ != "allowEmptyValue"@ && "required"@ != "style"@);
        assert("required"@ != "explode"@ && "required"@ != "allowReserved"@ && "required"@ != "schema"@);
        assert("required"@ != "example"@ && "required"@ != "examples"@ && "required"@ != "content"@);
        assert("deprecated"@ != "allowEmptyValue"@ && "deprecated"@ != "style"@ && "deprecated"@ != "explode"@);
        assert("deprecated"@ != "allowReserved"@ && "deprecated"@ != "schema"@ && "deprecated"@ != "example"@);
        assert("deprecated"@ != "examples"@ && "deprecated"@ != "content"@ && "allowEmptyValue"@ != "style"@);
        assert("allowEmptyValue"@ != "explode"@ && "allowEmptyValue"@ != "allowReserved"@ && "allowEmptyValue"@ != "schema"@);
        assert("allowEmptyValue"@ != "example"@ && "allowEmptyValue"@ != "examples"@ && "allowEmptyValue"@ != "content"@);
        assert("style"@ != "explode"@ && "style"@ != "allowReserved"@ && "style"@ != "schema"@);
        assert("style"@ != "example"@ && "style"@ != "examples"@ && "style"@ != "content"@);
        assert("explode"@ != "allowReserved"@ && "explode"@ != "schema"@ && "explode"@ != "example"@);
        assert("explode"@ != "examples"@ && "explode"@ != "content"@ && "allowReserved"@ != "schema"@);
        assert("allowReserved"@ != "example"@ && "allowReserved"@ != "examples"@ && "allowReserved"@ != "content"@);
        assert("schema"@ != "example"@ && "schema"@ != "examples"@ && "schema"@ != "content"@);
        assert("example"@ != "examples"@ && "example"@ != "content"@ && "examples"@ != "content"@);
        assert("name"@ != "$ref"@ && "in"@ != "$ref"@ && "description"@ != "$ref"@);
        assert("required"@ != "$ref"@ && "deprecated"@ != "$ref"@ && "allowEmptyValue"@ != "$ref"@);
        assert("style"@ != "$ref"@ && "explode"@ != "$ref"@ && "allowReserved"@ != "$ref"@);
        assert("schema"@ != "$ref"@ && "example"@ != "$ref"@ && "examples"@ != "$ref"@);
        assert("content"@ != "$ref"@);
        assert(distinct_names(fs));
        ParameterIn::lemma_codec(m._in);
        if m.schema is Some {
            Referenceable::<Schema>::lemma_codec(m.schema->0);
        }
        if m.example is Some {
            Value::lemma_codec(m.example->0);
        }
        if m.examples is Some {
            SortedMap::<Referenceable<crate::meta::Example>>::lemma_codec(m.examples->0);
        }
        if m.content is Some {
            SortedMap::<MediaType>::lemma_codec(m.content->0);
        }
        assert(match fs[0].1 {
            Some(sv) => wf_val(sv),
            None => true,
        });
        assert(match fs[1].1 {
            Some(sv) => wf_val(sv),
            None => true,
        });
        assert(match fs[2].1 {
            Some(sv) => wf_val(sv),
            None => true,
        });
        assert(match fs[3].1 {
            Some(sv) => wf_val(sv),
            None => true,
        });
        assert(match fs[4].1 {
            Some(sv) => wf_val(sv),
            None => true,
        });
        assert(match fs[5].1 {
            Some(sv) => wf_val(sv),
            None => true,
        });
        assert(match fs[6].1 {
            Some(sv) => wf_val(sv),
            None => true,
        });
        assert(match fs[7].1 {
            Some(sv) => wf_val(sv),
            None => true,
        });
        assert(match fs[8].1 {
            Some(sv) => wf_val(sv),
            None => true,
        });
        assert(match fs[9].1 {
            Some(sv) => wf_val(sv),
            None => true,
        });
        assert(match fs[10].1 {
            Some(sv) => wf_val(sv),
            None => true,
        });
        assert(match fs[11].1 {
            Some(sv) => wf_val(sv),
            None => true,
        });
        assert(match fs[12].1 {
            Some(sv) => wf_val(sv),
            None => true,
        });
        lemma_record_obj(fs, Seq::empty(), ref_key());
        let es = fields_entries(fs) + Seq::<(Seq<char>, SpecVal)>::empty();
        assert(es =~= fields_entries(fs));
        assert(obj_get(es, "name"@) == str_slot(m.name));
        assert(obj_get(es, "in"@) == req_slot::<ParameterIn>(m._in));
        assert(obj_get(es, "description"@) == opt_str_slot(m.description));
        assert(obj_get(es, "required"@) == opt_bool_slot(m.required));
        assert(obj_get(es, "deprecated"@) == opt_bool_slot(m.deprecated));
        assert(obj_get(es, "allowEmptyValue"@) == opt_bool_slot(m.allow_empty_value));
        assert(obj_get(es, "style"@) == opt_str_slot(m.style));
        assert(obj_get(es, "explode"@) == opt_bool_slot(m.explode));
        assert(obj_get(es, "allowReserved"@) == opt_bool_slot(m.allow_reserved));
        assert(obj_get(es, "schema"@) == opt_slot::<Referenceable<Schema>>(m.schema));
        assert(obj_get(es, "example"@) == opt_slot::<Value>(m.example));
        assert(obj_get(es, "examples"@) == opt_slot::<SortedMap<Referenceable<crate::meta::Example>>>(m.examples));
        assert(obj_get(es, "content"@) == opt_slot::<SortedMap<MediaType>>(m.content));
    }

    proof fn lemma_decode_wf(v: SpecVal) {
        let es = v->Obj_0;
        assert(forall|i: int| 0 <= i < es.len() ==> wf_val(#[trigger] es[i].1));
        if obj_get(es, "in"@) is Some {
            lemma_get_wf(es, "in"@);
            ParameterIn::lemma_decode_wf(obj_get(es, "in"@)->0);
        }
        if obj_get(es, "schema"@) is Some {
            lemma_get_wf(es, "schema"@);
            Referenceable::<Schema>::lemma_decode_wf(obj_get(es, "schema"@)->0);
        }
        if obj_get(es, "example"@) is Some {
            lemma_get_wf(es, "example"@);
            Value::lemma_decode_wf(obj_get(es, "example"@)->0);
        }
        if obj_get(es, "examples"@) is Some {
            lemma_get_wf(es, "examples"@);
            SortedMap::<Referenceable<crate::meta::Example>>::lemma_decode_wf(obj_get(es, "examples"@)->0);
        }
        if obj_get(es, "content"@) is Some {
            lemma_get_wf(es, "content"@);
            SortedMap::<MediaType>::lemma_decode_wf(obj_get(es, "content"@)->0);
        }
    }

    proof fn lemma_decode_sentinel(v: SpecVal) {
    }

    /// Beyond the inherited exactness contract: which error kind comes
    /// back, field by field in declared order.
    fn decode(v: &Value) -> (r: Result<Self, DecodeError>)
        ensures
            !(v.deep_view() is Obj) ==> (r matches Err(e) && e is TypeMismatch),
            (v.deep_view() matches SpecVal::Obj(es) && obj_get(es, "name"@) is None) ==> (r matches Err(e)
                && e is MissingRequiredField),
            (v.deep_view() matches SpecVal::Obj(es) && (match obj_get(es, "name"@) {
                Some(sv) => !(sv is Str),
                None => false,
            })) ==> (r matches Err(e) && e is TypeMismatch),
            (v.deep_view() matches SpecVal::Obj(es) && sd_req_str(es, "name"@) is Some && obj_get(es, "in"@) is None) ==> (r matches Err(e)
                && e is MissingRequiredField),
            (v.deep_view() matches SpecVal::Obj(es) && sd_req_str(es, "name"@) is Some && sd_req::<ParameterIn>(es, "in"@) is Some && (match obj_get(es, "description"@) {
                Some(sv) => !(sv is Str),
                None => false,
            })) ==> (r matches Err(e) && e is TypeMismatch),
            (v.deep_view() matches SpecVal::Obj(es) && sd_req_str(es, "name"@) is Some && sd_req::<ParameterIn>(es, "in"@) is Some && sd_opt_str(es, "description"@) is Some && (match obj_get(es, "required"@) {
                Some(sv) => !(sv is Bool),
                None => false,
            })) ==> (r matches Err(e) && e is TypeMismatch),
            (v.deep_view() matches SpecVal::Obj(es) && sd_req_str(es, "name"@) is Some && sd_req::<ParameterIn>(es, "in"@) is Some && sd_opt_str(es, "description"@) is Some && sd_opt_bool(es, "required"@) is Some && (match obj_get(es, "deprecated"@) {
                Some(sv) => !(sv is Bool),
                None => false,
            })) ==> (r matches Err(e) && e is TypeMismatch),
            (v.deep_view() matches SpecVal::Obj(es) && sd_req_str(es, "name"@) is Some && sd_req::<ParameterIn>(es, "in"@) is Some && sd_opt_str(es, "description"@) is Some && sd_opt_bool(es, "required"@) is Some && sd_opt_bool(es, "deprecated"@) is Some && (match obj_get(es, "allowEmptyValue"@) {
                Some(sv) => !(sv is Bool),
                None => false,
            })) ==> (r matches Err(e) && e is TypeMismatch),
            (v.deep_view() matches SpecVal::Obj(es) && sd_req_str(es, "name"@) is Some && sd_req::<ParameterIn>(es, "in"@) is Some && sd_opt_str(es, "description"@) is Some && sd_opt_bool(es, "required"@) is Some && sd_opt_bool(es, "deprecated"@) is Some && sd_opt_bool(es, "allowEmptyValue"@) is Some && (match obj_get(es, "style"@) {
                Some(sv) => !(sv is Str),
                None => false,
            })) ==> (r matches Err(e) && e is TypeMismatch),
            (v.deep_view() matches SpecVal::Obj(es) && sd_req_str(es, "name"@) is Some && sd_req::<ParameterIn>(es, "in"@) is Some && sd_opt_str(es, "description"@) is Some && sd_opt_bool(es, "required"@) is Some && sd_opt_bool(es, "deprecated"@) is Some && sd_opt_bool(es, "allowEmptyValue"@) is Some && sd_opt_str(es, "style"@) is Some && (match obj_get(es, "explode"@) {
                Some(sv) => !(sv is Bool),
                None => false,
            })) ==> (r matches Err(e) && e is TypeMismatch),
            (v.deep_view() matches SpecVal::Obj(es) && sd_req_str(es, "name"@) is Some && sd_req::<ParameterIn>(es, "in"@) is Some && sd_opt_str(es, "description"@) is Some && sd_opt_bool(es, "required"@) is Some && sd_opt_bool(es, "deprecated"@) is Some && sd_opt_bool(es, "allowEmptyValue"@) is Some && sd_opt_str(es, "style"@) is Some && sd_opt_bool(es, "explode"@) is Some && (match obj_get(es, "allowReserved"@) {
                Some(sv) => !(sv is Bool),
                None => false,
            })) ==> (r matches Err(e) && e is TypeMismatch),
    {
        match v {
            Value::Obj(entries) => {
                let name = match dec_req_str(entries, "name", "Parameter") {
                    Ok(x) => x,
                    Err(e) => return Err(e),
                };
                let _in = match dec_req::<ParameterIn>(entries, "in", "Parameter") {
                    Ok(x) => x,
                    Err(e) => return Err(e),
                };
                let description = match dec_opt_str(entries, "description", "Parameter") {
                    Ok(x) => x,
                    Err(e) => return Err(e),
                };
                let required = match dec_opt_bool(entries, "required", "Parameter") {
                    Ok(x) => x,
                    Err(e) => return Err(e),
                };
                let deprecated = match dec_opt_bool(entries, "deprecated", "Parameter") {
                    Ok(x) => x,
                    Err(e) => return Err(e),
                };
                let allow_empty_value = match dec_opt_bool(entries, "allowEmptyValue", "Parameter") {
                    Ok(x) => x,
                    Err(e) => return Err(e),
                };
                let style = match dec_opt_str(entries, "style", "Parameter") {
                    Ok(x) => x,
                    Err(e) => return Err(e),
                };
                let explode = match dec_opt_bool(entries, "explode", "Parameter") {
                    Ok(x) => x,
                    Err(e) => return Err(e),
                };
                let allow_reserved = match dec_opt_bool(entries, "allowReserved", "Parameter") {
                    Ok(x) => x,
                    Err(e) => return Err(e),
                };
                let schema = match dec_opt::<Referenceable<Schema>>(entries, "schema") {
                    Ok(x) => x,
                    Err(e) => return Err(e),
                };
                let example = match dec_opt::<Value>(entries, "example") {
                    Ok(x) => x,
                    Err(e) => return Err(e),
                };
                let examples = match dec_opt::<SortedMap<Referenceable<crate::meta::Example>>>(entries, "examples") {
                    Ok(x) => x,
                    Err(e) => return Err(e),
                };
                let content = match dec_opt::<SortedMap<MediaType>>(entries, "content") {
                    Ok(x) => x,
                    Err(e) => return Err(e),
                };
                let out = Parameter { name, _in, description, required, deprecated, allow_empty_value, style, explode, allow_reserved, schema, example, examples, content };
                proof {
                    if wf_val(v.deep_view()) {
                        Self::lemma_decode_wf(v.deep_view());
                    }
                }
                Ok(out)
            },
            _ => Err(
                DecodeError::TypeMismatch {
                    field: "".to_owned(),
                    kind: "Parameter".to_owned(),
                    expected: "object".to_owned(),
                },
            ),
        }
    }

    #[verifier::rlimit(100)]
    #[verifier::spinoff_prover]
    fn encode(&self) -> (r: Value) {
        let mut out: Vec<(String, Value)> = Vec::new();
        let ghost m = self.deep_view();
        enc_str(&mut out, "name", &self.name);
        proof {
            assert(view_entries(out@) =~= opt_entry("name"@, str_slot(m.name)));
        }
        enc_req::<ParameterIn>(&mut out, "in", &self._in);
        proof {
            assert(view_entries(out@) =~= opt_entry("name"@, str_slot(m.name)) + opt_entry("in"@, req_slot::<ParameterIn>(m._in)));
        }
        enc_opt_str(&mut out, "description", &self.description);
        proof {
            assert(view_entries(out@) =~= opt_entry("name"@, str_slot(m.name)) + opt_entry("in"@, req_slot::<ParameterIn>(m._in)) + opt_entry("description"@, opt_str_slot(m.description)));
        }
        enc_opt_bool(&mut out, "required", &self.required);
        proof {
            assert(view_entries(out@) =~= opt_entry("name"@, str_slot(m.name)) + opt_entry("in"@, req_slot::<ParameterIn>(m._in)) + opt_entry("description"@, opt_str_slot(m.description)) + opt_entry("required"@, opt_bool_slot(m.required)));
        }
        enc_opt_bool(&mut out, "deprecated", &self.deprecated);
        proof {
            assert(view_entries(out@) =~= opt_entry("name"@, str_slot(m.name)) + opt_entry("in"@, req_slot::<ParameterIn>(m._in)) + opt_entry("description"@, opt_str_slot(m.description)) + opt_entry("required"@, opt_bool_slot(m.required)) + opt_entry("deprecated"@, opt_bool_slot(m.deprecated)));
        }
        enc_opt_bool(&mut out, "allowEmptyValue", &self.allow_empty_value);
        proof {
            assert(view_entries(out@) =~= opt_entry("name"@, str_slot(m.name)) + opt_entry("in"@, req_slot::<ParameterIn>(m._in)) + opt_entry("description"@, opt_str_slot(m.description)) + opt_entry("required"@, opt_bool_slot(m.required)) + opt_entry("deprecated"@, opt_bool_slot(m.deprecated)) + opt_entry("allowEmptyValue"@, opt_bool_slot(m.allow_empty_value)));
        }
        enc_opt_str(&mut out, "style", &self.style);
        proof {
            assert(view_entries(out@) =~= opt_entry("name"@, str_slot(m.name)) + opt_entry("in"@, req_slot::<ParameterIn>(m._in)) + opt_entry("description"@, opt_str_slot(m.description)) + opt_entry("required"@, opt_bool_slot(m.required)) + opt_entry("deprecated"@, opt_bool_slot(m.deprecated)) + opt_entry("allowEmptyValue"@, opt_bool_slot(m.allow_empty_value)) + opt_entry("style"@, opt_str_slot(m.style)));
        }
        enc_opt_bool(&mut out, "explode", &self.explode);
        proof {
            assert(view_entries(out@) =~= opt_entry("name"@, str_slot(m.name)) + opt_entry("in"@, req_slot::<ParameterIn>(m._in)) + opt_entry("description"@, opt_str_slot(m.description)) + opt_entry("required"@, opt_bool_slot(m.required)) + opt_entry("deprecated"@, opt_bool_slot(m.deprecated)) + opt_entry("allowEmptyValue"@, opt_bool_slot(m.allow_empty_value)) + opt_entry("style"@, opt_str_slot(m.style)) + opt_entry("explode"@, opt_bool_slot(m.explode)));
        }
        enc_opt_bool(&mut out, "allowReserved", &self.allow_reserved);
        proof {
            assert(view_entries(out@) =~= opt_entry("name"@, str_slot(m.name)) + opt_entry("in"@, req_slot::<ParameterIn>(m._in)) + opt_entry("description"@, opt_str_slot(m.description)) + opt_entry("required"@, opt_bool_slot(m.required)) + opt_entry("deprecated"@, opt_bool_slot(m.deprecated)) + opt_entry("allowEmptyValue"@, opt_bool_slot(m.allow_empty_value)) + opt_entry("style"@, opt_str_slot(m.style)) + opt_entry("explode"@, opt_bool_slot(m.explode)) + opt_entry("allowReserved"@, opt_bool_slot(m.allow_reserved)));
        }
        enc_opt::<Referenceable<Schema>>(&mut out, "schema", &self.schema);
        proof {
            assert(view_entries(out@) =~= opt_entry("name"@, str_slot(m.name)) + opt_entry("in"@, req_slot::<ParameterIn>(m._in)) + opt_entry("description"@, opt_str_slot(m.description)) + opt_entry("required"@, opt_bool_slot(m.required)) + opt_entry("deprecated"@, opt_bool_slot(m.deprecated)) + opt_entry("allowEmptyValue"@, opt_bool_slot(m.allow_empty_value)) + opt_entry("style"@, opt_str_slot(m.style)) + opt_entry("explode"@, opt_bool_slot(m.explode)) + opt_entry("allowReserved"@, opt_bool_slot(m.allow_reserved)) + opt_entry("schema"@, opt_slot::<Referenceable<Schema>>(m.schema)));
        }
        enc_opt::<Value>(&mut out, "example", &self.example);
        proof {
            assert(view_entries(out@) =~= opt_entry("name"@, str_slot(m.name)) + opt_entry("in"@, req_slot::<ParameterIn>(m._in)) + opt_entry("description"@, opt_str_slot(m.description)) + opt_entry("required"@, opt_bool_slot(m.required)) + opt_entry("deprecated"@, opt_bool_slot(m.deprecated)) + opt_entry("allowEmptyValue"@, opt_bool_slot(m.allow_empty_value)) + opt_entry("style"@, opt_str_slot(m.style)) + opt_entry("explode"@, opt_bool_slot(m.explode)) + opt_entry("allowReserved"@, opt_bool_slot(m.allow_reserved)) + opt_entry("schema"@, opt_slot::<Referenceable<Schema>>(m.schema)) + opt_entry("example"@, opt_slot::<Value>(m.example)));
        }
        enc_opt::<SortedMap<Referenceable<crate::meta::Example>>>(&mut out, "examples", &self.examples);
        proof {
            assert(view_entries(out@) =~= opt_entry("name"@, str_slot(m.name)) + opt_entry("in"@, req_slot::<ParameterIn>(m._in)) + opt_entry("description"@, opt_str_slot(m.description)) + opt_entry("required"@, opt_bool_slot(m.required)) + opt_entry("deprecated"@, opt_bool_slot(m.deprecated)) + opt_entry("allowEmptyValue"@, opt_bool_slot(m.allow_empty_value)) + opt_entry("style"@, opt_str_slot(m.style)) + opt_entry("explode"@, opt_bool_slot(m.explode)) + opt_entry("allowReserved"@, opt_bool_slot(m.allow_reserved)) + opt_entry("schema"@, opt_slot::<Referenceable<Schema>>(m.schema)) + opt_entry("example"@, opt_slot::<Value>(m.example)) + opt_entry("examples"@, opt_slot::<SortedMap<Referenceable<crate::meta::Example>>>(m.examples)));
        }
        enc_opt::<SortedMap<MediaType>>(&mut out, "content", &self.content);
        proof {
            assert(view_entries(out@) =~= opt_entry("name"@, str_slot(m.name)) + opt_entry("in"@, req_slot::<ParameterIn>(m._in)) + opt_entry("description"@, opt_str_slot(m.description)) + opt_entry("required"@, opt_bool_slot(m.required)) + opt_entry("deprecated"@, opt_bool_slot(m.deprecated)) + opt_entry("allowEmptyValue"@, opt_bool_slot(m.allow_empty_value)) + opt_entry("style"@, opt_str_slot(m.style)) + opt_entry("explode"@, opt_bool_slot(m.explode)) + opt_entry("allowReserved"@, opt_bool_slot(m.allow_reserved)) + opt_entry("schema"@, opt_slot::<Referenceable<Schema>>(m.schema)) + opt_entry("example"@, opt_slot::<Value>(m.example)) + opt_entry("examples"@, opt_slot::<SortedMap<Referenceable<crate::meta::Example>>>(m.examples)) + opt_entry("content"@, opt_slot::<SortedMap<MediaType>>(m.content)));
        }
        proof {
            lemma_parameter_entries(m);
            assert(view_entries(out@) =~= fields_entries(parameter_fields(m)));
        }
        Value::Obj(out)
    }
}

/// The encoded entry list of the parameter kind, written out field by field.
#[verifier::rlimit(100)]
#[verifier::spinoff_prover]
pub proof fn lemma_parameter_entries(m: ParameterV) 
    ensures
        fields_entries(parameter_fields(m)) == opt_entry("name"@, str_slot(m.name)) + opt_entry("in"@, req_slot::<ParameterIn>(m._in)) + opt_entry("description"@, opt_str_slot(m.description)) + opt_entry("required"@, opt_bool_slot(m.required)) + opt_entry("deprecated"@, opt_bool_slot(m.deprecated)) + opt_entry("allowEmptyValue"@, opt_bool_slot(m.allow_empty_value)) + opt_entry("style"@, opt_str_slot(m.style)) + opt_entry("explode"@, opt_bool_slot(m.explode)) + opt_entry("allowReserved"@, opt_bool_slot(m.allow_reserved)) + opt_entry("schema"@, opt_slot::<Referenceable<Schema>>(m.schema)) + opt_entry("example"@, opt_slot::<Value>(m.example)) + opt_entry("examples"@, opt_slot::<SortedMap<Referenceable<crate::meta::Example>>>(m.examples)) + opt_entry("content"@, opt_slot::<SortedMap<MediaType>>(m.content)),
{
    let fs = parameter_fields(m);
    assert(fs.len() == 13);
    let fs1 = fs.drop_first();
    assert(fs1[0] == fs[1] && fs1.len() == 12);
    let fs2 = fs1.drop_first();
    assert(fs2[0] == fs[2] && fs2.len() == 11);
    let fs3 = fs2.drop_first();
    assert(fs3[0] == fs[3] && fs3.len() == 10);
    let fs4 = fs3.drop_first();
    assert(fs4[0] == fs[4] && fs4.len() == 9);
    let fs5 = fs4.drop_first();
    assert(fs5[0] == fs[5] && fs5.len() == 8);
    let fs6 = fs5.drop_first();
    assert(fs6[0] == fs[6] && fs6.len() == 7);
    let fs7 = fs6.drop_first();
    assert(fs7[0] == fs[7] && fs7.len() == 6);
    let fs8 = fs7.drop_first();
    assert(fs8[0] == fs[8] && fs8.len() == 5);
    let fs9 = fs8.drop_first();
    assert(fs9[0] == fs[9] && fs9.len() == 4);
    let fs10 = fs9.drop_first();
    assert(fs10[0] == fs[10] && fs10.len() == 3);
    let fs11 = fs10.drop_first();
    assert(fs11[0] == fs[11] && fs11.len() == 2);
    let fs12 = fs11.drop_first();
    assert(fs12[0] == fs[12] && fs12.len() == 1);
    let fs13 = fs12.drop_first();
    assert(fs13.len() == 0);
    assert(fields_entries(fs13) =~= Seq::<(Seq<char>, SpecVal)>::empty());
    assert(fields_entries(fs12) =~= opt_entry(fs[12].0, fs[12].1) + fields_entries(fs13));
    assert(fields_entries(fs11) =~= opt_entry(fs[11].0, fs[11].1) + fields_entries(fs12));
    assert(fields_entries(fs10) =~= opt_entry(fs[10].0, fs[10].1) + fields_entries(fs11));
    assert(fields_entries(fs9) =~= opt_entry(fs[9].0, fs[9].1) + fields_entries(fs10));
    assert(fields_entries(fs8) =~= opt_entry(fs[8].0, fs[8].1) + fields_entries(fs9));
    assert(fields_entries(fs7) =~= opt_entry(fs[7].0, fs[7].1) + fields_entries(fs8));
    assert(fields_entries(fs6) =~= opt_entry(fs[6].0, fs[6].1) + fields_entries(fs7));
    assert(fields_entries(fs5) =~= opt_entry(fs[5].0, fs[5].1) + fields_entries(fs6));
    assert(fields_entries(fs4) =~= opt_entry(fs[4].0, fs[4].1) + fields_entries(fs5));
    assert(fields_entries(fs3) =~= opt_entry(fs[3].0, fs[3].1) + fields_entries(fs4));
    assert(fields_entries(fs2) =~= opt_entry(fs[2].0, fs[2].1) + fields_entries(fs3));
    assert(fields_entries(fs1) =~= opt_entry(fs[1].0, fs[1].1) + fields_entries(fs2));
    assert(fields_entries(fs) =~= opt_entry(fs[0].0, fs[0].1) + fields_entries(fs1));
    let e1 = opt_entry("name"@, str_slot(m.name));
    let e2 = opt_entry("in"@, req_slot::<ParameterIn>(m._in));
    let e3 = opt_entry("description"@, opt_str_slot(m.description));
    let e4 = opt_entry("required"@, opt_bool_slot(m.required));
    let e5 = opt_entry("deprecated"@, opt_bool_slot(m.deprecated));
    let e6 = opt_entry("allowEmptyValue"@, opt_bool_slot(m.allow_empty_value));
    let e7 = opt_entry("style"@, opt_str_slot(m.style));
    let e8 = opt_entry("explode"@, opt_bool_slot(m.explode));
    let e9 = opt_entry("allowReserved"@, opt_bool_slot(m.allow_reserved));
    let e10 = opt_entry("schema"@, opt_slot::<Referenceable<Schema>>(m.schema));
    let e11 = opt_entry("example"@, opt_slot::<Value>(m.example));
    let e12 = opt_entry("examples"@, opt_slot::<SortedMap<Referenceable<crate::meta::Example>>>(m.examples));
    let e13 = opt_entry("content"@, opt_slot::<SortedMap<MediaType>>(m.content));
    assert(fields_entries(fs) == e1 + fields_entries(fs1));
    vstd::seq_lib::lemma_concat_associative(e1, e2, fields_entries(fs2));
    assert((e1 + e2) + fields_entries(fs2) == (e1) + (e2 + fields_entries(fs2)));
    vstd::seq_lib::lemma_concat_associative(e1 + e2, e3, fields_entries(fs3));
    assert((e1 + e2 + e3) + fields_entries(fs3) == (e1 + e2) + (e3 + fields_entries(fs3)));
    vstd::seq_lib::lemma_concat_associative(e1 + e2 + e3, e4, fields_entries(fs4));
    assert((e1 + e2 + e3 + e4) + fields_entries(fs4) == (e1 + e2 + e3) + (e4 + fields_entries(fs4)));
    vstd::seq_lib::lemma_concat_associative(e1 + e2 + e3 + e4, e5, fields_entries(fs5));
    assert((e1 + e2 + e3 + e4 + e5) + fields_entries(fs5) == (e1 + e2 + e3 + e4) + (e5 + fields_entries(fs5)));
    vstd::seq_lib::lemma_concat_associative(e1 + e2 + e3 + e4 + e5, e6, fields_entries(fs6));
    assert((e1 + e2 + e3 + e4 + e5 + e6) + fields_entries(fs6) == (e1 + e2 + e3 + e4 + e5) + (e6 + fields_entries(fs6)));
    vstd::seq_lib::lemma_concat_associative(e1 + e2 + e3 + e4 + e5 + e6, e7, fields_entries(fs7));
    assert((e1 + e2 + e3 + e4 + e5 + e6 + e7) + fields_entries(fs7) == (e1 + e2 + e3 + e4 + e5 + e6) + (e7 + fields_entries(fs7)));
    vstd::seq_lib::lemma_concat_associative(e1 + e2 + e3 + e4 + e5 + e6 + e7, e8, fields_entries(fs8));
    assert((e1 + e2 + e3 + e4 + e5 + e6 + e7 + e8) + fields_entries(fs8) == (e1 + e2 + e3 + e4 + e5 + e6 + e7) + (e8 + fields_entries(fs8)));
    vstd::seq_lib::lemma_concat_associative(e1 + e2 + e3 + e4 + e5 + e6 + e7 + e8, e9, fields_entries(fs9));
    assert((e1 + e2 + e3 + e4 + e5 + e6 + e7 + e8 + e9) + fields_entries(fs9) == (e1 + e2 + e3 + e4 + e5 + e6 + e7 + e8) + (e9 + fields_entries(fs9)));
    vstd::seq_lib::lemma_concat_associative(e1 + e2 + e3 + e4 + e5 + e6 + e7 + e8 + e9, e10, fields_entries(fs10));
    assert((e1 + e2 + e3 + e4 + e5 + e6 + e7 + e8 + e9 + e10) + fields_entries(fs10) == (e1 + e2 + e3 + e4 + e5 + e6 + e7 + e8 + e9) + (e10 + fields_entries(fs10)));
    vstd::seq_lib::lemma_concat_associative(e1 + e2 + e3 + e4 + e5 + e6 + e7 + e8 + e9 + e10, e11, fields_entries(fs11));
    assert((e1 + e2 + e3 + e4 + e5 + e6 + e7 + e8 + e9 + e10 + e11) + fields_entries(fs11) == (e1 + e2 + e3 + e4 + e5 + e6 + e7 + e8 + e9 + e10) + (e11 + fields_entries(fs11)));
    vstd::seq_lib::lemma_concat_associative(e1 + e2 + e3 + e4 + e5 + e6 + e7 + e8 + e9 + e10 + e11, e12, fields_entries(fs12));
    assert((e1 + e2 + e3 + e4 + e5 + e6 + e7 + e8 + e9 + e10 + e11 + e12) + fields_entries(fs12) == (e1 + e2 + e3 + e4 + e5 + e6 + e7 + e8 + e9 + e10 + e11) + (e12 + fields_entries(fs12)));
    vstd::seq_lib::lemma_concat_associative(e1 + e2 + e3 + e4 + e5 + e6 + e7 + e8 + e9 + e10 + e11 + e12, e13, fields_entries(fs13));
    assert((e1 + e2 + e3 + e4 + e5 + e6 + e7 + e8 + e9 + e10 + e11 + e12 + e13) + fields_entries(fs13) == (e1 + e2 + e3 + e4 + e5 + e6 + e7 + e8 + e9 + e10 + e11 + e12) + (e13 + fields_entries(fs13)));
    assert((e1 + e2 + e3 + e4 + e5 + e6 + e7 + e8 + e9 + e10 + e11 + e12 + e13) + fields_entries(fs13) =~= e1 + e2 + e3 + e4 + e5 + e6 + e7 + e8 + e9 + e10 + e11 + e12 + e13);
    assert(fields_entries(fs) == e1 + e2 + e3 + e4 + e5 + e6 + e7 + e8 + e9 + e10 + e11 + e12 + e13);
}

/// A single request body.
#[derive(Debug, Clone)]
pub struct RequestBody {
    pub description: Option<String>,
    pub required: Option<bool>,
    pub content: SortedMap<MediaType>,
}

/// The model of a `RequestBody`.
pub struct RequestBodyV {
    pub description: Option<Seq<char>>,
    pub required: Option<bool>,
    pub content: Seq<(Seq<char>, MediaTypeV)>,
}

impl DeepView for RequestBody {
    type V = RequestBodyV;

    open spec fn deep_view(&self) -> RequestBodyV {
        RequestBodyV {
            description: self.description.deep_view(),
            required: self.required.deep_view(),
            content: self.content.deep_view(),
        }
    }
}

/// The declared fields of the requestbody kind, in schema order.
pub open spec fn requestbody_fields(m: RequestBodyV) -> FieldImage {
    seq![
        ("description"@, opt_str_slot(m.description)),
        ("required"@, opt_bool_slot(m.required)),
        ("content"@, req_slot::<SortedMap<MediaType>>(m.content)),
    ]
}

impl Codec for RequestBody {
    open spec fn spec_decode(v: SpecVal) -> Option<RequestBodyV> {
        match v {
            SpecVal::Obj(es) => {
                if sd_opt_str(es, "description"@) is Some && sd_opt_bool(es, "required"@) is Some && sd_req::<SortedMap<MediaType>>(es, "content"@) is Some {
                    Some(
                        RequestBodyV {
                            description: sd_opt_str(es, "description"@)->0,
                            required: sd_opt_bool(es, "required"@)->0,
                            content: sd_req::<SortedMap<MediaType>>(es, "content"@)->0,
                        },
                    )
                } else {
                    None
                }
            },
            _ => None,
        }
    }

    open spec fn spec_encode(m: RequestBodyV) -> SpecVal {
        SpecVal::Obj(fields_entries(requestbody_fields(m)))
    }

    open spec fn model_wf(m: RequestBodyV) -> bool {
        SortedMap::<MediaType>::model_wf(m.content)
    }

    open spec fn sentinel_free(m: RequestBodyV) -> bool {
        true
    }

    proof fn lemma_codec(m: RequestBodyV) {
        reveal_strlit("description");
        reveal_strlit("required");
        reveal_strlit("content");
        reveal_strlit("$ref");
        let fs = requestbody_fields(m);
        assert(fs[0].0 == "description"@);
        assert(fs[1].0 == "required"@);
        assert(fs[2].0 == "content"@);
        assert("description"@ != "required"@ && "description"@ != "content"@ && "required"@ != "content"@);
        assert("description"@ != "$ref"@ && "required"@ != "$ref"@ && "content"@ != "$ref"@);
        assert(distinct_names(fs));
        SortedMap::<MediaType>::lemma_codec(m.content);
        assert(match fs[0].1 {
            Some(sv) => wf_val(sv),
            None => true,
        });
        assert(match fs[1].1 {
            Some(sv) => wf_val(sv),
            None => true,
        });
        assert(match fs[2].1 {
            Some(sv) => wf_val(sv),
            None => true,
        });
        lemma_record_obj(fs, Seq::empty(), ref_key());
        let es = fields_entries(fs) + Seq::<(Seq<char>, SpecVal)>::empty();
        assert(es =~= fields_entries(fs));
        assert(obj_get(es, "description"@) == opt_str_slot(m.description));
        assert(obj_get(es, "required"@) == opt_bool_slot(m.required));
        assert(obj_get(es, "content"@) == req_slot::<SortedMap<MediaType>>(m.content));
    }

    proof fn lemma_decode_wf(v: SpecVal) {
        let es = v->Obj_0;
        assert(forall|i: int| 0 <= i < es.len() ==> wf_val(#[trigger] es[i].1));
        if obj_get(es, "content"@) is Some {
            lemma_get_wf(es, "content"@);
            SortedMap::<MediaType>::lemma_decode_wf(obj_get(es, "content"@)->0);
        }
    }

    proof fn lemma_decode_sentinel(v: SpecVal) {
    }

    /// Beyond the inherited exactness contract: which error kind comes
    /// back, field by field in declared order.
    fn decode(v: &Value) -> (r: Result<Self, DecodeError>)
        ensures
            !(v.deep_view() is Obj) ==> (r matches Err(e) && e is TypeMismatch),
            (v.deep_view() matches SpecVal::Obj(es) && (match obj_get(es, "description"@) {
                Some(sv) => !(sv is Str),
                None => false,
            })) ==> (r matches Err(e) && e is TypeMismatch),
            (v.deep_view() matches SpecVal::Obj(es) && sd_opt_str(es, "description"@) is Some && (match obj_get(es, "required"@) {
                Some(sv) => !(sv is Bool),
                None => false,
            })) ==> (r matches Err(e) && e is TypeMismatch),
            (v.deep_view() matches SpecVal::Obj(es) && sd_opt_str(es, "description"@) is Some && sd_opt_bool(es, "required"@) is Some && obj_get(es, "content"@) is None) ==> (r matches Err(e)
                && e is MissingRequiredField),
    {
        match v {
            Value::Obj(entries) => {
                let description = match dec_opt_str(entries, "description", "RequestBody") {
                    Ok(x) => x,
                    Err(e) => return Err(e),
                };
                let required = match dec_opt_bool(entries, "required", "RequestBody") {
                    Ok(x) => x,
                    Err(e) => return Err(e),
                };
                let content = match dec_req::<SortedMap<MediaType>>(entries, "content", "RequestBody") {
                    Ok(x) => x,
                    Err(e) => return Err(e),
                };
                let out = RequestBody { description, required, content };
                proof {
                    if wf_val(v.deep_view()) {
                        Self::lemma_decode_wf(v.deep_view());
                    }
                }
                Ok(out)
            },
            _ => Err(
                DecodeError::TypeMismatch {
                    field: "".to_owned(),
                    kind: "RequestBody".to_owned(),
                    expected: "object".to_owned(),
                },
            ),
        }
    }

    fn encode(&self) -> (r: Value) {
        let mut out: Vec<(String, Value)> = Vec::new();
        let ghost m = self.deep_view();
        enc_opt_str(&mut out, "description", &self.description);
        proof {
            assert(view_entries(out@) =~= opt_entry("description"@, opt_str_slot(m.description)));
        }
        enc_opt_bool(&mut out, "required", &self.required);
        proof {
            assert(view_entries(out@) =~= opt_entry("description"@, opt_str_slot(m.description)) + opt_entry("required"@, opt_bool_slot(m.required)));
        }
        enc_req::<SortedMap<MediaType>>(&mut out, "content", &self.content);
        proof {
            assert(view_entries(out@) =~= opt_entry("description"@, opt_str_slot(m.description)) + opt_entry("required"@, opt_bool_slot(m.required)) + opt_entry("content"@, req_slot::<SortedMap<MediaType>>(m.content)));
        }
        proof {
            lemma_requestbody_entries(m);
            assert(view_entries(out@) =~= fields_entries(requestbody_fields(m)));
        }
        Value::Obj(out)
    }
}

/// The encoded entry list of the requestbody kind, written out field by field.
pub proof fn lemma_requestbody_entries(m: RequestBodyV) 
    ensures
        fields_entries(requestbody_fields(m)) == opt_entry("description"@, opt_str_slot(m.description)) + opt_entry("required"@, opt_bool_slot(m.required)) + opt_entry("content"@, req_slot::<SortedMap<MediaType>>(m.content)),
{
    let fs = requestbody_fields(m);
    assert(fs.len() == 3);
    let fs1 = fs.drop_first();
    assert(fs1[0] == fs[1] && fs1.len() == 2);
    let fs2 = fs1.drop_first();
    assert(fs2[0] == fs[2] && fs2.len() == 1);
    let fs3 = fs2.drop_first();
    assert(fs3.len() == 0);
    assert(fields_entries(fs3) =~= Seq::<(Seq<char>, SpecVal)>::empty());
    assert(fields_entries(fs2) =~= opt_entry(fs[2].0, fs[2].1) + fields_entries(fs3));
    assert(fields_entries(fs1) =~= opt_entry(fs[1].0, fs[1].1) + fields_entries(fs2));
    assert(fields_entries(fs) =~= opt_entry(fs[0].0, fs[0].1) + fields_entries(fs1));
    let e1 = opt_entry("description"@, opt_str_slot(m.description));
    let e2 = opt_entry("required"@, opt_bool_slot(m.required));
    let e3 = opt_entry("content"@, req_slot::<SortedMap<MediaType>>(m.content));
    assert(fields_entries(fs) == e1 + fields_entries(fs1));
    vstd::seq_lib::lemma_concat_associative(e1, e2, fields_entries(fs2));
    assert((e1 + e2) + fields_entries(fs2) == (e1) + (e2 + fields_entries(fs2)));
    vstd::seq_lib::lemma_concat_associative(e1 + e2, e3, fields_entries(fs3));
    assert((e1 + e2 + e3) + fields_entries(fs3) == (e1 + e2) + (e3 + fields_entries(fs3)));
    assert((e1 + e2 + e3) + fields_entries(fs3) =~= e1 + e2 + e3);
    assert(fields_entries(fs) == e1 + e2 + e3);
}

/// A design-time link from a response to another operation.
#[derive(Debug, Clone)]
pub struct Link {
    pub operation_ref: Option<String>,
    pub operation_id: String,
    pub parameters: Option<SortedMap<Value>>,
    pub request_body: Option<Value>,
    pub description: Option<String>,
    pub server: Option<Server>,
}

/// The model of a `Link`.
pub struct LinkV {
    pub operation_ref: Option<Seq<char>>,
    pub operation_id: Seq<char>,
    pub parameters: Option<Seq<(Seq<char>, SpecVal)>>,
    pub request_body: Option<SpecVal>,
    pub description: Option<Seq<char>>,
    pub server: Option<ServerV>,
}

impl DeepView for Link {
    type V = LinkV;

    open spec fn deep_view(&self) -> LinkV {
        LinkV {
            operation_ref: self.operation_ref.deep_view(),
            operation_id: self.operation_id.deep_view(),
            parameters: self.parameters.deep_view(),
            request_body: self.request_body.deep_view(),
            description: self.description.deep_view(),
            server: self.server.deep_view(),
        }
    }
}

/// The declared fields of the link kind, in schema order.
pub open spec fn link_fields(m: LinkV) -> FieldImage {
    seq![
        ("operationRef"@, opt_str_slot(m.operation_ref)),
        ("operationId"@, str_slot(m.operation_id)),
        ("parameters"@, opt_slot::<SortedMap<Value>>(m.parameters)),
        ("requestBody"@, opt_slot::<Value>(m.request_body)),
        ("description"@, opt_str_slot(m.description)),
        ("server"@, opt_slot::<Server>(m.server)),
    ]
}

impl Codec for Link {
    open spec fn spec_decode(v: SpecVal) -> Option<LinkV> {
        match v {
            SpecVal::Obj(es) => {
                if sd_opt_str(es, "operationRef"@) is Some && sd_req_str(es, "operationId"@) is Some && sd_opt::<SortedMap<Value>>(es, "parameters"@) is Some && sd_opt::<Value>(es, "requestBody"@) is Some && sd_opt_str(es, "description"@) is Some && sd_opt::<Server>(es, "server"@) is Some {
                    Some(
                        LinkV {
                            operation_ref: sd_opt_str(es, "operationRef"@)->0,
                            operation_id: sd_req_str(es, "operationId"@)->0,
                            parameters: sd_opt::<SortedMap<Value>>(es, "parameters"@)->0,
                            request_body: sd_opt::<Value>(es, "requestBody"@)->0,
                            description: sd_opt_str(es, "description"@)->0,
                            server: sd_opt::<Server>(es, "server"@)->0,
                        },
                    )
                } else {
                    None
                }
            },
            _ => None,
        }
    }

    open spec fn spec_encode(m: LinkV) -> SpecVal {
        SpecVal::Obj(fields_entries(link_fields(m)))
    }

    open spec fn model_wf(m: LinkV) -> bool {
        (match m.parameters {
            Some(t) => SortedMap::<Value>::model_wf(t),
            None => true,
        }) && (match m.request_body {
            Some(t) => Value::model_wf(t),
            None => true,
        }) && (match m.server {
            Some(t) => Server::model_wf(t),
            None => true,
        })
    }

    open spec fn sentinel_free(m: LinkV) -> bool {
        true
    }

    #[verifier::rlimit(100)]
    #[verifier::spinoff_prover]
    proof fn lemma_codec(m: LinkV) {
        reveal_strlit("operationRef");
        reveal_strlit("operationId");
        reveal_strlit("parameters");
        reveal_strlit("requestBody");
        reveal_strlit("description");
        reveal_strlit("server");
        reveal_strlit("$ref");
        let fs = link_fields(m);
        assert(fs[0].0 == "operationRef"@);
        assert(fs[1].0 == "operationId"@);
        assert(fs[2].0 == "parameters"@);
        assert(fs[3].0 == "requestBody"@);
        assert(fs[4].0 == "description"@);
        assert(fs[5].0 == "server"@);
        assert(("operationId"@)[0] == 'o');
        assert(("requestBody"@)[0] == 'r');
        assert(("description"@)[0] == 'd');
        assert("operationRef"@ != "operationId"@ && "operationRef"@ != "parameters"@ && "operationRef"@ != "requestBody"@);
        assert("operationRef"@ != "description"@ && "operationRef"@ != "server"@ && "operationId"@ != "parameters"@);
        assert("operationId"@ != "requestBody"@ && "operationId"@ != "description"@ && "operationId"@ != "server"@);
        assert("parameters"@ != "requestBody"@ && "parameters"@ != "description"@ && "parameters"@ != "server"@);
        assert("requestBody"@ != "description"@ && "requestBody"@ != "server"@ && "description"@ != "server"@);
        assert("operationRef"@ != "$ref"@ && "operationId"@ != "$ref"@ && "parameters"@ != "$ref"@);
        assert("requestBody"@ != "$ref"@ && "description"@ != "$ref"@ && "server"@ != "$ref"@);
        assert(distinct_names(fs));
        if m.parameters is Some {
            SortedMap::<Value>::lemma_codec(m.parameters->0);
        }
        if m.request_body is Some {
            Value::lemma_codec(m.request_body->0);
        }
        if m.server is Some {
            Server::lemma_codec(m.server->0);
        }
        assert(match fs[0].1 {
            Some(sv) => wf_val(sv),
            None => true,
        });
        assert(match fs[1].1 {
            Some(sv) => wf_val(sv),
            None => true,
        });
        assert(match fs[2].1 {
            Some(sv) => wf_val(sv),
            None => true,
        });
        assert(match fs[3].1 {
            Some(sv) => wf_val(sv),
            None => true,
        });
        assert(match fs[4].1 {
            Some(sv) => wf_val(sv),
            None => true,
        });
        assert(match fs[5].1 {
            Some(sv) => wf_val(sv),
            None => true,
        });
        lemma_record_obj(fs, Seq::empty(), ref_key());
        let es = fields_entries(fs) + Seq::<(Seq<char>, SpecVal)>::empty();
        assert(es =~= fields_entries(fs));
        assert(obj_get(es, "operationRef"@) == opt_str_slot(m.operation_ref));
        assert(obj_get(es, "operationId"@) == str_slot(m.operation_id));
        assert(obj_get(es, "parameters"@) == opt_slot::<SortedMap<Value>>(m.parameters));
        assert(obj_get(es, "requestBody"@) == opt_slot::<Value>(m.request_body));
        assert(obj_get(es, "description"@) == opt_str_slot(m.description));
        assert(obj_get(es, "server"@) == opt_slot::<Server>(m.server));
    }

    proof fn lemma_decode_wf(v: SpecVal) {
        let es = v->Obj_0;
        assert(forall|i: int| 0 <= i < es.len() ==> wf_val(#[trigger] es[i].1));
        if obj_get(es, "parameters"@) is Some {
            lemma_get_wf(es, "parameters"@);
            SortedMap::<Value>::lemma_decode_wf(obj_get(es, "parameters"@)->0);
        }
        if obj_get(es, "requestBody"@) is Some {
            lemma_get_wf(es, "requestBody"@);
            Value::lemma_decode_wf(obj_get(es, "requestBody"@)->0);
        }
        if obj_get(es, "server"@) is Some {
            lemma_get_wf(es, "server"@);
            Server::lemma_decode_wf(obj_get(es, "server"@)->0);
        }
    }

    proof fn lemma_decode_sentinel(v: SpecVal) {
    }

    /// Beyond the inherited exactness contract: which error kind comes
    /// back, field by field in declared order.
    fn decode(v: &Value) -> (r: Result<Self, DecodeError>)
        ensures
            !(v.deep_view() is Obj) ==> (r matches Err(e) && e is TypeMismatch),
            (v.deep_view() matches SpecVal::Obj(es) && (match obj_get(es, "operationRef"@) {
                Some(sv) => !(sv is Str),
                None => false,
            })) ==> (r matches Err(e) && e is TypeMismatch),
            (v.deep_view() matches SpecVal::Obj(es) && sd_opt_str(es, "operationRef"@) is Some && obj_get(es, "operationId"@) is None) ==> (r matches Err(e)
                && e is MissingRequiredField),
            (v.deep_view() matches SpecVal::Obj(es) && sd_opt_str(es, "operationRef"@) is Some && (match obj_get(es, "operationId"@) {
                Some(sv) => !(sv is Str),
                None => false,
            })) ==> (r matches Err(e) && e is TypeMismatch),
            (v.deep_view() matches SpecVal::Obj(es) && sd_opt_str(es, "operationRef"@) is Some && sd_req_str(es, "operationId"@) is Some && sd_opt::<SortedMap<Value>>(es, "parameters"@) is Some && sd_opt::<Value>(es, "requestBody"@) is Some && (match obj_get(es, "description"@) {
                Some(sv) => !(sv is Str),
                None => false,
            })) ==> (r matches Err(e) && e is TypeMismatch),
    {
        match v {
            Value::Obj(entries) => {
                let operation_ref = match dec_opt_str(entries, "operationRef", "Link") {
                    Ok(x) => x,
                    Err(e) => return Err(e),
                };
                let operation_id = match dec_req_str(entries, "operationId", "Link") {
                    Ok(x) => x,
                    Err(e) => return Err(e),
                };
                let parameters = match dec_opt::<SortedMap<Value>>(entries, "parameters") {
                    Ok(x) => x,
                    Err(e) => return Err(e),
                };
                let request_body = match dec_opt::<Value>(entries, "requestBody") {
                    Ok(x) => x,
                    Err(e) => return Err(e),
                };
                let description = match dec_opt_str(entries, "description", "Link") {
                    Ok(x) => x,
                    Err(e) => return Err(e),
                };
                let server = match dec_opt::<Server>(entries, "server") {
                    Ok(x) => x,
                    Err(e) => return Err(e),
                };
                let out = Link { operation_ref, operation_id, parameters, request_body, description, server };
                proof {
                    if wf_val(v.deep_view()) {
                        Self::lemma_decode_wf(v.deep_view());
                    }
                }
                Ok(out)
            },
            _ => Err(
                DecodeError::TypeMismatch {
                    field: "".to_owned(),
                    kind: "Link".to_owned(),
                    expected: "object".to_owned(),
                },
            ),
        }
    }

    #[verifier::rlimit(100)]
    #[verifier::spinoff_prover]
    fn encode(&self) -> (r: Value) {
        let mut out: Vec<(String, Value)> = Vec::new();
        let ghost m = self.deep_view();
        enc_opt_str(&mut out, "operationRef", &self.operation_ref);
        proof {
            assert(view_entries(out@) =~= opt_entry("operationRef"@, opt_str_slot(m.operation_ref)));
        }
        enc_str(&mut out, "operationId", &self.operation_id);
        proof {
            assert(view_entries(out@) =~= opt_entry("operationRef"@, opt_str_slot(m.operation_ref)) + opt_entry("operationId"@, str_slot(m.operation_id)));
        }
        enc_opt::<SortedMap<Value>>(&mut out, "parameters", &self.parameters);
        proof {
            assert(view_entries(out@) =~= opt_entry("operationRef"@, opt_str_slot(m.operation_ref)) + opt_entry("operationId"@, str_slot(m.operation_id)) + opt_entry("parameters"@, opt_slot::<SortedMap<Value>>(m.parameters)));
        }
        enc_opt::<Value>(&mut out, "requestBody", &self.request_body);
        proof {
            assert(view_entries(out@) =~= opt_entry("operationRef"@, opt_str_slot(m.operation_ref)) + opt_entry("operationId"@, str_slot(m.operation_id)) + opt_entry("parameters"@, opt_slot::<SortedMap<Value>>(m.parameters)) + opt_entry("requestBody"@, opt_slot::<Value>(m.request_body)));
        }
        enc_opt_str(&mut out, "description", &self.description);
        proof {
            assert(view_entries(out@) =~= opt_entry("operationRef"@, opt_str_slot(m.operation_ref)) + opt_entry("operationId"@, str_slot(m.operation_id)) + opt_entry("parameters"@, opt_slot::<SortedMap<Value>>(m.parameters)) + opt_entry("requestBody"@, opt_slot::<Value>(m.request_body)) + opt_entry("description"@, opt_str_slot(m.description)));
        }
        enc_opt::<Server>(&mut out, "server", &self.server);
        proof {
            assert(view_entries(out@) =~= opt_entry("operationRef"@, opt_str_slot(m.operation_ref)) + opt_entry("operationId"@, str_slot(m.operation_id)) + opt_entry("parameters"@, opt_slot::<SortedMap<Value>>(m.parameters)) + opt_entry("requestBody"@, opt_slot::<Value>(m.request_body)) + opt_entry("description"@, opt_str_slot(m.description)) + opt_entry("server"@, opt_slot::<Server>(m.server)));
        }
        proof {
            lemma_link_entries(m);
            assert(view_entries(out@) =~= fields_entries(link_fields(m)));
        }
        Value::Obj(out)
    }
}

/// The encoded entry list of the link kind, written out field by field.
#[verifier::rlimit(100)]
#[verifier::spinoff_prover]
pub proof fn lemma_link_entries(m: LinkV) 
    ensures
        fields_entries(link_fields(m)) == opt_entry("operationRef"@, opt_str_slot(m.operation_ref)) + opt_entry("operationId"@, str_slot(m.operation_id)) + opt_entry("parameters"@, opt_slot::<SortedMap<Value>>(m.parameters)) + opt_entry("requestBody"@, opt_slot::<Value>(m.request_body)) + opt_entry("description"@, opt_str_slot(m.description)) + opt_entry("server"@, opt_slot::<Server>(m.server)),
{
    let fs = link_fields(m);
    assert(fs.len() == 6);
    let fs1 = fs.drop_first();
    assert(fs1[0] == fs[1] && fs1.len() == 5);
    let fs2 = fs1.drop_first();
    assert(fs2[0] == fs[2] && fs2.len() == 4);
    let fs3 = fs2.drop_first();
    assert(fs3[0] == fs[3] && fs3.len() == 3);
    let fs4 = fs3.drop_first();
    assert(fs4[0] == fs[4] && fs4.len() == 2);
    let fs5 = fs4.drop_first();
    assert(fs5[0] == fs[5] && fs5.len() == 1);
    let fs6 = fs5.drop_first();
    assert(fs6.len() == 0);
    assert(fields_entries(fs6) =~= Seq::<(Seq<char>, SpecVal)>::empty());
    assert(fields_entries(fs5) =~= opt_entry(fs[5].0, fs[5].1) + fields_entries(fs6));
    assert(fields_entries(fs4) =~= opt_entry(fs[4].0, fs[4].1) + fields_entries(fs5));
    assert(fields_entries(fs3) =~= opt_entry(fs[3].0, fs[3].1) + fields_entries(fs4));
    assert(fields_entries(fs2) =~= opt_entry(fs[2].0, fs[2].1) + fields_entries(fs3));
    assert(fields_entries(fs1) =~= opt_entry(fs[1].0, fs[1].1) + fields_entries(fs2));
    assert(fields_entries(fs) =~= opt_entry(fs[0].0, fs[0].1) + fields_entries(fs1));
    let e1 = opt_entry("operationRef"@, opt_str_slot(m.operation_ref));
    let e2 = opt_entry("operationId"@, str_slot(m.operation_id));
    let e3 = opt_entry("parameters"@, opt_slot::<SortedMap<Value>>(m.parameters));
    let e4 = opt_entry("requestBody"@, opt_slot::<Value>(m.request_body));
    let e5 = opt_entry("description"@, opt_str_slot(m.description));
    let e6 = opt_entry("server"@, opt_slot::<Server>(m.server));
    assert(fields_entries(fs) == e1 + fields_entries(fs1));
    vstd::seq_lib::lemma_concat_associative(e1, e2, fields_entries(fs2));
    assert((e1 + e2) + fields_entries(fs2) == (e1) + (e2 + fields_entries(fs2)));
    vstd::seq_lib::lemma_concat_associative(e1 + e2, e3, fields_entries(fs3));
    assert((e1 + e2 + e3) + fields_entries(fs3) == (e1 + e2) + (e3 + fields_entries(fs3)));
    vstd::seq_lib::lemma_concat_associative(e1 + e2 + e3, e4, fields_entries(fs4));
    assert((e1 + e2 + e3 + e4) + fields_entries(fs4) == (e1 + e2 + e3) + (e4 + fields_entries(fs4)));
    vstd::seq_lib::lemma_concat_associative(e1 + e2 + e3 + e4, e5, fields_entries(fs5));
    assert((e1 + e2 + e3 + e4 + e5) + fields_entries(fs5) == (e1 + e2 + e3 + e4) + (e5 + fields_entries(fs5)));
    vstd::seq_lib::lemma_concat_associative(e1 + e2 + e3 + e4 + e5, e6, fields_entries(fs6));
    assert((e1 + e2 + e3 + e4 + e5 + e6) + fields_entries(fs6) == (e1 + e2 + e3 + e4 + e5) + (e6 + fields_entries(fs6)));
    assert((e1 + e2 + e3 + e4 + e5 + e6) + fields_entries(fs6) =~= e1 + e2 + e3 + e4 + e5 + e6);
    assert(fields_entries(fs) == e1 + e2 + e3 + e4 + e5 + e6);
}

/// A single response from an operation.
#[derive(Debug, Clone)]
pub struct Response {
    pub description: String,
    pub headers: Option<SortedMap<Referenceable<Header>>>,
    pub content: Option<SortedMap<MediaType>>,
    pub links: Option<SortedMap<Referenceable<Link>>>,
}

/// The model of a `Response`.
pub struct ResponseV {
    pub description: Seq<char>,
    pub headers: Option<Seq<(Seq<char>, ReferenceableV<HeaderV>)>>,
    pub content: Option<Seq<(Seq<char>, MediaTypeV)>>,
    pub links: Option<Seq<(Seq<char>, ReferenceableV<LinkV>)>>,
}

impl DeepView for Response {
    type V = ResponseV;

    open spec fn deep_view(&self) -> ResponseV {
        ResponseV {
            description: self.description.deep_view(),
            headers: self.headers.deep_view(),
            content: self.content.deep_view(),
            links: self.links.deep_view(),
        }
    }
}

/// The declared fields of the response kind, in schema order.
pub open spec fn response_fields(m: ResponseV) -> FieldImage {
    seq![
        ("description"@, str_slot(m.description)),
        ("headers"@, opt_slot::<SortedMap<Referenceable<Header>>>(m.headers)),
        ("content"@, opt_slot::<SortedMap<MediaType>>(m.content)),
        ("links"@, opt_slot::<SortedMap<Referenceable<Link>>>(m.links)),
    ]
}

impl Codec for Response {
    open spec fn spec_decode(v: SpecVal) -> Option<ResponseV> {
        match v {
            SpecVal::Obj(es) => {
                if sd_req_str(es, "description"@) is Some && sd_opt::<SortedMap<Referenceable<Header>>>(es, "headers"@) is Some && sd_opt::<SortedMap<MediaType>>(es, "content"@) is Some && sd_opt::<SortedMap<Referenceable<Link>>>(es, "links"@) is Some {
                    Some(
                        ResponseV {
                            description: sd_req_str(es, "description"@)->0,
                            headers: sd_opt::<SortedMap<Referenceable<Header>>>(es, "headers"@)->0,
                            content: sd_opt::<SortedMap<MediaType>>(es, "content"@)->0,
                            links: sd_opt::<SortedMap<Referenceable<Link>>>(es, "links"@)->0,
                        },
                    )
                } else {
                    None
                }
            },
            _ => None,
        }
    }

    open spec fn spec_encode(m: ResponseV) -> SpecVal {
        SpecVal::Obj(fields_entries(response_fields(m)))
    }

    open spec fn model_wf(m: ResponseV) -> bool {
        (match m.headers {
            Some(t) => SortedMap::<Referenceable<Header>>::model_wf(t),
            None => true,
        }) && (match m.content {
            Some(t) => SortedMap::<MediaType>::model_wf(t),
            None => true,
        }) && (match m.links {
            Some(t) => SortedMap::<Referenceable<Link>>::model_wf(t),
            None => true,
        })
    }

    open spec fn sentinel_free(m: ResponseV) -> bool {
        true
    }

    proof fn lemma_codec(m: ResponseV) {
        reveal_strlit("description");
        reveal_strlit("headers");
        reveal_strlit("content");
        reveal_strlit("links");
        reveal_strlit("$ref");
        let fs = response_fields(m);
        assert(fs[0].0 == "description"@);
        assert(fs[1].0 == "headers"@);
        assert(fs[2].0 == "content"@);
        assert(fs[3].0 == "links"@);
        assert(("headers"@)[0] == 'h');
        assert(("content"@)[0] == 'c');
        assert("description"@ != "headers"@ && "description"@ != "content"@ && "description"@ != "links"@);
        assert("headers"@ != "content"@ && "headers"@ != "links"@ && "content"@ != "links"@);
        assert("description"@ != "$ref"@ && "headers"@ != "$ref"@ && "content"@ != "$ref"@);
        assert("links"@ != "$ref"@);
        assert(distinct_names(fs));
        if m.headers is Some {
            SortedMap::<Referenceable<Header>>::lemma_codec(m.headers->0);
        }
        if m.content is Some {
            SortedMap::<MediaType>::lemma_codec(m.content->0);
        }
        if m.links is Some {
            SortedMap::<Referenceable<Link>>::lemma_codec(m.links->0);
        }
        assert(match fs[0].1 {
            Some(sv) => wf_val(sv),
            None => true,
        });
        assert(match fs[1].1 {
            Some(sv) => wf_val(sv),
            None => true,
        });
        assert(match fs[2].1 {
            Some(sv) => wf_val(sv),
            None => true,
        });
        assert(match fs[3].1 {
            Some(sv) => wf_val(sv),
            None => true,
        });
        lemma_record_obj(fs, Seq::empty(), ref_key());
        let es = fields_entries(fs) + Seq::<(Seq<char>, SpecVal)>::empty();
        assert(es =~= fields_entries(fs));
        assert(obj_get(es, "description"@) == str_slot(m.description));
        assert(obj_get(es, "headers"@) == opt_slot::<SortedMap<Referenceable<Header>>>(m.headers));
        assert(obj_get(es, "content"@) == opt_slot::<SortedMap<MediaType>>(m.content));
        assert(obj_get(es, "links"@) == opt_slot::<SortedMap<Referenceable<Link>>>(m.links));
    }

    proof fn lemma_decode_wf(v: SpecVal) {
        let es = v->Obj_0;
        assert(forall|i: int| 0 <= i < es.len() ==> wf_val(#[trigger] es[i].1));
        if obj_get(es, "headers"@) is Some {
            lemma_get_wf(es, "headers"@);
            SortedMap::<Referenceable<Header>>::lemma_decode_wf(obj_get(es, "headers"@)->0);
        }
        if obj_get(es, "content"@) is Some {
            lemma_get_wf(es, "content"@);
            SortedMap::<MediaType>::lemma_decode_wf(obj_get(es, "content"@)->0);
        }
        if obj_get(es, "links"@) is Some {
            lemma_get_wf(es, "links"@);
            SortedMap::<Referenceable<Link>>::lemma_decode_wf(obj_get(es, "links"@)->0);
        }
    }

    proof fn lemma_decode_sentinel(v: SpecVal) {
    }

    /// Beyond the inherited exactness contract: which error kind comes
    /// back, field by field in declared order.
    fn decode(v: &Value) -> (r: Result<Self, DecodeError>)
        ensures
            !(v.deep_view() is Obj) ==> (r matches Err(e) && e is TypeMismatch),
            (v.deep_view() matches SpecVal::Obj(es) && obj_get(es, "description"@) is None) ==> (r matches Err(e)
                && e is MissingRequiredField),
            (v.deep_view() matches SpecVal::Obj(es) && (match obj_get(es, "description"@) {
                Some(sv) => !(sv is Str),
                None => false,
            })) ==> (r matches Err(e) && e is TypeMismatch),
    {
        match v {
            Value::Obj(entries) => {
                let description = match dec_req_str(entries, "description", "Response") {
                    Ok(x) => x,
                    Err(e) => return Err(e),
                };
                let headers = match dec_opt::<SortedMap<Referenceable<Header>>>(entries, "headers") {
                    Ok(x) => x,
                    Err(e) => return Err(e),
                };
                let content = match dec_opt::<SortedMap<MediaType>>(entries, "content") {
                    Ok(x) => x,
                    Err(e) => return Err(e),
                };
                let links = match dec_opt::<SortedMap<Referenceable<Link>>>(entries, "links") {
                    Ok(x) => x,
                    Err(e) => return Err(e),
                };
                let out = Response { description, headers, content, links };
                proof {
                    if wf_val(v.deep_view()) {
                        Self::lemma_decode_wf(v.deep_view());
                    }
                }
                Ok(out)
            },
            _ => Err(
                DecodeError::TypeMismatch {
                    field: "".to_owned(),
                    kind: "Response".to_owned(),
                    expected: "object".to_owned(),
                },
            ),
        }
    }

    fn encode(&self) -> (r: Value) {
        let mut out: Vec<(String, Value)> = Vec::new();
        let ghost m = self.deep_view();
        enc_str(&mut out, "description", &self.description);
        proof {
            assert(view_entries(out@) =~= opt_entry("description"@, str_slot(m.description)));
        }
        enc_opt::<SortedMap<Referenceable<Header>>>(&mut out, "headers", &self.headers);
        proof {
            assert(view_entries(out@) =~= opt_entry("description"@, str_slot(m.description)) + opt_entry("headers"@, opt_slot::<SortedMap<Referenceable<Header>>>(m.headers)));
        }
        enc_opt::<SortedMap<MediaType>>(&mut out, "content", &self.content);
        proof {
            assert(view_entries(out@) =~= opt_entry("description"@, str_slot(m.description)) + opt_entry("headers"@, opt_slot::<SortedMap<Referenceable<Header>>>(m.headers)) + opt_entry("content"@, opt_slot::<SortedMap<MediaType>>(m.content)));
        }
        enc_opt::<SortedMap<Referenceable<Link>>>(&mut out, "links", &self.links);
        proof {
            assert(view_entries(out@) =~= opt_entry("description"@, str_slot(m.description)) + opt_entry("headers"@, opt_slot::<SortedMap<Referenceable<Header>>>(m.headers)) + opt_entry("content"@, opt_slot::<SortedMap<MediaType>>(m.content)) + opt_entry("links"@, opt_slot::<SortedMap<Referenceable<Link>>>(m.links)));
        }
        proof {
            lemma_response_entries(m);
            assert(view_entries(out@) =~= fields_entries(response_fields(m)));
        }
        Value::Obj(out)
    }
}

/// The encoded entry list of the response kind, written out field by field.
pub proof fn lemma_response_entries(m: ResponseV) 
    ensures
        fields_entries(response_fields(m)) == opt_entry("description"@, str_slot(m.description)) + opt_entry("headers"@, opt_slot::<SortedMap<Referenceable<Header>>>(m.headers)) + opt_entry("content"@, opt_slot::<SortedMap<MediaType>>(m.content)) + opt_entry("links"@, opt_slot::<SortedMap<Referenceable<Link>>>(m.links)),
{
    let fs = response_fields(m);
    assert(fs.len() == 4);
    let fs1 = fs.drop_first();
    assert(fs1[0] == fs[1] && fs1.len() == 3);
    let fs2 = fs1.drop_first();
    assert(fs2[0] == fs[2] && fs2.len() == 2);
    let fs3 = fs2.drop_first();
    assert(fs3[0] == fs[3] && fs3.len() == 1);
    let fs4 = fs3.drop_first();
    assert(fs4.len() == 0);
    assert(fields_entries(fs4) =~= Seq::<(Seq<char>, SpecVal)>::empty());
    assert(fields_entries(fs3) =~= opt_entry(fs[3].0, fs[3].1) + fields_entries(fs4));
    assert(fields_entries(fs2) =~= opt_entry(fs[2].0, fs[2].1) + fields_entries(fs3));
    assert(fields_entries(fs1) =~= opt_entry(fs[1].0, fs[1].1) + fields_entries(fs2));
    assert(fields_entries(fs) =~= opt_entry(fs[0].0, fs[0].1) + fields_entries(fs1));
    let e1 = opt_entry("description"@, str_slot(m.description));
    let e2 = opt_entry("headers"@, opt_slot::<SortedMap<Referenceable<Header>>>(m.headers));
    let e3 = opt_entry("content"@, opt_slot::<SortedMap<MediaType>>(m.content));
    let e4 = opt_entry("links"@, opt_slot::<SortedMap<Referenceable<Link>>>(m.links));
    assert(fields_entries(fs) == e1 + fields_entries(fs1));
    vstd::seq_lib::lemma_concat_associative(e1, e2, fields_entries(fs2));
    assert((e1 + e2) + fields_entries(fs2) == (e1) + (e2 + fields_entries(fs2)));
    vstd::seq_lib::lemma_concat_associative(e1 + e2, e3, fields_entries(fs3));
    assert((e1 + e2 + e3) + fields_entries(fs3) == (e1 + e2) + (e3 + fields_entries(fs3)));
    vstd::seq_lib::lemma_concat_associative(e1 + e2 + e3, e4, fields_entries(fs4));
    assert((e1 + e2 + e3 + e4) + fields_entries(fs4) == (e1 + e2 + e3) + (e4 + fields_entries(fs4)));
    assert((e1 + e2 + e3 + e4) + fields_entries(fs4) =~= e1 + e2 + e3 + e4);
    assert(fields_entries(fs) == e1 + e2 + e3 + e4);
}

} // verus!
