//! Small free-standing object kinds: external documentation links, tags,
//! discriminators, examples, servers and parameter locations.

use vstd::prelude::*;

use crate::codec::{Codec, dec_opt, dec_opt_str, dec_req_str, enc_opt, enc_opt_str, enc_str,
    opt_slot, opt_str_slot, ref_key, sd_opt, sd_opt_str, sd_req_str, str_slot};
use crate::err::DecodeError;
use crate::obj::{FieldImage, distinct_names, fields_entries, lemma_get_wf, lemma_record_obj,
    obj_get, opt_entry};
use crate::smap::SortedMap;
use crate::value::{SpecVal, Value, view_entries, wf_val};

verus! {


/// A link to external documentation for the described element.
#[derive(Debug, Clone)]
pub struct ExternalDocumentation {
    pub description: Option<String>,
    pub url: String,
}

/// The model of a `ExternalDocumentation`.
pub struct ExternalDocumentationV {
    pub description: Option<Seq<char>>,
    pub url: Seq<char>,
}

impl DeepView for ExternalDocumentation {
    type V = ExternalDocumentationV;

    open spec fn deep_view(&self) -> ExternalDocumentationV {
        ExternalDocumentationV {
            description: self.description.deep_view(),
            url: self.url.deep_view(),
        }
    }
}

/// The declared fields of the externaldocumentation kind, in schema order.
pub open spec fn externaldocumentation_fields(m: ExternalDocumentationV) -> FieldImage {
    seq![
        ("description"@, opt_str_slot(m.description)),
        ("url"@, str_slot(m.url)),
    ]
}

impl Codec for ExternalDocumentation {
    open spec fn spec_decode(v: SpecVal) -> Option<ExternalDocumentationV> {
        match v {
            SpecVal::Obj(es) => {
                if sd_opt_str(es, "description"@) is Some && sd_req_str(es, "url"@) is Some {
                    Some(
                        ExternalDocumentationV {
                            description: sd_opt_str(es, "description"@)->0,
                            url: sd_req_str(es, "url"@)->0,
                        },
                    )
                } else {
                    None
                }
            },
            _ => None,
        }
    }

    open spec fn spec_encode(m: ExternalDocumentationV) -> SpecVal {
        SpecVal::Obj(fields_entries(externaldocumentation_fields(m)))
    }

    open spec fn model_wf(m: ExternalDocumentationV) -> bool {
        true
    }

    open spec fn sentinel_free(m: ExternalDocumentationV) -> bool {
        true
    }

    proof fn lemma_codec(m: ExternalDocumentationV) {
        reveal_strlit("description");
        reveal_strlit("url");
        reveal_strlit("$ref");
        let fs = externaldocumentation_fields(m);
        assert(fs[0].0 == "description"@);
        assert(fs[1].0 == "url"@);
        assert("description"@ != "url"@);
        assert("description"@ != "$ref"@ && "url"@ != "$ref"@);
        assert(distinct_names(fs));
        assert(match fs[0].1 {
            Some(sv) => wf_val(sv),
            None => true,
        });
        assert(match fs[1].1 {
            Some(sv) => wf_val(sv),
            None => true,
        });
        lemma_record_obj(fs, Seq::empty(), ref_key());
        let es = fields_entries(fs) + Seq::<(Seq<char>, SpecVal)>::empty();
        assert(es =~= fields_entries(fs));
        assert(obj_get(es, "description"@) == opt_str_slot(m.description));
        assert(obj_get(es, "url"@) == str_slot(m.url));
    }

    proof fn lemma_decode_wf(v: SpecVal) {
    }

    proof fn lemma_decode_sentinel(v: SpecVal) {
    }

    /// Beyond the inherited exactness contract: which error kind comes
    /// back, field by field in declared order.
    fn decode(v: &Value) -> (r: Result<Self, DecodeError>)
        ensures
            !(v.deep_view() is Obj) ==> (r matches Err(e) && e is TypeMismatch),
            (v.deep_view() matches SpecVal::Obj(es) && (match obj_get(es, "description"@) {
                Some(sv) => !(sv is Str),
                None => false,
            })) ==> (r matches Err(e) && e is TypeMismatch),
            (v.deep_view() matches SpecVal::Obj(es) && sd_opt_str(es, "description"@) is Some && obj_get(es, "url"@) is None) ==> (r matches Err(e)
                && e is MissingRequiredField),
            (v.deep_view() matches SpecVal::Obj(es) && sd_opt_str(es, "description"@) is Some && (match obj_get(es, "url"@) {
                Some(sv) => !(sv is Str),
                None => false,
            })) ==> (r matches Err(e) && e is TypeMismatch),
    {
        match v {
            Value::Obj(entries) => {
                let description = match dec_opt_str(entries, "description", "ExternalDocumentation") {
                    Ok(x) => x,
                    Err(e) => return Err(e),
                };
                let url = match dec_req_str(entries, "url", "ExternalDocumentation") {
                    Ok(x) => x,
                    Err(e) => return Err(e),
                };
                let out = ExternalDocumentation { description, url };
                proof {
                    if wf_val(v.deep_view()) {
                        Self::lemma_decode_wf(v.deep_view());
                    }
                }
                Ok(out)
            },
            _ => Err(
                DecodeError::TypeMismatch {
                    field: "".to_owned(),
                    kind: "ExternalDocumentation".to_owned(),
                    expected: "object".to_owned(),
                },
            ),
        }
    }

    fn encode(&self) -> (r: Value) {
        let mut out: Vec<(String, Value)> = Vec::new();
        let ghost m = self.deep_view();
        enc_opt_str(&mut out, "description", &self.description);
        proof {
            assert(view_entries(out@) =~= opt_entry("description"@, opt_str_slot(m.description)));
        }
        enc_str(&mut out, "url", &self.url);
        proof {
            assert(view_entries(out@) =~= opt_entry("description"@, opt_str_slot(m.description)) + opt_entry("url"@, str_slot(m.url)));
        }
        proof {
            let fs = externaldocumentation_fields(m);
            assert(fs.len() == 2);
            let fs1 = fs.drop_first();
            assert(fs1[0] == fs[1] && fs1.len() == 1);
            let fs2 = fs1.drop_first();
            assert(fs2.len() == 0);
            assert(fields_entries(fs2) =~= Seq::<(Seq<char>, SpecVal)>::empty());
            assert(fields_entries(fs1) =~= opt_entry(fs[1].0, fs[1].1) + fields_entries(fs2));
            assert(fields_entries(fs) =~= opt_entry(fs[0].0, fs[0].1) + fields_entries(fs1));
            assert(view_entries(out@) =~= fields_entries(fs));
        }
        Value::Obj(out)
    }
}

/// Metadata for a single tag used by operations.
#[derive(Debug, Clone)]
pub struct Tag {
    pub name: String,
    pub description: Option<String>,
    pub external_docs: Option<ExternalDocumentation>,
}

/// The model of a `Tag`.
pub struct TagV {
    pub name: Seq<char>,
    pub description: Option<Seq<char>>,
    pub external_docs: Option<ExternalDocumentationV>,
}

impl DeepView for Tag {
    type V = TagV;

    open spec fn deep_view(&self) -> TagV {
        TagV {
            name: self.name.deep_view(),
            description: self.description.deep_view(),
            external_docs: self.external_docs.deep_view(),
        }
    }
}

/// The declared fields of the tag kind, in schema order.
pub open spec fn tag_fields(m: TagV) -> FieldImage {
    seq![
        ("name"@, str_slot(m.name)),
        ("description"@, opt_str_slot(m.description)),
        ("externalDocs"@, opt_slot::<ExternalDocumentation>(m.external_docs)),
    ]
}

impl Codec for Tag {
    open spec fn spec_decode(v: SpecVal) -> Option<TagV> {
        match v {
            SpecVal::Obj(es) => {
                if sd_req_str(es, "name"@) is Some && sd_opt_str(es, "description"@) is Some && sd_opt::<ExternalDocumentation>(es, "externalDocs"@) is Some {
                    Some(
                        TagV {
                            name: sd_req_str(es, "name"@)->0,
                            description: sd_opt_str(es, "description"@)->0,
                            external_docs: sd_opt::<ExternalDocumentation>(es, "externalDocs"@)->0,
                        },
                    )
                } else {
                    None
                }
            },
            _ => None,
        }
    }

    open spec fn spec_encode(m: TagV) -> SpecVal {
        SpecVal::Obj(fields_entries(tag_fields(m)))
    }

    open spec fn model_wf(m: TagV) -> bool {
        (match m.external_docs {
            Some(t) => ExternalDocumentation::model_wf(t),
            None => true,
        })
    }

    open spec fn sentinel_free(m: TagV) -> bool {
        true
    }

    proof fn lemma_codec(m: TagV) {
        reveal_strlit("name");
        reveal_strlit("description");
        reveal_strlit("externalDocs");
        reveal_strlit("$ref");
        let fs = tag_fields(m);
        assert(fs[0].0 == "name"@);
        assert(fs[1].0 == "description"@);
        assert(fs[2].0 == "externalDocs"@);
        assert(("name"@)[0] == 'n');
        assert(("$ref"@)[0] == '$');
        assert("name"@ != "description"@ && "name"@ != "externalDocs"@ && "description"@ != "externalDocs"@);
        assert("name"@ != "$ref"@ && "description"@ != "$ref"@ && "externalDocs"@ != "$ref"@);
        assert(distinct_names(fs));
        if m.external_docs is Some {
            ExternalDocumentation::lemma_codec(m.external_docs->0);
        }
        assert(match fs[0].1 {
            Some(sv) => wf_val(sv),
            None => true,
        });
        assert(match fs[1].1 {
            Some(sv) => wf_val(sv),
            None => true,
        });
        assert(match fs[2].1 {
            Some(sv) => wf_val(sv),
            None => true,
        });
        lemma_record_obj(fs, Seq::empty(), ref_key());
        let es = fields_entries(fs) + Seq::<(Seq<char>, SpecVal)>::empty();
        assert(es =~= fields_entries(fs));
        assert(obj_get(es, "name"@) == str_slot(m.name));
        assert(obj_get(es, "description"@) == opt_str_slot(m.description));
        assert(obj_get(es, "externalDocs"@) == opt_slot::<ExternalDocumentation>(m.external_docs));
    }

    proof fn lemma_decode_wf(v: SpecVal) {
        let es = v->Obj_0;
        assert(forall|i: int| 0 <= i < es.len() ==> wf_val(#[trigger] es[i].1));
        if obj_get(es, "externalDocs"@) is Some {
            lemma_get_wf(es, "externalDocs"@);
            ExternalDocumentation::lemma_decode_wf(obj_get(es, "externalDocs"@)->0);
        }
    }

    proof fn lemma_decode_sentinel(v: SpecVal) {
    }

    /// Beyond the inherited exactness contract: which error kind comes
    /// back, field by field in declared order.
    fn decode(v: &Value) -> (r: Result<Self, DecodeError>)
        ensures
            !(v.deep_view() is Obj) ==> (r matches Err(e) && e is TypeMismatch),
            (v.deep_view() matches SpecVal::Obj(es) && obj_get(es, "name"@) is None) ==> (r matches Err(e)
                && e is MissingRequiredField),
            (v.deep_view() matches SpecVal::Obj(es) && (match obj_get(es, "name"@) {
                Some(sv) => !(sv is Str),
                None => false,
            })) ==> (r matches Err(e) && e is TypeMismatch),
            (v.deep_view() matches SpecVal::Obj(es) && sd_req_str(es, "name"@) is Some && (match obj_get(es, "description"@) {
                Some(sv) => !(sv is Str),
                None => false,
            })) ==> (r matches Err(e) && e is TypeMismatch),
    {
        match v {
            Value::Obj(entries) => {
                let name = match dec_req_str(entries, "name", "Tag") {
                    Ok(x) => x,
                    Err(e) => return Err(e),
                };
                let description = match dec_opt_str(entries, "description", "Tag") {
                    Ok(x) => x,
                    Err(e) => return Err(e),
                };
                let external_docs = match dec_opt::<ExternalDocumentation>(entries, "externalDocs") {
                    Ok(x) => x,
                    Err(e) => return Err(e),
                };
                let out = Tag { name, description, external_docs };
                proof {
                    if wf_val(v.deep_view()) {
                        Self::lemma_decode_wf(v.deep_view());
                    }
                }
                Ok(out)
            },
            _ => Err(
                DecodeError::TypeMismatch {
                    field: "".to_owned(),
                    kind: "Tag".to_owned(),
                    expected: "object".to_owned(),
                },
            ),
        }
    }

    fn encode(&self) -> (r: Value) {
        let mut out: Vec<(String, Value)> = Vec::new();
        let ghost m = self.deep_view();
        enc_str(&mut out, "name", &self.name);
        proof {
            assert(view_entries(out@) =~= opt_entry("name"@, str_slot(m.name)));
        }
        enc_opt_str(&mut out, "description", &self.description);
        proof {
            assert(view_entries(out@) =~= opt_entry("name"@, str_slot(m.name)) + opt_entry("description"@, opt_str_slot(m.description)));
        }
        enc_opt::<ExternalDocumentation>(&mut out, "externalDocs", &self.external_docs);
        proof {
            assert(view_entries(out@) =~= opt_entry("name"@, str_slot(m.name)) + opt_entry("description"@, opt_str_slot(m.description)) + opt_entry("externalDocs"@, opt_slot::<ExternalDocumentation>(m.external_docs)));
        }
        proof {
            let fs = tag_fields(m);
            assert(fs.len() == 3);
            let fs1 = fs.drop_first();
            assert(fs1[0] == fs[1] && fs1.len() == 2);
            let fs2 = fs1.drop_first();
            assert(fs2[0] == fs[2] && fs2.len() == 1);
            let fs3 = fs2.drop_first();
            assert(fs3.len() == 0);
            assert(fields_entries(fs3) =~= Seq::<(Seq<char>, SpecVal)>::empty());
            assert(fields_entries(fs2) =~= opt_entry(fs[2].0, fs[2].1) + fields_entries(fs3));
            assert(fields_entries(fs1) =~= opt_entry(fs[1].0, fs[1].1) + fields_entries(fs2));
            assert(fields_entries(fs) =~= opt_entry(fs[0].0, fs[0].1) + fields_entries(fs1));
            assert(view_entries(out@) =~= fields_entries(fs));
        }
        Value::Obj(out)
    }
}

/// Names the property whose value selects among alternative schemas.
#[derive(Debug, Clone)]
pub struct Discriminator {
    pub property_name: String,
    pub maapping: Option<SortedMap<String>>,
}

/// The model of a `Discriminator`.
pub struct DiscriminatorV {
    pub property_name: Seq<char>,
    pub maapping: Option<Seq<(Seq<char>, Seq<char>)>>,
}

impl DeepView for Discriminator {
    type V = DiscriminatorV;

    open spec fn deep_view(&self) -> DiscriminatorV {
        DiscriminatorV {
            property_name: self.property_name.deep_view(),
            maapping: self.maapping.deep_view(),
        }
    }
}

/// The declared fields of the discriminator kind, in schema order.
pub open spec fn discriminator_fields(m: DiscriminatorV) -> FieldImage {
    seq![
        ("propertyName"@, str_slot(m.property_name)),
        ("maapping"@, opt_slot::<SortedMap<String>>(m.maapping)),
    ]
}

impl Codec for Discriminator {
    open spec fn spec_decode(v: SpecVal) -> Option<DiscriminatorV> {
        match v {
            SpecVal::Obj(es) => {
                if sd_req_str(es, "propertyName"@) is Some && sd_opt::<SortedMap<String>>(es, "maapping"@) is Some {
                    Some(
                        DiscriminatorV {
                            property_name: sd_req_str(es, "propertyName"@)->0,
                            maapping: sd_opt::<SortedMap<String>>(es, "maapping"@)->0,
                        },
                    )
                } else {
                    None
                }
            },
            _ => None,
        }
    }

    open spec fn spec_encode(m: DiscriminatorV) -> SpecVal {
        SpecVal::Obj(fields_entries(discriminator_fields(m)))
    }

    open spec fn model_wf(m: DiscriminatorV) -> bool {
        (match m.maapping {
            Some(t) => SortedMap::<String>::model_wf(t),
            None => true,
        })
    }

    open spec fn sentinel_free(m: DiscriminatorV) -> bool {
        true
    }

    proof fn lemma_codec(m: DiscriminatorV) {
        reveal_strlit("propertyName");
        reveal_strlit("maapping");
        reveal_strlit("$ref");
        let fs = discriminator_fields(m);
        assert(fs[0].0 == "propertyName"@);
        assert(fs[1].0 == "maapping"@);
        assert("propertyName"@ != "maapping"@);
        assert("propertyName"@ != "$ref"@ && "maapping"@ != "$ref"@);
        assert(distinct_names(fs));
        if m.maapping is Some {
            SortedMap::<String>::lemma_codec(m.maapping->0);
        }
        assert(match fs[0].1 {
            Some(sv) => wf_val(sv),
            None => true,
        });
        assert(match fs[1].1 {
            Some(sv) => wf_val(sv),
            None => true,
        });
        lemma_record_obj(fs, Seq::empty(), ref_key());
        let es = fields_entries(fs) + Seq::<(Seq<char>, SpecVal)>::empty();
        assert(es =~= fields_entries(fs));
        assert(obj_get(es, "propertyName"@) == str_slot(m.property_name));
        assert(obj_get(es, "maapping"@) == opt_slot::<SortedMap<String>>(m.maapping));
    }

    proof fn lemma_decode_wf(v: SpecVal) {
        let es = v->Obj_0;
        assert(forall|i: int| 0 <= i < es.len() ==> wf_val(#[trigger] es[i].1));
        if obj_get(es, "maapping"@) is Some {
            lemma_get_wf(es, "maapping"@);
            SortedMap::<String>::lemma_decode_wf(obj_get(es, "maapping"@)->0);
        }
    }

    proof fn lemma_decode_sentinel(v: SpecVal) {
    }

    /// Beyond the inherited exactness contract: which error kind comes
    /// back, field by field in declared order.
    fn decode(v: &Value) -> (r: Result<Self, DecodeError>)
        ensures
            !(v.deep_view() is Obj) ==> (r matches Err(e) && e is TypeMismatch),
            (v.deep_view() matches SpecVal::Obj(es) && obj_get(es, "propertyName"@) is None) ==> (r matches Err(e)
                && e is MissingRequiredField),
            (v.deep_view() matches SpecVal::Obj(es) && (match obj_get(es, "propertyName"@) {
                Some(sv) => !(sv is Str),
                None => false,
            })) ==> (r matches Err(e) && e is TypeMismatch),
    {
        match v {
            Value::Obj(entries) => {
                let property_name = match dec_req_str(entries, "propertyName", "Discriminator") {
                    Ok(x) => x,
                    Err(e) => return Err(e),
                };
                let maapping = match dec_opt::<SortedMap<String>>(entries, "maapping") {
                    Ok(x) => x,
                    Err(e) => return Err(e),
                };
                let out = Discriminator { property_name, maapping };
                proof {
                    if wf_val(v.deep_view()) {
                        Self::lemma_decode_wf(v.deep_view());
                    }
                }
                Ok(out)
            },
            _ => Err(
                DecodeError::TypeMismatch {
                    field: "".to_owned(),
                    kind: "Discriminator".to_owned(),
                    expected: "object".to_owned(),
                },
            ),
        }
    }

    fn encode(&self) -> (r: Value) {
        let mut out: Vec<(String, Value)> = Vec::new();
        let ghost m = self.deep_view();
        enc_str(&mut out, "propertyName", &self.property_name);
        proof {
            assert(view_entries(out@) =~= opt_entry("propertyName"@, str_slot(m.property_name)));
        }
        enc_opt::<SortedMap<String>>(&mut out, "maapping", &self.maapping);
        proof {
            assert(view_entries(out@) =~= opt_entry("propertyName"@, str_slot(m.property_name)) + opt_entry("maapping"@, opt_slot::<SortedMap<String>>(m.maapping)));
        }
        proof {
            let fs = discriminator_fields(m);
            assert(fs.len() == 2);
            let fs1 = fs.drop_first();
            assert(fs1[0] == fs[1] && fs1.len() == 1);
            let fs2 = fs1.drop_first();
            assert(fs2.len() == 0);
            assert(fields_entries(fs2) =~= Seq::<(Seq<char>, SpecVal)>::empty());
            assert(fields_entries(fs1) =~= opt_entry(fs[1].0, fs[1].1) + fields_entries(fs2));
            assert(fields_entries(fs) =~= opt_entry(fs[0].0, fs[0].1) + fields_entries(fs1));
            assert(view_entries(out@) =~= fields_entries(fs));
        }
        Value::Obj(out)
    }
}

/// A named example value with optional descriptive text.
#[derive(Debug, Clone)]
pub struct Example {
    pub summary: Option<String>,
    pub description: Option<String>,
    pub value: Option<Value>,
    pub external_value: Option<String>,
}

/// The model of a `Example`.
pub struct ExampleV {
    pub summary: Option<Seq<char>>,
    pub description: Option<Seq<char>>,
    pub value: Option<SpecVal>,
    pub external_value: Option<Seq<char>>,
}

impl DeepView for Example {
    type V = ExampleV;

    open spec fn deep_view(&self) -> ExampleV {
        ExampleV {
            summary: self.summary.deep_view(),
            description: self.description.deep_view(),
            value: self.value.deep_view(),
            external_value: self.external_value.deep_view(),
        }
    }
}

/// The declared fields of the example kind, in schema order.
pub open spec fn example_fields(m: ExampleV) -> FieldImage {
    seq![
        ("summary"@, opt_str_slot(m.summary)),
        ("description"@, opt_str_slot(m.description)),
        ("value"@, opt_slot::<Value>(m.value)),
        ("externalValue"@, opt_str_slot(m.external_value)),
    ]
}

impl Codec for Example {
    open spec fn spec_decode(v: SpecVal) -> Option<ExampleV> {
        match v {
            SpecVal::Obj(es) => {
                if sd_opt_str(es, "summary"@) is Some && sd_opt_str(es, "description"@) is Some && sd_opt::<Value>(es, "value"@) is Some && sd_opt_str(es, "externalValue"@) is Some {
                    Some(
                        ExampleV {
                            summary: sd_opt_str(es, "summary"@)->0,
                            description: sd_opt_str(es, "description"@)->0,
                            value: sd_opt::<Value>(es, "value"@)->0,
                            external_value: sd_opt_str(es, "externalValue"@)->0,
                        },
                    )
                } else {
                    None
                }
            },
            _ => None,
        }
    }

    open spec fn spec_encode(m: ExampleV) -> SpecVal {
        SpecVal::Obj(fields_entries(example_fields(m)))
    }

    open spec fn model_wf(m: ExampleV) -> bool {
        (match m.value {
            Some(t) => Value::model_wf(t),
            None => true,
        })
    }

    open spec fn sentinel_free(m: ExampleV) -> bool {
        true
    }

    proof fn lemma_codec(m: ExampleV) {
        reveal_strlit("summary");
        reveal_strlit("description");
        reveal_strlit("value");
        reveal_strlit("externalValue");
        reveal_strlit("$ref");
        let fs = example_fields(m);
        assert(fs[0].0 == "summary"@);
        assert(fs[1].0 == "description"@);
        assert(fs[2].0 == "value"@);
        assert(fs[3].0 == "externalValue"@);
        assert("summary"@ != "description"@ && "summary"@ != "value"@ && "summary"@ != "externalValue"@);
        assert("description"@ != "value"@ && "description"@ != "externalValue"@ && "value"@ != "externalValue"@);
        assert("summary"@ != "$ref"@ && "description"@ != "$ref"@ && "value"@ != "$ref"@);
        assert("externalValue"@ != "$ref"@);
        assert(distinct_names(fs));
        if m.value is Some {
            Value::lemma_codec(m.value->0);
        }
        assert(match fs[0].1 {
            Some(sv) => wf_val(sv),
            None => true,
        });
        assert(match fs[1].1 {
            Some(sv) => wf_val(sv),
            None => true,
        });
        assert(match fs[2].1 {
            Some(sv) => wf_val(sv),
            None => true,
        });
        assert(match fs[3].1 {
            Some(sv) => wf_val(sv),
            None => true,
        });
        lemma_record_obj(fs, Seq::empty(), ref_key());
        let es = fields_entries(fs) + Seq::<(Seq<char>, SpecVal)>::empty();
        assert(es =~= fields_entries(fs));
        assert(obj_get(es, "summary"@) == opt_str_slot(m.summary));
        assert(obj_get(es, "description"@) == opt_str_slot(m.description));
        assert(obj_get(es, "value"@) == opt_slot::<Value>(m.value));
        assert(obj_get(es, "externalValue"@) == opt_str_slot(m.external_value));
    }

    proof fn lemma_decode_wf(v: SpecVal) {
        let es = v->Obj_0;
        assert(forall|i: int| 0 <= i < es.len() ==> wf_val(#[trigger] es[i].1));
        if obj_get(es, "value"@) is Some {
            lemma_get_wf(es, "value"@);
            Value::lemma_decode_wf(obj_get(es, "value"@)->0);
        }
    }

    proof fn lemma_decode_sentinel(v: SpecVal) {
    }

    /// Beyond the inherited exactness contract: which error kind comes
    /// back, field by field in declared order.
    fn decode(v: &Value) -> (r: Result<Self, DecodeError>)
        ensures
            !(v.deep_view() is Obj) ==> (r matches Err(e) && e is TypeMismatch),
            (v.deep_view() matches SpecVal::Obj(es) && (match obj_get(es, "summary"@) {
                Some(sv) => !(sv is Str),
                None => false,
            })) ==> (r matches Err(e) && e is TypeMismatch),
            (v.deep_view() matches SpecVal::Obj(es) && sd_opt_str(es, "summary"@) is Some && (match obj_get(es, "description"@) {
                Some(sv) => !(sv is Str),
                None => false,
            })) ==> (r matches Err(e) && e is TypeMismatch),
            (v.deep_view() matches SpecVal::Obj(es) && sd_opt_str(es, "summary"@) is Some && sd_opt_str(es, "description"@) is Some && sd_opt::<Value>(es, "value"@) is Some && (match obj_get(es, "externalValue"@) {
                Some(sv) => !(sv is Str),
                None => false,
            })) ==> (r matches Err(e) && e is TypeMismatch),
    {
        match v {
            Value::Obj(entries) => {
                let summary = match dec_opt_str(entries, "summary", "Example") {
                    Ok(x) => x,
                    Err(e) => return Err(e),
                };
                let description = match dec_opt_str(entries, "description", "Example") {
                    Ok(x) => x,
                    Err(e) => return Err(e),
                };
                let value = match dec_opt::<Value>(entries, "value") {
                    Ok(x) => x,
                    Err(e) => return Err(e),
                };
                let external_value = match dec_opt_str(entries, "externalValue", "Example") {
                    Ok(x) => x,
                    Err(e) => return Err(e),
                };
                let out = Example { summary, description, value, external_value };
                proof {
                    if wf_val(v.deep_view()) {
                        Self::lemma_decode_wf(v.deep_view());
                    }
                }
                Ok(out)
            },
            _ => Err(
                DecodeError::TypeMismatch {
                    field: "".to_owned(),
                    kind: "Example".to_owned(),
                    expected: "object".to_owned(),
                },
            ),
        }
    }

    fn encode(&self) -> (r: Value) {
        let mut out: Vec<(String, Value)> = Vec::new();
        let ghost m = self.deep_view();
        enc_opt_str(&mut out, "summary", &self.summary);
        proof {
            assert(view_entries(out@) =~= opt_entry("summary"@, opt_str_slot(m.summary)));
        }
        enc_opt_str(&mut out, "description", &self.description);
        proof {
            assert(view_entries(out@) =~= opt_entry("summary"@, opt_str_slot(m.summary)) + opt_entry("description"@, opt_str_slot(m.description)));
        }
        enc_opt::<Value>(&mut out, "value", &self.value);
        proof {
            assert(view_entries(out@) =~= opt_entry("summary"@, opt_str_slot(m.summary)) + opt_entry("description"@, opt_str_slot(m.description)) + opt_entry("value"@, opt_slot::<Value>(m.value)));
        }
        enc_opt_str(&mut out, "externalValue", &self.external_value);
        proof {
            assert(view_entries(out@) =~= opt_entry("summary"@, opt_str_slot(m.summary)) + opt_entry("description"@, opt_str_slot(m.description)) + opt_entry("value"@, opt_slot::<Value>(m.value)) + opt_entry("externalValue"@, opt_str_slot(m.external_value)));
        }
        proof {
            let fs = example_fields(m);
            assert(fs.len() == 4);
            let fs1 = fs.drop_first();
            assert(fs1[0] == fs[1] && fs1.len() == 3);
            let fs2 = fs1.drop_first();
            assert(fs2[0] == fs[2] && fs2.len() == 2);
            let fs3 = fs2.drop_first();
            assert(fs3[0] == fs[3] && fs3.len() == 1);
            let fs4 = fs3.drop_first();
            assert(fs4.len() == 0);
            assert(fields_entries(fs4) =~= Seq::<(Seq<char>, SpecVal)>::empty());
            assert(fields_entries(fs3) =~= opt_entry(fs[3].0, fs[3].1) + fields_entries(fs4));
            assert(fields_entries(fs2) =~= opt_entry(fs[2].0, fs[2].1) + fields_entries(fs3));
            assert(fields_entries(fs1) =~= opt_entry(fs[1].0, fs[1].1) + fields_entries(fs2));
            assert(fields_entries(fs) =~= opt_entry(fs[0].0, fs[0].1) + fields_entries(fs1));
            assert(view_entries(out@) =~= fields_entries(fs));
        }
        Value::Obj(out)
    }
}

/// A variable for server URL template substitution.
#[derive(Debug, Clone)]
pub struct ServerVariable {
    pub _enum: Option<Vec<String>>,
    pub default: String,
    pub description: Option<String>,
}

/// The model of a `ServerVariable`.
pub struct ServerVariableV {
    pub _enum: Option<Seq<Seq<char>>>,
    pub default: Seq<char>,
    pub description: Option<Seq<char>>,
}

impl DeepView for ServerVariable {
    type V = ServerVariableV;

    open spec fn deep_view(&self) -> ServerVariableV {
        ServerVariableV {
            _enum: self._enum.deep_view(),
            default: self.default.deep_view(),
            description: self.description.deep_view(),
        }
    }
}

/// The declared fields of the servervariable kind, in schema order.
pub open spec fn servervariable_fields(m: ServerVariableV) -> FieldImage {
    seq![
        ("enum"@, opt_slot::<Vec<String>>(m._enum)),
        ("default"@, str_slot(m.default)),
        ("description"@, opt_str_slot(m.description)),
    ]
}

impl Codec for ServerVariable {
    open spec fn spec_decode(v: SpecVal) -> Option<ServerVariableV> {
        match v {
            SpecVal::Obj(es) => {
                if sd_opt::<Vec<String>>(es, "enum"@) is Some && sd_req_str(es, "default"@) is Some && sd_opt_str(es, "description"@) is Some {
                    Some(
                        ServerVariableV {
                            _enum: sd_opt::<Vec<String>>(es, "enum"@)->0,
                            default: sd_req_str(es, "default"@)->0,
                            description: sd_opt_str(es, "description"@)->0,
                        },
                    )
                } else {
                    None
                }
            },
            _ => None,
        }
    }

    open spec fn spec_encode(m: ServerVariableV) -> SpecVal {
        SpecVal::Obj(fields_entries(servervariable_fields(m)))
    }

    open spec fn model_wf(m: ServerVariableV) -> bool {
        (match m._enum {
            Some(t) => Vec::<String>::model_wf(t),
            None => true,
        })
    }

    open spec fn sentinel_free(m: ServerVariableV) -> bool {
        true
    }

    proof fn lemma_codec(m: ServerVariableV) {
        reveal_strlit("enum");
        reveal_strlit("default");
        reveal_strlit("description");
        reveal_strlit("$ref");
        let fs = servervariable_fields(m);
        assert(fs[0].0 == "enum"@);
        assert(fs[1].0 == "default"@);
        assert(fs[2].0 == "description"@);
        assert(("enum"@)[0] == 'e');
        assert(("$ref"@)[0] == '$');
        assert("enum"@ != "default"@ && "enum"@ != "description"@ && "default"@ != "description"@);
        assert("enum"@ != "$ref"@ && "default"@ != "$ref"@ && "description"@ != "$ref"@);
        assert(distinct_names(fs));
        if m._enum is Some {
            Vec::<String>::lemma_codec(m._enum->0);
        }
        assert(match fs[0].1 {
            Some(sv) => wf_val(sv),
            None => true,
        });
        assert(match fs[1].1 {
            Some(sv) => wf_val(sv),
            None => true,
        });
        assert(match fs[2].1 {
            Some(sv) => wf_val(sv),
            None => true,
        });
        lemma_record_obj(fs, Seq::empty(), ref_key());
        let es = fields_entries(fs) + Seq::<(Seq<char>, SpecVal)>::empty();
        assert(es =~= fields_entries(fs));
        assert(obj_get(es, "enum"@) == opt_slot::<Vec<String>>(m._enum));
        assert(obj_get(es, "default"@) == str_slot(m.default));
        assert(obj_get(es, "description"@) == opt_str_slot(m.description));
    }

    proof fn lemma_decode_wf(v: SpecVal) {
        let es = v->Obj_0;
        assert(forall|i: int| 0 <= i < es.len() ==> wf_val(#[trigger] es[i].1));
        if obj_get(es, "enum"@) is Some {
            lemma_get_wf(es, "enum"@);
            Vec::<String>::lemma_decode_wf(obj_get(es, "enum"@)->0);
        }
    }

    proof fn lemma_decode_sentinel(v: SpecVal) {
    }

    /// Beyond the inherited exactness contract: which error kind comes
    /// back, field by field in declared order.
    fn decode(v: &Value) -> (r: Result<Self, DecodeError>)
        ensures
            !(v.deep_view() is Obj) ==> (r matches Err(e) && e is TypeMismatch),
            (v.deep_view() matches SpecVal::Obj(es) && sd_opt::<Vec<String>>(es, "enum"@) is Some && obj_get(es, "default"@) is None) ==> (r matches Err(e)
                && e is MissingRequiredField),
            (v.deep_view() matches SpecVal::Obj(es) && sd_opt::<Vec<String>>(es, "enum"@) is Some && (match obj_get(es, "default"@) {
                Some(sv) => !(sv is Str),
                None => false,
            })) ==> (r matches Err(e) && e is TypeMismatch),
            (v.deep_view() matches SpecVal::Obj(es) && sd_opt::<Vec<String>>(es, "enum"@) is Some && sd_req_str(es, "default"@) is Some && (match obj_get(es, "description"@) {
                Some(sv) => !(sv is Str),
                None => false,
            })) ==> (r matches Err(e) && e is TypeMismatch),
    {
        match v {
            Value::Obj(entries) => {
                let _enum = match dec_opt::<Vec<String>>(entries, "enum") {
                    Ok(x) => x,
                    Err(e) => return Err(e),
                };
                let default = match dec_req_str(entries, "default", "ServerVariable") {
                    Ok(x) => x,
                    Err(e) => return Err(e),
                };
                let description = match dec_opt_str(entries, "description", "ServerVariable") {
                    Ok(x) => x,
                    Err(e) => return Err(e),
                };
                let out = ServerVariable { _enum, default, description };
                proof {
                    if wf_val(v.deep_view()) {
                        Self::lemma_decode_wf(v.deep_view());
                    }
                }
                Ok(out)
            },
            _ => Err(
                DecodeError::TypeMismatch {
                    field: "".to_owned(),
                    kind: "ServerVariable".to_owned(),
                    expected: "object".to_owned(),
                },
            ),
        }
    }

    fn encode(&self) -> (r: Value) {
        let mut out: Vec<(String, Value)> = Vec::new();
        let ghost m = self.deep_view();
        enc_opt::<Vec<String>>(&mut out, "enum", &self._enum);
        proof {
            assert(view_entries(out@) =~= opt_entry("enum"@, opt_slot::<Vec<String>>(m._enum)));
        }
        enc_str(&mut out, "default", &self.default);
        proof {
            assert(view_entries(out@) =~= opt_entry("enum"@, opt_slot::<Vec<String>>(m._enum)) + opt_entry("default"@, str_slot(m.default)));
        }
        enc_opt_str(&mut out, "description", &self.description);
        proof {
            assert(view_entries(out@) =~= opt_entry("enum"@, opt_slot::<Vec<String>>(m._enum)) + opt_entry("default"@, str_slot(m.default)) + opt_entry("description"@, opt_str_slot(m.description)));
        }
        proof {
            let fs = servervariable_fields(m);
            assert(fs.len() == 3);
            let fs1 = fs.drop_first();
            assert(fs1[0] == fs[1] && fs1.len() == 2);
            let fs2 = fs1.drop_first();
            assert(fs2[0] == fs[2] && fs2.len() == 1);
            let fs3 = fs2.drop_first();
            assert(fs3.len() == 0);
            assert(fields_entries(fs3) =~= Seq::<(Seq<char>, SpecVal)>::empty());
            assert(fields_entries(fs2) =~= opt_entry(fs[2].0, fs[2].1) + fields_entries(fs3));
            assert(fields_entries(fs1) =~= opt_entry(fs[1].0, fs[1].1) + fields_entries(fs2));
            assert(fields_entries(fs) =~= opt_entry(fs[0].0, fs[0].1) + fields_entries(fs1));
            assert(view_entries(out@) =~= fields_entries(fs));
        }
        Value::Obj(out)
    }
}

/// A server that exposes the API.
#[derive(Debug, Clone)]
pub struct Server {
    pub url: String,
    pub description: Option<String>,
    pub variables: Option<SortedMap<ServerVariable>>,
}

/// The model of a `Server`.
pub struct ServerV {
    pub url: Seq<char>,
    pub description: Option<Seq<char>>,
    pub variables: Option<Seq<(Seq<char>, ServerVariableV)>>,
}

impl DeepView for Server {
    type V = ServerV;

    open spec fn deep_view(&self) -> ServerV {
        ServerV {
            url: self.url.deep_view(),
            description: self.description.deep_view(),
            variables: self.variables.deep_view(),
        }
    }
}

/// The declared fields of the server kind, in schema order.
pub open spec fn server_fields(m: ServerV) -> FieldImage {
    seq![
        ("url"@, str_slot(m.url)),
        ("description"@, opt_str_slot(m.description)),
        ("variables"@, opt_slot::<SortedMap<ServerVariable>>(m.variables)),
    ]
}

impl Codec for Server {
    open spec fn spec_decode(v: SpecVal) -> Option<ServerV> {
        match v {
            SpecVal::Obj(es) => {
                if sd_req_str(es, "url"@) is Some && sd_opt_str(es, "description"@) is Some && sd_opt::<SortedMap<ServerVariable>>(es, "variables"@) is Some {
                    Some(
                        ServerV {
                            url: sd_req_str(es, "url"@)->0,
                            description: sd_opt_str(es, "description"@)->0,
                            variables: sd_opt::<SortedMap<ServerVariable>>(es, "variables"@)->0,
                        },
                    )
                } else {
                    None
                }
            },
            _ => None,
        }
    }

    open spec fn spec_encode(m: ServerV) -> SpecVal {
        SpecVal::Obj(fields_entries(server_fields(m)))
    }

    open spec fn model_wf(m: ServerV) -> bool {
        (match m.variables {
            Some(t) => SortedMap::<ServerVariable>::model_wf(t),
            None => true,
        })
    }

    open spec fn sentinel_free(m: ServerV) -> bool {
        true
    }

    proof fn lemma_codec(m: ServerV) {
        reveal_strlit("url");
        reveal_strlit("description");
        reveal_strlit("variables");
        reveal_strlit("$ref");
        let fs = server_fields(m);
        assert(fs[0].0 == "url"@);
        assert(fs[1].0 == "description"@);
        assert(fs[2].0 == "variables"@);
        assert("url"@ != "description"@ && "url"@ != "variables"@ && "description"@ != "variables"@);
        assert("url"@ != "$ref"@ && "description"@ != "$ref"@ && "variables"@ != "$ref"@);
        assert(distinct_names(fs));
        if m.variables is Some {
            SortedMap::<ServerVariable>::lemma_codec(m.variables->0);
        }
        assert(match fs[0].1 {
            Some(sv) => wf_val(sv),
            None => true,
        });
        assert(match fs[1].1 {
            Some(sv) => wf_val(sv),
            None => true,
        });
        assert(match fs[2].1 {
            Some(sv) => wf_val(sv),
            None => true,
        });
        lemma_record_obj(fs, Seq::empty(), ref_key());
        let es = fields_entries(fs) + Seq::<(Seq<char>, SpecVal)>::empty();
        assert(es =~= fields_entries(fs));
        assert(obj_get(es, "url"@) == str_slot(m.url));
        assert(obj_get(es, "description"@) == opt_str_slot(m.description));
        assert(obj_get(es, "variables"@) == opt_slot::<SortedMap<ServerVariable>>(m.variables));
    }

    proof fn lemma_decode_wf(v: SpecVal) {
        let es = v->Obj_0;
        assert(forall|i: int| 0 <= i < es.len() ==> wf_val(#[trigger] es[i].1));
        if obj_get(es, "variables"@) is Some {
            lemma_get_wf(es, "variables"@);
            SortedMap::<ServerVariable>::lemma_decode_wf(obj_get(es, "variables"@)->0);
        }
    }

    proof fn lemma_decode_sentinel(v: SpecVal) {
    }

    /// Beyond the inherited exactness contract: which error kind comes
    /// back, field by field in declared order.
    fn decode(v: &Value) -> (r: Result<Self, DecodeError>)
        ensures
            !(v.deep_view() is Obj) ==> (r matches Err(e) && e is TypeMismatch),
            (v.deep_view() matches SpecVal::Obj(es) && obj_get(es, "url"@) is None) ==> (r matches Err(e)
                && e is MissingRequiredField),
            (v.deep_view() matches SpecVal::Obj(es) && (match obj_get(es, "url"@) {
                Some(sv) => !(sv is Str),
                None => false,
            })) ==> (r matches Err(e) && e is TypeMismatch),
            (v.deep_view() matches SpecVal::Obj(es) && sd_req_str(es, "url"@) is Some && (match obj_get(es, "description"@) {
                Some(sv) => !(sv is Str),
                None => false,
            })) ==> (r matches Err(e) && e is TypeMismatch),
    {
        match v {
            Value::Obj(entries) => {
                let url = match dec_req_str(entries, "url", "Server") {
                    Ok(x) => x,
                    Err(e) => return Err(e),
                };
                let description = match dec_opt_str(entries, "description", "Server") {
                    Ok(x) => x,
                    Err(e) => return Err(e),
                };
                let variables = match dec_opt::<SortedMap<ServerVariable>>(entries, "variables") {
                    Ok(x) => x,
                    Err(e) => return Err(e),
                };
                let out = Server { url, description, variables };
                proof {
                    if wf_val(v.deep_view()) {
                        Self::lemma_decode_wf(v.deep_view());
                    }
                }
                Ok(out)
            },
            _ => Err(
                DecodeError::TypeMismatch {
                    field: "".to_owned(),
                    kind: "Server".to_owned(),
                    expected: "object".to_owned(),
                },
            ),
        }
    }

    fn encode(&self) -> (r: Value) {
        let mut out: Vec<(String, Value)> = Vec::new();
        let ghost m = self.deep_view();
        enc_str(&mut out, "url", &self.url);
        proof {
            assert(view_entries(out@) =~= opt_entry("url"@, str_slot(m.url)));
        }
        enc_opt_str(&mut out, "description", &self.description);
        proof {
            assert(view_entries(out@) =~= opt_entry("url"@, str_slot(m.url)) + opt_entry("description"@, opt_str_slot(m.description)));
        }
        enc_opt::<SortedMap<ServerVariable>>(&mut out, "variables", &self.variables);
        proof {
            assert(view_entries(out@) =~= opt_entry("url"@, str_slot(m.url)) + opt_entry("description"@, opt_str_slot(m.description)) + opt_entry("variables"@, opt_slot::<SortedMap<ServerVariable>>(m.variables)));
        }
        proof {
            let fs = server_fields(m);
            assert(fs.len() == 3);
            let fs1 = fs.drop_first();
            assert(fs1[0] == fs[1] && fs1.len() == 2);
            let fs2 = fs1.drop_first();
            assert(fs2[0] == fs[2] && fs2.len() == 1);
            let fs3 = fs2.drop_first();
            assert(fs3.len() == 0);
            assert(fields_entries(fs3) =~= Seq::<(Seq<char>, SpecVal)>::empty());
            assert(fields_entries(fs2) =~= opt_entry(fs[2].0, fs[2].1) + fields_entries(fs3));
            assert(fields_entries(fs1) =~= opt_entry(fs[1].0, fs[1].1) + fields_entries(fs2));
            assert(fields_entries(fs) =~= opt_entry(fs[0].0, fs[0].1) + fields_entries(fs1));
            assert(view_entries(out@) =~= fields_entries(fs));
        }
        Value::Obj(out)
    }
}


/// The location of a parameter: query string, header, path template or
/// cookie.
#[derive(Debug, Clone, Copy, PartialEq, Eq, Structural)]
pub enum ParameterIn {
    Query,
    Header,
    Path,
    Cookie,
}

impl DeepView for ParameterIn {
    type V = ParameterIn;

    open spec fn deep_view(&self) -> ParameterIn {
        *self
    }
}

/// The wire spelling of a parameter location.
pub open spec fn param_in_str(m: ParameterIn) -> Seq<char> {
    match m {
        ParameterIn::Query => "query"@,
        ParameterIn::Header => "header"@,
        ParameterIn::Path => "path"@,
        ParameterIn::Cookie => "cookie"@,
    }
}

impl Codec for ParameterIn {
    open spec fn spec_decode(v: SpecVal) -> Option<ParameterIn> {
        match v {
            SpecVal::Str(s) => if s == "query"@ {
                Some(ParameterIn::Query)
            } else if s == "header"@ {
                Some(ParameterIn::Header)
            } else if s == "path"@ {
                Some(ParameterIn::Path)
            } else if s == "cookie"@ {
                Some(ParameterIn::Cookie)
            } else {
                None
            },
            _ => None,
        }
    }

    open spec fn spec_encode(m: ParameterIn) -> SpecVal {
        SpecVal::Str(param_in_str(m))
    }

    open spec fn model_wf(m: ParameterIn) -> bool {
        true
    }

    open spec fn sentinel_free(m: ParameterIn) -> bool {
        true
    }

    proof fn lemma_codec(m: ParameterIn) {
        reveal_strlit("query");
        reveal_strlit("header");
        reveal_strlit("path");
        reveal_strlit("cookie");
        assert(("query"@)[0] == 'q' && ("header"@)[0] == 'h' && ("path"@)[0] == 'p'
            && ("cookie"@)[0] == 'c');
    }

    proof fn lemma_decode_wf(v: SpecVal) {
    }

    proof fn lemma_decode_sentinel(v: SpecVal) {
    }

    /// Beyond the inherited exactness contract: a non-string is a type
    /// mismatch; a string outside the four known locations is an unknown
    /// variant, never a default.
    fn decode(v: &Value) -> (r: Result<Self, DecodeError>)
        ensures
            !(v.deep_view() is Str) ==> (r matches Err(e) && e is TypeMismatch),
            (v.deep_view() matches SpecVal::Str(t) && t != "query"@ && t != "header"@
                && t != "path"@ && t != "cookie"@) ==> (r matches Err(e) && e is UnknownVariant),
    {
        match v {
            Value::Str(s) => {
                if *s == "query".to_owned() {
                    Ok(ParameterIn::Query)
                } else if *s == "header".to_owned() {
                    Ok(ParameterIn::Header)
                } else if *s == "path".to_owned() {
                    Ok(ParameterIn::Path)
                } else if *s == "cookie".to_owned() {
                    Ok(ParameterIn::Cookie)
                } else {
                    Err(
                        DecodeError::UnknownVariant {
                            value: s.clone(),
                            kind: "ParameterIn".to_owned(),
                        },
                    )
                }
            },
            _ => Err(
                DecodeError::TypeMismatch {
                    field: "".to_owned(),
                    kind: "ParameterIn".to_owned(),
                    expected: "string".to_owned(),
                },
            ),
        }
    }

    fn encode(&self) -> (r: Value) {
        match self {
            ParameterIn::Query => Value::Str("query".to_owned()),
            ParameterIn::Header => Value::Str("header".to_owned()),
            ParameterIn::Path => Value::Str("path".to_owned()),
            ParameterIn::Cookie => Value::Str("cookie".to_owned()),
        }
    }
}

} // verus!

