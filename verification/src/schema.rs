//! The schema kind: typed access to its declared fields, with every
//! unknown input field captured losslessly in an extension bucket and
//! re-emitted, in encounter order, after the declared fields.

use vstd::prelude::*;

use crate::codec::{Codec, dec_opt_bool, dec_opt_str, enc_extras, enc_opt_bool, enc_opt_str,
    opt_bool_slot, opt_str_slot, ref_key, sd_opt_bool, sd_opt_str};
use crate::err::DecodeError;
use crate::obj::{FieldImage, distinct_names, entries_avoid, extras_of, fields_entries,
    lemma_extras_of, lemma_index_has_key, lemma_record_extras_of, lemma_record_obj, obj_get,
    opt_entry};
use crate::value::{SpecEntries, SpecVal, Value, keys_unique, lemma_view_entries,
    lemma_view_entries_push, view_entries, view_val, wf_val};

verus! {


/// A schema object: its commonly read fields are typed; everything else rides in the extension bucket.
#[derive(Debug, Clone)]
pub struct Schema {
    pub _type: Option<String>,
    pub format: Option<String>,
    pub nullable: Option<bool>,
    pub description: Option<String>,
    /// Extension entries: every input field not matching a declared
    /// name, in encounter order.
    pub extras: Vec<(String, Value)>,
}

/// The model of a `Schema`.
pub struct SchemaV {
    pub _type: Option<Seq<char>>,
    pub format: Option<Seq<char>>,
    pub nullable: Option<bool>,
    pub description: Option<Seq<char>>,
    pub extras: SpecEntries,
}

impl DeepView for Schema {
    type V = SchemaV;

    open spec fn deep_view(&self) -> SchemaV {
        SchemaV {
            _type: self._type.deep_view(),
            format: self.format.deep_view(),
            nullable: self.nullable.deep_view(),
            description: self.description.deep_view(),
            extras: view_entries(self.extras@),
        }
    }
}

/// The declared fields of the schema kind, in schema order.
pub open spec fn schema_fields(m: SchemaV) -> FieldImage {
    seq![
        ("type"@, opt_str_slot(m._type)),
        ("format"@, opt_str_slot(m.format)),
        ("nullable"@, opt_bool_slot(m.nullable)),
        ("description"@, opt_str_slot(m.description)),
    ]
}

/// The declared field names of the schema kind.
pub open spec fn schema_names() -> Seq<Seq<char>> {
    seq!["type"@, "format"@, "nullable"@, "description"@]
}

impl Codec for Schema {
    open spec fn spec_decode(v: SpecVal) -> Option<SchemaV> {
        match v {
            SpecVal::Obj(es) => {
                if sd_opt_str(es, "type"@) is Some && sd_opt_str(es, "format"@) is Some && sd_opt_bool(es, "nullable"@) is Some && sd_opt_str(es, "description"@) is Some {
                    Some(
                        SchemaV {
                            _type: sd_opt_str(es, "type"@)->0,
                            format: sd_opt_str(es, "format"@)->0,
                            nullable: sd_opt_bool(es, "nullable"@)->0,
                            description: sd_opt_str(es, "description"@)->0,
                            extras: extras_of(es, schema_names()),
                        },
                    )
                } else {
                    None
                }
            },
            _ => None,
        }
    }

    open spec fn spec_encode(m: SchemaV) -> SpecVal {
        SpecVal::Obj(fields_entries(schema_fields(m)) + m.extras)
    }

    open spec fn model_wf(m: SchemaV) -> bool {
        keys_unique(m.extras) && (forall|i: int| 0 <= i < m.extras.len() ==> !schema_names().contains(
            #[trigger] m.extras[i].0,
        )) && (forall|i: int| 0 <= i < m.extras.len() ==> wf_val(#[trigger] m.extras[i].1))
    }

    open spec fn sentinel_free(m: SchemaV) -> bool {
        forall|i: int| 0 <= i < m.extras.len() ==> (#[trigger] m.extras[i].0) != ref_key()
    }

    proof fn lemma_codec(m: SchemaV) {
        reveal_strlit("type");
        reveal_strlit("format");
        reveal_strlit("nullable");
        reveal_strlit("description");
        reveal_strlit("$ref");
        let fs = schema_fields(m);
        assert(fs[0].0 == "type"@);
        assert(fs[1].0 == "format"@);
        assert(fs[2].0 == "nullable"@);
        assert(fs[3].0 == "description"@);
        assert(("type"@)[0] == 't');
        assert(("$ref"@)[0] == '$');
        assert("type"@ != "format"@ && "type"@ != "nullable"@ && "type"@ != "description"@);
        assert("format"@ != "nullable"@ && "format"@ != "description"@ && "nullable"@ != "description"@);
        assert("type"@ != "$ref"@ && "format"@ != "$ref"@ && "nullable"@ != "$ref"@);
        assert("description"@ != "$ref"@);
        assert(distinct_names(fs));
        assert(match fs[0].1 {
            Some(sv) => wf_val(sv),
            None => true,
        });
        assert(match fs[1].1 {
            Some(sv) => wf_val(sv),
            None => true,
        });
        assert(match fs[2].1 {
            Some(sv) => wf_val(sv),
            None => true,
        });
        assert(match fs[3].1 {
            Some(sv) => wf_val(sv),
            None => true,
        });
        assert(entries_avoid(m.extras, fs)) by {
            assert forall|i: int, j: int| 0 <= i < m.extras.len() && 0 <= j < fs.len()
                implies m.extras[i].0 != fs[j].0 by {
                assert(schema_names()[j] == fs[j].0);
            }
        }
        lemma_record_obj(fs, m.extras, ref_key());
        let es = fields_entries(fs) + m.extras;
        assert forall|j: int| 0 <= j < fs.len() implies schema_names().contains(
            #[trigger] fs[j].0,
        ) by {
            assert(schema_names()[j] == fs[j].0);
        }
        lemma_record_extras_of(fs, m.extras, schema_names());
        assert(obj_get(es, "type"@) == opt_str_slot(m._type));
        assert(obj_get(es, "format"@) == opt_str_slot(m.format));
        assert(obj_get(es, "nullable"@) == opt_bool_slot(m.nullable));
        assert(obj_get(es, "description"@) == opt_str_slot(m.description));
    }

    proof fn lemma_decode_wf(v: SpecVal) {
        let es = v->Obj_0;
        assert(forall|i: int| 0 <= i < es.len() ==> wf_val(#[trigger] es[i].1));
        lemma_extras_of(es, schema_names());
    }

    proof fn lemma_decode_sentinel(v: SpecVal) {
        let es = v->Obj_0;
        assert forall|i: int| 0 <= i < es.len() implies (#[trigger] es[i].0) != ref_key() by {
            if es[i].0 == ref_key() {
                lemma_index_has_key(es, i);
            }
        }
        lemma_extras_of(es, schema_names());
        let ex = extras_of(es, schema_names());
        assert forall|i: int| 0 <= i < ex.len() implies (#[trigger] ex[i].0) != ref_key() by {
            let j = choose|j: int| 0 <= j < es.len() && es[j] == ex[i];
        }
    }

    /// Beyond the inherited exactness contract: which error kind comes
    /// back, field by field in declared order.
    fn decode(v: &Value) -> (r: Result<Self, DecodeError>)
        ensures
            !(v.deep_view() is Obj) ==> (r matches Err(e) && e is TypeMismatch),
            (v.deep_view() matches SpecVal::Obj(es) && (match obj_get(es, "type"@) {
                Some(sv) => !(sv is Str),
                None => false,
            })) ==> (r matches Err(e) && e is TypeMismatch),
            (v.deep_view() matches SpecVal::Obj(es) && sd_opt_str(es, "type"@) is Some && (match obj_get(es, "format"@) {
                Some(sv) => !(sv is Str),
                None => false,
            })) ==> (r matches Err(e) && e is TypeMismatch),
            (v.deep_view() matches SpecVal::Obj(es) && sd_opt_str(es, "type"@) is Some && sd_opt_str(es, "format"@) is Some && (match obj_get(es, "nullable"@) {
                Some(sv) => !(sv is Bool),
                None => false,
            })) ==> (r matches Err(e) && e is TypeMismatch),
            (v.deep_view() matches SpecVal::Obj(es) && sd_opt_str(es, "type"@) is Some && sd_opt_str(es, "format"@) is Some && sd_opt_bool(es, "nullable"@) is Some && (match obj_get(es, "description"@) {
                Some(sv) => !(sv is Str),
                None => false,
            })) ==> (r matches Err(e) && e is TypeMismatch),
    {
        match v {
            Value::Obj(entries) => {
                let _type = match dec_opt_str(entries, "type", "Schema") {
                    Ok(x) => x,
                    Err(e) => return Err(e),
                };
                let format = match dec_opt_str(entries, "format", "Schema") {
                    Ok(x) => x,
                    Err(e) => return Err(e),
                };
                let nullable = match dec_opt_bool(entries, "nullable", "Schema") {
                    Ok(x) => x,
                    Err(e) => return Err(e),
                };
                let description = match dec_opt_str(entries, "description", "Schema") {
                    Ok(x) => x,
                    Err(e) => return Err(e),
                };
                let extras = collect_schema_extras(entries);
                let out = Schema { _type, format, nullable, description, extras };
                proof {
                    if wf_val(v.deep_view()) {
                        Self::lemma_decode_wf(v.deep_view());
                    }
                }
                Ok(out)
            },
            _ => Err(
                DecodeError::TypeMismatch {
                    field: "".to_owned(),
                    kind: "Schema".to_owned(),
                    expected: "object".to_owned(),
                },
            ),
        }
    }

    fn encode(&self) -> (r: Value) {
        let mut out: Vec<(String, Value)> = Vec::new();
        let ghost m = self.deep_view();
        enc_opt_str(&mut out, "type", &self._type);
        proof {
            assert(view_entries(out@) =~= opt_entry("type"@, opt_str_slot(m._type)));
        }
        enc_opt_str(&mut out, "format", &self.format);
        proof {
            assert(view_entries(out@) =~= opt_entry("type"@, opt_str_slot(m._type)) + opt_entry("format"@, opt_str_slot(m.format)));
        }
        enc_opt_bool(&mut out, "nullable", &self.nullable);
        proof {
            assert(view_entries(out@) =~= opt_entry("type"@, opt_str_slot(m._type)) + opt_entry("format"@, opt_str_slot(m.format)) + opt_entry("nullable"@, opt_bool_slot(m.nullable)));
        }
        enc_opt_str(&mut out, "description", &self.description);
        proof {
            assert(view_entries(out@) =~= opt_entry("type"@, opt_str_slot(m._type)) + opt_entry("format"@, opt_str_slot(m.format)) + opt_entry("nullable"@, opt_bool_slot(m.nullable)) + opt_entry("description"@, opt_str_slot(m.description)));
        }
        enc_extras(&mut out, &self.extras);
        proof {
            assert(view_entries(out@) =~= (opt_entry("type"@, opt_str_slot(m._type)) + opt_entry("format"@, opt_str_slot(m.format)) + opt_entry("nullable"@, opt_bool_slot(m.nullable)) + opt_entry("description"@, opt_str_slot(m.description))) + m.extras);
        }
        proof {
            let fs = schema_fields(m);
            assert(fs.len() == 4);
            let fs1 = fs.drop_first();
            assert(fs1[0] == fs[1] && fs1.len() == 3);
            let fs2 = fs1.drop_first();
            assert(fs2[0] == fs[2] && fs2.len() == 2);
            let fs3 = fs2.drop_first();
            assert(fs3[0] == fs[3] && fs3.len() == 1);
            let fs4 = fs3.drop_first();
            assert(fs4.len() == 0);
            assert(fields_entries(fs4) =~= Seq::<(Seq<char>, SpecVal)>::empty());
            assert(fields_entries(fs3) =~= opt_entry(fs[3].0, fs[3].1) + fields_entries(fs4));
            assert(fields_entries(fs2) =~= opt_entry(fs[2].0, fs[2].1) + fields_entries(fs3));
            assert(fields_entries(fs1) =~= opt_entry(fs[1].0, fs[1].1) + fields_entries(fs2));
            assert(fields_entries(fs) =~= opt_entry(fs[0].0, fs[0].1) + fields_entries(fs1));
            assert(view_entries(out@) =~= fields_entries(fs) + m.extras);
        }
        Value::Obj(out)
    }
}


/// Route the source entries: any key not among the declared schema
/// fields goes, in encounter order, into the extension bucket.
#[verifier::loop_isolation(false)]
fn collect_schema_extras(entries: &Vec<(String, Value)>) -> (r: Vec<(String, Value)>)
    ensures
        view_entries(r@) == extras_of(view_entries(entries@), schema_names()),
{
    let ghost es = view_entries(entries@);
    proof {
        reveal_strlit("type");
        reveal_strlit("format");
        reveal_strlit("nullable");
        reveal_strlit("description");
        lemma_view_entries(entries@);
        assert(es.skip(0) =~= es);
    }
    let mut out: Vec<(String, Value)> = Vec::new();
    proof {
        assert(view_entries(out@) =~= Seq::<(Seq<char>, SpecVal)>::empty());
    }
    let n = entries.len();
    let mut i: usize = 0;
    while i < n
        invariant
            i <= n,
            n == entries.len(),
            es.len() == n,
            forall|j: int| 0 <= j < n ==> #[trigger] es[j]
                == (entries@[j].0@, view_val(entries@[j].1)),
            extras_of(es, schema_names()) =~= view_entries(out@) + extras_of(
                es.skip(i as int),
                schema_names(),
            ),
        decreases n - i,
    {
        proof {
            assert(es.skip(i as int).len() > 0);
            assert(es.skip(i as int)[0] == es[i as int]);
            assert(es.skip(i as int).drop_first() =~= es.skip(i + 1));
        }
        let declared = entries[i].0 == "type".to_owned() || entries[i].0 == "format".to_owned()
            || entries[i].0 == "nullable".to_owned() || entries[i].0 == "description".to_owned();
        proof {
            if declared {
                assert(schema_names().contains(es[i as int].0)) by {
                    if entries@[i as int].0@ == "type"@ {
                        assert(schema_names()[0] == es[i as int].0);
                    } else if entries@[i as int].0@ == "format"@ {
                        assert(schema_names()[1] == es[i as int].0);
                    } else if entries@[i as int].0@ == "nullable"@ {
                        assert(schema_names()[2] == es[i as int].0);
                    } else {
                        assert(schema_names()[3] == es[i as int].0);
                    }
                }
            } else {
                assert(!schema_names().contains(es[i as int].0)) by {
                    if schema_names().contains(es[i as int].0) {
                        let j = choose|j: int|
                            0 <= j < schema_names().len() && schema_names()[j] == es[i as int].0;
                    }
                }
            }
        }
        if declared {
            i += 1;
        } else {
            let ghost pre = out@;
            let k = entries[i].0.clone();
            let v = entries[i].1.clone();
            let ghost gk = k;
            let ghost gv = v;
            out.push((k, v));
            proof {
                lemma_view_entries_push(pre, gk, gv);
                assert(view_entries(out@) =~= view_entries(pre) + seq![es[i as int]]);
            }
            i += 1;
        }
    }
    proof {
        assert(es.skip(n as int) =~= Seq::<(Seq<char>, SpecVal)>::empty());
        assert(extras_of(es, schema_names()) =~= view_entries(out@));
    }
    out
}

} // verus!
