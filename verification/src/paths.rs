//! The operational surface: path items, operations, their response
//! containers and callbacks.

use vstd::prelude::*;

use crate::codec::{Codec, dec_opt, dec_opt_bool, dec_opt_str, dec_req, dec_req_str, enc_opt,
    enc_opt_bool, enc_opt_str, enc_req, enc_str, opt_bool_slot, opt_slot, opt_str_slot, ref_key,
    req_slot, sd_opt, sd_opt_bool, sd_opt_str, sd_req, sd_req_str, str_slot};
use crate::err::DecodeError;
use crate::meta::{ExternalDocumentation, ExternalDocumentationV, Server, ServerV};
use crate::obj::{FieldImage, distinct_names, entries_avoid, extras_of, fields_entries,
    lemma_extras_of, lemma_get_wf, lemma_index_has_key, lemma_record_extras_of, lemma_record_obj,
    obj_get, opt_entry};
use crate::params::{Parameter, ParameterV, RequestBody, RequestBodyV, Response, ResponseV};
use crate::refs::{Referenceable, ReferenceableV};
use crate::security::{SecurityRequirement, SecurityRequirementV};
use crate::smap::{SortedMap, lemma_map_sorted_pairwise, lemma_sd_map_keys, lemma_sd_map_roundtrip,
    lemma_sd_map_wf, map_sorted, sd_map, se_map, sorted_insert, str_lt};
use crate::value::{SpecEntries, SpecVal, Value, keys_unique, lemma_view_entries, view_entries,
    view_val, wf_val};

verus! {

/// A map of out-of-band callbacks related to an operation. The keys are
/// runtime expressions; each value is kept as the raw tree that was
/// given, and is reproduced unchanged. Holding raw trees here cuts the
/// type recursion through operations and path items: the content is
/// preserved losslessly, but it is not checked against the path-item
/// shape at decode time and has no typed accessors.
#[derive(Debug, Clone)]
pub struct Callback {
    pub data: SortedMap<Value>,
}

/// The model of a `Callback`.
pub struct CallbackV {
    pub data: Seq<(Seq<char>, SpecVal)>,
}

impl DeepView for Callback {
    type V = CallbackV;

    open spec fn deep_view(&self) -> CallbackV {
        CallbackV { data: self.data.deep_view() }
    }
}

impl Codec for Callback {
    open spec fn spec_decode(v: SpecVal) -> Option<CallbackV> {
        match SortedMap::<Value>::spec_decode(v) {
            Some(d) => Some(CallbackV { data: d }),
            None => None,
        }
    }

    open spec fn spec_encode(m: CallbackV) -> SpecVal {
        SortedMap::<Value>::spec_encode(m.data)
    }

    open spec fn model_wf(m: CallbackV) -> bool {
        SortedMap::<Value>::model_wf(m.data)
    }

    open spec fn sentinel_free(m: CallbackV) -> bool {
        SortedMap::<Value>::sentinel_free(m.data)
    }

    proof fn lemma_codec(m: CallbackV) {
        SortedMap::<Value>::lemma_codec(m.data);
    }

    proof fn lemma_decode_wf(v: SpecVal) {
        SortedMap::<Value>::lemma_decode_wf(v);
    }

    proof fn lemma_decode_sentinel(v: SpecVal) {
        SortedMap::<Value>::lemma_decode_sentinel(v);
    }

    /// Beyond the inherited exactness contract: anything but an object is
    /// a type mismatch.
    fn decode(v: &Value) -> (r: Result<Self, DecodeError>)
        ensures
            !(v.deep_view() is Obj) ==> (r matches Err(e) && e is TypeMismatch),
    {
        match SortedMap::<Value>::decode(v) {
            Ok(data) => Ok(Callback { data }),
            Err(e) => Err(e),
        }
    }

    fn encode(&self) -> (r: Value) {
        self.data.encode()
    }
}



/// The expected responses of an operation: one declared `default` slot,
/// and a bucket of responses keyed by status code, emitted in ascending
/// key order.
#[derive(Debug, Clone)]
pub struct Responses {
    /// The response used for any code not covered individually.
    pub default: Option<Referenceable<Response>>,
    /// Responses by status code.
    pub data: SortedMap<Referenceable<Response>>,
}

/// The model of a `Responses`.
pub struct ResponsesV {
    pub default: Option<ReferenceableV<ResponseV>>,
    pub data: Seq<(Seq<char>, ReferenceableV<ResponseV>)>,
}

impl DeepView for Responses {
    type V = ResponsesV;

    open spec fn deep_view(&self) -> ResponsesV {
        ResponsesV { default: self.default.deep_view(), data: self.data.deep_view() }
    }
}

/// The one declared field name of the responses container.
pub open spec fn responses_names() -> Seq<Seq<char>> {
    seq!["default"@]
}

impl Codec for Responses {
    open spec fn spec_decode(v: SpecVal) -> Option<ResponsesV> {
        match v {
            SpecVal::Obj(es) => match sd_opt::<Referenceable<Response>>(es, "default"@) {
                Some(d) => match sd_map::<Referenceable<Response>>(
                    Seq::empty(),
                    extras_of(es, responses_names()),
                ) {
                    Some(data) => Some(ResponsesV { default: d, data }),
                    None => None,
                },
                None => None,
            },
            _ => None,
        }
    }

    open spec fn spec_encode(m: ResponsesV) -> SpecVal {
        SpecVal::Obj(
            opt_entry("default"@, opt_slot::<Referenceable<Response>>(m.default)) + se_map::<
                Referenceable<Response>,
            >(m.data),
        )
    }

    open spec fn model_wf(m: ResponsesV) -> bool {
        (match m.default {
            Some(d) => Referenceable::<Response>::model_wf(d),
            None => true,
        }) && SortedMap::<Referenceable<Response>>::model_wf(m.data) && (forall|i: int|
            0 <= i < m.data.len() ==> (#[trigger] m.data[i].0) != "default"@)
    }

    open spec fn sentinel_free(m: ResponsesV) -> bool {
        forall|i: int| 0 <= i < m.data.len() ==> (#[trigger] m.data[i].0) != ref_key()
    }

    proof fn lemma_codec(m: ResponsesV) {
        reveal_strlit("default");
        reveal_strlit("$ref");
        assert(("default"@).len() == 7 && ("$ref"@).len() == 4);
        let fs = seq![("default"@, opt_slot::<Referenceable<Response>>(m.default))];
        let ex = se_map::<Referenceable<Response>>(m.data);
        SortedMap::<Referenceable<Response>>::lemma_codec(m.data);
        // the bucket entries are well-formed, unique, and avoid "default"
        assert(wf_val(SortedMap::<Referenceable<Response>>::spec_encode(m.data)));
        assert(wf_val(SpecVal::Obj(ex)));
        assert(keys_unique(ex));
        assert(forall|i: int| 0 <= i < ex.len() ==> wf_val(#[trigger] ex[i].1));
        assert forall|i: int| 0 <= i < ex.len() implies (#[trigger] ex[i].0) != "default"@
            && !responses_names().contains(ex[i].0) by {
            assert(ex[i].0 == m.data[i].0);
            if responses_names().contains(ex[i].0) {
                let j = choose|j: int|
                    0 <= j < responses_names().len() && responses_names()[j] == ex[i].0;
            }
        }
        assert(entries_avoid(ex, fs));
        if m.default is Some {
            Referenceable::<Response>::lemma_codec(m.default->0);
        }
        assert(match fs[0].1 {
            Some(sv) => wf_val(sv),
            None => true,
        });
        assert(distinct_names(fs));
        lemma_record_obj(fs, ex, ref_key());
        let es = fields_entries(fs) + ex;
        assert(obj_get(es, "default"@) == opt_slot::<Referenceable<Response>>(m.default));
        assert forall|j: int| 0 <= j < fs.len() implies responses_names().contains(
            #[trigger] fs[j].0,
        ) by {
            assert(responses_names()[0] == fs[0].0);
        }
        lemma_record_extras_of(fs, ex, responses_names());
        assert(extras_of(es, responses_names()) =~= ex);
        // the encoded object is exactly the spec encoding
        assert(fields_entries(fs) =~= opt_entry("default"@, opt_slot::<Referenceable<Response>>(
            m.default,
        ))) by {
            assert(fs.drop_first().len() == 0);
            assert(fields_entries(fs.drop_first()) =~= Seq::<(Seq<char>, SpecVal)>::empty());
            assert(fields_entries(fs) =~= opt_entry(fs[0].0, fs[0].1) + fields_entries(
                fs.drop_first(),
            ));
        }
        assert(Self::spec_encode(m) == SpecVal::Obj(es));
        if Self::sentinel_free(m) {
            assert(forall|i: int| 0 <= i < ex.len() ==> (#[trigger] ex[i].0) != ref_key());
        }
    }

    proof fn lemma_decode_wf(v: SpecVal) {
        let es = v->Obj_0;
        assert(forall|i: int| 0 <= i < es.len() ==> wf_val(#[trigger] es[i].1));
        if obj_get(es, "default"@) is Some {
            lemma_get_wf(es, "default"@);
            Referenceable::<Response>::lemma_decode_wf(obj_get(es, "default"@)->0);
        }
        lemma_extras_of(es, responses_names());
        let ex = extras_of(es, responses_names());
        assert forall|i: int| 0 <= i < ex.len() implies wf_val(#[trigger] ex[i].1) by {
            let j = choose|j: int| 0 <= j < es.len() && es[j] == ex[i];
            assert(wf_val(es[j].1));
        }
        assert forall|i: int| 0 <= i < ex.len() implies (#[trigger] ex[i].0) != "default"@ by {
            if ex[i].0 == "default"@ {
                assert(responses_names()[0] == ex[i].0);
            }
        }
        lemma_sd_map_wf::<Referenceable<Response>>(Seq::empty(), ex);
        let data = sd_map::<Referenceable<Response>>(Seq::empty(), ex)->0;
        lemma_sd_map_keys::<Referenceable<Response>>(Seq::empty(), ex, "default"@);
    }

    proof fn lemma_decode_sentinel(v: SpecVal) {
        let es = v->Obj_0;
        assert forall|i: int| 0 <= i < es.len() implies (#[trigger] es[i].0) != ref_key() by {
            if es[i].0 == ref_key() {
                lemma_index_has_key(es, i);
            }
        }
        lemma_extras_of(es, responses_names());
        let ex = extras_of(es, responses_names());
        assert forall|i: int| 0 <= i < ex.len() implies (#[trigger] ex[i].0) != ref_key() by {
            let j = choose|j: int| 0 <= j < es.len() && es[j] == ex[i];
        }
        lemma_sd_map_keys::<Referenceable<Response>>(Seq::empty(), ex, ref_key());
    }

    /// Beyond the inherited exactness contract: anything but an object is
    /// a type mismatch; a failing response reports that response's own
    /// error.
    #[verifier::loop_isolation(false)]
    fn decode(v: &Value) -> (r: Result<Self, DecodeError>)
        ensures
            !(v.deep_view() is Obj) ==> (r matches Err(e) && e is TypeMismatch),
    {
        match v {
            Value::Obj(entries) => {
                let default = match dec_opt::<Referenceable<Response>>(entries, "default") {
                    Ok(d) => d,
                    Err(e) => return Err(e),
                };
                let ghost es = view_entries(entries@);
                proof {
                    reveal_strlit("default");
                    lemma_view_entries(entries@);
                    assert(es.skip(0) =~= es);
                }
                let mut data: SortedMap<Referenceable<Response>> = SortedMap::new();
                let n = entries.len();
                let mut i: usize = 0;
                while i < n
                    invariant
                        i <= n,
                        n == entries.len(),
                        es.len() == n,
                        forall|j: int| 0 <= j < n ==> #[trigger] es[j]
                            == (entries@[j].0@, view_val(entries@[j].1)),
                        sd_map::<Referenceable<Response>>(
                            Seq::empty(),
                            extras_of(es, responses_names()),
                        ) == sd_map::<Referenceable<Response>>(
                            data.deep_view(),
                            extras_of(es.skip(i as int), responses_names()),
                        ),
                    decreases n - i,
                {
                    proof {
                        assert(es.skip(i as int).len() > 0);
                        assert(es.skip(i as int)[0] == es[i as int]);
                        assert(es.skip(i as int).drop_first() =~= es.skip(i + 1));
                    }
                    let is_default = entries[i].0 == "default".to_owned();
                    proof {
                        if is_default {
                            assert(responses_names()[0] == es[i as int].0);
                            assert(responses_names().contains(es[i as int].0));
                        } else {
                            if responses_names().contains(es[i as int].0) {
                                let j = choose|j: int|
                                    0 <= j < responses_names().len() && responses_names()[j]
                                        == es[i as int].0;
                            }
                            assert(!responses_names().contains(es[i as int].0));
                        }
                    }
                    if is_default {
                        i += 1;
                    } else {
                        proof {
                            let consd = seq![es[i as int]] + extras_of(
                                es.skip(i + 1),
                                responses_names(),
                            );
                            assert(extras_of(es.skip(i as int), responses_names()) =~= consd);
                            assert(consd[0] == es[i as int]);
                            assert(consd.drop_first() =~= extras_of(
                                es.skip(i + 1),
                                responses_names(),
                            ));
                        }
                        match Referenceable::<Response>::decode(&entries[i].1) {
                            Ok(t) => {
                                let k = entries[i].0.clone();
                                data.insert(k, t);
                            },
                            Err(e) => {
                                return Err(e);
                            },
                        }
                        i += 1;
                    }
                }
                proof {
                    assert(es.skip(n as int) =~= Seq::<(Seq<char>, SpecVal)>::empty());
                    assert(extras_of(es.skip(n as int), responses_names())
                        =~= Seq::<(Seq<char>, SpecVal)>::empty());
                    if wf_val(v.deep_view()) {
                        Self::lemma_decode_wf(v.deep_view());
                    }
                }
                Ok(Responses { default, data })
            },
            _ => Err(
                DecodeError::TypeMismatch {
                    field: "".to_owned(),
                    kind: "Responses".to_owned(),
                    expected: "object".to_owned(),
                },
            ),
        }
    }

    fn encode(&self) -> (r: Value) {
        let ghost m = self.deep_view();
        let mut out: Vec<(String, Value)> = Vec::new();
        enc_opt::<Referenceable<Response>>(&mut out, "default", &self.default);
        let encoded_data = self.data.encode();
        let ghost data_entries = se_map::<Referenceable<Response>>(m.data);
        match encoded_data {
            Value::Obj(dentries) => {
                crate::codec::enc_extras(&mut out, &dentries);
                proof {
                    assert(view_entries(dentries@) == data_entries);
                    assert(view_entries(out@) =~= opt_entry(
                        "default"@,
                        opt_slot::<Referenceable<Response>>(m.default),
                    ) + data_entries);
                }
            },
            _ => {
                proof {
                    assert(false);
                }
            },
        }
        Value::Obj(out)
    }
}

/// A single API operation on a path.
#[derive(Debug, Clone)]
pub struct Operation {
    pub tags: Option<Vec<String>>,
    pub summary: Option<String>,
    pub description: Option<String>,
    pub external_docs: Option<ExternalDocumentation>,
    pub operation_id: Option<String>,
    pub parameters: Option<Vec<Referenceable<Parameter>>>,
    pub request_body: Option<Referenceable<RequestBody>>,
    pub responses: Responses,
    pub callbacks: Option<SortedMap<Referenceable<Callback>>>,
    pub deprecated: Option<bool>,
    pub security: Option<Vec<SecurityRequirement>>,
    pub servers: Option<Vec<Server>>,
}

/// The model of a `Operation`.
pub struct OperationV {
    pub tags: Option<Seq<Seq<char>>>,
    pub summary: Option<Seq<char>>,
    pub description: Option<Seq<char>>,
    pub external_docs: Option<ExternalDocumentationV>,
    pub operation_id: Option<Seq<char>>,
    pub parameters: Option<Seq<ReferenceableV<ParameterV>>>,
    pub request_body: Option<ReferenceableV<RequestBodyV>>,
    pub responses: ResponsesV,
    pub callbacks: Option<Seq<(Seq<char>, ReferenceableV<CallbackV>)>>,
    pub deprecated: Option<bool>,
    pub security: Option<Seq<SecurityRequirementV>>,
    pub servers: Option<Seq<ServerV>>,
}

impl DeepView for Operation {
    type V = OperationV;

    open spec fn deep_view(&self) -> OperationV {
        OperationV {
            tags: self.tags.deep_view(),
            summary: self.summary.deep_view(),
            description: self.description.deep_view(),
            external_docs: self.external_docs.deep_view(),
            operation_id: self.operation_id.deep_view(),
            parameters: self.parameters.deep_view(),
            request_body: self.request_body.deep_view(),
            responses: self.responses.deep_view(),
            callbacks: self.callbacks.deep_view(),
            deprecated: self.deprecated.deep_view(),
            security: self.security.deep_view(),
            servers: self.servers.deep_view(),
        }
    }
}

/// The declared fields of the operation kind, in schema order.
pub open spec fn operation_fields(m: OperationV) -> FieldImage {
    seq![
        ("tags"@, opt_slot::<Vec<String>>(m.tags)),
        ("summary"@, opt_str_slot(m.summary)),
        ("description"@, opt_str_slot(m.description)),
        ("externalDocs"@, opt_slot::<ExternalDocumentation>(m.external_docs)),
        ("operationId"@, opt_str_slot(m.operation_id)),
        ("parameters"@, opt_slot::<Vec<Referenceable<Parameter>>>(m.parameters)),
        ("requestBody"@, opt_slot::<Referenceable<RequestBody>>(m.request_body)),
        ("responses"@, req_slot::<Responses>(m.responses)),
        ("callbacks"@, opt_slot::<SortedMap<Referenceable<Callback>>>(m.callbacks)),
        ("deprecated"@, opt_bool_slot(m.deprecated)),
        ("security"@, opt_slot::<Vec<SecurityRequirement>>(m.security)),
        ("servers"@, opt_slot::<Vec<Server>>(m.servers)),
    ]
}

impl Codec for Operation {
    open spec fn spec_decode(v: SpecVal) -> Option<OperationV> {
        match v {
            SpecVal::Obj(es) => {
                if sd_opt::<Vec<String>>(es, "tags"@) is Some && sd_opt_str(es, "summary"@) is Some && sd_opt_str(es, "description"@) is Some && sd_opt::<ExternalDocumentation>(es, "externalDocs"@) is Some && sd_opt_str(es, "operationId"@) is Some && sd_opt::<Vec<Referenceable<Parameter>>>(es, "parameters"@) is Some && sd_opt::<Referenceable<RequestBody>>(es, "requestBody"@) is Some && sd_req::<Responses>(es, "responses"@) is Some && sd_opt::<SortedMap<Referenceable<Callback>>>(es, "callbacks"@) is Some && sd_opt_bool(es, "deprecated"@) is Some && sd_opt::<Vec<SecurityRequirement>>(es, "security"@) is Some && sd_opt::<Vec<Server>>(es, "servers"@) is Some {
                    Some(
                        OperationV {
                            tags: sd_opt::<Vec<String>>(es, "tags"@)->0,
                            summary: sd_opt_str(es, "summary"@)->0,
                            description: sd_opt_str(es, "description"@)->0,
                            external_docs: sd_opt::<ExternalDocumentation>(es, "externalDocs"@)->0,
                            operation_id: sd_opt_str(es, "operationId"@)->0,
                            parameters: sd_opt::<Vec<Referenceable<Parameter>>>(es, "parameters"@)->0,
                            request_body: sd_opt::<Referenceable<RequestBody>>(es, "requestBody"@)->0,
                            responses: sd_req::<Responses>(es, "responses"@)->0,
                            callbacks: sd_opt::<SortedMap<Referenceable<Callback>>>(es, "callbacks"@)->0,
                            deprecated: sd_opt_bool(es, "deprecated"@)->0,
                            security: sd_opt::<Vec<SecurityRequirement>>(es, "security"@)->0,
                            servers: sd_opt::<Vec<Server>>(es, "servers"@)->0,
                        },
                    )
                } else {
                    None
                }
            },
            _ => None,
        }
    }

    open spec fn spec_encode(m: OperationV) -> SpecVal {
        SpecVal::Obj(fields_entries(operation_fields(m)))
    }

    open spec fn model_wf(m: OperationV) -> bool {
        (match m.tags {
            Some(t) => Vec::<String>::model_wf(t),
            None => true,
        }) && (match m.external_docs {
            Some(t) => ExternalDocumentation::model_wf(t),
            None => true,
        }) && (match m.parameters {
            Some(t) => Vec::<Referenceable<Parameter>>::model_wf(t),
            None => true,
        }) && (match m.request_body {
            Some(t) => Referenceable::<RequestBody>::model_wf(t),
            None => true,
        }) && Responses::model_wf(m.responses) && (match m.callbacks {
            Some(t) => SortedMap::<Referenceable<Callback>>::model_wf(t),
            None => true,
        }) && (match m.security {
            Some(t) => Vec::<SecurityRequirement>::model_wf(t),
            None => true,
        }) && (match m.servers {
            Some(t) => Vec::<Server>::model_wf(t),
            None => true,
        })
    }

    open spec fn sentinel_free(m: OperationV) -> bool {
        true
    }

    #[verifier::rlimit(100)]
    #[verifier::spinoff_prover]
    proof fn lemma_codec(m: OperationV) {
        reveal_strlit("tags");
        reveal_strlit("summary");
        reveal_strlit("description");
        reveal_strlit("externalDocs");
        reveal_strlit("operationId");
        reveal_strlit("parameters");
        reveal_strlit("requestBody");
        reveal_strlit("responses");
        reveal_strlit("callbacks");
        reveal_strlit("deprecated");
        reveal_strlit("security");
        reveal_strlit("servers");
        reveal_strlit("$ref");
        let fs = operation_fields(m);
        assert(fs[0].0 == "tags"@);
        assert(fs[1].0 == "summary"@);
        assert(fs[2].0 == "description"@);
        assert(fs[3].0 == "externalDocs"@);
        assert(fs[4].0 == "operationId"@);
        assert(fs[5].0 == "parameters"@);
        assert(fs[6].0 == "requestBody"@);
        assert(fs[7].0 == "responses"@);
        assert(fs[8].0 == "callbacks"@);
        assert(fs[9].0 == "deprecated"@);
        assert(fs[10].0 == "security"@);
        assert(fs[11].0 == "servers"@);
        assert(("tags"@)[0] == 't');
        assert(("$ref"@)[0] == '$');
        assert(("summary"@)[1] == 'u');
        assert(("servers"@)[1] == 'e');
        assert(("description"@)[0] == 'd');
        assert(("operationId"@)[0] == 'o');
        assert(("requestBody"@)[0] == 'r');
        assert(("parameters"@)[0] == 'p');
        assert(("deprecated"@)[0] == 'd');
        assert(("responses"@)[0] == 'r');
        assert(("callbacks"@)[0] == 'c');
        assert("tags"@ != "summary"@ && "tags"@ != "description"@ && "tags"@ != "externalDocs"@);
        assert("tags"@ != "operationId"@ && "tags"@ != "parameters"@ && "tags"@ != "requestBody"@);
        assert("tags"@ != "responses"@ && "tags"@ != "callbacks"@ && "tags"@ != "deprecated"@);
        assert("tags"@ != "security"@ && "tags"@ != "servers"@ && "summary"@ != "description"@);
        assert("summary"@ != "externalDocs"@ && "summary"@ != "operationId"@ && "summary"@ != "parameters"@);
        assert("summary"@ != "requestBody"@ && "summary"@ != "responses"@ && "summary"@ != "callbacks"@);
        assert("summary"@ != "deprecated"@ && "summary"@ != "security"@ && "summary"@ != "servers"@);
        assert("description"@ != "externalDocs"@ && "description"@ != "operationId"@ && "description"@ != "parameters"@);
        assert("description"@ != "requestBody"@ && "description"@ != "responses"@ && "description"@ != "callbacks"@);
        assert("description"@ != "deprecated"@ && "description"@ != "security"@ && "description"@ != "servers"@);
        assert("externalDocs"@ != "operationId"@ && "externalDocs"@ != "parameters"@ && "externalDocs"@ != "requestBody"@);
        assert("externalDocs"@ != "responses"@ && "externalDocs"@ != "callbacks"@ && "externalDocs"@ != "deprecated"@);
        assert("externalDocs"@ != "security"@ && "externalDocs"@ != "servers"@ && "operationId"@ != "parameters"@);
        assert("operationId"@ != "requestBody"@ && "operationId"@ != "responses"@ && "operationId"@ != "callbacks"@);
        assert("operationId"@ != "deprecated"@ && "operationId"@ != "security"@ && "operationId"@ != "servers"@);
        assert("parameters"@ != "requestBody"@ && "parameters"@ != "responses"@ && "parameters"@ != "callbacks"@);
        assert("parameters"@ != "deprecated"@ && "parameters"@ != "security"@ && "parameters"@ != "servers"@);
        assert("requestBody"@ != "responses"@ && "requestBody"@ != "callbacks"@ && "requestBody"@ != "deprecated"@);
        assert("requestBody"@ != "security"@ && "requestBody"@ != "servers"@ && "responses"@ != "callbacks"@);
        assert("responses"@ != "deprecated"@ && "responses"@ != "security"@ && "responses"@ != "servers"@);
        assert("callbacks"@ != "deprecated"@ && "callbacks"@ != "security"@ && "callbacks"@ != "servers"@);
        assert("deprecated"@ != "security"@ && "deprecated"@ != "servers"@ && "security"@ != "servers"@);
        assert("tags"@ != "$ref"@ && "summary"@ != "$ref"@ && "description"@ != "$ref"@);
        assert("externalDocs"@ != "$ref"@ && "operationId"@ != "$ref"@ && "parameters"@ != "$ref"@);
        assert("requestBody"@ != "$ref"@ && "responses"@ != "$ref"@ && "callbacks"@ != "$ref"@);
        assert("deprecated"@ != "$ref"@ && "security"@ != "$ref"@ && "servers"@ != "$ref"@);
        assert(distinct_names(fs));
        if m.tags is Some {
            Vec::<String>::lemma_codec(m.tags->0);
        }
        if m.external_docs is Some {
            ExternalDocumentation::lemma_codec(m.external_docs->0);
        }
        if m.parameters is Some {
            Vec::<Referenceable<Parameter>>::lemma_codec(m.parameters->0);
        }
        if m.request_body is Some {
            Referenceable::<RequestBody>::lemma_codec(m.request_body->0);
        }
        Responses::lemma_codec(m.responses);
        if m.callbacks is Some {
            SortedMap::<Referenceable<Callback>>::lemma_codec(m.callbacks->0);
        }
        if m.security is Some {
            Vec::<SecurityRequirement>::lemma_codec(m.security->0);
        }
        if m.servers is Some {
            Vec::<Server>::lemma_codec(m.servers->0);
        }
        assert(match fs[0].1 {
            Some(sv) => wf_val(sv),
            None => true,
        });
        assert(match fs[1].1 {
            Some(sv) => wf_val(sv),
            None => true,
        });
        assert(match fs[2].1 {
            Some(sv) => wf_val(sv),
            None => true,
        });
        assert(match fs[3].1 {
            Some(sv) => wf_val(sv),
            None => true,
        });
        assert(match fs[4].1 {
            Some(sv) => wf_val(sv),
            None => true,
        });
        assert(match fs[5].1 {
            Some(sv) => wf_val(sv),
            None => true,
        });
        assert(match fs[6].1 {
            Some(sv) => wf_val(sv),
            None => true,
        });
        assert(match fs[7].1 {
            Some(sv) => wf_val(sv),
            None => true,
        });
        assert(match fs[8].1 {
            Some(sv) => wf_val(sv),
            None => true,
        });
        assert(match fs[9].1 {
            Some(sv) => wf_val(sv),
            None => true,
        });
        assert(match fs[10].1 {
            Some(sv) => wf_val(sv),
            None => true,
        });
        assert(match fs[11].1 {
            Some(sv) => wf_val(sv),
            None => true,
        });
        lemma_record_obj(fs, Seq::empty(), ref_key());
        let es = fields_entries(fs) + Seq::<(Seq<char>, SpecVal)>::empty();
        assert(es =~= fields_entries(fs));
        assert(obj_get(es, "tags"@) == opt_slot::<Vec<String>>(m.tags));
        assert(obj_get(es, "summary"@) == opt_str_slot(m.summary));
        assert(obj_get(es, "description"@) == opt_str_slot(m.description));
        assert(obj_get(es, "externalDocs"@) == opt_slot::<ExternalDocumentation>(m.external_docs));
        assert(obj_get(es, "operationId"@) == opt_str_slot(m.operation_id));
        assert(obj_get(es, "parameters"@) == opt_slot::<Vec<Referenceable<Parameter>>>(m.parameters));
        assert(obj_get(es, "requestBody"@) == opt_slot::<Referenceable<RequestBody>>(m.request_body));
        assert(obj_get(es, "responses"@) == req_slot::<Responses>(m.responses));
        assert(obj_get(es, "callbacks"@) == opt_slot::<SortedMap<Referenceable<Callback>>>(m.callbacks));
        assert(obj_get(es, "deprecated"@) == opt_bool_slot(m.deprecated));
        assert(obj_get(es, "security"@) == opt_slot::<Vec<SecurityRequirement>>(m.security));
        assert(obj_get(es, "servers"@) == opt_slot::<Vec<Server>>(m.servers));
    }

    proof fn lemma_decode_wf(v: SpecVal) {
        let es = v->Obj_0;
        assert(forall|i: int| 0 <= i < es.len() ==> wf_val(#[trigger] es[i].1));
        if obj_get(es, "tags"@) is Some {
            lemma_get_wf(es, "tags"@);
            Vec::<String>::lemma_decode_wf(obj_get(es, "tags"@)->0);
        }
        if obj_get(es, "externalDocs"@) is Some {
            lemma_get_wf(es, "externalDocs"@);
            ExternalDocumentation::lemma_decode_wf(obj_get(es, "externalDocs"@)->0);
        }
        if obj_get(es, "parameters"@) is Some {
            lemma_get_wf(es, "parameters"@);
            Vec::<Referenceable<Parameter>>::lemma_decode_wf(obj_get(es, "parameters"@)->0);
        }
        if obj_get(es, "requestBody"@) is Some {
            lemma_get_wf(es, "requestBody"@);
            Referenceable::<RequestBody>::lemma_decode_wf(obj_get(es, "requestBody"@)->0);
        }
        if obj_get(es, "responses"@) is Some {
            lemma_get_wf(es, "responses"@);
            Responses::lemma_decode_wf(obj_get(es, "responses"@)->0);
        }
        if obj_get(es, "callbacks"@) is Some {
            lemma_get_wf(es, "callbacks"@);
            SortedMap::<Referenceable<Callback>>::lemma_decode_wf(obj_get(es, "callbacks"@)->0);
        }
        if obj_get(es, "security"@) is Some {
            lemma_get_wf(es, "security"@);
            Vec::<SecurityRequirement>::lemma_decode_wf(obj_get(es, "security"@)->0);
        }
        if obj_get(es, "servers"@) is Some {
            lemma_get_wf(es, "servers"@);
            Vec::<Server>::lemma_decode_wf(obj_get(es, "servers"@)->0);
        }
    }

    proof fn lemma_decode_sentinel(v: SpecVal) {
    }

    /// Beyond the inherited exactness contract: which error kind comes
    /// back, field by field in declared order.
    fn decode(v: &Value) -> (r: Result<Self, DecodeError>)
        ensures
            !(v.deep_view() is Obj) ==> (r matches Err(e) && e is TypeMismatch),
            (v.deep_view() matches SpecVal::Obj(es) && sd_opt::<Vec<String>>(es, "tags"@) is Some && (match obj_get(es, "summary"@) {
                Some(sv) => !(sv is Str),
                None => false,
            })) ==> (r matches Err(e) && e is TypeMismatch),
            (v.deep_view() matches SpecVal::Obj(es) && sd_opt::<Vec<String>>(es, "tags"@) is Some && sd_opt_str(es, "summary"@) is Some && (match obj_get(es, "description"@) {
                Some(sv) => !(sv is Str),
                None => false,
            })) ==> (r matches Err(e) && e is TypeMismatch),
            (v.deep_view() matches SpecVal::Obj(es) && sd_opt::<Vec<String>>(es, "tags"@) is Some && sd_opt_str(es, "summary"@) is Some && sd_opt_str(es, "description"@) is Some && sd_opt::<ExternalDocumentation>(es, "externalDocs"@) is Some && (match obj_get(es, "operationId"@) {
                Some(sv) => !(sv is Str),
                None => false,
            })) ==> (r matches Err(e) && e is TypeMismatch),
            (v.deep_view() matches SpecVal::Obj(es) && sd_opt::<Vec<String>>(es, "tags"@) is Some && sd_opt_str(es, "summary"@) is Some && sd_opt_str(es, "description"@) is Some && sd_opt::<ExternalDocumentation>(es, "externalDocs"@) is Some && sd_opt_str(es, "operationId"@) is Some && sd_opt::<Vec<Referenceable<Parameter>>>(es, "parameters"@) is Some && sd_opt::<Referenceable<RequestBody>>(es, "requestBody"@) is Some && obj_get(es, "responses"@) is None) ==> (r matches Err(e)
                && e is MissingRequiredField),
            (v.deep_view() matches SpecVal::Obj(es) && sd_opt::<Vec<String>>(es, "tags"@) is Some && sd_opt_str(es, "summary"@) is Some && sd_opt_str(es, "description"@) is Some && sd_opt::<ExternalDocumentation>(es, "externalDocs"@) is Some && sd_opt_str(es, "operationId"@) is Some && sd_opt::<Vec<Referenceable<Parameter>>>(es, "parameters"@) is Some && sd_opt::<Referenceable<RequestBody>>(es, "requestBody"@) is Some && sd_req::<Responses>(es, "responses"@) is Some && sd_opt::<SortedMap<Referenceable<Callback>>>(es, "callbacks"@) is Some && (match obj_get(es, "deprecated"@) {
                Some(sv) => !(sv is Bool),
                None => false,
            })) ==> (r matches Err(e) && e is TypeMismatch),
    {
        match v {
            Value::Obj(entries) => {
                let tags = match dec_opt::<Vec<String>>(entries, "tags") {
                    Ok(x) => x,
                    Err(e) => return Err(e),
                };
                let summary = match dec_opt_str(entries, "summary", "Operation") {
                    Ok(x) => x,
                    Err(e) => return Err(e),
                };
                let description = match dec_opt_str(entries, "description", "Operation") {
                    Ok(x) => x,
                    Err(e) => return Err(e),
                };
                let external_docs = match dec_opt::<ExternalDocumentation>(entries, "externalDocs") {
                    Ok(x) => x,
                    Err(e) => return Err(e),
                };
                let operation_id = match dec_opt_str(entries, "operationId", "Operation") {
                    Ok(x) => x,
                    Err(e) => return Err(e),
                };
                let parameters = match dec_opt::<Vec<Referenceable<Parameter>>>(entries, "parameters") {
                    Ok(x) => x,
                    Err(e) => return Err(e),
                };
                let request_body = match dec_opt::<Referenceable<RequestBody>>(entries, "requestBody") {
                    Ok(x) => x,
                    Err(e) => return Err(e),
                };
                let responses = match dec_req::<Responses>(entries, "responses", "Operation") {
                    Ok(x) => x,
                    Err(e) => return Err(e),
                };
                let callbacks = match dec_opt::<SortedMap<Referenceable<Callback>>>(entries, "callbacks") {
                    Ok(x) => x,
                    Err(e) => return Err(e),
                };
                let deprecated = match dec_opt_bool(entries, "deprecated", "Operation") {
                    Ok(x) => x,
                    Err(e) => return Err(e),
                };
                let security = match dec_opt::<Vec<SecurityRequirement>>(entries, "security") {
                    Ok(x) => x,
                    Err(e) => return Err(e),
                };
                let servers = match dec_opt::<Vec<Server>>(entries, "servers") {
                    Ok(x) => x,
                    Err(e) => return Err(e),
                };
                let out = Operation { tags, summary, description, external_docs, operation_id, parameters, request_body, responses, callbacks, deprecated, security, servers };
                proof {
                    if wf_val(v.deep_view()) {
                        Self::lemma_decode_wf(v.deep_view());
                    }
                }
                Ok(out)
            },
            _ => Err(
                DecodeError::TypeMismatch {
                    field: "".to_owned(),
                    kind: "Operation".to_owned(),
                    expected: "object".to_owned(),
                },
            ),
        }
    }

    #[verifier::rlimit(100)]
    #[verifier::spinoff_prover]
    fn encode(&self) -> (r: Value) {
        let mut out: Vec<(String, Value)> = Vec::new();
        let ghost m = self.deep_view();
        enc_opt::<Vec<String>>(&mut out, "tags", &self.tags);
        proof {
            assert(view_entries(out@) =~= opt_entry("tags"@, opt_slot::<Vec<String>>(m.tags)));
        }
        enc_opt_str(&mut out, "summary", &self.summary);
        proof {
            assert(view_entries(out@) =~= opt_entry("tags"@, opt_slot::<Vec<String>>(m.tags)) + opt_entry("summary"@, opt_str_slot(m.summary)));
        }
        enc_opt_str(&mut out, "description", &self.description);
        proof {
            assert(view_entries(out@) =~= opt_entry("tags"@, opt_slot::<Vec<String>>(m.tags)) + opt_entry("summary"@, opt_str_slot(m.summary)) + opt_entry("description"@, opt_str_slot(m.description)));
        }
        enc_opt::<ExternalDocumentation>(&mut out, "externalDocs", &self.external_docs);
        proof {
            assert(view_entries(out@) =~= opt_entry("tags"@, opt_slot::<Vec<String>>(m.tags)) + opt_entry("summary"@, opt_str_slot(m.summary)) + opt_entry("description"@, opt_str_slot(m.description)) + opt_entry("externalDocs"@, opt_slot::<ExternalDocumentation>(m.external_docs)));
        }
        enc_opt_str(&mut out, "operationId", &self.operation_id);
        proof {
            assert(view_entries(out@) =~= opt_entry("tags"@, opt_slot::<Vec<String>>(m.tags)) + opt_entry("summary"@, opt_str_slot(m.summary)) + opt_entry("description"@, opt_str_slot(m.description)) + opt_entry("externalDocs"@, opt_slot::<ExternalDocumentation>(m.external_docs)) + opt_entry("operationId"@, opt_str_slot(m.operation_id)));
        }
        enc_opt::<Vec<Referenceable<Parameter>>>(&mut out, "parameters", &self.parameters);
        proof {
            assert(view_entries(out@) =~= opt_entry("tags"@, opt_slot::<Vec<String>>(m.tags)) + opt_entry("summary"@, opt_str_slot(m.summary)) + opt_entry("description"@, opt_str_slot(m.description)) + opt_entry("externalDocs"@, opt_slot::<ExternalDocumentation>(m.external_docs)) + opt_entry("operationId"@, opt_str_slot(m.operation_id)) + opt_entry("parameters"@, opt_slot::<Vec<Referenceable<Parameter>>>(m.parameters)));
        }
        enc_opt::<Referenceable<RequestBody>>(&mut out, "requestBody", &self.request_body);
        proof {
            assert(view_entries(out@) =~= opt_entry("tags"@, opt_slot::<Vec<String>>(m.tags)) + opt_entry("summary"@, opt_str_slot(m.summary)) + opt_entry("description"@, opt_str_slot(m.description)) + opt_entry("externalDocs"@, opt_slot::<ExternalDocumentation>(m.external_docs)) + opt_entry("operationId"@, opt_str_slot(m.operation_id)) + opt_entry("parameters"@, opt_slot::<Vec<Referenceable<Parameter>>>(m.parameters)) + opt_entry("requestBody"@, opt_slot::<Referenceable<RequestBody>>(m.request_body)));
        }
        enc_req::<Responses>(&mut out, "responses", &self.responses);
        proof {
            assert(view_entries(out@) =~= opt_entry("tags"@, opt_slot::<Vec<String>>(m.tags)) + opt_entry("summary"@, opt_str_slot(m.summary)) + opt_entry("description"@, opt_str_slot(m.description)) + opt_entry("externalDocs"@, opt_slot::<ExternalDocumentation>(m.external_docs)) + opt_entry("operationId"@, opt_str_slot(m.operation_id)) + opt_entry("parameters"@, opt_slot::<Vec<Referenceable<Parameter>>>(m.parameters)) + opt_entry("requestBody"@, opt_slot::<Referenceable<RequestBody>>(m.request_body)) + opt_entry("responses"@, req_slot::<Responses>(m.responses)));
        }
        enc_opt::<SortedMap<Referenceable<Callback>>>(&mut out, "callbacks", &self.callbacks);
        proof {
            assert(view_entries(out@) =~= opt_entry("tags"@, opt_slot::<Vec<String>>(m.tags)) + opt_entry("summary"@, opt_str_slot(m.summary)) + opt_entry("description"@, opt_str_slot(m.description)) + opt_entry("externalDocs"@, opt_slot::<ExternalDocumentation>(m.external_docs)) + opt_entry("operationId"@, opt_str_slot(m.operation_id)) + opt_entry("parameters"@, opt_slot::<Vec<Referenceable<Parameter>>>(m.parameters)) + opt_entry("requestBody"@, opt_slot::<Referenceable<RequestBody>>(m.request_body)) + opt_entry("responses"@, req_slot::<Responses>(m.responses)) + opt_entry("callbacks"@, opt_slot::<SortedMap<Referenceable<Callback>>>(m.callbacks)));
        }
        enc_opt_bool(&mut out, "deprecated", &self.deprecated);
        proof {
            assert(view_entries(out@) =~= opt_entry("tags"@, opt_slot::<Vec<String>>(m.tags)) + opt_entry("summary"@, opt_str_slot(m.summary)) + opt_entry("description"@, opt_str_slot(m.description)) + opt_entry("externalDocs"@, opt_slot::<ExternalDocumentation>(m.external_docs)) + opt_entry("operationId"@, opt_str_slot(m.operation_id)) + opt_entry("parameters"@, opt_slot::<Vec<Referenceable<Parameter>>>(m.parameters)) + opt_entry("requestBody"@, opt_slot::<Referenceable<RequestBody>>(m.request_body)) + opt_entry("responses"@, req_slot::<Responses>(m.responses)) + opt_entry("callbacks"@, opt_slot::<SortedMap<Referenceable<Callback>>>(m.callbacks)) + opt_entry("deprecated"@, opt_bool_slot(m.deprecated)));
        }
        enc_opt::<Vec<SecurityRequirement>>(&mut out, "security", &self.security);
        proof {
            assert(view_entries(out@) =~= opt_entry("tags"@, opt_slot::<Vec<String>>(m.tags)) + opt_entry("summary"@, opt_str_slot(m.summary)) + opt_entry("description"@, opt_str_slot(m.description)) + opt_entry("externalDocs"@, opt_slot::<ExternalDocumentation>(m.external_docs)) + opt_entry("operationId"@, opt_str_slot(m.operation_id)) + opt_entry("parameters"@, opt_slot::<Vec<Referenceable<Parameter>>>(m.parameters)) + opt_entry("requestBody"@, opt_slot::<Referenceable<RequestBody>>(m.request_body)) + opt_entry("responses"@, req_slot::<Responses>(m.responses)) + opt_entry("callbacks"@, opt_slot::<SortedMap<Referenceable<Callback>>>(m.callbacks)) + opt_entry("deprecated"@, opt_bool_slot(m.deprecated)) + opt_entry("security"@, opt_slot::<Vec<SecurityRequirement>>(m.security)));
        }
        enc_opt::<Vec<Server>>(&mut out, "servers", &self.servers);
        proof {
            assert(view_entries(out@) =~= opt_entry("tags"@, opt_slot::<Vec<String>>(m.tags)) + opt_entry("summary"@, opt_str_slot(m.summary)) + opt_entry("description"@, opt_str_slot(m.description)) + opt_entry("externalDocs"@, opt_slot::<ExternalDocumentation>(m.external_docs)) + opt_entry("operationId"@, opt_str_slot(m.operation_id)) + opt_entry("parameters"@, opt_slot::<Vec<Referenceable<Parameter>>>(m.parameters)) + opt_entry("requestBody"@, opt_slot::<Referenceable<RequestBody>>(m.request_body)) + opt_entry("responses"@, req_slot::<Responses>(m.responses)) + opt_entry("callbacks"@, opt_slot::<SortedMap<Referenceable<Callback>>>(m.callbacks)) + opt_entry("deprecated"@, opt_bool_slot(m.deprecated)) + opt_entry("security"@, opt_slot::<Vec<SecurityRequirement>>(m.security)) + opt_entry("servers"@, opt_slot::<Vec<Server>>(m.servers)));
        }
        proof {
            lemma_operation_entries(m);
            assert(view_entries(out@) =~= fields_entries(operation_fields(m)));
        }
        Value::Obj(out)
    }
}

/// The encoded entry list of the operation kind, written out field by field.
#[verifier::rlimit(100)]
#[verifier::spinoff_prover]
pub proof fn lemma_operation_entries(m: OperationV) 
    ensures
        fields_entries(operation_fields(m)) == opt_entry("tags"@, opt_slot::<Vec<String>>(m.tags)) + opt_entry("summary"@, opt_str_slot(m.summary)) + opt_entry("description"@, opt_str_slot(m.description)) + opt_entry("externalDocs"@, opt_slot::<ExternalDocumentation>(m.external_docs)) + opt_entry("operationId"@, opt_str_slot(m.operation_id)) + opt_entry("parameters"@, opt_slot::<Vec<Referenceable<Parameter>>>(m.parameters)) + opt_entry("requestBody"@, opt_slot::<Referenceable<RequestBody>>(m.request_body)) + opt_entry("responses"@, req_slot::<Responses>(m.responses)) + opt_entry("callbacks"@, opt_slot::<SortedMap<Referenceable<Callback>>>(m.callbacks)) + opt_entry("deprecated"@, opt_bool_slot(m.deprecated)) + opt_entry("security"@, opt_slot::<Vec<SecurityRequirement>>(m.security)) + opt_entry("servers"@, opt_slot::<Vec<Server>>(m.servers)),
{
    let fs = operation_fields(m);
    assert(fs.len() == 12);
    let fs1 = fs.drop_first();
    assert(fs1[0] == fs[1] && fs1.len() == 11);
    let fs2 = fs1.drop_first();
    assert(fs2[0] == fs[2] && fs2.len() == 10);
    let fs3 = fs2.drop_first();
    assert(fs3[0] == fs[3] && fs3.len() == 9);
    let fs4 = fs3.drop_first();
    assert(fs4[0] == fs[4] && fs4.len() == 8);
    let fs5 = fs4.drop_first();
    assert(fs5[0] == fs[5] && fs5.len() == 7);
    let fs6 = fs5.drop_first();
    assert(fs6[0] == fs[6] && fs6.len() == 6);
    let fs7 = fs6.drop_first();
    assert(fs7[0] == fs[7] && fs7.len() == 5);
    let fs8 = fs7.drop_first();
    assert(fs8[0] == fs[8] && fs8.len() == 4);
    let fs9 = fs8.drop_first();
    assert(fs9[0] == fs[9] && fs9.len() == 3);
    let fs10 = fs9.drop_first();
    assert(fs10[0] == fs[10] && fs10.len() == 2);
    let fs11 = fs10.drop_first();
    assert(fs11[0] == fs[11] && fs11.len() == 1);
    let fs12 = fs11.drop_first();
    assert(fs12.len() == 0);
    assert(fields_entries(fs12) =~= Seq::<(Seq<char>, SpecVal)>::empty());
    assert(fields_entries(fs11) =~= opt_entry(fs[11].0, fs[11].1) + fields_entries(fs12));
    assert(fields_entries(fs10) =~= opt_entry(fs[10].0, fs[10].1) + fields_entries(fs11));
    assert(fields_entries(fs9) =~= opt_entry(fs[9].0, fs[9].1) + fields_entries(fs10));
    assert(fields_entries(fs8) =~= opt_entry(fs[8].0, fs[8].1) + fields_entries(fs9));
    assert(fields_entries(fs7) =~= opt_entry(fs[7].0, fs[7].1) + fields_entries(fs8));
    assert(fields_entries(fs6) =~= opt_entry(fs[6].0, fs[6].1) + fields_entries(fs7));
    assert(fields_entries(fs5) =~= opt_entry(fs[5].0, fs[5].1) + fields_entries(fs6));
    assert(fields_entries(fs4) =~= opt_entry(fs[4].0, fs[4].1) + fields_entries(fs5));
    assert(fields_entries(fs3) =~= opt_entry(fs[3].0, fs[3].1) + fields_entries(fs4));
    assert(fields_entries(fs2) =~= opt_entry(fs[2].0, fs[2].1) + fields_entries(fs3));
    assert(fields_entries(fs1) =~= opt_entry(fs[1].0, fs[1].1) + fields_entries(fs2));
    assert(fields_entries(fs) =~= opt_entry(fs[0].0, fs[0].1) + fields_entries(fs1));
    let e1 = opt_entry("tags"@, opt_slot::<Vec<String>>(m.tags));
    let e2 = opt_entry("summary"@, opt_str_slot(m.summary));
    let e3 = opt_entry("description"@, opt_str_slot(m.description));
    let e4 = opt_entry("externalDocs"@, opt_slot::<ExternalDocumentation>(m.external_docs));
    let e5 = opt_entry("operationId"@, opt_str_slot(m.operation_id));
    let e6 = opt_entry("parameters"@, opt_slot::<Vec<Referenceable<Parameter>>>(m.parameters));
    let e7 = opt_entry("requestBody"@, opt_slot::<Referenceable<RequestBody>>(m.request_body));
    let e8 = opt_entry("responses"@, req_slot::<Responses>(m.responses));
    let e9 = opt_entry("callbacks"@, opt_slot::<SortedMap<Referenceable<Callback>>>(m.callbacks));
    let e10 = opt_entry("deprecated"@, opt_bool_slot(m.deprecated));
    let e11 = opt_entry("security"@, opt_slot::<Vec<SecurityRequirement>>(m.security));
    let e12 = opt_entry("servers"@, opt_slot::<Vec<Server>>(m.servers));
    assert(fields_entries(fs) == e1 + fields_entries(fs1));
    vstd::seq_lib::lemma_concat_associative(e1, e2, fields_entries(fs2));
    assert((e1 + e2) + fields_entries(fs2) == (e1) + (e2 + fields_entries(fs2)));
    vstd::seq_lib::lemma_concat_associative(e1 + e2, e3, fields_entries(fs3));
    assert((e1 + e2 + e3) + fields_entries(fs3) == (e1 + e2) + (e3 + fields_entries(fs3)));
    vstd::seq_lib::lemma_concat_associative(e1 + e2 + e3, e4, fields_entries(fs4));
    assert((e1 + e2 + e3 + e4) + fields_entries(fs4) == (e1 + e2 + e3) + (e4 + fields_entries(fs4)));
    vstd::seq_lib::lemma_concat_associative(e1 + e2 + e3 + e4, e5, fields_entries(fs5));
    assert((e1 + e2 + e3 + e4 + e5) + fields_entries(fs5) == (e1 + e2 + e3 + e4) + (e5 + fields_entries(fs5)));
    vstd::seq_lib::lemma_concat_associative(e1 + e2 + e3 + e4 + e5, e6, fields_entries(fs6));
    assert((e1 + e2 + e3 + e4 + e5 + e6) + fields_entries(fs6) == (e1 + e2 + e3 + e4 + e5) + (e6 + fields_entries(fs6)));
    vstd::seq_lib::lemma_concat_associative(e1 + e2 + e3 + e4 + e5 + e6, e7, fields_entries(fs7));
    assert((e1 + e2 + e3 + e4 + e5 + e6 + e7) + fields_entries(fs7) == (e1 + e2 + e3 + e4 + e5 + e6) + (e7 + fields_entries(fs7)));
    vstd::seq_lib::lemma_concat_associative(e1 + e2 + e3 + e4 + e5 + e6 + e7, e8, fields_entries(fs8));
    assert((e1 + e2 + e3 + e4 + e5 + e6 + e7 + e8) + fields_entries(fs8) == (e1 + e2 + e3 + e4 + e5 + e6 + e7) + (e8 + fields_entries(fs8)));
    vstd::seq_lib::lemma_concat_associative(e1 + e2 + e3 + e4 + e5 + e6 + e7 + e8, e9, fields_entries(fs9));
    assert((e1 + e2 + e3 + e4 + e5 + e6 + e7 + e8 + e9) + fields_entries(fs9) == (e1 + e2 + e3 + e4 + e5 + e6 + e7 + e8) + (e9 + fields_entries(fs9)));
    vstd::seq_lib::lemma_concat_associative(e1 + e2 + e3 + e4 + e5 + e6 + e7 + e8 + e9, e10, fields_entries(fs10));
    assert((e1 + e2 + e3 + e4 + e5 + e6 + e7 + e8 + e9 + e10) + fields_entries(fs10) == (e1 + e2 + e3 + e4 + e5 + e6 + e7 + e8 + e9) + (e10 + fields_entries(fs10)));
    vstd::seq_lib::lemma_concat_associative(e1 + e2 + e3 + e4 + e5 + e6 + e7 + e8 + e9 + e10, e11, fields_entries(fs11));
    assert((e1 + e2 + e3 + e4 + e5 + e6 + e7 + e8 + e9 + e10 + e11) + fields_entries(fs11) == (e1 + e2 + e3 + e4 + e5 + e6 + e7 + e8 + e9 + e10) + (e11 + fields_entries(fs11)));
    vstd::seq_lib::lemma_concat_associative(e1 + e2 + e3 + e4 + e5 + e6 + e7 + e8 + e9 + e10 + e11, e12, fields_entries(fs12));
    assert((e1 + e2 + e3 + e4 + e5 + e6 + e7 + e8 + e9 + e10 + e11 + e12) + fields_entries(fs12) == (e1 + e2 + e3 + e4 + e5 + e6 + e7 + e8 + e9 + e10 + e11) + (e12 + fields_entries(fs12)));
    assert((e1 + e2 + e3 + e4 + e5 + e6 + e7 + e8 + e9 + e10 + e11 + e12) + fields_entries(fs12) =~= e1 + e2 + e3 + e4 + e5 + e6 + e7 + e8 + e9 + e10 + e11 + e12);
    assert(fields_entries(fs) == e1 + e2 + e3 + e4 + e5 + e6 + e7 + e8 + e9 + e10 + e11 + e12);
}

/// The operations available on a single path.
#[derive(Debug, Clone)]
pub struct PathItem {
    pub _ref: Option<String>,
    pub summary: Option<String>,
    pub description: Option<String>,
    pub get: Option<Operation>,
    pub put: Option<Operation>,
    pub post: Option<Operation>,
    pub delete: Option<Operation>,
    pub options: Option<Operation>,
    pub head: Option<Operation>,
    pub patch: Option<Operation>,
    pub trace: Option<Operation>,
    pub servers: Option<Vec<Server>>,
    pub parameters: Option<Vec<Referenceable<Parameter>>>,
}

/// The model of a `PathItem`.
pub struct PathItemV {
    pub _ref: Option<Seq<char>>,
    pub summary: Option<Seq<char>>,
    pub description: Option<Seq<char>>,
    pub get: Option<OperationV>,
    pub put: Option<OperationV>,
    pub post: Option<OperationV>,
    pub delete: Option<OperationV>,
    pub options: Option<OperationV>,
    pub head: Option<OperationV>,
    pub patch: Option<OperationV>,
    pub trace: Option<OperationV>,
    pub servers: Option<Seq<ServerV>>,
    pub parameters: Option<Seq<ReferenceableV<ParameterV>>>,
}

impl DeepView for PathItem {
    type V = PathItemV;

    open spec fn deep_view(&self) -> PathItemV {
        PathItemV {
            _ref: self._ref.deep_view(),
            summary: self.summary.deep_view(),
            description: self.description.deep_view(),
            get: self.get.deep_view(),
            put: self.put.deep_view(),
            post: self.post.deep_view(),
            delete: self.delete.deep_view(),
            options: self.options.deep_view(),
            head: self.head.deep_view(),
            patch: self.patch.deep_view(),
            trace: self.trace.deep_view(),
            servers: self.servers.deep_view(),
            parameters: self.parameters.deep_view(),
        }
    }
}

/// The declared fields of the pathitem kind, in schema order.
pub open spec fn pathitem_fields(m: PathItemV) -> FieldImage {
    seq![
        ("$ref"@, opt_str_slot(m._ref)),
        ("summary"@, opt_str_slot(m.summary)),
        ("description"@, opt_str_slot(m.description)),
        ("get"@, opt_slot::<Operation>(m.get)),
        ("put"@, opt_slot::<Operation>(m.put)),
        ("post"@, opt_slot::<Operation>(m.post)),
        ("delete"@, opt_slot::<Operation>(m.delete)),
        ("options"@, opt_slot::<Operation>(m.options)),
        ("head"@, opt_slot::<Operation>(m.head)),
        ("patch"@, opt_slot::<Operation>(m.patch)),
        ("trace"@, opt_slot::<Operation>(m.trace)),
        ("servers"@, opt_slot::<Vec<Server>>(m.servers)),
        ("parameters"@, opt_slot::<Vec<Referenceable<Parameter>>>(m.parameters)),
    ]
}

impl Codec for PathItem {
    open spec fn spec_decode(v: SpecVal) -> Option<PathItemV> {
        match v {
            SpecVal::Obj(es) => {
                if sd_opt_str(es, "$ref"@) is Some && sd_opt_str(es, "summary"@) is Some && sd_opt_str(es, "description"@) is Some && sd_opt::<Operation>(es, "get"@) is Some && sd_opt::<Operation>(es, "put"@) is Some && sd_opt::<Operation>(es, "post"@) is Some && sd_opt::<Operation>(es, "delete"@) is Some && sd_opt::<Operation>(es, "options"@) is Some && sd_opt::<Operation>(es, "head"@) is Some && sd_opt::<Operation>(es, "patch"@) is Some && sd_opt::<Operation>(es, "trace"@) is Some && sd_opt::<Vec<Server>>(es, "servers"@) is Some && sd_opt::<Vec<Referenceable<Parameter>>>(es, "parameters"@) is Some {
                    Some(
                        PathItemV {
                            _ref: sd_opt_str(es, "$ref"@)->0,
                            summary: sd_opt_str(es, "summary"@)->0,
                            description: sd_opt_str(es, "description"@)->0,
                            get: sd_opt::<Operation>(es, "get"@)->0,
                            put: sd_opt::<Operation>(es, "put"@)->0,
                            post: sd_opt::<Operation>(es, "post"@)->0,
                            delete: sd_opt::<Operation>(es, "delete"@)->0,
                            options: sd_opt::<Operation>(es, "options"@)->0,
                            head: sd_opt::<Operation>(es, "head"@)->0,
                            patch: sd_opt::<Operation>(es, "patch"@)->0,
                            trace: sd_opt::<Operation>(es, "trace"@)->0,
                            servers: sd_opt::<Vec<Server>>(es, "servers"@)->0,
                            parameters: sd_opt::<Vec<Referenceable<Parameter>>>(es, "parameters"@)->0,
                        },
                    )
                } else {
                    None
                }
            },
            _ => None,
        }
    }

    open spec fn spec_encode(m: PathItemV) -> SpecVal {
        SpecVal::Obj(fields_entries(pathitem_fields(m)))
    }

    open spec fn model_wf(m: PathItemV) -> bool {
        (match m.get {
            Some(t) => Operation::model_wf(t),
            None => true,
        }) && (match m.put {
            Some(t) => Operation::model_wf(t),
            None => true,
        }) && (match m.post {
            Some(t) => Operation::model_wf(t),
            None => true,
        }) && (match m.delete {
            Some(t) => Operation::model_wf(t),
            None => true,
        }) && (match m.options {
            Some(t) => Operation::model_wf(t),
            None => true,
        }) && (match m.head {
            Some(t) => Operation::model_wf(t),
            None => true,
        }) && (match m.patch {
            Some(t) => Operation::model_wf(t),
            None => true,
        }) && (match m.trace {
            Some(t) => Operation::model_wf(t),
            None => true,
        }) && (match m.servers {
            Some(t) => Vec::<Server>::model_wf(t),
            None => true,
        }) && (match m.parameters {
            Some(t) => Vec::<Referenceable<Parameter>>::model_wf(t),
            None => true,
        })
    }

    open spec fn sentinel_free(m: PathItemV) -> bool {
        m._ref is None
    }

    #[verifier::rlimit(100)]
    #[verifier::spinoff_prover]
    proof fn lemma_codec(m: PathItemV) {
        reveal_strlit("$ref");
        reveal_strlit("summary");
        reveal_strlit("description");
        reveal_strlit("get");
        reveal_strlit("put");
        reveal_strlit("post");
        reveal_strlit("delete");
        reveal_strlit("options");
        reveal_strlit("head");
        reveal_strlit("patch");
        reveal_strlit("trace");
        reveal_strlit("servers");
        reveal_strlit("parameters");
        reveal_strlit("$ref");
        let fs = pathitem_fields(m);
        assert(fs[0].0 == "$ref"@);
        assert(fs[1].0 == "summary"@);
        assert(fs[2].0 == "description"@);
        assert(fs[3].0 == "get"@);
        assert(fs[4].0 == "put"@);
        assert(fs[5].0 == "post"@);
        assert(fs[6].0 == "delete"@);
        assert(fs[7].0 == "options"@);
        assert(fs[8].0 == "head"@);
        assert(fs[9].0 == "patch"@);
        assert(fs[10].0 == "trace"@);
        assert(fs[11].0 == "servers"@);
        assert(fs[12].0 == "parameters"@);
        assert(("$ref"@)[0] == '$');
        assert(("post"@)[0] == 'p');
        assert(("head"@)[0] == 'h');
        assert(("summary"@)[0] == 's');
        assert(("options"@)[0] == 'o');
        assert(("summary"@)[1] == 'u');
        assert(("servers"@)[1] == 'e');
        assert(("get"@)[0] == 'g');
        assert(("put"@)[0] == 'p');
        assert(("servers"@)[0] == 's');
        assert(("patch"@)[0] == 'p');
        assert(("trace"@)[0] == 't');
        assert("$ref"@ != "summary"@ && "$ref"@ != "description"@ && "$ref"@ != "get"@);
        assert("$ref"@ != "put"@ && "$ref"@ != "post"@ && "$ref"@ != "delete"@);
        assert("$ref"@ != "options"@ && "$ref"@ != "head"@ && "$ref"@ != "patch"@);
        assert("$ref"@ != "trace"@ && "$ref"@ != "servers"@ && "$ref"@ != "parameters"@);
        assert("summary"@ != "description"@ && "summary"@ != "get"@ && "summary"@ != "put"@);
        assert("summary"@ != "post"@ && "summary"@ != "delete"@ && "summary"@ != "options"@);
        assert("summary"@ != "head"@ && "summary"@ != "patch"@ && "summary"@ != "trace"@);
        assert("summary"@ != "servers"@ && "summary"@ != "parameters"@ && "description"@ != "get"@);
        assert("description"@ != "put"@ && "description"@ != "post"@ && "description"@ != "delete"@);
        assert("description"@ != "options"@ && "description"@ != "head"@ && "description"@ != "patch"@);
        assert("description"@ != "trace"@ && "description"@ != "servers"@ && "description"@ != "parameters"@);
        assert("get"@ != "put"@ && "get"@ != "post"@ && "get"@ != "delete"@);
        assert("get"@ != "options"@ && "get"@ != "head"@ && "get"@ != "patch"@);
        assert("get"@ != "trace"@ && "get"@ != "servers"@ && "get"@ != "parameters"@);
        assert("put"@ != "post"@ && "put"@ != "delete"@ && "put"@ != "options"@);
        assert("put"@ != "head"@ && "put"@ != "patch"@ && "put"@ != "trace"@);
        assert("put"@ != "servers"@ && "put"@ != "parameters"@ && "post"@ != "delete"@);
        assert("post"@ != "options"@ && "post"@ != "head"@ && "post"@ != "patch"@);
        assert("post"@ != "trace"@ && "post"@ != "servers"@ && "post"@ != "parameters"@);
        assert("delete"@ != "options"@ && "delete"@ != "head"@ && "delete"@ != "patch"@);
        assert("delete"@ != "trace"@ && "delete"@ != "servers"@ && "delete"@ != "parameters"@);
        assert("options"@ != "head"@ && "options"@ != "patch"@ && "options"@ != "trace"@);
        assert("options"@ != "servers"@ && "options"@ != "parameters"@ && "head"@ != "patch"@);
        assert("head"@ != "trace"@ && "head"@ != "servers"@ && "head"@ != "parameters"@);
        assert("patch"@ != "trace"@ && "patch"@ != "servers"@ && "patch"@ != "parameters"@);
        assert("trace"@ != "servers"@ && "trace"@ != "parameters"@ && "servers"@ != "parameters"@);
        assert("summary"@ != "$ref"@ && "description"@ != "$ref"@ && "get"@ != "$ref"@);
        assert("put"@ != "$ref"@ && "post"@ != "$ref"@ && "delete"@ != "$ref"@);
        assert("options"@ != "$ref"@ && "head"@ != "$ref"@ && "patch"@ != "$ref"@);
        assert("trace"@ != "$ref"@ && "servers"@ != "$ref"@ && "parameters"@ != "$ref"@);
        assert(distinct_names(fs));
        if m.get is Some {
            Operation::lemma_codec(m.get->0);
        }
        if m.put is Some {
            Operation::lemma_codec(m.put->0);
        }
        if m.post is Some {
            Operation::lemma_codec(m.post->0);
        }
        if m.delete is Some {
            Operation::lemma_codec(m.delete->0);
        }
        if m.options is Some {
            Operation::lemma_codec(m.options->0);
        }
        if m.head is Some {
            Operation::lemma_codec(m.head->0);
        }
        if m.patch is Some {
            Operation::lemma_codec(m.patch->0);
        }
        if m.trace is Some {
            Operation::lemma_codec(m.trace->0);
        }
        if m.servers is Some {
            Vec::<Server>::lemma_codec(m.servers->0);
        }
        if m.parameters is Some {
            Vec::<Referenceable<Parameter>>::lemma_codec(m.parameters->0);
        }
        assert(match fs[0].1 {
            Some(sv) => wf_val(sv),
            None => true,
        });
        assert(match fs[1].1 {
            Some(sv) => wf_val(sv),
            None => true,
        });
        assert(match fs[2].1 {
            Some(sv) => wf_val(sv),
            None => true,
        });
        assert(match fs[3].1 {
            Some(sv) => wf_val(sv),
            None => true,
        });
        assert(match fs[4].1 {
            Some(sv) => wf_val(sv),
            None => true,
        });
        assert(match fs[5].1 {
            Some(sv) => wf_val(sv),
            None => true,
        });
        assert(match fs[6].1 {
            Some(sv) => wf_val(sv),
            None => true,
        });
        assert(match fs[7].1 {
            Some(sv) => wf_val(sv),
            None => true,
        });
        assert(match fs[8].1 {
            Some(sv) => wf_val(sv),
            None => true,
        });
        assert(match fs[9].1 {
            Some(sv) => wf_val(sv),
            None => true,
        });
        assert(match fs[10].1 {
            Some(sv) => wf_val(sv),
            None => true,
        });
        assert(match fs[11].1 {
            Some(sv) => wf_val(sv),
            None => true,
        });
        assert(match fs[12].1 {
            Some(sv) => wf_val(sv),
            None => true,
        });
        lemma_record_obj(fs, Seq::empty(), ref_key());
        let es = fields_entries(fs) + Seq::<(Seq<char>, SpecVal)>::empty();
        assert(es =~= fields_entries(fs));
        assert(obj_get(es, "$ref"@) == opt_str_slot(m._ref));
        assert(obj_get(es, "summary"@) == opt_str_slot(m.summary));
        assert(obj_get(es, "description"@) == opt_str_slot(m.description));
        assert(obj_get(es, "get"@) == opt_slot::<Operation>(m.get));
        assert(obj_get(es, "put"@) == opt_slot::<Operation>(m.put));
        assert(obj_get(es, "post"@) == opt_slot::<Operation>(m.post));
        assert(obj_get(es, "delete"@) == opt_slot::<Operation>(m.delete));
        assert(obj_get(es, "options"@) == opt_slot::<Operation>(m.options));
        assert(obj_get(es, "head"@) == opt_slot::<Operation>(m.head));
        assert(obj_get(es, "patch"@) == opt_slot::<Operation>(m.patch));
        assert(obj_get(es, "trace"@) == opt_slot::<Operation>(m.trace));
        assert(obj_get(es, "servers"@) == opt_slot::<Vec<Server>>(m.servers));
        assert(obj_get(es, "parameters"@) == opt_slot::<Vec<Referenceable<Parameter>>>(m.parameters));
    }

    proof fn lemma_decode_wf(v: SpecVal) {
        let es = v->Obj_0;
        assert(forall|i: int| 0 <= i < es.len() ==> wf_val(#[trigger] es[i].1));
        if obj_get(es, "get"@) is Some {
            lemma_get_wf(es, "get"@);
            Operation::lemma_decode_wf(obj_get(es, "get"@)->0);
        }
        if obj_get(es, "put"@) is Some {
            lemma_get_wf(es, "put"@);
            Operation::lemma_decode_wf(obj_get(es, "put"@)->0);
        }
        if obj_get(es, "post"@) is Some {
            lemma_get_wf(es, "post"@);
            Operation::lemma_decode_wf(obj_get(es, "post"@)->0);
        }
        if obj_get(es, "delete"@) is Some {
            lemma_get_wf(es, "delete"@);
            Operation::lemma_decode_wf(obj_get(es, "delete"@)->0);
        }
        if obj_get(es, "options"@) is Some {
            lemma_get_wf(es, "options"@);
            Operation::lemma_decode_wf(obj_get(es, "options"@)->0);
        }
        if obj_get(es, "head"@) is Some {
            lemma_get_wf(es, "head"@);
            Operation::lemma_decode_wf(obj_get(es, "head"@)->0);
        }
        if obj_get(es, "patch"@) is Some {
            lemma_get_wf(es, "patch"@);
            Operation::lemma_decode_wf(obj_get(es, "patch"@)->0);
        }
        if obj_get(es, "trace"@) is Some {
            lemma_get_wf(es, "trace"@);
            Operation::lemma_decode_wf(obj_get(es, "trace"@)->0);
        }
        if obj_get(es, "servers"@) is Some {
            lemma_get_wf(es, "servers"@);
            Vec::<Server>::lemma_decode_wf(obj_get(es, "servers"@)->0);
        }
        if obj_get(es, "parameters"@) is Some {
            lemma_get_wf(es, "parameters"@);
            Vec::<Referenceable<Parameter>>::lemma_decode_wf(obj_get(es, "parameters"@)->0);
        }
    }

    proof fn lemma_decode_sentinel(v: SpecVal) {
        let es = v->Obj_0;
        assert(obj_get(es, "$ref"@) is None);
        assert(sd_opt_str(es, "$ref"@) == Some(None::<Seq<char>>));
    }

    /// Beyond the inherited exactness contract: which error kind comes
    /// back, field by field in declared order.
    fn decode(v: &Value) -> (r: Result<Self, DecodeError>)
        ensures
            !(v.deep_view() is Obj) ==> (r matches Err(e) && e is TypeMismatch),
            (v.deep_view() matches SpecVal::Obj(es) && (match obj_get(es, "$ref"@) {
                Some(sv) => !(sv is Str),
                None => false,
            })) ==> (r matches Err(e) && e is TypeMismatch),
            (v.deep_view() matches SpecVal::Obj(es) && sd_opt_str(es, "$ref"@) is Some && (match obj_get(es, "summary"@) {
                Some(sv) => !(sv is Str),
                None => false,
            })) ==> (r matches Err(e) && e is TypeMismatch),
            (v.deep_view() matches SpecVal::Obj(es) && sd_opt_str(es, "$ref"@) is Some && sd_opt_str(es, "summary"@) is Some && (match obj_get(es, "description"@) {
                Some(sv) => !(sv is Str),
                None => false,
            })) ==> (r matches Err(e) && e is TypeMismatch),
    {
        match v {
            Value::Obj(entries) => {
                let _ref = match dec_opt_str(entries, "$ref", "PathItem") {
                    Ok(x) => x,
                    Err(e) => return Err(e),
                };
                let summary = match dec_opt_str(entries, "summary", "PathItem") {
                    Ok(x) => x,
                    Err(e) => return Err(e),
                };
                let description = match dec_opt_str(entries, "description", "PathItem") {
                    Ok(x) => x,
                    Err(e) => return Err(e),
                };
                let get = match dec_opt::<Operation>(entries, "get") {
                    Ok(x) => x,
                    Err(e) => return Err(e),
                };
                let put = match dec_opt::<Operation>(entries, "put") {
                    Ok(x) => x,
                    Err(e) => return Err(e),
                };
                let post = match dec_opt::<Operation>(entries, "post") {
                    Ok(x) => x,
                    Err(e) => return Err(e),
                };
                let delete = match dec_opt::<Operation>(entries, "delete") {
                    Ok(x) => x,
                    Err(e) => return Err(e),
                };
                let options = match dec_opt::<Operation>(entries, "options") {
                    Ok(x) => x,
                    Err(e) => return Err(e),
                };
                let head = match dec_opt::<Operation>(entries, "head") {
                    Ok(x) => x,
                    Err(e) => return Err(e),
                };
                let patch = match dec_opt::<Operation>(entries, "patch") {
                    Ok(x) => x,
                    Err(e) => return Err(e),
                };
                let trace = match dec_opt::<Operation>(entries, "trace") {
                    Ok(x) => x,
                    Err(e) => return Err(e),
                };
                let servers = match dec_opt::<Vec<Server>>(entries, "servers") {
                    Ok(x) => x,
                    Err(e) => return Err(e),
                };
                let parameters = match dec_opt::<Vec<Referenceable<Parameter>>>(entries, "parameters") {
                    Ok(x) => x,
                    Err(e) => return Err(e),
                };
                let out = PathItem { _ref, summary, description, get, put, post, delete, options, head, patch, trace, servers, parameters };
                proof {
                    if wf_val(v.deep_view()) {
                        Self::lemma_decode_wf(v.deep_view());
                    }
                }
                Ok(out)
            },
            _ => Err(
                DecodeError::TypeMismatch {
                    field: "".to_owned(),
                    kind: "PathItem".to_owned(),
                    expected: "object".to_owned(),
                },
            ),
        }
    }

    #[verifier::rlimit(100)]
    #[verifier::spinoff_prover]
    fn encode(&self) -> (r: Value) {
        let mut out: Vec<(String, Value)> = Vec::new();
        let ghost m = self.deep_view();
        enc_opt_str(&mut out, "$ref", &self._ref);
        proof {
            assert(view_entries(out@) =~= opt_entry("$ref"@, opt_str_slot(m._ref)));
        }
        enc_opt_str(&mut out, "summary", &self.summary);
        proof {
            assert(view_entries(out@) =~= opt_entry("$ref"@, opt_str_slot(m._ref)) + opt_entry("summary"@, opt_str_slot(m.summary)));
        }
        enc_opt_str(&mut out, "description", &self.description);
        proof {
            assert(view_entries(out@) =~= opt_entry("$ref"@, opt_str_slot(m._ref)) + opt_entry("summary"@, opt_str_slot(m.summary)) + opt_entry("description"@, opt_str_slot(m.description)));
        }
        enc_opt::<Operation>(&mut out, "get", &self.get);
        proof {
            assert(view_entries(out@) =~= opt_entry("$ref"@, opt_str_slot(m._ref)) + opt_entry("summary"@, opt_str_slot(m.summary)) + opt_entry("description"@, opt_str_slot(m.description)) + opt_entry("get"@, opt_slot::<Operation>(m.get)));
        }
        enc_opt::<Operation>(&mut out, "put", &self.put);
        proof {
            assert(view_entries(out@) =~= opt_entry("$ref"@, opt_str_slot(m._ref)) + opt_entry("summary"@, opt_str_slot(m.summary)) + opt_entry("description"@, opt_str_slot(m.description)) + opt_entry("get"@, opt_slot::<Operation>(m.get)) + opt_entry("put"@, opt_slot::<Operation>(m.put)));
        }
        enc_opt::<Operation>(&mut out, "post", &self.post);
        proof {
            assert(view_entries(out@) =~= opt_entry("$ref"@, opt_str_slot(m._ref)) + opt_entry("summary"@, opt_str_slot(m.summary)) + opt_entry("description"@, opt_str_slot(m.description)) + opt_entry("get"@, opt_slot::<Operation>(m.get)) + opt_entry("put"@, opt_slot::<Operation>(m.put)) + opt_entry("post"@, opt_slot::<Operation>(m.post)));
        }
        enc_opt::<Operation>(&mut out, "delete", &self.delete);
        proof {
            assert(view_entries(out@) =~= opt_entry("$ref"@, opt_str_slot(m._ref)) + opt_entry("summary"@, opt_str_slot(m.summary)) + opt_entry("description"@, opt_str_slot(m.description)) + opt_entry("get"@, opt_slot::<Operation>(m.get)) + opt_entry("put"@, opt_slot::<Operation>(m.put)) + opt_entry("post"@, opt_slot::<Operation>(m.post)) + opt_entry("delete"@, opt_slot::<Operation>(m.delete)));
        }
        enc_opt::<Operation>(&mut out, "options", &self.options);
        proof {
            assert(view_entries(out@) =~= opt_entry("$ref"@, opt_str_slot(m._ref)) + opt_entry("summary"@, opt_str_slot(m.summary)) + opt_entry("description"@, opt_str_slot(m.description)) + opt_entry("get"@, opt_slot::<Operation>(m.get)) + opt_entry("put"@, opt_slot::<Operation>(m.put)) + opt_entry("post"@, opt_slot::<Operation>(m.post)) + opt_entry("delete"@, opt_slot::<Operation>(m.delete)) + opt_entry("options"@, opt_slot::<Operation>(m.options)));
        }
        enc_opt::<Operation>(&mut out, "head", &self.head);
        proof {
            assert(view_entries(out@) =~= opt_entry("$ref"@, opt_str_slot(m._ref)) + opt_entry("summary"@, opt_str_slot(m.summary)) + opt_entry("description"@, opt_str_slot(m.description)) + opt_entry("get"@, opt_slot::<Operation>(m.get)) + opt_entry("put"@, opt_slot::<Operation>(m.put)) + opt_entry("post"@, opt_slot::<Operation>(m.post)) + opt_entry("delete"@, opt_slot::<Operation>(m.delete)) + opt_entry("options"@, opt_slot::<Operation>(m.options)) + opt_entry("head"@, opt_slot::<Operation>(m.head)));
        }
        enc_opt::<Operation>(&mut out, "patch", &self.patch);
        proof {
            assert(view_entries(out@) =~= opt_entry("$ref"@, opt_str_slot(m._ref)) + opt_entry("summary"@, opt_str_slot(m.summary)) + opt_entry("description"@, opt_str_slot(m.description)) + opt_entry("get"@, opt_slot::<Operation>(m.get)) + opt_entry("put"@, opt_slot::<Operation>(m.put)) + opt_entry("post"@, opt_slot::<Operation>(m.post)) + opt_entry("delete"@, opt_slot::<Operation>(m.delete)) + opt_entry("options"@, opt_slot::<Operation>(m.options)) + opt_entry("head"@, opt_slot::<Operation>(m.head)) + opt_entry("patch"@, opt_slot::<Operation>(m.patch)));
        }
        enc_opt::<Operation>(&mut out, "trace", &self.trace);
        proof {
            assert(view_entries(out@) =~= opt_entry("$ref"@, opt_str_slot(m._ref)) + opt_entry("summary"@, opt_str_slot(m.summary)) + opt_entry("description"@, opt_str_slot(m.description)) + opt_entry("get"@, opt_slot::<Operation>(m.get)) + opt_entry("put"@, opt_slot::<Operation>(m.put)) + opt_entry("post"@, opt_slot::<Operation>(m.post)) + opt_entry("delete"@, opt_slot::<Operation>(m.delete)) + opt_entry("options"@, opt_slot::<Operation>(m.options)) + opt_entry("head"@, opt_slot::<Operation>(m.head)) + opt_entry("patch"@, opt_slot::<Operation>(m.patch)) + opt_entry("trace"@, opt_slot::<Operation>(m.trace)));
        }
        enc_opt::<Vec<Server>>(&mut out, "servers", &self.servers);
        proof {
            assert(view_entries(out@) =~= opt_entry("$ref"@, opt_str_slot(m._ref)) + opt_entry("summary"@, opt_str_slot(m.summary)) + opt_entry("description"@, opt_str_slot(m.description)) + opt_entry("get"@, opt_slot::<Operation>(m.get)) + opt_entry("put"@, opt_slot::<Operation>(m.put)) + opt_entry("post"@, opt_slot::<Operation>(m.post)) + opt_entry("delete"@, opt_slot::<Operation>(m.delete)) + opt_entry("options"@, opt_slot::<Operation>(m.options)) + opt_entry("head"@, opt_slot::<Operation>(m.head)) + opt_entry("patch"@, opt_slot::<Operation>(m.patch)) + opt_entry("trace"@, opt_slot::<Operation>(m.trace)) + opt_entry("servers"@, opt_slot::<Vec<Server>>(m.servers)));
        }
        enc_opt::<Vec<Referenceable<Parameter>>>(&mut out, "parameters", &self.parameters);
        proof {
            assert(view_entries(out@) =~= opt_entry("$ref"@, opt_str_slot(m._ref)) + opt_entry("summary"@, opt_str_slot(m.summary)) + opt_entry("description"@, opt_str_slot(m.description)) + opt_entry("get"@, opt_slot::<Operation>(m.get)) + opt_entry("put"@, opt_slot::<Operation>(m.put)) + opt_entry("post"@, opt_slot::<Operation>(m.post)) + opt_entry("delete"@, opt_slot::<Operation>(m.delete)) + opt_entry("options"@, opt_slot::<Operation>(m.options)) + opt_entry("head"@, opt_slot::<Operation>(m.head)) + opt_entry("patch"@, opt_slot::<Operation>(m.patch)) + opt_entry("trace"@, opt_slot::<Operation>(m.trace)) + opt_entry("servers"@, opt_slot::<Vec<Server>>(m.servers)) + opt_entry("parameters"@, opt_slot::<Vec<Referenceable<Parameter>>>(m.parameters)));
        }
        proof {
            lemma_pathitem_entries(m);
            assert(view_entries(out@) =~= fields_entries(pathitem_fields(m)));
        }
        Value::Obj(out)
    }
}

/// The encoded entry list of the pathitem kind, written out field by field.
#[verifier::rlimit(100)]
#[verifier::spinoff_prover]
pub proof fn lemma_pathitem_entries(m: PathItemV) 
    ensures
        fields_entries(pathitem_fields(m)) == opt_entry("$ref"@, opt_str_slot(m._ref)) + opt_entry("summary"@, opt_str_slot(m.summary)) + opt_entry("description"@, opt_str_slot(m.description)) + opt_entry("get"@, opt_slot::<Operation>(m.get)) + opt_entry("put"@, opt_slot::<Operation>(m.put)) + opt_entry("post"@, opt_slot::<Operation>(m.post)) + opt_entry("delete"@, opt_slot::<Operation>(m.delete)) + opt_entry("options"@, opt_slot::<Operation>(m.options)) + opt_entry("head"@, opt_slot::<Operation>(m.head)) + opt_entry("patch"@, opt_slot::<Operation>(m.patch)) + opt_entry("trace"@, opt_slot::<Operation>(m.trace)) + opt_entry("servers"@, opt_slot::<Vec<Server>>(m.servers)) + opt_entry("parameters"@, opt_slot::<Vec<Referenceable<Parameter>>>(m.parameters)),
{
    let fs = pathitem_fields(m);
    assert(fs.len() == 13);
    let fs1 = fs.drop_first();
    assert(fs1[0] == fs[1] && fs1.len() == 12);
    let fs2 = fs1.drop_first();
    assert(fs2[0] == fs[2] && fs2.len() == 11);
    let fs3 = fs2.drop_first();
    assert(fs3[0] == fs[3] && fs3.len() == 10);
    let fs4 = fs3.drop_first();
    assert(fs4[0] == fs[4] && fs4.len() == 9);
    let fs5 = fs4.drop_first();
    assert(fs5[0] == fs[5] && fs5.len() == 8);
    let fs6 = fs5.drop_first();
    assert(fs6[0] == fs[6] && fs6.len() == 7);
    let fs7 = fs6.drop_first();
    assert(fs7[0] == fs[7] && fs7.len() == 6);
    let fs8 = fs7.drop_first();
    assert(fs8[0] == fs[8] && fs8.len() == 5);
    let fs9 = fs8.drop_first();
    assert(fs9[0] == fs[9] && fs9.len() == 4);
    let fs10 = fs9.drop_first();
    assert(fs10[0] == fs[10] && fs10.len() == 3);
    let fs11 = fs10.drop_first();
    assert(fs11[0] == fs[11] && fs11.len() == 2);
    let fs12 = fs11.drop_first();
    assert(fs12[0] == fs[12] && fs12.len() == 1);
    let fs13 = fs12.drop_first();
    assert(fs13.len() == 0);
    assert(fields_entries(fs13) =~= Seq::<(Seq<char>, SpecVal)>::empty());
    assert(fields_entries(fs12) =~= opt_entry(fs[12].0, fs[12].1) + fields_entries(fs13));
    assert(fields_entries(fs11) =~= opt_entry(fs[11].0, fs[11].1) + fields_entries(fs12));
    assert(fields_entries(fs10) =~= opt_entry(fs[10].0, fs[10].1) + fields_entries(fs11));
    assert(fields_entries(fs9) =~= opt_entry(fs[9].0, fs[9].1) + fields_entries(fs10));
    assert(fields_entries(fs8) =~= opt_entry(fs[8].0, fs[8].1) + fields_entries(fs9));
    assert(fields_entries(fs7) =~= opt_entry(fs[7].0, fs[7].1) + fields_entries(fs8));
    assert(fields_entries(fs6) =~= opt_entry(fs[6].0, fs[6].1) + fields_entries(fs7));
    assert(fields_entries(fs5) =~= opt_entry(fs[5].0, fs[5].1) + fields_entries(fs6));
    assert(fields_entries(fs4) =~= opt_entry(fs[4].0, fs[4].1) + fields_entries(fs5));
    assert(fields_entries(fs3) =~= opt_entry(fs[3].0, fs[3].1) + fields_entries(fs4));
    assert(fields_entries(fs2) =~= opt_entry(fs[2].0, fs[2].1) + fields_entries(fs3));
    assert(fields_entries(fs1) =~= opt_entry(fs[1].0, fs[1].1) + fields_entries(fs2));
    assert(fields_entries(fs) =~= opt_entry(fs[0].0, fs[0].1) + fields_entries(fs1));
    let e1 = opt_entry("$ref"@, opt_str_slot(m._ref));
    let e2 = opt_entry("summary"@, opt_str_slot(m.summary));
    let e3 = opt_entry("description"@, opt_str_slot(m.description));
    let e4 = opt_entry("get"@, opt_slot::<Operation>(m.get));
    let e5 = opt_entry("put"@, opt_slot::<Operation>(m.put));
    let e6 = opt_entry("post"@, opt_slot::<Operation>(m.post));
    let e7 = opt_entry("delete"@, opt_slot::<Operation>(m.delete));
    let e8 = opt_entry("options"@, opt_slot::<Operation>(m.options));
    let e9 = opt_entry("head"@, opt_slot::<Operation>(m.head));
    let e10 = opt_entry("patch"@, opt_slot::<Operation>(m.patch));
    let e11 = opt_entry("trace"@, opt_slot::<Operation>(m.trace));
    let e12 = opt_entry("servers"@, opt_slot::<Vec<Server>>(m.servers));
    let e13 = opt_entry("parameters"@, opt_slot::<Vec<Referenceable<Parameter>>>(m.parameters));
    assert(fields_entries(fs) == e1 + fields_entries(fs1));
    vstd::seq_lib::lemma_concat_associative(e1, e2, fields_entries(fs2));
    assert((e1 + e2) + fields_entries(fs2) == (e1) + (e2 + fields_entries(fs2)));
    vstd::seq_lib::lemma_concat_associative(e1 + e2, e3, fields_entries(fs3));
    assert((e1 + e2 + e3) + fields_entries(fs3) == (e1 + e2) + (e3 + fields_entries(fs3)));
    vstd::seq_lib::lemma_concat_associative(e1 + e2 + e3, e4, fields_entries(fs4));
    assert((e1 + e2 + e3 + e4) + fields_entries(fs4) == (e1 + e2 + e3) + (e4 + fields_entries(fs4)));
    vstd::seq_lib::lemma_concat_associative(e1 + e2 + e3 + e4, e5, fields_entries(fs5));
    assert((e1 + e2 + e3 + e4 + e5) + fields_entries(fs5) == (e1 + e2 + e3 + e4) + (e5 + fields_entries(fs5)));
    vstd::seq_lib::lemma_concat_associative(e1 + e2 + e3 + e4 + e5, e6, fields_entries(fs6));
    assert((e1 + e2 + e3 + e4 + e5 + e6) + fields_entries(fs6) == (e1 + e2 + e3 + e4 + e5) + (e6 + fields_entries(fs6)));
    vstd::seq_lib::lemma_concat_associative(e1 + e2 + e3 + e4 + e5 + e6, e7, fields_entries(fs7));
    assert((e1 + e2 + e3 + e4 + e5 + e6 + e7) + fields_entries(fs7) == (e1 + e2 + e3 + e4 + e5 + e6) + (e7 + fields_entries(fs7)));
    vstd::seq_lib::lemma_concat_associative(e1 + e2 + e3 + e4 + e5 + e6 + e7, e8, fields_entries(fs8));
    assert((e1 + e2 + e3 + e4 + e5 + e6 + e7 + e8) + fields_entries(fs8) == (e1 + e2 + e3 + e4 + e5 + e6 + e7) + (e8 + fields_entries(fs8)));
    vstd::seq_lib::lemma_concat_associative(e1 + e2 + e3 + e4 + e5 + e6 + e7 + e8, e9, fields_entries(fs9));
    assert((e1 + e2 + e3 + e4 + e5 + e6 + e7 + e8 + e9) + fields_entries(fs9) == (e1 + e2 + e3 + e4 + e5 + e6 + e7 + e8) + (e9 + fields_entries(fs9)));
    vstd::seq_lib::lemma_concat_associative(e1 + e2 + e3 + e4 + e5 + e6 + e7 + e8 + e9, e10, fields_entries(fs10));
    assert((e1 + e2 + e3 + e4 + e5 + e6 + e7 + e8 + e9 + e10) + fields_entries(fs10) == (e1 + e2 + e3 + e4 + e5 + e6 + e7 + e8 + e9) + (e10 + fields_entries(fs10)));
    vstd::seq_lib::lemma_concat_associative(e1 + e2 + e3 + e4 + e5 + e6 + e7 + e8 + e9 + e10, e11, fields_entries(fs11));
    assert((e1 + e2 + e3 + e4 + e5 + e6 + e7 + e8 + e9 + e10 + e11) + fields_entries(fs11) == (e1 + e2 + e3 + e4 + e5 + e6 + e7 + e8 + e9 + e10) + (e11 + fields_entries(fs11)));
    vstd::seq_lib::lemma_concat_associative(e1 + e2 + e3 + e4 + e5 + e6 + e7 + e8 + e9 + e10 + e11, e12, fields_entries(fs12));
    assert((e1 + e2 + e3 + e4 + e5 + e6 + e7 + e8 + e9 + e10 + e11 + e12) + fields_entries(fs12) == (e1 + e2 + e3 + e4 + e5 + e6 + e7 + e8 + e9 + e10 + e11) + (e12 + fields_entries(fs12)));
    vstd::seq_lib::lemma_concat_associative(e1 + e2 + e3 + e4 + e5 + e6 + e7 + e8 + e9 + e10 + e11 + e12, e13, fields_entries(fs13));
    assert((e1 + e2 + e3 + e4 + e5 + e6 + e7 + e8 + e9 + e10 + e11 + e12 + e13) + fields_entries(fs13) == (e1 + e2 + e3 + e4 + e5 + e6 + e7 + e8 + e9 + e10 + e11 + e12) + (e13 + fields_entries(fs13)));
    assert((e1 + e2 + e3 + e4 + e5 + e6 + e7 + e8 + e9 + e10 + e11 + e12 + e13) + fields_entries(fs13) =~= e1 + e2 + e3 + e4 + e5 + e6 + e7 + e8 + e9 + e10 + e11 + e12 + e13);
    assert(fields_entries(fs) == e1 + e2 + e3 + e4 + e5 + e6 + e7 + e8 + e9 + e10 + e11 + e12 + e13);
}

} // verus!
