//! The document root and its registry of reusable components.

use vstd::prelude::*;

use crate::codec::{Codec, dec_opt, dec_opt_str, dec_req, dec_req_str, enc_extras, enc_opt,
    enc_opt_str, enc_req, enc_str, opt_slot, opt_str_slot, ref_key, req_slot, sd_opt, sd_opt_str,
    sd_req, sd_req_str, str_slot};
use crate::err::DecodeError;
use crate::info::{Info, InfoV};
use crate::media::{Header, HeaderV};
use crate::meta::{Example, ExampleV, ExternalDocumentation, ExternalDocumentationV, Server,
    ServerV, Tag, TagV};
use crate::obj::{FieldImage, distinct_names, entries_avoid, extras_of, fields_entries,
    lemma_extras_of, lemma_get_wf, lemma_index_has_key, lemma_record_extras_of, lemma_record_obj,
    obj_get, opt_entry};
use crate::params::{Link, LinkV, Parameter, ParameterV, RequestBody, RequestBodyV, Response,
    ResponseV};
use crate::paths::{Callback, CallbackV, PathItem, PathItemV};
use crate::refs::{Referenceable, ReferenceableV};
use crate::schema::{Schema, SchemaV};
use crate::security::{SecurityRequirement, SecurityRequirementV, SecurityScheme, SecuritySchemeV};
use crate::smap::SortedMap;
use crate::value::{SpecEntries, SpecVal, Value, keys_unique, lemma_view_entries,
    lemma_view_entries_push, view_entries, view_val, wf_val};

verus! {


/// The registry: one named bucket per reusable-object kind.
#[derive(Debug, Clone)]
pub struct Components {
    pub schemas: Option<SortedMap<Referenceable<Schema>>>,
    pub responses: Option<SortedMap<Referenceable<Response>>>,
    pub parameters: Option<SortedMap<Referenceable<Parameter>>>,
    pub examples: Option<SortedMap<Referenceable<Example>>>,
    pub request_bodies: Option<SortedMap<Referenceable<RequestBody>>>,
    pub headers: Option<SortedMap<Referenceable<Header>>>,
    pub security_schemes: Option<SortedMap<Referenceable<SecurityScheme>>>,
    pub links: Option<SortedMap<Referenceable<Link>>>,
    pub callbacks: Option<SortedMap<Referenceable<Callback>>>,
}

/// The model of a `Components`.
pub struct ComponentsV {
    pub schemas: Option<Seq<(Seq<char>, ReferenceableV<SchemaV>)>>,
    pub responses: Option<Seq<(Seq<char>, ReferenceableV<ResponseV>)>>,
    pub parameters: Option<Seq<(Seq<char>, ReferenceableV<ParameterV>)>>,
    pub examples: Option<Seq<(Seq<char>, ReferenceableV<ExampleV>)>>,
    pub request_bodies: Option<Seq<(Seq<char>, ReferenceableV<RequestBodyV>)>>,
    pub headers: Option<Seq<(Seq<char>, ReferenceableV<HeaderV>)>>,
    pub security_schemes: Option<Seq<(Seq<char>, ReferenceableV<SecuritySchemeV>)>>,
    pub links: Option<Seq<(Seq<char>, ReferenceableV<LinkV>)>>,
    pub callbacks: Option<Seq<(Seq<char>, ReferenceableV<CallbackV>)>>,
}

impl DeepView for Components {
    type V = ComponentsV;

    open spec fn deep_view(&self) -> ComponentsV {
        ComponentsV {
            schemas: self.schemas.deep_view(),
            responses: self.responses.deep_view(),
            parameters: self.parameters.deep_view(),
            examples: self.examples.deep_view(),
            request_bodies: self.request_bodies.deep_view(),
            headers: self.headers.deep_view(),
            security_schemes: self.security_schemes.deep_view(),
            links: self.links.deep_view(),
            callbacks: self.callbacks.deep_view(),
        }
    }
}

/// The declared fields of the components kind, in schema order.
pub open spec fn components_fields(m: ComponentsV) -> FieldImage {
    seq![
        ("schemas"@, opt_slot::<SortedMap<Referenceable<Schema>>>(m.schemas)),
        ("responses"@, opt_slot::<SortedMap<Referenceable<Response>>>(m.responses)),
        ("parameters"@, opt_slot::<SortedMap<Referenceable<Parameter>>>(m.parameters)),
        ("examples"@, opt_slot::<SortedMap<Referenceable<Example>>>(m.examples)),
        ("requestBodies"@, opt_slot::<SortedMap<Referenceable<RequestBody>>>(m.request_bodies)),
        ("headers"@, opt_slot::<SortedMap<Referenceable<Header>>>(m.headers)),
        ("securitySchemes"@, opt_slot::<SortedMap<Referenceable<SecurityScheme>>>(m.security_schemes)),
        ("links"@, opt_slot::<SortedMap<Referenceable<Link>>>(m.links)),
        ("callbacks"@, opt_slot::<SortedMap<Referenceable<Callback>>>(m.callbacks)),
    ]
}

impl Codec for Components {
    open spec fn spec_decode(v: SpecVal) -> Option<ComponentsV> {
        match v {
            SpecVal::Obj(es) => {
                if sd_opt::<SortedMap<Referenceable<Schema>>>(es, "schemas"@) is Some && sd_opt::<SortedMap<Referenceable<Response>>>(es, "responses"@) is Some && sd_opt::<SortedMap<Referenceable<Parameter>>>(es, "parameters"@) is Some && sd_opt::<SortedMap<Referenceable<Example>>>(es, "examples"@) is Some && sd_opt::<SortedMap<Referenceable<RequestBody>>>(es, "requestBodies"@) is Some && sd_opt::<SortedMap<Referenceable<Header>>>(es, "headers"@) is Some && sd_opt::<SortedMap<Referenceable<SecurityScheme>>>(es, "securitySchemes"@) is Some && sd_opt::<SortedMap<Referenceable<Link>>>(es, "links"@) is Some && sd_opt::<SortedMap<Referenceable<Callback>>>(es, "callbacks"@) is Some {
                    Some(
                        ComponentsV {
                            schemas: sd_opt::<SortedMap<Referenceable<Schema>>>(es, "schemas"@)->0,
                            responses: sd_opt::<SortedMap<Referenceable<Response>>>(es, "responses"@)->0,
                            parameters: sd_opt::<SortedMap<Referenceable<Parameter>>>(es, "parameters"@)->0,
                            examples: sd_opt::<SortedMap<Referenceable<Example>>>(es, "examples"@)->0,
                            request_bodies: sd_opt::<SortedMap<Referenceable<RequestBody>>>(es, "requestBodies"@)->0,
                            headers: sd_opt::<SortedMap<Referenceable<Header>>>(es, "headers"@)->0,
                            security_schemes: sd_opt::<SortedMap<Referenceable<SecurityScheme>>>(es, "securitySchemes"@)->0,
                            links: sd_opt::<SortedMap<Referenceable<Link>>>(es, "links"@)->0,
                            callbacks: sd_opt::<SortedMap<Referenceable<Callback>>>(es, "callbacks"@)->0,
                        },
                    )
                } else {
                    None
                }
            },
            _ => None,
        }
    }

    open spec fn spec_encode(m: ComponentsV) -> SpecVal {
        SpecVal::Obj(fields_entries(components_fields(m)))
    }

    open spec fn model_wf(m: ComponentsV) -> bool {
        (match m.schemas {
            Some(t) => SortedMap::<Referenceable<Schema>>::model_wf(t),
            None => true,
        }) && (match m.responses {
            Some(t) => SortedMap::<Referenceable<Response>>::model_wf(t),
            None => true,
        }) && (match m.parameters {
            Some(t) => SortedMap::<Referenceable<Parameter>>::model_wf(t),
            None => true,
        }) && (match m.examples {
            Some(t) => SortedMap::<Referenceable<Example>>::model_wf(t),
            None => true,
        }) && (match m.request_bodies {
            Some(t) => SortedMap::<Referenceable<RequestBody>>::model_wf(t),
            None => true,
        }) && (match m.headers {
            Some(t) => SortedMap::<Referenceable<Header>>::model_wf(t),
            None => true,
        }) && (match m.security_schemes {
            Some(t) => SortedMap::<Referenceable<SecurityScheme>>::model_wf(t),
            None => true,
        }) && (match m.links {
            Some(t) => SortedMap::<Referenceable<Link>>::model_wf(t),
            None => true,
        }) && (match m.callbacks {
            Some(t) => SortedMap::<Referenceable<Callback>>::model_wf(t),
            None => true,
        })
    }

    open spec fn sentinel_free(m: ComponentsV) -> bool {
        true
    }

    #[verifier::rlimit(100)]
    #[verifier::spinoff_prover]
    proof fn lemma_codec(m: ComponentsV) {
        reveal_strlit("schemas");
        reveal_strlit("responses");
        reveal_strlit("parameters");
        reveal_strlit("examples");
        reveal_strlit("requestBodies");
        reveal_strlit("headers");
        reveal_strlit("securitySchemes");
        reveal_strlit("links");
        reveal_strlit("callbacks");
        reveal_strlit("$ref");
        let fs = components_fields(m);
        assert(fs[0].0 == "schemas"@);
        assert(fs[1].0 == "responses"@);
        assert(fs[2].0 == "parameters"@);
        assert(fs[3].0 == "examples"@);
        assert(fs[4].0 == "requestBodies"@);
        assert(fs[5].0 == "headers"@);
        assert(fs[6].0 == "securitySchemes"@);
        assert(fs[7].0 == "links"@);
        assert(fs[8].0 == "callbacks"@);
        assert(("schemas"@)[0] == 's');
        assert(("headers"@)[0] == 'h');
        assert(("responses"@)[0] == 'r');
        assert(("callbacks"@)[0] == 'c');
        assert("schemas"@ != "responses"@ && "schemas"@ != "parameters"@ && "schemas"@ != "examples"@);
        assert("schemas"@ != "requestBodies"@ && "schemas"@ != "headers"@ && "schemas"@ != "securitySchemes"@);
        assert("schemas"@ != "links"@ && "schemas"@ != "callbacks"@ && "responses"@ != "parameters"@);
        assert("responses"@ != "examples"@ && "responses"@ != "requestBodies"@ && "responses"@ != "headers"@);
        assert("responses"@ != "securitySchemes"@ && "responses"@ != "links"@ && "responses"@ != "callbacks"@);
        assert("parameters"@ != "examples"@ && "parameters"@ != "requestBodies"@ && "parameters"@ != "headers"@);
        assert("parameters"@ != "securitySchemes"@ && "parameters"@ != "links"@ && "parameters"@ != "callbacks"@);
        assert("examples"@ != "requestBodies"@ && "examples"@ != "headers"@ && "examples"@ != "securitySchemes"@);
        assert("examples"@ != "links"@ && "examples"@ != "callbacks"@ && "requestBodies"@ != "headers"@);
        assert("requestBodies"@ != "securitySchemes"@ && "requestBodies"@ != "links"@ && "requestBodies"@ != "callbacks"@);
        assert("headers"@ != "securitySchemes"@ && "headers"@ != "links"@ && "headers"@ != "callbacks"@);
        assert("securitySchemes"@ != "links"@ && "securitySchemes"@ != "callbacks"@ && "links"@ != "callbacks"@);
        assert("schemas"@ != "$ref"@ && "responses"@ != "$ref"@ && "parameters"@ != "$ref"@);
        assert("examples"@ != "$ref"@ && "requestBodies"@ != "$ref"@ && "headers"@ != "$ref"@);
        assert("securitySchemes"@ != "$ref"@ && "links"@ != "$ref"@ && "callbacks"@ != "$ref"@);
        assert(distinct_names(fs));
        if m.schemas is Some {
            SortedMap::<Referenceable<Schema>>::lemma_codec(m.schemas->0);
        }
        if m.responses is Some {
            SortedMap::<Referenceable<Response>>::lemma_codec(m.responses->0);
        }
        if m.parameters is Some {
            SortedMap::<Referenceable<Parameter>>::lemma_codec(m.parameters->0);
        }
        if m.examples is Some {
            SortedMap::<Referenceable<Example>>::lemma_codec(m.examples->0);
        }
        if m.request_bodies is Some {
            SortedMap::<Referenceable<RequestBody>>::lemma_codec(m.request_bodies->0);
        }
        if m.headers is Some {
            SortedMap::<Referenceable<Header>>::lemma_codec(m.headers->0);
        }
        if m.security_schemes is Some {
            SortedMap::<Referenceable<SecurityScheme>>::lemma_codec(m.security_schemes->0);
        }
        if m.links is Some {
            SortedMap::<Referenceable<Link>>::lemma_codec(m.links->0);
        }
        if m.callbacks is Some {
            SortedMap::<Referenceable<Callback>>::lemma_codec(m.callbacks->0);
        }
        assert(match fs[0].1 {
            Some(sv) => wf_val(sv),
            None => true,
        });
        assert(match fs[1].1 {
            Some(sv) => wf_val(sv),
            None => true,
        });
        assert(match fs[2].1 {
            Some(sv) => wf_val(sv),
            None => true,
        });
        assert(match fs[3].1 {
            Some(sv) => wf_val(sv),
            None => true,
        });
        assert(match fs[4].1 {
            Some(sv) => wf_val(sv),
            None => true,
        });
        assert(match fs[5].1 {
            Some(sv) => wf_val(sv),
            None => true,
        });
        assert(match fs[6].1 {
            Some(sv) => wf_val(sv),
            None => true,
        });
        assert(match fs[7].1 {
            Some(sv) => wf_val(sv),
            None => true,
        });
        assert(match fs[8].1 {
            Some(sv) => wf_val(sv),
            None => true,
        });
        lemma_record_obj(fs, Seq::empty(), ref_key());
        let es = fields_entries(fs) + Seq::<(Seq<char>, SpecVal)>::empty();
        assert(es =~= fields_entries(fs));
        assert(obj_get(es, "schemas"@) == opt_slot::<SortedMap<Referenceable<Schema>>>(m.schemas));
        assert(obj_get(es, "responses"@) == opt_slot::<SortedMap<Referenceable<Response>>>(m.responses));
        assert(obj_get(es, "parameters"@) == opt_slot::<SortedMap<Referenceable<Parameter>>>(m.parameters));
        assert(obj_get(es, "examples"@) == opt_slot::<SortedMap<Referenceable<Example>>>(m.examples));
        assert(obj_get(es, "requestBodies"@) == opt_slot::<SortedMap<Referenceable<RequestBody>>>(m.request_bodies));
        assert(obj_get(es, "headers"@) == opt_slot::<SortedMap<Referenceable<Header>>>(m.headers));
        assert(obj_get(es, "securitySchemes"@) == opt_slot::<SortedMap<Referenceable<SecurityScheme>>>(m.security_schemes));
        assert(obj_get(es, "links"@) == opt_slot::<SortedMap<Referenceable<Link>>>(m.links));
        assert(obj_get(es, "callbacks"@) == opt_slot::<SortedMap<Referenceable<Callback>>>(m.callbacks));
    }

    proof fn lemma_decode_wf(v: SpecVal) {
        let es = v->Obj_0;
        assert(forall|i: int| 0 <= i < es.len() ==> wf_val(#[trigger] es[i].1));
        if obj_get(es, "schemas"@) is Some {
            lemma_get_wf(es, "schemas"@);
            SortedMap::<Referenceable<Schema>>::lemma_decode_wf(obj_get(es, "schemas"@)->0);
        }
        if obj_get(es, "responses"@) is Some {
            lemma_get_wf(es, "responses"@);
            SortedMap::<Referenceable<Response>>::lemma_decode_wf(obj_get(es, "responses"@)->0);
        }
        if obj_get(es, "parameters"@) is Some {
            lemma_get_wf(es, "parameters"@);
            SortedMap::<Referenceable<Parameter>>::lemma_decode_wf(obj_get(es, "parameters"@)->0);
        }
        if obj_get(es, "examples"@) is Some {
            lemma_get_wf(es, "examples"@);
            SortedMap::<Referenceable<Example>>::lemma_decode_wf(obj_get(es, "examples"@)->0);
        }
        if obj_get(es, "requestBodies"@) is Some {
            lemma_get_wf(es, "requestBodies"@);
            SortedMap::<Referenceable<RequestBody>>::lemma_decode_wf(obj_get(es, "requestBodies"@)->0);
        }
        if obj_get(es, "headers"@) is Some {
            lemma_get_wf(es, "headers"@);
            SortedMap::<Referenceable<Header>>::lemma_decode_wf(obj_get(es, "headers"@)->0);
        }
        if obj_get(es, "securitySchemes"@) is Some {
            lemma_get_wf(es, "securitySchemes"@);
            SortedMap::<Referenceable<SecurityScheme>>::lemma_decode_wf(obj_get(es, "securitySchemes"@)->0);
        }
        if obj_get(es, "links"@) is Some {
            lemma_get_wf(es, "links"@);
            SortedMap::<Referenceable<Link>>::lemma_decode_wf(obj_get(es, "links"@)->0);
        }
        if obj_get(es, "callbacks"@) is Some {
            lemma_get_wf(es, "callbacks"@);
            SortedMap::<Referenceable<Callback>>::lemma_decode_wf(obj_get(es, "callbacks"@)->0);
        }
    }

    proof fn lemma_decode_sentinel(v: SpecVal) {
    }

    /// Beyond the inherited exactness contract: which error kind comes
    /// back, field by field in declared order.
    fn decode(v: &Value) -> (r: Result<Self, DecodeError>)
        ensures
            !(v.deep_view() is Obj) ==> (r matches Err(e) && e is TypeMismatch),
    {
        match v {
            Value::Obj(entries) => {
                let schemas = match dec_opt::<SortedMap<Referenceable<Schema>>>(entries, "schemas") {
                    Ok(x) => x,
                    Err(e) => return Err(e),
                };
                let responses = match dec_opt::<SortedMap<Referenceable<Response>>>(entries, "responses") {
                    Ok(x) => x,
                    Err(e) => return Err(e),
                };
                let parameters = match dec_opt::<SortedMap<Referenceable<Parameter>>>(entries, "parameters") {
                    Ok(x) => x,
                    Err(e) => return Err(e),
                };
                let examples = match dec_opt::<SortedMap<Referenceable<Example>>>(entries, "examples") {
                    Ok(x) => x,
                    Err(e) => return Err(e),
                };
                let request_bodies = match dec_opt::<SortedMap<Referenceable<RequestBody>>>(entries, "requestBodies") {
                    Ok(x) => x,
                    Err(e) => return Err(e),
                };
                let headers = match dec_opt::<SortedMap<Referenceable<Header>>>(entries, "headers") {
                    Ok(x) => x,
                    Err(e) => return Err(e),
                };
                let security_schemes = match dec_opt::<SortedMap<Referenceable<SecurityScheme>>>(entries, "securitySchemes") {
                    Ok(x) => x,
                    Err(e) => return Err(e),
                };
                let links = match dec_opt::<SortedMap<Referenceable<Link>>>(entries, "links") {
                    Ok(x) => x,
                    Err(e) => return Err(e),
                };
                let callbacks = match dec_opt::<SortedMap<Referenceable<Callback>>>(entries, "callbacks") {
                    Ok(x) => x,
                    Err(e) => return Err(e),
                };
                let out = Components { schemas, responses, parameters, examples, request_bodies, headers, security_schemes, links, callbacks };
                proof {
                    if wf_val(v.deep_view()) {
                        Self::lemma_decode_wf(v.deep_view());
                    }
                }
                Ok(out)
            },
            _ => Err(
                DecodeError::TypeMismatch {
                    field: "".to_owned(),
                    kind: "Components".to_owned(),
                    expected: "object".to_owned(),
                },
            ),
        }
    }

    #[verifier::rlimit(100)]
    #[verifier::spinoff_prover]
    fn encode(&self) -> (r: Value) {
        let mut out: Vec<(String, Value)> = Vec::new();
        let ghost m = self.deep_view();
        enc_opt::<SortedMap<Referenceable<Schema>>>(&mut out, "schemas", &self.schemas);
        proof {
            assert(view_entries(out@) =~= opt_entry("schemas"@, opt_slot::<SortedMap<Referenceable<Schema>>>(m.schemas)));
        }
        enc_opt::<SortedMap<Referenceable<Response>>>(&mut out, "responses", &self.responses);
        proof {
            assert(view_entries(out@) =~= opt_entry("schemas"@, opt_slot::<SortedMap<Referenceable<Schema>>>(m.schemas)) + opt_entry("responses"@, opt_slot::<SortedMap<Referenceable<Response>>>(m.responses)));
        }
        enc_opt::<SortedMap<Referenceable<Parameter>>>(&mut out, "parameters", &self.parameters);
        proof {
            assert(view_entries(out@) =~= opt_entry("schemas"@, opt_slot::<SortedMap<Referenceable<Schema>>>(m.schemas)) + opt_entry("responses"@, opt_slot::<SortedMap<Referenceable<Response>>>(m.responses)) + opt_entry("parameters"@, opt_slot::<SortedMap<Referenceable<Parameter>>>(m.parameters)));
        }
        enc_opt::<SortedMap<Referenceable<Example>>>(&mut out, "examples", &self.examples);
        proof {
            assert(view_entries(out@) =~= opt_entry("schemas"@, opt_slot::<SortedMap<Referenceable<Schema>>>(m.schemas)) + opt_entry("responses"@, opt_slot::<SortedMap<Referenceable<Response>>>(m.responses)) + opt_entry("parameters"@, opt_slot::<SortedMap<Referenceable<Parameter>>>(m.parameters)) + opt_entry("examples"@, opt_slot::<SortedMap<Referenceable<Example>>>(m.examples)));
        }
        enc_opt::<SortedMap<Referenceable<RequestBody>>>(&mut out, "requestBodies", &self.request_bodies);
        proof {
            assert(view_entries(out@) =~= opt_entry("schemas"@, opt_slot::<SortedMap<Referenceable<Schema>>>(m.schemas)) + opt_entry("responses"@, opt_slot::<SortedMap<Referenceable<Response>>>(m.responses)) + opt_entry("parameters"@, opt_slot::<SortedMap<Referenceable<Parameter>>>(m.parameters)) + opt_entry("examples"@, opt_slot::<SortedMap<Referenceable<Example>>>(m.examples)) + opt_entry("requestBodies"@, opt_slot::<SortedMap<Referenceable<RequestBody>>>(m.request_bodies)));
        }
        enc_opt::<SortedMap<Referenceable<Header>>>(&mut out, "headers", &self.headers);
        proof {
            assert(view_entries(out@) =~= opt_entry("schemas"@, opt_slot::<SortedMap<Referenceable<Schema>>>(m.schemas)) + opt_entry("responses"@, opt_slot::<SortedMap<Referenceable<Response>>>(m.responses)) + opt_entry("parameters"@, opt_slot::<SortedMap<Referenceable<Parameter>>>(m.parameters)) + opt_entry("examples"@, opt_slot::<SortedMap<Referenceable<Example>>>(m.examples)) + opt_entry("requestBodies"@, opt_slot::<SortedMap<Referenceable<RequestBody>>>(m.request_bodies)) + opt_entry("headers"@, opt_slot::<SortedMap<Referenceable<Header>>>(m.headers)));
        }
        enc_opt::<SortedMap<Referenceable<SecurityScheme>>>(&mut out, "securitySchemes", &self.security_schemes);
        proof {
            assert(view_entries(out@) =~= opt_entry("schemas"@, opt_slot::<SortedMap<Referenceable<Schema>>>(m.schemas)) + opt_entry("responses"@, opt_slot::<SortedMap<Referenceable<Response>>>(m.responses)) + opt_entry("parameters"@, opt_slot::<SortedMap<Referenceable<Parameter>>>(m.parameters)) + opt_entry("examples"@, opt_slot::<SortedMap<Referenceable<Example>>>(m.examples)) + opt_entry("requestBodies"@, opt_slot::<SortedMap<Referenceable<RequestBody>>>(m.request_bodies)) + opt_entry("headers"@, opt_slot::<SortedMap<Referenceable<Header>>>(m.headers)) + opt_entry("securitySchemes"@, opt_slot::<SortedMap<Referenceable<SecurityScheme>>>(m.security_schemes)));
        }
        enc_opt::<SortedMap<Referenceable<Link>>>(&mut out, "links", &self.links);
        proof {
            assert(view_entries(out@) =~= opt_entry("schemas"@, opt_slot::<SortedMap<Referenceable<Schema>>>(m.schemas)) + opt_entry("responses"@, opt_slot::<SortedMap<Referenceable<Response>>>(m.responses)) + opt_entry("parameters"@, opt_slot::<SortedMap<Referenceable<Parameter>>>(m.parameters)) + opt_entry("examples"@, opt_slot::<SortedMap<Referenceable<Example>>>(m.examples)) + opt_entry("requestBodies"@, opt_slot::<SortedMap<Referenceable<RequestBody>>>(m.request_bodies)) + opt_entry("headers"@, opt_slot::<SortedMap<Referenceable<Header>>>(m.headers)) + opt_entry("securitySchemes"@, opt_slot::<SortedMap<Referenceable<SecurityScheme>>>(m.security_schemes)) + opt_entry("links"@, opt_slot::<SortedMap<Referenceable<Link>>>(m.links)));
        }
        enc_opt::<SortedMap<Referenceable<Callback>>>(&mut out, "callbacks", &self.callbacks);
        proof {
            assert(view_entries(out@) =~= opt_entry("schemas"@, opt_slot::<SortedMap<Referenceable<Schema>>>(m.schemas)) + opt_entry("responses"@, opt_slot::<SortedMap<Referenceable<Response>>>(m.responses)) + opt_entry("parameters"@, opt_slot::<SortedMap<Referenceable<Parameter>>>(m.parameters)) + opt_entry("examples"@, opt_slot::<SortedMap<Referenceable<Example>>>(m.examples)) + opt_entry("requestBodies"@, opt_slot::<SortedMap<Referenceable<RequestBody>>>(m.request_bodies)) + opt_entry("headers"@, opt_slot::<SortedMap<Referenceable<Header>>>(m.headers)) + opt_entry("securitySchemes"@, opt_slot::<SortedMap<Referenceable<SecurityScheme>>>(m.security_schemes)) + opt_entry("links"@, opt_slot::<SortedMap<Referenceable<Link>>>(m.links)) + opt_entry("callbacks"@, opt_slot::<SortedMap<Referenceable<Callback>>>(m.callbacks)));
        }
        proof {
            lemma_components_entries(m);
            assert(view_entries(out@) =~= fields_entries(components_fields(m)));
        }
        Value::Obj(out)
    }
}

/// The encoded entry list of the components kind, written out field by field.
#[verifier::rlimit(100)]
#[verifier::spinoff_prover]
pub proof fn lemma_components_entries(m: ComponentsV) 
    ensures
        fields_entries(components_fields(m)) == opt_entry("schemas"@, opt_slot::<SortedMap<Referenceable<Schema>>>(m.schemas)) + opt_entry("responses"@, opt_slot::<SortedMap<Referenceable<Response>>>(m.responses)) + opt_entry("parameters"@, opt_slot::<SortedMap<Referenceable<Parameter>>>(m.parameters)) + opt_entry("examples"@, opt_slot::<SortedMap<Referenceable<Example>>>(m.examples)) + opt_entry("requestBodies"@, opt_slot::<SortedMap<Referenceable<RequestBody>>>(m.request_bodies)) + opt_entry("headers"@, opt_slot::<SortedMap<Referenceable<Header>>>(m.headers)) + opt_entry("securitySchemes"@, opt_slot::<SortedMap<Referenceable<SecurityScheme>>>(m.security_schemes)) + opt_entry("links"@, opt_slot::<SortedMap<Referenceable<Link>>>(m.links)) + opt_entry("callbacks"@, opt_slot::<SortedMap<Referenceable<Callback>>>(m.callbacks)),
{
    let fs = components_fields(m);
    assert(fs.len() == 9);
    let fs1 = fs.drop_first();
    assert(fs1[0] == fs[1] && fs1.len() == 8);
    let fs2 = fs1.drop_first();
    assert(fs2[0] == fs[2] && fs2.len() == 7);
    let fs3 = fs2.drop_first();
    assert(fs3[0] == fs[3] && fs3.len() == 6);
    let fs4 = fs3.drop_first();
    assert(fs4[0] == fs[4] && fs4.len() == 5);
    let fs5 = fs4.drop_first();
    assert(fs5[0] == fs[5] && fs5.len() == 4);
    let fs6 = fs5.drop_first();
    assert(fs6[0] == fs[6] && fs6.len() == 3);
    let fs7 = fs6.drop_first();
    assert(fs7[0] == fs[7] && fs7.len() == 2);
    let fs8 = fs7.drop_first();
    assert(fs8[0] == fs[8] && fs8.len() == 1);
    let fs9 = fs8.drop_first();
    assert(fs9.len() == 0);
    assert(fields_entries(fs9) =~= Seq::<(Seq<char>, SpecVal)>::empty());
    assert(fields_entries(fs8) =~= opt_entry(fs[8].0, fs[8].1) + fields_entries(fs9));
    assert(fields_entries(fs7) =~= opt_entry(fs[7].0, fs[7].1) + fields_entries(fs8));
    assert(fields_entries(fs6) =~= opt_entry(fs[6].0, fs[6].1) + fields_entries(fs7));
    assert(fields_entries(fs5) =~= opt_entry(fs[5].0, fs[5].1) + fields_entries(fs6));
    assert(fields_entries(fs4) =~= opt_entry(fs[4].0, fs[4].1) + fields_entries(fs5));
    assert(fields_entries(fs3) =~= opt_entry(fs[3].0, fs[3].1) + fields_entries(fs4));
    assert(fields_entries(fs2) =~= opt_entry(fs[2].0, fs[2].1) + fields_entries(fs3));
    assert(fields_entries(fs1) =~= opt_entry(fs[1].0, fs[1].1) + fields_entries(fs2));
    assert(fields_entries(fs) =~= opt_entry(fs[0].0, fs[0].1) + fields_entries(fs1));
    let e1 = opt_entry("schemas"@, opt_slot::<SortedMap<Referenceable<Schema>>>(m.schemas));
    let e2 = opt_entry("responses"@, opt_slot::<SortedMap<Referenceable<Response>>>(m.responses));
    let e3 = opt_entry("parameters"@, opt_slot::<SortedMap<Referenceable<Parameter>>>(m.parameters));
    let e4 = opt_entry("examples"@, opt_slot::<SortedMap<Referenceable<Example>>>(m.examples));
    let e5 = opt_entry("requestBodies"@, opt_slot::<SortedMap<Referenceable<RequestBody>>>(m.request_bodies));
    let e6 = opt_entry("headers"@, opt_slot::<SortedMap<Referenceable<Header>>>(m.headers));
    let e7 = opt_entry("securitySchemes"@, opt_slot::<SortedMap<Referenceable<SecurityScheme>>>(m.security_schemes));
    let e8 = opt_entry("links"@, opt_slot::<SortedMap<Referenceable<Link>>>(m.links));
    let e9 = opt_entry("callbacks"@, opt_slot::<SortedMap<Referenceable<Callback>>>(m.callbacks));
    assert(fields_entries(fs) == e1 + fields_entries(fs1));
    vstd::seq_lib::lemma_concat_associative(e1, e2, fields_entries(fs2));
    assert((e1 + e2) + fields_entries(fs2) == (e1) + (e2 + fields_entries(fs2)));
    vstd::seq_lib::lemma_concat_associative(e1 + e2, e3, fields_entries(fs3));
    assert((e1 + e2 + e3) + fields_entries(fs3) == (e1 + e2) + (e3 + fields_entries(fs3)));
    vstd::seq_lib::lemma_concat_associative(e1 + e2 + e3, e4, fields_entries(fs4));
    assert((e1 + e2 + e3 + e4) + fields_entries(fs4) == (e1 + e2 + e3) + (e4 + fields_entries(fs4)));
    vstd::seq_lib::lemma_concat_associative(e1 + e2 + e3 + e4, e5, fields_entries(fs5));
    assert((e1 + e2 + e3 + e4 + e5) + fields_entries(fs5) == (e1 + e2 + e3 + e4) + (e5 + fields_entries(fs5)));
    vstd::seq_lib::lemma_concat_associative(e1 + e2 + e3 + e4 + e5, e6, fields_entries(fs6));
    assert((e1 + e2 + e3 + e4 + e5 + e6) + fields_entries(fs6) == (e1 + e2 + e3 + e4 + e5) + (e6 + fields_entries(fs6)));
    vstd::seq_lib::lemma_concat_associative(e1 + e2 + e3 + e4 + e5 + e6, e7, fields_entries(fs7));
    assert((e1 + e2 + e3 + e4 + e5 + e6 + e7) + fields_entries(fs7) == (e1 + e2 + e3 + e4 + e5 + e6) + (e7 + fields_entries(fs7)));
    vstd::seq_lib::lemma_concat_associative(e1 + e2 + e3 + e4 + e5 + e6 + e7, e8, fields_entries(fs8));
    assert((e1 + e2 + e3 + e4 + e5 + e6 + e7 + e8) + fields_entries(fs8) == (e1 + e2 + e3 + e4 + e5 + e6 + e7) + (e8 + fields_entries(fs8)));
    vstd::seq_lib::lemma_concat_associative(e1 + e2 + e3 + e4 + e5 + e6 + e7 + e8, e9, fields_entries(fs9));
    assert((e1 + e2 + e3 + e4 + e5 + e6 + e7 + e8 + e9) + fields_entries(fs9) == (e1 + e2 + e3 + e4 + e5 + e6 + e7 + e8) + (e9 + fields_entries(fs9)));
    assert((e1 + e2 + e3 + e4 + e5 + e6 + e7 + e8 + e9) + fields_entries(fs9) =~= e1 + e2 + e3 + e4 + e5 + e6 + e7 + e8 + e9);
    assert(fields_entries(fs) == e1 + e2 + e3 + e4 + e5 + e6 + e7 + e8 + e9);
}

/// The root document object of an API description.
#[derive(Debug, Clone)]
pub struct OpenAPIV3 {
    pub openapi: String,
    pub info: Info,
    pub servers: Option<Vec<Server>>,
    pub paths: SortedMap<PathItem>,
    pub components: Option<Components>,
    pub security: Option<Vec<SecurityRequirement>>,
    pub tags: Option<Vec<Tag>>,
    pub external_docs: Option<ExternalDocumentation>,
    /// Extension entries: every input field not matching a declared
    /// name, in encounter order.
    pub extras: Vec<(String, Value)>,
}

/// The model of a `OpenAPIV3`.
pub struct OpenAPIV3V {
    pub openapi: Seq<char>,
    pub info: InfoV,
    pub servers: Option<Seq<ServerV>>,
    pub paths: Seq<(Seq<char>, PathItemV)>,
    pub components: Option<ComponentsV>,
    pub security: Option<Seq<SecurityRequirementV>>,
    pub tags: Option<Seq<TagV>>,
    pub external_docs: Option<ExternalDocumentationV>,
    pub extras: SpecEntries,
}

impl DeepView for OpenAPIV3 {
    type V = OpenAPIV3V;

    open spec fn deep_view(&self) -> OpenAPIV3V {
        OpenAPIV3V {
            openapi: self.openapi.deep_view(),
            info: self.info.deep_view(),
            servers: self.servers.deep_view(),
            paths: self.paths.deep_view(),
            components: self.components.deep_view(),
            security: self.security.deep_view(),
            tags: self.tags.deep_view(),
            external_docs: self.external_docs.deep_view(),
            extras: view_entries(self.extras@),
        }
    }
}

/// The declared fields of the openapiv3 kind, in schema order.
pub open spec fn openapiv3_fields(m: OpenAPIV3V) -> FieldImage {
    seq![
        ("openapi"@, str_slot(m.openapi)),
        ("info"@, req_slot::<Info>(m.info)),
        ("servers"@, opt_slot::<Vec<Server>>(m.servers)),
        ("paths"@, req_slot::<SortedMap<PathItem>>(m.paths)),
        ("components"@, opt_slot::<Components>(m.components)),
        ("security"@, opt_slot::<Vec<SecurityRequirement>>(m.security)),
        ("tags"@, opt_slot::<Vec<Tag>>(m.tags)),
        ("externalDocs"@, opt_slot::<ExternalDocumentation>(m.external_docs)),
    ]
}

/// The declared field names of the openapiv3 kind.
pub open spec fn openapiv3_names() -> Seq<Seq<char>> {
    seq!["openapi"@, "info"@, "servers"@, "paths"@, "components"@, "security"@, "tags"@, "externalDocs"@]
}

impl Codec for OpenAPIV3 {
    open spec fn spec_decode(v: SpecVal) -> Option<OpenAPIV3V> {
        match v {
            SpecVal::Obj(es) => {
                if sd_req_str(es, "openapi"@) is Some && sd_req::<Info>(es, "info"@) is Some && sd_opt::<Vec<Server>>(es, "servers"@) is Some && sd_req::<SortedMap<PathItem>>(es, "paths"@) is Some && sd_opt::<Components>(es, "components"@) is Some && sd_opt::<Vec<SecurityRequirement>>(es, "security"@) is Some && sd_opt::<Vec<Tag>>(es, "tags"@) is Some && sd_opt::<ExternalDocumentation>(es, "externalDocs"@) is Some {
                    Some(
                        OpenAPIV3V {
                            openapi: sd_req_str(es, "openapi"@)->0,
                            info: sd_req::<Info>(es, "info"@)->0,
                            servers: sd_opt::<Vec<Server>>(es, "servers"@)->0,
                            paths: sd_req::<SortedMap<PathItem>>(es, "paths"@)->0,
                            components: sd_opt::<Components>(es, "components"@)->0,
                            security: sd_opt::<Vec<SecurityRequirement>>(es, "security"@)->0,
                            tags: sd_opt::<Vec<Tag>>(es, "tags"@)->0,
                            external_docs: sd_opt::<ExternalDocumentation>(es, "externalDocs"@)->0,
                            extras: extras_of(es, openapiv3_names()),
                        },
                    )
                } else {
                    None
                }
            },
            _ => None,
        }
    }

    open spec fn spec_encode(m: OpenAPIV3V) -> SpecVal {
        SpecVal::Obj(fields_entries(openapiv3_fields(m)) + m.extras)
    }

    open spec fn model_wf(m: OpenAPIV3V) -> bool {
        Info::model_wf(m.info) && (match m.servers {
            Some(t) => Vec::<Server>::model_wf(t),
            None => true,
        }) && SortedMap::<PathItem>::model_wf(m.paths) && (match m.components {
            Some(t) => Components::model_wf(t),
            None => true,
        }) && (match m.security {
            Some(t) => Vec::<SecurityRequirement>::model_wf(t),
            None => true,
        }) && (match m.tags {
            Some(t) => Vec::<Tag>::model_wf(t),
            None => true,
        }) && (match m.external_docs {
            Some(t) => ExternalDocumentation::model_wf(t),
            None => true,
        }) && keys_unique(m.extras) && (forall|i: int| 0 <= i < m.extras.len() ==> !openapiv3_names().contains(
            #[trigger] m.extras[i].0,
        )) && (forall|i: int| 0 <= i < m.extras.len() ==> wf_val(#[trigger] m.extras[i].1))
    }

    open spec fn sentinel_free(m: OpenAPIV3V) -> bool {
        forall|i: int| 0 <= i < m.extras.len() ==> (#[trigger] m.extras[i].0) != ref_key()
    }

    #[verifier::rlimit(100)]
    #[verifier::spinoff_prover]
    proof fn lemma_codec(m: OpenAPIV3V) {
        reveal_strlit("openapi");
        reveal_strlit("info");
        reveal_strlit("servers");
        reveal_strlit("paths");
        reveal_strlit("components");
        reveal_strlit("security");
        reveal_strlit("tags");
        reveal_strlit("externalDocs");
        reveal_strlit("$ref");
        let fs = openapiv3_fields(m);
        assert(fs[0].0 == "openapi"@);
        assert(fs[1].0 == "info"@);
        assert(fs[2].0 == "servers"@);
        assert(fs[3].0 == "paths"@);
        assert(fs[4].0 == "components"@);
        assert(fs[5].0 == "security"@);
        assert(fs[6].0 == "tags"@);
        assert(fs[7].0 == "externalDocs"@);
        assert(("openapi"@)[0] == 'o');
        assert(("servers"@)[0] == 's');
        assert(("info"@)[0] == 'i');
        assert(("tags"@)[0] == 't');
        assert(("$ref"@)[0] == '$');
        assert("openapi"@ != "info"@ && "openapi"@ != "servers"@ && "openapi"@ != "paths"@);
        assert("openapi"@ != "components"@ && "openapi"@ != "security"@ && "openapi"@ != "tags"@);
        assert("openapi"@ != "externalDocs"@ && "info"@ != "servers"@ && "info"@ != "paths"@);
        assert("info"@ != "components"@ && "info"@ != "security"@ && "info"@ != "tags"@);
        assert("info"@ != "externalDocs"@ && "servers"@ != "paths"@ && "servers"@ != "components"@);
        assert("servers"@ != "security"@ && "servers"@ != "tags"@ && "servers"@ != "externalDocs"@);
        assert("paths"@ != "components"@ && "paths"@ != "security"@ && "paths"@ != "tags"@);
        assert("paths"@ != "externalDocs"@ && "components"@ != "security"@ && "components"@ != "tags"@);
        assert("components"@ != "externalDocs"@ && "security"@ != "tags"@ && "security"@ != "externalDocs"@);
        assert("tags"@ != "externalDocs"@);
        assert("openapi"@ != "$ref"@ && "info"@ != "$ref"@ && "servers"@ != "$ref"@);
        assert("paths"@ != "$ref"@ && "components"@ != "$ref"@ && "security"@ != "$ref"@);
        assert("tags"@ != "$ref"@ && "externalDocs"@ != "$ref"@);
        assert(distinct_names(fs));
        Info::lemma_codec(m.info);
        if m.servers is Some {
            Vec::<Server>::lemma_codec(m.servers->0);
        }
        SortedMap::<PathItem>::lemma_codec(m.paths);
        if m.components is Some {
            Components::lemma_codec(m.components->0);
        }
        if m.security is Some {
            Vec::<SecurityRequirement>::lemma_codec(m.security->0);
        }
        if m.tags is Some {
            Vec::<Tag>::lemma_codec(m.tags->0);
        }
        if m.external_docs is Some {
            ExternalDocumentation::lemma_codec(m.external_docs->0);
        }
        assert(match fs[0].1 {
            Some(sv) => wf_val(sv),
            None => true,
        });
        assert(match fs[1].1 {
            Some(sv) => wf_val(sv),
            None => true,
        });
        assert(match fs[2].1 {
            Some(sv) => wf_val(sv),
            None => true,
        });
        assert(match fs[3].1 {
            Some(sv) => wf_val(sv),
            None => true,
        });
        assert(match fs[4].1 {
            Some(sv) => wf_val(sv),
            None => true,
        });
        assert(match fs[5].1 {
            Some(sv) => wf_val(sv),
            None => true,
        });
        assert(match fs[6].1 {
            Some(sv) => wf_val(sv),
            None => true,
        });
        assert(match fs[7].1 {
            Some(sv) => wf_val(sv),
            None => true,
        });
        assert(entries_avoid(m.extras, fs)) by {
            assert forall|i: int, j: int| 0 <= i < m.extras.len() && 0 <= j < fs.len()
                implies m.extras[i].0 != fs[j].0 by {
                assert(openapiv3_names()[j] == fs[j].0);
            }
        }
        lemma_record_obj(fs, m.extras, ref_key());
        let es = fields_entries(fs) + m.extras;
        assert forall|j: int| 0 <= j < fs.len() implies openapiv3_names().contains(
            #[trigger] fs[j].0,
        ) by {
            assert(openapiv3_names()[j] == fs[j].0);
        }
        lemma_record_extras_of(fs, m.extras, openapiv3_names());
        assert(obj_get(es, "openapi"@) == str_slot(m.openapi));
        assert(obj_get(es, "info"@) == req_slot::<Info>(m.info));
        assert(obj_get(es, "servers"@) == opt_slot::<Vec<Server>>(m.servers));
        assert(obj_get(es, "paths"@) == req_slot::<SortedMap<PathItem>>(m.paths));
        assert(obj_get(es, "components"@) == opt_slot::<Components>(m.components));
        assert(obj_get(es, "security"@) == opt_slot::<Vec<SecurityRequirement>>(m.security));
        assert(obj_get(es, "tags"@) == opt_slot::<Vec<Tag>>(m.tags));
        assert(obj_get(es, "externalDocs"@) == opt_slot::<ExternalDocumentation>(m.external_docs));
    }

    proof fn lemma_decode_wf(v: SpecVal) {
        let es = v->Obj_0;
        assert(forall|i: int| 0 <= i < es.len() ==> wf_val(#[trigger] es[i].1));
        if obj_get(es, "info"@) is Some {
            lemma_get_wf(es, "info"@);
            Info::lemma_decode_wf(obj_get(es, "info"@)->0);
        }
        if obj_get(es, "servers"@) is Some {
            lemma_get_wf(es, "servers"@);
            Vec::<Server>::lemma_decode_wf(obj_get(es, "servers"@)->0);
        }
        if obj_get(es, "paths"@) is Some {
            lemma_get_wf(es, "paths"@);
            SortedMap::<PathItem>::lemma_decode_wf(obj_get(es, "paths"@)->0);
        }
        if obj_get(es, "components"@) is Some {
            lemma_get_wf(es, "components"@);
            Components::lemma_decode_wf(obj_get(es, "components"@)->0);
        }
        if obj_get(es, "security"@) is Some {
            lemma_get_wf(es, "security"@);
            Vec::<SecurityRequirement>::lemma_decode_wf(obj_get(es, "security"@)->0);
        }
        if obj_get(es, "tags"@) is Some {
            lemma_get_wf(es, "tags"@);
            Vec::<Tag>::lemma_decode_wf(obj_get(es, "tags"@)->0);
        }
        if obj_get(es, "externalDocs"@) is Some {
            lemma_get_wf(es, "externalDocs"@);
            ExternalDocumentation::lemma_decode_wf(obj_get(es, "externalDocs"@)->0);
        }
        lemma_extras_of(es, openapiv3_names());
    }

    proof fn lemma_decode_sentinel(v: SpecVal) {
        let es = v->Obj_0;
        assert forall|i: int| 0 <= i < es.len() implies (#[trigger] es[i].0) != ref_key() by {
            if es[i].0 == ref_key() {
                lemma_index_has_key(es, i);
            }
        }
        lemma_extras_of(es, openapiv3_names());
        let ex = extras_of(es, openapiv3_names());
        assert forall|i: int| 0 <= i < ex.len() implies (#[trigger] ex[i].0) != ref_key() by {
            let j = choose|j: int| 0 <= j < es.len() && es[j] == ex[i];
        }
    }

    /// Beyond the inherited exactness contract: which error kind comes
    /// back, field by field in declared order.
    fn decode(v: &Value) -> (r: Result<Self, DecodeError>)
        ensures
            !(v.deep_view() is Obj) ==> (r matches Err(e) && e is TypeMismatch),
            (v.deep_view() matches SpecVal::Obj(es) && obj_get(es, "openapi"@) is None) ==> (r matches Err(e)
                && e is MissingRequiredField),
            (v.deep_view() matches SpecVal::Obj(es) && (match obj_get(es, "openapi"@) {
                Some(sv) => !(sv is Str),
                None => false,
            })) ==> (r matches Err(e) && e is TypeMismatch),
            (v.deep_view() matches SpecVal::Obj(es) && sd_req_str(es, "openapi"@) is Some && obj_get(es, "info"@) is None) ==> (r matches Err(e)
                && e is MissingRequiredField),
            (v.deep_view() matches SpecVal::Obj(es) && sd_req_str(es, "openapi"@) is Some && sd_req::<Info>(es, "info"@) is Some && sd_opt::<Vec<Server>>(es, "servers"@) is Some && obj_get(es, "paths"@) is None) ==> (r matches Err(e)
                && e is MissingRequiredField),
    {
        match v {
            Value::Obj(entries) => {
                let openapi = match dec_req_str(entries, "openapi", "OpenAPIV3") {
                    Ok(x) => x,
                    Err(e) => return Err(e),
                };
                let info = match dec_req::<Info>(entries, "info", "OpenAPIV3") {
                    Ok(x) => x,
                    Err(e) => return Err(e),
                };
                let servers = match dec_opt::<Vec<Server>>(entries, "servers") {
                    Ok(x) => x,
                    Err(e) => return Err(e),
                };
                let paths = match dec_req::<SortedMap<PathItem>>(entries, "paths", "OpenAPIV3") {
                    Ok(x) => x,
                    Err(e) => return Err(e),
                };
                let components = match dec_opt::<Components>(entries, "components") {
                    Ok(x) => x,
                    Err(e) => return Err(e),
                };
                let security = match dec_opt::<Vec<SecurityRequirement>>(entries, "security") {
                    Ok(x) => x,
                    Err(e) => return Err(e),
                };
                let tags = match dec_opt::<Vec<Tag>>(entries, "tags") {
                    Ok(x) => x,
                    Err(e) => return Err(e),
                };
                let external_docs = match dec_opt::<ExternalDocumentation>(entries, "externalDocs") {
                    Ok(x) => x,
                    Err(e) => return Err(e),
                };
                let extras = collect_root_extras(entries);
                let out = OpenAPIV3 { openapi, info, servers, paths, components, security, tags, external_docs, extras };
                proof {
                    if wf_val(v.deep_view()) {
                        Self::lemma_decode_wf(v.deep_view());
                    }
                }
                Ok(out)
            },
            _ => Err(
                DecodeError::TypeMismatch {
                    field: "".to_owned(),
                    kind: "OpenAPIV3".to_owned(),
                    expected: "object".to_owned(),
                },
            ),
        }
    }

    #[verifier::rlimit(100)]
    #[verifier::spinoff_prover]
    fn encode(&self) -> (r: Value) {
        let mut out: Vec<(String, Value)> = Vec::new();
        let ghost m = self.deep_view();
        enc_str(&mut out, "openapi", &self.openapi);
        proof {
            assert(view_entries(out@) =~= opt_entry("openapi"@, str_slot(m.openapi)));
        }
        enc_req::<Info>(&mut out, "info", &self.info);
        proof {
            assert(view_entries(out@) =~= opt_entry("openapi"@, str_slot(m.openapi)) + opt_entry("info"@, req_slot::<Info>(m.info)));
        }
        enc_opt::<Vec<Server>>(&mut out, "servers", &self.servers);
        proof {
            assert(view_entries(out@) =~= opt_entry("openapi"@, str_slot(m.openapi)) + opt_entry("info"@, req_slot::<Info>(m.info)) + opt_entry("servers"@, opt_slot::<Vec<Server>>(m.servers)));
        }
        enc_req::<SortedMap<PathItem>>(&mut out, "paths", &self.paths);
        proof {
            assert(view_entries(out@) =~= opt_entry("openapi"@, str_slot(m.openapi)) + opt_entry("info"@, req_slot::<Info>(m.info)) + opt_entry("servers"@, opt_slot::<Vec<Server>>(m.servers)) + opt_entry("paths"@, req_slot::<SortedMap<PathItem>>(m.paths)));
        }
        enc_opt::<Components>(&mut out, "components", &self.components);
        proof {
            assert(view_entries(out@) =~= opt_entry("openapi"@, str_slot(m.openapi)) + opt_entry("info"@, req_slot::<Info>(m.info)) + opt_entry("servers"@, opt_slot::<Vec<Server>>(m.servers)) + opt_entry("paths"@, req_slot::<SortedMap<PathItem>>(m.paths)) + opt_entry("components"@, opt_slot::<Components>(m.components)));
        }
        enc_opt::<Vec<SecurityRequirement>>(&mut out, "security", &self.security);
        proof {
            assert(view_entries(out@) =~= opt_entry("openapi"@, str_slot(m.openapi)) + opt_entry("info"@, req_slot::<Info>(m.info)) + opt_entry("servers"@, opt_slot::<Vec<Server>>(m.servers)) + opt_entry("paths"@, req_slot::<SortedMap<PathItem>>(m.paths)) + opt_entry("components"@, opt_slot::<Components>(m.components)) + opt_entry("security"@, opt_slot::<Vec<SecurityRequirement>>(m.security)));
        }
        enc_opt::<Vec<Tag>>(&mut out, "tags", &self.tags);
        proof {
            assert(view_entries(out@) =~= opt_entry("openapi"@, str_slot(m.openapi)) + opt_entry("info"@, req_slot::<Info>(m.info)) + opt_entry("servers"@, opt_slot::<Vec<Server>>(m.servers)) + opt_entry("paths"@, req_slot::<SortedMap<PathItem>>(m.paths)) + opt_entry("components"@, opt_slot::<Components>(m.components)) + opt_entry("security"@, opt_slot::<Vec<SecurityRequirement>>(m.security)) + opt_entry("tags"@, opt_slot::<Vec<Tag>>(m.tags)));
        }
        enc_opt::<ExternalDocumentation>(&mut out, "externalDocs", &self.external_docs);
        proof {
            assert(view_entries(out@) =~= opt_entry("openapi"@, str_slot(m.openapi)) + opt_entry("info"@, req_slot::<Info>(m.info)) + opt_entry("servers"@, opt_slot::<Vec<Server>>(m.servers)) + opt_entry("paths"@, req_slot::<SortedMap<PathItem>>(m.paths)) + opt_entry("components"@, opt_slot::<Components>(m.components)) + opt_entry("security"@, opt_slot::<Vec<SecurityRequirement>>(m.security)) + opt_entry("tags"@, opt_slot::<Vec<Tag>>(m.tags)) + opt_entry("externalDocs"@, opt_slot::<ExternalDocumentation>(m.external_docs)));
        }
        enc_extras(&mut out, &self.extras);
        proof {
            assert(view_entries(out@) =~= (opt_entry("openapi"@, str_slot(m.openapi)) + opt_entry("info"@, req_slot::<Info>(m.info)) + opt_entry("servers"@, opt_slot::<Vec<Server>>(m.servers)) + opt_entry("paths"@, req_slot::<SortedMap<PathItem>>(m.paths)) + opt_entry("components"@, opt_slot::<Components>(m.components)) + opt_entry("security"@, opt_slot::<Vec<SecurityRequirement>>(m.security)) + opt_entry("tags"@, opt_slot::<Vec<Tag>>(m.tags)) + opt_entry("externalDocs"@, opt_slot::<ExternalDocumentation>(m.external_docs))) + m.extras);
        }
        proof {
            lemma_openapiv3_entries(m);
            assert(view_entries(out@) =~= fields_entries(openapiv3_fields(m)) + m.extras);
        }
        Value::Obj(out)
    }
}

/// The encoded entry list of the openapiv3 kind, written out field by field.
#[verifier::rlimit(100)]
#[verifier::spinoff_prover]
pub proof fn lemma_openapiv3_entries(m: OpenAPIV3V) 
    ensures
        fields_entries(openapiv3_fields(m)) == opt_entry("openapi"@, str_slot(m.openapi)) + opt_entry("info"@, req_slot::<Info>(m.info)) + opt_entry("servers"@, opt_slot::<Vec<Server>>(m.servers)) + opt_entry("paths"@, req_slot::<SortedMap<PathItem>>(m.paths)) + opt_entry("components"@, opt_slot::<Components>(m.components)) + opt_entry("security"@, opt_slot::<Vec<SecurityRequirement>>(m.security)) + opt_entry("tags"@, opt_slot::<Vec<Tag>>(m.tags)) + opt_entry("externalDocs"@, opt_slot::<ExternalDocumentation>(m.external_docs)),
{
    let fs = openapiv3_fields(m);
    assert(fs.len() == 8);
    let fs1 = fs.drop_first();
    assert(fs1[0] == fs[1] && fs1.len() == 7);
    let fs2 = fs1.drop_first();
    assert(fs2[0] == fs[2] && fs2.len() == 6);
    let fs3 = fs2.drop_first();
    assert(fs3[0] == fs[3] && fs3.len() == 5);
    let fs4 = fs3.drop_first();
    assert(fs4[0] == fs[4] && fs4.len() == 4);
    let fs5 = fs4.drop_first();
    assert(fs5[0] == fs[5] && fs5.len() == 3);
    let fs6 = fs5.drop_first();
    assert(fs6[0] == fs[6] && fs6.len() == 2);
    let fs7 = fs6.drop_first();
    assert(fs7[0] == fs[7] && fs7.len() == 1);
    let fs8 = fs7.drop_first();
    assert(fs8.len() == 0);
    assert(fields_entries(fs8) =~= Seq::<(Seq<char>, SpecVal)>::empty());
    assert(fields_entries(fs7) =~= opt_entry(fs[7].0, fs[7].1) + fields_entries(fs8));
    assert(fields_entries(fs6) =~= opt_entry(fs[6].0, fs[6].1) + fields_entries(fs7));
    assert(fields_entries(fs5) =~= opt_entry(fs[5].0, fs[5].1) + fields_entries(fs6));
    assert(fields_entries(fs4) =~= opt_entry(fs[4].0, fs[4].1) + fields_entries(fs5));
    assert(fields_entries(fs3) =~= opt_entry(fs[3].0, fs[3].1) + fields_entries(fs4));
    assert(fields_entries(fs2) =~= opt_entry(fs[2].0, fs[2].1) + fields_entries(fs3));
    assert(fields_entries(fs1) =~= opt_entry(fs[1].0, fs[1].1) + fields_entries(fs2));
    assert(fields_entries(fs) =~= opt_entry(fs[0].0, fs[0].1) + fields_entries(fs1));
    let e1 = opt_entry("openapi"@, str_slot(m.openapi));
    let e2 = opt_entry("info"@, req_slot::<Info>(m.info));
    let e3 = opt_entry("servers"@, opt_slot::<Vec<Server>>(m.servers));
    let e4 = opt_entry("paths"@, req_slot::<SortedMap<PathItem>>(m.paths));
    let e5 = opt_entry("components"@, opt_slot::<Components>(m.components));
    let e6 = opt_entry("security"@, opt_slot::<Vec<SecurityRequirement>>(m.security));
    let e7 = opt_entry("tags"@, opt_slot::<Vec<Tag>>(m.tags));
    let e8 = opt_entry("externalDocs"@, opt_slot::<ExternalDocumentation>(m.external_docs));
    assert(fields_entries(fs) == e1 + fields_entries(fs1));
    vstd::seq_lib::lemma_concat_associative(e1, e2, fields_entries(fs2));
    assert((e1 + e2) + fields_entries(fs2) == (e1) + (e2 + fields_entries(fs2)));
    vstd::seq_lib::lemma_concat_associative(e1 + e2, e3, fields_entries(fs3));
    assert((e1 + e2 + e3) + fields_entries(fs3) == (e1 + e2) + (e3 + fields_entries(fs3)));
    vstd::seq_lib::lemma_concat_associative(e1 + e2 + e3, e4, fields_entries(fs4));
    assert((e1 + e2 + e3 + e4) + fields_entries(fs4) == (e1 + e2 + e3) + (e4 + fields_entries(fs4)));
    vstd::seq_lib::lemma_concat_associative(e1 + e2 + e3 + e4, e5, fields_entries(fs5));
    assert((e1 + e2 + e3 + e4 + e5) + fields_entries(fs5) == (e1 + e2 + e3 + e4) + (e5 + fields_entries(fs5)));
    vstd::seq_lib::lemma_concat_associative(e1 + e2 + e3 + e4 + e5, e6, fields_entries(fs6));
    assert((e1 + e2 + e3 + e4 + e5 + e6) + fields_entries(fs6) == (e1 + e2 + e3 + e4 + e5) + (e6 + fields_entries(fs6)));
    vstd::seq_lib::lemma_concat_associative(e1 + e2 + e3 + e4 + e5 + e6, e7, fields_entries(fs7));
    assert((e1 + e2 + e3 + e4 + e5 + e6 + e7) + fields_entries(fs7) == (e1 + e2 + e3 + e4 + e5 + e6) + (e7 + fields_entries(fs7)));
    vstd::seq_lib::lemma_concat_associative(e1 + e2 + e3 + e4 + e5 + e6 + e7, e8, fields_entries(fs8));
    assert((e1 + e2 + e3 + e4 + e5 + e6 + e7 + e8) + fields_entries(fs8) == (e1 + e2 + e3 + e4 + e5 + e6 + e7) + (e8 + fields_entries(fs8)));
    assert((e1 + e2 + e3 + e4 + e5 + e6 + e7 + e8) + fields_entries(fs8) =~= e1 + e2 + e3 + e4 + e5 + e6 + e7 + e8);
    assert(fields_entries(fs) == e1 + e2 + e3 + e4 + e5 + e6 + e7 + e8);
}


/// Route the source entries of the root document: any key not among the
/// declared names goes, in encounter order, into the extension bucket.
#[verifier::loop_isolation(false)]
fn collect_root_extras(entries: &Vec<(String, Value)>) -> (r: Vec<(String, Value)>)
    ensures
        view_entries(r@) == extras_of(view_entries(entries@), openapiv3_names()),
{
    let ghost es = view_entries(entries@);
    proof {
        reveal_strlit("openapi");
        reveal_strlit("info");
        reveal_strlit("servers");
        reveal_strlit("paths");
        reveal_strlit("components");
        reveal_strlit("security");
        reveal_strlit("tags");
        reveal_strlit("externalDocs");
        lemma_view_entries(entries@);
        assert(es.skip(0) =~= es);
    }
    let mut out: Vec<(String, Value)> = Vec::new();
    proof {
        assert(view_entries(out@) =~= Seq::<(Seq<char>, SpecVal)>::empty());
    }
    let n = entries.len();
    let mut i: usize = 0;
    while i < n
        invariant
            i <= n,
            n == entries.len(),
            es.len() == n,
            forall|j: int| 0 <= j < n ==> #[trigger] es[j]
                == (entries@[j].0@, view_val(entries@[j].1)),
            extras_of(es, openapiv3_names()) =~= view_entries(out@) + extras_of(
                es.skip(i as int),
                openapiv3_names(),
            ),
        decreases n - i,
    {
        proof {
            assert(es.skip(i as int).len() > 0);
            assert(es.skip(i as int)[0] == es[i as int]);
            assert(es.skip(i as int).drop_first() =~= es.skip(i + 1));
        }
        let declared = entries[i].0 == "openapi".to_owned() || entries[i].0 == "info".to_owned()
            || entries[i].0 == "servers".to_owned() || entries[i].0 == "paths".to_owned()
            || entries[i].0 == "components".to_owned() || entries[i].0 == "security".to_owned()
            || entries[i].0 == "tags".to_owned() || entries[i].0 == "externalDocs".to_owned();
        proof {
            if declared {
                assert(openapiv3_names().contains(es[i as int].0)) by {
                    if entries@[i as int].0@ == "openapi"@ {
                        assert(openapiv3_names()[0] == es[i as int].0);
                    } else if entries@[i as int].0@ == "info"@ {
                        assert(openapiv3_names()[1] == es[i as int].0);
                    } else if entries@[i as int].0@ == "servers"@ {
                        assert(openapiv3_names()[2] == es[i as int].0);
                    } else if entries@[i as int].0@ == "paths"@ {
                        assert(openapiv3_names()[3] == es[i as int].0);
                    } else if entries@[i as int].0@ == "components"@ {
                        assert(openapiv3_names()[4] == es[i as int].0);
                    } else if entries@[i as int].0@ == "security"@ {
                        assert(openapiv3_names()[5] == es[i as int].0);
                    } else if entries@[i as int].0@ == "tags"@ {
                        assert(openapiv3_names()[6] == es[i as int].0);
                    } else {
                        assert(openapiv3_names()[7] == es[i as int].0);
                    }
                }
            } else {
                assert(!openapiv3_names().contains(es[i as int].0)) by {
                    if openapiv3_names().contains(es[i as int].0) {
                        let j = choose|j: int|
                            0 <= j < openapiv3_names().len() && openapiv3_names()[j]
                                == es[i as int].0;
                    }
                }
            }
        }
        if declared {
            i += 1;
        } else {
            let ghost pre = out@;
            let k = entries[i].0.clone();
            let v = entries[i].1.clone();
            let ghost gk = k;
            let ghost gv = v;
            out.push((k, v));
            proof {
                lemma_view_entries_push(pre, gk, gv);
                assert(view_entries(out@) =~= view_entries(pre) + seq![es[i as int]]);
            }
            i += 1;
        }
    }
    proof {
        assert(es.skip(n as int) =~= Seq::<(Seq<char>, SpecVal)>::empty());
        assert(extras_of(es, openapiv3_names()) =~= view_entries(out@));
    }
    out
}

} // verus!
