//! Security description: the security-scheme union whose shape is
//! selected by the value of its sentinel `type` field, the OAuth flow
//! records, and per-operation security requirements.

use vstd::prelude::*;

use crate::codec::{Codec, dec_opt, dec_opt_str, dec_req, dec_req_str, enc_field, enc_opt,
    enc_opt_str, enc_req, enc_str, opt_slot, opt_str_slot, ref_key, req_slot, sd_opt, sd_opt_str,
    sd_req, sd_req_str, str_slot};
use crate::err::DecodeError;
use crate::meta::ParameterIn;
use crate::obj::{FieldImage, distinct_names, fields_entries, lemma_get_wf, lemma_record_obj,
    obj_get, opt_entry};
use crate::smap::SortedMap;
use crate::value::{SpecVal, Value, view_entries, wf_val};

verus! {


/// Configuration details for one supported OAuth flow.
#[derive(Debug, Clone)]
pub struct OauthFlow {
    pub authorization_url: String,
    pub token_url: Option<String>,
    pub refresh_url: Option<String>,
    pub scopes: SortedMap<String>,
}

/// The model of a `OauthFlow`.
pub struct OauthFlowV {
    pub authorization_url: Seq<char>,
    pub token_url: Option<Seq<char>>,
    pub refresh_url: Option<Seq<char>>,
    pub scopes: Seq<(Seq<char>, Seq<char>)>,
}

impl DeepView for OauthFlow {
    type V = OauthFlowV;

    open spec fn deep_view(&self) -> OauthFlowV {
        OauthFlowV {
            authorization_url: self.authorization_url.deep_view(),
            token_url: self.token_url.deep_view(),
            refresh_url: self.refresh_url.deep_view(),
            scopes: self.scopes.deep_view(),
        }
    }
}

/// The declared fields of the oauthflow kind, in schema order.
pub open spec fn oauthflow_fields(m: OauthFlowV) -> FieldImage {
    seq![
        ("authorizationUrl"@, str_slot(m.authorization_url)),
        ("tokenUrl"@, opt_str_slot(m.token_url)),
        ("refreshUrl"@, opt_str_slot(m.refresh_url)),
        ("scopes"@, req_slot::<SortedMap<String>>(m.scopes)),
    ]
}

impl Codec for OauthFlow {
    open spec fn spec_decode(v: SpecVal) -> Option<OauthFlowV> {
        match v {
            SpecVal::Obj(es) => {
                if sd_req_str(es, "authorizationUrl"@) is Some && sd_opt_str(es, "tokenUrl"@) is Some && sd_opt_str(es, "refreshUrl"@) is Some && sd_req::<SortedMap<String>>(es, "scopes"@) is Some {
                    Some(
                        OauthFlowV {
                            authorization_url: sd_req_str(es, "authorizationUrl"@)->0,
                            token_url: sd_opt_str(es, "tokenUrl"@)->0,
                            refresh_url: sd_opt_str(es, "refreshUrl"@)->0,
                            scopes: sd_req::<SortedMap<String>>(es, "scopes"@)->0,
                        },
                    )
                } else {
                    None
                }
            },
            _ => None,
        }
    }

    open spec fn spec_encode(m: OauthFlowV) -> SpecVal {
        SpecVal::Obj(fields_entries(oauthflow_fields(m)))
    }

    open spec fn model_wf(m: OauthFlowV) -> bool {
        SortedMap::<String>::model_wf(m.scopes)
    }

    open spec fn sentinel_free(m: OauthFlowV) -> bool {
        true
    }

    proof fn lemma_codec(m: OauthFlowV) {
        reveal_strlit("authorizationUrl");
        reveal_strlit("tokenUrl");
        reveal_strlit("refreshUrl");
        reveal_strlit("scopes");
        reveal_strlit("$ref");
        let fs = oauthflow_fields(m);
        assert(fs[0].0 == "authorizationUrl"@);
        assert(fs[1].0 == "tokenUrl"@);
        assert(fs[2].0 == "refreshUrl"@);
        assert(fs[3].0 == "scopes"@);
        assert("authorizationUrl"@ != "tokenUrl"@ && "authorizationUrl"@ != "refreshUrl"@ && "authorizationUrl"@ != "scopes"@);
        assert("tokenUrl"@ != "refreshUrl"@ && "tokenUrl"@ != "scopes"@ && "refreshUrl"@ != "scopes"@);
        assert("authorizationUrl"@ != "$ref"@ && "tokenUrl"@ != "$ref"@ && "refreshUrl"@ != "$ref"@);
        assert("scopes"@ != "$ref"@);
        assert(distinct_names(fs));
        SortedMap::<String>::lemma_codec(m.scopes);
        assert(match fs[0].1 {
            Some(sv) => wf_val(sv),
            None => true,
        });
        assert(match fs[1].1 {
            Some(sv) => wf_val(sv),
            None => true,
        });
        assert(match fs[2].1 {
            Some(sv) => wf_val(sv),
            None => true,
        });
        assert(match fs[3].1 {
            Some(sv) => wf_val(sv),
            None => true,
        });
        lemma_record_obj(fs, Seq::empty(), ref_key());
        let es = fields_entries(fs) + Seq::<(Seq<char>, SpecVal)>::empty();
        assert(es =~= fields_entries(fs));
        assert(obj_get(es, "authorizationUrl"@) == str_slot(m.authorization_url));
        assert(obj_get(es, "tokenUrl"@) == opt_str_slot(m.token_url));
        assert(obj_get(es, "refreshUrl"@) == opt_str_slot(m.refresh_url));
        assert(obj_get(es, "scopes"@) == req_slot::<SortedMap<String>>(m.scopes));
    }

    proof fn lemma_decode_wf(v: SpecVal) {
        let es = v->Obj_0;
        assert(forall|i: int| 0 <= i < es.len() ==> wf_val(#[trigger] es[i].1));
        if obj_get(es, "scopes"@) is Some {
            lemma_get_wf(es, "scopes"@);
            SortedMap::<String>::lemma_decode_wf(obj_get(es, "scopes"@)->0);
        }
    }

    proof fn lemma_decode_sentinel(v: SpecVal) {
    }

    /// Beyond the inherited exactness contract: which error kind comes
    /// back, field by field in declared order.
    fn decode(v: &Value) -> (r: Result<Self, DecodeError>)
        ensures
            !(v.deep_view() is Obj) ==> (r matches Err(e) && e is TypeMismatch),
            (v.deep_view() matches SpecVal::Obj(es) && obj_get(es, "authorizationUrl"@) is None) ==> (r matches Err(e)
                && e is MissingRequiredField),
            (v.deep_view() matches SpecVal::Obj(es) && (match obj_get(es, "authorizationUrl"@) {
                Some(sv) => !(sv is Str),
                None => false,
            })) ==> (r matches Err(e) && e is TypeMismatch),
            (v.deep_view() matches SpecVal::Obj(es) && sd_req_str(es, "authorizationUrl"@) is Some && (match obj_get(es, "tokenUrl"@) {
                Some(sv) => !(sv is Str),
                None => false,
            })) ==> (r matches Err(e) && e is TypeMismatch),
            (v.deep_view() matches SpecVal::Obj(es) && sd_req_str(es, "authorizationUrl"@) is Some && sd_opt_str(es, "tokenUrl"@) is Some && (match obj_get(es, "refreshUrl"@) {
                Some(sv) => !(sv is Str),
                None => false,
            })) ==> (r matches Err(e) && e is TypeMismatch),
            (v.deep_view() matches SpecVal::Obj(es) && sd_req_str(es, "authorizationUrl"@) is Some && sd_opt_str(es, "tokenUrl"@) is Some && sd_opt_str(es, "refreshUrl"@) is Some && obj_get(es, "scopes"@) is None) ==> (r matches Err(e)
                && e is MissingRequiredField),
    {
        match v {
            Value::Obj(entries) => {
                let authorization_url = match dec_req_str(entries, "authorizationUrl", "OauthFlow") {
                    Ok(x) => x,
                    Err(e) => return Err(e),
                };
                let token_url = match dec_opt_str(entries, "tokenUrl", "OauthFlow") {
                    Ok(x) => x,
                    Err(e) => return Err(e),
                };
                let refresh_url = match dec_opt_str(entries, "refreshUrl", "OauthFlow") {
                    Ok(x) => x,
                    Err(e) => return Err(e),
                };
                let scopes = match dec_req::<SortedMap<String>>(entries, "scopes", "OauthFlow") {
                    Ok(x) => x,
                    Err(e) => return Err(e),
                };
                let out = OauthFlow { authorization_url, token_url, refresh_url, scopes };
                proof {
                    if wf_val(v.deep_view()) {
                        Self::lemma_decode_wf(v.deep_view());
                    }
                }
                Ok(out)
            },
            _ => Err(
                DecodeError::TypeMismatch {
                    field: "".to_owned(),
                    kind: "OauthFlow".to_owned(),
                    expected: "object".to_owned(),
                },
            ),
        }
    }

    fn encode(&self) -> (r: Value) {
        let mut out: Vec<(String, Value)> = Vec::new();
        let ghost m = self.deep_view();
        enc_str(&mut out, "authorizationUrl", &self.authorization_url);
        proof {
            assert(view_entries(out@) =~= opt_entry("authorizationUrl"@, str_slot(m.authorization_url)));
        }
        enc_opt_str(&mut out, "tokenUrl", &self.token_url);
        proof {
            assert(view_entries(out@) =~= opt_entry("authorizationUrl"@, str_slot(m.authorization_url)) + opt_entry("tokenUrl"@, opt_str_slot(m.token_url)));
        }
        enc_opt_str(&mut out, "refreshUrl", &self.refresh_url);
        proof {
            assert(view_entries(out@) =~= opt_entry("authorizationUrl"@, str_slot(m.authorization_url)) + opt_entry("tokenUrl"@, opt_str_slot(m.token_url)) + opt_entry("refreshUrl"@, opt_str_slot(m.refresh_url)));
        }
        enc_req::<SortedMap<String>>(&mut out, "scopes", &self.scopes);
        proof {
            assert(view_entries(out@) =~= opt_entry("authorizationUrl"@, str_slot(m.authorization_url)) + opt_entry("tokenUrl"@, opt_str_slot(m.token_url)) + opt_entry("refreshUrl"@, opt_str_slot(m.refresh_url)) + opt_entry("scopes"@, req_slot::<SortedMap<String>>(m.scopes)));
        }
        proof {
            lemma_oauthflow_entries(m);
            assert(view_entries(out@) =~= fields_entries(oauthflow_fields(m)));
        }
        Value::Obj(out)
    }
}

/// The encoded entry list of the oauthflow kind, written out field by field.
pub proof fn lemma_oauthflow_entries(m: OauthFlowV) 
    ensures
        fields_entries(oauthflow_fields(m)) == opt_entry("authorizationUrl"@, str_slot(m.authorization_url)) + opt_entry("tokenUrl"@, opt_str_slot(m.token_url)) + opt_entry("refreshUrl"@, opt_str_slot(m.refresh_url)) + opt_entry("scopes"@, req_slot::<SortedMap<String>>(m.scopes)),
{
    let fs = oauthflow_fields(m);
    assert(fs.len() == 4);
    let fs1 = fs.drop_first();
    assert(fs1[0] == fs[1] && fs1.len() == 3);
    let fs2 = fs1.drop_first();
    assert(fs2[0] == fs[2] && fs2.len() == 2);
    let fs3 = fs2.drop_first();
    assert(fs3[0] == fs[3] && fs3.len() == 1);
    let fs4 = fs3.drop_first();
    assert(fs4.len() == 0);
    assert(fields_entries(fs4) =~= Seq::<(Seq<char>, SpecVal)>::empty());
    assert(fields_entries(fs3) =~= opt_entry(fs[3].0, fs[3].1) + fields_entries(fs4));
    assert(fields_entries(fs2) =~= opt_entry(fs[2].0, fs[2].1) + fields_entries(fs3));
    assert(fields_entries(fs1) =~= opt_entry(fs[1].0, fs[1].1) + fields_entries(fs2));
    assert(fields_entries(fs) =~= opt_entry(fs[0].0, fs[0].1) + fields_entries(fs1));
    let e1 = opt_entry("authorizationUrl"@, str_slot(m.authorization_url));
    let e2 = opt_entry("tokenUrl"@, opt_str_slot(m.token_url));
    let e3 = opt_entry("refreshUrl"@, opt_str_slot(m.refresh_url));
    let e4 = opt_entry("scopes"@, req_slot::<SortedMap<String>>(m.scopes));
    assert(fields_entries(fs) == e1 + fields_entries(fs1));
    vstd::seq_lib::lemma_concat_associative(e1, e2, fields_entries(fs2));
    assert((e1 + e2) + fields_entries(fs2) == (e1) + (e2 + fields_entries(fs2)));
    vstd::seq_lib::lemma_concat_associative(e1 + e2, e3, fields_entries(fs3));
    assert((e1 + e2 + e3) + fields_entries(fs3) == (e1 + e2) + (e3 + fields_entries(fs3)));
    vstd::seq_lib::lemma_concat_associative(e1 + e2 + e3, e4, fields_entries(fs4));
    assert((e1 + e2 + e3 + e4) + fields_entries(fs4) == (e1 + e2 + e3) + (e4 + fields_entries(fs4)));
    assert((e1 + e2 + e3 + e4) + fields_entries(fs4) =~= e1 + e2 + e3 + e4);
    assert(fields_entries(fs) == e1 + e2 + e3 + e4);
}

/// The flow configurations a scheme supports.
#[derive(Debug, Clone)]
pub struct OauthFlows {
    pub implicit: Option<OauthFlow>,
    pub password: Option<OauthFlow>,
    pub client_credentials: Option<OauthFlow>,
    pub authorization_code: Option<OauthFlow>,
}

/// The model of a `OauthFlows`.
pub struct OauthFlowsV {
    pub implicit: Option<OauthFlowV>,
    pub password: Option<OauthFlowV>,
    pub client_credentials: Option<OauthFlowV>,
    pub authorization_code: Option<OauthFlowV>,
}

impl DeepView for OauthFlows {
    type V = OauthFlowsV;

    open spec fn deep_view(&self) -> OauthFlowsV {
        OauthFlowsV {
            implicit: self.implicit.deep_view(),
            password: self.password.deep_view(),
            client_credentials: self.client_credentials.deep_view(),
            authorization_code: self.authorization_code.deep_view(),
        }
    }
}

/// The declared fields of the oauthflows kind, in schema order.
pub open spec fn oauthflows_fields(m: OauthFlowsV) -> FieldImage {
    seq![
        ("implicit"@, opt_slot::<OauthFlow>(m.implicit)),
        ("password"@, opt_slot::<OauthFlow>(m.password)),
        ("clientCredentials"@, opt_slot::<OauthFlow>(m.client_credentials)),
        ("authorizationCode"@, opt_slot::<OauthFlow>(m.authorization_code)),
    ]
}

impl Codec for OauthFlows {
    open spec fn spec_decode(v: SpecVal) -> Option<OauthFlowsV> {
        match v {
            SpecVal::Obj(es) => {
                if sd_opt::<OauthFlow>(es, "implicit"@) is Some && sd_opt::<OauthFlow>(es, "password"@) is Some && sd_opt::<OauthFlow>(es, "clientCredentials"@) is Some && sd_opt::<OauthFlow>(es, "authorizationCode"@) is Some {
                    Some(
                        OauthFlowsV {
                            implicit: sd_opt::<OauthFlow>(es, "implicit"@)->0,
                            password: sd_opt::<OauthFlow>(es, "password"@)->0,
                            client_credentials: sd_opt::<OauthFlow>(es, "clientCredentials"@)->0,
                            authorization_code: sd_opt::<OauthFlow>(es, "authorizationCode"@)->0,
                        },
                    )
                } else {
                    None
                }
            },
            _ => None,
        }
    }

    open spec fn spec_encode(m: OauthFlowsV) -> SpecVal {
        SpecVal::Obj(fields_entries(oauthflows_fields(m)))
    }

    open spec fn model_wf(m: OauthFlowsV) -> bool {
        (match m.implicit {
            Some(t) => OauthFlow::model_wf(t),
            None => true,
        }) && (match m.password {
            Some(t) => OauthFlow::model_wf(t),
            None => true,
        }) && (match m.client_credentials {
            Some(t) => OauthFlow::model_wf(t),
            None => true,
        }) && (match m.authorization_code {
            Some(t) => OauthFlow::model_wf(t),
            None => true,
        })
    }

    open spec fn sentinel_free(m: OauthFlowsV) -> bool {
        true
    }

    proof fn lemma_codec(m: OauthFlowsV) {
        reveal_strlit("implicit");
        reveal_strlit("password");
        reveal_strlit("clientCredentials");
        reveal_strlit("authorizationCode");
        reveal_strlit("$ref");
        let fs = oauthflows_fields(m);
        assert(fs[0].0 == "implicit"@);
        assert(fs[1].0 == "password"@);
        assert(fs[2].0 == "clientCredentials"@);
        assert(fs[3].0 == "authorizationCode"@);
        assert(("implicit"@)[0] == 'i');
        assert(("password"@)[0] == 'p');
        assert(("clientCredentials"@)[0] == 'c');
        assert(("authorizationCode"@)[0] == 'a');
        assert("implicit"@ != "password"@ && "implicit"@ != "clientCredentials"@ && "implicit"@ != "authorizationCode"@);
        assert("password"@ != "clientCredentials"@ && "password"@ != "authorizationCode"@ && "clientCredentials"@ != "authorizationCode"@);
        assert("implicit"@ != "$ref"@ && "password"@ != "$ref"@ && "clientCredentials"@ != "$ref"@);
        assert("authorizationCode"@ != "$ref"@);
        assert(distinct_names(fs));
        if m.implicit is Some {
            OauthFlow::lemma_codec(m.implicit->0);
        }
        if m.password is Some {
            OauthFlow::lemma_codec(m.password->0);
        }
        if m.client_credentials is Some {
            OauthFlow::lemma_codec(m.client_credentials->0);
        }
        if m.authorization_code is Some {
            OauthFlow::lemma_codec(m.authorization_code->0);
        }
        assert(match fs[0].1 {
            Some(sv) => wf_val(sv),
            None => true,
        });
        assert(match fs[1].1 {
            Some(sv) => wf_val(sv),
            None => true,
        });
        assert(match fs[2].1 {
            Some(sv) => wf_val(sv),
            None => true,
        });
        assert(match fs[3].1 {
            Some(sv) => wf_val(sv),
            None => true,
        });
        lemma_record_obj(fs, Seq::empty(), ref_key());
        let es = fields_entries(fs) + Seq::<(Seq<char>, SpecVal)>::empty();
        assert(es =~= fields_entries(fs));
        assert(obj_get(es, "implicit"@) == opt_slot::<OauthFlow>(m.implicit));
        assert(obj_get(es, "password"@) == opt_slot::<OauthFlow>(m.password));
        assert(obj_get(es, "clientCredentials"@) == opt_slot::<OauthFlow>(m.client_credentials));
        assert(obj_get(es, "authorizationCode"@) == opt_slot::<OauthFlow>(m.authorization_code));
    }

    proof fn lemma_decode_wf(v: SpecVal) {
        let es = v->Obj_0;
        assert(forall|i: int| 0 <= i < es.len() ==> wf_val(#[trigger] es[i].1));
        if obj_get(es, "implicit"@) is Some {
            lemma_get_wf(es, "implicit"@);
            OauthFlow::lemma_decode_wf(obj_get(es, "implicit"@)->0);
        }
        if obj_get(es, "password"@) is Some {
            lemma_get_wf(es, "password"@);
            OauthFlow::lemma_decode_wf(obj_get(es, "password"@)->0);
        }
        if obj_get(es, "clientCredentials"@) is Some {
            lemma_get_wf(es, "clientCredentials"@);
            OauthFlow::lemma_decode_wf(obj_get(es, "clientCredentials"@)->0);
        }
        if obj_get(es, "authorizationCode"@) is Some {
            lemma_get_wf(es, "authorizationCode"@);
            OauthFlow::lemma_decode_wf(obj_get(es, "authorizationCode"@)->0);
        }
    }

    proof fn lemma_decode_sentinel(v: SpecVal) {
    }

    /// Beyond the inherited exactness contract: which error kind comes
    /// back, field by field in declared order.
    fn decode(v: &Value) -> (r: Result<Self, DecodeError>)
        ensures
            !(v.deep_view() is Obj) ==> (r matches Err(e) && e is TypeMismatch),
    {
        match v {
            Value::Obj(entries) => {
                let implicit = match dec_opt::<OauthFlow>(entries, "implicit") {
                    Ok(x) => x,
                    Err(e) => return Err(e),
                };
                let password = match dec_opt::<OauthFlow>(entries, "password") {
                    Ok(x) => x,
                    Err(e) => return Err(e),
                };
                let client_credentials = match dec_opt::<OauthFlow>(entries, "clientCredentials") {
                    Ok(x) => x,
                    Err(e) => return Err(e),
                };
                let authorization_code = match dec_opt::<OauthFlow>(entries, "authorizationCode") {
                    Ok(x) => x,
                    Err(e) => return Err(e),
                };
                let out = OauthFlows { implicit, password, client_credentials, authorization_code };
                proof {
                    if wf_val(v.deep_view()) {
                        Self::lemma_decode_wf(v.deep_view());
                    }
                }
                Ok(out)
            },
            _ => Err(
                DecodeError::TypeMismatch {
                    field: "".to_owned(),
                    kind: "OauthFlows".to_owned(),
                    expected: "object".to_owned(),
                },
            ),
        }
    }

    fn encode(&self) -> (r: Value) {
        let mut out: Vec<(String, Value)> = Vec::new();
        let ghost m = self.deep_view();
        enc_opt::<OauthFlow>(&mut out, "implicit", &self.implicit);
        proof {
            assert(view_entries(out@) =~= opt_entry("implicit"@, opt_slot::<OauthFlow>(m.implicit)));
        }
        enc_opt::<OauthFlow>(&mut out, "password", &self.password);
        proof {
            assert(view_entries(out@) =~= opt_entry("implicit"@, opt_slot::<OauthFlow>(m.implicit)) + opt_entry("password"@, opt_slot::<OauthFlow>(m.password)));
        }
        enc_opt::<OauthFlow>(&mut out, "clientCredentials", &self.client_credentials);
        proof {
            assert(view_entries(out@) =~= opt_entry("implicit"@, opt_slot::<OauthFlow>(m.implicit)) + opt_entry("password"@, opt_slot::<OauthFlow>(m.password)) + opt_entry("clientCredentials"@, opt_slot::<OauthFlow>(m.client_credentials)));
        }
        enc_opt::<OauthFlow>(&mut out, "authorizationCode", &self.authorization_code);
        proof {
            assert(view_entries(out@) =~= opt_entry("implicit"@, opt_slot::<OauthFlow>(m.implicit)) + opt_entry("password"@, opt_slot::<OauthFlow>(m.password)) + opt_entry("clientCredentials"@, opt_slot::<OauthFlow>(m.client_credentials)) + opt_entry("authorizationCode"@, opt_slot::<OauthFlow>(m.authorization_code)));
        }
        proof {
            lemma_oauthflows_entries(m);
            assert(view_entries(out@) =~= fields_entries(oauthflows_fields(m)));
        }
        Value::Obj(out)
    }
}

/// The encoded entry list of the oauthflows kind, written out field by field.
pub proof fn lemma_oauthflows_entries(m: OauthFlowsV) 
    ensures
        fields_entries(oauthflows_fields(m)) == opt_entry("implicit"@, opt_slot::<OauthFlow>(m.implicit)) + opt_entry("password"@, opt_slot::<OauthFlow>(m.password)) + opt_entry("clientCredentials"@, opt_slot::<OauthFlow>(m.client_credentials)) + opt_entry("authorizationCode"@, opt_slot::<OauthFlow>(m.authorization_code)),
{
    let fs = oauthflows_fields(m);
    assert(fs.len() == 4);
    let fs1 = fs.drop_first();
    assert(fs1[0] == fs[1] && fs1.len() == 3);
    let fs2 = fs1.drop_first();
    assert(fs2[0] == fs[2] && fs2.len() == 2);
    let fs3 = fs2.drop_first();
    assert(fs3[0] == fs[3] && fs3.len() == 1);
    let fs4 = fs3.drop_first();
    assert(fs4.len() == 0);
    assert(fields_entries(fs4) =~= Seq::<(Seq<char>, SpecVal)>::empty());
    assert(fields_entries(fs3) =~= opt_entry(fs[3].0, fs[3].1) + fields_entries(fs4));
    assert(fields_entries(fs2) =~= opt_entry(fs[2].0, fs[2].1) + fields_entries(fs3));
    assert(fields_entries(fs1) =~= opt_entry(fs[1].0, fs[1].1) + fields_entries(fs2));
    assert(fields_entries(fs) =~= opt_entry(fs[0].0, fs[0].1) + fields_entries(fs1));
    let e1 = opt_entry("implicit"@, opt_slot::<OauthFlow>(m.implicit));
    let e2 = opt_entry("password"@, opt_slot::<OauthFlow>(m.password));
    let e3 = opt_entry("clientCredentials"@, opt_slot::<OauthFlow>(m.client_credentials));
    let e4 = opt_entry("authorizationCode"@, opt_slot::<OauthFlow>(m.authorization_code));
    assert(fields_entries(fs) == e1 + fields_entries(fs1));
    vstd::seq_lib::lemma_concat_associative(e1, e2, fields_entries(fs2));
    assert((e1 + e2) + fields_entries(fs2) == (e1) + (e2 + fields_entries(fs2)));
    vstd::seq_lib::lemma_concat_associative(e1 + e2, e3, fields_entries(fs3));
    assert((e1 + e2 + e3) + fields_entries(fs3) == (e1 + e2) + (e3 + fields_entries(fs3)));
    vstd::seq_lib::lemma_concat_associative(e1 + e2 + e3, e4, fields_entries(fs4));
    assert((e1 + e2 + e3 + e4) + fields_entries(fs4) == (e1 + e2 + e3) + (e4 + fields_entries(fs4)));
    assert((e1 + e2 + e3 + e4) + fields_entries(fs4) =~= e1 + e2 + e3 + e4);
    assert(fields_entries(fs) == e1 + e2 + e3 + e4);
}


/// The type of a security scheme: one of a fixed, closed set of mutually
/// exclusive shapes, selected by the value of the sentinel `type` field.
/// The sentinel is consumed on decode and synthesized, first, on encode.
#[derive(Debug, Clone)]
pub enum SecurityType {
    ApiKey { name: String, _in: ParameterIn },
    Http { scheme: String, bearer_format: Option<String> },
    Oauth2 { flows: OauthFlows },
    OpenIdConnect { open_id_connect_url: String },
}

/// The model of a `SecurityType`.
pub enum SecurityTypeV {
    ApiKey { name: Seq<char>, _in: ParameterIn },
    Http { scheme: Seq<char>, bearer_format: Option<Seq<char>> },
    Oauth2 { flows: OauthFlowsV },
    OpenIdConnect { open_id_connect_url: Seq<char> },
}

impl DeepView for SecurityType {
    type V = SecurityTypeV;

    open spec fn deep_view(&self) -> SecurityTypeV {
        match self {
            SecurityType::ApiKey { name, _in } => SecurityTypeV::ApiKey {
                name: name.deep_view(),
                _in: _in.deep_view(),
            },
            SecurityType::Http { scheme, bearer_format } => SecurityTypeV::Http {
                scheme: scheme.deep_view(),
                bearer_format: bearer_format.deep_view(),
            },
            SecurityType::Oauth2 { flows } => SecurityTypeV::Oauth2 { flows: flows.deep_view() },
            SecurityType::OpenIdConnect { open_id_connect_url } => SecurityTypeV::OpenIdConnect {
                open_id_connect_url: open_id_connect_url.deep_view(),
            },
        }
    }
}

/// The declared fields of each security-scheme shape: the sentinel first,
/// then that shape's own fields.
pub open spec fn sectype_fields(m: SecurityTypeV) -> FieldImage {
    match m {
        SecurityTypeV::ApiKey { name, _in } => seq![
            ("type"@, str_slot("apiKey"@)),
            ("name"@, str_slot(name)),
            ("in"@, req_slot::<ParameterIn>(_in)),
        ],
        SecurityTypeV::Http { scheme, bearer_format } => seq![
            ("type"@, str_slot("http"@)),
            ("scheme"@, str_slot(scheme)),
            ("bearerFormat"@, opt_str_slot(bearer_format)),
        ],
        SecurityTypeV::Oauth2 { flows } => seq![
            ("type"@, str_slot("oauth2"@)),
            ("flows"@, req_slot::<OauthFlows>(flows)),
        ],
        SecurityTypeV::OpenIdConnect { open_id_connect_url } => seq![
            ("type"@, str_slot("openIdConnect"@)),
            ("openIdConnectUrl"@, str_slot(open_id_connect_url)),
        ],
    }
}

/// Decode of the variant part shared by `SecurityType` and
/// `SecurityScheme`: dispatch on the sentinel string.
pub open spec fn sectype_decode(es: crate::value::SpecEntries) -> Option<SecurityTypeV> {
    match sd_req_str(es, "type"@) {
        Some(t) => if t == "apiKey"@ {
            if sd_req_str(es, "name"@) is Some && sd_req::<ParameterIn>(es, "in"@) is Some {
                Some(
                    SecurityTypeV::ApiKey {
                        name: sd_req_str(es, "name"@)->0,
                        _in: sd_req::<ParameterIn>(es, "in"@)->0,
                    },
                )
            } else {
                None
            }
        } else if t == "http"@ {
            if sd_req_str(es, "scheme"@) is Some && sd_opt_str(es, "bearerFormat"@) is Some {
                Some(
                    SecurityTypeV::Http {
                        scheme: sd_req_str(es, "scheme"@)->0,
                        bearer_format: sd_opt_str(es, "bearerFormat"@)->0,
                    },
                )
            } else {
                None
            }
        } else if t == "oauth2"@ {
            if sd_req::<OauthFlows>(es, "flows"@) is Some {
                Some(SecurityTypeV::Oauth2 { flows: sd_req::<OauthFlows>(es, "flows"@)->0 })
            } else {
                None
            }
        } else if t == "openIdConnect"@ {
            if sd_req_str(es, "openIdConnectUrl"@) is Some {
                Some(
                    SecurityTypeV::OpenIdConnect {
                        open_id_connect_url: sd_req_str(es, "openIdConnectUrl"@)->0,
                    },
                )
            } else {
                None
            }
        } else {
            None
        },
        None => None,
    }
}

/// Well-formedness of a security-type model.
pub open spec fn sectype_wf(m: SecurityTypeV) -> bool {
    match m {
        SecurityTypeV::Oauth2 { flows } => OauthFlows::model_wf(flows),
        _ => true,
    }
}

/// The sentinel string is outside the fixed known set of shapes.
pub open spec fn sectype_tag_unknown(t: Seq<char>) -> bool {
    t != "apiKey"@ && t != "http"@ && t != "oauth2"@ && t != "openIdConnect"@
}

impl Codec for SecurityType {
    open spec fn spec_decode(v: SpecVal) -> Option<SecurityTypeV> {
        match v {
            SpecVal::Obj(es) => sectype_decode(es),
            _ => None,
        }
    }

    open spec fn spec_encode(m: SecurityTypeV) -> SpecVal {
        SpecVal::Obj(fields_entries(sectype_fields(m)))
    }

    open spec fn model_wf(m: SecurityTypeV) -> bool {
        sectype_wf(m)
    }

    open spec fn sentinel_free(m: SecurityTypeV) -> bool {
        true
    }

    proof fn lemma_codec(m: SecurityTypeV) {
        lemma_sectype_codec(m);
    }

    proof fn lemma_decode_wf(v: SpecVal) {
        lemma_sectype_decode_wf(v->Obj_0);
    }

    proof fn lemma_decode_sentinel(v: SpecVal) {
    }

    fn decode(v: &Value) -> (r: Result<Self, DecodeError>)
        ensures
            (v.deep_view() matches SpecVal::Obj(es) && sd_req_str(es, "type"@) matches Some(t)
                && sectype_tag_unknown(t)) ==> (r matches Err(e) && e is UnknownVariant),
            !(v.deep_view() is Obj) ==> (r matches Err(e) && e is TypeMismatch),
            (v.deep_view() matches SpecVal::Obj(es) && obj_get(es, "type"@) is None) ==> (r
                matches Err(e) && e is MissingRequiredField),
            (v.deep_view() matches SpecVal::Obj(es) && (match obj_get(es, "type"@) {
                Some(sv) => !(sv is Str),
                None => false,
            })) ==> (r matches Err(e) && e is TypeMismatch),
    {
        match v {
            Value::Obj(entries) => {
                let t = match dec_req_str(entries, "type", "SecurityType") {
                    Ok(s) => s,
                    Err(e) => return Err(e),
                };
                if t == "apiKey".to_owned() {
                    let name = match dec_req_str(entries, "name", "SecurityType") {
                        Ok(x) => x,
                        Err(e) => return Err(e),
                    };
                    let _in = match dec_req::<ParameterIn>(entries, "in", "SecurityType") {
                        Ok(x) => x,
                        Err(e) => return Err(e),
                    };
                    Ok(SecurityType::ApiKey { name, _in })
                } else if t == "http".to_owned() {
                    let scheme = match dec_req_str(entries, "scheme", "SecurityType") {
                        Ok(x) => x,
                        Err(e) => return Err(e),
                    };
                    let bearer_format = match dec_opt_str(entries, "bearerFormat", "SecurityType") {
                        Ok(x) => x,
                        Err(e) => return Err(e),
                    };
                    Ok(SecurityType::Http { scheme, bearer_format })
                } else if t == "oauth2".to_owned() {
                    let flows = match dec_req::<OauthFlows>(entries, "flows", "SecurityType") {
                        Ok(x) => x,
                        Err(e) => return Err(e),
                    };
                    proof {
                        if wf_val(v.deep_view()) {
                            Self::lemma_decode_wf(v.deep_view());
                        }
                    }
                    Ok(SecurityType::Oauth2 { flows })
                } else if t == "openIdConnect".to_owned() {
                    let open_id_connect_url = match dec_req_str(
                        entries,
                        "openIdConnectUrl",
                        "SecurityType",
                    ) {
                        Ok(x) => x,
                        Err(e) => return Err(e),
                    };
                    Ok(SecurityType::OpenIdConnect { open_id_connect_url })
                } else {
                    Err(
                        DecodeError::UnknownVariant {
                            value: t,
                            kind: "SecurityType".to_owned(),
                        },
                    )
                }
            },
            _ => Err(
                DecodeError::TypeMismatch {
                    field: "".to_owned(),
                    kind: "SecurityType".to_owned(),
                    expected: "object".to_owned(),
                },
            ),
        }
    }

    fn encode(&self) -> (r: Value) {
        let ghost m = self.deep_view();
        let mut out: Vec<(String, Value)> = Vec::new();
        match self {
            SecurityType::ApiKey { name, _in } => {
                enc_field(&mut out, "type", Value::Str("apiKey".to_owned()));
                enc_str(&mut out, "name", name);
                enc_req::<ParameterIn>(&mut out, "in", _in);
                proof {
                    lemma_sectype_entries(m);
                    assert(view_entries(out@) =~= fields_entries(sectype_fields(m)));
                }
            },
            SecurityType::Http { scheme, bearer_format } => {
                enc_field(&mut out, "type", Value::Str("http".to_owned()));
                enc_str(&mut out, "scheme", scheme);
                enc_opt_str(&mut out, "bearerFormat", bearer_format);
                proof {
                    lemma_sectype_entries(m);
                    assert(view_entries(out@) =~= fields_entries(sectype_fields(m)));
                }
            },
            SecurityType::Oauth2 { flows } => {
                enc_field(&mut out, "type", Value::Str("oauth2".to_owned()));
                enc_req::<OauthFlows>(&mut out, "flows", flows);
                proof {
                    lemma_sectype_entries(m);
                    assert(view_entries(out@) =~= fields_entries(sectype_fields(m)));
                }
            },
            SecurityType::OpenIdConnect { open_id_connect_url } => {
                enc_field(&mut out, "type", Value::Str("openIdConnect".to_owned()));
                enc_str(&mut out, "openIdConnectUrl", open_id_connect_url);
                proof {
                    lemma_sectype_entries(m);
                    assert(view_entries(out@) =~= fields_entries(sectype_fields(m)));
                }
            },
        }
        Value::Obj(out)
    }
}

/// The encoded entry list of each security-type shape.
pub proof fn lemma_sectype_entries(m: SecurityTypeV)
    ensures
        fields_entries(sectype_fields(m)) == match m {
            SecurityTypeV::ApiKey { name, _in } => opt_entry("type"@, str_slot("apiKey"@))
                + opt_entry("name"@, str_slot(name)) + opt_entry(
                "in"@,
                req_slot::<ParameterIn>(_in),
            ),
            SecurityTypeV::Http { scheme, bearer_format } => opt_entry(
                "type"@,
                str_slot("http"@),
            ) + opt_entry("scheme"@, str_slot(scheme)) + opt_entry(
                "bearerFormat"@,
                opt_str_slot(bearer_format),
            ),
            SecurityTypeV::Oauth2 { flows } => opt_entry("type"@, str_slot("oauth2"@))
                + opt_entry("flows"@, req_slot::<OauthFlows>(flows)),
            SecurityTypeV::OpenIdConnect { open_id_connect_url } => opt_entry(
                "type"@,
                str_slot("openIdConnect"@),
            ) + opt_entry("openIdConnectUrl"@, str_slot(open_id_connect_url)),
        },
{
    let fs = sectype_fields(m);
    let fs1 = fs.drop_first();
    let fs2 = fs1.drop_first();
    match m {
        SecurityTypeV::ApiKey { name, _in } => {
            let fs3 = fs2.drop_first();
            assert(fs1[0] == fs[1] && fs2[0] == fs[2] && fs3.len() == 0);
            assert(fields_entries(fs3) =~= Seq::<(Seq<char>, SpecVal)>::empty());
            assert(fields_entries(fs2) =~= opt_entry(fs[2].0, fs[2].1) + fields_entries(fs3));
            assert(fields_entries(fs1) =~= opt_entry(fs[1].0, fs[1].1) + fields_entries(fs2));
            assert(fields_entries(fs) =~= opt_entry(fs[0].0, fs[0].1) + fields_entries(fs1));
            assert(fields_entries(fs) =~= opt_entry("type"@, str_slot("apiKey"@)) + opt_entry(
                "name"@,
                str_slot(name),
            ) + opt_entry("in"@, req_slot::<ParameterIn>(_in)));
        },
        SecurityTypeV::Http { scheme, bearer_format } => {
            let fs3 = fs2.drop_first();
            assert(fs1[0] == fs[1] && fs2[0] == fs[2] && fs3.len() == 0);
            assert(fields_entries(fs3) =~= Seq::<(Seq<char>, SpecVal)>::empty());
            assert(fields_entries(fs2) =~= opt_entry(fs[2].0, fs[2].1) + fields_entries(fs3));
            assert(fields_entries(fs1) =~= opt_entry(fs[1].0, fs[1].1) + fields_entries(fs2));
            assert(fields_entries(fs) =~= opt_entry(fs[0].0, fs[0].1) + fields_entries(fs1));
            assert(fields_entries(fs) =~= opt_entry("type"@, str_slot("http"@)) + opt_entry(
                "scheme"@,
                str_slot(scheme),
            ) + opt_entry("bearerFormat"@, opt_str_slot(bearer_format)));
        },
        SecurityTypeV::Oauth2 { flows } => {
            assert(fs1[0] == fs[1] && fs2.len() == 0);
            assert(fields_entries(fs2) =~= Seq::<(Seq<char>, SpecVal)>::empty());
            assert(fields_entries(fs1) =~= opt_entry(fs[1].0, fs[1].1) + fields_entries(fs2));
            assert(fields_entries(fs) =~= opt_entry(fs[0].0, fs[0].1) + fields_entries(fs1));
            assert(fields_entries(fs) =~= opt_entry("type"@, str_slot("oauth2"@)) + opt_entry(
                "flows"@,
                req_slot::<OauthFlows>(flows),
            ));
        },
        SecurityTypeV::OpenIdConnect { open_id_connect_url } => {
            assert(fs1[0] == fs[1] && fs2.len() == 0);
            assert(fields_entries(fs2) =~= Seq::<(Seq<char>, SpecVal)>::empty());
            assert(fields_entries(fs1) =~= opt_entry(fs[1].0, fs[1].1) + fields_entries(fs2));
            assert(fields_entries(fs) =~= opt_entry(fs[0].0, fs[0].1) + fields_entries(fs1));
            assert(fields_entries(fs) =~= opt_entry("type"@, str_slot("openIdConnect"@))
                + opt_entry("openIdConnectUrl"@, str_slot(open_id_connect_url)));
        },
    }
}

/// The tag strings of the four shapes are pairwise distinct, and none of
/// the declared names collides with another or with the pointer sentinel.
proof fn lemma_sectype_strings()
    ensures
        "apiKey"@ != "http"@ && "apiKey"@ != "oauth2"@ && "apiKey"@ != "openIdConnect"@,
        "http"@ != "oauth2"@ && "http"@ != "openIdConnect"@ && "oauth2"@ != "openIdConnect"@,
        "type"@ != "name"@ && "type"@ != "in"@ && "name"@ != "in"@,
        "type"@ != "scheme"@ && "type"@ != "bearerFormat"@ && "scheme"@ != "bearerFormat"@,
        "type"@ != "flows"@ && "type"@ != "openIdConnectUrl"@,
        "type"@ != "$ref"@ && "name"@ != "$ref"@ && "in"@ != "$ref"@,
        "scheme"@ != "$ref"@ && "bearerFormat"@ != "$ref"@ && "flows"@ != "$ref"@,
        "openIdConnectUrl"@ != "$ref"@,
        "type"@ != "description"@ && "name"@ != "description"@ && "in"@ != "description"@,
        "scheme"@ != "description"@ && "bearerFormat"@ != "description"@,
        "flows"@ != "description"@ && "openIdConnectUrl"@ != "description"@,
        "description"@ != "$ref"@,
{
    reveal_strlit("apiKey");
    reveal_strlit("http");
    reveal_strlit("oauth2");
    reveal_strlit("openIdConnect");
    reveal_strlit("type");
    reveal_strlit("name");
    reveal_strlit("in");
    reveal_strlit("scheme");
    reveal_strlit("bearerFormat");
    reveal_strlit("flows");
    reveal_strlit("openIdConnectUrl");
    reveal_strlit("description");
    reveal_strlit("$ref");
    assert(("apiKey"@).len() == 6 && ("http"@).len() == 4 && ("oauth2"@).len() == 6);
    assert(("openIdConnect"@).len() == 13 && ("type"@).len() == 4 && ("name"@).len() == 4);
    assert(("in"@).len() == 2 && ("scheme"@).len() == 6 && ("bearerFormat"@).len() == 12);
    assert(("flows"@).len() == 5 && ("openIdConnectUrl"@).len() == 16);
    assert(("description"@).len() == 11 && ("$ref"@).len() == 4);
    assert(("apiKey"@)[0] == 'a' && ("oauth2"@)[0] == 'o');
    assert(("type"@)[0] == 't' && ("name"@)[0] == 'n' && ("$ref"@)[0] == '$');
    assert(("scheme"@)[0] == 's');
}

/// Round trip of the security-type shapes.
proof fn lemma_sectype_codec(m: SecurityTypeV)
    requires
        sectype_wf(m),
    ensures
        sectype_decode(fields_entries(sectype_fields(m))) == Some(m),
        wf_val(SpecVal::Obj(fields_entries(sectype_fields(m)))),
        !crate::obj::has_key(fields_entries(sectype_fields(m)), ref_key()),
{
    lemma_sectype_strings();
    let fs = sectype_fields(m);
    match m {
        SecurityTypeV::ApiKey { name, _in } => {
            assert(fs[0].0 == "type"@ && fs[1].0 == "name"@ && fs[2].0 == "in"@);
            assert(distinct_names(fs));
            ParameterIn::lemma_codec(_in);
            assert(match fs[0].1 {
                Some(sv) => wf_val(sv),
                None => true,
            });
            assert(match fs[1].1 {
                Some(sv) => wf_val(sv),
                None => true,
            });
            assert(match fs[2].1 {
                Some(sv) => wf_val(sv),
                None => true,
            });
            lemma_record_obj(fs, Seq::empty(), ref_key());
            let es = fields_entries(fs) + Seq::<(Seq<char>, SpecVal)>::empty();
            assert(es =~= fields_entries(fs));
            assert(obj_get(es, "type"@) == str_slot("apiKey"@));
            assert(obj_get(es, "name"@) == str_slot(name));
            assert(obj_get(es, "in"@) == req_slot::<ParameterIn>(_in));
        },
        SecurityTypeV::Http { scheme, bearer_format } => {
            assert(fs[0].0 == "type"@ && fs[1].0 == "scheme"@ && fs[2].0 == "bearerFormat"@);
            assert(distinct_names(fs));
            assert(match fs[2].1 {
                Some(sv) => wf_val(sv),
                None => true,
            });
            lemma_record_obj(fs, Seq::empty(), ref_key());
            let es = fields_entries(fs) + Seq::<(Seq<char>, SpecVal)>::empty();
            assert(es =~= fields_entries(fs));
            assert(obj_get(es, "type"@) == str_slot("http"@));
            assert(obj_get(es, "scheme"@) == str_slot(scheme));
            assert(obj_get(es, "bearerFormat"@) == opt_str_slot(bearer_format));
        },
        SecurityTypeV::Oauth2 { flows } => {
            assert(fs[0].0 == "type"@ && fs[1].0 == "flows"@);
            assert(distinct_names(fs));
            OauthFlows::lemma_codec(flows);
            assert(match fs[1].1 {
                Some(sv) => wf_val(sv),
                None => true,
            });
            lemma_record_obj(fs, Seq::empty(), ref_key());
            let es = fields_entries(fs) + Seq::<(Seq<char>, SpecVal)>::empty();
            assert(es =~= fields_entries(fs));
            assert(obj_get(es, "type"@) == str_slot("oauth2"@));
            assert(obj_get(es, "flows"@) == req_slot::<OauthFlows>(flows));
        },
        SecurityTypeV::OpenIdConnect { open_id_connect_url } => {
            assert(fs[0].0 == "type"@ && fs[1].0 == "openIdConnectUrl"@);
            assert(distinct_names(fs));
            lemma_record_obj(fs, Seq::empty(), ref_key());
            let es = fields_entries(fs) + Seq::<(Seq<char>, SpecVal)>::empty();
            assert(es =~= fields_entries(fs));
            assert(obj_get(es, "type"@) == str_slot("openIdConnect"@));
            assert(obj_get(es, "openIdConnectUrl"@) == str_slot(open_id_connect_url));
        },
    }
}

/// Decoding a well-formed tree yields a well-formed security type.
proof fn lemma_sectype_decode_wf(es: crate::value::SpecEntries)
    requires
        sectype_decode(es) is Some,
        wf_val(SpecVal::Obj(es)),
    ensures
        sectype_wf(sectype_decode(es)->0),
{
    assert(forall|i: int| 0 <= i < es.len() ==> wf_val(#[trigger] es[i].1));
    if obj_get(es, "flows"@) is Some {
        lemma_get_wf(es, "flows"@);
        if OauthFlows::spec_decode(obj_get(es, "flows"@)->0) is Some {
            OauthFlows::lemma_decode_wf(obj_get(es, "flows"@)->0);
        }
    }
}


/// A security scheme: one of the four shapes plus an optional
/// description, written flat into a single object with the sentinel
/// `type` field first.
#[derive(Debug, Clone)]
pub struct SecurityScheme {
    pub _type: SecurityType,
    /// A short description for the security scheme.
    pub description: Option<String>,
}

/// The model of a `SecurityScheme`.
pub struct SecuritySchemeV {
    pub _type: SecurityTypeV,
    pub description: Option<Seq<char>>,
}

impl DeepView for SecurityScheme {
    type V = SecuritySchemeV;

    open spec fn deep_view(&self) -> SecuritySchemeV {
        SecuritySchemeV { _type: self._type.deep_view(), description: self.description.deep_view() }
    }
}

/// The declared fields of a security scheme: the shape's fields, then
/// the description.
pub open spec fn scheme_fields(m: SecuritySchemeV) -> FieldImage {
    sectype_fields(m._type) + seq![("description"@, opt_str_slot(m.description))]
}

impl Codec for SecurityScheme {
    open spec fn spec_decode(v: SpecVal) -> Option<SecuritySchemeV> {
        match v {
            SpecVal::Obj(es) => match sectype_decode(es) {
                Some(t) => match sd_opt_str(es, "description"@) {
                    Some(d) => Some(SecuritySchemeV { _type: t, description: d }),
                    None => None,
                },
                None => None,
            },
            _ => None,
        }
    }

    open spec fn spec_encode(m: SecuritySchemeV) -> SpecVal {
        SpecVal::Obj(fields_entries(scheme_fields(m)))
    }

    open spec fn model_wf(m: SecuritySchemeV) -> bool {
        sectype_wf(m._type)
    }

    open spec fn sentinel_free(m: SecuritySchemeV) -> bool {
        true
    }

    proof fn lemma_codec(m: SecuritySchemeV) {
        lemma_sectype_strings();
        let tfs = sectype_fields(m._type);
        let dfs = seq![("description"@, opt_str_slot(m.description))];
        let fs = scheme_fields(m);
        crate::obj::lemma_fields_entries_app(tfs, dfs);
        assert(fields_entries(dfs) =~= opt_entry("description"@, opt_str_slot(m.description)))
            by {
            assert(dfs.drop_first().len() == 0);
            assert(fields_entries(dfs.drop_first()) =~= Seq::<(Seq<char>, SpecVal)>::empty());
            assert(fields_entries(dfs) =~= opt_entry(dfs[0].0, dfs[0].1) + fields_entries(
                dfs.drop_first(),
            ));
        }
        match m._type {
            SecurityTypeV::ApiKey { name, _in } => {
                assert(fs[0].0 == "type"@ && fs[1].0 == "name"@ && fs[2].0 == "in"@
                    && fs[3].0 == "description"@);
                assert(distinct_names(fs));
                ParameterIn::lemma_codec(_in);
                assert(match fs[2].1 {
                    Some(sv) => wf_val(sv),
                    None => true,
                });
                lemma_record_obj(fs, Seq::empty(), ref_key());
                let es = fields_entries(fs) + Seq::<(Seq<char>, SpecVal)>::empty();
                assert(es =~= fields_entries(fs));
                assert(obj_get(es, "type"@) == str_slot("apiKey"@));
                assert(obj_get(es, "name"@) == str_slot(name));
                assert(obj_get(es, "in"@) == req_slot::<ParameterIn>(_in));
                assert(obj_get(es, "description"@) == opt_str_slot(m.description));
            },
            SecurityTypeV::Http { scheme, bearer_format } => {
                assert(fs[0].0 == "type"@ && fs[1].0 == "scheme"@ && fs[2].0 == "bearerFormat"@
                    && fs[3].0 == "description"@);
                assert(distinct_names(fs));
                assert(match fs[2].1 {
                    Some(sv) => wf_val(sv),
                    None => true,
                });
                lemma_record_obj(fs, Seq::empty(), ref_key());
                let es = fields_entries(fs) + Seq::<(Seq<char>, SpecVal)>::empty();
                assert(es =~= fields_entries(fs));
                assert(obj_get(es, "type"@) == str_slot("http"@));
                assert(obj_get(es, "scheme"@) == str_slot(scheme));
                assert(obj_get(es, "bearerFormat"@) == opt_str_slot(bearer_format));
                assert(obj_get(es, "description"@) == opt_str_slot(m.description));
            },
            SecurityTypeV::Oauth2 { flows } => {
                assert(fs[0].0 == "type"@ && fs[1].0 == "flows"@ && fs[2].0 == "description"@);
                assert(distinct_names(fs));
                OauthFlows::lemma_codec(flows);
                assert(match fs[1].1 {
                    Some(sv) => wf_val(sv),
                    None => true,
                });
                lemma_record_obj(fs, Seq::empty(), ref_key());
                let es = fields_entries(fs) + Seq::<(Seq<char>, SpecVal)>::empty();
                assert(es =~= fields_entries(fs));
                assert(obj_get(es, "type"@) == str_slot("oauth2"@));
                assert(obj_get(es, "flows"@) == req_slot::<OauthFlows>(flows));
                assert(obj_get(es, "description"@) == opt_str_slot(m.description));
            },
            SecurityTypeV::OpenIdConnect { open_id_connect_url } => {
                assert(fs[0].0 == "type"@ && fs[1].0 == "openIdConnectUrl"@
                    && fs[2].0 == "description"@);
                assert(distinct_names(fs));
                lemma_record_obj(fs, Seq::empty(), ref_key());
                let es = fields_entries(fs) + Seq::<(Seq<char>, SpecVal)>::empty();
                assert(es =~= fields_entries(fs));
                assert(obj_get(es, "type"@) == str_slot("openIdConnect"@));
                assert(obj_get(es, "openIdConnectUrl"@) == str_slot(open_id_connect_url));
                assert(obj_get(es, "description"@) == opt_str_slot(m.description));
            },
        }
    }

    proof fn lemma_decode_wf(v: SpecVal) {
        lemma_sectype_decode_wf(v->Obj_0);
    }

    proof fn lemma_decode_sentinel(v: SpecVal) {
    }

    fn decode(v: &Value) -> (r: Result<Self, DecodeError>)
        ensures
            (v.deep_view() matches SpecVal::Obj(es) && sd_req_str(es, "type"@) matches Some(t)
                && sectype_tag_unknown(t)) ==> (r matches Err(e) && e is UnknownVariant),
            !(v.deep_view() is Obj) ==> (r matches Err(e) && e is TypeMismatch),
            (v.deep_view() matches SpecVal::Obj(es) && obj_get(es, "type"@) is None) ==> (r
                matches Err(e) && e is MissingRequiredField),
            (v.deep_view() matches SpecVal::Obj(es) && (match obj_get(es, "type"@) {
                Some(sv) => !(sv is Str),
                None => false,
            })) ==> (r matches Err(e) && e is TypeMismatch),
    {
        match v {
            Value::Obj(entries) => {
                let _type = match SecurityType::decode(v) {
                    Ok(t) => t,
                    Err(e) => return Err(e),
                };
                let description = match dec_opt_str(entries, "description", "SecurityScheme") {
                    Ok(d) => d,
                    Err(e) => return Err(e),
                };
                proof {
                    if wf_val(v.deep_view()) {
                        Self::lemma_decode_wf(v.deep_view());
                    }
                }
                Ok(SecurityScheme { _type, description })
            },
            _ => Err(
                DecodeError::TypeMismatch {
                    field: "".to_owned(),
                    kind: "SecurityScheme".to_owned(),
                    expected: "object".to_owned(),
                },
            ),
        }
    }

    fn encode(&self) -> (r: Value) {
        let ghost m = self.deep_view();
        let mut out: Vec<(String, Value)> = Vec::new();
        match &self._type {
            SecurityType::ApiKey { name, _in } => {
                enc_field(&mut out, "type", Value::Str("apiKey".to_owned()));
                enc_str(&mut out, "name", name);
                enc_req::<ParameterIn>(&mut out, "in", _in);
            },
            SecurityType::Http { scheme, bearer_format } => {
                enc_field(&mut out, "type", Value::Str("http".to_owned()));
                enc_str(&mut out, "scheme", scheme);
                enc_opt_str(&mut out, "bearerFormat", bearer_format);
            },
            SecurityType::Oauth2 { flows } => {
                enc_field(&mut out, "type", Value::Str("oauth2".to_owned()));
                enc_req::<OauthFlows>(&mut out, "flows", flows);
            },
            SecurityType::OpenIdConnect { open_id_connect_url } => {
                enc_field(&mut out, "type", Value::Str("openIdConnect".to_owned()));
                enc_str(&mut out, "openIdConnectUrl", open_id_connect_url);
            },
        }
        proof {
            lemma_sectype_entries(m._type);
            assert(view_entries(out@) =~= fields_entries(sectype_fields(m._type)));
        }
        enc_opt_str(&mut out, "description", &self.description);
        proof {
            let dfs = seq![("description"@, opt_str_slot(m.description))];
            crate::obj::lemma_fields_entries_app(sectype_fields(m._type), dfs);
            assert(fields_entries(dfs) =~= opt_entry("description"@, opt_str_slot(m.description)))
                by {
                assert(dfs.drop_first().len() == 0);
                assert(fields_entries(dfs.drop_first()) =~= Seq::<(Seq<char>, SpecVal)>::empty());
                assert(fields_entries(dfs) =~= opt_entry(dfs[0].0, dfs[0].1) + fields_entries(
                    dfs.drop_first(),
                ));
            }
            assert(view_entries(out@) =~= fields_entries(scheme_fields(m)));
        }
        Value::Obj(out)
    }
}

/// The security schemes required to use an operation, written as a bare
/// map from scheme name to the scope names it demands.
#[derive(Debug, Clone)]
pub struct SecurityRequirement {
    pub data: SortedMap<Vec<String>>,
}

/// The model of a `SecurityRequirement`.
pub struct SecurityRequirementV {
    pub data: Seq<(Seq<char>, Seq<Seq<char>>)>,
}

impl DeepView for SecurityRequirement {
    type V = SecurityRequirementV;

    open spec fn deep_view(&self) -> SecurityRequirementV {
        SecurityRequirementV { data: self.data.deep_view() }
    }
}

impl Codec for SecurityRequirement {
    open spec fn spec_decode(v: SpecVal) -> Option<SecurityRequirementV> {
        match SortedMap::<Vec<String>>::spec_decode(v) {
            Some(d) => Some(SecurityRequirementV { data: d }),
            None => None,
        }
    }

    open spec fn spec_encode(m: SecurityRequirementV) -> SpecVal {
        SortedMap::<Vec<String>>::spec_encode(m.data)
    }

    open spec fn model_wf(m: SecurityRequirementV) -> bool {
        SortedMap::<Vec<String>>::model_wf(m.data)
    }

    open spec fn sentinel_free(m: SecurityRequirementV) -> bool {
        SortedMap::<Vec<String>>::sentinel_free(m.data)
    }

    proof fn lemma_codec(m: SecurityRequirementV) {
        SortedMap::<Vec<String>>::lemma_codec(m.data);
    }

    proof fn lemma_decode_wf(v: SpecVal) {
        SortedMap::<Vec<String>>::lemma_decode_wf(v);
    }

    proof fn lemma_decode_sentinel(v: SpecVal) {
        SortedMap::<Vec<String>>::lemma_decode_sentinel(v);
    }

    /// Beyond the inherited exactness contract: anything but an object is
    /// a type mismatch.
    fn decode(v: &Value) -> (r: Result<Self, DecodeError>)
        ensures
            !(v.deep_view() is Obj) ==> (r matches Err(e) && e is TypeMismatch),
    {
        match SortedMap::<Vec<String>>::decode(v) {
            Ok(data) => Ok(SecurityRequirement { data }),
            Err(e) => Err(e),
        }
    }

    fn encode(&self) -> (r: Value) {
        self.data.encode()
    }
}

} // verus!
