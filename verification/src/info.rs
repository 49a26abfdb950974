//! Document metadata: the info block with its contact and license.

use vstd::prelude::*;

use crate::codec::{Codec, dec_opt, dec_opt_str, dec_req_str, enc_opt, enc_opt_str, enc_str,
    opt_slot, opt_str_slot, ref_key, sd_opt, sd_opt_str, sd_req_str, str_slot};
use crate::err::DecodeError;
use crate::obj::{FieldImage, distinct_names, fields_entries, lemma_get_wf, lemma_record_obj,
    obj_get, opt_entry};
use crate::value::{SpecVal, Value, view_entries, wf_val};

verus! {

/// Contact information for the exposed API.
#[derive(Debug, Clone)]
pub struct Contact {
    /// The identifying name of the contact person or organization.
    pub name: Option<String>,
    /// The URL pointing to the contact information.
    pub url: Option<String>,
    /// The email address of the contact person or organization.
    pub email: Option<String>,
}

/// The model of a `Contact`.
pub struct ContactV {
    pub name: Option<Seq<char>>,
    pub url: Option<Seq<char>>,
    pub email: Option<Seq<char>>,
}

impl DeepView for Contact {
    type V = ContactV;

    open spec fn deep_view(&self) -> ContactV {
        ContactV {
            name: self.name.deep_view(),
            url: self.url.deep_view(),
            email: self.email.deep_view(),
        }
    }
}

/// The declared fields of the contact kind, in schema order.
pub open spec fn contact_fields(m: ContactV) -> FieldImage {
    seq![
        ("name"@, opt_str_slot(m.name)),
        ("url"@, opt_str_slot(m.url)),
        ("email"@, opt_str_slot(m.email)),
    ]
}

impl Codec for Contact {
    open spec fn spec_decode(v: SpecVal) -> Option<ContactV> {
        match v {
            SpecVal::Obj(es) => {
                if sd_opt_str(es, "name"@) is Some && sd_opt_str(es, "url"@) is Some && sd_opt_str(
                    es,
                    "email"@,
                ) is Some {
                    Some(
                        ContactV {
                            name: sd_opt_str(es, "name"@)->0,
                            url: sd_opt_str(es, "url"@)->0,
                            email: sd_opt_str(es, "email"@)->0,
                        },
                    )
                } else {
                    None
                }
            },
            _ => None,
        }
    }

    open spec fn spec_encode(m: ContactV) -> SpecVal {
        SpecVal::Obj(fields_entries(contact_fields(m)))
    }

    open spec fn model_wf(m: ContactV) -> bool {
        true
    }

    open spec fn sentinel_free(m: ContactV) -> bool {
        true
    }

    proof fn lemma_codec(m: ContactV) {
        reveal_strlit("name");
        reveal_strlit("url");
        reveal_strlit("email");
        reveal_strlit("$ref");
        let fs = contact_fields(m);
        assert(fs[0].0 == "name"@ && fs[1].0 == "url"@ && fs[2].0 == "email"@);
        assert("name"@ != "url"@ && "name"@ != "email"@ && "url"@ != "email"@);
        assert(("name"@)[0] == 'n' && ("$ref"@)[0] == '$');
        assert("name"@ != "$ref"@ && "url"@ != "$ref"@ && "email"@ != "$ref"@);
        assert(distinct_names(fs));
        lemma_record_obj(fs, Seq::empty(), crate::codec::ref_key());
        let es = fields_entries(fs);
        assert(es + Seq::<(Seq<char>, SpecVal)>::empty() =~= es);
        assert(obj_get(es, "name"@) == opt_str_slot(m.name));
        assert(obj_get(es, "url"@) == opt_str_slot(m.url));
        assert(obj_get(es, "email"@) == opt_str_slot(m.email));
    }

    proof fn lemma_decode_wf(v: SpecVal) {
    }

    proof fn lemma_decode_sentinel(v: SpecVal) {
    }

    /// Beyond the inherited exactness contract: which error kind comes
    /// back, field by field in declared order.
    fn decode(v: &Value) -> (r: Result<Self, DecodeError>)
        ensures
            !(v.deep_view() is Obj) ==> (r matches Err(e) && e is TypeMismatch),
            (v.deep_view() matches SpecVal::Obj(es) && (match obj_get(es, "name"@) {
                Some(sv) => !(sv is Str),
                None => false,
            })) ==> (r matches Err(e) && e is TypeMismatch),
            (v.deep_view() matches SpecVal::Obj(es) && sd_opt_str(es, "name"@) is Some && (match obj_get(es, "url"@) {
                Some(sv) => !(sv is Str),
                None => false,
            })) ==> (r matches Err(e) && e is TypeMismatch),
            (v.deep_view() matches SpecVal::Obj(es) && sd_opt_str(es, "name"@) is Some && sd_opt_str(es, "url"@) is Some && (match obj_get(es, "email"@) {
                Some(sv) => !(sv is Str),
                None => false,
            })) ==> (r matches Err(e) && e is TypeMismatch),
    {
        match v {
            Value::Obj(entries) => {
                let name = match dec_opt_str(entries, "name", "Contact") {
                    Ok(o) => o,
                    Err(e) => return Err(e),
                };
                let url = match dec_opt_str(entries, "url", "Contact") {
                    Ok(o) => o,
                    Err(e) => return Err(e),
                };
                let email = match dec_opt_str(entries, "email", "Contact") {
                    Ok(o) => o,
                    Err(e) => return Err(e),
                };
                Ok(Contact { name, url, email })
            },
            _ => Err(
                DecodeError::TypeMismatch {
                    field: "".to_owned(),
                    kind: "Contact".to_owned(),
                    expected: "object".to_owned(),
                },
            ),
        }
    }

    fn encode(&self) -> (r: Value) {
        let mut out: Vec<(String, Value)> = Vec::new();
        enc_opt_str(&mut out, "name", &self.name);
        enc_opt_str(&mut out, "url", &self.url);
        enc_opt_str(&mut out, "email", &self.email);
        proof {
            let m = self.deep_view();
            let fs = contact_fields(m);
            let fs1 = fs.drop_first();
            let fs2 = fs1.drop_first();
            let fs3 = fs2.drop_first();
            assert(fs1[0] == fs[1] && fs1.len() == 2);
            assert(fs2[0] == fs[2] && fs2.len() == 1);
            assert(fs3.len() == 0);
            assert(fields_entries(fs3) =~= Seq::<(Seq<char>, SpecVal)>::empty());
            assert(fields_entries(fs2) =~= opt_entry(fs[2].0, fs[2].1) + fields_entries(fs3));
            assert(fields_entries(fs1) =~= opt_entry(fs[1].0, fs[1].1) + fields_entries(fs2));
            assert(fields_entries(fs) =~= opt_entry(fs[0].0, fs[0].1) + fields_entries(fs1));
            assert(view_entries(out@) =~= fields_entries(fs));
        }
        Value::Obj(out)
    }
}

/// License information for the exposed API.
#[derive(Debug, Clone)]
pub struct License {
    pub name: String,
    pub url: Option<String>,
}

/// The model of a `License`.
pub struct LicenseV {
    pub name: Seq<char>,
    pub url: Option<Seq<char>>,
}

impl DeepView for License {
    type V = LicenseV;

    open spec fn deep_view(&self) -> LicenseV {
        LicenseV {
            name: self.name.deep_view(),
            url: self.url.deep_view(),
        }
    }
}

/// The declared fields of the license kind, in schema order.
pub open spec fn license_fields(m: LicenseV) -> FieldImage {
    seq![
        ("name"@, str_slot(m.name)),
        ("url"@, opt_str_slot(m.url)),
    ]
}

impl Codec for License {
    open spec fn spec_decode(v: SpecVal) -> Option<LicenseV> {
        match v {
            SpecVal::Obj(es) => {
                if sd_req_str(es, "name"@) is Some && sd_opt_str(es, "url"@) is Some {
                    Some(
                        LicenseV {
                            name: sd_req_str(es, "name"@)->0,
                            url: sd_opt_str(es, "url"@)->0,
                        },
                    )
                } else {
                    None
                }
            },
            _ => None,
        }
    }

    open spec fn spec_encode(m: LicenseV) -> SpecVal {
        SpecVal::Obj(fields_entries(license_fields(m)))
    }

    open spec fn model_wf(m: LicenseV) -> bool {
        true
    }

    open spec fn sentinel_free(m: LicenseV) -> bool {
        true
    }

    proof fn lemma_codec(m: LicenseV) {
        reveal_strlit("name");
        reveal_strlit("url");
        reveal_strlit("$ref");
        let fs = license_fields(m);
        assert(fs[0].0 == "name"@);
        assert(fs[1].0 == "url"@);
        assert(("name"@)[0] == 'n');
        assert(("$ref"@)[0] == '$');
        assert("name"@ != "url"@);
        assert("name"@ != "$ref"@ && "url"@ != "$ref"@);
        assert(distinct_names(fs));
        assert(match fs[0].1 {
            Some(sv) => wf_val(sv),
            None => true,
        });
        assert(match fs[1].1 {
            Some(sv) => wf_val(sv),
            None => true,
        });
        lemma_record_obj(fs, Seq::empty(), ref_key());
        let es = fields_entries(fs) + Seq::<(Seq<char>, SpecVal)>::empty();
        assert(es =~= fields_entries(fs));
        assert(obj_get(es, "name"@) == str_slot(m.name));
        assert(obj_get(es, "url"@) == opt_str_slot(m.url));
    }

    proof fn lemma_decode_wf(v: SpecVal) {
    }

    proof fn lemma_decode_sentinel(v: SpecVal) {
    }

    /// Beyond the inherited exactness contract: which error kind comes
    /// back, field by field in declared order.
    fn decode(v: &Value) -> (r: Result<Self, DecodeError>)
        ensures
            !(v.deep_view() is Obj) ==> (r matches Err(e) && e is TypeMismatch),
            (v.deep_view() matches SpecVal::Obj(es) && obj_get(es, "name"@) is None) ==> (r matches Err(e)
                && e is MissingRequiredField),
            (v.deep_view() matches SpecVal::Obj(es) && (match obj_get(es, "name"@) {
                Some(sv) => !(sv is Str),
                None => false,
            })) ==> (r matches Err(e) && e is TypeMismatch),
            (v.deep_view() matches SpecVal::Obj(es) && sd_req_str(es, "name"@) is Some && (match obj_get(es, "url"@) {
                Some(sv) => !(sv is Str),
                None => false,
            })) ==> (r matches Err(e) && e is TypeMismatch),
    {
        match v {
            Value::Obj(entries) => {
                let name = match dec_req_str(entries, "name", "License") {
                    Ok(x) => x,
                    Err(e) => return Err(e),
                };
                let url = match dec_opt_str(entries, "url", "License") {
                    Ok(x) => x,
                    Err(e) => return Err(e),
                };
                let out = License { name, url };
                proof {
                    if wf_val(v.deep_view()) {
                        Self::lemma_decode_wf(v.deep_view());
                    }
                }
                Ok(out)
            },
            _ => Err(
                DecodeError::TypeMismatch {
                    field: "".to_owned(),
                    kind: "License".to_owned(),
                    expected: "object".to_owned(),
                },
            ),
        }
    }

    fn encode(&self) -> (r: Value) {
        let mut out: Vec<(String, Value)> = Vec::new();
        enc_str(&mut out, "name", &self.name);
        enc_opt_str(&mut out, "url", &self.url);
        proof {
            let m = self.deep_view();
            let fs = license_fields(m);
            assert(fs.len() == 2);
            let fs1 = fs.drop_first();
            assert(fs1[0] == fs[1] && fs1.len() == 1);
            let fs2 = fs1.drop_first();
            assert(fs2.len() == 0);
            assert(fields_entries(fs2) =~= Seq::<(Seq<char>, SpecVal)>::empty());
            assert(fields_entries(fs1) =~= opt_entry(fs[1].0, fs[1].1) + fields_entries(fs2));
            assert(fields_entries(fs) =~= opt_entry(fs[0].0, fs[0].1) + fields_entries(fs1));
            assert(view_entries(out@) =~= fields_entries(fs));
        }
        Value::Obj(out)
    }
}

/// Metadata about the API: its title and version, with optional descriptive detail.
#[derive(Debug, Clone)]
pub struct Info {
    pub title: String,
    pub description: Option<String>,
    pub terms_of_service: Option<String>,
    pub contact: Option<Contact>,
    pub license: Option<License>,
    pub version: String,
}

/// The model of a `Info`.
pub struct InfoV {
    pub title: Seq<char>,
    pub description: Option<Seq<char>>,
    pub terms_of_service: Option<Seq<char>>,
    pub contact: Option<ContactV>,
    pub license: Option<LicenseV>,
    pub version: Seq<char>,
}

impl DeepView for Info {
    type V = InfoV;

    open spec fn deep_view(&self) -> InfoV {
        InfoV {
            title: self.title.deep_view(),
            description: self.description.deep_view(),
            terms_of_service: self.terms_of_service.deep_view(),
            contact: self.contact.deep_view(),
            license: self.license.deep_view(),
            version: self.version.deep_view(),
        }
    }
}

/// The declared fields of the info kind, in schema order.
pub open spec fn info_fields(m: InfoV) -> FieldImage {
    seq![
        ("title"@, str_slot(m.title)),
        ("description"@, opt_str_slot(m.description)),
        ("termsOfService"@, opt_str_slot(m.terms_of_service)),
        ("contact"@, opt_slot::<Contact>(m.contact)),
        ("license"@, opt_slot::<License>(m.license)),
        ("version"@, str_slot(m.version)),
    ]
}

impl Codec for Info {
    open spec fn spec_decode(v: SpecVal) -> Option<InfoV> {
        match v {
            SpecVal::Obj(es) => {
                if sd_req_str(es, "title"@) is Some && sd_opt_str(es, "description"@) is Some && sd_opt_str(es, "termsOfService"@) is Some && sd_opt::<Contact>(es, "contact"@) is Some && sd_opt::<License>(es, "license"@) is Some && sd_req_str(es, "version"@) is Some {
                    Some(
                        InfoV {
                            title: sd_req_str(es, "title"@)->0,
                            description: sd_opt_str(es, "description"@)->0,
                            terms_of_service: sd_opt_str(es, "termsOfService"@)->0,
                            contact: sd_opt::<Contact>(es, "contact"@)->0,
                            license: sd_opt::<License>(es, "license"@)->0,
                            version: sd_req_str(es, "version"@)->0,
                        },
                    )
                } else {
                    None
                }
            },
            _ => None,
        }
    }

    open spec fn spec_encode(m: InfoV) -> SpecVal {
        SpecVal::Obj(fields_entries(info_fields(m)))
    }

    open spec fn model_wf(m: InfoV) -> bool {
        (match m.contact {
            Some(t) => Contact::model_wf(t),
            None => true,
        }) && (match m.license {
            Some(t) => License::model_wf(t),
            None => true,
        })
    }

    open spec fn sentinel_free(m: InfoV) -> bool {
        true
    }

    proof fn lemma_codec(m: InfoV) {
        reveal_strlit("title");
        reveal_strlit("description");
        reveal_strlit("termsOfService");
        reveal_strlit("contact");
        reveal_strlit("license");
        reveal_strlit("version");
        reveal_strlit("$ref");
        let fs = info_fields(m);
        assert(fs[0].0 == "title"@);
        assert(fs[1].0 == "description"@);
        assert(fs[2].0 == "termsOfService"@);
        assert(fs[3].0 == "contact"@);
        assert(fs[4].0 == "license"@);
        assert(fs[5].0 == "version"@);
        assert(("contact"@)[0] == 'c');
        assert(("license"@)[0] == 'l');
        assert(("version"@)[0] == 'v');
        assert("title"@ != "description"@ && "title"@ != "termsOfService"@ && "title"@ != "contact"@);
        assert("title"@ != "license"@ && "title"@ != "version"@ && "description"@ != "termsOfService"@);
        assert("description"@ != "contact"@ && "description"@ != "license"@ && "description"@ != "version"@);
        assert("termsOfService"@ != "contact"@ && "termsOfService"@ != "license"@ && "termsOfService"@ != "version"@);
        assert("contact"@ != "license"@ && "contact"@ != "version"@ && "license"@ != "version"@);
        assert("title"@ != "$ref"@ && "description"@ != "$ref"@ && "termsOfService"@ != "$ref"@);
        assert("contact"@ != "$ref"@ && "license"@ != "$ref"@ && "version"@ != "$ref"@);
        assert(distinct_names(fs));
        if m.contact is Some {
            Contact::lemma_codec(m.contact->0);
        }
        if m.license is Some {
            License::lemma_codec(m.license->0);
        }
        assert(match fs[0].1 {
            Some(sv) => wf_val(sv),
            None => true,
        });
        assert(match fs[1].1 {
            Some(sv) => wf_val(sv),
            None => true,
        });
        assert(match fs[2].1 {
            Some(sv) => wf_val(sv),
            None => true,
        });
        assert(match fs[3].1 {
            Some(sv) => wf_val(sv),
            None => true,
        });
        assert(match fs[4].1 {
            Some(sv) => wf_val(sv),
            None => true,
        });
        assert(match fs[5].1 {
            Some(sv) => wf_val(sv),
            None => true,
        });
        lemma_record_obj(fs, Seq::empty(), ref_key());
        let es = fields_entries(fs) + Seq::<(Seq<char>, SpecVal)>::empty();
        assert(es =~= fields_entries(fs));
        assert(obj_get(es, "title"@) == str_slot(m.title));
        assert(obj_get(es, "description"@) == opt_str_slot(m.description));
        assert(obj_get(es, "termsOfService"@) == opt_str_slot(m.terms_of_service));
        assert(obj_get(es, "contact"@) == opt_slot::<Contact>(m.contact));
        assert(obj_get(es, "license"@) == opt_slot::<License>(m.license));
        assert(obj_get(es, "version"@) == str_slot(m.version));
    }

    proof fn lemma_decode_wf(v: SpecVal) {
        let es = v->Obj_0;
        assert(forall|i: int| 0 <= i < es.len() ==> wf_val(#[trigger] es[i].1));
        if obj_get(es, "contact"@) is Some {
            lemma_get_wf(es, "contact"@);
            Contact::lemma_decode_wf(obj_get(es, "contact"@)->0);
        }
        if obj_get(es, "license"@) is Some {
            lemma_get_wf(es, "license"@);
            License::lemma_decode_wf(obj_get(es, "license"@)->0);
        }
    }

    proof fn lemma_decode_sentinel(v: SpecVal) {
    }

    /// Beyond the inherited exactness contract: which error kind comes
    /// back, field by field in declared order.
    fn decode(v: &Value) -> (r: Result<Self, DecodeError>)
        ensures
            !(v.deep_view() is Obj) ==> (r matches Err(e) && e is TypeMismatch),
            (v.deep_view() matches SpecVal::Obj(es) && obj_get(es, "title"@) is None) ==> (r matches Err(e)
                && e is MissingRequiredField),
            (v.deep_view() matches SpecVal::Obj(es) && (match obj_get(es, "title"@) {
                Some(sv) => !(sv is Str),
                None => false,
            })) ==> (r matches Err(e) && e is TypeMismatch),
            (v.deep_view() matches SpecVal::Obj(es) && sd_req_str(es, "title"@) is Some && (match obj_get(es, "description"@) {
                Some(sv) => !(sv is Str),
                None => false,
            })) ==> (r matches Err(e) && e is TypeMismatch),
            (v.deep_view() matches SpecVal::Obj(es) && sd_req_str(es, "title"@) is Some && sd_opt_str(es, "description"@) is Some && (match obj_get(es, "termsOfService"@) {
                Some(sv) => !(sv is Str),
                None => false,
            })) ==> (r matches Err(e) && e is TypeMismatch),
            (v.deep_view() matches SpecVal::Obj(es) && sd_req_str(es, "title"@) is Some && sd_opt_str(es, "description"@) is Some && sd_opt_str(es, "termsOfService"@) is Some && sd_opt::<Contact>(es, "contact"@) is Some && sd_opt::<License>(es, "license"@) is Some && obj_get(es, "version"@) is None) ==> (r matches Err(e)
                && e is MissingRequiredField),
            (v.deep_view() matches SpecVal::Obj(es) && sd_req_str(es, "title"@) is Some && sd_opt_str(es, "description"@) is Some && sd_opt_str(es, "termsOfService"@) is Some && sd_opt::<Contact>(es, "contact"@) is Some && sd_opt::<License>(es, "license"@) is Some && (match obj_get(es, "version"@) {
                Some(sv) => !(sv is Str),
                None => false,
            })) ==> (r matches Err(e) && e is TypeMismatch),
    {
        match v {
            Value::Obj(entries) => {
                let title = match dec_req_str(entries, "title", "Info") {
                    Ok(x) => x,
                    Err(e) => return Err(e),
                };
                let description = match dec_opt_str(entries, "description", "Info") {
                    Ok(x) => x,
                    Err(e) => return Err(e),
                };
                let terms_of_service = match dec_opt_str(entries, "termsOfService", "Info") {
                    Ok(x) => x,
                    Err(e) => return Err(e),
                };
                let contact = match dec_opt::<Contact>(entries, "contact") {
                    Ok(x) => x,
                    Err(e) => return Err(e),
                };
                let license = match dec_opt::<License>(entries, "license") {
                    Ok(x) => x,
                    Err(e) => return Err(e),
                };
                let version = match dec_req_str(entries, "version", "Info") {
                    Ok(x) => x,
                    Err(e) => return Err(e),
                };
                let out = Info { title, description, terms_of_service, contact, license, version };
                proof {
                    if wf_val(v.deep_view()) {
                        Self::lemma_decode_wf(v.deep_view());
                    }
                }
                Ok(out)
            },
            _ => Err(
                DecodeError::TypeMismatch {
                    field: "".to_owned(),
                    kind: "Info".to_owned(),
                    expected: "object".to_owned(),
                },
            ),
        }
    }

    fn encode(&self) -> (r: Value) {
        let mut out: Vec<(String, Value)> = Vec::new();
        enc_str(&mut out, "title", &self.title);
        enc_opt_str(&mut out, "description", &self.description);
        enc_opt_str(&mut out, "termsOfService", &self.terms_of_service);
        enc_opt::<Contact>(&mut out, "contact", &self.contact);
        enc_opt::<License>(&mut out, "license", &self.license);
        enc_str(&mut out, "version", &self.version);
        proof {
            let m = self.deep_view();
            let fs = info_fields(m);
            assert(fs.len() == 6);
            let fs1 = fs.drop_first();
            assert(fs1[0] == fs[1] && fs1.len() == 5);
            let fs2 = fs1.drop_first();
            assert(fs2[0] == fs[2] && fs2.len() == 4);
            let fs3 = fs2.drop_first();
            assert(fs3[0] == fs[3] && fs3.len() == 3);
            let fs4 = fs3.drop_first();
            assert(fs4[0] == fs[4] && fs4.len() == 2);
            let fs5 = fs4.drop_first();
            assert(fs5[0] == fs[5] && fs5.len() == 1);
            let fs6 = fs5.drop_first();
            assert(fs6.len() == 0);
            assert(fields_entries(fs6) =~= Seq::<(Seq<char>, SpecVal)>::empty());
            assert(fields_entries(fs5) =~= opt_entry(fs[5].0, fs[5].1) + fields_entries(fs6));
            assert(fields_entries(fs4) =~= opt_entry(fs[4].0, fs[4].1) + fields_entries(fs5));
            assert(fields_entries(fs3) =~= opt_entry(fs[3].0, fs[3].1) + fields_entries(fs4));
            assert(fields_entries(fs2) =~= opt_entry(fs[2].0, fs[2].1) + fields_entries(fs3));
            assert(fields_entries(fs1) =~= opt_entry(fs[1].0, fs[1].1) + fields_entries(fs2));
            assert(fields_entries(fs) =~= opt_entry(fs[0].0, fs[0].1) + fields_entries(fs1));
            assert(view_entries(out@) =~= fields_entries(fs));
        }
        Value::Obj(out)
    }
}

} // verus!
