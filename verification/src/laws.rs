//! The library's laws, stated once and proved from the contracts the
//! codecs carry.

use vstd::prelude::*;

use crate::codec::{Codec, no_ref_key, ref_key, sd_opt, sd_opt_bool, sd_opt_str, sd_req,
    sd_req_str};
use crate::document::{Components, OpenAPIV3, OpenAPIV3V};
use crate::info::Info;
use crate::meta::{ExternalDocumentation, Server, Tag};
use crate::paths::PathItem;
use crate::security::SecurityRequirement;
use crate::obj::{FieldImage, distinct_names, entries_avoid, fields_entries, has_key, lemma_record,
    obj_get};
use crate::refs::{Referenceable, ReferenceableV};
use crate::schema::{Schema, SchemaV, schema_fields};
use crate::security::{SecurityScheme, SecurityType, sectype_tag_unknown};
use crate::smap::{SortedMap, map_sorted, se_map, str_lt};
use crate::value::{SpecEntries, SpecVal, keys_unique, wf_val};

verus! {

/// Round-trip: decoding what a well-formed document encodes restores the
/// document exactly, and the encoded tree is itself well-formed. Holds
/// for the root and, through the same contract, for every object kind.
pub proof fn lemma_document_round_trip(m: OpenAPIV3V)
    requires
        OpenAPIV3::model_wf(m),
    ensures
        OpenAPIV3::spec_decode(OpenAPIV3::spec_encode(m)) == Some(m),
        wf_val(OpenAPIV3::spec_encode(m)),
{
    OpenAPIV3::lemma_codec(m);
}

/// Read-modify-write stability: once a tree has been decoded, encoding
/// the document and decoding the result yields the same document, so a
/// read-encode cycle never drifts.
pub proof fn lemma_decode_encode_stable(v: SpecVal)
    requires
        OpenAPIV3::spec_decode(v) is Some,
        wf_val(v),
    ensures
        OpenAPIV3::spec_decode(OpenAPIV3::spec_encode(OpenAPIV3::spec_decode(v)->0))
            == OpenAPIV3::spec_decode(v),
{
    OpenAPIV3::lemma_decode_wf(v);
    OpenAPIV3::lemma_codec(OpenAPIV3::spec_decode(v)->0);
}

/// A single invalid nested field fails the decode of the entire
/// enclosing document: the root decodes only where each of its declared
/// fields decodes, so no partial result ever comes back.
pub proof fn lemma_nested_failure_fails_document(es: SpecEntries)
    ensures
        OpenAPIV3::spec_decode(SpecVal::Obj(es)) is Some ==> sd_req_str(es, "openapi"@) is Some
            && sd_req::<Info>(es, "info"@) is Some && sd_opt::<Vec<Server>>(es, "servers"@)
            is Some && sd_req::<crate::smap::SortedMap<PathItem>>(es, "paths"@) is Some
            && sd_opt::<Components>(es, "components"@) is Some && sd_opt::<
            Vec<SecurityRequirement>,
        >(es, "security"@) is Some && sd_opt::<Vec<Tag>>(es, "tags"@) is Some && sd_opt::<
            ExternalDocumentation,
        >(es, "externalDocs"@) is Some,
{
}

/// Shape-based dispatch of the inline-or-pointer union: an object
/// carrying the pointer sentinel key with a string value always decodes
/// as a pointer, never as an attempted inline decode, whatever the inline
/// kind's fields are; an object without the sentinel key is always
/// decoded inline.
pub proof fn lemma_referenceable_dispatch<T: Codec>(es: SpecEntries)
    ensures
        (match obj_get(es, ref_key()) {
            Some(SpecVal::Str(s)) => Referenceable::<T>::spec_decode(SpecVal::Obj(es)) == Some(
                ReferenceableV::<T::V>::Reference(s),
            ),
            Some(_) => Referenceable::<T>::spec_decode(SpecVal::Obj(es)) is None,
            None => Referenceable::<T>::spec_decode(SpecVal::Obj(es)) == (match T::spec_decode(
                SpecVal::Obj(es),
            ) {
                Some(m) => Some(ReferenceableV::<T::V>::Data(m)),
                None => None,
            }),
        }),
{
}

/// Closure of the discriminated union: a sentinel value outside the
/// fixed known set never decodes, and never silently picks a default
/// shape.
pub proof fn lemma_variant_closure(es: SpecEntries, t: Seq<char>)
    requires
        sd_req_str(es, "type"@) == Some(t),
        sectype_tag_unknown(t),
    ensures
        SecurityType::spec_decode(SpecVal::Obj(es)) is None,
        SecurityScheme::spec_decode(SpecVal::Obj(es)) is None,
        !has_key(es, ref_key()) ==> Referenceable::<SecurityScheme>::spec_decode(
            SpecVal::Obj(es),
        ) is None,
{
}

/// Optional-field omission, write side: a field whose slot is absent
/// never contributes its key to the encoded object.
pub proof fn lemma_optional_field_omission(fs: FieldImage, extras: SpecEntries, j: int)
    requires
        distinct_names(fs),
        entries_avoid(extras, fs),
        keys_unique(extras),
        0 <= j < fs.len(),
        fs[j].1 is None,
    ensures
        !has_key(fields_entries(fs) + extras, fs[j].0),
{
    lemma_record(fs, extras);
}

/// Optional-field omission, read side: a key missing from the source
/// yields the absent state, not a default value and not an error.
pub proof fn lemma_absent_field_decodes_absent<T: Codec>(es: SpecEntries, k: Seq<char>)
    requires
        !has_key(es, k),
    ensures
        sd_opt_str(es, k) == Some(None::<Seq<char>>),
        sd_opt_bool(es, k) == Some(None::<bool>),
        sd_opt::<T>(es, k) == Some(None::<T::V>),
{
}

/// Extension capture fidelity: the encoded object is exactly the
/// declared fields, in schema order, followed by the extension bucket in
/// its stored (encounter) order; decoding it restores the same bucket.
pub proof fn lemma_extension_capture(m: SchemaV)
    requires
        Schema::model_wf(m),
    ensures
        Schema::spec_encode(m) == SpecVal::Obj(fields_entries(schema_fields(m)) + m.extras),
        Schema::spec_decode(Schema::spec_encode(m)) == Some(m),
{
    Schema::lemma_codec(m);
}

/// Named-bucket canonicalization: a well-formed bucket encodes its
/// entries in strictly ascending key order, so two documents with the
/// same logical content always encode to the same output.
pub proof fn lemma_bucket_order<T: Codec>(ms: Seq<(Seq<char>, T::V)>)
    requires
        SortedMap::<T>::model_wf(ms),
    ensures
        SortedMap::<T>::spec_encode(ms) == SpecVal::Obj(se_map::<T>(ms)),
        se_map::<T>(ms).len() == ms.len(),
        forall|i: int| 0 <= i < ms.len() - 1 ==> str_lt(
            #[trigger] se_map::<T>(ms)[i].0,
            se_map::<T>(ms)[i + 1].0,
        ),
{
    assert forall|i: int| 0 <= i < ms.len() - 1 implies str_lt(
        #[trigger] se_map::<T>(ms)[i].0,
        se_map::<T>(ms)[i + 1].0,
    ) by {
        assert(se_map::<T>(ms)[i].0 == ms[i].0);
        assert(se_map::<T>(ms)[i + 1].0 == ms[i + 1].0);
    }
}

} // verus!
