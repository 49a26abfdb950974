//! Quick builder functions for common constructs. Each contract fixes the
//! whole resulting value.

use vstd::prelude::*;

use crate::document::{OpenAPIV3, OpenAPIV3V};
use crate::info::{ContactV, Info, InfoV, LicenseV};
use crate::params::{Response, ResponseV};
use crate::paths::{OperationV, PathItemV, ResponsesV};
use crate::refs::{Referenceable, ReferenceableV};
use crate::smap::{sorted_insert, str_lt};
use crate::sugar::OperationBuilder;
use crate::value::SpecVal;

verus! {

/// The model of a fresh, empty operation.
pub open spec fn empty_operation() -> OperationV {
    OperationV {
        tags: None,
        summary: None,
        description: None,
        external_docs: None,
        operation_id: None,
        parameters: None,
        request_body: None,
        responses: ResponsesV {
            default: None,
            data: Seq::<(Seq<char>, ReferenceableV<ResponseV>)>::empty(),
        },
        callbacks: None,
        deprecated: None,
        security: None,
        servers: None,
    }
}

/// The model of an inline response holding only a description.
pub open spec fn plain_response(description: Seq<char>) -> ReferenceableV<ResponseV> {
    ReferenceableV::Data(
        ResponseV { description: description, headers: None, content: None, links: None },
    )
}

/// A new document with the given title and version: the metadata holds
/// exactly those two fields, and every other part of the document is
/// absent or empty.
pub fn api(title: &str, version: &str) -> (r: OpenAPIV3)
    ensures
        r.deep_view() == (OpenAPIV3V {
            openapi: "3.0.0"@,
            info: InfoV {
                title: title@,
                description: None,
                terms_of_service: None,
                contact: None::<ContactV>,
                license: None::<LicenseV>,
                version: version@,
            },
            servers: None,
            paths: Seq::<(Seq<char>, PathItemV)>::empty(),
            components: None,
            security: None,
            tags: None,
            external_docs: None,
            extras: Seq::<(Seq<char>, SpecVal)>::empty(),
        }),
{
    OpenAPIV3::new(Info::new(title, version))
}

/// A fresh operation builder holding an empty operation.
pub fn operation() -> (r: OperationBuilder)
    ensures
        r.operation.deep_view() == empty_operation(),
{
    OperationBuilder::new()
}

/// A GET operation builder: the given summary, one "200" response with
/// description "Success", and every other field absent.
pub fn get(summary: &str) -> (r: OperationBuilder)
    ensures
        r.operation.deep_view() == (OperationV {
            summary: Some(summary@),
            responses: ResponsesV {
                default: None,
                data: seq![("200"@, plain_response("Success"@))],
            },
            ..empty_operation()
        }),
{
    let r = OperationBuilder::new().summary(summary).response(
        "200",
        Referenceable::<Response>::ok("Success"),
    );
    proof {
        assert(sorted_insert(
            Seq::<(Seq<char>, ReferenceableV<ResponseV>)>::empty(),
            "200"@,
            plain_response("Success"@),
        ) =~= seq![("200"@, plain_response("Success"@))]);
    }
    r
}

/// Insert into a one-entry map whose key is below the new key: the new
/// binding lands second.
proof fn lemma_insert_second(
    first_key: Seq<char>,
    first: ReferenceableV<ResponseV>,
    second_key: Seq<char>,
    second: ReferenceableV<ResponseV>,
)
    requires
        str_lt(first_key, second_key),
    ensures
        sorted_insert(seq![(first_key, first)], second_key, second) =~= seq![
            (first_key, first),
            (second_key, second),
        ],
{
    crate::smap::lemma_str_lt_asym(first_key, second_key);
    crate::smap::lemma_str_lt_neq(first_key, second_key);
    let one = seq![(first_key, first)];
    assert(one.drop_first() =~= Seq::<(Seq<char>, ReferenceableV<ResponseV>)>::empty());
    assert(sorted_insert(one.drop_first(), second_key, second) =~= seq![(second_key, second)]);
    assert(sorted_insert(one, second_key, second) =~= seq![one[0]] + seq![(second_key, second)]);
}

/// A POST operation builder: the given summary, a "201" Created response
/// and a "400" Bad Request response, and every other field absent.
pub fn post(summary: &str) -> (r: OperationBuilder)
    ensures
        r.operation.deep_view() == (OperationV {
            summary: Some(summary@),
            responses: ResponsesV {
                default: None,
                data: seq![
                    ("201"@, plain_response("Created"@)),
                    ("400"@, plain_response("Bad Request"@)),
                ],
            },
            ..empty_operation()
        }),
{
    let r = OperationBuilder::new().summary(summary).response(
        "201",
        Referenceable::<Response>::ok("Created"),
    ).response("400", Referenceable::<Response>::error("Bad Request"));
    proof {
        reveal_strlit("201");
        reveal_strlit("400");
        assert(sorted_insert(
            Seq::<(Seq<char>, ReferenceableV<ResponseV>)>::empty(),
            "201"@,
            plain_response("Created"@),
        ) =~= seq![("201"@, plain_response("Created"@))]);
        assert(("201"@)[0] == '2' && ("400"@)[0] == '4');
        assert(str_lt("201"@, "400"@));
        lemma_insert_second("201"@, plain_response("Created"@), "400"@, plain_response(
            "Bad Request"@,
        ));
    }
    r
}

/// A PUT operation builder: the given summary, a "200" Updated response
/// and a "404" Not Found response, and every other field absent.
pub fn put(summary: &str) -> (r: OperationBuilder)
    ensures
        r.operation.deep_view() == (OperationV {
            summary: Some(summary@),
            responses: ResponsesV {
                default: None,
                data: seq![
                    ("200"@, plain_response("Updated"@)),
                    ("404"@, plain_response("Not Found"@)),
                ],
            },
            ..empty_operation()
        }),
{
    let r = OperationBuilder::new().summary(summary).response(
        "200",
        Referenceable::<Response>::ok("Updated"),
    ).response("404", Referenceable::<Response>::error("Not Found"));
    proof {
        reveal_strlit("200");
        reveal_strlit("404");
        assert(sorted_insert(
            Seq::<(Seq<char>, ReferenceableV<ResponseV>)>::empty(),
            "200"@,
            plain_response("Updated"@),
        ) =~= seq![("200"@, plain_response("Updated"@))]);
        assert(("200"@)[0] == '2' && ("404"@)[0] == '4');
        assert(str_lt("200"@, "404"@));
        lemma_insert_second("200"@, plain_response("Updated"@), "404"@, plain_response(
            "Not Found"@,
        ));
    }
    r
}

/// A DELETE operation builder: the given summary, a "204" Deleted
/// response and a "404" Not Found response, and every other field absent.
pub fn delete(summary: &str) -> (r: OperationBuilder)
    ensures
        r.operation.deep_view() == (OperationV {
            summary: Some(summary@),
            responses: ResponsesV {
                default: None,
                data: seq![
                    ("204"@, plain_response("Deleted"@)),
                    ("404"@, plain_response("Not Found"@)),
                ],
            },
            ..empty_operation()
        }),
{
    let r = OperationBuilder::new().summary(summary).response(
        "204",
        Referenceable::<Response>::ok("Deleted"),
    ).response("404", Referenceable::<Response>::error("Not Found"));
    proof {
        reveal_strlit("204");
        reveal_strlit("404");
        assert(sorted_insert(
            Seq::<(Seq<char>, ReferenceableV<ResponseV>)>::empty(),
            "204"@,
            plain_response("Deleted"@),
        ) =~= seq![("204"@, plain_response("Deleted"@))]);
        assert(("204"@)[0] == '2' && ("404"@)[0] == '4');
        assert(str_lt("204"@, "404"@));
        lemma_insert_second("204"@, plain_response("Deleted"@), "404"@, plain_response(
            "Not Found"@,
        ));
    }
    r
}

} // verus!
