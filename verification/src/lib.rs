//! A typed in-memory model of an OpenAPI-style document format, together
//! with a verified serialization engine: documents are decoded from and
//! encoded back into a JSON-like tree of maps, sequences and scalars, with
//! unknown fields preserved, optional fields omitted when absent, `$ref`
//! pointer nodes dispatched by shape, and named buckets emitted in ascending
//! key order.

use vstd::prelude::*;

pub mod value;
pub mod obj;
pub mod err;
pub mod codec;
pub mod smap;
pub mod refs;
pub mod info;
pub mod meta;
pub mod schema;
pub mod media;
pub mod params;
pub mod security;
pub mod paths;
pub mod document;
pub mod sugar;
pub mod builders;
pub mod laws;

verus! {

} // verus!
