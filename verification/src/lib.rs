//! The verified core of a small file-hosting service. An upload is assigned a
//! fresh short alphanumeric identifier, its extension is resolved from the
//! client-supplied filename, and the payload is stored under the name
//! `<id>.<extension>`; retrieval resolves such a name back to exactly the
//! stored bytes. The library proves the two invariants the service rests on:
//! no two uploads ever share an identifier, and a returned name resolves to
//! the bytes uploaded under it. Around these sit the guarded join of
//! client-supplied names under the storage root, the JSON response bodies,
//! and the rendering of the info page.

pub mod bytes;
pub mod ext;
pub mod idgen;
pub mod json;
pub mod page;
pub mod paths;
pub mod service;
pub mod store;
