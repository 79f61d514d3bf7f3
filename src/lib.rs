//! A MessagePack codec core: the tag grammar, an encoder with minimal-width
//! forms, a width-accepting decoder over borrowed bytes, count-bound cursors,
//! the extension-value adaptor and the enum-as-map convention.
pub mod cursor;
pub mod de;
pub mod defs;
pub mod error;
pub mod ext_visitor;
pub mod head;
pub mod laws;
pub mod pull;
pub mod ser;
