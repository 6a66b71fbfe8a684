//! The JSON form of HCDF documents.
//!
//! Attributes become object keys, child elements nested objects, repeated children an array at the
//! place of the first, and text the key `$text`. Leaf texts that read as booleans or numbers become
//! such. The way back asks a schema which keys of an object are attributes.
pub mod dom;
pub mod number_laws;
pub mod read;
pub mod roundtrip;
pub mod schema;
pub mod schema_laws;
pub mod spelling;
pub mod value;
pub mod write;

pub use read::hcdf_xml_to_json;
pub use schema::schema_from_str;
pub use write::json_to_hcdf_xml;
