//! Vendor extension blocks whose body is opaque text.
use vstd::prelude::*;

verus! {

#[derive(Debug, Clone, PartialEq, Default)]
pub struct Extension {
    pub domain: String,
    pub version: Option<String>,
    pub body: String,
}

} // verus!
