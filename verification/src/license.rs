//! Licence keys.

use crate::text::str_eq;
use vstd::prelude::*;

verus! {

/// Checks commercial licence keys.
#[derive(Debug, Clone, Copy)]
pub struct LicenseManager;

impl LicenseManager {
    /// Whether `key` is the one key that this build accepts.
    pub fn validate(key: &str) -> (r: bool)
        ensures
            r == (key@ == "commercial-dev-key-123"@),
    {
        str_eq(key, "commercial-dev-key-123")
    }

    /// The licence under which this build is offered.
    pub fn license_type() -> (r: &'static str)
        ensures
            r@ == "AGPL-3.0 (Community)"@,
    {
        "AGPL-3.0 (Community)"
    }
}

} // verus!
