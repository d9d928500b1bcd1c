use vstd::prelude::*;

use crate::scanners::ScannerConfig;

verus! {

/// Service settings loaded at startup.
pub struct Config {
    /// Origins granted cross-origin access.
    pub allowed_hosts: Vec<String>,
    /// Credential for the disclosure service.
    pub github_token: String,
    /// Scanners added to the built-in one, in order.
    pub extra_scanners: Vec<ScannerConfig>,
}

} // verus!
