use vstd::prelude::*;
use vstd::string::StringExecFns;

verus! {

/// Where the root path sends visitors.
pub const DOCS_PATH: &'static str = "/docs";

/// Target of the redirect served at the root path.
pub fn get_root() -> (r: &'static str)
    ensures
        r@ == DOCS_PATH@,
{
    DOCS_PATH
}

/// The running release, as the version endpoint reports it.
pub struct Version {
    pub version: String,
}

impl Version {
    pub fn new(version: &str) -> (r: Self)
        ensures
            r.version@ == version@,
    {
        Version { version: String::from_str(version) }
    }
}

} // verus!
