//! The generator's configuration file: which description to generate from.

use vstd::prelude::*;

verus! {

/// The configuration: a version, and the path of the device description
/// relative to the configuration file's directory.
pub struct HalDefinition {
    pub version: String,
    pub svd_patch_path: String,
}

/// Relies on `<[&str]>::concat`: the result is the two strings one after the other.
#[verifier::external_body]
fn concat(a: &str, b: &str) -> (r: String)
    ensures
        r@ == a@ + b@,
{
    [a, b].concat()
}

impl HalDefinition {
    /// Where the device description lies, given the configuration file's directory.
    pub fn svd_location(&self, config_dir: &String) -> (r: String)
        ensures
            r@ == config_dir@ + seq!['/'] + self.svd_patch_path@,
    {
        let dir = concat(config_dir.as_str(), "/");
        proof {
            reveal_strlit("/");
        }
        let r = concat(dir.as_str(), self.svd_patch_path.as_str());
        r
    }
}

} // verus!
