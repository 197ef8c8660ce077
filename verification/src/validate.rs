//! Checks on the tools the compiler integration needs. The shell looks the
//! binaries up on the search path and reports what it found.

use vstd::prelude::*;
use crate::server::error::Error;

verus! {

/// The advice offered when a node binary is missing.
pub const NODE_INSTALL_HELP: &'static str =
    "Please install node from nodejs and try again. Go to: https://nodejs.org/en/download";

/// The help line suggested for a missing executable.
pub open spec fn suggestion_for(name: Seq<char>) -> Seq<char> {
    if name == "node"@ || name == "npm"@ || name == "npx"@ {
        NODE_INSTALL_HELP@
    } else {
        "Please install "@ + name + " and try again"@
    }
}

/// Builds the help line for a missing executable.
pub fn suggest_help(name: &str) -> (r: String)
    ensures
        r@ == suggestion_for(name@),
{
    if crate::strutil::str_eq(name, "node") || crate::strutil::str_eq(name, "npm")
        || crate::strutil::str_eq(name, "npx") {
        String::from_str(NODE_INSTALL_HELP)
    } else {
        String::from_str("Please install ").concat(name).concat(" and try again")
    }
}

/// Accepts the lookup's verdict on one executable: found is fine, missing
/// is the error naming it.
pub fn check_exists(name: &String, found: bool) -> (r: Result<(), Error>)
    ensures
        found <==> r is Ok,
        !found ==> (r matches Err(e) && e matches Error::MissingDependency(n) && n@ == name@),
{
    if found {
        Ok(())
    } else {
        Err(Error::MissingDependency(name.clone()))
    }
}

/// Accepts the lookups' verdicts on node, npm and npx: all three must be
/// present, and the first missing one names the error.
pub fn check_node_deps(node: bool, npm: bool, npx: bool) -> (r: Result<(), Error>)
    ensures
        r is Ok <==> (node && npm && npx),
        !node ==> (r matches Err(e) && e matches Error::MissingDependency(n) && n@ == "node"@),
        node && !npm ==> (r matches Err(e) && e matches Error::MissingDependency(n) && n@
            == "npm"@),
        node && npm && !npx ==> (r matches Err(e) && e matches Error::MissingDependency(n) && n@
            == "npx"@),
{
    check_exists(&String::from_str("node"), node)?;
    check_exists(&String::from_str("npm"), npm)?;
    check_exists(&String::from_str("npx"), npx)?;
    Ok(())
}

} // verus!
