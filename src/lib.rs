use vstd::prelude::*;

pub mod err;
pub mod glob_to_regex;
pub mod json;
pub mod condition;
pub mod policy;
pub mod compiler;
pub mod match_result;
pub mod allowed_result;
pub mod policy_set;
pub mod identity;
pub mod request;

verus! {

/// Sets the library up. Nothing is needed at present: the compiled-policy
/// cache is a value that callers create and pass around.
pub fn initialize_libzephir() {
}

} // verus!
