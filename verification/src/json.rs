use vstd::prelude::*;

verus! {

/// JSON values are carried through the library untouched (server
/// capabilities, request parameters and results); no contract looks inside.
#[verifier::external_type_specification]
#[verifier::external_body]
pub struct ExJsonValue(serde_json::Value);

} // verus!
