//! The decision half of instance persistence. The stored payload is an
//! opaque, pre-serialized string this core never parses; reading and
//! writing the file belong to the surrounding application. What a missing
//! file loads as is decided here.

use vstd::prelude::*;

verus! {

/// The instance list a load produces: the file's content when there was
/// one, and the empty JSON list `[]` when the file is absent.
pub fn loaded_instances(contents: Option<String>) -> (r: String)
    ensures
        contents matches Some(s) ==> r@ == s@,
        contents is None ==> r@ == "[]"@,
{
    match contents {
        Some(s) => s,
        None => "[]".to_owned(),
    }
}

} // verus!
