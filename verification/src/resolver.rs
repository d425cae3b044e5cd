//! Chrome executable resolver, for callers that drive Chrome for Testing
//! directly: the path of the fetched build, or why the fetch failed.
use vstd::prelude::*;

use crate::text::result_view;

verus! {

/// Stringly-typed form of a Chrome for Testing resolution: the executable's
/// path, or the error's message, unchanged.
pub fn resolve_executable(fetched: Result<String, String>) -> (r: Result<String, String>)
    ensures
        result_view(r) == result_view(fetched),
{
    fetched
}

} // verus!
