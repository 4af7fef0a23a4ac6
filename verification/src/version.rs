//! The version that the host reports.

use vstd::prelude::*;

verus! {

/// Reports the version of the tunnel engine: the engine's own identifier,
/// handed on as it is. It never fails.
pub fn easytier_version(engine_version: &str) -> (r: Result<String, String>)
    ensures
        r matches Ok(version) && version@ == engine_version@,
{
    Ok(String::from_str(engine_version))
}

} // verus!
