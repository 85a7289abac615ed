//! Registration facts gathered for a variant.
use vstd::prelude::*;

verus! {

/// Registration record of a variant.
pub struct WhoisInfo {
    pub registrar: Option<String>,
    /// Registration time, in seconds since the Unix epoch
    pub creation_date: Option<i64>,
}

/// The registration record produced for a variant queried at time `now`
/// (seconds since the Unix epoch). No server is asked: the record is a
/// fixed placeholder registered at `now`.
pub fn query_at(now: i64) -> (w: WhoisInfo)
    ensures
        w.registrar matches Some(r) && r@ == "Stub Registrar"@,
        w.creation_date == Some(now),
{
    WhoisInfo { registrar: Some(String::from_str("Stub Registrar")), creation_date: Some(now) }
}

} // verus!
