//! Certificate facts gathered for a variant.
use vstd::prelude::*;

verus! {

/// The leaf certificate a variant presents.
pub struct TlsInfo {
    pub issuer: String,
    pub subject: String,
    /// End of validity, in seconds since the Unix epoch
    pub not_after: i64,
    pub is_valid: bool,
}

/// The certificate record produced for a variant inspected at time `now`
/// (seconds since the Unix epoch). No handshake is performed: the record
/// is a fixed placeholder expiring at `now`.
pub fn inspect_at(now: i64) -> (t: TlsInfo)
    ensures
        t.issuer@ == "Stub Issuer"@,
        t.subject@ == "Stub Subject"@,
        t.not_after == now,
        t.is_valid,
{
    TlsInfo {
        issuer: String::from_str("Stub Issuer"),
        subject: String::from_str("Stub Subject"),
        not_after: now,
        is_valid: true,
    }
}

} // verus!
