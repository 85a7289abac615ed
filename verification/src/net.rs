//! Decisions on the hosting-network lookup service's replies.
use vstd::prelude::*;

verus! {

/// The hosting-network hint a lookup reply gives: nothing unless the reply
/// reports success; then its AS description, or failing that its ISP.
pub open spec fn asn_hint_of(status: Seq<char>, isp: Option<String>, asn: Option<String>) -> Option<
    String,
> {
    if status == "success"@ {
        if asn is Some {
            asn
        } else {
            isp
        }
    } else {
        None
    }
}

/// The hosting-network hint of a decoded lookup reply.
pub fn asn_from_reply(status: &str, isp: Option<String>, asn: Option<String>) -> (r: Option<String>)
    ensures
        r == asn_hint_of(status@, isp, asn),
{
    if String::from_str(status) == String::from_str("success") {
        match asn {
            Some(a) => Some(a),
            None => isp,
        }
    } else {
        None
    }
}

} // verus!
