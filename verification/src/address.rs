use vstd::prelude::*;

verus! {

/// One resolved network endpoint for a host: an IP address, held as its raw
/// bytes (4 for IPv4, 16 for IPv6), and a port. Produced once by resolution
/// and consumed by exactly one connection attempt.
#[derive(Debug)]
pub struct CandidateAddress {
    /// The address bytes, most significant first: 4 or 16 of them.
    pub ip: Vec<u8>,
    /// The port the connection attempt is aimed at.
    pub port: u16,
}

impl CandidateAddress {
    /// A well-formed candidate holds exactly an IPv4 or an IPv6 address.
    pub open spec fn wf(self) -> bool {
        self.ip@.len() == 4 || self.ip@.len() == 16
    }

    /// Builds a candidate from raw address bytes and a port; address byte
    /// strings of any other length than 4 or 16 are rejected.
    pub fn new(ip: Vec<u8>, port: u16) -> (r: Option<CandidateAddress>)
        ensures
            ip@.len() == 4 || ip@.len() == 16 ==> (r matches Some(a) && a.ip@ == ip@
                && a.port == port && a.wf()),
            !(ip@.len() == 4 || ip@.len() == 16) ==> r is None,
    {
        if ip.len() == 4 || ip.len() == 16 {
            Some(CandidateAddress { ip, port })
        } else {
            None
        }
    }
}

} // verus!
