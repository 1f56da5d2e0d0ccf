//! The shape of the public-IP oracle's answer.
//!
//! The oracle is queried over the network outside the library; the library
//! only sees the address it reported.

use vstd::prelude::*;

verus! {

/// The oracle's response body: the caller's current public IP address.
#[derive(Debug, Clone)]
pub struct Ip {
    pub ip: String,
}

impl Ip {
    /// The address carried by the response.
    pub fn into_ip(self) -> (s: String)
        ensures
            s == self.ip,
    {
        self.ip
    }
}

} // verus!
