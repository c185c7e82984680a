//! What the server assigns to a session.

use vstd::prelude::*;

use crate::ip::Ipv4Addr;

verus! {

/// The parameters of an established session.
#[derive(Clone, Copy, Debug, PartialEq, Eq, Structural)]
pub struct SessionParameters {
    pub client_address: Ipv4Addr,
    pub prefix_len: u8,
    pub dns: Ipv4Addr,
    pub mtu: u16,
}

} // verus!
