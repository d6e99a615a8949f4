//! The record that discovery produces for one responding device.

use vstd::prelude::*;

verus! {

/// One discovered light, as parsed out of a single discovery-response
/// datagram by the descriptor parser (an external collaborator).
///
/// `identifier` comes from the descriptor payload and names the physical
/// device; `address` is the `host:port` endpoint a control connection is
/// opened to; `details` carries the remaining descriptor fields as opaque
/// pass-through text that the library never interprets.
#[derive(Debug, PartialEq, Eq)]
pub struct DeviceRecord {
    pub identifier: u32,
    pub address: String,
    pub details: String,
}

impl Clone for DeviceRecord {
    fn clone(&self) -> (r: Self)
        ensures
            r == *self,
    {
        DeviceRecord {
            identifier: self.identifier,
            address: self.address.clone(),
            details: self.details.clone(),
        }
    }
}

} // verus!
