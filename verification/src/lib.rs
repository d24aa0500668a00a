//! Server side of SSDP (Simple Service Discovery Protocol): advertise a set
//! of devices, answer `M-SEARCH` discovery queries, and periodically announce
//! (`ssdp:alive`) and retract (`ssdp:byebye`) the advertisements.
use vstd::prelude::*;

pub mod lifecycle;
pub mod message;
pub mod outside;
pub mod parse;
pub mod roundtrip;
pub mod search;
pub mod server;
pub mod text;

pub use server::Server;

verus! {

/// A logical advertised entity.
pub struct Device {
    /// Opaque vendor-assigned identifier, e.g. a UUID.
    pub unique_id: String,
    /// Value clients match against (`ST` in queries, `NT` in notifications).
    pub search_target: String,
    /// Unique service name: `unique_id::search_target`, or `unique_id` alone
    /// when `search_target` is empty.
    pub usn: String,
    /// URL where a full description of the device can be fetched.
    pub location: String,
}

/// The unique service name derived from an identifier and a search target.
pub open spec fn usn_text(unique_id: Seq<char>, search_target: Seq<char>) -> Seq<char> {
    if search_target.len() == 0 {
        unique_id
    } else {
        unique_id + "::"@ + search_target
    }
}

impl Device {
    /// A device is well formed when its `usn` is derived from the other fields.
    pub open spec fn wf(self) -> bool {
        self.usn@ == usn_text(self.unique_id@, self.search_target@)
    }

    /// Create a device advertisement from its identifier, search target and
    /// description URL.
    pub fn new(unique_id: &str, search_target: &str, location: &str) -> (d: Device)
        ensures
            d.wf(),
            d.unique_id@ == unique_id@,
            d.search_target@ == search_target@,
            d.location@ == location@,
    {
        let usn: String = if search_target.unicode_len() == 0 {
            unique_id.to_owned()
        } else {
            let mut u = unique_id.to_owned();
            u.append("::");
            u.append(search_target);
            u
        };
        Device {
            unique_id: unique_id.to_owned(),
            search_target: search_target.to_owned(),
            usn,
            location: location.to_owned(),
        }
    }
}

} // verus!
