//! What an agent learns about its host from the text of the host's
//! information sources.

use vstd::prelude::*;

pub mod error;
pub mod machine;
pub mod metrics;
pub mod network;
pub mod processes;
pub mod utils;

verus! {

/// Access to what identifies a machine.
pub trait Machine {
    /// The identifier of the boot session.
    spec fn bootid_text(&self) -> Seq<char>;

    /// The hardware address.
    spec fn mac_number(&self) -> u64;

    /// The identifier of the boot session.
    fn bootid(&self) -> (id: &str)
        ensures
            id@ == self.bootid_text(),
    ;

    /// The hardware address.
    fn mac(&self) -> (mac: u64)
        ensures
            mac == self.mac_number(),
    ;
}

} // verus!
