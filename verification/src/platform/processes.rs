//! A snapshot of the process listing.

use vstd::prelude::*;
use crate::codec::serialize_process;
use crate::messages::Processes as Listing;
use crate::platform::error::MachineError;

verus! {

/// Builds a snapshot of the process listing. It has no entries yet.
pub fn load() -> (processes: Listing)
    ensures
        processes == (Listing {  }),
{
    Listing::default()
}

/// A snapshot of the process listing.
pub struct Processes {
    processes: Listing,
}

impl Processes {
    /// Takes a snapshot. This does not fail.
    pub fn new() -> (r: Result<Processes, MachineError>)
        ensures
            r is Ok,
    {
        let processes = load();
        Ok(Processes { processes })
    }

    /// The snapshot as the bytes that are published: none, as a listing
    /// has no fields.
    pub fn serialize(&self) -> (buf: Vec<u8>)
        ensures
            buf@ == Seq::<u8>::empty(),
    {
        serialize_process(&self.processes)
    }

    /// The snapshot held.
    pub fn record(&self) -> (listing: &Listing)
        ensures
            *listing == (Listing {  }),
    {
        &self.processes
    }
}

} // verus!
