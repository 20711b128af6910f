//! The error of the platform modules.

use vstd::prelude::*;
use crate::number::{decimal, push_decimal};
use crate::text::{from_chars, push_str};

verus! {

/// An error with the place in the source that raised it.
#[derive(Clone, Debug)]
pub struct MachineError {
    pub message: String,
    pub line: u32,
    pub column: u32,
}

impl MachineError {
    /// The text of this error: the message, then line and column after an
    /// opening bracket, with a colon between them.
    pub open spec fn text(self) -> Seq<char> {
        self.message@ + " ("@ + decimal(self.line as nat) + ":"@ + decimal(self.column as nat)
    }

    /// The text of this error.
    pub fn to_string(&self) -> (s: String)
        ensures
            s@ == self.text(),
    {
        let mut out: Vec<char> = Vec::new();
        push_str(&mut out, self.message.as_str());
        push_str(&mut out, " (");
        push_decimal(&mut out, self.line as u64);
        push_str(&mut out, ":");
        push_decimal(&mut out, self.column as u64);
        assert(out@ == self.text());
        from_chars(out.as_slice())
    }
}

} // verus!
