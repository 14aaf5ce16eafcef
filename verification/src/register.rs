//! Registers of the target machine.

use crate::text::{decimal, push_decimal};
use vstd::prelude::*;
use vstd::string::*;

verus! {

/// A register, by its number.
#[derive(Debug, PartialEq, Eq, Clone, Copy, Structural)]
pub struct Register(pub u8);

impl Register {
    /// The text of the register: `r0`, `r1`, ...
    pub open spec fn text(self) -> Seq<char> {
        "r"@ + decimal(self.0 as nat)
    }

    /// Appends the text of the register.
    pub fn push_text(&self, out: &mut String)
        ensures
            final(out)@ == old(out)@ + self.text(),
    {
        out.append("r");
        push_decimal(out, self.0 as u64);
        assert(out@ =~= old(out)@ + self.text());
    }
}

/// The register that the next value goes to. Registers are not allocated yet: every
/// value goes to register 0.
pub fn free_register() -> (register: Register)
    ensures
        register == Register(0),
{
    Register(0)
}

} // verus!
