//! The virtual channel lock script: it accepts every transaction, since
//! every rule on a virtual channel cell is enforced by the virtual
//! channel type script that accompanies it.

use vstd::prelude::*;

verus! {

/// The lock script always accepts.
pub fn program_entry() -> (r: i8)
    ensures
        r == 0,
{
    0
}

} // verus!
