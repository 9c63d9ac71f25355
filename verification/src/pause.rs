//! What a party does between two looks at a word that it waits for.
use vstd::prelude::*;

verus! {

/// Tells the processor that the caller is in a busy-wait loop.
///
/// Calls `core::hint::spin_loop`, which returns at once, takes no lock and
/// keeps no state. The call has no result; all that is claimed of it is that
/// it does not panic.
#[verifier::external_body]
pub(crate) fn pause()
    no_unwind
{
    core::hint::spin_loop();
}

} // verus!
