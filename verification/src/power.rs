//! Messages of the machine's power management.

use vstd::prelude::*;

verus! {

/// The message that says that the machine is about to sleep.
pub const MESSAGE_SYSTEM_WILL_SLEEP: u32 = 0xe000_0280;

/// Whether a message says that the machine is about to sleep.
pub fn will_sleep(message_type: u32) -> (sleeps: bool)
    ensures
        sleeps == (message_type == 0xe000_0280),
{
    message_type == MESSAGE_SYSTEM_WILL_SLEEP
}

} // verus!
