//! Sleep and wake: which power broadcast means the machine resumed, and
//! whether the dictation hotkey is registered again then. The hidden window
//! that receives the broadcasts belongs to the caller.

use vstd::prelude::*;

verus! {

/// `PBT_APMRESUMESUSPEND`: resumed after a user-triggered suspend.
pub const PBT_APMRESUMESUSPEND: usize = 0x0007;

/// `PBT_APMRESUMEAUTOMATIC`: resumed, whether or not a user is present.
pub const PBT_APMRESUMEAUTOMATIC: usize = 0x0012;

/// A `WM_POWERBROADCAST` event that means the machine woke.
pub fn is_resume_event(event: usize) -> (r: bool)
    ensures
        r == (event == PBT_APMRESUMEAUTOMATIC || event == PBT_APMRESUMESUSPEND),
{
    event == PBT_APMRESUMEAUTOMATIC || event == PBT_APMRESUMESUSPEND
}

/// After a wake the hotkey is registered again, unless auto-pause holds it.
pub fn rehook_after_wake(dictation_paused: bool) -> (r: bool)
    ensures
        r == !dictation_paused,
{
    !dictation_paused
}

} // verus!
