//! The stop signal of a scan.

use vstd::prelude::*;
use std::sync::atomic::AtomicBool;

verus! {

/// Whether a scan may take up another file. With no signal it always may;
/// with one, it may while the signal reads `true`.
pub fn still_running(running: Option<&AtomicBool>) -> (go_on: bool)
    ensures
        running is None ==> go_on,
{
    let reading = match running {
        Some(flag) => Some(flag.load(core::sync::atomic::Ordering::SeqCst)),
        None => None,
    };
    may_continue(reading)
}

/// Whether a scan may take up another file, given what its stop signal was
/// read as: it may if there is no signal, or if the signal read `true`.
pub fn may_continue(reading: Option<bool>) -> (go_on: bool)
    ensures
        go_on == match reading {
            Some(value) => value,
            None => true,
        },
{
    match reading {
        Some(value) => value,
        None => true,
    }
}

} // verus!
