//! The decisions of the emulated device itself: when its interface task is
//! to be started and stopped, and what its timestamp reports.

use vstd::prelude::*;

verus! {

/// What the owner of the device does on a shutdown.
#[derive(Clone, Copy, Debug, PartialEq, Eq, Structural)]
pub enum ShutdownAction {
    /// Signal the interface task to end, and wait until it has ended.
    SignalAndWait,
    /// Nothing: no interface task is running.
    Nothing,
}

/// Whether the interface task of the device is running.
#[derive(Clone, Copy, Debug, PartialEq, Eq, Structural)]
pub struct DeviceControl {
    pub running: bool,
}

impl DeviceControl {
    /// The control of a device whose interface task has not been started.
    pub fn new() -> (r: DeviceControl)
        ensures
            !r.running,
    {
        DeviceControl { running: false }
    }

    /// Records that the interface task has been started. Returns whether a
    /// task was running before: its channels are replaced by those of the
    /// new task, which ends it.
    pub fn run(&mut self) -> (replaced: bool)
        ensures
            final(self).running,
            replaced == old(self).running,
    {
        let replaced = self.running;
        self.running = true;
        replaced
    }

    /// Says what a shutdown has to do, and records that no interface task
    /// is running after it.
    pub fn shutdown(&mut self) -> (action: ShutdownAction)
        ensures
            !final(self).running,
            action == if old(self).running {
                ShutdownAction::SignalAndWait
            } else {
                ShutdownAction::Nothing
            },
    {
        if self.running {
            self.running = false;
            ShutdownAction::SignalAndWait
        } else {
            ShutdownAction::Nothing
        }
    }
}

/// The nanoseconds that a timestamp reports for `elapsed` nanoseconds since
/// its start, if 64 bits hold them. Where they do not, the timestamp starts
/// anew.
pub fn nanos_of_elapsed(elapsed: u128) -> (r: Option<u64>)
    ensures
        r == if elapsed <= u64::MAX {
            Some(elapsed as u64)
        } else {
            None::<u64>
        },
{
    if elapsed <= u64::MAX as u128 {
        Some(elapsed as u64)
    } else {
        None
    }
}

/// The nanoseconds that a timestamp reports right after it has started
/// anew: the low 64 bits of the `elapsed` nanoseconds since then.
pub fn nanos_after_restart(elapsed: u128) -> (r: u64)
    ensures
        r == elapsed % 0x1_0000_0000_0000_0000,
{
    assert((elapsed & 0xffff_ffff_ffff_ffff) == elapsed % 0x1_0000_0000_0000_0000) by (bit_vector);
    (elapsed & 0xffff_ffff_ffff_ffff) as u64
}

} // verus!
