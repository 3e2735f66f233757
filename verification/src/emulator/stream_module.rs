//! The decisions of the stream module of the emulated device.
//!
//! The module waits for signals; what it does on each of them is decided
//! here, and carried out by the task that owns the channels.

use vstd::prelude::*;

verus! {

/// A signal to the stream module.
#[derive(Clone, Copy, Debug, PartialEq, Eq, Structural)]
pub enum StreamSignal {
    /// Start streaming.
    Enable,
    /// Stop streaming.
    Disable,
    /// End the module.
    Shutdown,
}

/// What the task of the stream module does after a signal.
#[derive(Clone, Copy, Debug, PartialEq, Eq, Structural)]
pub enum StreamAction {
    /// The module has been enabled: report it.
    ReportEnabled,
    /// The module was enabled already: warn about it.
    WarnAlreadyEnabled,
    /// The module has been disabled: report it.
    ReportDisabled,
    /// The module was disabled already: warn about it.
    WarnAlreadyDisabled,
    /// Leave the loop.
    Stop,
}

/// The state of the stream module.
#[derive(Clone, Copy, Debug, PartialEq, Eq, Structural)]
pub struct StreamModule {
    pub enabled: bool,
}

impl StreamModule {
    /// Whether the module is enabled after `signal`, where it was `enabled`
    /// before: `Enable` and `Disable` set it, `Shutdown` leaves it.
    pub open spec fn spec_enabled_after(enabled: bool, signal: StreamSignal) -> bool {
        match signal {
            StreamSignal::Enable => true,
            StreamSignal::Disable => false,
            StreamSignal::Shutdown => enabled,
        }
    }

    /// What is to be done after `signal`, where the module was `enabled`
    /// before.
    pub open spec fn spec_action(enabled: bool, signal: StreamSignal) -> StreamAction {
        match signal {
            StreamSignal::Enable => if enabled {
                StreamAction::WarnAlreadyEnabled
            } else {
                StreamAction::ReportEnabled
            },
            StreamSignal::Disable => if enabled {
                StreamAction::ReportDisabled
            } else {
                StreamAction::WarnAlreadyDisabled
            },
            StreamSignal::Shutdown => StreamAction::Stop,
        }
    }

    /// A module that is not enabled.
    pub fn new() -> (r: StreamModule)
        ensures
            !r.enabled,
    {
        StreamModule { enabled: false }
    }

    /// Takes `signal` and says what is to be done.
    pub fn on_signal(&mut self, signal: StreamSignal) -> (action: StreamAction)
        ensures
            final(self).enabled == Self::spec_enabled_after(old(self).enabled, signal),
            action == Self::spec_action(old(self).enabled, signal),
    {
        match signal {
            StreamSignal::Enable => {
                if self.enabled {
                    StreamAction::WarnAlreadyEnabled
                } else {
                    self.enabled = true;
                    StreamAction::ReportEnabled
                }
            },
            StreamSignal::Disable => {
                if self.enabled {
                    self.enabled = false;
                    StreamAction::ReportDisabled
                } else {
                    StreamAction::WarnAlreadyDisabled
                }
            },
            StreamSignal::Shutdown => StreamAction::Stop,
        }
    }
}

} // verus!
