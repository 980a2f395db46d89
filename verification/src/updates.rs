//! Firmware update state: what is installed and where an update check
//! stands.

use vstd::prelude::*;
use crate::error::{FlipperError, TransportError};
use crate::info::Info;

verus! {

/// Where the firmware-upgrade flow currently stands.
#[derive(Debug, Clone, PartialEq, Eq)]
pub enum UpdateState {
    /// No check was asked for yet.
    Unknown,
    /// The CLI bridge does not speak the update protocol.
    NotSupported,
    /// A check is in flight.
    Checking,
    /// The installed firmware is current.
    NoUpdates,
    /// An update is available.
    UpdateAvailable {
        /// Branch the available update belongs to.
        branch: String,
        /// Target version string.
        target_version: String,
    },
    /// The transport or the device reported a failure.
    Error(String),
}

/// What the Updates screen shows: the installed firmware and the state of
/// the update check.
#[derive(Debug, Clone, PartialEq, Eq)]
pub struct UpdateStatus {
    /// Currently-installed firmware metadata.
    pub installed: Info,
    /// Current update-check state.
    pub state: UpdateState,
}

impl UpdateStatus {
    /// A status from the installed firmware and a state.
    pub fn new(installed: Info, state: UpdateState) -> (r: UpdateStatus)
        ensures
            r.installed == installed,
            r.state == state,
    {
        UpdateStatus { installed, state }
    }

    /// The status while the bridge cannot check for updates.
    pub fn unsupported(installed: Info) -> (r: UpdateStatus)
        ensures
            r.installed == installed,
            r.state == UpdateState::NotSupported,
    {
        Self::new(installed, UpdateState::NotSupported)
    }
}

/// The result of a one-shot update check, given how the `firmware update
/// check` request went: the bridge answers nothing the check understands,
/// so any reply means `NotSupported`; a transport failure is passed on.
pub fn check_outcome<T>(sent: Result<T, TransportError>) -> (r: Result<UpdateState, FlipperError>)
    ensures
        match sent {
            Ok(_) => r == Ok::<UpdateState, FlipperError>(UpdateState::NotSupported),
            Err(e) => r == Err::<UpdateState, FlipperError>(FlipperError::Transport(e)),
        },
{
    match sent {
        Ok(_) => Ok(UpdateState::NotSupported),
        Err(e) => Err(FlipperError::Transport(e)),
    }
}

} // verus!
