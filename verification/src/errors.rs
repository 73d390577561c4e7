use vstd::prelude::*;

verus! {

/// Failure recorded when the operating system's audio-object discovery
/// query could not produce a process list. The status code is the raw
/// result code returned by the host audio subsystem.
#[derive(Clone, Copy, Debug, PartialEq, Eq, Structural)]
pub struct DiscoveryError {
    pub status: i32,
}

/// The error taxonomy of the capture control plane.
///
/// Construction-time failures (subscribe, start of a capture) are surfaced
/// to the caller through this type; teardown paths absorb their failures
/// and never raise.
#[derive(Clone, Copy, Debug, PartialEq, Eq, Structural)]
pub enum CaptureError {
    /// The discovery query for audio-capable processes failed.
    Discovery(DiscoveryError),
    /// Installing an operating-system event listener failed.
    ListenerInstall,
    /// Removing an operating-system event listener failed.
    ListenerRemove,
    /// The aggregate capture device could not be built.
    DeviceConstruction,
    /// Shared registry state could not be locked by the host layer.
    LockUnavailable,
}

impl CaptureError {
    /// The wording of each error, for hosts that render errors as text.
    pub open spec fn message_spec(self) -> Seq<char> {
        match self {
            CaptureError::Discovery(_) => "audio process discovery failed"@,
            CaptureError::ListenerInstall => "failed to add property listener"@,
            CaptureError::ListenerRemove => "failed to remove property listener"@,
            CaptureError::DeviceConstruction => "failed to build aggregate device"@,
            CaptureError::LockUnavailable => "registry lock unavailable"@,
        }
    }

    /// A short description of the error.
    pub fn message(&self) -> (r: &'static str)
        ensures
            r@ == self.message_spec(),
    {
        match self {
            CaptureError::Discovery(_) => "audio process discovery failed",
            CaptureError::ListenerInstall => "failed to add property listener",
            CaptureError::ListenerRemove => "failed to remove property listener",
            CaptureError::DeviceConstruction => "failed to build aggregate device",
            CaptureError::LockUnavailable => "registry lock unavailable",
        }
    }
}

} // verus!
