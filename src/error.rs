use vstd::prelude::*;

verus! {

/// The step of opening a capture session that failed.
#[derive(Debug, Clone, Copy, PartialEq, Eq, Structural)]
pub enum CaptureStep {
    /// Resolving the device name into an inactive capture handle.
    Open,
    /// Enabling promiscuous mode.
    Promiscuous,
    /// Setting the snapshot length.
    SnapLength,
    /// Requesting immediate (low-latency) delivery.
    ImmediateMode,
    /// Activating the handle.
    Activate,
    /// Attaching the packet filter expression.
    Filter,
}

/// Every failure the library reports.
#[derive(Debug, Clone, Copy, PartialEq, Eq, Structural)]
pub enum Error {
    /// Address text that is not twelve hexadecimal digits with optional colons.
    Parse,
    /// A byte slice that should hold an address but has another length.
    Length { got: usize },
    /// The named or default capture device was not found.
    DeviceLookup,
    /// Configuring the capture session failed at the given step.
    CaptureConfig(CaptureStep),
    /// Waiting for the next packet failed; the session is over.
    CaptureRead,
    /// A captured buffer shorter than an Ethernet header.
    MalformedFrame { len: usize },
    /// Discovery ended without seeing a matching packet.
    NotFound,
}

} // verus!
