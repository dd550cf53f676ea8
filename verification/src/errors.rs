use vstd::prelude::*;

verus! {

/// The ways a capture, probe, or enumeration operation can fail.
///
/// Each variant that carries a `String` holds the full, user-facing
/// description already assembled by the function that failed.
#[derive(Debug, PartialEq, Eq)]
pub enum CaptureError {
    /// A host backend could not be opened.
    DeviceUnavailable(String),
    /// An explicitly requested device id is not in the catalog.
    DeviceNotFound(String),
    /// The catalog is empty; the text names the likely remediation.
    NoDevicesFound(String),
    /// The device's default stream configuration could not be read.
    StreamConfigError(String),
    /// The device reports a native sample encoding the backend cannot convert.
    UnsupportedSampleFormat(String),
    /// The input stream could not be built or started.
    StreamStartError(String),
    /// An error reported asynchronously by the running stream.
    RuntimeStreamError(String),
    /// A capture was stopped with no samples collected.
    EmptyCapture(String),
    /// The collected audio is below both the peak and the RMS floor.
    NearSilence(String),
    /// The container could not be written or finalized.
    EncodeError(String),
}

impl CaptureError {
    /// The user-facing description carried by this error.
    pub fn message(&self) -> (r: String)
        ensures
            r@ == self.message_view(),
    {
        match self {
            CaptureError::DeviceUnavailable(m) => m.clone(),
            CaptureError::DeviceNotFound(m) => m.clone(),
            CaptureError::NoDevicesFound(m) => m.clone(),
            CaptureError::StreamConfigError(m) => m.clone(),
            CaptureError::UnsupportedSampleFormat(m) => m.clone(),
            CaptureError::StreamStartError(m) => m.clone(),
            CaptureError::RuntimeStreamError(m) => m.clone(),
            CaptureError::EmptyCapture(m) => m.clone(),
            CaptureError::NearSilence(m) => m.clone(),
            CaptureError::EncodeError(m) => m.clone(),
        }
    }

    /// The description as a character sequence.
    pub open spec fn message_view(&self) -> Seq<char> {
        match self {
            CaptureError::DeviceUnavailable(m) => m@,
            CaptureError::DeviceNotFound(m) => m@,
            CaptureError::NoDevicesFound(m) => m@,
            CaptureError::StreamConfigError(m) => m@,
            CaptureError::UnsupportedSampleFormat(m) => m@,
            CaptureError::StreamStartError(m) => m@,
            CaptureError::RuntimeStreamError(m) => m@,
            CaptureError::EmptyCapture(m) => m@,
            CaptureError::NearSilence(m) => m@,
            CaptureError::EncodeError(m) => m@,
        }
    }
}

} // verus!
