//! Error taxonomy of the capture and decode pipelines. Every error is
//! terminal for the operation that raised it; none is retried internally.

use vstd::prelude::*;

verus! {

/// Failures of the offline waveform decode pipeline.
#[derive(Clone, Copy, PartialEq, Eq, Structural, Debug)]
pub enum DecodeError {
    /// The container is missing or its header is malformed.
    OpenFailed,
    /// A sample could not be read from the data chunk.
    SampleReadFailed,
    /// The declared sample encoding is not supported; carries the offending
    /// bits-per-sample.
    UnsupportedFormat(u16),
    /// The declared channel count is neither mono nor stereo; carries the
    /// offending channel count.
    UnsupportedChannelLayout(u16),
}

/// Failures of a `start_monitoring` call. All leave the targeted slot idle.
#[derive(Clone, Copy, PartialEq, Eq, Structural, Debug)]
pub enum StartError {
    /// The device id is malformed or resolves to no currently visible device.
    DeviceNotFound,
    /// The host subsystem could not be queried for its devices.
    DeviceEnumerationFailed,
    /// The device cannot report its native input configuration.
    ConfigQueryFailed,
    /// The host subsystem refused to build the input stream.
    StreamBuildFailed,
    /// The stream was built but refused to start.
    StreamStartFailed,
    /// The device's native sample encoding is not supported.
    UnsupportedFormat,
}

} // verus!
