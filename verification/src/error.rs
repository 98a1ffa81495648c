//! The failures of the acquisition pipeline.

use vstd::prelude::*;

verus! {

/// Why an acquisition did not produce a value.
#[derive(Clone, Copy, Debug, PartialEq, Eq, Structural)]
pub enum AcquisitionError {
    /// The readiness condition was not observed within the timeout.
    SensorNotReady,
    /// Every permitted attempt of a read found the sensor not ready.
    AcquisitionFailed,
    /// The pulse timing was violated and the sensor did not come back.
    ProtocolTimeout,
    /// An average over zero samples was asked for.
    InsufficientSamples,
}

impl AcquisitionError {
    /// The name of the failure, as it is written to a text sink.
    pub fn name(&self) -> (text: &'static str)
        ensures
            text@ == match *self {
                AcquisitionError::SensorNotReady => "SensorNotReady"@,
                AcquisitionError::AcquisitionFailed => "AcquisitionFailed"@,
                AcquisitionError::ProtocolTimeout => "ProtocolTimeout"@,
                AcquisitionError::InsufficientSamples => "InsufficientSamples"@,
            },
    {
        match self {
            AcquisitionError::SensorNotReady => "SensorNotReady",
            AcquisitionError::AcquisitionFailed => "AcquisitionFailed",
            AcquisitionError::ProtocolTimeout => "ProtocolTimeout",
            AcquisitionError::InsufficientSamples => "InsufficientSamples",
        }
    }
}

} // verus!
