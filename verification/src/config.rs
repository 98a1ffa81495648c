//! The settings of an acquisition, fixed at startup.

use vstd::prelude::*;
use crate::error::AcquisitionError;
use crate::gain::GainChannel;

verus! {

/// The settings that the pipeline runs with. Durations are in milliseconds.
#[derive(Clone, Copy, Debug, PartialEq, Eq, Structural)]
pub struct AcquisitionConfig {
    /// Input path and gain of every conversion.
    pub gain_channel: GainChannel,
    /// Samples per average; at least one.
    pub sample_count: u32,
    /// How long one exchange waits for the sensor to be ready.
    pub readiness_timeout: u32,
    /// Further attempts of a read after the sensor was found not ready.
    pub retry_count: u32,
    /// Pause between two samples of one average.
    pub inter_sample_delay: u32,
    /// Pause after each reported weight.
    pub report_interval: u32,
}

impl AcquisitionConfig {
    /// Whether the settings can be run with: an average needs a sample.
    pub open spec fn is_valid(&self) -> bool {
        self.sample_count > 0
    }

    /// Checks the settings before any acquisition: a sample count of zero is
    /// refused, everything else is accepted.
    pub fn validate(&self) -> (checked: Result<(), AcquisitionError>)
        ensures
            checked.is_ok() <==> self.is_valid(),
            checked.is_err() ==> checked == Err::<(), AcquisitionError>(
                AcquisitionError::InsufficientSamples,
            ),
    {
        if self.sample_count == 0 {
            Err(AcquisitionError::InsufficientSamples)
        } else {
            Ok(())
        }
    }

    /// Builds checked settings: `Ok` with the given values exactly when
    /// `sample_count` is positive, else `InsufficientSamples`.
    pub fn new(
        gain_channel: GainChannel,
        sample_count: u32,
        readiness_timeout: u32,
        retry_count: u32,
        inter_sample_delay: u32,
        report_interval: u32,
    ) -> (built: Result<AcquisitionConfig, AcquisitionError>)
        ensures
            sample_count == 0 ==> built == Err::<AcquisitionConfig, AcquisitionError>(
                AcquisitionError::InsufficientSamples,
            ),
            sample_count > 0 ==> built == Ok::<AcquisitionConfig, AcquisitionError>(
                (AcquisitionConfig {
                    gain_channel,
                    sample_count,
                    readiness_timeout,
                    retry_count,
                    inter_sample_delay,
                    report_interval,
                }),
            ),
    {
        let config = AcquisitionConfig {
            gain_channel,
            sample_count,
            readiness_timeout,
            retry_count,
            inter_sample_delay,
            report_interval,
        };
        match config.validate() {
            Ok(()) => Ok(config),
            Err(e) => Err(e),
        }
    }
}

} // verus!
