//! Taring and the calibrate-once, measure-forever cycle.

use vstd::prelude::*;
use crate::average::{average, lemma_mean_in_range, lemma_mean_shift, mean_of, sum_of};
use crate::config::AcquisitionConfig;
use crate::error::AcquisitionError;
use crate::exchange::ExchangeAction;
use crate::gain::GainChannel;
use crate::reader::{read_outcome, read_span, reads_outcome, reads_span, ReadStep, SampleReader};

verus! {

/// The calibrated weight of a window of samples: their mean less the tare.
pub open spec fn weight_of(samples: Seq<i32>, tare: int) -> int {
    mean_of(samples) - tare
}

/// The tare offset: the mean of the samples taken while unloaded.
pub fn tare(unloaded: &Vec<i32>) -> (offset: Result<i32, AcquisitionError>)
    ensures
        unloaded@.len() == 0 ==> offset == Err::<i32, AcquisitionError>(
            AcquisitionError::InsufficientSamples,
        ),
        unloaded@.len() > 0 ==> offset == Ok::<i32, AcquisitionError>(mean_of(unloaded@) as i32),
        unloaded@.len() > 0 ==> i32::MIN <= mean_of(unloaded@) <= i32::MAX,
{
    average(unloaded)
}

/// The calibrated weight of the samples: their mean less `tare`.
pub fn weigh(samples: &Vec<i32>, tare: i32) -> (weight: Result<i64, AcquisitionError>)
    ensures
        samples@.len() == 0 ==> weight == Err::<i64, AcquisitionError>(
            AcquisitionError::InsufficientSamples,
        ),
        samples@.len() > 0 ==> weight == Ok::<i64, AcquisitionError>(
            weight_of(samples@, tare as int) as i64,
        ),
        samples@.len() > 0 ==> i64::MIN <= weight_of(samples@, tare as int) <= i64::MAX,
{
    match average(samples) {
        Ok(mean) => Ok(mean as i64 - tare as i64),
        Err(e) => Err(e),
    }
}

/// Samples weighed against their own mean weigh nothing.
pub proof fn lemma_zero_point(samples: Seq<i32>)
    ensures
        weight_of(samples, mean_of(samples)) == 0,
{
}

/// Samples that lie `k` above the unloaded ones, one for one, weigh `k`, up
/// to one unit of rounding; exactly `k` where the unloaded sum is a multiple
/// of the count, or where both sums have the same sign.
pub proof fn lemma_offset(unloaded: Seq<i32>, loaded: Seq<i32>, k: int)
    requires
        unloaded.len() == loaded.len(),
        unloaded.len() > 0,
        forall|i: int| 0 <= i < unloaded.len() ==> #[trigger] loaded[i] == unloaded[i] + k,
    ensures
        k - 1 <= weight_of(loaded, mean_of(unloaded)) <= k + 1,
        sum_of(unloaded) % (unloaded.len() as int) == 0 ==> weight_of(loaded, mean_of(unloaded))
            == k,
        (sum_of(unloaded) >= 0 && sum_of(loaded) >= 0) ==> weight_of(loaded, mean_of(unloaded))
            == k,
        (sum_of(unloaded) <= 0 && sum_of(loaded) <= 0) ==> weight_of(loaded, mean_of(unloaded))
            == k,
{
    lemma_mean_shift(unloaded, loaded, k);
}

/// Where the cycle stands.
#[derive(Clone, Copy, Debug, PartialEq, Eq, Structural)]
pub enum LoopPhase {
    /// Taking the tare, once.
    Calibrating,
    /// Reporting weights, for good.
    Measuring,
    /// Calibration failed; nothing more is measured.
    Halted,
}

/// What the caller observed after performing an action.
#[derive(Clone, Copy, Debug, PartialEq, Eq, Structural)]
pub enum LoopEvent {
    /// An exchange delivered this raw sample.
    Sample(i32),
    /// An exchange failed.
    Failed(AcquisitionError),
    /// A report or a pause is over.
    Resumed,
}

impl LoopEvent {
    /// What the end of an exchange means to the cycle: a delivered sample
    /// or a failure; any other action of the driver ends no exchange.
    pub fn of_exchange(action: ExchangeAction) -> (event: Option<LoopEvent>)
        ensures
            event == match action {
                ExchangeAction::Deliver(v) => Some(LoopEvent::Sample(v)),
                ExchangeAction::Fail(e) => Some(LoopEvent::Failed(e)),
                _ => None,
            },
    {
        match action {
            ExchangeAction::Deliver(v) => Some(LoopEvent::Sample(v)),
            ExchangeAction::Fail(e) => Some(LoopEvent::Failed(e)),
            _ => None,
        }
    }
}

/// What the caller is to do next.
#[derive(Clone, Copy, Debug, PartialEq, Eq, Structural)]
pub enum LoopAction {
    /// Run one exchange with the sensor.
    Exchange(GainChannel),
    /// Suspend for this many milliseconds.
    Pause(u32),
    /// Emit the tare, once.
    ReportTare(i32),
    /// Emit a weight, then suspend for `pause` milliseconds.
    ReportWeight { weight: i64, pause: u32 },
    /// Emit the failure and stop.
    Abort(AcquisitionError),
}

/// The cycle as a plain value.
pub struct LoopState {
    /// The settings, fixed at startup.
    pub config: AcquisitionConfig,
    /// Where the cycle stands.
    pub phase: LoopPhase,
    /// The tare offset; set when calibration ends.
    pub tare: i32,
    /// The samples of the window under way, in the order read.
    pub window: Seq<i32>,
    /// The retry budget of the read under way.
    pub reader: SampleReader,
    /// Why the cycle halted, once it has.
    pub failure: AcquisitionError,
}

impl LoopState {
    /// The invariant of the cycle: valid settings, a window that is not yet
    /// full, and a reader with the configured budget.
    pub open spec fn wf(self) -> bool {
        &&& self.config.is_valid()
        &&& self.window.len() < self.config.sample_count
        &&& self.reader.wf()
        &&& self.reader.retry_count == self.config.retry_count
    }

    /// Whether the cycle stands between two windows.
    pub open spec fn at_boundary(self) -> bool {
        self.window.len() == 0 && self.reader == self.reader.fresh()
    }

    /// The cycle after a read ended as `read` says.
    pub open spec fn after_read(self, read: (SampleReader, ReadStep)) -> (LoopState, LoopAction) {
        let reader = read.0;
        match read.1 {
            ReadStep::Retry => (
                LoopState { reader, ..self },
                LoopAction::Exchange(self.config.gain_channel),
            ),
            ReadStep::Done(v) => {
                let window = self.window.push(v);
                if window.len() < self.config.sample_count {
                    (
                        LoopState { reader, window, ..self },
                        LoopAction::Pause(self.config.inter_sample_delay),
                    )
                } else if self.phase == LoopPhase::Calibrating {
                    (
                        LoopState {
                            reader,
                            window: Seq::empty(),
                            phase: LoopPhase::Measuring,
                            tare: mean_of(window) as i32,
                            ..self
                        },
                        LoopAction::ReportTare(mean_of(window) as i32),
                    )
                } else {
                    (
                        LoopState { reader, window: Seq::empty(), ..self },
                        LoopAction::ReportWeight {
                            weight: weight_of(window, self.tare as int) as i64,
                            pause: self.config.report_interval,
                        },
                    )
                }
            },
            ReadStep::Failed(e) => {
                if self.phase == LoopPhase::Calibrating {
                    (
                        LoopState {
                            reader,
                            window: Seq::empty(),
                            phase: LoopPhase::Halted,
                            failure: e,
                            ..self
                        },
                        LoopAction::Abort(e),
                    )
                } else {
                    (
                        LoopState { reader, window: Seq::empty(), ..self },
                        LoopAction::Pause(self.config.report_interval),
                    )
                }
            },
        }
    }

    /// The transition of the cycle: the state and the action that follow
    /// `event`.
    ///
    /// A halted cycle stays halted. A resumption asks for the next exchange.
    /// A sample or a failure goes through the reader: a retry asks for
    /// another exchange; a sample joins the window, and the sample that
    /// fills it ends the window with a report of the tare (calibrating) or
    /// of the weight (measuring); a failed read is fatal while calibrating
    /// and skips the window while measuring.
    pub open spec fn next(self, event: LoopEvent) -> (LoopState, LoopAction) {
        if self.phase == LoopPhase::Halted {
            (self, LoopAction::Abort(self.failure))
        } else {
            match event {
                LoopEvent::Resumed => (self, LoopAction::Exchange(self.config.gain_channel)),
                LoopEvent::Sample(v) => self.after_read(
                    self.reader.next(Ok::<i32, AcquisitionError>(v)),
                ),
                LoopEvent::Failed(e) => self.after_read(
                    self.reader.next(Err::<i32, AcquisitionError>(e)),
                ),
            }
        }
    }

    /// The state after the samples arrived one by one.
    pub open spec fn feed(self, samples: Seq<i32>) -> LoopState
        decreases samples.len(),
    {
        if samples.len() == 0 {
            self
        } else {
            self.feed(samples.drop_last()).next(LoopEvent::Sample(samples.last())).0
        }
    }
}

/// The event that the result of an exchange is to the cycle.
pub open spec fn event_of(outcome: Result<i32, AcquisitionError>) -> LoopEvent {
    match outcome {
        Ok(v) => LoopEvent::Sample(v),
        Err(e) => LoopEvent::Failed(e),
    }
}

/// The cycle and its last action after these exchange results arrived in
/// order.
pub open spec fn driven(s: LoopState, outcomes: Seq<Result<i32, AcquisitionError>>) -> (
    LoopState,
    LoopAction,
)
    decreases outcomes.len(),
{
    if outcomes.len() == 0 {
        (s, LoopAction::Exchange(s.config.gain_channel))
    } else {
        let first = s.next(event_of(outcomes[0]));
        if outcomes.len() == 1 {
            first
        } else {
            driven(first.0, outcomes.skip(1))
        }
    }
}

/// A window is the average over `read_n`: where the reads that fill the
/// window succeed on exactly these exchange results, giving `samples`, the
/// cycle ends the window as if the samples had arrived without any retry.
pub proof fn lemma_window_of_reads(
    s: LoopState,
    outcomes: Seq<Result<i32, AcquisitionError>>,
    samples: Seq<i32>,
)
    requires
        s.wf(),
        s.phase != LoopPhase::Halted,
        reads_outcome(
            outcomes,
            s.reader.retries_left as nat,
            s.config.retry_count as nat,
            (s.config.sample_count - s.window.len()) as nat,
        ) == Some(Ok::<Seq<i32>, AcquisitionError>(samples)),
        outcomes.len() == reads_span(
            outcomes,
            s.reader.retries_left as nat,
            s.config.retry_count as nat,
            (s.config.sample_count - s.window.len()) as nat,
        ),
    ensures
        samples.len() == s.config.sample_count - s.window.len(),
        driven(s, outcomes) == (LoopState {
            window: s.window + samples.drop_last(),
            reader: s.reader.fresh(),
            ..s
        }).next(LoopEvent::Sample(samples.last())),
    decreases outcomes.len(),
{
    let rc = s.config.retry_count as nat;
    let need = (s.config.sample_count - s.window.len()) as nat;
    let left = s.reader.retries_left as nat;
    if outcomes.len() == 0 {
        assert(read_outcome(outcomes, left).is_none());
    } else {
        let rest = outcomes.skip(1);
        let stepped = s.next(event_of(outcomes[0])).0;
        match outcomes[0] {
            Ok(v) => {
                assert(read_span(outcomes, left) == 1);
                let later = reads_outcome(rest, rc, rc, (need - 1) as nat);
                assert(later.is_some() && later.unwrap().is_ok());
                let tail = later.unwrap().unwrap();
                assert(samples == seq![v] + tail);
                if need == 1 {
                    assert(tail =~= Seq::<i32>::empty());
                    assert(samples.drop_last() =~= Seq::<i32>::empty());
                    assert(s.window + samples.drop_last() =~= s.window);
                    assert(reads_span(rest, rc, rc, 0) == 0);
                    assert(outcomes.len() == 1);
                } else {
                    assert(stepped.window == s.window.push(v));
                    assert(stepped.reader == s.reader.fresh());
                    lemma_window_of_reads(stepped, rest, tail);
                    assert(rest.len() > 0) by {
                        if rest.len() == 0 {
                            assert(read_outcome(rest, rc).is_none());
                        }
                    }
                    assert(samples.len() == need);
                    assert(samples.drop_last() =~= seq![v] + tail.drop_last());
                    assert(samples.last() == tail.last());
                    assert(stepped.window + tail.drop_last() =~= s.window + samples.drop_last());
                }
            },
            Err(e) => {
                assert(e == AcquisitionError::SensorNotReady && left > 0);
                assert(rest.skip(read_span(rest, (left - 1) as nat) as int) =~= outcomes.skip(
                    read_span(outcomes, left) as int,
                ));
                lemma_window_of_reads(stepped, rest, samples);
                assert(rest.len() > 0) by {
                    if rest.len() == 0 {
                        assert(read_outcome(rest, (left - 1) as nat).is_none());
                    }
                }
            },
        }
    }
}

/// Measuring is never left, and the tare is written once: whatever a
/// measuring cycle observes, it goes on measuring against the same tare
/// with the same settings.
pub proof fn lemma_measuring_is_forever(s: LoopState, event: LoopEvent)
    requires
        s.phase == LoopPhase::Measuring,
    ensures
        s.next(event).0.phase == LoopPhase::Measuring,
        s.next(event).0.tare == s.tare,
        s.next(event).0.config == s.config,
{
}

/// A halted cycle stays halted and asks for nothing but the abort.
pub proof fn lemma_halted_is_final(s: LoopState, event: LoopEvent)
    requires
        s.phase == LoopPhase::Halted,
    ensures
        s.next(event) == (s, LoopAction::Abort(s.failure)),
{
}

/// While calibrating, nothing is reported but the tare: no weight leaves
/// the cycle before the tare is known.
pub proof fn lemma_no_weight_before_tare(s: LoopState, event: LoopEvent)
    requires
        s.phase == LoopPhase::Calibrating,
    ensures
        !(s.next(event).1 is ReportWeight),
        s.next(event).1 is ReportTare <==> s.next(event).0.phase == LoopPhase::Measuring,
{
}

/// The action that ends a window: the one that follows the last of
/// `samples` after the others have arrived.
pub open spec fn closing_action(s: LoopState, samples: Seq<i32>) -> LoopAction {
    s.feed(samples.drop_last()).next(LoopEvent::Sample(samples.last())).1
}

/// Samples that do not fill the window join it in the order of arrival, and
/// change nothing else.
pub proof fn lemma_feed_joins(s: LoopState, samples: Seq<i32>)
    requires
        s.wf(),
        s.at_boundary(),
        s.phase != LoopPhase::Halted,
        samples.len() < s.config.sample_count,
    ensures
        s.feed(samples) == (LoopState { window: samples, ..s }),
        s.feed(samples).wf(),
    decreases samples.len(),
{
    if samples.len() > 0 {
        lemma_feed_joins(s, samples.drop_last());
        assert(samples.drop_last().push(samples.last()) =~= samples);
    } else {
        assert(s.window =~= samples);
    }
}

/// A calibrating window of `sample_count` samples ends with a report of
/// their mean as the tare, and leaves the cycle measuring against it.
pub proof fn lemma_calibrating_window(s: LoopState, samples: Seq<i32>)
    requires
        s.wf(),
        s.at_boundary(),
        s.phase == LoopPhase::Calibrating,
        samples.len() == s.config.sample_count,
    ensures
        i32::MIN <= mean_of(samples) <= i32::MAX,
        closing_action(s, samples) == LoopAction::ReportTare(mean_of(samples) as i32),
        s.feed(samples) == (LoopState {
            phase: LoopPhase::Measuring,
            tare: mean_of(samples) as i32,
            ..s
        }),
        s.feed(samples).wf(),
        s.feed(samples).at_boundary(),
{
    lemma_feed_joins(s, samples.drop_last());
    assert(samples.drop_last().push(samples.last()) =~= samples);
    assert(s.window =~= Seq::<i32>::empty());
    lemma_mean_in_range(samples);
}

/// A measuring window of `sample_count` samples ends with a report of their
/// mean less the tare, and leaves the cycle as it was before the window.
pub proof fn lemma_measuring_window(s: LoopState, samples: Seq<i32>)
    requires
        s.wf(),
        s.at_boundary(),
        s.phase == LoopPhase::Measuring,
        samples.len() == s.config.sample_count,
    ensures
        i64::MIN <= weight_of(samples, s.tare as int) <= i64::MAX,
        closing_action(s, samples) == (LoopAction::ReportWeight {
            weight: weight_of(samples, s.tare as int) as i64,
            pause: s.config.report_interval,
        }),
        s.feed(samples) == s,
{
    lemma_feed_joins(s, samples.drop_last());
    assert(samples.drop_last().push(samples.last()) =~= samples);
    assert(s.window =~= Seq::<i32>::empty());
    lemma_mean_in_range(samples);
}

/// Two measuring windows in a row that see the same samples report the
/// same weight.
pub proof fn lemma_measuring_repeats(s: LoopState, samples: Seq<i32>)
    requires
        s.wf(),
        s.at_boundary(),
        s.phase == LoopPhase::Measuring,
        samples.len() == s.config.sample_count,
    ensures
        closing_action(s.feed(samples), samples) == closing_action(s, samples),
{
    lemma_measuring_window(s, samples);
}

/// A cycle that was calibrated on `samples` and then sees the same samples
/// again reports a weight of zero, window after window.
pub proof fn lemma_cycle_zero_point(s: LoopState, samples: Seq<i32>)
    requires
        s.wf(),
        s.at_boundary(),
        s.phase == LoopPhase::Calibrating,
        samples.len() == s.config.sample_count,
    ensures
        closing_action(s.feed(samples), samples) == (LoopAction::ReportWeight {
            weight: 0,
            pause: s.config.report_interval,
        }),
        s.feed(samples).feed(samples) == s.feed(samples),
{
    lemma_calibrating_window(s, samples);
    lemma_measuring_window(s.feed(samples), samples);
}

/// Calibration is the average over the reads: where `sample_count` reads
/// succeed on exactly these exchange results, the cycle reports the mean of
/// the samples read as the tare and measures against it from then on.
pub proof fn lemma_calibration_of_reads(
    s: LoopState,
    outcomes: Seq<Result<i32, AcquisitionError>>,
    samples: Seq<i32>,
)
    requires
        s.wf(),
        s.at_boundary(),
        s.phase == LoopPhase::Calibrating,
        reads_outcome(
            outcomes,
            s.config.retry_count as nat,
            s.config.retry_count as nat,
            s.config.sample_count as nat,
        ) == Some(Ok::<Seq<i32>, AcquisitionError>(samples)),
        outcomes.len() == reads_span(
            outcomes,
            s.config.retry_count as nat,
            s.config.retry_count as nat,
            s.config.sample_count as nat,
        ),
    ensures
        i32::MIN <= mean_of(samples) <= i32::MAX,
        driven(s, outcomes) == (
            LoopState { phase: LoopPhase::Measuring, tare: mean_of(samples) as i32, ..s },
            LoopAction::ReportTare(mean_of(samples) as i32),
        ),
{
    lemma_window_of_reads(s, outcomes, samples);
    lemma_feed_joins(s, samples.drop_last());
    lemma_calibrating_window(s, samples);
    assert(s.window + samples.drop_last() =~= samples.drop_last());
    assert(samples.drop_last().push(samples.last()) =~= samples);
}

/// A measuring iteration is the average over the reads, less the tare:
/// where `sample_count` reads succeed on exactly these exchange results,
/// the cycle reports the weight of the samples read and stands where it
/// stood before, so that the same results give the same weight again.
pub proof fn lemma_iteration_of_reads(
    s: LoopState,
    outcomes: Seq<Result<i32, AcquisitionError>>,
    samples: Seq<i32>,
)
    requires
        s.wf(),
        s.at_boundary(),
        s.phase == LoopPhase::Measuring,
        reads_outcome(
            outcomes,
            s.config.retry_count as nat,
            s.config.retry_count as nat,
            s.config.sample_count as nat,
        ) == Some(Ok::<Seq<i32>, AcquisitionError>(samples)),
        outcomes.len() == reads_span(
            outcomes,
            s.config.retry_count as nat,
            s.config.retry_count as nat,
            s.config.sample_count as nat,
        ),
    ensures
        i64::MIN <= weight_of(samples, s.tare as int) <= i64::MAX,
        driven(s, outcomes) == (
            s,
            LoopAction::ReportWeight {
                weight: weight_of(samples, s.tare as int) as i64,
                pause: s.config.report_interval,
            },
        ),
        driven(driven(s, outcomes).0, outcomes) == driven(s, outcomes),
{
    lemma_window_of_reads(s, outcomes, samples);
    lemma_feed_joins(s, samples.drop_last());
    lemma_measuring_window(s, samples);
    assert(s.window + samples.drop_last() =~= samples.drop_last());
    assert(samples.drop_last().push(samples.last()) =~= samples);
}

/// The calibrate-once, measure-forever cycle.
#[derive(Debug)]
pub struct MeasurementLoop {
    /// The settings, fixed at startup.
    pub config: AcquisitionConfig,
    /// Where the cycle stands.
    pub phase: LoopPhase,
    /// The tare offset; set when calibration ends.
    pub tare: i32,
    /// The samples of the window under way.
    pub window: Vec<i32>,
    /// The retry budget of the read under way.
    pub reader: SampleReader,
    /// Why the cycle halted, once it has.
    pub failure: AcquisitionError,
}

impl View for MeasurementLoop {
    type V = LoopState;

    open spec fn view(&self) -> LoopState {
        LoopState {
            config: self.config,
            phase: self.phase,
            tare: self.tare,
            window: self.window@,
            reader: self.reader,
            failure: self.failure,
        }
    }
}

impl MeasurementLoop {
    /// Checks the settings and sets the cycle up for calibration. A sample
    /// count of zero is refused here, before anything is acquired; all other
    /// settings are accepted.
    pub fn start(config: AcquisitionConfig) -> (begun: Result<
        (MeasurementLoop, LoopAction),
        AcquisitionError,
    >)
        ensures
            config.sample_count == 0 ==> begun.is_err() && begun.unwrap_err()
                == AcquisitionError::InsufficientSamples,
            config.sample_count > 0 ==> begun.is_ok() && begun.unwrap().0@ == (LoopState {
                config,
                phase: LoopPhase::Calibrating,
                tare: 0,
                window: Seq::empty(),
                reader: (SampleReader {
                    retry_count: config.retry_count,
                    retries_left: config.retry_count,
                }),
                failure: AcquisitionError::AcquisitionFailed,
            }) && begun.unwrap().1 == LoopAction::Exchange(config.gain_channel)
                && begun.unwrap().0@.wf() && begun.unwrap().0@.at_boundary(),
    {
        match config.validate() {
            Err(e) => Err(e),
            Ok(()) => {
                let cycle = MeasurementLoop {
                    config,
                    phase: LoopPhase::Calibrating,
                    tare: 0,
                    window: Vec::new(),
                    reader: SampleReader::new(config.retry_count),
                    failure: AcquisitionError::AcquisitionFailed,
                };
                Ok((cycle, LoopAction::Exchange(config.gain_channel)))
            },
        }
    }

    /// The tare offset, once calibration has ended.
    pub fn tare_offset(&self) -> (offset: Option<i32>)
        ensures
            offset == if self.phase == LoopPhase::Measuring {
                Some(self.tare)
            } else {
                None
            },
    {
        match self.phase {
            LoopPhase::Measuring => Some(self.tare),
            _ => None,
        }
    }

    fn after_read(self, reader: SampleReader, decision: ReadStep) -> (out: (
        MeasurementLoop,
        LoopAction,
    ))
        requires
            self@.wf(),
            self.phase != LoopPhase::Halted,
            reader.wf(),
            reader.retry_count == self.config.retry_count,
        ensures
            (out.0@, out.1) == self@.after_read((reader, decision)),
            out.0@.wf(),
    {
        let MeasurementLoop { config, phase, tare, mut window, reader: _, failure } = self;
        match decision {
            ReadStep::Retry => (
                MeasurementLoop { config, phase, tare, window, reader, failure },
                LoopAction::Exchange(config.gain_channel),
            ),
            ReadStep::Done(v) => {
                window.push(v);
                if window.len() < config.sample_count as usize {
                    (
                        MeasurementLoop { config, phase, tare, window, reader, failure },
                        LoopAction::Pause(config.inter_sample_delay),
                    )
                } else {
                    let mean: i32 = match average(&window) {
                        Ok(m) => m,
                        Err(_) => 0,
                    };
                    let ghost full = window@;
                    let cleared: Vec<i32> = Vec::new();
                    proof {
                        assert(cleared@ =~= Seq::<i32>::empty());
                    }
                    match phase {
                        LoopPhase::Calibrating => (
                            MeasurementLoop {
                                config,
                                phase: LoopPhase::Measuring,
                                tare: mean,
                                window: cleared,
                                reader,
                                failure,
                            },
                            LoopAction::ReportTare(mean),
                        ),
                        _ => (
                            MeasurementLoop {
                                config,
                                phase,
                                tare,
                                window: cleared,
                                reader,
                                failure,
                            },
                            LoopAction::ReportWeight {
                                weight: mean as i64 - tare as i64,
                                pause: config.report_interval,
                            },
                        ),
                    }
                }
            },
            ReadStep::Failed(e) => {
                let cleared: Vec<i32> = Vec::new();
                proof {
                    assert(cleared@ =~= Seq::<i32>::empty());
                }
                match phase {
                    LoopPhase::Calibrating => (
                        MeasurementLoop {
                            config,
                            phase: LoopPhase::Halted,
                            tare,
                            window: cleared,
                            reader,
                            failure: e,
                        },
                        LoopAction::Abort(e),
                    ),
                    _ => (
                        MeasurementLoop { config, phase, tare, window: cleared, reader, failure },
                        LoopAction::Pause(config.report_interval),
                    ),
                }
            },
        }
    }

    /// Advances the cycle by one observed event, as `LoopState::next` says.
    pub fn step(self, event: LoopEvent) -> (out: (MeasurementLoop, LoopAction))
        requires
            self@.wf(),
        ensures
            (out.0@, out.1) == self@.next(event),
            out.0@.wf(),
            out.0.config == self.config,
    {
        match self.phase {
            LoopPhase::Halted => {
                let failure = self.failure;
                (self, LoopAction::Abort(failure))
            },
            _ => match event {
                LoopEvent::Resumed => {
                    let gain = self.config.gain_channel;
                    (self, LoopAction::Exchange(gain))
                },
                LoopEvent::Sample(v) => {
                    let (reader, decision) = self.reader.step(Ok(v));
                    self.after_read(reader, decision)
                },
                LoopEvent::Failed(e) => {
                    let (reader, decision) = self.reader.step(Err(e));
                    self.after_read(reader, decision)
                },
            },
        }
    }
}

} // verus!
