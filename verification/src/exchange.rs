//! The bit-level conversion protocol of the channel driver.
//!
//! One exchange waits for the sensor to be ready, takes the 24 bits of a
//! conversion and then selects the input path of the next one. The driver
//! decides; its caller performs each action on the hardware and reports
//! what happened.

use vstd::prelude::*;
use crate::error::AcquisitionError;
use crate::gain::GainChannel;
use vstd::arithmetic::power2::{lemma2_to64, lemma_pow2_strictly_increases, lemma_pow2_unfold, pow2};
use crate::sample::{
    code_of_bits, decode, in_raw_range, sample_from_bytes, shift_in, signed_value,
};

verus! {

/// Longest time in microseconds that the clock may stay high; beyond it the
/// sensor powers down and resets.
pub const MAX_CLOCK_HIGH_US: u32 = 60;

/// The hardware that carries the exchange.
#[derive(Clone, Copy, Debug, PartialEq, Eq, Structural)]
pub enum Substrate {
    /// A clock output line and a data input line.
    LinePair,
    /// A synchronous serial bus.
    Bus,
}

/// Where an exchange stands.
#[derive(Clone, Copy, Debug, PartialEq, Eq, Structural)]
pub enum Phase {
    /// No exchange is under way.
    Idle,
    /// Polling for the readiness condition.
    AwaitReady,
    /// Clocking in the data bits, one pulse each.
    Transfer,
    /// Issuing the pulses that select the next conversion.
    Select,
    /// Running the bus transaction.
    Transact,
}

/// What the caller observed after performing an action.
#[derive(Clone, Copy, Debug, PartialEq, Eq, Structural)]
pub enum ExchangeEvent {
    /// The readiness condition was polled at time `now` (milliseconds).
    Polled { asserted: bool, now: u64 },
    /// The clock was pulsed, high for `held_us`, and the data line sampled.
    Sampled { data_high: bool, held_us: u32, now: u64 },
    /// The clock was pulsed, high for `held_us`.
    Pulsed { held_us: u32, now: u64 },
    /// The bus transaction returned these bytes, most significant first.
    Transferred { high: u8, mid: u8, low: u8 },
}

/// What the caller is to do next.
#[derive(Clone, Copy, Debug, PartialEq, Eq, Structural)]
pub enum ExchangeAction {
    /// Nothing: no exchange is under way.
    Rest,
    /// Poll the readiness condition.
    Poll,
    /// Pulse the clock once and sample the data line.
    PulseAndSample,
    /// Pulse the clock once.
    Pulse,
    /// Run one bus transaction of `clocks` clock cycles.
    Transfer { clocks: u8 },
    /// The exchange is complete with this raw sample.
    Deliver(i32),
    /// The exchange failed.
    Fail(AcquisitionError),
}

/// What a poll of the readiness condition means for the wait.
#[derive(Clone, Copy, Debug, PartialEq, Eq, Structural)]
pub enum Readiness {
    /// The sensor holds a conversion.
    Ready,
    /// Not yet ready, and time is left.
    Waiting,
    /// Not ready, and the timeout has elapsed.
    TimedOut,
}

/// Time from `started` to `now` on a clock that never runs backwards.
pub open spec fn elapsed(started: u64, now: u64) -> int {
    if now >= started {
        now - started
    } else {
        0
    }
}

/// The meaning of a poll: ready when asserted, else timed out from the
/// moment the elapsed time reaches the timeout.
pub open spec fn readiness_of(asserted: bool, started: u64, now: u64, timeout: u32) -> Readiness {
    if asserted {
        Readiness::Ready
    } else if elapsed(started, now) >= timeout {
        Readiness::TimedOut
    } else {
        Readiness::Waiting
    }
}

/// Decides one step of the bounded readiness wait that began at `started`.
/// A sensor that never asserts readiness is given up exactly when `timeout`
/// milliseconds have passed, never later.
pub fn poll_readiness(asserted: bool, started: u64, now: u64, timeout: u32) -> (r: Readiness)
    ensures
        r == readiness_of(asserted, started, now, timeout),
        r == Readiness::Ready <==> asserted,
        r == Readiness::TimedOut <==> !asserted && elapsed(started, now) >= timeout,
{
    if asserted {
        Readiness::Ready
    } else {
        let waited: u64 = if now >= started { now - started } else { 0 };
        if waited >= timeout as u64 {
            Readiness::TimedOut
        } else {
            Readiness::Waiting
        }
    }
}

/// The single driver of the conversion channel.
#[derive(Clone, Copy, Debug, PartialEq, Eq, Structural)]
pub struct ChannelDriver {
    /// The hardware bound at construction.
    pub substrate: Substrate,
    /// How long a readiness wait may last, in milliseconds.
    pub timeout: u32,
    /// Where the exchange stands.
    pub phase: Phase,
    /// Input path and gain that this exchange selects.
    pub gain: GainChannel,
    /// When the readiness wait began.
    pub started: u64,
    /// Data bits received so far.
    pub bits: u8,
    /// The code formed by the bits received so far.
    pub code: u32,
    /// Selection pulses still to issue.
    pub pulses_left: u8,
    /// Whether a pulse broke the timing bound during this exchange.
    pub disturbed: bool,
}

impl ChannelDriver {
    /// The invariant of the driver.
    pub open spec fn wf(&self) -> bool {
        &&& self.code < 0x100_0000
        &&& self.bits <= 24
        &&& self.pulses_left <= 3
        &&& self.phase == Phase::Transfer ==> self.bits < 24 && self.substrate == Substrate::LinePair
        &&& self.phase == Phase::Select ==> self.pulses_left >= 1 && self.substrate
            == Substrate::LinePair
        &&& self.phase == Phase::Transact ==> self.substrate == Substrate::Bus
    }

    /// The driver at rest.
    pub open spec fn at_rest(&self) -> ChannelDriver {
        ChannelDriver {
            phase: Phase::Idle,
            bits: 0,
            code: 0,
            pulses_left: 0,
            disturbed: false,
            ..*self
        }
    }

    /// The driver waiting for readiness from `now` on.
    pub open spec fn waiting_from(&self, now: u64, disturbed: bool) -> ChannelDriver {
        ChannelDriver {
            phase: Phase::AwaitReady,
            started: now,
            bits: 0,
            code: 0,
            pulses_left: 0,
            disturbed,
            ..*self
        }
    }

    /// The action that the current phase waits on.
    pub open spec fn pending(&self) -> ExchangeAction {
        match self.phase {
            Phase::Idle => ExchangeAction::Rest,
            Phase::AwaitReady => ExchangeAction::Poll,
            Phase::Transfer => ExchangeAction::PulseAndSample,
            Phase::Select => ExchangeAction::Pulse,
            Phase::Transact => ExchangeAction::Transfer {
                clocks: (24 + self.gain.pulses()) as u8,
            },
        }
    }

    /// The driver once the sensor is ready: the line pair starts clocking
    /// bits, the bus starts its transaction.
    pub open spec fn ready(&self) -> ChannelDriver {
        ChannelDriver {
            phase: match self.substrate {
                Substrate::LinePair => Phase::Transfer,
                Substrate::Bus => Phase::Transact,
            },
            bits: 0,
            code: 0,
            pulses_left: 0,
            disturbed: false,
            ..*self
        }
    }

    /// The driver after a data bit arrived within the timing bound.
    pub open spec fn with_bit(&self, data_high: bool) -> ChannelDriver {
        let code = ((2 * self.code + if data_high { 1int } else { 0int }) % 0x100_0000) as u32;
        if self.bits + 1 == 24 {
            ChannelDriver {
                phase: Phase::Select,
                bits: 24,
                code,
                pulses_left: self.gain.pulses() as u8,
                ..*self
            }
        } else {
            ChannelDriver { bits: (self.bits + 1) as u8, code, ..*self }
        }
    }

    /// The transition of the protocol: the driver and the action that follow
    /// `event`. An event that the current phase does not wait on changes
    /// nothing and repeats the pending action.
    pub open spec fn next(&self, event: ExchangeEvent) -> (ChannelDriver, ExchangeAction) {
        match (self.phase, event) {
            (Phase::AwaitReady, ExchangeEvent::Polled { asserted, now }) => {
                match readiness_of(asserted, self.started, now, self.timeout) {
                    Readiness::Ready => (self.ready(), self.ready().pending()),
                    Readiness::Waiting => (*self, ExchangeAction::Poll),
                    Readiness::TimedOut => (
                        self.at_rest(),
                        ExchangeAction::Fail(
                            if self.disturbed {
                                AcquisitionError::ProtocolTimeout
                            } else {
                                AcquisitionError::SensorNotReady
                            },
                        ),
                    ),
                }
            },
            (Phase::Transfer, ExchangeEvent::Sampled { data_high, held_us, now }) => {
                if held_us > MAX_CLOCK_HIGH_US {
                    (self.waiting_from(now, true), ExchangeAction::Poll)
                } else {
                    (self.with_bit(data_high), self.with_bit(data_high).pending())
                }
            },
            (Phase::Select, ExchangeEvent::Pulsed { held_us, now }) => {
                if held_us > MAX_CLOCK_HIGH_US {
                    (self.waiting_from(now, true), ExchangeAction::Poll)
                } else if self.pulses_left == 1 {
                    (
                        self.at_rest(),
                        ExchangeAction::Deliver(signed_value(self.code as int) as i32),
                    )
                } else {
                    (
                        ChannelDriver { pulses_left: (self.pulses_left - 1) as u8, ..*self },
                        ExchangeAction::Pulse,
                    )
                }
            },
            (Phase::Transact, ExchangeEvent::Transferred { high, mid, low }) => (
                self.at_rest(),
                ExchangeAction::Deliver(
                    signed_value(high * 0x1_0000 + mid * 0x100 + low) as i32,
                ),
            ),
            _ => (*self, self.pending()),
        }
    }

    /// The driver after these bits were clocked in, each with a pulse that
    /// stayed high for `held_us`.
    pub open spec fn clocked(&self, bits: Seq<bool>, held_us: u32) -> ChannelDriver
        decreases bits.len(),
    {
        if bits.len() == 0 {
            *self
        } else {
            self.clocked(bits.drop_last(), held_us).next(
                ExchangeEvent::Sampled { data_high: bits.last(), held_us, now: 0 },
            ).0
        }
    }

    /// The driver and the action after `n` further pulses, each high for
    /// `held_us`.
    pub open spec fn pulsed(&self, n: nat, held_us: u32) -> (ChannelDriver, ExchangeAction)
        decreases n,
    {
        if n == 0 {
            (*self, self.pending())
        } else {
            let first = self.next(ExchangeEvent::Pulsed { held_us, now: 0 });
            if n == 1 {
                first
            } else {
                first.0.pulsed((n - 1) as nat, held_us)
            }
        }
    }

    /// A driver at rest, bound to its hardware for good.
    pub fn new(substrate: Substrate, timeout: u32) -> (driver: ChannelDriver)
        ensures
            driver == (ChannelDriver {
                substrate,
                timeout,
                phase: Phase::Idle,
                gain: GainChannel::ChannelAGain128,
                started: 0,
                bits: 0,
                code: 0,
                pulses_left: 0,
                disturbed: false,
            }),
            driver.wf(),
    {
        ChannelDriver {
            substrate,
            timeout,
            phase: Phase::Idle,
            gain: GainChannel::ChannelAGain128,
            started: 0,
            bits: 0,
            code: 0,
            pulses_left: 0,
            disturbed: false,
        }
    }

    /// Begins an exchange at time `now`: the readiness wait starts, whatever
    /// stood before is dropped, and the first action is a poll.
    pub fn begin(self, gain: GainChannel, now: u64) -> (out: (ChannelDriver, ExchangeAction))
        ensures
            out.0 == (ChannelDriver { gain, ..self }).waiting_from(now, false),
            out.1 == ExchangeAction::Poll,
            out.0.wf(),
    {
        (
            ChannelDriver {
                phase: Phase::AwaitReady,
                gain,
                started: now,
                bits: 0,
                code: 0,
                pulses_left: 0,
                disturbed: false,
                ..self
            },
            ExchangeAction::Poll,
        )
    }

    /// The action that the driver waits on.
    pub fn pending_action(&self) -> (action: ExchangeAction)
        ensures
            action == self.pending(),
    {
        match self.phase {
            Phase::Idle => ExchangeAction::Rest,
            Phase::AwaitReady => ExchangeAction::Poll,
            Phase::Transfer => ExchangeAction::PulseAndSample,
            Phase::Select => ExchangeAction::Pulse,
            Phase::Transact => ExchangeAction::Transfer { clocks: self.gain.total_pulses() },
        }
    }

    fn rest(self) -> (out: ChannelDriver)
        ensures
            out == self.at_rest(),
            out.wf(),
    {
        ChannelDriver {
            phase: Phase::Idle,
            bits: 0,
            code: 0,
            pulses_left: 0,
            disturbed: false,
            ..self
        }
    }

    fn rewait(self, now: u64) -> (out: ChannelDriver)
        ensures
            out == self.waiting_from(now, true),
            out.wf(),
    {
        ChannelDriver {
            phase: Phase::AwaitReady,
            started: now,
            bits: 0,
            code: 0,
            pulses_left: 0,
            disturbed: true,
            ..self
        }
    }

    /// Advances the exchange by one observed event, as `next` says. A
    /// delivered sample always lies in the 24-bit signed range.
    pub fn step(self, event: ExchangeEvent) -> (out: (ChannelDriver, ExchangeAction))
        requires
            self.wf(),
        ensures
            out == self.next(event),
            out.0.wf(),
            out.0.substrate == self.substrate,
            out.0.timeout == self.timeout,
            out.0.gain == self.gain,
            forall|v: i32| out.1 == ExchangeAction::Deliver(v) ==> in_raw_range(v as int),
    {
        match (self.phase, event) {
            (Phase::AwaitReady, ExchangeEvent::Polled { asserted, now }) => {
                match poll_readiness(asserted, self.started, now, self.timeout) {
                    Readiness::Ready => {
                        let phase = match self.substrate {
                            Substrate::LinePair => Phase::Transfer,
                            Substrate::Bus => Phase::Transact,
                        };
                        let driver = ChannelDriver {
                            phase,
                            bits: 0,
                            code: 0,
                            pulses_left: 0,
                            disturbed: false,
                            ..self
                        };
                        let action = driver.pending_action();
                        (driver, action)
                    },
                    Readiness::Waiting => (self, ExchangeAction::Poll),
                    Readiness::TimedOut => {
                        let error = if self.disturbed {
                            AcquisitionError::ProtocolTimeout
                        } else {
                            AcquisitionError::SensorNotReady
                        };
                        (self.rest(), ExchangeAction::Fail(error))
                    },
                }
            },
            (Phase::Transfer, ExchangeEvent::Sampled { data_high, held_us, now }) => {
                if held_us > MAX_CLOCK_HIGH_US {
                    (self.rewait(now), ExchangeAction::Poll)
                } else {
                    let code = shift_in(self.code, data_high);
                    if self.bits + 1 == 24 {
                        let driver = ChannelDriver {
                            phase: Phase::Select,
                            bits: 24,
                            code,
                            pulses_left: self.gain.select_pulses(),
                            ..self
                        };
                        (driver, ExchangeAction::Pulse)
                    } else {
                        let driver = ChannelDriver { bits: self.bits + 1, code, ..self };
                        (driver, ExchangeAction::PulseAndSample)
                    }
                }
            },
            (Phase::Select, ExchangeEvent::Pulsed { held_us, now }) => {
                if held_us > MAX_CLOCK_HIGH_US {
                    (self.rewait(now), ExchangeAction::Poll)
                } else if self.pulses_left == 1 {
                    let sample = decode(self.code);
                    (self.rest(), ExchangeAction::Deliver(sample))
                } else {
                    let driver = ChannelDriver { pulses_left: self.pulses_left - 1, ..self };
                    (driver, ExchangeAction::Pulse)
                }
            },
            (Phase::Transact, ExchangeEvent::Transferred { high, mid, low }) => {
                let sample = sample_from_bytes(high, mid, low);
                (self.rest(), ExchangeAction::Deliver(sample))
            },
            _ => {
                let action = self.pending_action();
                (self, action)
            },
        }
    }
}

/// A code of `n` bits is below 2^n.
pub proof fn lemma_code_bound(bits: Seq<bool>)
    ensures
        code_of_bits(bits) < pow2(bits.len()),
    decreases bits.len(),
{
    if bits.len() == 0 {
        lemma2_to64();
    } else {
        lemma_code_bound(bits.drop_last());
        lemma_pow2_unfold(bits.len());
    }
}

/// A wait that never sees the sensor ready goes on unchanged while less
/// than the timeout has elapsed, and fails at the first poll from then on:
/// with `SensorNotReady`, or with `ProtocolTimeout` after a broken pulse.
pub proof fn lemma_timeout_boundary(d: ChannelDriver, now: u64)
    requires
        d.phase == Phase::AwaitReady,
    ensures
        elapsed(d.started, now) < d.timeout ==> d.next(
            ExchangeEvent::Polled { asserted: false, now },
        ) == (d, ExchangeAction::Poll),
        elapsed(d.started, now) >= d.timeout && !d.disturbed ==> d.next(
            ExchangeEvent::Polled { asserted: false, now },
        ) == (d.at_rest(), ExchangeAction::Fail(AcquisitionError::SensorNotReady)),
        elapsed(d.started, now) >= d.timeout && d.disturbed ==> d.next(
            ExchangeEvent::Polled { asserted: false, now },
        ) == (d.at_rest(), ExchangeAction::Fail(AcquisitionError::ProtocolTimeout)),
{
}

/// Fewer than 24 bits clocked in within the timing bound form their code,
/// most significant bit first, and change nothing else.
pub proof fn lemma_clocked_bits(d: ChannelDriver, bits: Seq<bool>, held_us: u32)
    requires
        d.wf(),
        d.phase == Phase::Transfer,
        d.bits == 0,
        d.code == 0,
        held_us <= MAX_CLOCK_HIGH_US,
        bits.len() < 24,
    ensures
        code_of_bits(bits) < pow2(bits.len()) <= 0x80_0000,
        d.clocked(bits, held_us) == (ChannelDriver {
            bits: bits.len() as u8,
            code: code_of_bits(bits) as u32,
            ..d
        }),
    decreases bits.len(),
{
    lemma_code_bound(bits);
    lemma2_to64();
    if bits.len() < 23 {
        lemma_pow2_strictly_increases(bits.len(), 23);
    }
    if bits.len() > 0 {
        lemma_clocked_bits(d, bits.drop_last(), held_us);
        lemma_pow2_unfold(bits.len());
    }
}

/// The selection pulses that are left, issued within the timing bound, end
/// the exchange with the sample that the code stands for.
pub proof fn lemma_selection_delivers(d: ChannelDriver, held_us: u32)
    requires
        d.wf(),
        d.phase == Phase::Select,
        held_us <= MAX_CLOCK_HIGH_US,
    ensures
        d.pulsed(d.pulses_left as nat, held_us) == (
            d.at_rest(),
            ExchangeAction::Deliver(signed_value(d.code as int) as i32),
        ),
    decreases d.pulses_left,
{
    if d.pulses_left > 1 {
        let after = d.next(ExchangeEvent::Pulsed { held_us, now: 0 }).0;
        lemma_selection_delivers(after, held_us);
        assert(after.at_rest() == d.at_rest());
    }
}

/// A whole exchange on the line pair: once the sensor is ready, 24 bits
/// clocked in most significant first and the selection pulses of the gain
/// channel deliver the sign-extended code, a sample in the 24-bit range.
pub proof fn lemma_exchange_delivers(d: ChannelDriver, bits: Seq<bool>, held_us: u32)
    requires
        d.wf(),
        d.phase == Phase::Transfer,
        d.bits == 0,
        d.code == 0,
        held_us <= MAX_CLOCK_HIGH_US,
        bits.len() == 24,
    ensures
        code_of_bits(bits) < 0x100_0000,
        in_raw_range(signed_value(code_of_bits(bits) as int)),
        d.clocked(bits, held_us).pulsed(d.gain.pulses(), held_us) == (
            d.at_rest(),
            ExchangeAction::Deliver(signed_value(code_of_bits(bits) as int) as i32),
        ),
{
    lemma_clocked_bits(d, bits.drop_last(), held_us);
    lemma_code_bound(bits);
    lemma2_to64();
    let full = d.clocked(bits, held_us);
    assert(full.code == code_of_bits(bits));
    assert(full.phase == Phase::Select);
    lemma_selection_delivers(full, held_us);
    assert(full.at_rest() == d.at_rest());
}

} // verus!
