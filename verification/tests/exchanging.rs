use loadcell::error::AcquisitionError;
use loadcell::exchange::{
    poll_readiness, ChannelDriver, ExchangeAction, ExchangeEvent, Phase, Readiness, Substrate,
    MAX_CLOCK_HIGH_US,
};
use loadcell::gain::GainChannel;

fn clock_in(mut driver: ChannelDriver, code: u32) -> (ChannelDriver, ExchangeAction) {
    let mut action = ExchangeAction::PulseAndSample;
    for i in 0..24 {
        assert_eq!(action, ExchangeAction::PulseAndSample);
        let data_high = (code >> (23 - i)) & 1 == 1;
        let out = driver.step(ExchangeEvent::Sampled { data_high, held_us: 1, now: 0 });
        driver = out.0;
        action = out.1;
    }
    (driver, action)
}

fn ready_line_driver(gain: GainChannel) -> ChannelDriver {
    let driver = ChannelDriver::new(Substrate::LinePair, 100);
    let (driver, action) = driver.begin(gain, 10);
    assert_eq!(action, ExchangeAction::Poll);
    let (driver, action) = driver.step(ExchangeEvent::Polled { asserted: true, now: 10 });
    assert_eq!(action, ExchangeAction::PulseAndSample);
    driver
}

#[test]
fn poll_is_ready_when_asserted() {
    assert_eq!(poll_readiness(true, 0, 0, 0), Readiness::Ready);
    assert_eq!(poll_readiness(true, 5, 5000, 10), Readiness::Ready);
}

#[test]
fn poll_times_out_exactly_at_the_boundary() {
    assert_eq!(poll_readiness(false, 1000, 1000, 100), Readiness::Waiting);
    assert_eq!(poll_readiness(false, 1000, 1099, 100), Readiness::Waiting);
    assert_eq!(poll_readiness(false, 1000, 1100, 100), Readiness::TimedOut);
    assert_eq!(poll_readiness(false, 1000, 1101, 100), Readiness::TimedOut);
    assert_eq!(poll_readiness(false, 1000, u64::MAX, 100), Readiness::TimedOut);
}

#[test]
fn poll_with_a_clock_that_ran_backwards_keeps_waiting() {
    assert_eq!(poll_readiness(false, 1000, 10, 100), Readiness::Waiting);
    assert_eq!(poll_readiness(false, 1000, 10, 0), Readiness::TimedOut);
}

#[test]
fn new_driver_rests() {
    let driver = ChannelDriver::new(Substrate::Bus, 250);
    assert_eq!(driver.phase, Phase::Idle);
    assert_eq!(driver.substrate, Substrate::Bus);
    assert_eq!(driver.timeout, 250);
    assert_eq!(driver.pending_action(), ExchangeAction::Rest);
    let (same, action) = driver.step(ExchangeEvent::Polled { asserted: true, now: 1 });
    assert_eq!(same, driver);
    assert_eq!(action, ExchangeAction::Rest);
}

#[test]
fn never_ready_fails_at_the_timeout_and_not_before() {
    let driver = ChannelDriver::new(Substrate::LinePair, 100);
    let (mut driver, mut action) = driver.begin(GainChannel::ChannelAGain128, 500);
    let mut now: u64 = 500;
    let mut polls = 0;
    while action == ExchangeAction::Poll {
        assert!(now <= 600);
        let out = driver.step(ExchangeEvent::Polled { asserted: false, now });
        driver = out.0;
        action = out.1;
        polls += 1;
        if action == ExchangeAction::Poll {
            assert!(now < 600);
            now += 1;
        }
    }
    assert_eq!(action, ExchangeAction::Fail(AcquisitionError::SensorNotReady));
    assert_eq!(now, 600);
    assert_eq!(polls, 101);
    assert_eq!(driver.phase, Phase::Idle);
}

#[test]
fn line_pair_delivers_the_most_negative_sample() {
    let driver = ready_line_driver(GainChannel::ChannelAGain128);
    let (driver, action) = clock_in(driver, 0x800000);
    assert_eq!(action, ExchangeAction::Pulse);
    assert_eq!(driver.phase, Phase::Select);
    let (driver, action) = driver.step(ExchangeEvent::Pulsed { held_us: 1, now: 0 });
    assert_eq!(action, ExchangeAction::Deliver(-8388608));
    assert_eq!(driver.phase, Phase::Idle);
}

#[test]
fn line_pair_delivers_what_was_clocked_in() {
    let driver = ready_line_driver(GainChannel::ChannelAGain128);
    let (driver, _) = clock_in(driver, 0x7FFFFF);
    let (_, action) = driver.step(ExchangeEvent::Pulsed { held_us: 1, now: 0 });
    assert_eq!(action, ExchangeAction::Deliver(8388607));

    let driver = ready_line_driver(GainChannel::ChannelAGain128);
    let (driver, _) = clock_in(driver, 0x0003E8);
    let (_, action) = driver.step(ExchangeEvent::Pulsed { held_us: 1, now: 0 });
    assert_eq!(action, ExchangeAction::Deliver(1000));

    let driver = ready_line_driver(GainChannel::ChannelAGain128);
    let (driver, _) = clock_in(driver, 0xFFFFF3);
    let (_, action) = driver.step(ExchangeEvent::Pulsed { held_us: 1, now: 0 });
    assert_eq!(action, ExchangeAction::Deliver(-13));
}

#[test]
fn selection_pulses_follow_the_gain_channel() {
    let driver = ready_line_driver(GainChannel::ChannelBGain32);
    let (driver, action) = clock_in(driver, 0x000001);
    assert_eq!(action, ExchangeAction::Pulse);
    let (driver, action) = driver.step(ExchangeEvent::Pulsed { held_us: 1, now: 0 });
    assert_eq!(action, ExchangeAction::Pulse);
    let (_, action) = driver.step(ExchangeEvent::Pulsed { held_us: 1, now: 0 });
    assert_eq!(action, ExchangeAction::Deliver(1));

    let driver = ready_line_driver(GainChannel::ChannelAGain32);
    let (mut driver, mut action) = clock_in(driver, 0x000002);
    let mut pulses = 0;
    while action == ExchangeAction::Pulse {
        let out = driver.step(ExchangeEvent::Pulsed { held_us: 1, now: 0 });
        driver = out.0;
        action = out.1;
        pulses += 1;
    }
    assert_eq!(pulses, 3);
    assert_eq!(action, ExchangeAction::Deliver(2));
}

#[test]
fn a_long_pulse_restarts_the_wait() {
    let driver = ready_line_driver(GainChannel::ChannelAGain128);
    let (driver, action) =
        driver.step(ExchangeEvent::Sampled { data_high: true, held_us: MAX_CLOCK_HIGH_US, now: 20 });
    assert_eq!(action, ExchangeAction::PulseAndSample);
    assert_eq!(driver.bits, 1);
    let (driver, action) = driver.step(ExchangeEvent::Sampled {
        data_high: true,
        held_us: MAX_CLOCK_HIGH_US + 1,
        now: 30,
    });
    assert_eq!(action, ExchangeAction::Poll);
    assert_eq!(driver.phase, Phase::AwaitReady);
    assert_eq!(driver.started, 30);
    assert_eq!(driver.bits, 0);
    assert_eq!(driver.code, 0);
    assert!(driver.disturbed);
}

#[test]
fn a_sensor_that_stays_away_after_a_long_pulse_is_a_protocol_timeout() {
    let driver = ready_line_driver(GainChannel::ChannelAGain128);
    let (driver, _) = clock_in(driver, 0x123456);
    let (driver, action) = driver.step(ExchangeEvent::Pulsed { held_us: 70, now: 40 });
    assert_eq!(action, ExchangeAction::Poll);
    let (driver, action) = driver.step(ExchangeEvent::Polled { asserted: false, now: 139 });
    assert_eq!(action, ExchangeAction::Poll);
    let (driver, action) = driver.step(ExchangeEvent::Polled { asserted: false, now: 140 });
    assert_eq!(action, ExchangeAction::Fail(AcquisitionError::ProtocolTimeout));
    assert_eq!(driver.phase, Phase::Idle);
    assert!(!driver.disturbed);
}

#[test]
fn a_sensor_that_comes_back_after_a_long_pulse_is_read_anew() {
    let driver = ready_line_driver(GainChannel::ChannelAGain128);
    let (driver, _) =
        driver.step(ExchangeEvent::Sampled { data_high: true, held_us: 61, now: 40 });
    let (driver, action) = driver.step(ExchangeEvent::Polled { asserted: true, now: 90 });
    assert_eq!(action, ExchangeAction::PulseAndSample);
    assert!(!driver.disturbed);
    let (driver, _) = clock_in(driver, 0x000005);
    let (_, action) = driver.step(ExchangeEvent::Pulsed { held_us: 1, now: 0 });
    assert_eq!(action, ExchangeAction::Deliver(5));
}

#[test]
fn bus_exchange_is_one_transaction() {
    let driver = ChannelDriver::new(Substrate::Bus, 50);
    let (driver, action) = driver.begin(GainChannel::ChannelBGain32, 0);
    assert_eq!(action, ExchangeAction::Poll);
    let (driver, action) = driver.step(ExchangeEvent::Polled { asserted: true, now: 3 });
    assert_eq!(action, ExchangeAction::Transfer { clocks: 26 });
    assert_eq!(driver.phase, Phase::Transact);
    let (driver, action) =
        driver.step(ExchangeEvent::Transferred { high: 0xFF, mid: 0xFF, low: 0xF3 });
    assert_eq!(action, ExchangeAction::Deliver(-13));
    assert_eq!(driver.phase, Phase::Idle);
}

#[test]
fn bus_exchange_times_out_like_the_line_pair() {
    let driver = ChannelDriver::new(Substrate::Bus, 50);
    let (driver, _) = driver.begin(GainChannel::ChannelAGain128, 7);
    let (driver, action) = driver.step(ExchangeEvent::Polled { asserted: false, now: 56 });
    assert_eq!(action, ExchangeAction::Poll);
    let (_, action) = driver.step(ExchangeEvent::Polled { asserted: false, now: 57 });
    assert_eq!(action, ExchangeAction::Fail(AcquisitionError::SensorNotReady));
}

#[test]
fn an_event_out_of_turn_changes_nothing() {
    let driver = ready_line_driver(GainChannel::ChannelAGain128);
    let (same, action) = driver.step(ExchangeEvent::Pulsed { held_us: 1, now: 0 });
    assert_eq!(same, driver);
    assert_eq!(action, ExchangeAction::PulseAndSample);
    let (same, action) = driver.step(ExchangeEvent::Polled { asserted: false, now: 100000 });
    assert_eq!(same, driver);
    assert_eq!(action, ExchangeAction::PulseAndSample);
    let (same, action) = driver.step(ExchangeEvent::Transferred { high: 1, mid: 2, low: 3 });
    assert_eq!(same, driver);
    assert_eq!(action, ExchangeAction::PulseAndSample);
}

#[test]
fn begin_drops_an_exchange_under_way() {
    let driver = ready_line_driver(GainChannel::ChannelAGain128);
    let (driver, _) = driver.step(ExchangeEvent::Sampled { data_high: true, held_us: 1, now: 0 });
    let (driver, action) = driver.begin(GainChannel::ChannelAGain32, 77);
    assert_eq!(action, ExchangeAction::Poll);
    assert_eq!(driver.phase, Phase::AwaitReady);
    assert_eq!(driver.gain, GainChannel::ChannelAGain32);
    assert_eq!(driver.started, 77);
    assert_eq!(driver.bits, 0);
    assert_eq!(driver.code, 0);
    assert_eq!(driver.timeout, 100);
}
