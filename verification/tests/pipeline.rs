use loadcell::average::average;
use loadcell::config::AcquisitionConfig;
use loadcell::error::AcquisitionError;
use loadcell::exchange::{ChannelDriver, ExchangeAction, ExchangeEvent, Substrate};
use loadcell::gain::GainChannel;
use loadcell::measurement::{LoopAction, LoopEvent, MeasurementLoop};
use loadcell::reader::read_n;
use loadcell::report::report_line;

/// A sensor stub on the line pair: ready after `ready_after` polls, then
/// shifting out `code`.
fn run_exchange(driver: ChannelDriver, gain: GainChannel, code: u32, ready_after: u64) -> (
    ChannelDriver,
    ExchangeAction,
) {
    let (mut driver, mut action) = driver.begin(gain, 0);
    let mut polls: u64 = 0;
    let mut bit: u32 = 0;
    loop {
        let event = match action {
            ExchangeAction::Poll => {
                polls += 1;
                ExchangeEvent::Polled { asserted: polls > ready_after, now: polls }
            }
            ExchangeAction::PulseAndSample => {
                bit += 1;
                ExchangeEvent::Sampled {
                    data_high: (code >> (24 - bit)) & 1 == 1,
                    held_us: 1,
                    now: polls,
                }
            }
            ExchangeAction::Pulse => ExchangeEvent::Pulsed { held_us: 1, now: polls },
            _ => return (driver, action),
        };
        let out = driver.step(event);
        driver = out.0;
        action = out.1;
    }
}

#[test]
fn exchange_results_become_cycle_events() {
    assert_eq!(LoopEvent::of_exchange(ExchangeAction::Deliver(-4)), Some(LoopEvent::Sample(-4)));
    assert_eq!(
        LoopEvent::of_exchange(ExchangeAction::Fail(AcquisitionError::SensorNotReady)),
        Some(LoopEvent::Failed(AcquisitionError::SensorNotReady))
    );
    assert_eq!(LoopEvent::of_exchange(ExchangeAction::Poll), None);
    assert_eq!(LoopEvent::of_exchange(ExchangeAction::Pulse), None);
    assert_eq!(LoopEvent::of_exchange(ExchangeAction::Rest), None);
}

#[test]
fn stubbed_sensor_is_read_through_the_driver() {
    let driver = ChannelDriver::new(Substrate::LinePair, 10);
    let (driver, action) = run_exchange(driver, GainChannel::ChannelAGain128, 0x0003E8, 3);
    assert_eq!(action, ExchangeAction::Deliver(1000));
    let (driver, action) = run_exchange(driver, GainChannel::ChannelBGain32, 0xFFFC18, 9);
    assert_eq!(action, ExchangeAction::Deliver(-1000));
    let (_, action) = run_exchange(driver, GainChannel::ChannelAGain128, 0x0003E8, 10);
    assert_eq!(action, ExchangeAction::Fail(AcquisitionError::SensorNotReady));
}

#[test]
fn whole_pipeline_from_codes_to_lines() {
    let config = AcquisitionConfig::new(GainChannel::ChannelAGain128, 8, 10, 1, 100, 250).unwrap();
    let unloaded: [u32; 8] = [1000, 1002, 998, 1001, 999, 1000, 1003, 997];
    let mut driver = ChannelDriver::new(Substrate::LinePair, config.readiness_timeout);
    let (mut cycle, mut action) = MeasurementLoop::start(config).unwrap();
    let mut lines: Vec<Vec<u8>> = Vec::new();
    let mut taken = 0;
    while lines.len() < 3 {
        if let Some(line) = report_line(action) {
            lines.push(line);
        }
        let event = match action {
            LoopAction::Exchange(gain) => {
                let shift = if taken >= 16 { 500 } else { 0 };
                let code = unloaded[taken % 8] + shift;
                taken += 1;
                let out = run_exchange(driver, gain, code, 2);
                driver = out.0;
                LoopEvent::of_exchange(out.1).unwrap()
            }
            LoopAction::Abort(e) => panic!("{}", e.name()),
            _ => LoopEvent::Resumed,
        };
        let out = cycle.step(event);
        cycle = out.0;
        action = out.1;
    }
    assert_eq!(lines[0], b"Tare: 1000".to_vec());
    assert_eq!(lines[1], b"Weight: 0".to_vec());
    assert_eq!(lines[2], b"Weight: 500".to_vec());
}

#[test]
fn read_n_then_average_is_the_tare() {
    let nr = Err(AcquisitionError::SensorNotReady);
    let outcomes = vec![
        Ok(1000), nr, Ok(1002), Ok(998), Ok(1001), nr, nr, Ok(999), Ok(1000), Ok(1003), Ok(997),
    ];
    let window = read_n(&outcomes, 2, 8).unwrap().unwrap();
    assert_eq!(average(&window), Ok(1000));
}
