use rgmii_delay::delay::valid_values;
use rgmii_delay::error::Error;
use rgmii_delay::sample::{get_info, sample_rate, Info, Sample};
use rgmii_delay::sweep::{recommend, Action, Calibration, Event, Phase, Recommendation};

fn info(errors: u64, packets: u64) -> Info {
    Info { mmc_rx_crc_error: errors, rx_pkt_n: packets }
}

#[test]
fn rate_from_counters() {
    assert_eq!(sample_rate(&info(10, 1000), &info(12, 2000)), Ok(2000));
    assert_eq!(sample_rate(&info(0, 0), &info(189, 10000)), Ok(18900));
    assert_eq!(sample_rate(&info(5, 100), &info(5, 100)), Err(Error::NoTraffic));
    assert_eq!(sample_rate(&info(5, 100), &info(4, 200)), Err(Error::Counter));
    assert_eq!(sample_rate(&info(5, 100), &info(6, 99)), Err(Error::Counter));
    assert_eq!(sample_rate(&info(0, 0), &info(u64::MAX, 1)), Ok(u64::MAX));
}

#[test]
fn info_from_statistics() {
    let stats = vec![
        ("rx_bytes".to_string(), 7),
        ("rx_pkt_n".to_string(), 42),
        ("mmc_rx_crc_error".to_string(), 3),
        ("rx_pkt_n".to_string(), 99),
    ];
    assert_eq!(get_info(&stats), Ok(info(3, 42)));
    let stats = vec![("rx_pkt_n".to_string(), 42)];
    assert_eq!(get_info(&stats), Err(Error::Counter));
}

#[test]
fn recommend_picks_candidate() {
    let mut forward = vec![Sample::Missing; 14];
    let mut reverse = vec![Sample::Missing; 14];
    for i in 3..8 {
        forward[i] = Sample::Rate(10 * i as u64);
        reverse[13 - i] = Sample::Rate(5);
    }
    forward[5] = Sample::Rate(1);
    let rec = recommend(&forward, &reverse).unwrap();
    assert_eq!(rec, Recommendation { index: 5, delay_ps: 1250, bits: 5 });
    assert_eq!(recommend(&vec![Sample::Missing; 14], &vec![Sample::Rate(1); 14]), None);
}

/// Runs a whole calibration, measuring each candidate with `measure`, which
/// returns the counters after the transfer or `None` for a timeout.
fn run(measure: &dyn Fn(u32, u64) -> Option<Info>) -> (Action, Vec<u32>) {
    let mut c = Calibration::new();
    let mut applied = Vec::new();
    let mut delay = 0;
    let mut reads = 0u64;
    let mut after = None;
    loop {
        let action = c.next_action();
        match action {
            Action::Apply { delay_ps, bits } => {
                assert_eq!(valid_values()[bits as usize], delay_ps);
                applied.push(delay_ps);
                delay = delay_ps;
                after = None;
                c.step(Event::Applied);
            }
            Action::ReadCounters => {
                let counters = match after {
                    None => info(reads, reads * 1000),
                    Some(i) => i,
                };
                c.step(Event::Counters(counters));
            }
            Action::RunTransfer => {
                reads += 1;
                match measure(delay, reads) {
                    None => c.step(Event::TransferTimedOut),
                    Some(i) => {
                        after = Some(i);
                        c.step(Event::TransferCompleted);
                    }
                }
                reads += 1;
            }
            Action::Finish(_) | Action::Abort(_) => return (action, applied),
        }
    }
}

#[test]
fn full_run_sweeps_both_ways() {
    // Counters before a transfer read (r, 1000 r); after it, a rate that is
    // best at 1500 ps, and missing at 3000 ps and above.
    let (action, applied) = run(&|delay, r| {
        if delay >= 3000 {
            None
        } else {
            let distance = (delay as i64 - 1500).unsigned_abs();
            Some(info(r + distance / 250, r * 1000 + 1000))
        }
    });
    let mut expected = valid_values();
    let mut back = expected.clone();
    back.reverse();
    expected.extend(back);
    assert_eq!(applied, expected);
    assert_eq!(action, Action::Finish(Some(Recommendation { index: 6, delay_ps: 1500, bits: 6 })));
}

#[test]
fn full_run_without_reliable_candidate() {
    let (action, applied) = run(&|_, _| None);
    assert_eq!(applied.len(), 28);
    assert_eq!(action, Action::Finish(None));
}

#[test]
fn failures_abort() {
    let mut c = Calibration::new();
    c.step(Event::ApplyFailed);
    assert_eq!(c.next_action(), Action::Abort(Error::Apply));
    c.step(Event::Applied);
    assert_eq!(c.phase(), Phase::Failed(Error::Apply));

    let mut c = Calibration::new();
    c.step(Event::Applied);
    c.step(Event::CountersFailed);
    assert_eq!(c.next_action(), Action::Abort(Error::Counter));

    let mut c = Calibration::new();
    c.step(Event::Applied);
    c.step(Event::Counters(info(0, 0)));
    assert_eq!(c.next_action(), Action::RunTransfer);
    c.step(Event::TransferFailed);
    assert_eq!(c.next_action(), Action::Abort(Error::Transfer));

    let mut c = Calibration::new();
    c.step(Event::Applied);
    c.step(Event::Counters(info(0, 10)));
    c.step(Event::TransferCompleted);
    c.step(Event::Counters(info(0, 10)));
    assert_eq!(c.next_action(), Action::Abort(Error::NoTraffic));
}

#[test]
fn timeout_records_missing_and_moves_on() {
    let mut c = Calibration::new();
    assert_eq!(c.pass(), 1);
    assert_eq!(c.next_action(), Action::Apply { delay_ps: 0, bits: 0 });
    c.step(Event::Applied);
    c.step(Event::Counters(info(0, 10)));
    c.step(Event::TransferTimedOut);
    assert_eq!(c.next_action(), Action::Apply { delay_ps: 300, bits: 1 });
    // An event that answers no pending action changes nothing.
    c.step(Event::TransferCompleted);
    assert_eq!(c.phase(), Phase::Apply);
}

#[test]
fn samples_land_in_their_pass() {
    let mut c = Calibration::new();
    for i in 0..15u64 {
        c.step(Event::Applied);
        c.step(Event::Counters(info(0, 0)));
        if i == 2 {
            c.step(Event::TransferTimedOut);
        } else {
            c.step(Event::TransferCompleted);
            c.step(Event::Counters(info(i, 100)));
        }
    }
    assert_eq!(c.forward().len(), 14);
    assert_eq!(c.forward()[1], Sample::Rate(10_000));
    assert_eq!(c.forward()[2], Sample::Missing);
    assert_eq!(c.reverse(), &vec![Sample::Rate(140_000)]);
    assert_eq!(c.pass(), 2);
    assert_eq!(c.next_action(), Action::Apply { delay_ps: 3000, bits: 12 });
}
