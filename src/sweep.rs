//! A calibration run as a session: the caller performs the action that the
//! session asks for (apply a delay, read the counters, run a transfer) and
//! hands back what came of it. The session sweeps the delay domain forward,
//! then in reverse, collects one sample per candidate and pass, and ends
//! with a recommendation or with the failure that aborted it.
use vstd::prelude::*;

use std::ops::Range;

use crate::delay::{domain, encoding_of, DELAY_COUNT, valid_values};
use crate::error::Error;
use crate::sample::{combine, combined, counters_regressed, is_present, rate_between, sample_rate, Info, Sample};
use crate::strike::{
    find_strikes, in_strike, is_best, is_reliable, is_strike, lemma_missing_excluded, representative, select_best, strikes,
    strikes_of,
};

verus! {

/// The candidate that a calibration recommends.
#[derive(Debug, Clone, Copy, PartialEq, Eq, Structural)]
pub struct Recommendation {
    /// Index of the candidate in the ascending delay domain.
    pub index: usize,
    /// Its delay, in picoseconds.
    pub delay_ps: u32,
    /// Its register encoding.
    pub bits: u32,
}

/// `choice` is what the selector makes of the scores `c` and their ranges
/// `rs`.
pub open spec fn chosen(c: Seq<Sample>, rs: Seq<Range<usize>>, choice: Option<usize>) -> bool {
    &&& choice is None <==> rs.len() == 0
    &&& choice matches Some(i) ==> exists|k: int|
        is_best(c, rs, k) && i == representative(c, #[trigger] rs[k])
}

/// The candidate index of a recommendation.
pub open spec fn chosen_index(rec: Option<Recommendation>) -> Option<usize> {
    match rec {
        Some(r) => Some(r.index),
        None => None,
    }
}

/// `rec` is the recommendation for the combined scores `c` of the domain.
pub open spec fn is_recommendation(c: Seq<Sample>, rec: Option<Recommendation>) -> bool {
    &&& chosen(c, strikes(c), chosen_index(rec))
    &&& rec matches Some(r) ==> {
        &&& r.index < DELAY_COUNT
        &&& r.delay_ps == domain()[r.index as int]
        &&& r.bits == encoding_of(r.delay_ps)
        &&& is_present(c[r.index as int])
    }
}

/// Recommends a candidate from a forward pass and a reverse pass over the
/// delay domain, the latter in the order in which it was measured; `None`
/// when no candidate has a reliable score.
pub fn recommend(forward: &Vec<Sample>, reverse: &Vec<Sample>) -> (r: Option<Recommendation>)
    requires
        forward.len() == DELAY_COUNT,
        reverse.len() == DELAY_COUNT,
    ensures
        is_recommendation(combined(forward@, reverse@), r),
{
    let scores = combine(forward, reverse);
    let strikes = find_strikes(scores.as_slice());
    assert forall|k: int| 0 <= k < strikes@.len() implies is_reliable(scores@, #[trigger] strikes@[k]) by {
        assert(is_strike(scores@, strikes@[k]));
    }
    match select_best(scores.as_slice(), strikes.as_slice()) {
        None => None,
        Some(index) => {
            let values = valid_values();
            Some(Recommendation { index, delay_ps: values[index], bits: index as u32 })
        },
    }
}

/// A candidate with a missing sample in either pass gets a missing combined
/// score, lies in no reliable range, and is never recommended.
pub proof fn lemma_missing_never_recommended(
    forward: Seq<Sample>,
    reverse: Seq<Sample>,
    i: int,
    rec: Option<Recommendation>,
)
    requires
        forward.len() == reverse.len(),
        0 <= i < forward.len(),
        !is_present(forward[i]) || !is_present(reverse[forward.len() - 1 - i]),
        is_recommendation(combined(forward, reverse), rec),
    ensures
        !is_present(combined(forward, reverse)[i]),
        forall|rs: Seq<Range<usize>>, k: int|
            strikes_of(combined(forward, reverse), rs) && 0 <= k < rs.len() ==> !in_strike(
                #[trigger] rs[k],
                i,
            ),
        rec matches Some(r) ==> r.index != i,
{
    let c = combined(forward, reverse);
    assert forall|rs: Seq<Range<usize>>, k: int|
        strikes_of(c, rs) && 0 <= k < rs.len() implies !in_strike(#[trigger] rs[k], i) by {
        lemma_missing_excluded(c, rs, i);
    }
}

/// Where a calibration run stands.
#[derive(Debug, Clone, Copy, PartialEq, Eq, Structural)]
pub enum Phase {
    /// The current candidate is to be applied.
    Apply,
    /// The counters are to be read before the transfer.
    StartCounters,
    /// The transfer is to be run; the snapshot taken before it.
    Transfer(Info),
    /// The counters are to be read after the transfer.
    EndCounters(Info),
    /// The run is complete.
    Done(Option<Recommendation>),
    /// The run was aborted.
    Failed(Error),
}

/// What the caller is to do next.
#[derive(Debug, Clone, Copy, PartialEq, Eq, Structural)]
pub enum Action {
    /// Set the hardware to this delay.
    Apply { delay_ps: u32, bits: u32 },
    /// Read the interface counters.
    ReadCounters,
    /// Run the load-generating transfer.
    RunTransfer,
    /// The run is complete.
    Finish(Option<Recommendation>),
    /// The run was aborted.
    Abort(Error),
}

/// What came of the last action.
#[derive(Debug, Clone, Copy, PartialEq, Eq, Structural)]
pub enum Event {
    Applied,
    ApplyFailed,
    Counters(Info),
    CountersFailed,
    TransferCompleted,
    /// The transfer was aborted for want of throughput.
    TransferTimedOut,
    TransferFailed,
}

/// A calibration run: its samples so far and what it waits for.
pub struct Calibration {
    forward: Vec<Sample>,
    reverse: Vec<Sample>,
    phase: Phase,
}

pub struct CalibrationView {
    /// Samples of the forward pass, in ascending candidate order.
    pub forward: Seq<Sample>,
    /// Samples of the reverse pass, in the order measured (descending).
    pub reverse: Seq<Sample>,
    pub phase: Phase,
}

impl View for Calibration {
    type V = CalibrationView;

    closed spec fn view(&self) -> CalibrationView {
        CalibrationView { forward: self.forward@, reverse: self.reverse@, phase: self.phase }
    }
}

/// The index, in the ascending domain, of the candidate being measured.
pub open spec fn current_index(v: CalibrationView) -> int {
    if v.forward.len() < DELAY_COUNT {
        v.forward.len() as int
    } else {
        DELAY_COUNT - 1 - v.reverse.len()
    }
}

/// A reachable state of a run.
pub open spec fn well_formed(v: CalibrationView) -> bool {
    &&& v.forward.len() <= DELAY_COUNT
    &&& v.reverse.len() <= DELAY_COUNT
    &&& v.reverse.len() > 0 ==> v.forward.len() == DELAY_COUNT
    &&& match v.phase {
        Phase::Done(rec) => v.reverse.len() == DELAY_COUNT && is_recommendation(
            combined(v.forward, v.reverse),
            rec,
        ),
        Phase::Failed(_) => true,
        _ => v.reverse.len() < DELAY_COUNT,
    }
}

/// `new` is `old` with `s` recorded as the sample of the current candidate;
/// after the last candidate of the reverse pass the run is done.
pub open spec fn records(old: CalibrationView, s: Sample, new: CalibrationView) -> bool {
    &&& if old.forward.len() < DELAY_COUNT {
        new.forward == old.forward.push(s) && new.reverse == old.reverse
    } else {
        new.forward == old.forward && new.reverse == old.reverse.push(s)
    }
    &&& if new.reverse.len() == DELAY_COUNT {
        new.phase matches Phase::Done(rec) && is_recommendation(combined(new.forward, new.reverse), rec)
    } else {
        new.phase == Phase::Apply
    }
}

/// `old` with its phase replaced.
pub open spec fn with_phase(old: CalibrationView, phase: Phase) -> CalibrationView {
    CalibrationView { phase, ..old }
}

/// The state that follows `old` on `event`, as far as it is fixed without a
/// new sample.
pub open spec fn transition(old: CalibrationView, event: Event, new: CalibrationView) -> bool {
    match (old.phase, event) {
        (Phase::Apply, Event::Applied) => new == with_phase(old, Phase::StartCounters),
        (Phase::Apply, Event::ApplyFailed) => new == with_phase(old, Phase::Failed(Error::Apply)),
        (Phase::StartCounters, Event::Counters(c)) => new == with_phase(old, Phase::Transfer(c)),
        (Phase::StartCounters, Event::CountersFailed) => new == with_phase(
            old,
            Phase::Failed(Error::Counter),
        ),
        (Phase::Transfer(c), Event::TransferCompleted) => new == with_phase(old, Phase::EndCounters(c)),
        (Phase::Transfer(_), Event::TransferTimedOut) => records(old, Sample::Missing, new),
        (Phase::Transfer(_), Event::TransferFailed) => new == with_phase(
            old,
            Phase::Failed(Error::Transfer),
        ),
        (Phase::EndCounters(start), Event::Counters(end)) => if counters_regressed(start, end) {
            new == with_phase(old, Phase::Failed(Error::Counter))
        } else if end.rx_pkt_n == start.rx_pkt_n {
            new == with_phase(old, Phase::Failed(Error::NoTraffic))
        } else {
            records(old, Sample::Rate(rate_between(start, end) as u64), new)
        },
        (Phase::EndCounters(_), Event::CountersFailed) => new == with_phase(
            old,
            Phase::Failed(Error::Counter),
        ),
        _ => new == old,
    }
}

impl Calibration {
    /// A run that has measured nothing yet.
    pub fn new() -> (r: Calibration)
        ensures
            r@.forward.len() == 0,
            r@.reverse.len() == 0,
            r@.phase == Phase::Apply,
            well_formed(r@),
    {
        Calibration { forward: Vec::new(), reverse: Vec::new(), phase: Phase::Apply }
    }

    /// Which pass is running: 1 for the forward pass, 2 for the reverse one.
    pub fn pass(&self) -> (r: u32)
        requires
            well_formed(self@),
        ensures
            r == (if self@.forward.len() < DELAY_COUNT {
                1u32
            } else {
                2u32
            }),
    {
        if self.forward.len() < DELAY_COUNT {
            1
        } else {
            2
        }
    }

    /// The samples of the forward pass so far, in ascending candidate order.
    pub fn forward(&self) -> (r: &Vec<Sample>)
        ensures
            r@ == self@.forward,
    {
        &self.forward
    }

    /// The samples of the reverse pass so far, in the order measured.
    pub fn reverse(&self) -> (r: &Vec<Sample>)
        ensures
            r@ == self@.reverse,
    {
        &self.reverse
    }

    /// The phase the run is in.
    pub fn phase(&self) -> (r: Phase)
        ensures
            r == self@.phase,
    {
        self.phase
    }

    /// The action that the run waits for.
    pub fn next_action(&self) -> (r: Action)
        requires
            well_formed(self@),
        ensures
            match self@.phase {
                Phase::Apply => r == Action::Apply {
                    delay_ps: domain()[current_index(self@)],
                    bits: current_index(self@) as u32,
                } && encoding_of(domain()[current_index(self@)]) == current_index(self@),
                Phase::StartCounters => r == Action::ReadCounters,
                Phase::Transfer(_) => r == Action::RunTransfer,
                Phase::EndCounters(_) => r == Action::ReadCounters,
                Phase::Done(rec) => r == Action::Finish(rec),
                Phase::Failed(e) => r == Action::Abort(e),
            },
    {
        match self.phase {
            Phase::Apply => {
                let index = if self.forward.len() < DELAY_COUNT {
                    self.forward.len()
                } else {
                    DELAY_COUNT - 1 - self.reverse.len()
                };
                let values = valid_values();
                Action::Apply { delay_ps: values[index], bits: index as u32 }
            },
            Phase::StartCounters => Action::ReadCounters,
            Phase::Transfer(_) => Action::RunTransfer,
            Phase::EndCounters(_) => Action::ReadCounters,
            Phase::Done(rec) => Action::Finish(rec),
            Phase::Failed(e) => Action::Abort(e),
        }
    }

    /// Records the sample of the current candidate and moves on.
    fn record(&mut self, s: Sample)
        requires
            well_formed(old(self)@),
            old(self)@.reverse.len() < DELAY_COUNT,
        ensures
            records(old(self)@, s, final(self)@),
            well_formed(final(self)@),
    {
        if self.forward.len() < DELAY_COUNT {
            self.forward.push(s);
        } else {
            self.reverse.push(s);
        }
        if self.reverse.len() == DELAY_COUNT {
            let rec = recommend(&self.forward, &self.reverse);
            self.phase = Phase::Done(rec);
        } else {
            self.phase = Phase::Apply;
        }
    }

    /// Takes in what came of the last action. An event that does not answer
    /// the action the run waits for leaves it unchanged; so does any event
    /// once the run is over.
    pub fn step(&mut self, event: Event)
        requires
            well_formed(old(self)@),
        ensures
            well_formed(final(self)@),
            transition(old(self)@, event, final(self)@),
    {
        match (self.phase, event) {
            (Phase::Apply, Event::Applied) => {
                self.phase = Phase::StartCounters;
            },
            (Phase::Apply, Event::ApplyFailed) => {
                self.phase = Phase::Failed(Error::Apply);
            },
            (Phase::StartCounters, Event::Counters(c)) => {
                self.phase = Phase::Transfer(c);
            },
            (Phase::StartCounters, Event::CountersFailed) => {
                self.phase = Phase::Failed(Error::Counter);
            },
            (Phase::Transfer(c), Event::TransferCompleted) => {
                self.phase = Phase::EndCounters(c);
            },
            (Phase::Transfer(_), Event::TransferTimedOut) => {
                self.record(Sample::Missing);
            },
            (Phase::Transfer(_), Event::TransferFailed) => {
                self.phase = Phase::Failed(Error::Transfer);
            },
            (Phase::EndCounters(start), Event::Counters(end)) => {
                match sample_rate(&start, &end) {
                    Ok(rate) => self.record(Sample::Rate(rate)),
                    Err(e) => {
                        self.phase = Phase::Failed(e);
                    },
                }
            },
            (Phase::EndCounters(_), Event::CountersFailed) => {
                self.phase = Phase::Failed(Error::Counter);
            },
            _ => {},
        }
    }
}

} // verus!
