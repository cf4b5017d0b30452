//! Error-rate samples, their collection from interface counters, and the
//! combination of a forward and a reverse sweep.
use vstd::prelude::*;

use crate::error::Error;

verus! {

/// Resolution of an error rate: a rate is counted in errors per million
/// received frames.
pub const RATE_SCALE: u64 = 1_000_000;

/// The error rate measured for one candidate in one pass, or the mark of a
/// measurement whose transfer was too slow to count.
#[derive(Debug, Clone, Copy, PartialEq, Eq, Structural)]
pub enum Sample {
    Missing,
    /// Errors per million received frames.
    Rate(u64),
}

/// A snapshot of the interface statistics that a measurement reads.
#[derive(Debug, Clone, Copy, PartialEq, Eq, Structural)]
pub struct Info {
    pub mmc_rx_crc_error: u64,
    pub rx_pkt_n: u64,
}

pub open spec fn is_present(s: Sample) -> bool {
    s is Rate
}

/// The rate of a present sample.
pub open spec fn rate_of(s: Sample) -> int {
    match s {
        Sample::Rate(r) => r as int,
        Sample::Missing => 0,
    }
}

/// The sum of two samples: missing if either is, saturated at the largest
/// representable rate otherwise.
pub open spec fn sum(a: Sample, b: Sample) -> Sample {
    match (a, b) {
        (Sample::Rate(x), Sample::Rate(y)) => Sample::Rate(
            if x + y > u64::MAX {
                u64::MAX
            } else {
                (x + y) as u64
            },
        ),
        _ => Sample::Missing,
    }
}

/// The combined score of each candidate: its forward sample plus its sample
/// of the reverse pass, which measured the candidates in the opposite order.
pub open spec fn combined(forward: Seq<Sample>, reverse: Seq<Sample>) -> Seq<Sample> {
    Seq::new(forward.len(), |i: int| sum(forward[i], reverse[forward.len() - 1 - i]))
}

/// The error rate between two snapshots, in errors per million frames,
/// saturated at the largest `u64`.
pub open spec fn rate_between(start: Info, end: Info) -> int {
    let errors = end.mmc_rx_crc_error - start.mmc_rx_crc_error;
    let packets = end.rx_pkt_n - start.rx_pkt_n;
    let exact = RATE_SCALE * errors / packets;
    if exact > u64::MAX {
        u64::MAX as int
    } else {
        exact
    }
}

/// Whether the counters went backwards between two snapshots.
pub open spec fn counters_regressed(start: Info, end: Info) -> bool {
    end.mmc_rx_crc_error < start.mmc_rx_crc_error || end.rx_pkt_n < start.rx_pkt_n
}

/// Computes the error rate of a measurement from the snapshots taken before
/// and after its transfer.
pub fn sample_rate(start: &Info, end: &Info) -> (r: Result<u64, Error>)
    ensures
        counters_regressed(*start, *end) ==> r == Err::<u64, Error>(Error::Counter),
        !counters_regressed(*start, *end) && end.rx_pkt_n == start.rx_pkt_n ==> r == Err::<u64, Error>(
            Error::NoTraffic,
        ),
        !counters_regressed(*start, *end) && end.rx_pkt_n != start.rx_pkt_n ==> (r matches Ok(v)
            && v == rate_between(*start, *end)),
{
    if end.mmc_rx_crc_error < start.mmc_rx_crc_error || end.rx_pkt_n < start.rx_pkt_n {
        return Err(Error::Counter);
    }
    let errors = end.mmc_rx_crc_error - start.mmc_rx_crc_error;
    let packets = end.rx_pkt_n - start.rx_pkt_n;
    if packets == 0 {
        return Err(Error::NoTraffic);
    }
    assert((errors as u128) * (RATE_SCALE as u128) <= (u64::MAX as u128) * (RATE_SCALE as u128))
        by (nonlinear_arith)
        requires
            errors <= u64::MAX,
    ;
    let scaled: u128 = (errors as u128) * (RATE_SCALE as u128);
    let exact: u128 = scaled / (packets as u128);
    if exact > u64::MAX as u128 {
        Ok(u64::MAX)
    } else {
        Ok(exact as u64)
    }
}

/// Whether the entry at `i` is the first statistic named `name`.
pub open spec fn is_first_named(stats: Seq<(String, u64)>, name: Seq<char>, i: int) -> bool {
    &&& 0 <= i < stats.len()
    &&& stats[i].0@ == name
    &&& forall|j: int| 0 <= j < i ==> stats[j].0@ != name
}

pub open spec fn has_stat(stats: Seq<(String, u64)>, name: Seq<char>) -> bool {
    exists|i: int| 0 <= i < stats.len() && stats[i].0@ == name
}

/// Looks up the value of the first statistic named `name`.
pub fn find_stat(stats: &Vec<(String, u64)>, name: &str) -> (r: Option<u64>)
    ensures
        r is Some <==> has_stat(stats@, name@),
        r matches Some(v) ==> exists|i: int| is_first_named(stats@, name@, i) && stats@[i].1 == v,
{
    let key = name.to_owned();
    let mut i: usize = 0;
    while i < stats.len()
        invariant
            i <= stats.len(),
            key@ == name@,
            forall|j: int| 0 <= j < i ==> stats@[j].0@ != name@,
        decreases stats.len() - i,
    {
        if stats[i].0 == key {
            assert(is_first_named(stats@, name@, i as int));
            return Some(stats[i].1);
        }
        i = i + 1;
    }
    None
}

/// Reads the two counters that a measurement needs from the interface
/// statistics, given as name and value pairs.
pub fn get_info(stats: &Vec<(String, u64)>) -> (r: Result<Info, Error>)
    ensures
        r is Ok <==> has_stat(stats@, "mmc_rx_crc_error"@) && has_stat(stats@, "rx_pkt_n"@),
        r matches Ok(info) ==> (exists|i: int|
            is_first_named(stats@, "mmc_rx_crc_error"@, i) && stats@[i].1 == info.mmc_rx_crc_error)
            && (exists|i: int| is_first_named(stats@, "rx_pkt_n"@, i) && stats@[i].1 == info.rx_pkt_n),
        r matches Err(e) ==> e == Error::Counter,
{
    let errors = find_stat(stats, "mmc_rx_crc_error");
    let packets = find_stat(stats, "rx_pkt_n");
    match (errors, packets) {
        (Some(e), Some(p)) => Ok(Info { mmc_rx_crc_error: e, rx_pkt_n: p }),
        _ => Err(Error::Counter),
    }
}

/// Adds two samples; a missing sample makes the sum missing.
pub fn add_samples(a: Sample, b: Sample) -> (r: Sample)
    ensures
        r == sum(a, b),
{
    match (a, b) {
        (Sample::Rate(x), Sample::Rate(y)) => Sample::Rate(x.saturating_add(y)),
        _ => Sample::Missing,
    }
}

/// Combines a forward pass with a reverse pass, given in the order in which
/// it was measured, into one score per candidate of the forward order.
pub fn combine(forward: &Vec<Sample>, reverse: &Vec<Sample>) -> (r: Vec<Sample>)
    requires
        forward.len() == reverse.len(),
    ensures
        r@ == combined(forward@, reverse@),
{
    let n = forward.len();
    let mut r: Vec<Sample> = Vec::new();
    let mut i: usize = 0;
    while i < n
        invariant
            n == forward.len() == reverse.len(),
            i <= n,
            r@ == combined(forward@, reverse@).subrange(0, i as int),
        decreases n - i,
    {
        r.push(add_samples(forward[i], reverse[n - 1 - i]));
        assert(r@ =~= combined(forward@, reverse@).subrange(0, i + 1));
        i = i + 1;
    }
    assert(r@ =~= combined(forward@, reverse@));
    r
}

} // verus!
