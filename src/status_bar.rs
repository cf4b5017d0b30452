//! Transfer progress: amounts, speeds and their extremes. The caller keeps
//! the clocks and prints; this type decides when a report is due and what
//! it says.
use vstd::prelude::*;

verus! {

/// One progress report. Speeds are in bytes per second.
#[derive(Debug, Clone, Copy, PartialEq, Eq, Structural)]
pub struct Progress {
    /// Share of the expected size transferred so far, when the size is known.
    pub percent: Option<u128>,
    pub current_speed: u128,
    pub mean_speed: u128,
    pub min_speed: u128,
    pub max_speed: u128,
}

/// Progress of a transfer between reports.
pub struct StatusBar {
    current_transfered: u64,
    total_transfered: u64,
    total_size: u64,
    max_speed: u128,
    min_speed: u128,
    print_every_ms: Option<u64>,
}

pub struct StatusBarView {
    /// Bytes since the last report.
    pub current_transfered: u64,
    /// Bytes up to the last report.
    pub total_transfered: u64,
    /// Expected size of the transfer; 0 when unknown.
    pub total_size: u64,
    pub max_speed: u128,
    pub min_speed: u128,
    /// Least time between reports; `None` for a bar that never reports.
    pub print_every_ms: Option<u64>,
}

impl View for StatusBar {
    type V = StatusBarView;

    closed spec fn view(&self) -> StatusBarView {
        StatusBarView {
            current_transfered: self.current_transfered,
            total_transfered: self.total_transfered,
            total_size: self.total_size,
            max_speed: self.max_speed,
            min_speed: self.min_speed,
            print_every_ms: self.print_every_ms,
        }
    }
}

/// `a + b`, or the largest `u64` where that overflows.
pub open spec fn add_sat(a: u64, b: u64) -> u64 {
    if a + b > u64::MAX {
        u64::MAX
    } else {
        (a + b) as u64
    }
}

/// Bytes per second of `amount` bytes in `elapsed_ms` milliseconds; 0 when
/// no time has passed.
pub open spec fn speed_of(amount: u64, elapsed_ms: u128) -> u128 {
    if elapsed_ms == 0 {
        0
    } else {
        (1000 * amount / (elapsed_ms as int)) as u128
    }
}

pub open spec fn min_of(a: u128, b: u128) -> u128 {
    if a <= b {
        a
    } else {
        b
    }
}

pub open spec fn max_of(a: u128, b: u128) -> u128 {
    if a >= b {
        a
    } else {
        b
    }
}

/// A report is due once `elapsed_ms` reaches the reporting period.
pub open spec fn is_due(print_every_ms: Option<u64>, elapsed_ms: u128) -> bool {
    print_every_ms matches Some(p) && elapsed_ms >= p
}

/// The state after `size` more bytes, `current_ms` after the last report
/// and `total_ms` after the start, and the report made then, if one is due.
pub open spec fn updated(
    old: StatusBarView,
    size: u64,
    current_ms: u128,
    total_ms: u128,
    new: StatusBarView,
    r: Option<Progress>,
) -> bool {
    let current = add_sat(old.current_transfered, size);
    let total = add_sat(old.total_transfered, current);
    let current_speed = speed_of(current, current_ms);
    let mean_speed = speed_of(total, total_ms);
    if !is_due(old.print_every_ms, current_ms) {
        r is None && new == StatusBarView { current_transfered: current, ..old }
    } else {
        &&& new == StatusBarView {
            current_transfered: 0,
            total_transfered: total,
            min_speed: min_of(current_speed, old.min_speed),
            max_speed: max_of(current_speed, old.max_speed),
            ..old
        }
        &&& r == Some(
            Progress {
                percent: if old.total_size > 0 {
                    Some((100 * total / (old.total_size as int)) as u128)
                } else {
                    None
                },
                current_speed,
                mean_speed,
                min_speed: new.min_speed,
                max_speed: new.max_speed,
            },
        )
    }
}

fn speed(amount: u64, elapsed_ms: u128) -> (r: u128)
    ensures
        r == speed_of(amount, elapsed_ms),
{
    if elapsed_ms == 0 {
        0
    } else {
        assert(1000 * amount <= 1000 * u64::MAX);
        1000 * (amount as u128) / elapsed_ms
    }
}

impl StatusBar {
    /// A bar for a transfer of `total_size` bytes (0 when unknown) that
    /// reports at most once per `print_every_ms` milliseconds (never, for
    /// `None`).
    pub fn new(total_size: u64, print_every_ms: Option<u64>) -> (r: StatusBar)
        ensures
            r@ == (StatusBarView {
                current_transfered: 0,
                total_transfered: 0,
                total_size,
                max_speed: 0,
                min_speed: u128::MAX,
                print_every_ms,
            }),
    {
        StatusBar {
            current_transfered: 0,
            total_transfered: 0,
            total_size,
            max_speed: 0,
            min_speed: u128::MAX,
            print_every_ms,
        }
    }

    /// Counts `size` more bytes, `current_ms` milliseconds after the last
    /// report and `total_ms` after the start; returns the report when one is
    /// due.
    pub fn update(&mut self, size: u64, current_ms: u128, total_ms: u128) -> (r: Option<Progress>)
        ensures
            updated(old(self)@, size, current_ms, total_ms, final(self)@, r),
    {
        self.current_transfered = self.current_transfered.saturating_add(size);
        let due = match self.print_every_ms {
            Some(p) => current_ms >= p as u128,
            None => false,
        };
        if !due {
            return None;
        }
        self.total_transfered = self.total_transfered.saturating_add(self.current_transfered);
        let current_speed = speed(self.current_transfered, current_ms);
        let mean_speed = speed(self.total_transfered, total_ms);
        if current_speed < self.min_speed {
            self.min_speed = current_speed;
        }
        if current_speed > self.max_speed {
            self.max_speed = current_speed;
        }
        let percent = if self.total_size > 0 {
            assert(100 * self.total_transfered <= 100 * u64::MAX);
            Some(100 * (self.total_transfered as u128) / (self.total_size as u128))
        } else {
            None
        };
        self.current_transfered = 0;
        Some(
            Progress {
                percent,
                current_speed,
                mean_speed,
                min_speed: self.min_speed,
                max_speed: self.max_speed,
            },
        )
    }

    /// Closes the bar: counts what remains of the expected size and reports
    /// at once. A bar that never reports stays as it is.
    pub fn end(&mut self, current_ms: u128, total_ms: u128) -> (r: Option<Progress>)
        ensures
            old(self)@.print_every_ms is None ==> r is None && final(self)@ == old(self)@,
            old(self)@.print_every_ms is Some ==> updated(
                StatusBarView { print_every_ms: Some(0u64), ..old(self)@ },
                if old(self)@.total_size > 0 {
                    let done = old(self)@.total_transfered + old(self)@.current_transfered;
                    if done >= old(self)@.total_size {
                        0u64
                    } else {
                        (old(self)@.total_size - done) as u64
                    }
                } else {
                    0u64
                },
                current_ms,
                total_ms,
                final(self)@,
                r,
            ),
    {
        if self.print_every_ms.is_none() {
            return None;
        }
        let size = if self.total_size > 0 {
            let done = self.total_transfered as u128 + self.current_transfered as u128;
            if done >= self.total_size as u128 {
                0
            } else {
                self.total_size - (done as u64)
            }
        } else {
            0
        };
        self.print_every_ms = Some(0);
        self.update(size, current_ms, total_ms)
    }
}

} // verus!
