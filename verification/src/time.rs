//! Naive (timezone-free) timestamps, kept as a day count relative to the
//! Unix epoch plus a second of day, and their conversion to epoch seconds —
//! the form the search index stores.

use vstd::prelude::*;
use vstd::arithmetic::div_mod::lemma_fundamental_div_mod;

verus! {

/// A naive timestamp as the relational store keeps it: days since the Unix
/// epoch (negative for earlier dates) and a second within that day.
#[derive(Clone, Copy, PartialEq, Eq, Structural, Debug)]
pub struct NaiveStamp {
    pub days: i32,
    pub secs_of_day: u32,
}

impl NaiveStamp {
    /// The second of day names a real second.
    pub open spec fn wf(self) -> bool {
        self.secs_of_day < 86400
    }

    /// The epoch-seconds value this stamp denotes.
    pub open spec fn spec_epoch_seconds(self) -> int {
        self.days * 86400 + self.secs_of_day
    }
}

/// An epoch-seconds value that a `NaiveStamp` can hold.
pub open spec fn representable_epoch(secs: int) -> bool {
    i32::MIN * 86400 <= secs <= i32::MAX * 86400 + 86399
}

/// Epoch seconds denoted by a naive timestamp, exactly
/// `days * 86400 + second of day`.
pub fn timestamp(datetime: NaiveStamp) -> (r: i64)
    requires
        datetime.wf(),
    ensures
        r == datetime.spec_epoch_seconds(),
{
    datetime.days as i64 * 86400 + datetime.secs_of_day as i64
}

/// The naive timestamp denoting a given epoch second; `None` exactly when
/// the value lies outside the representable day range.
pub fn from_epoch_seconds(secs: i64) -> (r: Option<NaiveStamp>)
    ensures
        match r {
            Some(s) => s.wf() && s.spec_epoch_seconds() == secs,
            None => !representable_epoch(secs as int),
        },
{
    if secs >= 0 {
        let u = secs as u64;
        let q = u / 86400;
        let rem = u % 86400;
        proof {
            lemma_fundamental_div_mod(u as int, 86400);
        }
        if q > 2147483647 {
            return None;
        }
        Some(NaiveStamp { days: q as i32, secs_of_day: rem as u32 })
    } else {
        let n = (-(secs + 1)) as u64;
        let q = n / 86400;
        let rem = n % 86400;
        proof {
            lemma_fundamental_div_mod(n as int, 86400);
        }
        if q > 2147483647 {
            return None;
        }
        Some(NaiveStamp { days: -1 - (q as i32), secs_of_day: (86399 - rem) as u32 })
    }
}

/// Relies on chrono's `From<SystemTime> for DateTime<Utc>`, which reads
/// a clock set before the Unix epoch as negative seconds instead of
/// panicking, and on `DateTime::timestamp`. Nothing can be promised of a
/// clock reading.
#[verifier::external_body]
pub(crate) fn now_epoch_seconds() -> i64 {
    chrono::DateTime::<chrono::Utc>::from(std::time::SystemTime::now()).timestamp()
}

/// The current wall-clock time as a naive timestamp; `None` exactly when
/// the clock reports a second outside the representable day range.
pub fn current_stamp() -> (r: Option<NaiveStamp>)
    ensures
        r matches Some(s) ==> s.wf(),
{
    let secs = now_epoch_seconds();
    from_epoch_seconds(secs)
}

} // verus!
