//! Rules of the persistent store that the library decides: which insert
//! errors are harmless duplicates, what a clean-up deletes, how rows are
//! grouped into time buckets and how missing values read.
use vstd::prelude::*;
use crate::backtest::str_eq;
use crate::downloader::HOUR_MS;

verus! {

/// One time bucket of aggregated trades: its start (seconds since the epoch),
/// the price of its latest trade and the summed quantity (units of 10^-8).
#[derive(Clone, Copy, Debug)]
pub struct AggregatedData {
    pub timestamp: u64,
    pub close_price: u64,
    pub volume: u128,
}

/// Width of the time buckets of aggregated trades.
#[derive(Debug, Clone, Copy, PartialEq, Eq, Structural)]
pub enum BucketInterval {
    Minute,
    Hour,
}

pub open spec fn contains_at(s: Seq<char>, pat: Seq<char>, i: int) -> bool {
    0 <= i && i + pat.len() <= s.len() && s.subrange(i, i + pat.len() as int) == pat
}

pub open spec fn contains_text(s: Seq<char>, pat: Seq<char>) -> bool {
    exists|i: int| contains_at(s, pat, i)
}

/// Whether `pat` occurs in `s`.
pub fn find_text(s: &str, pat: &str) -> (r: bool)
    ensures
        r == contains_text(s@, pat@),
{
    let n = s.unicode_len();
    let m = pat.unicode_len();
    if m > n {
        assert forall|i: int| !contains_at(s@, pat@, i) by {}
        return false;
    }
    let mut i: usize = 0;
    while i <= n - m
        invariant
            m <= n,
            n == s@.len(),
            m == pat@.len(),
            forall|k: int| 0 <= k < i ==> !contains_at(s@, pat@, k),
        decreases n - m + 1 - i,
    {
        let mut j: usize = 0;
        let mut same = true;
        while j < m
            invariant
                j <= m,
                i + m <= n,
                n == s@.len(),
                m == pat@.len(),
                same == forall|t: int| 0 <= t < j ==> s@[i + t] == pat@[t],
            decreases m - j,
        {
            if s.get_char(i + j) != pat.get_char(j) {
                same = false;
            }
            j = j + 1;
        }
        if same {
            assert(s@.subrange(i as int, i + m) =~= pat@);
            assert(contains_at(s@, pat@, i as int));
            return true;
        }
        proof {
            if contains_at(s@, pat@, i as int) {
                let t = choose|t: int| 0 <= t < m && s@[i + t] != pat@[t];
                assert(s@.subrange(i as int, i + m)[t] == s@[i + t]);
            }
        }
        i = i + 1;
    }
    proof {
        assert forall|k: int| !contains_at(s@, pat@, k) by {
            if 0 <= k && k + m <= n {
                assert(k < i);
            }
        }
    }
    false
}

/// Whether a store error reports a violated unique index, which a bulk
/// insert of rows already stored meets and swallows.
pub fn is_duplicate_key_error(message: &str) -> (r: bool)
    ensures
        r == (contains_text(message@, "duplicate key"@) || contains_text(message@, "unique constraint"@)),
{
    find_text(message, "duplicate key") || find_text(message, "unique constraint")
}

/// Event time before which `cleanup_old_data(hours)` deletes trades, at
/// `now_ms`: `hours` earlier, or 0 when that reaches past the epoch.
pub open spec fn trade_cutoff(now_ms: nat, hours: nat) -> nat {
    if hours * (HOUR_MS as nat) <= now_ms {
        (now_ms - hours * (HOUR_MS as nat)) as nat
    } else {
        0
    }
}

/// The clean-up's bounds at `now_ms`: trades with an event time below the
/// first are deleted, and order books with an update id below the second (the
/// first divided by 1000, an approximation the store accepts).
pub fn cleanup_cutoffs(now_ms: u64, hours: u64) -> (r: (u64, u64))
    ensures
        r.0 == trade_cutoff(now_ms as nat, hours as nat),
        r.1 == r.0 / 1000,
{
    assert(hours as u128 * HOUR_MS as u128 <= 0xffff_ffff_ffff_ffffu128 * 3_600_000u128) by (nonlinear_arith)
        requires hours <= 0xffff_ffff_ffff_ffffu64;
    let span: u128 = hours as u128 * HOUR_MS as u128;
    let cutoff: u64 = if span <= now_ms as u128 {
        now_ms - span as u64
    } else {
        0
    };
    (cutoff, cutoff / 1000)
}

/// Whether the clean-up deletes a trade with this event time.
pub open spec fn trade_expires(event_time: nat, cutoff: nat) -> bool {
    event_time < cutoff
}

/// A clean-up that keeps zero hours deletes no trade from `now` or later.
pub proof fn lemma_cleanup_zero_hours_keeps_recent(now_ms: nat, event_time: nat)
    requires
        event_time >= now_ms,
    ensures
        !trade_expires(event_time, trade_cutoff(now_ms, 0)),
{
}

/// The bucket width named `minute` or `hour`; any other name is refused.
pub fn parse_interval(name: &str) -> (r: Option<BucketInterval>)
    ensures
        r == if name@ == "minute"@ {
            Some(BucketInterval::Minute)
        } else if name@ == "hour"@ {
            Some(BucketInterval::Hour)
        } else {
            None::<BucketInterval>
        },
{
    if str_eq(name, "minute") {
        Some(BucketInterval::Minute)
    } else if str_eq(name, "hour") {
        Some(BucketInterval::Hour)
    } else {
        None
    }
}

/// Start, in seconds since the epoch, of the bucket holding `event_time_ms`.
pub fn bucket_start_s(event_time_ms: u64, interval: BucketInterval) -> (r: u64)
    ensures
        r == match interval {
            BucketInterval::Minute => event_time_ms / 60_000 * 60,
            BucketInterval::Hour => event_time_ms / 3_600_000 * 3_600,
        },
{
    match interval {
        BucketInterval::Minute => event_time_ms / 60_000 * 60,
        BucketInterval::Hour => event_time_ms / 3_600_000 * 3_600,
    }
}

/// A stored decimal that may be missing: missing reads as `"0"`.
pub fn decimal_or_zero(value: Option<String>) -> (r: String)
    ensures
        r@ == match value {
            Some(v) => v@,
            None => "0"@,
        },
{
    match value {
        Some(v) => v,
        None => String::from_str("0"),
    }
}

} // verus!
