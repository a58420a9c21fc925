//! Planning of historical downloads: which ranges to fetch and how to cut
//! them into windows the exchange accepts.
use vstd::prelude::*;

verus! {

#[derive(Debug, Clone, Copy, PartialEq, Eq, Structural)]
pub enum MarketType {
    Spot,
    Futures,
}

pub open spec fn market_type_name(m: MarketType) -> Seq<char> {
    match m {
        MarketType::Spot => "SPOT"@,
        MarketType::Futures => "FUTURES"@,
    }
}

impl MarketType {
    /// The label under which rows of this market are stored.
    pub fn as_str(&self) -> (r: &'static str)
        ensures
            r@ == market_type_name(*self),
    {
        match self {
            MarketType::Spot => "SPOT",
            MarketType::Futures => "FUTURES",
        }
    }
}

/// Widest window the exchange's aggregated-trades query accepts: one hour.
pub const MAX_WINDOW_MS: u64 = 3_600_000;

/// Requests in flight at once while downloading.
pub const MAX_CONCURRENT_REQUESTS: u64 = 5;

/// Pause each request takes before it is sent, in milliseconds.
pub const REQUEST_STAGGER_MS: u64 = 200;

/// Milliseconds in an hour.
pub const HOUR_MS: u64 = 3_600_000;

/// Number of windows `[start, end)` splits into.
pub open spec fn chunk_count(start: nat, end: nat) -> nat {
    if end <= start {
        0
    } else {
        (((end - start) + MAX_WINDOW_MS - 1) / (MAX_WINDOW_MS as int)) as nat
    }
}

/// `chunks` cover `[start, end)` in order, without gap or overlap, each at most
/// one hour wide and all but the last exactly one hour wide.
pub open spec fn covers(chunks: Seq<(u64, u64)>, start: nat, end: nat) -> bool {
    &&& chunks.len() == chunk_count(start, end)
    &&& forall|i: int| 0 <= i < chunks.len() ==> (#[trigger] chunks[i]).0 == start + i * (MAX_WINDOW_MS as int)
    &&& forall|i: int| 0 <= i < chunks.len() ==> (#[trigger] chunks[i]).1 == if start + (i + 1) * (
    MAX_WINDOW_MS as int) < end {
        start + (i + 1) * (MAX_WINDOW_MS as int)
    } else {
        end as int
    }
}

/// Splits `[start_ts, end_ts)` into consecutive windows of at most one hour,
/// the last one cut at `end_ts`. Empty when `start_ts >= end_ts`.
pub fn plan_chunks(start_ts: u64, end_ts: u64) -> (r: Vec<(u64, u64)>)
    ensures
        covers(r@, start_ts as nat, end_ts as nat),
{
    let mut chunks: Vec<(u64, u64)> = Vec::new();
    let mut chunk_start: u64 = start_ts;
    while chunk_start < end_ts
        invariant
            start_ts <= chunk_start,
            chunk_start < end_ts ==> chunk_start == start_ts + chunks@.len() * (MAX_WINDOW_MS as int),
            chunk_start >= end_ts ==> chunks@.len() == chunk_count(
                start_ts as nat,
                end_ts as nat,
            ),
            chunk_start < end_ts ==> chunks@.len() * (MAX_WINDOW_MS as int) < end_ts - start_ts,
            forall|i: int| 0 <= i < chunks@.len() ==> (#[trigger] chunks@[i]).0 == start_ts + i * (
            MAX_WINDOW_MS as int),
            forall|i: int| 0 <= i < chunks@.len() ==> (#[trigger] chunks@[i]).1 == if start_ts + (i + 1)
                * (MAX_WINDOW_MS as int) < end_ts {
                start_ts + (i + 1) * (MAX_WINDOW_MS as int)
            } else {
                end_ts as int
            },
        decreases end_ts - chunk_start,
    {
        let chunk_end: u64 = if end_ts - chunk_start > MAX_WINDOW_MS {
            chunk_start + MAX_WINDOW_MS
        } else {
            end_ts
        };
        let ghost n = chunks@.len();
        chunks.push((chunk_start, chunk_end));
        proof {
            let w = MAX_WINDOW_MS as int;
            let d = end_ts - start_ts;
            assert(start_ts + (n + 1) * w == chunk_start + w) by (nonlinear_arith)
                requires chunk_start == start_ts + n * w;
            if chunk_end >= end_ts {
                assert(n * w < d);
                assert(d <= (n + 1) * w) by (nonlinear_arith)
                    requires chunk_start == start_ts + n * w, end_ts - chunk_start <= w, d == end_ts - start_ts;
                assert((d + w - 1) / w == n + 1) by (nonlinear_arith)
                    requires n * w < d, d <= (n + 1) * w, w == 3_600_000;
            } else {
                assert((n + 1) * w < d) by (nonlinear_arith)
                    requires chunk_start == start_ts + n * w, chunk_start + w < end_ts, d == end_ts - start_ts;
            }
        }
        chunk_start = chunk_end;
    }
    proof {
        if start_ts >= end_ts {
            assert(chunks@.len() == 0);
        }
    }
    chunks
}

/// Fewest rounds of requests a download of `n` windows needs when at most
/// five run at once.
pub open spec fn request_rounds(n: nat) -> nat {
    ((n + MAX_CONCURRENT_REQUESTS - 1) / (MAX_CONCURRENT_REQUESTS as int)) as nat
}

/// How many windows permit `k` serves, given the permit that served each
/// window.
pub open spec fn served_by(permits: Seq<nat>, k: nat) -> nat
    decreases permits.len(),
{
    if permits.len() == 0 {
        0
    } else {
        served_by(permits.drop_last(), k) + if permits.last() == k { 1nat } else { 0 }
    }
}

proof fn lemma_served_total(permits: Seq<nat>)
    requires
        forall|i: int| 0 <= i < permits.len() ==> #[trigger] permits[i] < MAX_CONCURRENT_REQUESTS,
    ensures
        served_by(permits, 0) + served_by(permits, 1) + served_by(permits, 2) + served_by(permits, 3)
            + served_by(permits, 4) == permits.len(),
    decreases permits.len(),
{
    if permits.len() > 0 {
        let t = permits.drop_last();
        assert forall|i: int| 0 <= i < t.len() implies #[trigger] t[i] < MAX_CONCURRENT_REQUESTS by {
            assert(t[i] == permits[i]);
        }
        lemma_served_total(t);
        assert(permits.last() == permits[permits.len() - 1]);
    }
}

/// Whatever permit serves each of the windows of `[start, end)`, one of the
/// five permits serves at least a fifth of them, rounded up. A permit holder
/// waits 200 ms before each request it makes, one request after another, so
/// the download lasts at least `ceil(windows / 5) × 200` ms, which is at least
/// `windows / 5 × 200` ms.
pub proof fn lemma_download_lasts_rounds(start: nat, end: nat, permits: Seq<nat>)
    requires
        permits.len() == chunk_count(start, end),
        forall|i: int| 0 <= i < permits.len() ==> #[trigger] permits[i] < MAX_CONCURRENT_REQUESTS,
    ensures
        exists|k: nat| k < MAX_CONCURRENT_REQUESTS && #[trigger] served_by(permits, k) * (REQUEST_STAGGER_MS as nat)
            >= request_rounds(chunk_count(start, end)) * (REQUEST_STAGGER_MS as nat),
        request_rounds(chunk_count(start, end)) * 5 >= chunk_count(start, end),
{
    lemma_served_total(permits);
    let n = permits.len();
    let r = request_rounds(n);
    assert(r * 5 >= n);
    if forall|k: nat| k < MAX_CONCURRENT_REQUESTS ==> #[trigger] served_by(permits, k) < r {
        assert(served_by(permits, 0) < r);
        assert(served_by(permits, 1) < r);
        assert(served_by(permits, 2) < r);
        assert(served_by(permits, 3) < r);
        assert(served_by(permits, 4) < r);
        assert(false);
    }
    let k = choose|k: nat| k < MAX_CONCURRENT_REQUESTS && !(#[trigger] served_by(permits, k) < r);
    assert(served_by(permits, k) * 200 >= r * 200) by (nonlinear_arith)
        requires served_by(permits, k) >= r;
}

/// The least wall-clock time a download of `n` windows takes, in milliseconds:
/// every request first waits 200 ms while holding one of five permits.
pub fn min_download_time_ms(n: u64) -> (r: u64)
    requires
        n <= u64::MAX / 100,
    ensures
        r == request_rounds(n as nat) * (REQUEST_STAGGER_MS as nat),
{
    (n + MAX_CONCURRENT_REQUESTS - 1) / MAX_CONCURRENT_REQUESTS * REQUEST_STAGGER_MS
}

/// The pauses of all requests of a download of `n` windows added up, in
/// milliseconds.
pub fn total_stagger_ms(n: u64) -> (r: u64)
    requires
        n <= u64::MAX / 200,
    ensures
        r == n * REQUEST_STAGGER_MS,
{
    n * REQUEST_STAGGER_MS
}

/// Start of a look-back of `hours` from `now_ms`, or 0 when it reaches past
/// the epoch.
pub open spec fn lookback_start(now_ms: nat, hours: nat) -> nat {
    if hours * (HOUR_MS as nat) <= now_ms {
        (now_ms - hours * (HOUR_MS as nat)) as nat
    } else {
        0
    }
}

/// The range to download so that stored data reaches back `hours` from
/// `now_ms`, given the oldest stored event time: nothing when that is old
/// enough; from the look-back start to the oldest stored event; or, with
/// nothing stored, up to `now_ms`.
pub fn plan_ensure_data(now_ms: u64, hours: u64, oldest: Option<u64>) -> (r: Option<(u64, u64)>)
    ensures
        ({
            let target = lookback_start(now_ms as nat, hours as nat);
            match oldest {
                Some(ts) => if ts <= target {
                    r.is_none()
                } else {
                    r == Some((target as u64, ts))
                },
                None => r == Some((target as u64, now_ms)),
            }
        }),
{
    assert(hours as u128 * HOUR_MS as u128 <= 0xffff_ffff_ffff_ffffu128 * 3_600_000u128) by (nonlinear_arith)
        requires hours <= 0xffff_ffff_ffff_ffffu64;
    let span: u128 = hours as u128 * HOUR_MS as u128;
    let target: u64 = if span <= now_ms as u128 {
        now_ms - span as u64
    } else {
        0
    };
    match oldest {
        Some(ts) => if ts <= target {
            None
        } else {
            Some((target, ts))
        },
        None => Some((target, now_ms)),
    }
}

/// The ranges to download so that stored data covers `[start_ts, end_ts]`,
/// given the stored minimum and maximum event times. With nothing stored, the
/// whole range once. Otherwise the part before the stored minimum and the part
/// after the stored maximum, each only where it is missing and not empty.
pub fn plan_ensure_data_range(start_ts: u64, end_ts: u64, db_min: Option<u64>, db_max: Option<u64>) -> (r: Vec<(u64, u64)>)
    ensures
        (db_min.is_none() && db_max.is_none()) ==> r@ == if start_ts < end_ts {
            seq![(start_ts, end_ts)]
        } else {
            Seq::<(u64, u64)>::empty()
        },
        !(db_min.is_none() && db_max.is_none()) ==> {
            let need_before = match db_min {
                Some(m) => m > start_ts,
                None => true,
            };
            let need_after = match db_max {
                Some(m) => m < end_ts,
                None => true,
            };
            let lo = match db_min {
                Some(m) => m,
                None => end_ts,
            };
            let hi = match db_max {
                Some(m) => m,
                None => start_ts,
            };
            let before = need_before && start_ts < lo;
            let after = need_after && end_ts > hi;
            &&& r@.len() == (if before { 1int } else { 0 }) + (if after { 1int } else { 0 })
            &&& before ==> r@[0] == (start_ts, lo)
            &&& after ==> r@[r@.len() - 1] == (hi, end_ts)
        },
{
    let mut ranges: Vec<(u64, u64)> = Vec::new();
    if db_min.is_none() && db_max.is_none() {
        if start_ts < end_ts {
            ranges.push((start_ts, end_ts));
        }
        return ranges;
    }
    let need_before = match db_min {
        Some(m) => m > start_ts,
        None => true,
    };
    let need_after = match db_max {
        Some(m) => m < end_ts,
        None => true,
    };
    let lo: u64 = match db_min {
        Some(m) => m,
        None => end_ts,
    };
    let hi: u64 = match db_max {
        Some(m) => m,
        None => start_ts,
    };
    if need_before && start_ts < lo {
        ranges.push((start_ts, lo));
    }
    if need_after && end_ts > hi {
        ranges.push((hi, end_ts));
    }
    ranges
}

} // verus!
