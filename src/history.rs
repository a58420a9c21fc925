//! The dashboard's history: a bounded, sampled ring of data points and a
//! bounded list of portfolio snapshots taken at most every five seconds.
use vstd::prelude::*;
use crate::state_machine::SystemState;

verus! {

/// Snapshots kept, at most.
pub const MAX_PORTFOLIO_SNAPSHOTS: usize = 500;

/// Seconds between two portfolio snapshots, at least.
pub const SNAPSHOT_INTERVAL_S: u64 = 5;

/// Data points kept by default.
pub const DEFAULT_MAX_HISTORY: usize = 1_000;

/// One point of the price chart. Prices, volumes and the spread count units of
/// 10^-8; equity counts units of 10^-8 USDT; latencies count microseconds.
#[derive(Clone, Debug)]
pub struct DataPoint {
    pub timestamp: u64,
    pub price: u64,
    pub volume: u64,
    pub state: SystemState,
    pub action: Option<String>,
    pub strategy_latency: u64,
    pub execution_latency: u64,
    pub spread: u64,
    pub equity: i128,
}

/// The portfolio's value (units of 10^-8 USDT) at a time in seconds.
#[derive(Clone, Copy, Debug)]
pub struct PortfolioSnapshot {
    pub timestamp: u64,
    pub total_value_usd: u128,
}

pub struct History {
    pub points: Vec<DataPoint>,
    pub max_history: usize,
    pub sample_rate: usize,
    pub data_point_counter: usize,
    pub portfolio_history: Vec<PortfolioSnapshot>,
    pub last_portfolio_snapshot_ts: u64,
}

/// `s` with `x` appended, and its oldest element dropped when it then holds
/// more than `cap`.
pub open spec fn pushed_bounded<T>(s: Seq<T>, x: T, cap: nat) -> Seq<T> {
    let p = s.push(x);
    if p.len() > cap {
        p.subrange(1, p.len() as int)
    } else {
        p
    }
}

impl History {
    /// The ring respects its bound, and snapshots are at least five seconds
    /// apart, oldest first, the newest taken at the recorded time.
    pub open spec fn wf(&self) -> bool {
        let s = self.portfolio_history@;
        &&& self.points@.len() <= self.max_history || self.points@.len() == 0
        &&& s.len() <= MAX_PORTFOLIO_SNAPSHOTS
        &&& forall|i: int| 0 <= i < s.len() - 1 ==> #[trigger] s[i + 1].timestamp >= s[i].timestamp
            + SNAPSHOT_INTERVAL_S
        &&& s.len() > 0 ==> s[s.len() - 1].timestamp == self.last_portfolio_snapshot_ts
    }

    /// An empty history keeping up to `max_history` points, every one sampled.
    pub fn new(max_history: usize) -> (r: Self)
        ensures
            r.wf(),
            r.points@.len() == 0,
            r.portfolio_history@.len() == 0,
            r.max_history == max_history,
            r.sample_rate == 1,
            r.data_point_counter == 0,
            r.last_portfolio_snapshot_ts == 0,
    {
        History {
            points: Vec::new(),
            max_history,
            sample_rate: 1,
            data_point_counter: 0,
            portfolio_history: Vec::new(),
            last_portfolio_snapshot_ts: 0,
        }
    }

    /// Counts a data point at `ts_ms` (event time) and keeps it when the
    /// sampling rate picks it: always with a rate of at most 1, else every
    /// `sample_rate`-th point. The oldest point goes once more than
    /// `max_history` are kept.
    pub fn push_data_point_at(
        &mut self,
        price: u64,
        volume: u64,
        action: Option<String>,
        strat_lat: u64,
        exec_lat: u64,
        spread: u64,
        ts_ms: u64,
        state: SystemState,
        equity: i128,
    )
        requires
            old(self).wf(),
            old(self).data_point_counter < usize::MAX,
        ensures
            final(self).wf(),
            final(self).max_history == old(self).max_history,
            final(self).sample_rate == old(self).sample_rate,
            final(self).portfolio_history@ == old(self).portfolio_history@,
            final(self).last_portfolio_snapshot_ts == old(self).last_portfolio_snapshot_ts,
            final(self).data_point_counter == old(self).data_point_counter + 1,
            ({
                let dp = DataPoint {
                    timestamp: ts_ms,
                    price,
                    volume,
                    state,
                    action,
                    strategy_latency: strat_lat,
                    execution_latency: exec_lat,
                    spread,
                    equity,
                };
                let sampled = old(self).sample_rate <= 1 || (old(self).data_point_counter + 1)
                    % (old(self).sample_rate as int) == 0;
                final(self).points@ == if sampled {
                    pushed_bounded(old(self).points@, dp, old(self).max_history as nat)
                } else {
                    old(self).points@
                }
            }),
    {
        let dp = DataPoint {
            timestamp: ts_ms,
            price,
            volume,
            state,
            action,
            strategy_latency: strat_lat,
            execution_latency: exec_lat,
            spread,
            equity,
        };
        self.data_point_counter = self.data_point_counter + 1;
        if self.sample_rate <= 1 || self.data_point_counter % self.sample_rate == 0 {
            let ghost before = self.points@;
            self.points.push(dp);
            if self.points.len() > self.max_history {
                self.points.remove(0);
                assert(self.points@ =~= before.push(dp).subrange(1, before.len() as int + 1));
            }
        }
    }

    /// Whether a snapshot is due at `now_s`: five seconds or more after the
    /// last one.
    pub fn snapshot_due(&self, now_s: u64) -> (r: bool)
        ensures
            r == (now_s as int >= self.last_portfolio_snapshot_ts as int + SNAPSHOT_INTERVAL_S as int),
    {
        now_s >= self.last_portfolio_snapshot_ts && now_s - self.last_portfolio_snapshot_ts >= SNAPSHOT_INTERVAL_S
    }

    /// Records the portfolio's value at `now_s` when at least five seconds
    /// have passed since the last snapshot; the oldest snapshot goes once more
    /// than 500 are kept. Returns whether it recorded.
    pub fn push_portfolio_snapshot(&mut self, now_s: u64, total_value_usd: u128) -> (r: bool)
        requires
            old(self).wf(),
        ensures
            final(self).wf(),
            final(self).points@ == old(self).points@,
            final(self).max_history == old(self).max_history,
            final(self).sample_rate == old(self).sample_rate,
            final(self).data_point_counter == old(self).data_point_counter,
            r == (now_s as int >= old(self).last_portfolio_snapshot_ts as int + SNAPSHOT_INTERVAL_S as int),
            r ==> final(self).last_portfolio_snapshot_ts == now_s,
            r ==> final(self).portfolio_history@ == pushed_bounded(
                old(self).portfolio_history@,
                PortfolioSnapshot { timestamp: now_s, total_value_usd },
                MAX_PORTFOLIO_SNAPSHOTS as nat,
            ),
            !r ==> final(self).portfolio_history@ == old(self).portfolio_history@,
            !r ==> final(self).last_portfolio_snapshot_ts == old(self).last_portfolio_snapshot_ts,
    {
        if now_s < self.last_portfolio_snapshot_ts || now_s - self.last_portfolio_snapshot_ts
            < SNAPSHOT_INTERVAL_S {
            return false;
        }
        let snap = PortfolioSnapshot { timestamp: now_s, total_value_usd };
        let ghost before = self.portfolio_history@;
        self.portfolio_history.push(snap);
        self.last_portfolio_snapshot_ts = now_s;
        if self.portfolio_history.len() > MAX_PORTFOLIO_SNAPSHOTS {
            self.portfolio_history.remove(0);
            assert(self.portfolio_history@ =~= before.push(snap).subrange(1, before.len() as int + 1));
        }
        proof {
            let s = self.portfolio_history@;
            let p = before.push(snap);
            assert forall|i: int| 0 <= i < s.len() - 1 implies #[trigger] s[i + 1].timestamp >= s[i].timestamp
                + SNAPSHOT_INTERVAL_S by {
                if p.len() > MAX_PORTFOLIO_SNAPSHOTS {
                    assert(s[i] == p[i + 1]);
                    assert(s[i + 1] == p[i + 2]);
                    if i + 2 < p.len() - 1 {
                        assert(p[i + 2] == before[i + 2]);
                        assert(p[i + 1] == before[i + 1]);
                    }
                } else {
                    assert(s == p);
                    if i + 1 < p.len() - 1 {
                        assert(p[i + 1] == before[i + 1]);
                        assert(p[i] == before[i]);
                    }
                }
            }
        }
        true
    }

    /// Forgets every data point.
    pub fn clear_all_data(&mut self)
        requires
            old(self).wf(),
        ensures
            final(self).wf(),
            final(self).points@.len() == 0,
            final(self).portfolio_history@ == old(self).portfolio_history@,
            final(self).last_portfolio_snapshot_ts == old(self).last_portfolio_snapshot_ts,
            final(self).max_history == old(self).max_history,
            final(self).sample_rate == old(self).sample_rate,
    {
        self.points = Vec::new();
    }
}

} // verus!
