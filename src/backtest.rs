//! Bookkeeping of one isolated backtest run: replay schedule, progress points
//! and the running tally of trades, profit and drawdown. Money counts units of
//! 10^-8 USDT.
use vstd::prelude::*;
use crate::downloader::MarketType;
use crate::signal::Signal;
use crate::simulation::{fee_of, notional};

verus! {

/// Data points a run keeps, at most (the sampling target).
pub const TARGET_POINTS: usize = 2_000;

/// Number of progress reports a run makes before it completes.
pub const PROGRESS_STEPS: usize = 10;

/// In fast mode one trade in this many is replayed.
pub const FAST_SKIP: usize = 10;

/// Largest profit or loss, and fee, of one trade the tally takes.
pub const MAX_TRADE_AMOUNT: i128 = 0xffff_ffff_ffff_ffff;

/// Trades a tally can take.
pub const MAX_TRADES: u64 = 0x100_0000_0000;

/// Interval between progress reports over `total` trades: a tenth, at least 1.
pub fn progress_interval(total: usize) -> (r: usize)
    ensures
        r == if total / PROGRESS_STEPS >= 1 { total / PROGRESS_STEPS } else { 1 },
{
    let q = total / PROGRESS_STEPS;
    if q >= 1 {
        q
    } else {
        1
    }
}

/// One data point kept in this many, so that about 2 000 remain: at least 1.
pub fn sample_rate(total: usize) -> (r: usize)
    ensures
        r == if total / TARGET_POINTS >= 1 { total / TARGET_POINTS } else { 1 },
        r >= 1,
{
    let q = total / TARGET_POINTS;
    if q >= 1 {
        q
    } else {
        1
    }
}

/// Whether trade `idx` is replayed: all of them, or every tenth in fast mode.
pub fn should_replay(idx: usize, fast_mode: bool) -> (r: bool)
    ensures
        r == (!fast_mode || idx % FAST_SKIP == 0),
{
    !fast_mode || idx % FAST_SKIP == 0
}

/// Whether a progress report is due at trade `idx`, and its percentage.
pub fn progress_at(idx: usize, total: usize) -> (r: Option<u32>)
    requires
        idx < total,
    ensures
        ({
            let interval = if total / PROGRESS_STEPS >= 1 { total / PROGRESS_STEPS } else { 1 };
            &&& r.is_some() == (idx > 0 && idx % interval == 0)
            &&& r.is_some() ==> r.unwrap() == idx * 100 / (total as int)
            &&& r.is_some() ==> r.unwrap() < 100
        }),
{
    let interval = progress_interval(total);
    if idx > 0 && idx % interval == 0 {
        let pct: u128 = idx as u128 * 100 / total as u128;
        assert(pct < 100) by (nonlinear_arith)
            requires pct as int == (idx as int) * 100 / (total as int), idx < total;
        Some(pct as u32)
    } else {
        None
    }
}

/// The fee a backtest charges for an opportunity executed at the trade's
/// `price`: 0.1 % of its notional for a buy or a sell, nothing for a cancel.
pub fn trade_fee(signal: &Signal, price: u64) -> (r: u128)
    ensures
        r == match signal {
            Signal::Buy { quantity, .. } => fee_of(notional(*quantity, price)),
            Signal::Sell { quantity, .. } => fee_of(notional(*quantity, price)),
            Signal::Cancel { .. } => 0,
        },
{
    let q: u64 = match signal {
        Signal::Buy { quantity, .. } => *quantity,
        Signal::Sell { quantity, .. } => *quantity,
        Signal::Cancel { .. } => {
            return 0;
        },
    };
    proof {
        assert(q as nat * price as nat <= (u64::MAX as nat) * (u64::MAX as nat)) by (nonlinear_arith)
            requires q <= u64::MAX, price <= u64::MAX;
    }
    (q as u128 * price as u128) / (crate::decimal::SCALE as u128) / 1000
}

/// A progress report of one backtest run, for the progress feed.
#[derive(Clone, Debug)]
pub struct ProgressEvent {
    pub symbol: String,
    pub strategy_name: String,
    pub progress_pct: u32,
    /// `running`, `completed` or `error`.
    pub status: String,
    pub features: Vec<(String, String)>,
}

impl ProgressEvent {
    /// A report that the run is at `progress_pct` percent.
    pub fn running(symbol: String, strategy_name: String, progress_pct: u32, features: Vec<(String, String)>) -> (r: Self)
        ensures
            r.symbol == symbol,
            r.strategy_name == strategy_name,
            r.progress_pct == progress_pct,
            r.status@ == "running"@,
            r.features == features,
    {
        ProgressEvent { symbol, strategy_name, progress_pct, status: String::from_str("running"), features }
    }

    /// The report that closes a run: 100 percent, completed.
    pub fn completed(symbol: String, strategy_name: String, features: Vec<(String, String)>) -> (r: Self)
        ensures
            r.symbol == symbol,
            r.strategy_name == strategy_name,
            r.progress_pct == 100,
            r.status@ == "completed"@,
            r.features == features,
    {
        ProgressEvent { symbol, strategy_name, progress_pct: 100, status: String::from_str("completed"), features }
    }
}

/// The running results of a backtest run.
pub struct BacktestTally {
    pub total_trades: u64,
    pub win_trades: u64,
    pub loss_trades: u64,
    pub realized_pnl: i128,
    pub gross_profit: i128,
    pub gross_loss: i128,
    pub total_fees: i128,
    pub peak_pnl: i128,
    pub max_drawdown: i128,
    /// Net result (after fee) of every trade that won or lost.
    pub trade_pnls: Vec<i128>,
}

/// `a / b` rounded toward zero.
pub open spec fn div_toward_zero(a: int, b: int) -> int {
    if a >= 0 {
        a / b
    } else {
        -((-a) / b)
    }
}

pub open spec fn abs_i(a: int) -> int {
    if a >= 0 {
        a
    } else {
        -a
    }
}

impl BacktestTally {
    /// Every sum is bounded by the number of trades taken.
    pub open spec fn wf(&self) -> bool {
        let bound = self.total_trades * 2 * MAX_TRADE_AMOUNT;
        &&& self.total_trades <= MAX_TRADES
        &&& self.win_trades + self.loss_trades <= self.total_trades
        &&& abs_i(self.realized_pnl as int) <= bound
        &&& 0 <= self.gross_profit <= bound
        &&& 0 <= self.gross_loss <= bound
        &&& 0 <= self.total_fees <= bound
        &&& 0 <= self.peak_pnl <= bound
        &&& 0 <= self.max_drawdown <= 2 * bound
        &&& self.realized_pnl <= self.peak_pnl
        &&& self.peak_pnl - self.realized_pnl <= self.max_drawdown
        &&& self.trade_pnls@.len() == self.win_trades + self.loss_trades
    }

    pub fn new() -> (r: Self)
        ensures
            r.wf(),
            r.total_trades == 0,
            r.realized_pnl == 0,
            r.trade_pnls@.len() == 0,
    {
        BacktestTally {
            total_trades: 0,
            win_trades: 0,
            loss_trades: 0,
            realized_pnl: 0,
            gross_profit: 0,
            gross_loss: 0,
            total_fees: 0,
            peak_pnl: 0,
            max_drawdown: 0,
            trade_pnls: Vec::new(),
        }
    }

    /// Takes one executed opportunity: its realized `pnl` before fee and its
    /// `fee`. The run's profit moves by `pnl - fee`; a positive `pnl` is a win
    /// and adds to gross profit, a negative one a loss that adds its size to
    /// gross loss; the peak and the largest drop below it follow.
    pub fn record_trade(&mut self, pnl: i128, fee: i128)
        requires
            old(self).wf(),
            old(self).total_trades < MAX_TRADES,
            -MAX_TRADE_AMOUNT <= pnl <= MAX_TRADE_AMOUNT,
            0 <= fee <= MAX_TRADE_AMOUNT,
        ensures
            final(self).wf(),
            final(self).total_trades == old(self).total_trades + 1,
            final(self).total_fees == old(self).total_fees + fee,
            final(self).realized_pnl == old(self).realized_pnl + pnl - fee,
            final(self).win_trades == old(self).win_trades + if pnl > 0 { 1int } else { 0 },
            final(self).loss_trades == old(self).loss_trades + if pnl < 0 { 1int } else { 0 },
            final(self).gross_profit == old(self).gross_profit + if pnl > 0 { pnl as int } else { 0 },
            final(self).gross_loss == old(self).gross_loss + if pnl < 0 { -pnl } else { 0 },
            final(self).trade_pnls@ == if pnl != 0 {
                old(self).trade_pnls@.push((pnl - fee) as i128)
            } else {
                old(self).trade_pnls@
            },
            final(self).peak_pnl == if final(self).realized_pnl > old(self).peak_pnl {
                final(self).realized_pnl
            } else {
                old(self).peak_pnl
            },
            final(self).max_drawdown == if final(self).peak_pnl - final(self).realized_pnl
                > old(self).max_drawdown {
                final(self).peak_pnl - final(self).realized_pnl
            } else {
                old(self).max_drawdown as int
            },
    {
        let ghost b0 = self.total_trades * 2 * MAX_TRADE_AMOUNT;
        proof {
            assert((self.total_trades + 1) * 2 * MAX_TRADE_AMOUNT == b0 + 2 * MAX_TRADE_AMOUNT) by (nonlinear_arith)
                requires b0 == self.total_trades * 2 * MAX_TRADE_AMOUNT;
            assert(b0 <= MAX_TRADES * 2 * MAX_TRADE_AMOUNT) by (nonlinear_arith)
                requires b0 == self.total_trades * 2 * MAX_TRADE_AMOUNT, self.total_trades < MAX_TRADES;
        }
        self.total_trades = self.total_trades + 1;
        self.total_fees = self.total_fees + fee;
        self.realized_pnl = self.realized_pnl + pnl - fee;
        if pnl > 0 {
            self.win_trades = self.win_trades + 1;
            self.trade_pnls.push(pnl - fee);
            self.gross_profit = self.gross_profit + pnl;
        } else if pnl < 0 {
            self.loss_trades = self.loss_trades + 1;
            self.trade_pnls.push(pnl - fee);
            self.gross_loss = self.gross_loss - pnl;
        }
        if self.realized_pnl > self.peak_pnl {
            self.peak_pnl = self.realized_pnl;
        }
        let drawdown: i128 = self.peak_pnl - self.realized_pnl;
        if drawdown > self.max_drawdown {
            self.max_drawdown = drawdown;
        }
    }

    /// The run's profit relative to `initial_balance`, in hundredths of a
    /// percent, rounded toward zero.
    pub fn yield_bp(&self, initial_balance: u64) -> (r: i128)
        requires
            self.wf(),
            initial_balance > 0,
        ensures
            r == div_toward_zero((self.realized_pnl as int) * 10_000, initial_balance as int),
    {
        let ghost b = self.total_trades * 2 * MAX_TRADE_AMOUNT;
        proof {
            assert(b <= MAX_TRADES * 2 * MAX_TRADE_AMOUNT) by (nonlinear_arith)
                requires b == self.total_trades * 2 * MAX_TRADE_AMOUNT, self.total_trades <= MAX_TRADES;
        }
        let init: u128 = initial_balance as u128;
        if self.realized_pnl >= 0 {
            let m: u128 = self.realized_pnl as u128;
            (m * 10_000 / init) as i128
        } else {
            let m: u128 = (-self.realized_pnl) as u128;
            assert((-self.realized_pnl) * 10_000 == -(self.realized_pnl * 10_000));
            -((m * 10_000 / init) as i128)
        }
    }

    /// Gross profit over gross loss, in hundredths of a percent (rounded
    /// down); 0 without losses.
    pub fn profit_factor_bp(&self) -> (r: u128)
        requires
            self.wf(),
        ensures
            self.gross_loss == 0 ==> r == 0,
            self.gross_loss > 0 ==> r == (self.gross_profit as int) * 10_000 / (self.gross_loss as int),
    {
        if self.gross_loss == 0 {
            return 0;
        }
        let ghost b = self.total_trades * 2 * MAX_TRADE_AMOUNT;
        proof {
            assert(b <= MAX_TRADES * 2 * MAX_TRADE_AMOUNT) by (nonlinear_arith)
                requires b == self.total_trades * 2 * MAX_TRADE_AMOUNT, self.total_trades <= MAX_TRADES;
        }
        (self.gross_profit as u128) * 10_000 / (self.gross_loss as u128)
    }

    /// Average profit of a winning trade (units of 10^-8 USDT, rounded down);
    /// 0 without wins.
    pub fn avg_win(&self) -> (r: u128)
        requires
            self.wf(),
        ensures
            self.win_trades == 0 ==> r == 0,
            self.win_trades > 0 ==> r == (self.gross_profit as int) / (self.win_trades as int),
    {
        if self.win_trades == 0 {
            return 0;
        }
        (self.gross_profit as u128) / (self.win_trades as u128)
    }

    /// Average size of a losing trade's loss (units of 10^-8 USDT, rounded
    /// down); 0 without losses.
    pub fn avg_loss(&self) -> (r: u128)
        requires
            self.wf(),
        ensures
            self.loss_trades == 0 ==> r == 0,
            self.loss_trades > 0 ==> r == (self.gross_loss as int) / (self.loss_trades as int),
    {
        if self.loss_trades == 0 {
            return 0;
        }
        (self.gross_loss as u128) / (self.loss_trades as u128)
    }

    /// Share of trades that won, in hundredths of a percent (rounded down); 0
    /// without trades.
    pub fn win_rate_bp(&self) -> (r: u64)
        requires
            self.wf(),
        ensures
            self.total_trades == 0 ==> r == 0,
            self.total_trades > 0 ==> r == self.win_trades * 10_000 / (self.total_trades as int),
            r <= 10_000,
    {
        if self.total_trades == 0 {
            return 0;
        }
        let w: u128 = self.win_trades as u128;
        let t: u128 = self.total_trades as u128;
        proof {
            let wi = w as int;
            let ti = t as int;
            assert(wi * 10_000 <= ti * 10_000) by (nonlinear_arith)
                requires wi <= ti;
            assert(wi * 10_000 / ti <= 10_000) by (nonlinear_arith)
                requires wi * 10_000 <= ti * 10_000, ti > 0;
        }
        (w * 10_000 / t) as u64
    }
}

pub open spec fn colon_count(s: Seq<char>) -> nat
    decreases s.len(),
{
    if s.len() == 0 {
        0
    } else {
        colon_count(s.drop_last()) + if s.last() == ':' { 1nat } else { 0 }
    }
}

/// What `str::to_uppercase` returns for these characters.
pub uninterp spec fn upper_of(s: Seq<char>) -> Seq<char>;

/// Relies on `str::to_uppercase`: its result depends on the characters alone.
#[verifier::external_body]
fn uppercase(s: &str) -> (r: String)
    ensures
        r@ == upper_of(s@),
{
    s.to_uppercase()
}

pub open spec fn market_of_label(upper: Seq<char>) -> MarketType {
    if upper == "FUTURES"@ {
        MarketType::Futures
    } else {
        MarketType::Spot
    }
}

/// The market an upper-cased label names: `FUTURES` is the derivatives
/// market, anything else spot.
pub fn market_type_from_label(upper: &str) -> (r: MarketType)
    ensures
        r == market_of_label(upper@),
{
    if str_eq(upper, "FUTURES") {
        MarketType::Futures
    } else {
        MarketType::Spot
    }
}

/// Whether two strings hold the same characters.
pub fn str_eq(a: &str, b: &str) -> (r: bool)
    ensures
        r == (a@ == b@),
{
    let n = a.unicode_len();
    if n != b.unicode_len() {
        return false;
    }
    let mut i: usize = 0;
    while i < n
        invariant
            i <= n,
            n == a@.len(),
            n == b@.len(),
            forall|j: int| 0 <= j < i ==> a@[j] == b@[j],
        decreases n - i,
    {
        if a.get_char(i) != b.get_char(i) {
            return false;
        }
        i = i + 1;
    }
    assert(a@ =~= b@);
    true
}

/// Reads a `MARKET:SYMBOL` pair such as `spot:BTCUSDT`: exactly one colon;
/// the market label compares case-insensitively with `FUTURES` (else spot).
pub fn parse_symbol_spec(spec: &str) -> (r: Option<(MarketType, String)>)
    ensures
        r.is_some() == (colon_count(spec@) == 1),
        r.is_some() ==> exists|k: int|
            0 <= k < spec@.len() && spec@[k] == ':' && r.unwrap().0 == market_of_label(
                upper_of(spec@.take(k)),
            ) && r.unwrap().1@ == spec@.skip(k + 1),
{
    let n = spec.unicode_len();
    let mut colons: usize = 0;
    let mut first: usize = n;
    let mut i: usize = 0;
    while i < n
        invariant
            i <= n,
            n == spec@.len(),
            colons as nat == colon_count(spec@.take(i as int)),
            colons <= i,
            colons == 0 ==> first == n,
            colons > 0 ==> first < i && spec@[first as int] == ':',
        decreases n - i,
    {
        assert(spec@.take(i + 1).drop_last() =~= spec@.take(i as int));
        if spec.get_char(i) == ':' {
            if colons == 0 {
                first = i;
            }
            colons = colons + 1;
        }
        i = i + 1;
    }
    assert(spec@.take(n as int) =~= spec@);
    if colons != 1 {
        return None;
    }
    let label = spec.substring_char(0, first);
    let symbol = spec.substring_char(first + 1, n);
    let upper = uppercase(label);
    let market = market_type_from_label(upper.as_str());
    Some((market, String::from_str(symbol)))
}

} // verus!
