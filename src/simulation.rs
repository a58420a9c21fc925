//! The simulated execution ledger: balances of the quote asset (USDT) and the
//! base asset (BTC), open positions by symbol, a 0.1 % fee on both sides and
//! realized profit on sells. Amounts are fixed-point units of 10^-8.
use vstd::prelude::*;
use crate::decimal::SCALE;
use crate::downloader::MarketType;
use crate::futures::PositionSide;
use crate::signal::Signal;

verus! {

/// Starting quote balance: 10 000 USDT.
pub const INITIAL_USDT: u64 = 1_000_000_000_000;

/// Fee divisor: the fee is one thousandth (0.1 %) of the notional.
pub const FEE_DIVISOR: u64 = 1_000;

/// Positions whose remaining amount falls below this (10^-6) are closed.
pub const DUST: u64 = 100;

#[derive(Clone, Debug)]
pub struct PositionInfo {
    pub symbol: String,
    pub amount: u64,
    pub entry_price: u64,
    pub unrealized_pnl: i64,
    pub market_type: MarketType,
    pub side: PositionSide,
}

pub struct SimulationExecutor {
    pub usdt: u64,
    pub btc: u64,
    pub positions: Vec<PositionInfo>,
}

/// Price times quantity, in units of 10^-8, rounded down.
pub open spec fn notional(qty: u64, price: u64) -> nat {
    (qty as nat * price as nat) / (SCALE as nat)
}

pub open spec fn fee_of(n: nat) -> nat {
    n / (FEE_DIVISOR as nat)
}

/// What a buy costs: its notional plus the fee.
pub open spec fn buy_cost(qty: u64, price: u64) -> nat {
    notional(qty, price) + fee_of(notional(qty, price))
}

/// What a sell credits: its notional less the fee.
pub open spec fn sell_credit(qty: u64, price: u64) -> nat {
    (notional(qty, price) - fee_of(notional(qty, price))) as nat
}

/// Value of the holdings at a mark price, in units of 10^-16.
pub open spec fn value_at(usdt: nat, btc: nat, mark: nat) -> int {
    (usdt * (SCALE as nat) + btc * mark) as int
}

pub open spec fn holds_at(s: Seq<PositionInfo>, sym: Seq<char>, i: int) -> bool {
    0 <= i < s.len() && s[i].symbol@ == sym
}

/// Index of the position on `sym`, or -1.
pub open spec fn position_index(s: Seq<PositionInfo>, sym: Seq<char>) -> int {
    if exists|i: int| holds_at(s, sym, i) {
        choose|i: int| holds_at(s, sym, i)
    } else {
        -1
    }
}

pub open spec fn unique_symbols(s: Seq<PositionInfo>) -> bool {
    forall|i: int, j: int|
        #![trigger s[i], s[j]]
        0 <= i < s.len() && 0 <= j < s.len() && i != j ==> s[i].symbol@ != s[j].symbol@
}

/// Cost of an existing position plus `cost`: `amount × entry + cost`.
pub open spec fn blended_cost(p: PositionInfo, cost: nat) -> nat {
    (p.amount as nat * p.entry_price as nat) / (SCALE as nat) + cost
}

/// Entry price of `total_cost` spread over `amount`.
pub open spec fn entry_of(total_cost: nat, amount: nat) -> nat {
    if amount == 0 {
        0
    } else {
        (total_cost * (SCALE as nat)) / amount
    }
}

/// Whether the ledger can record a buy of `qty` at `price` on `sym`: a price is
/// known, the quantity is not zero, the quote balance covers the cost, and the
/// new amounts and entry price fit the ledger's integers.
pub open spec fn buy_fits(l: &SimulationExecutor, sym: Seq<char>, qty: u64, price: u64) -> bool {
    let cost = buy_cost(qty, price);
    let k = position_index(l.positions@, sym);
    &&& price > 0
    &&& qty > 0
    &&& cost <= l.usdt
    &&& l.btc + qty <= u64::MAX
    &&& if k >= 0 {
        let p = l.positions@[k];
        &&& p.amount + qty <= u64::MAX
        &&& blended_cost(p, cost) * (SCALE as nat) <= u128::MAX
        &&& entry_of(blended_cost(p, cost), (p.amount + qty) as nat) <= u64::MAX
    } else {
        entry_of(cost, qty as nat) <= u64::MAX
    }
}

/// Whether the ledger can record a sell of `qty` at `price`: a price is known,
/// the base balance covers the quantity and the credit fits.
pub open spec fn sell_fits(l: &SimulationExecutor, qty: u64, price: u64) -> bool {
    &&& price > 0
    &&& qty <= l.btc
    &&& l.usdt + sell_credit(qty, price) <= u64::MAX
}

/// Realized profit of selling `qty` out of position `p`: the credit less the
/// entry cost of what was sold.
pub open spec fn realized(p: PositionInfo, qty: u64, price: u64) -> int {
    sell_credit(qty, price) as int - ((p.entry_price as nat * qty as nat) / (SCALE as nat)) as int
}

pub open spec fn remaining(p: PositionInfo, qty: u64) -> nat {
    if p.amount >= qty {
        (p.amount - qty) as nat
    } else {
        0
    }
}

pub open spec fn price_or_zero(price: Option<u64>) -> u64 {
    match price {
        Some(p) => p,
        None => 0,
    }
}

impl SimulationExecutor {
    pub open spec fn wf(&self) -> bool {
        unique_symbols(self.positions@)
    }

    /// A ledger holding 10 000 USDT, no BTC and no position.
    pub fn new() -> (r: Self)
        ensures
            r.wf(),
            r.usdt == INITIAL_USDT,
            r.btc == 0,
            r.positions@.len() == 0,
    {
        SimulationExecutor { usdt: INITIAL_USDT, btc: 0, positions: Vec::new() }
    }

    /// Balances by asset name: USDT, then BTC.
    pub fn get_balances(&self) -> (r: Vec<(String, u64)>)
        ensures
            r@.len() == 2,
            r@[0].0@ == "USDT"@,
            r@[0].1 == self.usdt,
            r@[1].0@ == "BTC"@,
            r@[1].1 == self.btc,
    {
        let mut r: Vec<(String, u64)> = Vec::new();
        r.push((String::from_str("USDT"), self.usdt));
        r.push((String::from_str("BTC"), self.btc));
        r
    }

    /// The open positions.
    pub fn get_positions(&self) -> (r: Vec<PositionInfo>)
        ensures
            r@ == self.positions@,
    {
        let mut r: Vec<PositionInfo> = Vec::new();
        let mut i: usize = 0;
        while i < self.positions.len()
            invariant
                i <= self.positions@.len(),
                r@ == self.positions@.take(i as int),
            decreases self.positions@.len() - i,
        {
            let p = &self.positions[i];
            let c = PositionInfo {
                symbol: p.symbol.clone(),
                amount: p.amount,
                entry_price: p.entry_price,
                unrealized_pnl: p.unrealized_pnl,
                market_type: p.market_type,
                side: p.side,
            };
            r.push(c);
            assert(self.positions@.take(i + 1) =~= self.positions@.take(i as int).push(c));
            i = i + 1;
        }
        assert(self.positions@.take(i as int) =~= self.positions@);
        r
    }

    fn find_position(&self, symbol: &String) -> (r: Option<usize>)
        requires
            self.wf(),
        ensures
            match r {
                Some(i) => i == position_index(self.positions@, symbol@) && i < self.positions@.len(),
                None => position_index(self.positions@, symbol@) == -1,
            },
    {
        let mut i: usize = 0;
        while i < self.positions.len()
            invariant
                i <= self.positions@.len(),
                self.wf(),
                forall|j: int| 0 <= j < i ==> !holds_at(self.positions@, symbol@, j),
            decreases self.positions@.len() - i,
        {
            if self.positions[i].symbol == *symbol {
                assert(holds_at(self.positions@, symbol@, i as int));
                let ghost k = position_index(self.positions@, symbol@);
                proof {
                    assert(holds_at(self.positions@, symbol@, k));
                    if k != i as int {
                        assert(self.positions@[k].symbol@ != self.positions@[i as int].symbol@);
                    }
                }
                return Some(i);
            }
            i = i + 1;
        }
        assert(!exists|j: int| holds_at(self.positions@, symbol@, j));
        None
    }

    /// Records a signal in the ledger and returns the profit it realized
    /// (units of 10^-8 USDT; 0 unless a sell reduced a position).
    ///
    /// A buy at a known non-zero price whose cost (notional plus 0.1 %) the USDT
    /// balance covers moves that cost from USDT to a position and credits the
    /// quantity in BTC; the position on the symbol takes the size-weighted
    /// average entry price, or a new one opens at cost over quantity. A sell at
    /// a known non-zero price of no more than the BTC balance debits BTC and
    /// credits the notional less 0.1 %; the position on the symbol shrinks by
    /// the quantity and closes below 10^-6, and the profit is the credit less
    /// entry price times quantity. Anything else, and a cancel, changes nothing.
    pub fn execute(&mut self, signal: &Signal) -> (pnl: i128)
        requires
            old(self).wf(),
        ensures
            final(self).wf(),
            match signal {
                Signal::Buy { symbol, price, quantity } => {
                    let p = price_or_zero(*price);
                    let cost = buy_cost(*quantity, p);
                    let k = position_index(old(self).positions@, symbol@);
                    &&& pnl == 0
                    &&& if buy_fits(old(self), symbol@, *quantity, p) {
                        &&& final(self).usdt == old(self).usdt - cost
                        &&& final(self).btc == old(self).btc + *quantity
                        &&& if k >= 0 {
                            let q = old(self).positions@[k];
                            final(self).positions@ == old(self).positions@.update(
                                k,
                                PositionInfo {
                                    amount: (q.amount + *quantity) as u64,
                                    entry_price: entry_of(
                                        blended_cost(q, cost),
                                        (q.amount + *quantity) as nat,
                                    ) as u64,
                                    ..q
                                },
                            )
                        } else {
                            final(self).positions@ == old(self).positions@.push(
                                PositionInfo {
                                    symbol: *symbol,
                                    amount: *quantity,
                                    entry_price: entry_of(cost, *quantity as nat) as u64,
                                    unrealized_pnl: 0,
                                    market_type: MarketType::Spot,
                                    side: PositionSide::Long,
                                },
                            )
                        }
                    } else {
                        &&& final(self).usdt == old(self).usdt
                        &&& final(self).btc == old(self).btc
                        &&& final(self).positions@ == old(self).positions@
                    }
                },
                Signal::Sell { symbol, price, quantity } => {
                    let p = price_or_zero(*price);
                    let k = position_index(old(self).positions@, symbol@);
                    if sell_fits(old(self), *quantity, p) {
                        &&& final(self).usdt == old(self).usdt + sell_credit(*quantity, p)
                        &&& final(self).btc == old(self).btc - *quantity
                        &&& if k >= 0 {
                            let q = old(self).positions@[k];
                            &&& pnl == realized(q, *quantity, p)
                            &&& if remaining(q, *quantity) < DUST {
                                final(self).positions@ == old(self).positions@.remove(k)
                            } else {
                                final(self).positions@ == old(self).positions@.update(
                                    k,
                                    PositionInfo { amount: remaining(q, *quantity) as u64, ..q },
                                )
                            }
                        } else {
                            &&& pnl == 0
                            &&& final(self).positions@ == old(self).positions@
                        }
                    } else {
                        &&& pnl == 0
                        &&& final(self).usdt == old(self).usdt
                        &&& final(self).btc == old(self).btc
                        &&& final(self).positions@ == old(self).positions@
                    }
                },
                Signal::Cancel { .. } => {
                    &&& pnl == 0
                    &&& final(self).usdt == old(self).usdt
                    &&& final(self).btc == old(self).btc
                    &&& final(self).positions@ == old(self).positions@
                },
            },
    {
        match signal {
            Signal::Buy { symbol, price, quantity } => {
                self.buy(symbol, price_value(*price), *quantity);
                0
            },
            Signal::Sell { symbol, price, quantity } => self.sell(symbol, price_value(*price), *quantity),
            Signal::Cancel { .. } => 0,
        }
    }

    fn buy(&mut self, symbol: &String, p: u64, q: u64)
        requires
            old(self).wf(),
        ensures
            final(self).wf(),
            ({
                let cost = buy_cost(q, p);
                let k = position_index(old(self).positions@, symbol@);
                if buy_fits(old(self), symbol@, q, p) {
                    &&& final(self).usdt == old(self).usdt - cost
                    &&& final(self).btc == old(self).btc + q
                    &&& if k >= 0 {
                        let o = old(self).positions@[k];
                        final(self).positions@ == old(self).positions@.update(
                            k,
                            PositionInfo {
                                amount: (o.amount + q) as u64,
                                entry_price: entry_of(blended_cost(o, cost), (o.amount + q) as nat) as u64,
                                ..o
                            },
                        )
                    } else {
                        final(self).positions@ == old(self).positions@.push(
                            PositionInfo {
                                symbol: *symbol,
                                amount: q,
                                entry_price: entry_of(cost, q as nat) as u64,
                                unrealized_pnl: 0,
                                market_type: MarketType::Spot,
                                side: PositionSide::Long,
                            },
                        )
                    }
                } else {
                    &&& final(self).usdt == old(self).usdt
                    &&& final(self).btc == old(self).btc
                    &&& final(self).positions@ == old(self).positions@
                }
            }),
    {
        if p == 0 || q == 0 {
            return;
        }
        let scale: u128 = SCALE as u128;
        proof {
            lemma_mul_fits(q as nat, p as nat);
        }
        let n: u128 = (q as u128 * p as u128) / scale;
        let cost: u128 = n + n / (FEE_DIVISOR as u128);
        assert(cost == buy_cost(q, p));
        if cost > self.usdt as u128 {
            return;
        }
        if self.btc > u64::MAX - q {
            return;
        }
        let cost64: u64 = cost as u64;
        match self.find_position(symbol) {
            Some(i) => {
                let o = &self.positions[i];
                if o.amount > u64::MAX - q {
                    return;
                }
                let amount: u64 = o.amount + q;
                proof {
                    lemma_mul_fits(o.amount as nat, o.entry_price as nat);
                }
                let total: u128 = (o.amount as u128 * o.entry_price as u128) / scale + cost;
                assert(total == blended_cost(*o, cost as nat));
                if total > u128::MAX / scale {
                    proof {
                        lemma_exceeds_after_scaling(total as nat);
                    }
                    return;
                }
                proof {
                    lemma_scaled_fits(total as nat);
                }
                let entry: u128 = total * scale / (amount as u128);
                if entry > u64::MAX as u128 {
                    return;
                }
                let updated = PositionInfo {
                    symbol: o.symbol.clone(),
                    amount,
                    entry_price: entry as u64,
                    unrealized_pnl: o.unrealized_pnl,
                    market_type: o.market_type,
                    side: o.side,
                };
                self.positions.set(i, updated);
                proof {
                    let s0 = old(self).positions@;
                    let s1 = self.positions@;
                    assert forall|a: int, b: int|
                        0 <= a < s1.len() && 0 <= b < s1.len() && a != b implies s1[a].symbol@
                        != s1[b].symbol@ by {
                        assert(s1[a].symbol@ == s0[a].symbol@);
                        assert(s1[b].symbol@ == s0[b].symbol@);
                    }
                }
            },
            None => {
                proof {
                    lemma_scaled_fits(cost as nat);
                }
                let entry: u128 = cost * scale / (q as u128);
                if entry > u64::MAX as u128 {
                    return;
                }
                let fresh = PositionInfo {
                    symbol: symbol.clone(),
                    amount: q,
                    entry_price: entry as u64,
                    unrealized_pnl: 0,
                    market_type: MarketType::Spot,
                    side: PositionSide::Long,
                };
                self.positions.push(fresh);
                proof {
                    let s0 = old(self).positions@;
                    let s1 = self.positions@;
                    assert(forall|j: int| 0 <= j < s0.len() ==> !holds_at(s0, symbol@, j));
                    assert forall|a: int, b: int|
                        0 <= a < s1.len() && 0 <= b < s1.len() && a != b implies s1[a].symbol@
                        != s1[b].symbol@ by {
                        if a < s0.len() && b < s0.len() {
                            assert(s1[a] == s0[a]);
                            assert(s1[b] == s0[b]);
                        } else if a < s0.len() {
                            assert(!holds_at(s0, symbol@, a));
                        } else {
                            assert(!holds_at(s0, symbol@, b));
                        }
                    }
                }
            },
        }
        self.usdt = self.usdt - cost64;
        self.btc = self.btc + q;
    }

    fn sell(&mut self, symbol: &String, p: u64, q: u64) -> (pnl: i128)
        requires
            old(self).wf(),
        ensures
            final(self).wf(),
            ({
                let k = position_index(old(self).positions@, symbol@);
                if sell_fits(old(self), q, p) {
                    &&& final(self).usdt == old(self).usdt + sell_credit(q, p)
                    &&& final(self).btc == old(self).btc - q
                    &&& if k >= 0 {
                        let o = old(self).positions@[k];
                        &&& pnl == realized(o, q, p)
                        &&& if remaining(o, q) < DUST {
                            final(self).positions@ == old(self).positions@.remove(k)
                        } else {
                            final(self).positions@ == old(self).positions@.update(
                                k,
                                PositionInfo { amount: remaining(o, q) as u64, ..o },
                            )
                        }
                    } else {
                        &&& pnl == 0
                        &&& final(self).positions@ == old(self).positions@
                    }
                } else {
                    &&& pnl == 0
                    &&& final(self).usdt == old(self).usdt
                    &&& final(self).btc == old(self).btc
                    &&& final(self).positions@ == old(self).positions@
                }
            }),
    {
        if p == 0 || self.btc < q {
            return 0;
        }
        let scale: u128 = SCALE as u128;
        proof {
            lemma_mul_fits(q as nat, p as nat);
        }
        let n: u128 = (q as u128 * p as u128) / scale;
        let credit: u128 = n - n / (FEE_DIVISOR as u128);
        assert(credit == sell_credit(q, p));
        if credit > (u64::MAX - self.usdt) as u128 {
            return 0;
        }
        self.usdt = self.usdt + credit as u64;
        self.btc = self.btc - q;
        let mut pnl: i128 = 0;
        match self.find_position(symbol) {
            Some(i) => {
                let o = &self.positions[i];
                proof {
                    lemma_mul_fits(o.entry_price as nat, q as nat);
                }
                let basis: u128 = (o.entry_price as u128 * q as u128) / scale;
                proof {
                    lemma_div_scale_small(o.entry_price as nat * q as nat);
                }
                pnl = credit as i128 - basis as i128;
                let left: u64 = if o.amount >= q {
                    o.amount - q
                } else {
                    0
                };
                if left < DUST {
                    self.positions.remove(i);
                    proof {
                        let s0 = old(self).positions@;
                        let s1 = self.positions@;
                        assert forall|a: int, b: int|
                            0 <= a < s1.len() && 0 <= b < s1.len() && a != b implies s1[a].symbol@
                            != s1[b].symbol@ by {
                            let a0 = if a < i { a } else { a + 1 };
                            let b0 = if b < i { b } else { b + 1 };
                            assert(s1[a] == s0[a0]);
                            assert(s1[b] == s0[b0]);
                        }
                    }
                } else {
                    let updated = PositionInfo {
                        symbol: o.symbol.clone(),
                        amount: left,
                        entry_price: o.entry_price,
                        unrealized_pnl: o.unrealized_pnl,
                        market_type: o.market_type,
                        side: o.side,
                    };
                    self.positions.set(i, updated);
                    proof {
                        let s0 = old(self).positions@;
                        let s1 = self.positions@;
                        assert forall|a: int, b: int|
                            0 <= a < s1.len() && 0 <= b < s1.len() && a != b implies s1[a].symbol@
                            != s1[b].symbol@ by {
                            assert(s1[a].symbol@ == s0[a].symbol@);
                            assert(s1[b].symbol@ == s0[b].symbol@);
                        }
                    }
                }
            },
            None => {},
        }
        pnl
    }
}

fn price_value(price: Option<u64>) -> (r: u64)
    ensures
        r == price_or_zero(price),
{
    match price {
        Some(p) => p,
        None => 0,
    }
}

proof fn lemma_mul_fits(a: nat, b: nat)
    requires
        a <= u64::MAX,
        b <= u64::MAX,
    ensures
        a * b <= u128::MAX,
{
    assert(a * b <= (u64::MAX as nat) * (u64::MAX as nat)) by (nonlinear_arith)
        requires a <= u64::MAX, b <= u64::MAX;
}

proof fn lemma_exceeds_after_scaling(t: nat)
    requires
        t > (u128::MAX as nat) / (SCALE as nat),
    ensures
        t * (SCALE as nat) > u128::MAX,
{
    assert(t * (SCALE as nat) > u128::MAX) by (nonlinear_arith)
        requires t > (u128::MAX as nat) / 100_000_000;
}

proof fn lemma_scaled_fits(t: nat)
    requires
        t <= (u128::MAX as nat) / (SCALE as nat),
    ensures
        t * (SCALE as nat) <= u128::MAX,
{
    assert(t * (SCALE as nat) <= u128::MAX) by (nonlinear_arith)
        requires t <= (u128::MAX as nat) / 100_000_000;
}

proof fn lemma_div_scale_small(x: nat)
    requires
        x <= u128::MAX,
    ensures
        x / (SCALE as nat) < 0x8000_0000_0000_0000_0000_0000_0000_0000,
{
}

/// Buying `qty` at `price` lowers the value of the holdings at mark `price` by
/// the fee, give or take the rounding of the notional, which is under one unit
/// of 10^-8.
pub proof fn lemma_buy_keeps_mark_value(usdt: nat, btc: nat, qty: u64, price: u64)
    requires
        buy_cost(qty, price) <= usdt,
    ensures
        ({
            let fee = fee_of(notional(qty, price)) as int;
            let before = value_at(usdt, btc, price as nat);
            let after = value_at((usdt - buy_cost(qty, price)) as nat, btc + qty as nat, price as nat);
            &&& before - fee * (SCALE as int) <= after
            &&& after < before - fee * (SCALE as int) + SCALE as int
        }),
{
    let x = qty as nat * price as nat;
    let n = notional(qty, price);
    assert(n * (SCALE as nat) <= x < n * (SCALE as nat) + (SCALE as nat)) by (nonlinear_arith)
        requires n == x / 100_000_000, SCALE == 100_000_000;
    assert((btc + qty) * (price as nat) == btc * (price as nat) + x) by (nonlinear_arith)
        requires x == qty as nat * price as nat;
    assert((usdt - buy_cost(qty, price)) as nat * (SCALE as nat) == usdt * (SCALE as nat) - n
        * (SCALE as nat) - fee_of(n) * (SCALE as nat)) by (nonlinear_arith)
        requires buy_cost(qty, price) <= usdt, buy_cost(qty, price) == n + fee_of(n);
}

/// Selling `qty` at `price` lowers the value of the holdings at mark `price` by
/// the fee, give or take the rounding of the notional, which is under one unit
/// of 10^-8.
pub proof fn lemma_sell_keeps_mark_value(usdt: nat, btc: nat, qty: u64, price: u64)
    requires
        qty <= btc,
    ensures
        ({
            let fee = fee_of(notional(qty, price)) as int;
            let before = value_at(usdt, btc, price as nat);
            let after = value_at(usdt + sell_credit(qty, price), (btc - qty) as nat, price as nat);
            &&& before - fee * (SCALE as int) - (SCALE as int) < after
            &&& after <= before - fee * (SCALE as int)
        }),
{
    let x = qty as nat * price as nat;
    let n = notional(qty, price);
    assert(n * (SCALE as nat) <= x < n * (SCALE as nat) + (SCALE as nat)) by (nonlinear_arith)
        requires n == x / 100_000_000, SCALE == 100_000_000;
    assert(fee_of(n) <= n);
    assert(((btc - qty) as nat) * (price as nat) == btc * (price as nat) - x) by (nonlinear_arith)
        requires qty <= btc, x == qty as nat * price as nat;
    assert((usdt + sell_credit(qty, price)) * (SCALE as nat) == usdt * (SCALE as nat) + n * (
    SCALE as nat) - fee_of(n) * (SCALE as nat)) by (nonlinear_arith)
        requires sell_credit(qty, price) == n - fee_of(n), fee_of(n) <= n;
}

} // verus!
