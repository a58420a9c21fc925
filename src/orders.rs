//! Planning of live orders: what a signal becomes on the exchange given the
//! account's balances. Quantities go out truncated to five decimal places;
//! orders worth less than 5 USDT are skipped; a buy the USDT balance cannot
//! cover, or a sell larger than the BTC balance, is clamped to the balance.
use vstd::prelude::*;
use crate::decimal::SCALE;
use crate::signal::Signal;

verus! {

/// Smallest order value the exchange accepts: 5 USDT, in units of 10^-8.
pub const MIN_NOTIONAL: u64 = 500_000_000;

/// Quantity step of five decimal places, in units of 10^-8.
pub const QTY_STEP: u64 = 1_000;

/// Price assumed for a signal without one: 90 000 USDT.
pub const DEFAULT_PRICE: u64 = 9_000_000_000_000;

/// What is sent to the exchange for a signal.
#[derive(Clone, Debug)]
pub enum LiveOrder {
    Skip,
    MarketBuy { symbol: String, qty: u64 },
    MarketSell { symbol: String, qty: u64 },
    Cancel { symbol: String, order_id: u64 },
}

pub open spec fn pow10(n: nat) -> nat
    decreases n,
{
    if n == 0 {
        1
    } else {
        10 * pow10((n - 1) as nat)
    }
}

/// `qty` truncated toward zero to `decimals` decimal places.
pub open spec fn truncated(qty: nat, decimals: nat) -> nat {
    let step = pow10((8 - decimals) as nat);
    (qty - qty % step) as nat
}

pub open spec fn value_of(qty: nat, price: nat) -> nat {
    qty * price / (SCALE as nat)
}

/// USDT a buy needs, with 0.1 % kept for the fee.
pub open spec fn required_usdt(qty: nat, price: nat) -> nat {
    value_of(qty, price) + value_of(qty, price) / 1000
}

/// The largest five-decimal quantity that 99.5 % of `usdt` buys at `price`.
pub open spec fn affordable_qty(usdt: nat, price: nat) -> nat {
    truncated(usdt * 995 / 1000 * (SCALE as nat) / price, 5)
}

pub open spec fn est_price(price: Option<u64>) -> nat {
    match price {
        Some(p) => p as nat,
        None => DEFAULT_PRICE as nat,
    }
}

/// The order planned for `signal` given the balances (units of 10^-8).
pub open spec fn plan_spec(signal: Signal, usdt: nat, btc: nat) -> LiveOrder {
    match signal {
        Signal::Buy { symbol, price, quantity } => {
            let p = est_price(price);
            if usdt < required_usdt(quantity as nat, p) {
                let q = affordable_qty(usdt, p);
                if value_of(q, p) < MIN_NOTIONAL || q < QTY_STEP || q > u64::MAX {
                    LiveOrder::Skip
                } else {
                    LiveOrder::MarketBuy { symbol, qty: q as u64 }
                }
            } else {
                let q = truncated(quantity as nat, 5);
                if value_of(q, p) < MIN_NOTIONAL {
                    LiveOrder::Skip
                } else {
                    LiveOrder::MarketBuy { symbol, qty: q as u64 }
                }
            }
        },
        Signal::Sell { symbol, price, quantity } => {
            let p = est_price(price);
            if btc < quantity {
                let q = truncated(btc, 5);
                if btc < QTY_STEP || value_of(q, p) < MIN_NOTIONAL {
                    LiveOrder::Skip
                } else {
                    LiveOrder::MarketSell { symbol, qty: q as u64 }
                }
            } else {
                let q = truncated(quantity as nat, 5);
                if value_of(q, p) < MIN_NOTIONAL {
                    LiveOrder::Skip
                } else {
                    LiveOrder::MarketSell { symbol, qty: q as u64 }
                }
            }
        },
        Signal::Cancel { symbol, order_id } => LiveOrder::Cancel { symbol, order_id },
    }
}

/// Truncates `qty` (units of 10^-8) toward zero to `decimals` decimal places.
pub fn truncate_qty(qty: u64, decimals: u32) -> (r: u64)
    requires
        decimals <= 8,
    ensures
        r == truncated(qty as nat, decimals as nat),
        r <= qty,
{
    let mut step: u64 = 1;
    let mut k: u32 = decimals;
    while k < 8
        invariant
            decimals <= k <= 8,
            step as nat == pow10((k - decimals) as nat),
            1 <= step <= 100_000_000,
        decreases 8 - k,
    {
        proof {
            lemma_pow10_le((k - decimals + 1) as nat, (8 - decimals) as nat);
            lemma_pow10_8();
            lemma_pow10_le((8 - decimals) as nat, 8);
        }
        step = step * 10;
        k = k + 1;
    }
    assert(qty % step <= qty) by (nonlinear_arith)
        requires step >= 1;
    qty - qty % step
}

/// The order to send for `signal` given the USDT and BTC balances, all in
/// units of 10^-8 (see `plan_spec`).
pub fn plan_live_order(signal: &Signal, usdt_balance: u64, btc_balance: u64) -> (r: LiveOrder)
    ensures
        r == plan_spec(*signal, usdt_balance as nat, btc_balance as nat),
{
    proof {
        reveal_with_fuel(pow10, 4);
    }
    let scale: u128 = SCALE as u128;
    match signal {
        Signal::Buy { symbol, price, quantity } => {
            let p: u64 = match price {
                Some(p) => *p,
                None => DEFAULT_PRICE,
            };
            proof {
                lemma_mul_fits(*quantity as nat, p as nat);
            }
            let v: u128 = (*quantity as u128 * p as u128) / scale;
            let required: u128 = v + v / 1000;
            if (usdt_balance as u128) < required {
                let budget: u128 = usdt_balance as u128 * 995 / 1000;
                proof {
                    assert(budget * scale <= u128::MAX) by (nonlinear_arith)
                        requires budget <= 0xffff_ffff_ffff_ffffu128, scale == 100_000_000;
                }
                let raw: u128 = budget * scale / (p as u128);
                let q: u128 = raw - raw % (QTY_STEP as u128);
                if q > u64::MAX as u128 {
                    return LiveOrder::Skip;
                }
                proof {
                    lemma_mul_fits(q as nat, p as nat);
                }
                let value: u128 = q * (p as u128) / scale;
                if value < MIN_NOTIONAL as u128 || q < QTY_STEP as u128 {
                    return LiveOrder::Skip;
                }
                LiveOrder::MarketBuy { symbol: symbol.clone(), qty: q as u64 }
            } else {
                let q: u64 = truncate_qty(*quantity, 5);
                proof {
                    lemma_mul_fits(q as nat, p as nat);
                }
                let value: u128 = q as u128 * p as u128 / scale;
                if value < MIN_NOTIONAL as u128 {
                    return LiveOrder::Skip;
                }
                LiveOrder::MarketBuy { symbol: symbol.clone(), qty: q }
            }
        },
        Signal::Sell { symbol, price, quantity } => {
            let p: u64 = match price {
                Some(p) => *p,
                None => DEFAULT_PRICE,
            };
            let q: u64 = if btc_balance < *quantity {
                truncate_qty(btc_balance, 5)
            } else {
                truncate_qty(*quantity, 5)
            };
            if btc_balance < *quantity && btc_balance < QTY_STEP {
                return LiveOrder::Skip;
            }
            proof {
                lemma_mul_fits(q as nat, p as nat);
            }
            let value: u128 = q as u128 * p as u128 / scale;
            if value < MIN_NOTIONAL as u128 {
                return LiveOrder::Skip;
            }
            LiveOrder::MarketSell { symbol: symbol.clone(), qty: q }
        },
        Signal::Cancel { symbol, order_id } => LiveOrder::Cancel {
            symbol: symbol.clone(),
            order_id: *order_id,
        },
    }
}

/// No order goes out worth less than 5 USDT at its estimated price, nor with
/// a quantity finer than five decimal places: smaller ones are skipped.
pub proof fn lemma_sent_orders_meet_minimum(signal: Signal, usdt: nat, btc: nat)
    ensures
        match plan_spec(signal, usdt, btc) {
            LiveOrder::MarketBuy { qty, .. } => {
                &&& value_of(qty as nat, est_price(signal->Buy_price)) >= MIN_NOTIONAL
                &&& qty % QTY_STEP == 0
            },
            LiveOrder::MarketSell { qty, .. } => {
                &&& value_of(qty as nat, est_price(signal->Sell_price)) >= MIN_NOTIONAL
                &&& qty % QTY_STEP == 0
            },
            _ => true,
        },
{
    match signal {
        Signal::Buy { price, quantity, .. } => {
            let p = est_price(price);
            if usdt < required_usdt(quantity as nat, p) {
                lemma_clamped_multiple(usdt, p);
            } else {
                lemma_truncated_fits(quantity);
            }
        },
        Signal::Sell { quantity, .. } => {
            if btc < quantity {
                lemma_truncated_multiple(btc);
                lemma_truncated_le(btc);
            } else {
                lemma_truncated_fits(quantity);
            }
        },
        _ => {},
    }
}

proof fn lemma_clamped_multiple(usdt: nat, p: nat)
    ensures
        affordable_qty(usdt, p) <= u64::MAX ==> (affordable_qty(usdt, p) as u64) % QTY_STEP == 0,
{
    let raw = usdt * 995 / 1000 * (SCALE as nat) / p;
    lemma_truncated_multiple(raw);
}

proof fn lemma_truncated_fits(q: u64)
    ensures
        truncated(q as nat, 5) <= q,
        (truncated(q as nat, 5) as u64) as nat == truncated(q as nat, 5),
        (truncated(q as nat, 5) as u64) % QTY_STEP == 0,
{
    lemma_truncated_multiple(q as nat);
    lemma_truncated_le(q as nat);
}

proof fn lemma_truncated_le(q: nat)
    ensures
        truncated(q, 5) <= q,
{
    reveal_with_fuel(pow10, 4);
    assert(pow10(3) == 1000);
    assert(q % 1000 <= q) by (nonlinear_arith);
    assert(truncated(q, 5) == (q - q % 1000) as nat);
}

/// A buy the USDT balance cannot cover is clamped to the affordable quantity,
/// not rejected, unless that quantity is worth less than 5 USDT (or is below
/// one step of five decimals).
pub proof fn lemma_unaffordable_buy_is_clamped(symbol: String, price: Option<u64>, quantity: u64, usdt: nat, btc: nat)
    requires
        usdt < required_usdt(quantity as nat, est_price(price)),
        value_of(affordable_qty(usdt, est_price(price)), est_price(price)) >= MIN_NOTIONAL,
        affordable_qty(usdt, est_price(price)) >= QTY_STEP,
        affordable_qty(usdt, est_price(price)) <= u64::MAX,
    ensures
        plan_spec(Signal::Buy { symbol, price, quantity }, usdt, btc) == (LiveOrder::MarketBuy {
            symbol,
            qty: affordable_qty(usdt, est_price(price)) as u64,
        }),
{
}

proof fn lemma_truncated_multiple(q: nat)
    ensures
        truncated(q, 5) % (QTY_STEP as nat) == 0,
{
    reveal_with_fuel(pow10, 4);
    assert((q - q % 1000) % 1000 == 0) by (nonlinear_arith);
}

proof fn lemma_mul_fits(a: nat, b: nat)
    requires
        a <= u64::MAX,
        b <= u64::MAX,
    ensures
        a * b <= u128::MAX,
{
    assert(a * b <= (u64::MAX as nat) * (u64::MAX as nat)) by (nonlinear_arith)
        requires a <= u64::MAX, b <= u64::MAX;
}

proof fn lemma_pow10_8()
    ensures
        pow10(8) == 100_000_000,
{
    reveal_with_fuel(pow10, 9);
}

proof fn lemma_pow10_le(a: nat, b: nat)
    requires
        a <= b,
    ensures
        pow10(a) <= pow10(b),
    decreases b,
{
    if a < b {
        lemma_pow10_le(a, (b - 1) as nat);
    }
}

} // verus!
