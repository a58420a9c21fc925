//! Account statistics over the exchange's trade history.
use vstd::prelude::*;
use crate::decimal::SCALE;

verus! {

/// Trades a statistics run takes at most, so that its sums stay exact.
pub const MAX_HISTORY_TRADES: usize = 1_000_000;

/// One trade of the account's history: price and quantity in units of 10^-8,
/// the commission in units of 10^-8 of its asset.
#[derive(Clone, Debug)]
pub struct TradeRecord {
    pub price: u64,
    pub qty: u64,
    pub commission: u64,
    pub commission_asset: String,
    pub is_buyer: bool,
}

/// Rolling counters over a trade history; volume in units of 10^-8 of the
/// quote asset.
#[derive(Clone, Debug)]
pub struct TradeStats {
    pub total_trades: u64,
    pub buy_trades: u64,
    pub sell_trades: u64,
    pub total_volume: u128,
    pub total_commission: u128,
    pub commission_asset: String,
}

pub open spec fn buys_in(s: Seq<TradeRecord>) -> nat
    decreases s.len(),
{
    if s.len() == 0 {
        0
    } else {
        buys_in(s.drop_last()) + if s.last().is_buyer { 1nat } else { 0 }
    }
}

/// Sum of price × quantity over the trades, each rounded down to a unit.
pub open spec fn volume_in(s: Seq<TradeRecord>) -> nat
    decreases s.len(),
{
    if s.len() == 0 {
        0
    } else {
        volume_in(s.drop_last()) + (s.last().price as nat * s.last().qty as nat) / (SCALE as nat)
    }
}

pub open spec fn commission_in(s: Seq<TradeRecord>) -> nat
    decreases s.len(),
{
    if s.len() == 0 {
        0
    } else {
        commission_in(s.drop_last()) + s.last().commission as nat
    }
}

proof fn lemma_buys_le(s: Seq<TradeRecord>)
    ensures
        buys_in(s) <= s.len(),
    decreases s.len(),
{
    if s.len() > 0 {
        lemma_buys_le(s.drop_last());
    }
}

/// Counts buys and sells, adds up volume and commission, and takes the
/// commission asset of the first trade (empty without trades).
pub fn trade_stats(trades: &Vec<TradeRecord>) -> (r: TradeStats)
    requires
        trades@.len() <= MAX_HISTORY_TRADES,
    ensures
        r.total_trades == trades@.len(),
        r.buy_trades == buys_in(trades@),
        r.sell_trades == trades@.len() - buys_in(trades@),
        r.total_volume == volume_in(trades@),
        r.total_commission == commission_in(trades@),
        trades@.len() > 0 ==> r.commission_asset@ == trades@[0].commission_asset@,
        trades@.len() == 0 ==> r.commission_asset@.len() == 0,
{
    let mut buys: u64 = 0;
    let mut volume: u128 = 0;
    let mut commission: u128 = 0;
    let mut i: usize = 0;
    while i < trades.len()
        invariant
            i <= trades@.len(),
            trades@.len() <= MAX_HISTORY_TRADES,
            buys == buys_in(trades@.take(i as int)),
            buys <= i,
            volume == volume_in(trades@.take(i as int)),
            volume <= i * 0x40_0000_0000_0000_0000_0000_0000u128,
            commission == commission_in(trades@.take(i as int)),
            commission <= i * 0x1_0000_0000_0000_0000u128,
        decreases trades@.len() - i,
    {
        let t = &trades[i];
        assert(trades@.take(i + 1).drop_last() =~= trades@.take(i as int));
        proof {
            let x = t.price as nat * t.qty as nat;
            assert(x <= (u64::MAX as nat) * (u64::MAX as nat)) by (nonlinear_arith)
                requires t.price <= u64::MAX, t.qty <= u64::MAX, x == t.price as nat * t.qty as nat;
            assert(x / 100_000_000 <= 0x40_0000_0000_0000_0000_0000_0000) by (nonlinear_arith)
                requires x <= (u64::MAX as nat) * (u64::MAX as nat);
            assert(SCALE as nat == 100_000_000);
            assert(i * 0x40_0000_0000_0000_0000_0000_0000u128 + 0x40_0000_0000_0000_0000_0000_0000u128
                == (i + 1) * 0x40_0000_0000_0000_0000_0000_0000u128) by (nonlinear_arith);
            assert(i * 0x1_0000_0000_0000_0000u128 + 0x1_0000_0000_0000_0000u128 == (i + 1)
                * 0x1_0000_0000_0000_0000u128) by (nonlinear_arith);
            assert((i + 1) * 0x40_0000_0000_0000_0000_0000_0000u128 <= 1_000_000 * 0x40_0000_0000_0000_0000_0000_0000u128) by (nonlinear_arith)
                requires i < 1_000_000;
        }
        if t.is_buyer {
            buys = buys + 1;
        }
        volume = volume + (t.price as u128 * t.qty as u128) / (SCALE as u128);
        commission = commission + t.commission as u128;
        i = i + 1;
    }
    assert(trades@.take(i as int) =~= trades@);
    proof {
        lemma_buys_le(trades@);
    }
    let asset = if trades.len() > 0 {
        trades[0].commission_asset.clone()
    } else {
        String::new()
    };
    TradeStats {
        total_trades: trades.len() as u64,
        buy_trades: buys,
        sell_trades: trades.len() as u64 - buys,
        total_volume: volume,
        total_commission: commission,
        commission_asset: asset,
    }
}

} // verus!
