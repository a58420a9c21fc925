//! What strategies emit: signals, and opportunities that carry them with a
//! score and a risk score.
use vstd::prelude::*;

verus! {

/// One whole score (1.0), in millionths: scores and risk scores count ppm.
pub const SCORE_ONE: u64 = 1_000_000;

/// A concrete trading intention. Prices and quantities are fixed-point units of
/// 10^-8 (see `decimal`).
#[derive(Clone, Debug)]
pub enum Signal {
    Buy { symbol: String, price: Option<u64>, quantity: u64 },
    Sell { symbol: String, price: Option<u64>, quantity: u64 },
    Cancel { symbol: String, order_id: u64 },
}

impl Signal {
    /// A copy of the signal.
    pub fn duplicate(&self) -> (r: Signal)
        ensures
            r == *self,
    {
        match self {
            Signal::Buy { symbol, price, quantity } => Signal::Buy {
                symbol: symbol.clone(),
                price: *price,
                quantity: *quantity,
            },
            Signal::Sell { symbol, price, quantity } => Signal::Sell {
                symbol: symbol.clone(),
                price: *price,
                quantity: *quantity,
            },
            Signal::Cancel { symbol, order_id } => Signal::Cancel {
                symbol: symbol.clone(),
                order_id: *order_id,
            },
        }
    }
}

/// A candidate order with scoring metadata. `score` and `risk_score` count
/// millionths; as emitted by a strategy both lie in `[0, SCORE_ONE]`.
#[derive(Clone, Debug)]
pub struct Opportunity {
    pub id: String,
    pub signal: Signal,
    pub score: u64,
    pub risk_score: u64,
    pub reason: String,
    pub timestamp: u64,
}

impl Opportunity {
    pub open spec fn bounded(&self) -> bool {
        self.score <= SCORE_ONE && self.risk_score <= SCORE_ONE
    }
}

/// The portfolio-level assessment made alongside adjusted opportunities; risks
/// count millionths, `recommended_max_size` units of 10^-8.
#[derive(Clone, Debug)]
pub struct RiskReport {
    pub total_risk: u64,
    pub leverage_risk: u64,
    pub drawdown_warning: bool,
    pub recommended_max_size: u64,
}

} // verus!
