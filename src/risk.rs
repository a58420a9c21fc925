//! The risk manager: reshapes risk scores and picks the single best trade.
use vstd::prelude::*;
use crate::signal::{Opportunity, RiskReport, Signal, SCORE_ONE};

verus! {

/// Portfolio risk when more than `CROWDED` candidates compete (0.8).
pub const HIGH_TOTAL_RISK: u64 = 800_000;

/// Portfolio risk otherwise (0.3).
pub const LOW_TOTAL_RISK: u64 = 300_000;

/// Number of candidates above which the portfolio counts as stressed.
pub const CROWDED: usize = 5;

/// Leverage risk (0.1).
pub const LEVERAGE_RISK: u64 = 100_000;

/// Total risk above which a drawdown warning is raised (0.7).
pub const DRAWDOWN_LIMIT: u64 = 700_000;

/// Score above which an opportunity counts as high-confidence (0.8).
pub const CONFIDENT_SCORE: u64 = 800_000;

/// Risk score below which an opportunity may be traded (0.5).
pub const MAX_TRADABLE_RISK: u64 = 500_000;

/// Recommended maximum order size, 0.005 in units of 10^-8.
pub const RECOMMENDED_MAX_SIZE: u64 = 500_000;

pub struct RiskManager;

pub open spec fn total_risk_for(n: nat) -> u64 {
    if n > CROWDED {
        HIGH_TOTAL_RISK
    } else {
        LOW_TOTAL_RISK
    }
}

pub open spec fn report_for(n: nat) -> RiskReport {
    RiskReport {
        total_risk: total_risk_for(n),
        leverage_risk: LEVERAGE_RISK,
        drawdown_warning: total_risk_for(n) > DRAWDOWN_LIMIT,
        recommended_max_size: RECOMMENDED_MAX_SIZE,
    }
}

/// A risk score after adjustment: times 0.8 for a high-confidence score, then
/// times 1.5 under a drawdown warning, each rounded down to a millionth.
pub open spec fn adjusted_risk(score: u64, risk: u64, warning: bool) -> int {
    let r1: int = if score > CONFIDENT_SCORE {
        (risk as int) * 4 / 5
    } else {
        risk as int
    };
    if warning {
        r1 * 3 / 2
    } else {
        r1
    }
}

/// `o` with its risk score adjusted and everything else kept.
pub open spec fn adjusted(o: Opportunity, warning: bool) -> Opportunity {
    Opportunity { risk_score: adjusted_risk(o.score, o.risk_score, warning) as u64, ..o }
}

pub open spec fn tradable(o: Opportunity) -> bool {
    o.risk_score < MAX_TRADABLE_RISK
}

/// `s[i]` is the tradable opportunity with the highest score, the first one
/// seen among equals.
pub open spec fn is_best_at(s: Seq<Opportunity>, i: int) -> bool {
    &&& 0 <= i < s.len()
    &&& tradable(s[i])
    &&& forall|j: int| 0 <= j < s.len() && tradable(#[trigger] s[j]) ==> s[j].score <= s[i].score
    &&& forall|j: int| 0 <= j < i && tradable(#[trigger] s[j]) ==> s[j].score < s[i].score
}

impl RiskManager {
    /// Adjusts every opportunity's risk score (see `adjusted_risk`) and reports
    /// the portfolio risk: 0.8 with more than five candidates, else 0.3; a
    /// drawdown warning above 0.7.
    pub fn analyze_opportunities(opportunities: &Vec<Opportunity>) -> (r: (Vec<Opportunity>, RiskReport))
        requires
            forall|i: int| 0 <= i < opportunities@.len() ==> (#[trigger] opportunities@[i]).bounded(),
        ensures
            r.1 == report_for(opportunities@.len()),
            r.0@.len() == opportunities@.len(),
            forall|i: int| 0 <= i < opportunities@.len() ==> #[trigger] r.0@[i] == adjusted(
                opportunities@[i],
                r.1.drawdown_warning,
            ),
    {
        let total_risk: u64 = if opportunities.len() > CROWDED {
            HIGH_TOTAL_RISK
        } else {
            LOW_TOTAL_RISK
        };
        let drawdown_warning = total_risk > DRAWDOWN_LIMIT;
        let report = RiskReport {
            total_risk,
            leverage_risk: LEVERAGE_RISK,
            drawdown_warning,
            recommended_max_size: RECOMMENDED_MAX_SIZE,
        };
        let mut out: Vec<Opportunity> = Vec::new();
        let mut i: usize = 0;
        while i < opportunities.len()
            invariant
                i <= opportunities@.len(),
                out@.len() == i,
                drawdown_warning == report.drawdown_warning,
                forall|k: int| 0 <= k < opportunities@.len() ==> (#[trigger] opportunities@[k]).bounded(),
                forall|k: int| 0 <= k < i ==> #[trigger] out@[k] == adjusted(opportunities@[k], drawdown_warning),
            decreases opportunities@.len() - i,
        {
            let o = &opportunities[i];
            assert(o.bounded());
            let mut risk: u64 = o.risk_score;
            if o.score > CONFIDENT_SCORE {
                risk = risk * 4 / 5;
            }
            if drawdown_warning {
                risk = risk * 3 / 2;
            }
            let next = Opportunity {
                id: o.id.clone(),
                signal: o.signal.duplicate(),
                score: o.score,
                risk_score: risk,
                reason: o.reason.clone(),
                timestamp: o.timestamp,
            };
            assert(next == adjusted(opportunities@[i as int], drawdown_warning));
            out.push(next);
            i = i + 1;
        }
        (out, report)
    }

    /// The signal of the tradable opportunity (risk score below 0.5) with the
    /// highest score, the first one seen among equals; `None` when no
    /// opportunity is tradable.
    pub fn select_best_trade(opportunities: &Vec<Opportunity>) -> (r: Option<Signal>)
        ensures
            r.is_none() <==> forall|i: int| 0 <= i < opportunities@.len() ==> !tradable(
                #[trigger] opportunities@[i],
            ),
            r.is_some() ==> exists|i: int| is_best_at(opportunities@, i) && r == Some(
                opportunities@[i].signal,
            ),
    {
        let mut best: Option<usize> = None;
        let mut i: usize = 0;
        while i < opportunities.len()
            invariant
                i <= opportunities@.len(),
                match best {
                    None => forall|j: int| 0 <= j < i ==> !tradable(#[trigger] opportunities@[j]),
                    Some(b) => {
                        &&& b < i
                        &&& tradable(opportunities@[b as int])
                        &&& forall|j: int| 0 <= j < i && tradable(#[trigger] opportunities@[j])
                            ==> opportunities@[j].score <= opportunities@[b as int].score
                        &&& forall|j: int| 0 <= j < b && tradable(#[trigger] opportunities@[j])
                            ==> opportunities@[j].score < opportunities@[b as int].score
                    },
                },
            decreases opportunities@.len() - i,
        {
            let o = &opportunities[i];
            if o.risk_score < MAX_TRADABLE_RISK {
                match best {
                    None => {
                        best = Some(i);
                    },
                    Some(b) => {
                        if o.score > opportunities[b].score {
                            best = Some(i);
                        }
                    },
                }
            }
            i = i + 1;
        }
        match best {
            None => None,
            Some(b) => {
                assert(is_best_at(opportunities@, b as int));
                Some(opportunities[b].signal.duplicate())
            },
        }
    }
}

} // verus!
