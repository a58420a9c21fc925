use trading_engine::risk::RiskManager;
use trading_engine::signal::{Opportunity, Signal};

fn opp(sym: &str, score: u64, risk: u64) -> Opportunity {
    Opportunity {
        id: format!("id_{}", sym),
        signal: Signal::Buy { symbol: sym.to_string(), price: Some(100), quantity: 1 },
        score,
        risk_score: risk,
        reason: "test".to_string(),
        timestamp: 1,
    }
}

fn symbol_of(s: &Signal) -> String {
    match s {
        Signal::Buy { symbol, .. } | Signal::Sell { symbol, .. } | Signal::Cancel { symbol, .. } => symbol.clone(),
    }
}

#[test]
fn tie_goes_to_first_seen() {
    let opps = vec![opp("A", 900_000, 400_000), opp("B", 900_000, 600_000)];
    let (adj, report) = RiskManager::analyze_opportunities(&opps);
    assert_eq!(report.total_risk, 300_000);
    assert!(!report.drawdown_warning);
    assert_eq!(adj[0].risk_score, 320_000);
    assert_eq!(adj[1].risk_score, 480_000);
    let best = RiskManager::select_best_trade(&adj).unwrap();
    assert_eq!(symbol_of(&best), "A");
}

#[test]
fn select_best_on_empty_is_none() {
    assert!(RiskManager::select_best_trade(&vec![]).is_none());
}

#[test]
fn none_when_all_risky() {
    let opps = vec![opp("A", 500_000, 500_000), opp("B", 900_000, 700_000)];
    assert!(RiskManager::select_best_trade(&opps).is_none());
}

#[test]
fn highest_score_wins() {
    let opps = vec![opp("A", 300_000, 100_000), opp("B", 700_000, 400_000), opp("C", 800_000, 499_999)];
    assert_eq!(symbol_of(&RiskManager::select_best_trade(&opps).unwrap()), "C");
}

#[test]
fn crowded_book_raises_risk() {
    let opps: Vec<Opportunity> = (0..6).map(|i| opp(&format!("S{}", i), 500_000, 200_000)).collect();
    let (adj, report) = RiskManager::analyze_opportunities(&opps);
    assert_eq!(report.total_risk, 800_000);
    assert_eq!(report.leverage_risk, 100_000);
    assert!(report.drawdown_warning);
    assert_eq!(adj[0].risk_score, 300_000);
    let confident = vec![opp("X", 900_000, 400_000); 6];
    let (adj2, _) = RiskManager::analyze_opportunities(&confident);
    assert_eq!(adj2[0].risk_score, 480_000);
}
