use std::collections::HashMap;

use etoro_backend::strategy::Signal;
use etoro_backend::trader::positions_by_instrument;
use etoro_backend::trader::resolve_symbol;
use etoro_backend::trader::Decision;
use etoro_backend::trader::PortfolioPosition;
use etoro_backend::trader::Trader;
use etoro_backend::trader::TrailingStep;

fn instruments() -> HashMap<i64, String> {
    let mut m = HashMap::new();
    m.insert(100000, "BTC".to_string());
    m.insert(100001, "ETH".to_string());
    m
}

fn bot(window_size: usize, confirm: i8, allow_short: bool) -> Trader<f64> {
    Trader::new(instruments(), 50.0, 2, window_size, confirm, 1.5, 0.8, allow_short).unwrap()
}

fn position(position_id: i64, instrument_id: i64, is_buy: bool, open_rate: f64) -> PortfolioPosition<f64> {
    PortfolioPosition { position_id, instrument_id, is_buy, open_rate, is_tsl_enabled: false }
}

#[test]
fn no_instrument_no_bot() {
    let t: Option<Trader<f64>> = Trader::new(HashMap::new(), 50.0, 1, 10, 2, 1.0, 1.0, false);
    assert!(t.is_none());
}

#[test]
fn settings_are_kept() {
    let t = bot(30, 3, true);
    assert_eq!(t.amount(), 50.0);
    assert_eq!(t.leverage(), 2);
    assert_eq!(t.window_size(), 30);
    assert_eq!(t.confirm_required(), 3);
    assert_eq!(t.tsl_trigger_pct(), 1.5);
    assert_eq!(t.tsl_gap_pct(), 0.8);
    assert_eq!(t.tracked_count(), 0);
}

#[test]
fn instrument_ids_and_symbols() {
    let t = bot(10, 2, false);
    let mut ids = t.instrument_ids();
    ids.sort();
    assert_eq!(ids, vec![100000, 100001]);
    assert_eq!(t.symbol_of(100001), "ETH");
    assert_eq!(t.symbol_of(42), "");
}

#[test]
fn window_keeps_last_prices() {
    let mut t = bot(3, 2, false);
    assert_eq!(t.push_price(100000, 1.0), vec![1.0]);
    assert_eq!(t.push_price(100000, 2.0), vec![1.0, 2.0]);
    assert_eq!(t.push_price(100000, 3.0), vec![1.0, 2.0, 3.0]);
    assert_eq!(t.push_price(100000, 4.0), vec![2.0, 3.0, 4.0]);
    assert_eq!(t.push_price(100000, 5.0), vec![3.0, 4.0, 5.0]);
    // other instruments have their own window, even unknown ones
    assert_eq!(t.push_price(7, 9.0), vec![9.0]);
}

#[test]
fn window_of_size_zero_stays_empty() {
    let mut t = bot(0, 2, false);
    assert!(t.push_price(100000, 1.0).is_empty());
    assert!(t.push_price(100000, 2.0).is_empty());
}

#[test]
fn confirmation_counts_runs() {
    let mut t = bot(10, 2, false);
    assert_eq!(t.record_signal(100000, Signal::Buy), 1);
    assert_eq!(t.record_signal(100000, Signal::Buy), 2);
    assert_eq!(t.record_signal(100000, Signal::Buy), 3);
    assert_eq!(t.record_signal(100000, Signal::Sell), -1);
    assert_eq!(t.record_signal(100000, Signal::Sell), -2);
    assert_eq!(t.record_signal(100000, Signal::Buy), 1);
    assert_eq!(t.record_signal(100000, Signal::Hold), 0);
    assert_eq!(t.record_signal(100001, Signal::Sell), -1);
}

#[test]
fn confirmation_count_saturates() {
    let mut t = bot(10, 2, false);
    let mut last = 0;
    for _ in 0..200 {
        last = t.record_signal(100000, Signal::Buy);
    }
    assert_eq!(last, 127);
    for _ in 0..200 {
        last = t.record_signal(100001, Signal::Sell);
    }
    assert_eq!(last, -128);
}

#[test]
fn waits_until_confirmed() {
    let mut t = bot(10, 2, false);
    assert!(matches!(t.decide(100000, 9.0, 10.0, None), Decision::Wait));
    t.record_signal(100000, Signal::Buy);
    assert!(matches!(t.decide(100000, 9.0, 10.0, None), Decision::Wait));
    t.record_signal(100000, Signal::Buy);
    match t.decide(100000, 9.0, 10.0, None) {
        Decision::Open { is_buy, entry } => {
            assert!(is_buy);
            assert_eq!(entry, 10.0);
        }
        _ => panic!("expected an opening"),
    }
}

#[test]
fn open_then_hold_then_close() {
    let mut t = bot(10, 2, false);
    t.record_signal(100000, Signal::Buy);
    t.record_signal(100000, Signal::Buy);
    t.on_order_placed(100000, true, 10.0);
    assert_eq!(t.tracked_count(), 1);
    // count reset: no immediate second order
    assert!(matches!(t.decide(100000, 9.0, 10.0, None), Decision::Wait));
    t.record_signal(100000, Signal::Buy);
    t.record_signal(100000, Signal::Buy);
    assert!(matches!(t.decide(100000, 9.0, 10.0, None), Decision::AlreadyPositioned));
    t.record_signal(100000, Signal::Sell);
    t.record_signal(100000, Signal::Sell);
    assert!(matches!(t.decide(100000, 9.0, 10.0, None), Decision::CloseDeferred));
    assert!(matches!(
        t.decide(100000, 9.0, 10.0, Some(555)),
        Decision::Close { position_id: 555 }
    ));
    t.on_position_closed(100000);
    assert_eq!(t.tracked_count(), 0);
    assert!(matches!(t.decide(100000, 9.0, 10.0, Some(555)), Decision::Wait));
}

#[test]
fn shorts_only_when_allowed() {
    let mut t = bot(10, 2, false);
    t.record_signal(100000, Signal::Sell);
    t.record_signal(100000, Signal::Sell);
    assert!(matches!(t.decide(100000, 9.0, 10.0, None), Decision::ShortsDisabled));

    let mut s = bot(10, 2, true);
    s.record_signal(100000, Signal::Sell);
    s.record_signal(100000, Signal::Sell);
    match s.decide(100000, 9.0, 10.0, None) {
        Decision::Open { is_buy, entry } => {
            assert!(!is_buy);
            assert_eq!(entry, 9.0);
        }
        _ => panic!("expected a short"),
    }
}

#[test]
fn zero_threshold_favours_buy() {
    let t = bot(10, 0, true);
    match t.decide(100000, 9.0, 10.0, None) {
        Decision::Open { is_buy, .. } => assert!(is_buy),
        _ => panic!("expected an opening"),
    }
}

#[test]
fn trailing_switch_happens_once() {
    let mut t = bot(10, 2, false);
    assert!(t.trailing_candidate(100000).is_none());
    t.on_order_placed(100000, true, 10.0);
    let c = t.trailing_candidate(100000).unwrap();
    assert!(c.is_buy);
    assert_eq!(c.entry, 10.0);
    assert!(!c.tsl_activated);
    t.on_trailing_answer(100000, false);
    assert!(t.trailing_candidate(100000).is_some());
    t.on_trailing_answer(100000, true);
    assert!(t.trailing_candidate(100000).is_none());
    t.on_trailing_answer(100001, true);
    assert!(t.trailing_candidate(100001).is_none());
    assert_eq!(t.tracked_count(), 1);
}

#[test]
fn reconcile_drops_closed_and_adopts_known() {
    let mut t = bot(10, 2, false);
    t.on_order_placed(100000, true, 10.0);
    let positions = vec![position(1, 100001, false, 20.0), position(2, 999, true, 1.0)];
    t.reconcile(&positions);
    assert_eq!(t.tracked_count(), 1);
    assert!(t.trailing_candidate(100000).is_none());
    let adopted = t.trailing_candidate(100001).unwrap();
    assert!(!adopted.is_buy);
    assert_eq!(adopted.entry, 20.0);
    // reconciling again changes nothing
    t.reconcile(&positions);
    assert_eq!(t.tracked_count(), 1);
    assert_eq!(t.trailing_candidate(100001).unwrap().entry, 20.0);
}

#[test]
fn reconcile_keeps_tracked_record() {
    let mut t = bot(10, 2, false);
    t.on_order_placed(100000, true, 10.0);
    t.reconcile(&vec![position(3, 100000, false, 11.0)]);
    let kept = t.trailing_candidate(100000).unwrap();
    assert!(kept.is_buy);
    assert_eq!(kept.entry, 10.0);
}

#[test]
fn reconcile_adopts_trailing_state() {
    let mut t = bot(10, 2, false);
    let mut p = position(3, 100000, true, 11.0);
    p.is_tsl_enabled = true;
    t.reconcile(&vec![p]);
    assert_eq!(t.tracked_count(), 1);
    assert!(t.trailing_candidate(100000).is_none());
}

#[test]
fn later_position_wins() {
    let m = positions_by_instrument(&vec![position(1, 5, true, 1.0), position(2, 5, false, 2.0), position(3, 6, true, 3.0)]);
    assert_eq!(m.len(), 2);
    assert_eq!(m[&5].position_id, 2);
    assert_eq!(m[&6].position_id, 3);
}

#[test]
fn resolve_first_exact_match() {
    let results = vec![
        (1, "BTCUSD".to_string()),
        (2, "BTC".to_string()),
        (3, "BTC".to_string()),
    ];
    assert_eq!(resolve_symbol(&results, "BTC"), Some(2));
    assert_eq!(resolve_symbol(&results, "btc"), None);
    assert_eq!(resolve_symbol(&Vec::new(), "BTC"), None);
}

#[test]
fn trailing_steps() {
    let mut t = bot(10, 2, false);
    assert_eq!(t.trailing_step(100000, true, Some(9)), TrailingStep::Skip);
    t.on_order_placed(100000, true, 10.0);
    assert_eq!(t.trailing_step(100000, false, Some(9)), TrailingStep::Skip);
    assert_eq!(t.trailing_step(100000, true, None), TrailingStep::PositionUnknown);
    assert_eq!(t.trailing_step(100000, true, Some(9)), TrailingStep::Switch { position_id: 9 });
    t.on_trailing_answer(100000, true);
    assert_eq!(t.trailing_step(100000, true, Some(9)), TrailingStep::Skip);
}

#[test]
fn empty_portfolio_keeps_local_records() {
    let mut t = bot(10, 2, false);
    t.on_order_placed(100000, true, 10.0);
    let by = t.apply_portfolio(&Vec::new());
    assert!(by.is_empty());
    assert_eq!(t.tracked_count(), 1);
    let by = t.apply_portfolio(&vec![position(4, 100001, true, 3.0)]);
    assert_eq!(by.len(), 1);
    assert_eq!(by[&100001].position_id, 4);
    assert_eq!(t.tracked_count(), 1);
    assert!(t.trailing_candidate(100000).is_none());
    assert!(t.trailing_candidate(100001).is_some());
}

#[test]
fn order_shapes() {
    let t = bot(10, 2, false);
    let o = t.opening_order(100000, false, 11.5);
    assert_eq!(o.instrument_id, 100000);
    assert!(!o.is_buy);
    assert_eq!(o.leverage, 2);
    assert_eq!(o.amount, Some(50.0));
    assert_eq!(o.units, None);
    assert_eq!(o.stop_loss_rate, Some(11.5));
    assert_eq!(o.take_profit_rate, None);
    assert_eq!(o.is_tsl_enabled, None);
    assert_eq!(o.is_no_take_profit, Some(true));
    let c = t.closing_order(100001);
    assert_eq!(c.instrument_id, 100001);
    assert_eq!(c.units_to_deduct, None);
}

#[test]
fn window_from_a_partial_window() {
    let mut t = bot(3, 2, false);
    t.push_price(100000, 1.0);
    t.push_price(100000, 2.0);
    let mut last = Vec::new();
    for p in [3.0, 4.0, 5.0, 6.0] {
        last = t.push_price(100000, p);
        assert!(last.len() <= 3);
    }
    assert_eq!(last, vec![4.0, 5.0, 6.0]);
}
