use std::collections::VecDeque;

use ema_crossover::position::{CandleChecks, Direction, Outcome, Position, Tally};
use ema_crossover::window::{ema_stage, push_bounded, rsi_stage, seed_window, EmaStage, RsiStage};

fn checks(entry_in_spread: bool, take_profit_hit: bool, stop_loss_hit: bool) -> CandleChecks {
    CandleChecks { entry_in_spread, take_profit_hit, stop_loss_hit }
}

#[test]
fn bounded_history_keeps_newest() {
    let mut history: VecDeque<u32> = VecDeque::new();
    for v in 1..=4 {
        push_bounded(&mut history, v, 3);
    }
    assert_eq!(history, VecDeque::from(vec![4, 3, 2]));
}

#[test]
fn bounded_history_with_zero_limit_stays_empty() {
    let mut history: VecDeque<u32> = VecDeque::new();
    push_bounded(&mut history, 9, 0);
    assert!(history.is_empty());
}

#[test]
fn bounded_history_over_limit_shrinks_by_one() {
    let mut history: VecDeque<u32> = VecDeque::from(vec![5, 4, 3, 2, 1]);
    push_bounded(&mut history, 6, 3);
    assert_eq!(history, VecDeque::from(vec![6, 5, 4, 3, 2]));
}

#[test]
fn seed_window_reverses_first_prices() {
    let prices: VecDeque<f64> = VecDeque::from(vec![5.0, 4.0, 3.0, 2.0, 1.0]);
    assert_eq!(seed_window(&prices, 3), VecDeque::from(vec![3.0, 4.0, 5.0]));
    assert!(seed_window(&prices, 0).is_empty());
}

#[test]
fn ema_stages() {
    assert_eq!(ema_stage(0, 50, 50), EmaStage::Seed);
    assert_eq!(ema_stage(0, 49, 50), EmaStage::NotReady);
    assert_eq!(ema_stage(3, 10, 50), EmaStage::Smooth);
    assert_eq!(ema_stage(1, 0, 0), EmaStage::Smooth);
    assert_eq!(ema_stage(0, 0, 0), EmaStage::Seed);
}

#[test]
fn rsi_stages() {
    assert_eq!(rsi_stage(15, 14), RsiStage::Initial);
    assert_eq!(rsi_stage(16, 14), RsiStage::Update);
    assert_eq!(rsi_stage(14, 14), RsiStage::NotReady);
    assert_eq!(rsi_stage(0, 14), RsiStage::NotReady);
}

#[test]
fn signal_codes() {
    let flat = Position::new();
    assert_eq!(flat, Position::Flat);
    assert_eq!(flat.on_signal(1), Position::Entering(Direction::Long));
    assert_eq!(flat.on_signal(2), Position::Entering(Direction::Short));
    assert_eq!(flat.on_signal(3), Position::Flat);
    assert_eq!(flat.on_signal(0), Position::Flat);
}

#[test]
fn entry_outside_spread_cancels() {
    let p = Position::Entering(Direction::Long);
    assert_eq!(p.on_candle(checks(false, true, true)), (Position::Flat, Outcome::Cancelled(Direction::Long)));
}

#[test]
fn take_profit_wins_over_stop_loss() {
    let p = Position::Open(Direction::Short);
    assert_eq!(p.on_candle(checks(true, true, true)), (Position::Flat, Outcome::Won(Direction::Short)));
}

#[test]
fn stop_loss_loses() {
    let p = Position::Entering(Direction::Long);
    assert_eq!(p.on_candle(checks(true, false, true)), (Position::Flat, Outcome::Lost(Direction::Long)));
}

#[test]
fn quiet_candle_keeps_trade_open() {
    let p = Position::Entering(Direction::Short);
    assert_eq!(p.on_candle(checks(true, false, false)), (Position::Open(Direction::Short), Outcome::Unchanged));
    let q = Position::Open(Direction::Short);
    assert_eq!(q.on_candle(checks(true, false, false)), (Position::Open(Direction::Short), Outcome::Unchanged));
}

#[test]
fn tally_counts_settlements() {
    let mut tally = Tally::new();
    tally.record(Outcome::Won(Direction::Long));
    tally.record(Outcome::Lost(Direction::Short));
    tally.record(Outcome::Won(Direction::Short));
    tally.record(Outcome::Cancelled(Direction::Long));
    tally.record(Outcome::Unchanged);
    assert_eq!(tally, Tally { wins: 2, losses: 1, longs: 1, shorts: 2 });
    assert_eq!(tally.wins + tally.losses, tally.longs + tally.shorts);
}
