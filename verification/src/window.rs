use vstd::prelude::*;

use std::collections::VecDeque;

verus! {

/// The history after adding `value` to the front of `history` and dropping the
/// oldest entry if more than `limit` remain.
pub open spec fn bounded_push<T>(history: Seq<T>, value: T, limit: nat) -> Seq<T> {
    let grown = seq![value] + history;
    if grown.len() > limit {
        grown.drop_last()
    } else {
        grown
    }
}

/// Adds `value` as the newest entry (the front) of a history kept newest first,
/// then drops the oldest entry if the history holds more than `limit`.
/// A history within its limit stays within it, and the newest entry is `value`
/// whenever the limit leaves room for one.
pub fn push_bounded<T>(history: &mut VecDeque<T>, value: T, limit: usize)
    ensures
        final(history)@ == bounded_push(old(history)@, value, limit as nat),
        old(history)@.len() < limit ==> final(history)@ == seq![value] + old(history)@,
        old(history)@.len() >= limit ==> final(history)@ == (seq![value] + old(
            history,
        )@).drop_last(),
        old(history)@.len() <= limit ==> final(history)@.len() <= limit,
        limit > 0 ==> final(history)@[0] == value,
        final(history)@.len() > 0 ==> final(history)@.drop_first() =~= old(history)@.take(
            final(history)@.len() - 1,
        ),
{
    history.push_front(value);
    if history.len() > limit {
        history.pop_back();
    }
    proof {
        let grown = seq![value] + old(history)@;
        assert(grown.drop_first() =~= old(history)@);
        if grown.len() > limit {
            assert(final(history)@ =~= grown.drop_last());
        }
    }
}

/// Adding to a history below its limit keeps every old entry behind the new
/// one; only a history already at (or over) its limit loses its oldest entry.
pub proof fn lemma_bounded_push<T>(history: Seq<T>, value: T, limit: nat)
    ensures
        history.len() < limit ==> bounded_push(history, value, limit) == seq![value] + history,
        history.len() < limit ==> bounded_push(history, value, limit).len() == history.len() + 1,
        history.len() >= limit ==> bounded_push(history, value, limit) == (seq![value]
            + history).drop_last(),
        history.len() >= limit ==> bounded_push(history, value, limit).len() == history.len(),
        history.len() <= limit ==> bounded_push(history, value, limit).len() <= limit,
{
}

/// The seed window of an average: the first `period` prices (newest first) in
/// reverse order, oldest first.
pub fn seed_window<T: Copy>(prices: &VecDeque<T>, period: usize) -> (res: VecDeque<T>)
    requires
        period <= prices@.len(),
    ensures
        res@ == prices@.take(period as int).reverse(),
{
    let mut window: VecDeque<T> = VecDeque::new();
    let mut n: usize = 0;
    while n < period
        invariant
            n <= period <= prices@.len(),
            window@ == prices@.take(n as int).reverse(),
        decreases period - n,
    {
        window.push_front(prices[n]);
        assert(prices@.take(n + 1).reverse() =~= seq![prices@[n as int]] + prices@.take(
            n as int,
        ).reverse());
        n = n + 1;
    }
    window
}

/// What the exponential moving average does on a new candle.
#[derive(Clone, Copy, Debug, PartialEq, Eq, Structural)]
pub enum EmaStage {
    /// No average yet, and enough prices: seed it with the plain average of the
    /// first `period` prices.
    Seed,
    /// An average exists: smooth the newest price into the newest average.
    Smooth,
    /// No average yet and too few prices.
    NotReady,
}

/// Chooses the stage of the exponential moving average from the length of its
/// own history, the number of prices and the period.
pub fn ema_stage(history_len: usize, prices_len: usize, period: usize) -> (res: EmaStage)
    ensures
        res == (if history_len == 0 && prices_len >= period {
            EmaStage::Seed
        } else if history_len > 0 {
            EmaStage::Smooth
        } else {
            EmaStage::NotReady
        }),
{
    if history_len == 0 && prices_len >= period {
        EmaStage::Seed
    } else if history_len > 0 {
        EmaStage::Smooth
    } else {
        EmaStage::NotReady
    }
}

/// What the relative strength index does on a new candle.
#[derive(Clone, Copy, Debug, PartialEq, Eq, Structural)]
pub enum RsiStage {
    /// Exactly `period + 1` prices: compute the first average gain and loss.
    Initial,
    /// More prices than that: update the previous averages with the newest move.
    Update,
    /// Too few prices.
    NotReady,
}

/// Chooses the stage of the relative strength index from the number of prices
/// and the period. `period + 1` must not overflow.
pub fn rsi_stage(prices_len: usize, period: usize) -> (res: RsiStage)
    requires
        period < usize::MAX,
    ensures
        res == (if prices_len == period + 1 {
            RsiStage::Initial
        } else if prices_len > period + 1 {
            RsiStage::Update
        } else {
            RsiStage::NotReady
        }),
{
    if prices_len == period + 1 {
        RsiStage::Initial
    } else if prices_len > period + 1 {
        RsiStage::Update
    } else {
        RsiStage::NotReady
    }
}

} // verus!
