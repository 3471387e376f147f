use vstd::prelude::*;

verus! {

/// Side of a trade.
#[derive(Clone, Copy, Debug, PartialEq, Eq, Structural)]
pub enum Direction {
    Long,
    Short,
}

/// Where the backtest stands with respect to a trade.
///
/// `Flat` is "not in a trade"; `Entering` is a trade that was signalled on the
/// previous candle and whose entry price (the opening price of the current
/// candle) is not yet fixed; `Open` is a trade whose entry price is fixed.
#[derive(Clone, Copy, Debug, PartialEq, Eq, Structural)]
pub enum Position {
    Flat,
    Entering(Direction),
    Open(Direction),
}

/// What the trading loop observed on a candle while in a trade, each a
/// comparison of prices made for the trade's direction.
#[derive(Clone, Copy, Debug, PartialEq, Eq, Structural)]
pub struct CandleChecks {
    /// The entry price lies between stop loss and take profit.
    pub entry_in_spread: bool,
    /// The candle's high reached past the take profit.
    pub take_profit_hit: bool,
    /// The candle's low reached past the stop loss.
    pub stop_loss_hit: bool,
}

/// What became of the trade on a candle.
#[derive(Clone, Copy, Debug, PartialEq, Eq, Structural)]
pub enum Outcome {
    /// Still open.
    Unchanged,
    /// Given up before any settlement: the entry price lay outside the spread.
    Cancelled(Direction),
    /// Closed at the take profit.
    Won(Direction),
    /// Closed at the stop loss.
    Lost(Direction),
}

/// The direction of a trade that is under way.
pub open spec fn direction_of(p: Position) -> Direction
    recommends
        !(p is Flat),
{
    match p {
        Position::Entering(d) => d,
        Position::Open(d) => d,
        Position::Flat => Direction::Long,
    }
}

/// The position after the signal rule answered `option` on a flat candle:
/// `1` opens a long, `2` a short, anything else keeps the backtest flat.
pub open spec fn after_signal(option: i32) -> Position {
    if option == 1 {
        Position::Entering(Direction::Long)
    } else if option == 2 {
        Position::Entering(Direction::Short)
    } else {
        Position::Flat
    }
}

/// The position and outcome after a candle of a trade in direction `d`: an
/// entry outside the spread cancels the trade, then the take profit is checked
/// before the stop loss (when a candle reaches both, the trade counts as won),
/// and otherwise the trade stays open.
pub open spec fn after_candle(d: Direction, checks: CandleChecks) -> (Position, Outcome) {
    if !checks.entry_in_spread {
        (Position::Flat, Outcome::Cancelled(d))
    } else if checks.take_profit_hit {
        (Position::Flat, Outcome::Won(d))
    } else if checks.stop_loss_hit {
        (Position::Flat, Outcome::Lost(d))
    } else {
        (Position::Open(d), Outcome::Unchanged)
    }
}

impl Position {
    /// The position at the start of a backtest.
    pub fn new() -> (res: Position)
        ensures
            res == Position::Flat,
    {
        Position::Flat
    }

    /// Applies the answer of the signal rule on a flat candle.
    pub fn on_signal(self, option: i32) -> (res: Position)
        requires
            self is Flat,
        ensures
            res == after_signal(option),
            res is Flat || res is Entering,
            option == 1 ==> res == Position::Entering(Direction::Long),
            option == 2 ==> res == Position::Entering(Direction::Short),
            option != 1 && option != 2 ==> res == Position::Flat,
    {
        if option == 1 {
            Position::Entering(Direction::Long)
        } else if option == 2 {
            Position::Entering(Direction::Short)
        } else {
            Position::Flat
        }
    }

    /// Applies a candle to a trade that is under way. The trade keeps its
    /// direction; it ends (back to `Flat`) exactly when the outcome is a
    /// settlement or a cancellation.
    pub fn on_candle(self, checks: CandleChecks) -> (res: (Position, Outcome))
        requires
            !(self is Flat),
        ensures
            res == after_candle(direction_of(self), checks),
            (res.1 is Unchanged) <==> !(res.0 is Flat),
            res.0 is Open ==> direction_of(res.0) == direction_of(self),
            !(res.0 is Entering),
            !checks.entry_in_spread ==> res == (Position::Flat, Outcome::Cancelled(direction_of(self))),
            checks.entry_in_spread && checks.take_profit_hit ==> res == (
                Position::Flat,
                Outcome::Won(direction_of(self)),
            ),
            checks.entry_in_spread && !checks.take_profit_hit && checks.stop_loss_hit ==> res == (
                Position::Flat,
                Outcome::Lost(direction_of(self)),
            ),
            checks.entry_in_spread && !checks.take_profit_hit && !checks.stop_loss_hit ==> res == (
                Position::Open(direction_of(self)),
                Outcome::Unchanged,
            ),
    {
        let d = match self {
            Position::Entering(d) => d,
            Position::Open(d) => d,
            Position::Flat => Direction::Long,
        };
        if !checks.entry_in_spread {
            (Position::Flat, Outcome::Cancelled(d))
        } else if checks.take_profit_hit {
            (Position::Flat, Outcome::Won(d))
        } else if checks.stop_loss_hit {
            (Position::Flat, Outcome::Lost(d))
        } else {
            (Position::Open(d), Outcome::Unchanged)
        }
    }
}

/// Counts of settled trades.
#[derive(Clone, Copy, Debug, PartialEq, Eq, Structural)]
pub struct Tally {
    pub wins: u64,
    pub losses: u64,
    pub longs: u64,
    pub shorts: u64,
}

impl Tally {
    /// Every settled trade is counted once as a win or a loss and once as a long
    /// or a short.
    pub open spec fn balanced(self) -> bool {
        self.wins + self.losses == self.longs + self.shorts
    }

    /// The counts after `outcome`: a win or a loss adds one to its own count and
    /// one to its direction's; a cancellation or an open trade changes nothing.
    pub open spec fn after(self, outcome: Outcome) -> Tally {
        match outcome {
            Outcome::Won(d) => Tally {
                wins: (self.wins + 1) as u64,
                longs: if d == Direction::Long { (self.longs + 1) as u64 } else { self.longs },
                shorts: if d == Direction::Short { (self.shorts + 1) as u64 } else { self.shorts },
                ..self
            },
            Outcome::Lost(d) => Tally {
                losses: (self.losses + 1) as u64,
                longs: if d == Direction::Long { (self.longs + 1) as u64 } else { self.longs },
                shorts: if d == Direction::Short { (self.shorts + 1) as u64 } else { self.shorts },
                ..self
            },
            _ => self,
        }
    }

    /// No trade settled yet.
    pub fn new() -> (res: Tally)
        ensures
            res == (Tally { wins: 0, losses: 0, longs: 0, shorts: 0 }),
            res.balanced(),
    {
        Tally { wins: 0, losses: 0, longs: 0, shorts: 0 }
    }

    /// Counts `outcome`. A balanced tally stays balanced.
    pub fn record(&mut self, outcome: Outcome)
        requires
            old(self).wins < u64::MAX,
            old(self).losses < u64::MAX,
            old(self).longs < u64::MAX,
            old(self).shorts < u64::MAX,
        ensures
            *final(self) == old(self).after(outcome),
            old(self).balanced() ==> final(self).balanced(),
            outcome is Won ==> final(self).wins == old(self).wins + 1 && final(self).losses == old(
                self,
            ).losses,
            outcome is Lost ==> final(self).losses == old(self).losses + 1 && final(self).wins == old(
                self,
            ).wins,
            (outcome == Outcome::Won(Direction::Long) || outcome == Outcome::Lost(Direction::Long))
                ==> final(self).longs == old(self).longs + 1 && final(self).shorts == old(self).shorts,
            (outcome == Outcome::Won(Direction::Short) || outcome == Outcome::Lost(Direction::Short))
                ==> final(self).shorts == old(self).shorts + 1 && final(self).longs == old(self).longs,
            (outcome is Unchanged || outcome is Cancelled) ==> *final(self) == *old(self),
    {
        match outcome {
            Outcome::Won(d) => {
                self.wins = self.wins + 1;
                match d {
                    Direction::Long => self.longs = self.longs + 1,
                    Direction::Short => self.shorts = self.shorts + 1,
                }
            },
            Outcome::Lost(d) => {
                self.losses = self.losses + 1;
                match d {
                    Direction::Long => self.longs = self.longs + 1,
                    Direction::Short => self.shorts = self.shorts + 1,
                }
            },
            _ => {},
        }
    }
}

/// The direction of a trade under way is the one it was opened with.
pub proof fn lemma_direction_of(d: Direction)
    ensures
        direction_of(Position::Entering(d)) == d,
        direction_of(Position::Open(d)) == d,
{
}

/// A flat backtest opens a long on option 1, a short on option 2, and stays
/// flat on any other answer of the signal rule.
pub proof fn lemma_signal_codes(option: i32)
    ensures
        option == 1 ==> after_signal(option) == Position::Entering(Direction::Long),
        option == 2 ==> after_signal(option) == Position::Entering(Direction::Short),
        option != 1 && option != 2 ==> after_signal(option) == Position::Flat,
{
}

/// On a candle of a trade in direction `d`: an entry outside the spread
/// cancels it; inside the spread, reaching the take profit wins (even when the
/// stop loss is reached too), reaching only the stop loss loses, and reaching
/// neither keeps the trade open in the same direction. Every ending returns
/// the backtest to flat.
pub proof fn lemma_candle_settlement(d: Direction, checks: CandleChecks)
    ensures
        !checks.entry_in_spread ==> after_candle(d, checks) == (Position::Flat, Outcome::Cancelled(d)),
        checks.entry_in_spread && checks.take_profit_hit ==> after_candle(d, checks) == (
            Position::Flat,
            Outcome::Won(d),
        ),
        checks.entry_in_spread && !checks.take_profit_hit && checks.stop_loss_hit ==> after_candle(
            d,
            checks,
        ) == (Position::Flat, Outcome::Lost(d)),
        checks.entry_in_spread && !checks.take_profit_hit && !checks.stop_loss_hit ==> after_candle(
            d,
            checks,
        ) == (Position::Open(d), Outcome::Unchanged),
{
}

/// A settled trade adds one to the wins or to the losses and one to the count
/// of its own direction, leaving the other counts alone; cancellations and
/// open trades count nothing.
pub proof fn lemma_tally_counts(t: Tally, d: Direction)
    requires
        t.wins < u64::MAX,
        t.losses < u64::MAX,
        t.longs < u64::MAX,
        t.shorts < u64::MAX,
    ensures
        t.after(Outcome::Won(d)).wins == t.wins + 1,
        t.after(Outcome::Won(d)).losses == t.losses,
        t.after(Outcome::Lost(d)).losses == t.losses + 1,
        t.after(Outcome::Lost(d)).wins == t.wins,
        d == Direction::Long ==> t.after(Outcome::Won(d)).longs == t.longs + 1 && t.after(
            Outcome::Won(d),
        ).shorts == t.shorts && t.after(Outcome::Lost(d)).longs == t.longs + 1 && t.after(
            Outcome::Lost(d),
        ).shorts == t.shorts,
        d == Direction::Short ==> t.after(Outcome::Won(d)).shorts == t.shorts + 1 && t.after(
            Outcome::Won(d),
        ).longs == t.longs && t.after(Outcome::Lost(d)).shorts == t.shorts + 1 && t.after(
            Outcome::Lost(d),
        ).longs == t.longs,
        t.after(Outcome::Unchanged) == t,
        t.after(Outcome::Cancelled(d)) == t,
{
}

} // verus!
