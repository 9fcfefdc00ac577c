//! The checks a token must pass before the bot buys it, in the order they
//! are made. The comparisons of scores and liquidity (prices in `f64`) are
//! made by the caller and come in as their outcome.

use vstd::prelude::*;

verus! {

/// What the buy checks look at.
#[derive(PartialEq, Eq, Structural, Clone, Copy, Debug)]
pub struct BuyFacts {
    /// Trading is switched on.
    pub trading_enabled: bool,
    /// The token's score is at least the minimum score to buy.
    pub score_reaches_minimum: bool,
    /// A position in the token is already open.
    pub already_held: bool,
    /// Positions open now.
    pub open_positions: usize,
    /// Positions allowed at once.
    pub max_positions: usize,
    /// The pool's liquidity is at least the minimum.
    pub liquidity_reaches_minimum: bool,
    /// The token's mint authority is revoked.
    pub mint_revoked: bool,
}

/// Why a token is not bought.
#[derive(PartialEq, Eq, Structural, Clone, Copy, Debug)]
pub enum BuySkip {
    TradingDisabled,
    ScoreTooLow,
    AlreadyHeld,
    TooManyPositions,
    LiquidityTooLow,
    MintNotRevoked,
}

/// The first check that fails, in the order trading switch, score, position
/// already held, number of positions, liquidity, mint authority; none when
/// all pass.
pub open spec fn first_failed_check(f: BuyFacts) -> Option<BuySkip> {
    if !f.trading_enabled {
        Some(BuySkip::TradingDisabled)
    } else if !f.score_reaches_minimum {
        Some(BuySkip::ScoreTooLow)
    } else if f.already_held {
        Some(BuySkip::AlreadyHeld)
    } else if f.open_positions >= f.max_positions {
        Some(BuySkip::TooManyPositions)
    } else if !f.liquidity_reaches_minimum {
        Some(BuySkip::LiquidityTooLow)
    } else if !f.mint_revoked {
        Some(BuySkip::MintNotRevoked)
    } else {
        None
    }
}

/// Runs the buy checks: why the token is skipped, or `None` when it may be
/// bought.
pub fn buy_gate(f: BuyFacts) -> (r: Option<BuySkip>)
    ensures
        r == first_failed_check(f),
{
    if !f.trading_enabled {
        Some(BuySkip::TradingDisabled)
    } else if !f.score_reaches_minimum {
        Some(BuySkip::ScoreTooLow)
    } else if f.already_held {
        Some(BuySkip::AlreadyHeld)
    } else if f.open_positions >= f.max_positions {
        Some(BuySkip::TooManyPositions)
    } else if !f.liquidity_reaches_minimum {
        Some(BuySkip::LiquidityTooLow)
    } else if !f.mint_revoked {
        Some(BuySkip::MintNotRevoked)
    } else {
        None
    }
}

/// A token passes the checks only when trading is on, its score and
/// liquidity suffice, its mint authority is revoked, it is not held yet and a
/// position slot is free: the bot never holds a token twice nor more
/// positions than allowed.
pub proof fn law_buys_respect_every_check(f: BuyFacts)
    ensures
        first_failed_check(f) is None <==> (f.trading_enabled && f.score_reaches_minimum && !f.already_held
            && f.open_positions < f.max_positions && f.liquidity_reaches_minimum && f.mint_revoked),
{
}

} // verus!
