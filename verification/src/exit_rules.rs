//! The order in which the exits of an open position are tried: stop loss,
//! the two partial take-profit stages, then trailing stop, final take profit
//! and time exit; and what a sell leaves of the position. Whether a price
//! level is reached, or a sell took everything, is decided by the caller on
//! `f64` amounts and comes in as a fact.

use vstd::prelude::*;

verus! {

/// An exit tried before the trailing stop is updated.
#[derive(PartialEq, Eq, Structural, Clone, Copy, Debug)]
pub enum StagedExit {
    /// Sell everything: the loss reached the stop.
    StopLoss,
    /// Sell the first partial share.
    TakeProfit1,
    /// Sell the second partial share of what is left.
    TakeProfit2,
}

/// An exit tried after the trailing stop is updated.
#[derive(PartialEq, Eq, Structural, Clone, Copy, Debug)]
pub enum LateExit {
    /// Sell everything: the price fell to the trailing stop.
    TrailingStop,
    /// Sell everything: the final take-profit level is reached.
    TakeProfit,
    /// Sell everything: the position was held too long for too little.
    TimeExit,
}

/// Where the position stands on its partial take-profit stages.
#[derive(PartialEq, Eq, Structural, Clone, Copy, Debug)]
pub struct StageFacts {
    /// The first stage is configured (its level is above zero).
    pub tp1_enabled: bool,
    /// The first stage already sold.
    pub tp1_fired: bool,
    /// The profit reaches the first stage's level.
    pub tp1_reached: bool,
    /// The second stage is configured.
    pub tp2_enabled: bool,
    /// The second stage already sold.
    pub tp2_fired: bool,
    /// The profit reaches the second stage's level.
    pub tp2_reached: bool,
}

/// The first stage sells when it is configured, has not sold yet and its
/// level is reached.
pub open spec fn tp1_due(s: StageFacts) -> bool {
    s.tp1_enabled && !s.tp1_fired && s.tp1_reached
}

/// The second stage sells when it is configured, the first stage has sold,
/// it has not sold yet and its level is reached.
pub open spec fn tp2_due(s: StageFacts) -> bool {
    s.tp2_enabled && s.tp1_fired && !s.tp2_fired && s.tp2_reached
}

/// The exit tried first: the stop loss when it is hit, else the first stage,
/// else the second stage, when due.
pub open spec fn staged_exit_of(stop_hit: bool, s: StageFacts) -> Option<StagedExit> {
    if stop_hit {
        Some(StagedExit::StopLoss)
    } else if tp1_due(s) {
        Some(StagedExit::TakeProfit1)
    } else if tp2_due(s) {
        Some(StagedExit::TakeProfit2)
    } else {
        None
    }
}

/// Which of the stop loss and the partial stages fires, if any.
pub fn staged_exit(stop_hit: bool, s: StageFacts) -> (e: Option<StagedExit>)
    ensures
        e == staged_exit_of(stop_hit, s),
{
    if stop_hit {
        Some(StagedExit::StopLoss)
    } else if s.tp1_enabled && !s.tp1_fired && s.tp1_reached {
        Some(StagedExit::TakeProfit1)
    } else if s.tp2_enabled && s.tp1_fired && !s.tp2_fired && s.tp2_reached {
        Some(StagedExit::TakeProfit2)
    } else {
        None
    }
}

/// The final take profit may sell once the configured stages have: after
/// the second stage when both are configured, after the first when only it
/// is, at any time when none is.
pub open spec fn final_tp_allowed(s: StageFacts) -> bool {
    if s.tp1_enabled {
        if s.tp2_enabled {
            s.tp2_fired
        } else {
            s.tp1_fired
        }
    } else {
        true
    }
}

/// Whether the final take profit may sell now (see `final_tp_allowed`).
pub fn final_tp_eligible(s: StageFacts) -> (b: bool)
    ensures
        b == final_tp_allowed(s),
{
    if s.tp1_enabled {
        if s.tp2_enabled {
            s.tp2_fired
        } else {
            s.tp1_fired
        }
    } else {
        true
    }
}

/// The exit tried after the trailing stop is updated: the trailing stop when
/// it is hit, else the final take profit when allowed and reached, else the
/// time exit when due.
pub open spec fn late_exit_of(trailing_hit: bool, s: StageFacts, final_reached: bool, time_exit_due: bool) -> Option<
    LateExit,
> {
    if trailing_hit {
        Some(LateExit::TrailingStop)
    } else if final_tp_allowed(s) && final_reached {
        Some(LateExit::TakeProfit)
    } else if time_exit_due {
        Some(LateExit::TimeExit)
    } else {
        None
    }
}

/// Which of the trailing stop, the final take profit and the time exit fires,
/// if any.
pub fn late_exit(trailing_hit: bool, s: StageFacts, final_reached: bool, time_exit_due: bool) -> (e: Option<LateExit>)
    ensures
        e == late_exit_of(trailing_hit, s, final_reached, time_exit_due),
{
    if trailing_hit {
        Some(LateExit::TrailingStop)
    } else if final_tp_eligible(s) && final_reached {
        Some(LateExit::TakeProfit)
    } else if time_exit_due {
        Some(LateExit::TimeExit)
    } else {
        None
    }
}

/// A stop loss always wins and always sells everything: nothing is tried
/// before it and no partial stage can fire in its place.
pub proof fn law_stop_loss_comes_first(s: StageFacts)
    ensures
        staged_exit_of(true, s) == Some(StagedExit::StopLoss),
{
}

/// The stages fire in order and at most once each: the second only after
/// the first, neither again once it has sold, and with both stages configured
/// the final take profit only after the second.
pub proof fn law_stages_fire_in_order(stop_hit: bool, s: StageFacts)
    ensures
        staged_exit_of(stop_hit, s) == Some(StagedExit::TakeProfit2) ==> s.tp1_fired && !s.tp2_fired,
        staged_exit_of(stop_hit, s) == Some(StagedExit::TakeProfit1) ==> !s.tp1_fired,
        s.tp1_enabled && s.tp2_enabled && !s.tp2_fired ==> !final_tp_allowed(s),
        !s.tp1_enabled ==> final_tp_allowed(s),
{
}

/// What a sell leaves of a position.
#[derive(PartialEq, Eq, Structural, Clone, Copy, Debug)]
pub enum AfterSell {
    /// Everything was sold: the position is closed and leaves the book.
    Closed,
    /// Part was sold: the position stays open with these stage marks.
    Open { tp1_fired: bool, tp2_fired: bool },
}

/// A sell of everything closes the position; a partial sell keeps it open
/// and marks the stage it was sold for (1 or 2; any other stage marks
/// nothing), keeping the marks it had.
pub open spec fn after_sell_of(sold_all: bool, stage: u8, tp1_fired: bool, tp2_fired: bool) -> AfterSell {
    if sold_all {
        AfterSell::Closed
    } else {
        AfterSell::Open { tp1_fired: tp1_fired || stage == 1, tp2_fired: tp2_fired || stage == 2 }
    }
}

/// What a sell for `stage` (0 for a sell that is no partial stage) leaves of
/// a position with the given marks.
pub fn after_sell(sold_all: bool, stage: u8, tp1_fired: bool, tp2_fired: bool) -> (r: AfterSell)
    ensures
        r == after_sell_of(sold_all, stage, tp1_fired, tp2_fired),
{
    if sold_all {
        AfterSell::Closed
    } else {
        AfterSell::Open { tp1_fired: tp1_fired || stage == 1, tp2_fired: tp2_fired || stage == 2 }
    }
}

/// The stage facts of a position that stays open after a sell: its marks are
/// those the sell left, the rest as before.
pub open spec fn facts_after(s: StageFacts, a: AfterSell) -> StageFacts {
    match a {
        AfterSell::Open { tp1_fired, tp2_fired } => StageFacts { tp1_fired, tp2_fired, ..s },
        AfterSell::Closed => s,
    }
}

/// A sell never clears a stage mark, and a sell of everything always closes
/// the position.
pub proof fn law_sell_marks_only_grow(sold_all: bool, stage: u8, tp1_fired: bool, tp2_fired: bool)
    ensures
        sold_all <==> after_sell_of(sold_all, stage, tp1_fired, tp2_fired) is Closed,
        after_sell_of(sold_all, stage, tp1_fired, tp2_fired) matches AfterSell::Open { tp1_fired: t1, tp2_fired: t2 }
            ==> (tp1_fired ==> t1) && (tp2_fired ==> t2) && (stage != 1 ==> t1 == tp1_fired) && (stage
            != 2 ==> t2 == tp2_fired),
{
}

/// Each partial stage sells at most once: once the stage that fired has been
/// sold in part, the same stage is no longer due, whatever the prices do.
pub proof fn law_stage_fires_once(stop_hit: bool, s: StageFacts, later_stop_hit: bool, later_reached1: bool, later_reached2: bool)
    ensures
        staged_exit_of(stop_hit, s) == Some(StagedExit::TakeProfit1) ==> {
            let t = StageFacts {
                tp1_reached: later_reached1,
                tp2_reached: later_reached2,
                ..facts_after(s, after_sell_of(false, 1, s.tp1_fired, s.tp2_fired))
            };
            &&& t.tp1_fired
            &&& staged_exit_of(later_stop_hit, t) != Some(StagedExit::TakeProfit1)
        },
        staged_exit_of(stop_hit, s) == Some(StagedExit::TakeProfit2) ==> {
            let t = StageFacts {
                tp1_reached: later_reached1,
                tp2_reached: later_reached2,
                ..facts_after(s, after_sell_of(false, 2, s.tp1_fired, s.tp2_fired))
            };
            &&& t.tp2_fired
            &&& staged_exit_of(later_stop_hit, t) is None || staged_exit_of(later_stop_hit, t) == Some(
                StagedExit::StopLoss,
            )
        },
{
}

/// A partial stage sells only when it is configured, its level is reached and
/// it has not sold before, and never in place of a stop loss; the second
/// stage also only after the first. With no stage configured nothing but the
/// stop loss is tried before the trailing stop.
pub proof fn law_partial_stage_needs_configuration(stop_hit: bool, s: StageFacts)
    ensures
        staged_exit_of(stop_hit, s) == Some(StagedExit::TakeProfit1) ==> !stop_hit && s.tp1_enabled
            && s.tp1_reached && !s.tp1_fired,
        staged_exit_of(stop_hit, s) == Some(StagedExit::TakeProfit2) ==> !stop_hit && s.tp2_enabled
            && s.tp2_reached && s.tp1_fired && !s.tp2_fired,
        staged_exit_of(stop_hit, s) == Some(StagedExit::StopLoss) <==> stop_hit,
        !s.tp1_enabled && !s.tp2_enabled ==> staged_exit_of(stop_hit, s) == (if stop_hit {
            Some(StagedExit::StopLoss)
        } else {
            None
        }),
        !stop_hit && s.tp1_enabled && s.tp1_reached && !s.tp1_fired ==> staged_exit_of(stop_hit, s)
            == Some(StagedExit::TakeProfit1),
{
}

/// The late exits: the trailing stop whenever it is hit; the final take
/// profit only when its level is reached and no configured stage is still
/// to sell; the time exit only when due and nothing else fires.
pub proof fn law_late_exit_conditions(trailing_hit: bool, s: StageFacts, final_reached: bool, time_exit_due: bool)
    ensures
        late_exit_of(trailing_hit, s, final_reached, time_exit_due) == Some(LateExit::TrailingStop) <==> trailing_hit,
        late_exit_of(trailing_hit, s, final_reached, time_exit_due) == Some(LateExit::TakeProfit) ==> !trailing_hit
            && final_reached && (s.tp1_enabled && !s.tp2_enabled ==> s.tp1_fired) && (s.tp1_enabled && s.tp2_enabled
            ==> s.tp2_fired),
        late_exit_of(trailing_hit, s, final_reached, time_exit_due) == Some(LateExit::TimeExit) ==> !trailing_hit
            && time_exit_due,
        late_exit_of(trailing_hit, s, final_reached, time_exit_due) is None <==> !trailing_hit && !time_exit_due
            && !(final_reached && final_tp_allowed(s)),
        !s.tp1_enabled && !trailing_hit && final_reached ==> late_exit_of(trailing_hit, s, final_reached, time_exit_due)
            == Some(LateExit::TakeProfit),
{
}

} // verus!
