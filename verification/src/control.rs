//! When the bot may buy: the manual pause, the circuit breaker that pauses
//! buying after a run of losing trades, the daily loss limit, and the
//! peak-hours filter. Times are milliseconds on a monotonic clock.

use vstd::prelude::*;
use crate::telegram::TelegramCommand;

verus! {

/// The bot's buying switches.
pub struct BotControl {
    /// Buying paused by command.
    pub is_paused: bool,
    /// Losing trades in a row.
    pub consecutive_losses: u32,
    /// Losing trades in a row that trip the circuit breaker.
    pub circuit_breaker_losses: u32,
    /// How long a tripped circuit breaker pauses buying, in hours.
    pub circuit_breaker_pause_hours: u64,
    /// Until when the circuit breaker pauses buying, if it is tripped.
    pub circuit_breaker_until_ms: Option<u64>,
}

/// A circuit-breaker pause of `hours` hours, in milliseconds.
pub open spec fn pause_ms(hours: u64) -> nat {
    (hours * 3600 * 1000) as nat
}

/// Why live buying is blocked.
#[derive(PartialEq, Eq, Structural, Clone, Copy, Debug)]
pub enum BuyBlock {
    DailyLossLimit,
    CircuitBreaker,
    ManualPause,
}

/// What the bot replies to a command.
#[derive(PartialEq, Eq, Structural, Clone, Copy, Debug)]
pub enum CommandReply {
    Paused,
    Resumed,
    Status,
    Trades,
    Score,
    Blacklist,
    Helius,
    Nothing,
}

/// The circuit breaker pauses buying at `now`: it is set to a later time.
pub open spec fn breaker_active(until: Option<u64>, now: u64) -> bool {
    match until {
        Some(u) => u > now,
        None => false,
    }
}

/// Why buying is blocked at `now`, if it is: the daily loss limit comes first,
/// then the circuit breaker, then the manual pause.
pub open spec fn block_reason(c: BotControl, daily_limit_paused: bool, now: u64) -> Option<BuyBlock> {
    if daily_limit_paused {
        Some(BuyBlock::DailyLossLimit)
    } else if breaker_active(c.circuit_breaker_until_ms, now) {
        Some(BuyBlock::CircuitBreaker)
    } else if c.is_paused {
        Some(BuyBlock::ManualPause)
    } else {
        None
    }
}

/// The reply a command gets.
pub open spec fn reply_to(cmd: TelegramCommand) -> CommandReply {
    match cmd {
        TelegramCommand::Status => CommandReply::Status,
        TelegramCommand::Pause => CommandReply::Paused,
        TelegramCommand::Resume => CommandReply::Resumed,
        TelegramCommand::Trades => CommandReply::Trades,
        TelegramCommand::Score => CommandReply::Score,
        TelegramCommand::Blacklist => CommandReply::Blacklist,
        TelegramCommand::Helius => CommandReply::Helius,
        TelegramCommand::Unrecognized => CommandReply::Nothing,
    }
}

/// The switches after a command: `/pause` pauses buying; `/resume` lifts the
/// pause, clears the circuit breaker and forgets the losses in a row; other
/// commands change nothing.
pub open spec fn after_command(c: BotControl, cmd: TelegramCommand) -> BotControl {
    match cmd {
        TelegramCommand::Pause => BotControl { is_paused: true, ..c },
        TelegramCommand::Resume => BotControl {
            is_paused: false,
            circuit_breaker_until_ms: None,
            consecutive_losses: 0,
            ..c
        },
        _ => c,
    }
}

/// The switches after a closed trade at `now`: a loss adds to the losses in a
/// row and, once they reach the threshold, sets the circuit breaker for the
/// pause from `now`; a trade that is no loss clears the run.
pub open spec fn after_trade(c: BotControl, is_loss: bool, now: u64) -> BotControl {
    if is_loss {
        let losses = (c.consecutive_losses + 1) as u32;
        if losses >= c.circuit_breaker_losses {
            BotControl {
                consecutive_losses: losses,
                circuit_breaker_until_ms: Some((now + pause_ms(c.circuit_breaker_pause_hours)) as u64),
                ..c
            }
        } else {
            BotControl { consecutive_losses: losses, ..c }
        }
    } else {
        BotControl { consecutive_losses: 0, ..c }
    }
}

/// The switches after checking at `now` whether the circuit breaker expired:
/// once its time has come it is cleared together with the losses in a row.
pub open spec fn after_expiry_check(c: BotControl, now: u64) -> BotControl {
    match c.circuit_breaker_until_ms {
        Some(u) => if now >= u {
            BotControl { circuit_breaker_until_ms: None, consecutive_losses: 0, ..c }
        } else {
            c
        },
        None => c,
    }
}

impl BotControl {
    /// Buying allowed; the circuit breaker trips after `losses` losing trades
    /// in a row and then pauses buying for `pause_hours` hours.
    pub fn new(losses: u32, pause_hours: u64) -> (c: Self)
        ensures
            c == (BotControl {
                is_paused: false,
                consecutive_losses: 0,
                circuit_breaker_losses: losses,
                circuit_breaker_pause_hours: pause_hours,
                circuit_breaker_until_ms: None,
            }),
    {
        BotControl {
            is_paused: false,
            consecutive_losses: 0,
            circuit_breaker_losses: losses,
            circuit_breaker_pause_hours: pause_hours,
            circuit_breaker_until_ms: None,
        }
    }

    /// Whether the circuit breaker pauses buying at `now_ms`.
    pub fn circuit_broken(&self, now_ms: u64) -> (b: bool)
        ensures
            b == breaker_active(self.circuit_breaker_until_ms, now_ms),
    {
        match self.circuit_breaker_until_ms {
            Some(u) => u > now_ms,
            None => false,
        }
    }

    /// Why live buying is blocked at `now_ms`, if it is.
    pub fn buy_block(&self, daily_limit_paused: bool, now_ms: u64) -> (r: Option<BuyBlock>)
        ensures
            r == block_reason(*self, daily_limit_paused, now_ms),
    {
        if daily_limit_paused {
            Some(BuyBlock::DailyLossLimit)
        } else if self.circuit_broken(now_ms) {
            Some(BuyBlock::CircuitBreaker)
        } else if self.is_paused {
            Some(BuyBlock::ManualPause)
        } else {
            None
        }
    }

    /// Applies a command and tells what to reply.
    pub fn apply_command(&mut self, cmd: TelegramCommand) -> (reply: CommandReply)
        ensures
            *final(self) == after_command(*old(self), cmd),
            reply == reply_to(cmd),
    {
        match cmd {
            TelegramCommand::Pause => {
                self.is_paused = true;
                CommandReply::Paused
            },
            TelegramCommand::Resume => {
                self.is_paused = false;
                self.circuit_breaker_until_ms = None;
                self.consecutive_losses = 0;
                CommandReply::Resumed
            },
            TelegramCommand::Status => CommandReply::Status,
            TelegramCommand::Trades => CommandReply::Trades,
            TelegramCommand::Score => CommandReply::Score,
            TelegramCommand::Blacklist => CommandReply::Blacklist,
            TelegramCommand::Helius => CommandReply::Helius,
            TelegramCommand::Unrecognized => CommandReply::Nothing,
        }
    }

    /// Takes note of a closed trade at `now_ms`; returns whether the circuit
    /// breaker was set by it.
    pub fn record_trade(&mut self, is_loss: bool, now_ms: u64) -> (tripped: bool)
        requires
            old(self).consecutive_losses < u32::MAX,
            now_ms + pause_ms(old(self).circuit_breaker_pause_hours) <= u64::MAX,
        ensures
            *final(self) == after_trade(*old(self), is_loss, now_ms),
            tripped == (is_loss && old(self).consecutive_losses + 1 >= old(self).circuit_breaker_losses),
    {
        if is_loss {
            self.consecutive_losses = self.consecutive_losses + 1;
            if self.consecutive_losses >= self.circuit_breaker_losses {
                let hours = self.circuit_breaker_pause_hours;
                assert(hours * 3600 * 1000 <= u64::MAX);
                let pause: u64 = hours * 3600 * 1000;
                self.circuit_breaker_until_ms = Some(now_ms + pause);
                return true;
            }
            false
        } else {
            self.consecutive_losses = 0;
            false
        }
    }

    /// Clears the circuit breaker once its time has come at `now_ms`; returns
    /// whether it did.
    pub fn expire_circuit_breaker(&mut self, now_ms: u64) -> (expired: bool)
        ensures
            *final(self) == after_expiry_check(*old(self), now_ms),
            expired == (old(self).circuit_breaker_until_ms matches Some(u) && now_ms >= u),
    {
        match self.circuit_breaker_until_ms {
            Some(u) => {
                if now_ms >= u {
                    self.circuit_breaker_until_ms = None;
                    self.consecutive_losses = 0;
                    true
                } else {
                    false
                }
            },
            None => false,
        }
    }
}

/// `/resume` lifts every block the bot imposed itself: after it, buying is
/// blocked at most by the daily loss limit, whatever came before.
pub proof fn law_resume_unblocks(c: BotControl, daily_limit_paused: bool, now: u64)
    ensures
        block_reason(after_command(c, TelegramCommand::Resume), daily_limit_paused, now) == if daily_limit_paused {
            Some(BuyBlock::DailyLossLimit)
        } else {
            None
        },
{
}

/// `/pause` always blocks buying, and `/resume` right after it undoes the
/// pause.
pub proof fn law_pause_then_resume(c: BotControl, daily_limit_paused: bool, now: u64)
    ensures
        block_reason(after_command(c, TelegramCommand::Pause), daily_limit_paused, now) is Some,
        !after_command(after_command(c, TelegramCommand::Pause), TelegramCommand::Resume).is_paused,
{
}

/// The circuit breaker trips exactly when the losses in a row reach the
/// threshold, and then blocks buying for the whole pause; a trade that is no
/// loss starts the count over.
pub proof fn law_breaker_trips_on_losing_streak(c: BotControl, is_loss: bool, now: u64, later: u64)
    requires
        c.consecutive_losses < u32::MAX,
        now + pause_ms(c.circuit_breaker_pause_hours) <= u64::MAX,
        now <= later < now + pause_ms(c.circuit_breaker_pause_hours),
    ensures
        is_loss && c.consecutive_losses + 1 >= c.circuit_breaker_losses ==> block_reason(after_trade(c, is_loss, now), false, later) == Some(BuyBlock::CircuitBreaker),
        is_loss ==> after_trade(c, is_loss, now).consecutive_losses == c.consecutive_losses + 1,
        !is_loss ==> after_trade(c, is_loss, now).consecutive_losses == 0,
{
}

/// Once its time has come, the expiry check lifts the circuit breaker's block.
pub proof fn law_breaker_expires(c: BotControl, now: u64)
    requires
        c.circuit_breaker_until_ms matches Some(u) && now >= u,
    ensures
        !breaker_active(after_expiry_check(c, now).circuit_breaker_until_ms, now),
        after_expiry_check(c, now).consecutive_losses == 0,
{
}

/// The hours of the day (UTC) in which the bot buys when it keeps to peak
/// hours: 13:00 to 17:00 and 20:00 to midnight.
pub open spec fn peak_hour(hour: u32) -> bool {
    (13 <= hour <= 16) || (20 <= hour <= 23)
}

/// Whether `hour` (UTC) is a peak hour.
pub fn is_peak_hour(hour: u32) -> (b: bool)
    ensures
        b == peak_hour(hour),
{
    (13 <= hour && hour <= 16) || (20 <= hour && hour <= 23)
}

/// What a scan does at a given hour.
#[derive(PartialEq, Eq, Structural, Clone, Copy, Debug)]
pub enum ScanMode {
    /// Scan and buy as usual.
    Normal,
    /// Off-peak with off-peak trading disabled: skip the buy scan.
    SkipOffPeak,
    /// Off-peak with off-peak trading enabled: scan with stricter thresholds.
    StrictOffPeak,
}

/// The scan mode at `hour`: as usual unless the bot keeps to peak hours and
/// `hour` is not one, in which case it skips the scan or, where off-peak
/// trading is enabled, scans with the stricter thresholds.
pub open spec fn scan_mode_at(peak_hours_only: bool, off_peak_trading: bool, hour: u32) -> ScanMode {
    if peak_hours_only && !peak_hour(hour) {
        if off_peak_trading {
            ScanMode::StrictOffPeak
        } else {
            ScanMode::SkipOffPeak
        }
    } else {
        ScanMode::Normal
    }
}

/// The scan mode at `hour` (UTC).
pub fn scan_mode(peak_hours_only: bool, off_peak_trading: bool, hour: u32) -> (m: ScanMode)
    ensures
        m == scan_mode_at(peak_hours_only, off_peak_trading, hour),
{
    if peak_hours_only && !is_peak_hour(hour) {
        if off_peak_trading {
            ScanMode::StrictOffPeak
        } else {
            ScanMode::SkipOffPeak
        }
    } else {
        ScanMode::Normal
    }
}

/// With the peak-hours filter off every hour is scanned as usual; with it on,
/// exactly the hours 13:00 to 17:00 and 20:00 to midnight (UTC) are.
pub proof fn law_peak_hours_filter(peak_hours_only: bool, off_peak_trading: bool, hour: u32)
    requires
        hour < 24,
    ensures
        !peak_hours_only ==> scan_mode_at(peak_hours_only, off_peak_trading, hour) == ScanMode::Normal,
        peak_hours_only ==> (scan_mode_at(peak_hours_only, off_peak_trading, hour) == ScanMode::Normal <==> (13
            <= hour < 17 || 20 <= hour < 24)),
{
}

/// Only a loss moves the circuit breaker, and only by setting it: a trade
/// that is no loss leaves the breaker, the pause and whether buying is
/// blocked as they were, at any later time; a loss that does not reach the
/// threshold leaves the breaker as it was too. Only expiry or `/resume`
/// clear it.
pub proof fn law_trade_never_lifts_breaker(c: BotControl, is_loss: bool, now: u64, later: u64, daily_limit_paused: bool)
    requires
        c.consecutive_losses < u32::MAX,
        now + pause_ms(c.circuit_breaker_pause_hours) <= u64::MAX,
    ensures
        !is_loss ==> after_trade(c, is_loss, now).circuit_breaker_until_ms == c.circuit_breaker_until_ms,
        !is_loss ==> block_reason(after_trade(c, is_loss, now), daily_limit_paused, later) == block_reason(
            c,
            daily_limit_paused,
            later,
        ),
        is_loss && c.consecutive_losses + 1 < c.circuit_breaker_losses ==> after_trade(c, is_loss, now).circuit_breaker_until_ms
            == c.circuit_breaker_until_ms,
        is_loss && c.consecutive_losses + 1 >= c.circuit_breaker_losses ==> after_trade(c, is_loss, now).circuit_breaker_until_ms
            == Some((now + pause_ms(c.circuit_breaker_pause_hours)) as u64),
        after_trade(c, is_loss, now).is_paused == c.is_paused,
        after_trade(c, is_loss, now).circuit_breaker_losses == c.circuit_breaker_losses,
        after_trade(c, is_loss, now).circuit_breaker_pause_hours == c.circuit_breaker_pause_hours,
        breaker_active(c.circuit_breaker_until_ms, later) ==> breaker_active(
            after_trade(c, is_loss, now).circuit_breaker_until_ms,
            later,
        ) || (is_loss && later >= now + pause_ms(c.circuit_breaker_pause_hours)),
{
}

/// Before its time the expiry check leaves a tripped breaker, and its block,
/// as they are.
pub proof fn law_breaker_holds_until_expiry(c: BotControl, now: u64, daily_limit_paused: bool)
    requires
        c.circuit_breaker_until_ms matches Some(u) && now < u,
    ensures
        after_expiry_check(c, now) == c,
        !daily_limit_paused ==> block_reason(after_expiry_check(c, now), daily_limit_paused, now) == Some(
            BuyBlock::CircuitBreaker,
        ),
{
}

} // verus!
