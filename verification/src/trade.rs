//! The records a trade leaves (why a simulated position closed, how a paper
//! trade ended, what the swap and token-account services answer) and the
//! retry policy of live buys and sells.

use vstd::prelude::*;
use vstd::string::*;

verus! {

/// Why a backtested position was closed.
#[derive(PartialEq, Eq, Structural, Clone, Copy, Debug)]
pub enum ExitReason {
    TakeProfit,
    StopLoss,
    TrailingStop,
    HoldToEnd,
}

/// How a closed paper trade ended.
#[derive(PartialEq, Eq, Structural, Clone, Copy, Debug)]
pub enum TradeResult {
    Profit,
    Loss,
    BreakEven,
}

/// The swap service's answer: the unsigned transaction, base64-encoded.
#[derive(Debug)]
pub struct SwapResponse {
    pub swap_transaction: String,
}

/// A token account's balance as the RPC node reports it.
#[derive(Debug)]
pub struct TokenAccountInfo {
    pub amount: String,
    pub decimals: u8,
}

/// How many times a live buy or sell is attempted.
pub const MAX_RETRY: u32 = 3;

/// The pause after the first failed attempt, in milliseconds; it grows by
/// this much with every further attempt.
pub const RETRY_DELAY_MS: u64 = 2000;

/// The pause after failed attempt `attempt` (counted from 1) before the next
/// one, or none after the last attempt.
pub open spec fn retry_pause(attempt: u32) -> Option<nat> {
    if attempt < MAX_RETRY {
        Some((RETRY_DELAY_MS * attempt) as nat)
    } else {
        None
    }
}

/// How long to wait after failed attempt `attempt` (counted from 1) before
/// trying again; `None` when no attempt is left.
pub fn retry_delay_ms(attempt: u32) -> (d: Option<u64>)
    ensures
        match d {
            Some(ms) => retry_pause(attempt) == Some(ms as nat),
            None => retry_pause(attempt) is None,
        },
{
    if attempt < MAX_RETRY {
        Some(RETRY_DELAY_MS * attempt as u64)
    } else {
        None
    }
}

/// The error of a buy or sell whose attempts all failed.
pub open spec fn retries_exhausted_text(action: Seq<char>, last_error: Seq<char>) -> Seq<char> {
    action + " failed after 3 attempts. Last error: "@ + last_error
}

/// The error reported once every attempt of `action` ("Buy" or "Sell")
/// failed, ending with the last attempt's error.
pub fn retries_exhausted_message(action: &str, last_error: &str) -> (m: String)
    ensures
        m@ == retries_exhausted_text(action@, last_error@),
{
    let mut m = String::from_str(action);
    m.append(" failed after 3 attempts. Last error: ");
    m.append(last_error);
    m
}

/// Every attempt but the last is followed by a pause, each longer than the
/// one before.
pub proof fn law_retry_pauses_grow(a: u32, b: u32)
    requires
        1 <= a < b < MAX_RETRY,
    ensures
        retry_pause(a) is Some,
        retry_pause(b) is Some,
        retry_pause(a)->0 < retry_pause(b)->0,
        retry_pause(MAX_RETRY) is None,
{
}

} // verus!
