//! Verified core of the Basol Solana trading bot: wallet keys, addresses and
//! transaction signing; Helius key rotation and rate limiting; Telegram
//! commands; the switches, checks and exit order that decide when the bot
//! buys and sells; and the discrete verdicts of its token analysis.

pub mod text;
pub mod base58;
pub mod codec;
pub mod transaction;
pub mod wallet_key;
pub mod rate_limit;
pub mod helius;
pub mod analysis;
pub mod trade;
pub mod telegram;
pub mod control;
pub mod scoring;
pub mod schedule;
pub mod buy_gate;
pub mod exit_rules;
