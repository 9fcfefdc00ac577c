use basol::analysis::{
    alert_level_for, concat_groups, confidence_for, phase_for_age, potential_for, top_signals, AlertLevel,
    ConfidenceLevel, LifecyclePhase,
};
use basol::buy_gate::{buy_gate, BuyFacts, BuySkip};
use basol::exit_rules::{
    after_sell, final_tp_eligible, late_exit, staged_exit, AfterSell, LateExit, StageFacts, StagedExit,
};
use basol::control::{is_peak_hour, scan_mode, BotControl, BuyBlock, CommandReply, ScanMode};
use basol::helius::{collect_keys, HeliusKeyPool};
use basol::rate_limit::RateLimiter;
use basol::telegram::{
    backoff_secs, blacklist_argument, command_from_button, command_from_text, command_word_of, is_configured_button_chat,
    is_configured_chat, signed_decimal_string, TelegramCommand, TelegramPoller,
};
use basol::text::{split_on_char, split_words, trim};
use basol::trade::{retries_exhausted_message, retry_delay_ms, ExitReason, TradeResult, MAX_RETRY};

use basol::schedule::{
    alert_allowed, is_fresh_token, new_day, no_trade_warning_due, week_key, weekly_report_due, whole_hours,
    MAX_DAILY_ALERTS,
};
use basol::scoring::{analyze_security, analyze_social, analyze_whales, contains_text, count_smart_entries};

fn strings(v: &[&str]) -> Vec<String> {
    v.iter().map(|s| s.to_string()).collect()
}

#[test]
fn lifecycle_phase_boundaries() {
    assert_eq!(phase_for_age(0), LifecyclePhase::Launch);
    assert_eq!(phase_for_age(30), LifecyclePhase::Launch);
    assert_eq!(phase_for_age(31), LifecyclePhase::FirstDip);
    assert_eq!(phase_for_age(180), LifecyclePhase::FirstDip);
    assert_eq!(phase_for_age(181), LifecyclePhase::Accumulation);
    assert_eq!(phase_for_age(720), LifecyclePhase::Accumulation);
    assert_eq!(phase_for_age(721), LifecyclePhase::Breakout);
    assert_eq!(phase_for_age(2880), LifecyclePhase::Breakout);
    assert_eq!(phase_for_age(2881), LifecyclePhase::Mature);
    assert_eq!(phase_for_age(-1), LifecyclePhase::Mature);
}

#[test]
fn lifecycle_labels() {
    assert_eq!(LifecyclePhase::Launch.to_label(), "⚡ Launch Phase (high risk)");
    assert_eq!(LifecyclePhase::FirstDip.to_label(), "📉 First Dip (opportunity)");
    assert_eq!(LifecyclePhase::Accumulation.to_label(), "🟢 Accumulation Phase (ideal entry)");
    assert_eq!(LifecyclePhase::Breakout.to_label(), "🔥 Breakout Phase (late entry)");
    assert_eq!(LifecyclePhase::Mature.to_label(), "⬜ Mature (too late)");
}

#[test]
fn score_tiers() {
    assert_eq!(alert_level_for(95), AlertLevel::Legendary);
    assert_eq!(alert_level_for(90), AlertLevel::Legendary);
    assert_eq!(alert_level_for(89), AlertLevel::Golden);
    assert_eq!(alert_level_for(85), AlertLevel::Golden);
    assert_eq!(alert_level_for(84), AlertLevel::Excellent);
    assert_eq!(alert_level_for(80), AlertLevel::Excellent);
    assert_eq!(alert_level_for(79), AlertLevel::Normal);
    assert_eq!(confidence_for(90), ConfidenceLevel::VeryHigh);
    assert_eq!(confidence_for(86), ConfidenceLevel::High);
    assert_eq!(confidence_for(80), ConfidenceLevel::Medium);
    assert_eq!(confidence_for(0), ConfidenceLevel::Low);
    assert_eq!(potential_for(100), "50x-100x 🌟");
    assert_eq!(potential_for(85), "20x-50x 💎");
    assert_eq!(potential_for(82), "10x-20x 🔥");
    assert_eq!(potential_for(50), "5x-10x ⭐");
}

#[test]
fn alert_headers() {
    assert_eq!(AlertLevel::Legendary.to_header(), "👑 **LEGENDARY OPPORTUNITY** 👑");
    assert_eq!(AlertLevel::Golden.to_header(), "💎 **GOLDEN OPPORTUNITY** 💎");
    assert_eq!(AlertLevel::Excellent.to_header(), "🔥 **EXCELLENT OPPORTUNITY** 🔥");
    assert_eq!(AlertLevel::Normal.to_header(), "⭐ **STANDARD OPPORTUNITY** ⭐");
}

#[test]
fn signals_are_concatenated_and_capped_at_eight() {
    let groups = vec![strings(&["a", "b", "c"]), vec![], strings(&["d", "e", "f", "g", "h", "i"])];
    assert_eq!(concat_groups(&groups), strings(&["a", "b", "c", "d", "e", "f", "g", "h", "i"]));
    assert_eq!(top_signals(&groups), strings(&["a", "b", "c", "d", "e", "f", "g", "h"]));
    assert_eq!(top_signals(&vec![strings(&["x"])]), strings(&["x"]));
    assert!(concat_groups(&vec![]).is_empty());
}

#[test]
fn trade_records() {
    assert_ne!(ExitReason::TakeProfit, ExitReason::StopLoss);
    assert_eq!(ExitReason::HoldToEnd, ExitReason::HoldToEnd.clone());
    assert_ne!(TradeResult::Profit, TradeResult::Loss);
    assert_eq!(TradeResult::BreakEven, TradeResult::BreakEven);
}

#[test]
fn retry_policy() {
    assert_eq!(MAX_RETRY, 3);
    assert_eq!(retry_delay_ms(1), Some(2000));
    assert_eq!(retry_delay_ms(2), Some(4000));
    assert_eq!(retry_delay_ms(3), None);
    assert_eq!(
        retries_exhausted_message("Buy", "Price impact too high: 7.00%"),
        "Buy failed after 3 attempts. Last error: Price impact too high: 7.00%"
    );
}

#[test]
fn text_helpers() {
    assert_eq!(trim("  abc \t\n"), "abc");
    assert_eq!(trim("   "), "");
    assert_eq!(split_on_char("a,,b,", ','), strings(&["a", "", "b", ""]));
    assert_eq!(split_on_char("", ','), strings(&[""]));
    assert_eq!(split_words("  /blacklist   abc\tdef "), strings(&["/blacklist", "abc", "def"]));
    assert!(split_words(" \n ").is_empty());
}

#[test]
fn rate_limiter_waits_for_the_oldest_call() {
    let mut l = RateLimiter::new(2, 60);
    assert_eq!(l.wait_ms(0), None);
    l.record(1_000);
    l.record(2_000);
    l.prune(10_000);
    assert_eq!(l.call_count(), 2);
    assert_eq!(l.wait_ms(10_000), Some(51_000));
    l.prune(61_000);
    assert_eq!(l.call_count(), 1);
    assert_eq!(l.wait_ms(61_000), None);
    l.prune(62_000);
    assert_eq!(l.call_count(), 0);
}

#[test]
fn rate_limiter_budget_is_kept_over_a_burst() {
    let mut l = RateLimiter::new(3, 1);
    let mut now: u64 = 0;
    let mut made: Vec<u64> = Vec::new();
    for _ in 0..10 {
        l.prune(now);
        if let Some(w) = l.wait_ms(now) {
            now += w as u64;
            l.prune(now);
        }
        l.record(now);
        made.push(now);
        let in_window = made.iter().filter(|t| now - **t < 1000).count();
        assert!(in_window <= 3);
        assert!(l.call_count() <= 3);
    }
}

#[test]
fn helius_keys_are_collected_once_in_order() {
    let keys = collect_keys(
        Some(" key1 ,key2,your_helius_api_key_here,,key1"),
        &strings(&["key3", " key2 ", ""]),
        Some("key4, key3 ,your_helius_api_key_here"),
    );
    assert_eq!(keys, strings(&["key1", "key2", "key3", "key4", "your_helius_api_key_here"]));
    assert!(collect_keys(None, &vec![], None).is_empty());
    assert!(collect_keys(Some("your_helius_api_key_here"), &vec![], None).is_empty());
}

#[test]
fn helius_pool_rotates_round_the_keys() {
    let mut pool = HeliusKeyPool::new(strings(&["aaaaaaaaaaaa", "bbbb", "cccccccccc"]));
    assert_eq!(pool.key_count(), 3);
    assert_eq!(pool.current(), "aaaaaaaaaaaa");
    assert!(!pool.rotate_on_rate_limit(1_000));
    assert_eq!(pool.current(), "bbbb");
    assert!(!pool.rotate_on_rate_limit(2_000));
    assert_eq!(pool.current(), "cccccccccc");
    // every other key is still limited: stay on the key in use
    assert!(pool.rotate_on_rate_limit(3_000));
    assert_eq!(pool.current(), "cccccccccc");
    // the first key's mark expired at 66 000 ms
    assert!(!pool.rotate_on_rate_limit(70_000));
    assert_eq!(pool.current(), "aaaaaaaaaaaa");
}

#[test]
fn helius_key_in_use_stays_one_of_the_keys() {
    let keys = ["k0", "k1", "k2", "k3"];
    let mut pool = HeliusKeyPool::new(strings(&keys));
    for round in 0..50u64 {
        pool.rotate_on_rate_limit(round * 7_000);
        assert!(pool.current_index() < pool.key_count());
        assert_eq!(pool.current(), keys[pool.current_index()]);
    }
}

#[test]
fn helius_single_key_is_always_limited() {
    let mut pool = HeliusKeyPool::new(strings(&["only"]));
    assert!(pool.rotate_on_rate_limit(5));
    assert_eq!(pool.current(), "only");
}

#[test]
fn helius_masks_keys() {
    let pool = HeliusKeyPool::new(strings(&["abcdefghijkl", "short", "12345678"]));
    assert_eq!(pool.masked(0), "abcdefgh***");
    assert_eq!(pool.masked(1), "***");
    assert_eq!(pool.masked(2), "***");
}

#[test]
fn helius_status_summary_lines() {
    let mut pool = HeliusKeyPool::new(strings(&["abcdefghijkl", "short"]));
    assert_eq!(
        pool.status_summary(0),
        "▶ Key #1: abcdefgh*** — ✅ OK\n   Key #2: *** — ✅ OK"
    );
    pool.rotate_on_rate_limit(1_000);
    assert_eq!(
        pool.status_summary(11_500),
        "   Key #1: abcdefgh*** — ⏳ Rate-limited (54s left)\n▶ Key #2: *** — ✅ OK"
    );
    assert_eq!(
        pool.status_summary(66_000),
        "   Key #1: abcdefgh*** — ✅ OK (recovered)\n▶ Key #2: *** — ✅ OK"
    );
}

#[test]
fn helius_pool_throttles_the_key_in_use() {
    let mut pool = HeliusKeyPool::new(strings(&["k1", "k2"]));
    for i in 0..40u64 {
        pool.prune_current(i);
        assert_eq!(pool.current_wait_ms(i), None);
        pool.record_current(i);
    }
    pool.prune_current(100);
    assert_eq!(pool.current_wait_ms(100), Some(59_900));
    pool.rotate_on_rate_limit(100);
    pool.prune_current(100);
    assert_eq!(pool.current_wait_ms(100), None);
}

#[test]
fn telegram_commands_from_messages() {
    assert_eq!(command_from_text("/status"), TelegramCommand::Status);
    assert_eq!(command_from_text("  /pause@basol_bot now"), TelegramCommand::Pause);
    assert_eq!(command_from_text("/resume"), TelegramCommand::Resume);
    assert_eq!(command_from_text("/trades"), TelegramCommand::Trades);
    assert_eq!(command_from_text("/score"), TelegramCommand::Score);
    assert_eq!(command_from_text("/blacklist abc"), TelegramCommand::Blacklist);
    assert_eq!(command_from_text("/helius"), TelegramCommand::Helius);
    assert_eq!(command_from_text("/stats"), TelegramCommand::Unrecognized);
    assert_eq!(command_from_text("hello"), TelegramCommand::Unrecognized);
    assert_eq!(command_from_text(""), TelegramCommand::Unrecognized);
    assert_eq!(command_word_of("/x@y@z w"), "/x");
    assert_eq!(command_word_of("   "), "");
}

#[test]
fn telegram_commands_from_buttons() {
    assert_eq!(command_from_button("/pause"), TelegramCommand::Pause);
    assert_eq!(command_from_button("/resume"), TelegramCommand::Resume);
    assert_eq!(command_from_button("/status"), TelegramCommand::Status);
    assert_eq!(command_from_button("/stats"), TelegramCommand::Status);
    assert_eq!(command_from_button("/trades"), TelegramCommand::Trades);
    assert_eq!(command_from_button("/score"), TelegramCommand::Unrecognized);
    assert_eq!(command_from_button("/pause@bot"), TelegramCommand::Unrecognized);
}

#[test]
fn telegram_blacklist_argument() {
    assert_eq!(blacklist_argument("/blacklist  So1111 extra"), Some("So1111".to_string()));
    assert_eq!(blacklist_argument("/blacklist"), None);
}

#[test]
fn telegram_chat_filter() {
    assert_eq!(signed_decimal_string(-1001234567890), "-1001234567890");
    assert_eq!(signed_decimal_string(i64::MIN), i64::MIN.to_string());
    assert_eq!(signed_decimal_string(0), "0");
    assert!(is_configured_chat(-1001234567890, "-1001234567890"));
    assert!(!is_configured_chat(42, "-1001234567890"));
    assert!(!is_configured_chat(0, "0"));
    assert!(is_configured_button_chat(0, "0"));
    assert!(is_configured_button_chat(777, "777"));
}

#[test]
fn telegram_backoff_and_polling() {
    assert_eq!(backoff_secs(0), 0);
    assert_eq!(backoff_secs(1), 30);
    assert_eq!(backoff_secs(2), 60);
    assert_eq!(backoff_secs(3), 120);
    assert_eq!(backoff_secs(4), 300);
    assert_eq!(backoff_secs(1000), 300);

    let mut p = TelegramPoller::new(0);
    assert!(p.start_poll(0));
    assert_eq!(p.poll_failed(), 1);
    assert!(!p.start_poll(29_999));
    assert!(p.start_poll(30_000));
    assert_eq!(p.last_poll_ms, 30_000);
    assert_eq!(p.poll_failed(), 2);
    assert!(!p.start_poll(89_999));
    assert_eq!(p.poll_succeeded(), 2);
    assert!(p.start_poll(30_001));
    p.saw_update(17);
    p.saw_update(5);
    assert_eq!(p.last_update_id, 17);
}

#[test]
fn circuit_breaker_trips_after_a_losing_streak() {
    let mut c = BotControl::new(3, 2);
    assert!(!c.record_trade(true, 0));
    assert!(!c.record_trade(true, 10));
    assert_eq!(c.buy_block(false, 10), None);
    assert!(c.record_trade(true, 20));
    assert_eq!(c.circuit_breaker_until_ms, Some(20 + 2 * 3_600_000));
    assert_eq!(c.buy_block(false, 30), Some(BuyBlock::CircuitBreaker));
    assert_eq!(c.buy_block(true, 30), Some(BuyBlock::DailyLossLimit));
    assert!(!c.expire_circuit_breaker(7_200_019));
    assert!(c.expire_circuit_breaker(7_200_020));
    assert_eq!(c.consecutive_losses, 0);
    assert_eq!(c.buy_block(false, 7_200_020), None);
}

#[test]
fn a_win_resets_the_losing_streak() {
    let mut c = BotControl::new(2, 1);
    c.record_trade(true, 0);
    assert_eq!(c.consecutive_losses, 1);
    assert!(!c.record_trade(false, 1));
    assert_eq!(c.consecutive_losses, 0);
    assert!(!c.record_trade(true, 2));
    assert_eq!(c.circuit_breaker_until_ms, None);
}

#[test]
fn pause_and_resume_commands() {
    let mut c = BotControl::new(1, 1);
    assert_eq!(c.apply_command(TelegramCommand::Pause), CommandReply::Paused);
    assert_eq!(c.buy_block(false, 0), Some(BuyBlock::ManualPause));
    c.record_trade(true, 0);
    assert_eq!(c.buy_block(false, 1), Some(BuyBlock::CircuitBreaker));
    assert_eq!(c.apply_command(TelegramCommand::Resume), CommandReply::Resumed);
    assert!(!c.is_paused);
    assert_eq!(c.consecutive_losses, 0);
    assert_eq!(c.circuit_breaker_until_ms, None);
    assert_eq!(c.buy_block(false, 1), None);
    assert_eq!(c.apply_command(TelegramCommand::Status), CommandReply::Status);
    assert_eq!(c.apply_command(TelegramCommand::Unrecognized), CommandReply::Nothing);
}

#[test]
fn peak_hours_and_scan_modes() {
    let peak: Vec<u32> = (0..24).filter(|h| is_peak_hour(*h)).collect();
    assert_eq!(peak, vec![13, 14, 15, 16, 20, 21, 22, 23]);
    assert_eq!(scan_mode(false, false, 3), ScanMode::Normal);
    assert_eq!(scan_mode(true, false, 14), ScanMode::Normal);
    assert_eq!(scan_mode(true, false, 3), ScanMode::SkipOffPeak);
    assert_eq!(scan_mode(true, true, 17), ScanMode::StrictOffPeak);
}

#[test]
fn social_channels_are_read_from_the_description() {
    let both = analyze_social("Join t.me/coin and follow x.com/coin");
    assert!(both.has_twitter && both.has_telegram);
    assert_eq!((both.hype, both.points), (70, 10));
    assert_eq!(both.signals, strings(&["🐦 Twitter present", "📱 Telegram present"]));
    let one = analyze_social("our telegram is great");
    assert!(!one.has_twitter && one.has_telegram);
    assert_eq!((one.hype, one.points), (40, 6));
    assert_eq!(one.signals, strings(&["📱 Telegram present"]));
    let none = analyze_social("");
    assert_eq!((none.hype, none.points), (10, 2));
    assert!(none.signals.is_empty());
}

#[test]
fn substring_search() {
    assert!(contains_text("abcabd", "abd"));
    assert!(contains_text("abc", ""));
    assert!(!contains_text("ab", "abc"));
    assert!(!contains_text("twiter", "twitter"));
    assert!(contains_text("ünïcode x.com", "x.com"));
}

#[test]
fn authority_checks() {
    let unknown = analyze_security(None);
    assert!(unknown.mint_revoked && unknown.freeze_revoked && !unknown.metadata_available);
    assert_eq!(unknown.points, 0);
    assert_eq!(unknown.flags, strings(&["⚠️ Security data unavailable — Helius not indexed yet"]));
    assert!(unknown.signals.is_empty());
    let safe = analyze_security(Some((true, true)));
    assert_eq!(safe.points, 10);
    assert_eq!(safe.signals, strings(&["✅ Mint authority revoked", "✅ Freeze authority revoked"]));
    assert!(safe.flags.is_empty());
    let risky = analyze_security(Some((false, false)));
    assert_eq!(risky.points, 0);
    assert_eq!(
        risky.flags,
        strings(&[
            "🔴 Mint authority NOT revoked — risk of new token minting",
            "⚠️ Freeze authority active — wallets can be frozen",
        ])
    );
    assert_eq!(analyze_security(Some((true, false))).points, 6);
    assert_eq!(analyze_security(Some((false, true))).points, 4);
}

#[test]
fn whale_activity() {
    let v = analyze_whales(3, 7, 3);
    assert!(v.accumulation && !v.distribution);
    assert_eq!(v.points, 17);
    assert_eq!(v.signals, strings(&["🐋 3 smart wallets entered!", "📈 Clear accumulation pattern — no distribution"]));
    let d = analyze_whales(0, 1, 2);
    assert!(d.distribution && !d.accumulation);
    assert_eq!(d.points, 0);
    assert!(d.signals.is_empty());
    assert_eq!(analyze_whales(1, 2, 1).points, 6);
    assert_eq!(analyze_whales(5, 2, 3).points, 7);
    let smart = strings(&["W1", "W2"]);
    let payers = vec![Some("W1".to_string()), None, Some("X".to_string()), Some("W2".to_string()), Some("W1".to_string())];
    assert_eq!(count_smart_entries(&payers, &smart), 3);
}

#[test]
fn calendar_rules() {
    assert_eq!(MAX_DAILY_ALERTS, 15);
    assert!(alert_allowed(14));
    assert!(!alert_allowed(15));
    let now = 1_700_000_000i64;
    assert!(is_fresh_token("solana", 0, now));
    assert!(is_fresh_token("solana", now - 6 * 3600, now));
    assert!(is_fresh_token("solana", now - 7 * 3600 + 1, now));
    assert!(!is_fresh_token("solana", now - 7 * 3600, now));
    assert!(is_fresh_token("solana", now + 100, now));
    assert!(!is_fresh_token("ethereum", 0, now));
    assert!(no_trade_warning_due(21_600_000, 21_600_000));
    assert!(!no_trade_warning_due(21_599_999, 99_999_999));
    assert!(!no_trade_warning_due(99_999_999, 1));
    assert_eq!(whole_hours(7_199_999), 1);
    assert!(new_day("2025-03-02", "2025-03-01"));
    assert!(!new_day("2025-03-02", "2025-03-02"));
    assert_eq!(week_key(2025, 3), "2025-W03");
    assert_eq!(week_key(2025, 42), "2025-W42");
    assert!(weekly_report_due(true, 6, "2025-W03", "2025-W02"));
    assert!(!weekly_report_due(true, 5, "2025-W03", "2025-W02"));
    assert!(!weekly_report_due(false, 9, "2025-W03", "2025-W02"));
    assert!(!weekly_report_due(true, 9, "2025-W03", "2025-W03"));
}

#[test]
fn buy_checks_run_in_order() {
    let ok = BuyFacts {
        trading_enabled: true,
        score_reaches_minimum: true,
        already_held: false,
        open_positions: 1,
        max_positions: 2,
        liquidity_reaches_minimum: true,
        mint_revoked: true,
    };
    assert_eq!(buy_gate(ok), None);
    assert_eq!(buy_gate(BuyFacts { trading_enabled: false, score_reaches_minimum: false, ..ok }), Some(BuySkip::TradingDisabled));
    assert_eq!(buy_gate(BuyFacts { score_reaches_minimum: false, already_held: true, ..ok }), Some(BuySkip::ScoreTooLow));
    assert_eq!(buy_gate(BuyFacts { already_held: true, open_positions: 9, ..ok }), Some(BuySkip::AlreadyHeld));
    assert_eq!(buy_gate(BuyFacts { open_positions: 2, mint_revoked: false, ..ok }), Some(BuySkip::TooManyPositions));
    assert_eq!(buy_gate(BuyFacts { liquidity_reaches_minimum: false, mint_revoked: false, ..ok }), Some(BuySkip::LiquidityTooLow));
    assert_eq!(buy_gate(BuyFacts { mint_revoked: false, ..ok }), Some(BuySkip::MintNotRevoked));
}

#[test]
fn exits_are_tried_in_order() {
    let none = StageFacts {
        tp1_enabled: true,
        tp1_fired: false,
        tp1_reached: false,
        tp2_enabled: true,
        tp2_fired: false,
        tp2_reached: false,
    };
    let all_reached = StageFacts { tp1_reached: true, tp2_reached: true, ..none };
    assert_eq!(staged_exit(true, all_reached), Some(StagedExit::StopLoss));
    assert_eq!(staged_exit(false, all_reached), Some(StagedExit::TakeProfit1));
    let after_tp1 = StageFacts { tp1_fired: true, ..all_reached };
    assert_eq!(staged_exit(false, after_tp1), Some(StagedExit::TakeProfit2));
    let after_tp2 = StageFacts { tp2_fired: true, ..after_tp1 };
    assert_eq!(staged_exit(false, after_tp2), None);
    assert_eq!(staged_exit(false, none), None);
    assert!(!final_tp_eligible(after_tp1));
    assert!(final_tp_eligible(after_tp2));
    assert!(final_tp_eligible(StageFacts { tp1_enabled: false, tp2_enabled: false, ..none }));
    assert!(final_tp_eligible(StageFacts { tp2_enabled: false, tp1_fired: true, ..none }));
    assert_eq!(late_exit(true, none, true, true), Some(LateExit::TrailingStop));
    assert_eq!(late_exit(false, after_tp2, true, true), Some(LateExit::TakeProfit));
    assert_eq!(late_exit(false, after_tp1, true, true), Some(LateExit::TimeExit));
    assert_eq!(late_exit(false, after_tp1, true, false), None);
}

#[test]
fn a_sell_closes_or_marks_its_stage() {
    assert_eq!(after_sell(true, 1, false, false), AfterSell::Closed);
    assert_eq!(after_sell(true, 0, true, true), AfterSell::Closed);
    assert_eq!(after_sell(false, 1, false, false), AfterSell::Open { tp1_fired: true, tp2_fired: false });
    assert_eq!(after_sell(false, 2, true, false), AfterSell::Open { tp1_fired: true, tp2_fired: true });
    assert_eq!(after_sell(false, 0, true, false), AfterSell::Open { tp1_fired: true, tp2_fired: false });
}

#[test]
fn a_partial_stage_fires_once() {
    let reached = StageFacts {
        tp1_enabled: true,
        tp1_fired: false,
        tp1_reached: true,
        tp2_enabled: true,
        tp2_fired: false,
        tp2_reached: false,
    };
    assert_eq!(staged_exit(false, reached), Some(StagedExit::TakeProfit1));
    let AfterSell::Open { tp1_fired, tp2_fired } = after_sell(false, 1, reached.tp1_fired, reached.tp2_fired) else {
        panic!("a partial sell closed the position");
    };
    let later = StageFacts { tp1_fired, tp2_fired, ..reached };
    assert_eq!(staged_exit(false, later), None);
}
