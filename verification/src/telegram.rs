//! Telegram command handling: which command a message or a button press
//! carries, whether it comes from the configured chat, and the back-off of
//! the update polling while the Telegram API is unreachable.

use vstd::prelude::*;
use vstd::string::*;
use crate::text::{
    decimal, decimal_string, is_whitespace, same_text, split_from, split_on, split_on_char, split_words, texts, words,
    words_from,
};

verus! {

/// A command the bot answers.
#[derive(PartialEq, Eq, Structural, Clone, Copy, Debug)]
pub enum TelegramCommand {
    Status,
    Pause,
    Resume,
    Trades,
    Score,
    Blacklist,
    Helius,
    Unrecognized,
}

/// The command a typed command word names (`/stats` is only a button).
pub open spec fn typed_command(word: Seq<char>) -> TelegramCommand {
    if word == "/status"@ {
        TelegramCommand::Status
    } else if word == "/pause"@ {
        TelegramCommand::Pause
    } else if word == "/resume"@ {
        TelegramCommand::Resume
    } else if word == "/trades"@ {
        TelegramCommand::Trades
    } else if word == "/score"@ {
        TelegramCommand::Score
    } else if word == "/blacklist"@ {
        TelegramCommand::Blacklist
    } else if word == "/helius"@ {
        TelegramCommand::Helius
    } else {
        TelegramCommand::Unrecognized
    }
}

/// The command a button's data names: pause, resume, status (also as
/// `/stats`) and trades.
pub open spec fn button_command(data: Seq<char>) -> TelegramCommand {
    if data == "/pause"@ {
        TelegramCommand::Pause
    } else if data == "/resume"@ {
        TelegramCommand::Resume
    } else if data == "/status"@ || data == "/stats"@ {
        TelegramCommand::Status
    } else if data == "/trades"@ {
        TelegramCommand::Trades
    } else {
        TelegramCommand::Unrecognized
    }
}

/// The command word of a message: its first word (empty when it has none)
/// without an `@botname` suffix.
pub open spec fn command_word(text: Seq<char>) -> Seq<char> {
    let first = if words(text).len() > 0 {
        words(text)[0]
    } else {
        seq![]
    };
    split_on(first, '@')[0]
}

/// The first piece of a split has at least the empty string.
proof fn lemma_split_nonempty(cur: Seq<char>, rest: Seq<char>, sep: char)
    ensures
        split_from(cur, rest, sep).len() > 0,
    decreases rest.len(),
{
    if rest.len() > 0 && rest[0] != sep {
        lemma_split_nonempty(cur.push(rest[0]), rest.skip(1), sep);
    }
}

/// The command word of a message (see `command_word`).
pub fn command_word_of(text: &str) -> (w: String)
    ensures
        w@ == command_word(text@),
{
    let ws = split_words(text);
    let first = if ws.len() > 0 {
        ws[0].clone()
    } else {
        String::new()
    };
    assert(first@ == (if words(text@).len() > 0 { words(text@)[0] } else { seq![] }));
    let mut pieces = split_on_char(first.as_str(), '@');
    proof {
        lemma_split_nonempty(seq![], first@, '@');
    }
    pieces.swap_remove(0)
}

/// The command of a typed message.
pub fn command_from_text(text: &str) -> (c: TelegramCommand)
    ensures
        c == typed_command(command_word(text@)),
{
    let w = command_word_of(text);
    let w = w.as_str();
    if same_text(w, "/status") {
        TelegramCommand::Status
    } else if same_text(w, "/pause") {
        TelegramCommand::Pause
    } else if same_text(w, "/resume") {
        TelegramCommand::Resume
    } else if same_text(w, "/trades") {
        TelegramCommand::Trades
    } else if same_text(w, "/score") {
        TelegramCommand::Score
    } else if same_text(w, "/blacklist") {
        TelegramCommand::Blacklist
    } else if same_text(w, "/helius") {
        TelegramCommand::Helius
    } else {
        TelegramCommand::Unrecognized
    }
}

/// The command of a button press.
pub fn command_from_button(data: &str) -> (c: TelegramCommand)
    ensures
        c == button_command(data@),
{
    if same_text(data, "/pause") {
        TelegramCommand::Pause
    } else if same_text(data, "/resume") {
        TelegramCommand::Resume
    } else if same_text(data, "/status") || same_text(data, "/stats") {
        TelegramCommand::Status
    } else if same_text(data, "/trades") {
        TelegramCommand::Trades
    } else {
        TelegramCommand::Unrecognized
    }
}

/// The token address given to `/blacklist`: the message's second word.
pub fn blacklist_argument(text: &str) -> (arg: Option<String>)
    ensures
        match arg {
            Some(a) => words(text@).len() > 1 && a@ == words(text@)[1],
            None => words(text@).len() <= 1,
        },
{
    let ws = split_words(text);
    if ws.len() > 1 {
        let a = ws[1].clone();
        assert(a@ == texts(ws@)[1]);
        Some(a)
    } else {
        None
    }
}

/// An integer in decimal, with a minus sign when negative.
pub open spec fn signed_decimal(n: int) -> Seq<char> {
    if n < 0 {
        "-"@ + decimal((-n) as nat)
    } else {
        decimal(n as nat)
    }
}

/// Formats a signed integer in decimal, as `to_string` does.
pub fn signed_decimal_string(n: i64) -> (s: String)
    ensures
        s@ == signed_decimal(n as int),
{
    if n < 0 {
        let magnitude: u64 = (0i128 - n as i128) as u64;
        let mut s = String::from_str("-");
        s.append(decimal_string(magnitude).as_str());
        s
    } else {
        decimal_string(n as u64)
    }
}

/// Whether a message from chat `chat_id` is one the bot answers: the chat is
/// known (not 0) and its number, written in decimal, is the configured chat.
pub open spec fn answers_chat(chat_id: i64, configured: Seq<char>) -> bool {
    chat_id != 0 && signed_decimal(chat_id as int) == configured
}

/// Whether the bot answers a message from chat `chat_id`.
pub fn is_configured_chat(chat_id: i64, configured: &str) -> (b: bool)
    ensures
        b == answers_chat(chat_id, configured@),
{
    if chat_id == 0 {
        return false;
    }
    let id = signed_decimal_string(chat_id);
    same_text(id.as_str(), configured)
}

/// Whether a button press comes from the configured chat (a press without a
/// chat counts as chat 0).
pub open spec fn button_from_chat(chat_id: i64, configured: Seq<char>) -> bool {
    signed_decimal(chat_id as int) == configured
}

/// Whether a button press from chat `chat_id` is answered.
pub fn is_configured_button_chat(chat_id: i64, configured: &str) -> (b: bool)
    ensures
        b == button_from_chat(chat_id, configured@),
{
    let id = signed_decimal_string(chat_id);
    same_text(id.as_str(), configured)
}

/// The pause before polling again after `failures` failed polls in a row, in
/// seconds: none, then 30, 60, 120, and 300 from the fourth failure on.
pub open spec fn backoff(failures: u32) -> nat {
    if failures == 0 {
        0
    } else if failures == 1 {
        30
    } else if failures == 2 {
        60
    } else if failures == 3 {
        120
    } else {
        300
    }
}

/// The pause after `failures` failed polls in a row, in seconds.
pub fn backoff_secs(failures: u32) -> (s: u64)
    ensures
        s == backoff(failures),
{
    match failures {
        0 => 0,
        1 => 30,
        2 => 60,
        3 => 120,
        _ => 300,
    }
}

/// The state of update polling: failed polls in a row, when the last poll
/// started (milliseconds on a monotonic clock) and the last update seen.
pub struct TelegramPoller {
    pub failures: u32,
    pub last_poll_ms: u64,
    pub last_update_id: i64,
}

/// Whether polling at `now` is due: at least the back-off has passed since the
/// last poll started.
pub open spec fn poll_due(failures: u32, last_poll: u64, now: u64) -> bool {
    crate::rate_limit::elapsed_ms(last_poll, now) >= backoff(failures) * 1000
}

impl TelegramPoller {
    /// A poller that has not failed, whose clock starts at `now_ms`.
    pub fn new(now_ms: u64) -> (p: Self)
        ensures
            p.failures == 0,
            p.last_poll_ms == now_ms,
            p.last_update_id == 0,
    {
        TelegramPoller { failures: 0, last_poll_ms: now_ms, last_update_id: 0 }
    }

    /// Decides at `now_ms` whether to poll; when it does, the poll's start is
    /// remembered.
    pub fn start_poll(&mut self, now_ms: u64) -> (go: bool)
        ensures
            go == poll_due(old(self).failures, old(self).last_poll_ms, now_ms),
            final(self).failures == old(self).failures,
            final(self).last_update_id == old(self).last_update_id,
            final(self).last_poll_ms == if go { now_ms } else { old(self).last_poll_ms },
    {
        let elapsed: u64 = if now_ms >= self.last_poll_ms { now_ms - self.last_poll_ms } else { 0 };
        let wait = backoff_secs(self.failures);
        if elapsed / 1000 < wait {
            return false;
        }
        self.last_poll_ms = now_ms;
        true
    }

    /// Counts a failed poll (request error, rate limit or unreadable reply)
    /// and returns the number of failures in a row.
    pub fn poll_failed(&mut self) -> (n: u32)
        requires
            old(self).failures < u32::MAX,
        ensures
            n == old(self).failures + 1,
            final(self).failures == n,
            final(self).last_poll_ms == old(self).last_poll_ms,
            final(self).last_update_id == old(self).last_update_id,
    {
        self.failures = self.failures + 1;
        self.failures
    }

    /// Clears the failure count after a poll got a readable reply, returning
    /// how many failures it ends.
    pub fn poll_succeeded(&mut self) -> (ended: u32)
        ensures
            ended == old(self).failures,
            final(self).failures == 0,
            final(self).last_poll_ms == old(self).last_poll_ms,
            final(self).last_update_id == old(self).last_update_id,
    {
        let ended = self.failures;
        self.failures = 0;
        ended
    }

    /// Takes note of an update's id: the last seen is the greatest so far.
    pub fn saw_update(&mut self, update_id: i64)
        ensures
            final(self).last_update_id == if update_id > old(self).last_update_id {
                update_id
            } else {
                old(self).last_update_id
            },
            final(self).failures == old(self).failures,
            final(self).last_poll_ms == old(self).last_poll_ms,
    {
        if update_id > self.last_update_id {
            self.last_update_id = update_id;
        }
    }
}

/// The back-off never shrinks while failures accumulate, and it is at most
/// five minutes.
pub proof fn law_backoff_grows_to_a_cap(a: u32, b: u32)
    requires
        a <= b,
    ensures
        backoff(a) <= backoff(b),
        backoff(b) <= 300,
{
}

/// Reading on past characters that are no whitespace extends the word being
/// read.
proof fn lemma_words_extend(cur: Seq<char>, u: Seq<char>, tail: Seq<char>)
    requires
        forall|i: int| 0 <= i < u.len() ==> !is_whitespace(#[trigger] u[i]),
    ensures
        words_from(cur, u + tail) == words_from(cur + u, tail),
    decreases u.len(),
{
    if u.len() > 0 {
        assert((u + tail)[0] == u[0]);
        assert((u + tail).skip(1) =~= u.skip(1) + tail);
        assert(cur.push(u[0]) + u.skip(1) =~= cur + u);
        lemma_words_extend(cur.push(u[0]), u.skip(1), tail);
    } else {
        assert(u + tail =~= tail);
        assert(cur + u =~= cur);
    }
}

/// Leading whitespace is skipped before the first word.
proof fn lemma_words_skip_space(pre: Seq<char>, rest: Seq<char>)
    requires
        forall|i: int| 0 <= i < pre.len() ==> is_whitespace(#[trigger] pre[i]),
    ensures
        words_from(seq![], pre + rest) == words_from(seq![], rest),
    decreases pre.len(),
{
    if pre.len() > 0 {
        assert((pre + rest)[0] == pre[0]);
        assert((pre + rest).skip(1) =~= pre.skip(1) + rest);
        assert(Seq::<Seq<char>>::empty() + words_from(seq![], pre.skip(1) + rest) =~= words_from(seq![], pre.skip(1) + rest));
        lemma_words_skip_space(pre.skip(1), rest);
    } else {
        assert(pre + rest =~= rest);
    }
}

/// A word being read ends at whitespace or at the end of the text.
proof fn lemma_word_ends(cur: Seq<char>, tail: Seq<char>)
    requires
        cur.len() > 0,
        tail.len() == 0 || is_whitespace(tail[0]),
    ensures
        words_from(cur, tail).len() > 0,
        words_from(cur, tail)[0] == cur,
{
}

/// Reading past characters other than the separator extends the piece being
/// read.
proof fn lemma_split_extend(cur: Seq<char>, u: Seq<char>, tail: Seq<char>, sep: char)
    requires
        forall|i: int| 0 <= i < u.len() ==> #[trigger] u[i] != sep,
    ensures
        split_from(cur, u + tail, sep) == split_from(cur + u, tail, sep),
    decreases u.len(),
{
    if u.len() > 0 {
        assert((u + tail)[0] == u[0]);
        assert((u + tail).skip(1) =~= u.skip(1) + tail);
        assert(cur.push(u[0]) + u.skip(1) =~= cur + u);
        lemma_split_extend(cur.push(u[0]), u.skip(1), tail, sep);
    } else {
        assert(u + tail =~= tail);
        assert(cur + u =~= cur);
    }
}

/// The command word of a message that starts, after any whitespace, with a
/// command (no whitespace or `@` in it), optionally followed by `@` and the
/// bot's name, then by nothing or by whitespace and further words: the
/// command itself. So `/pause`, `  /pause now` and `/pause@basol_bot` all
/// name `/pause`.
pub proof fn law_command_word_ignores_bot_name_and_arguments(
    pre: Seq<char>,
    cmd: Seq<char>,
    bot: Option<Seq<char>>,
    tail: Seq<char>,
)
    requires
        forall|i: int| 0 <= i < pre.len() ==> is_whitespace(#[trigger] pre[i]),
        cmd.len() > 0,
        forall|i: int| 0 <= i < cmd.len() ==> !is_whitespace(#[trigger] cmd[i]) && cmd[i] != '@',
        bot matches Some(b) ==> forall|i: int| 0 <= i < b.len() ==> !is_whitespace(#[trigger] b[i]),
        tail.len() == 0 || is_whitespace(tail[0]),
    ensures
        command_word(pre + cmd + match bot { Some(b) => seq!['@'] + b, None => seq![] } + tail) == cmd,
{
    let suffix = match bot {
        Some(b) => seq!['@'] + b,
        None => Seq::<char>::empty(),
    };
    let word = cmd + suffix;
    assert forall|i: int| 0 <= i < word.len() implies !is_whitespace(#[trigger] word[i]) by {
        if i >= cmd.len() {
            if let Some(b) = bot {
                if i > cmd.len() {
                    assert(word[i] == b[i - cmd.len() - 1]);
                }
            }
        }
    }
    let text = pre + cmd + suffix + tail;
    assert(text =~= pre + (word + tail));
    lemma_words_skip_space(pre, word + tail);
    lemma_words_extend(seq![], word, tail);
    assert(Seq::<char>::empty() + word =~= word);
    lemma_word_ends(word, tail);
    assert(words(text)[0] == word);
    lemma_split_extend(seq![], cmd, suffix, '@');
    assert(Seq::<char>::empty() + cmd =~= cmd);
    assert(word =~= cmd + suffix);
    if let Some(b) = bot {
        assert(suffix[0] == '@');
        assert(suffix.skip(1) =~= b);
    } else {
        assert(suffix.len() == 0);
    }
}

} // verus!
