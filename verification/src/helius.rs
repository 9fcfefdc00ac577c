//! The pool of Helius API keys: which keys are configured, which one is in
//! use, and the rotation away from a key that answered "rate limited".
//! Times are milliseconds on a monotonic clock, read by the caller.

use vstd::prelude::*;
use vstd::string::*;
use crate::rate_limit::{RateLimiter, RateLimiterView, pruned, recorded, wait_for};
use crate::text::{decimal, decimal_string, list_contains, same_text, split_on, split_on_char, texts, trim, trimmed};

verus! {

/// The value of the sample configuration, which is not a key.
pub open spec fn placeholder_key() -> Seq<char> {
    "your_helius_api_key_here"@
}

/// The key list after considering one more configured value: its trimmed text
/// is added unless it is empty, already present, or (where placeholders are
/// rejected) the placeholder.
#[verifier::opaque]
pub open spec fn with_candidate(keys: Seq<Seq<char>>, value: Seq<char>, reject_placeholder: bool) -> Seq<Seq<char>> {
    let k = trimmed(value);
    if k.len() == 0 || keys.contains(k) || (reject_placeholder && k == placeholder_key()) {
        keys
    } else {
        keys.push(k)
    }
}

/// The key list after considering the values in order.
pub open spec fn with_candidates(keys: Seq<Seq<char>>, values: Seq<Seq<char>>, reject_placeholder: bool) -> Seq<Seq<char>>
    decreases values.len(),
{
    if values.len() == 0 {
        keys
    } else {
        with_candidate(with_candidates(keys, values.drop_last(), reject_placeholder), values.last(), reject_placeholder)
    }
}

/// The keys configured by `HELIUS_API_KEY` (comma-separated, placeholder
/// ignored), then `HELIUS_API_KEY_2` to `HELIUS_API_KEY_10` (the values set,
/// in that order), then `HELIUS_API_KEYS` (comma-separated): each once, in
/// order of first appearance, without surrounding whitespace.
pub open spec fn configured_keys(
    primary: Option<Seq<char>>,
    numbered: Seq<Seq<char>>,
    all: Option<Seq<char>>,
) -> Seq<Seq<char>> {
    let a = match primary {
        Some(p) => with_candidates(seq![], split_on(p, ','), true),
        None => seq![],
    };
    let b = with_candidates(a, numbered, false);
    match all {
        Some(x) => with_candidates(b, split_on(x, ','), false),
        None => b,
    }
}

/// Adds the trimmed value unless `with_candidate` leaves it out.
fn add_candidate(keys: &mut Vec<String>, value: &str, reject_placeholder: bool)
    ensures
        texts(final(keys)@) == with_candidate(texts(old(keys)@), value@, reject_placeholder),
{
    reveal(with_candidate);
    let k = trim(value);
    if k.unicode_len() == 0 {
        return;
    }
    if list_contains(keys, k) {
        return;
    }
    if reject_placeholder && same_text(k, "your_helius_api_key_here") {
        return;
    }
    let ghost before = texts(keys@);
    keys.push(String::from_str(k));
    assert(texts(keys@) =~= before.push(k@));
}

/// Adds the trimmed values in order, as `with_candidates` describes.
fn add_candidates(keys: &mut Vec<String>, values: &Vec<String>, reject_placeholder: bool)
    ensures
        texts(final(keys)@) == with_candidates(texts(old(keys)@), texts(values@), reject_placeholder),
{
    let ghost start = texts(keys@);
    let ghost vs = texts(values@);
    let mut i: usize = 0;
    assert(vs.take(0) =~= Seq::<Seq<char>>::empty());
    while i < values.len()
        invariant
            i <= values.len(),
            vs == texts(values@),
            texts(keys@) == with_candidates(start, vs.take(i as int), reject_placeholder),
        decreases values.len() - i,
    {
        proof {
            assert(vs.take(i + 1).drop_last() =~= vs.take(i as int));
            assert(vs.take(i + 1).last() == values@[i as int]@);
        }
        add_candidate(keys, values[i].as_str(), reject_placeholder);
        i = i + 1;
    }
    assert(vs.take(values@.len() as int) =~= vs);
}

/// Collects the configured keys (see `configured_keys`) from the values of
/// `HELIUS_API_KEY`, of the numbered variables that are set, and of
/// `HELIUS_API_KEYS`.
pub fn collect_keys(primary: Option<&str>, numbered: &Vec<String>, all: Option<&str>) -> (keys: Vec<String>)
    ensures
        texts(keys@) == configured_keys(
            match primary { Some(p) => Some(p@), None => None },
            texts(numbered@),
            match all { Some(x) => Some(x@), None => None },
        ),
{
    let mut keys: Vec<String> = Vec::new();
    assert(texts(keys@) =~= Seq::<Seq<char>>::empty());
    if let Some(p) = primary {
        let pieces = split_on_char(p, ',');
        add_candidates(&mut keys, &pieces, true);
    }
    add_candidates(&mut keys, numbered, false);
    if let Some(x) = all {
        let pieces = split_on_char(x, ',');
        add_candidates(&mut keys, &pieces, false);
    }
    keys
}

/// What a key pool holds: the keys, the index of the key in use, until when
/// each key is rate-limited, and each key's own request budget.
#[verifier::ext_equal]
pub struct KeyPoolView {
    pub keys: Seq<Seq<char>>,
    pub current: usize,
    pub limited_until: Seq<Option<u64>>,
    pub limiters: Seq<RateLimiterView>,
}

impl KeyPoolView {
    /// At least one key; the key in use is one of them; one rate-limit mark
    /// and one budget per key.
    pub open spec fn well_formed(self) -> bool {
        &&& 0 < self.keys.len() <= usize::MAX
        &&& self.current < self.keys.len()
        &&& self.limited_until.len() == self.keys.len()
        &&& self.limiters.len() == self.keys.len()
        &&& forall|i: int| 0 <= i < self.limiters.len() ==> {
            &&& (#[trigger] self.limiters[i]).max_calls == key_budget().max_calls
            &&& self.limiters[i].window_secs == key_budget().window_secs
        }
    }
}

/// Several Helius API keys used in turn: when one answers "rate limited" the
/// pool moves on to the next key that is not.
pub struct HeliusKeyPool {
    keys: Vec<String>,
    current_index: usize,
    rate_limited_until: Vec<Option<u64>>,
    limiters: Vec<RateLimiter>,
}

impl View for HeliusKeyPool {
    type V = KeyPoolView;

    closed spec fn view(&self) -> KeyPoolView {
        KeyPoolView {
            keys: texts(self.keys@),
            current: self.current_index,
            limited_until: self.rate_limited_until@,
            limiters: self.limiters@.map_values(|l: RateLimiter| l@),
        }
    }
}

/// How long a key counts as rate-limited after it answered so: 65 seconds.
pub open spec fn rate_limit_pause_ms() -> nat {
    65000
}

/// The budget each key starts with: 40 requests per 60 seconds.
pub open spec fn key_budget() -> RateLimiterView {
    RateLimiterView { calls: Seq::empty(), max_calls: 40, window_secs: 60 }
}

/// A key with this mark can be used at `now`: it has none, or it has expired.
pub open spec fn key_available(until: Option<u64>, now: u64) -> bool {
    match until {
        None => true,
        Some(u) => now >= u,
    }
}

/// The index `step` places after `start`, going round a list of `n` keys.
pub open spec fn index_after(start: nat, step: nat, n: nat) -> nat {
    (start + step) % n
}

/// The smallest step from `step` on, below the number of keys, that reaches
/// an available key going round from `start`.
pub open spec fn next_available(marks: Seq<Option<u64>>, start: nat, step: nat, now: u64) -> Option<nat>
    decreases marks.len() - step,
{
    if step >= marks.len() {
        None
    } else if key_available(marks[index_after(start, step, marks.len()) as int], now) {
        Some(step)
    } else {
        next_available(marks, start, step + 1, now)
    }
}

/// The pool after the key in use answered "rate limited" at `now`, and
/// whether every key was limited: the key is marked for 65 seconds, and the
/// pool moves round to the first other key that is available, clearing its
/// expired mark; when there is none it stays where it is.
pub open spec fn rotated(v: KeyPoolView, now: u64) -> (KeyPoolView, bool) {
    let n = v.keys.len();
    let marked = v.limited_until.update(v.current as int, Some((now + rate_limit_pause_ms()) as u64));
    match next_available(v.limited_until, v.current as nat, 1, now) {
        Some(step) => {
            let j = index_after(v.current as nat, step, n);
            (KeyPoolView { current: j as usize, limited_until: marked.update(j as int, None), ..v }, false)
        },
        None => (KeyPoolView { limited_until: marked, ..v }, true),
    }
}

/// The UTF-8 bytes of a key.
pub open spec fn key_bytes(k: Seq<char>) -> Seq<u8> {
    vstd::utf8::encode_utf8(k)
}

/// A key can be shown masked: when it is longer than 8 bytes, its first 8
/// bytes end on a character boundary.
pub open spec fn maskable(k: Seq<char>) -> bool {
    key_bytes(k).len() > 8 ==> vstd::utf8::is_char_boundary(key_bytes(k), 8)
}

/// A key as logs show it: its first 8 bytes and `***`, or only `***` for a key
/// of at most 8 bytes.
pub open spec fn masked_text(k: Seq<char>) -> Seq<char> {
    if key_bytes(k).len() > 8 {
        vstd::utf8::decode_utf8(key_bytes(k).take(8)) + "***"@
    } else {
        "***"@
    }
}

/// The state of a key's mark at `now`, as the status shows it.
pub open spec fn mark_text(until: Option<u64>, now: u64) -> Seq<char> {
    match until {
        None => "\u{2705} OK"@,
        Some(u) => if now >= u {
            "\u{2705} OK (recovered)"@
        } else {
            "\u{23f3} Rate-limited ("@ + decimal(((u - now) / 1000) as nat) + "s left)"@
        },
    }
}

/// The status line of key `i`: a marker for the key in use, its number, the
/// masked key and the state of its mark.
pub open spec fn status_line(v: KeyPoolView, i: int, now: u64) -> Seq<char> {
    (if i == v.current { "\u{25b6}"@ } else { "  "@ }) + " Key #"@ + decimal((i + 1) as nat) + ": "@
        + masked_text(v.keys[i]) + " \u{2014} "@ + mark_text(v.limited_until[i], now)
}

/// Lines joined with newlines between them.
pub open spec fn joined_lines(lines: Seq<Seq<char>>) -> Seq<char>
    decreases lines.len(),
{
    if lines.len() == 0 {
        seq![]
    } else if lines.len() == 1 {
        lines[0]
    } else {
        joined_lines(lines.drop_last()) + "\n"@ + lines.last()
    }
}

/// The status of every key at `now`, one line per key.
pub open spec fn status_text(v: KeyPoolView, now: u64) -> Seq<char> {
    joined_lines(Seq::new(v.keys.len(), |i: int| status_line(v, i, now)))
}

/// Keys are distinct and none is empty.
pub open spec fn distinct_nonempty(keys: Seq<Seq<char>>) -> bool {
    &&& forall|i: int| 0 <= i < keys.len() ==> (#[trigger] keys[i]).len() > 0
    &&& forall|i: int, j: int| 0 <= i < j < keys.len() ==> keys[i] != keys[j]
}

/// Adding candidates keeps a list of distinct, non-empty keys so.
proof fn lemma_candidates_distinct(keys: Seq<Seq<char>>, values: Seq<Seq<char>>, reject_placeholder: bool)
    requires
        distinct_nonempty(keys),
    ensures
        distinct_nonempty(with_candidates(keys, values, reject_placeholder)),
    decreases values.len(),
{
    reveal(with_candidate);
    if values.len() > 0 {
        let before = with_candidates(keys, values.drop_last(), reject_placeholder);
        lemma_candidates_distinct(keys, values.drop_last(), reject_placeholder);
        let k = trimmed(values.last());
        if !(k.len() == 0 || before.contains(k) || (reject_placeholder && k == placeholder_key())) {
            let after = before.push(k);
            assert forall|i: int, j: int| 0 <= i < j < after.len() implies after[i] != after[j] by {
                if j == after.len() - 1 {
                    assert(before[i] == after[i]);
                    if after[i] == after[j] {
                        assert(before.contains(k));
                    }
                }
            }
        }
    }
}

/// Every key is configured once: the configured keys are distinct, and none
/// is empty.
pub proof fn law_configured_keys_distinct(primary: Option<Seq<char>>, numbered: Seq<Seq<char>>, all: Option<Seq<char>>)
    ensures
        distinct_nonempty(configured_keys(primary, numbered, all)),
{
    let empty = Seq::<Seq<char>>::empty();
    let a = match primary {
        Some(p) => with_candidates(empty, split_on(p, ','), true),
        None => empty,
    };
    if let Some(p) = primary {
        lemma_candidates_distinct(empty, split_on(p, ','), true);
    }
    lemma_candidates_distinct(a, numbered, false);
    let b = with_candidates(a, numbered, false);
    if let Some(x) = all {
        lemma_candidates_distinct(b, split_on(x, ','), false);
    }
}

/// What the search for an available key finds from `step` on: the first
/// available key, every key before it being limited; or, when it finds none,
/// that every key from `step` on is limited.
proof fn lemma_next_available(marks: Seq<Option<u64>>, start: nat, step: nat, now: u64)
    ensures
        match next_available(marks, start, step, now) {
            Some(d) => step <= d < marks.len() && key_available(
                marks[index_after(start, d, marks.len()) as int],
                now,
            ) && forall|k: nat| step <= k < d ==> !key_available(
                #[trigger] marks[index_after(start, k, marks.len()) as int],
                now,
            ),
            None => forall|k: nat| step <= k < marks.len() ==> !key_available(
                #[trigger] marks[index_after(start, k, marks.len()) as int],
                now,
            ),
        },
    decreases marks.len() - step,
{
    if step < marks.len() && !key_available(marks[index_after(start, step, marks.len()) as int], now) {
        lemma_next_available(marks, start, step + 1, now);
    }
}

/// Going round fewer steps than there are keys never comes back to the start.
proof fn lemma_index_after_moves(start: nat, step: nat, n: nat)
    requires
        start < n,
        0 < step < n,
    ensures
        index_after(start, step, n) != start,
        index_after(start, step, n) < n,
{
    if start + step < n {
        vstd::arithmetic::div_mod::lemma_small_mod(start + step, n);
    } else {
        vstd::arithmetic::div_mod::lemma_mod_sub_multiples_vanish((start + step) as int, n as int);
        vstd::arithmetic::div_mod::lemma_small_mod((start + step - n) as nat, n);
    }
}

/// Rotation goes round the keys in order: it marks the key that was rate
/// limited for 65 seconds and moves to the first key after it that is
/// available, every key passed over being still limited, the new key's mark
/// cleared. When every other key is limited it reports so and stays put.
pub proof fn law_rotation_takes_next_available_key(v: KeyPoolView, now: u64)
    requires
        v.well_formed(),
        now + rate_limit_pause_ms() <= u64::MAX,
    ensures
        ({
            let (w, all_limited) = rotated(v, now);
            let n = v.keys.len();
            &&& w.well_formed()
            &&& w.keys == v.keys
            &&& w.limiters == v.limiters
            &&& if all_limited {
                &&& w.current == v.current
                &&& w.limited_until[v.current as int] == Some((now + rate_limit_pause_ms()) as u64)
                &&& forall|i: int| 0 <= i < n && i != v.current ==> !key_available(#[trigger] v.limited_until[i], now)
            } else {
                &&& w.current != v.current
                &&& key_available(v.limited_until[w.current as int], now)
                &&& w.limited_until[w.current as int] is None
                &&& w.limited_until[v.current as int] == Some((now + rate_limit_pause_ms()) as u64)
                &&& exists|step: nat| 0 < step < n && w.current == index_after(v.current as nat, step, n)
                    && forall|k: nat| 0 < k < step ==> !key_available(
                    #[trigger] v.limited_until[index_after(v.current as nat, k, n) as int],
                    now,
                )
            }
        }),
{
    let n = v.keys.len();
    let s = v.current as nat;
    lemma_next_available(v.limited_until, s, 1, now);
    match next_available(v.limited_until, s, 1, now) {
        Some(d) => {
            lemma_index_after_moves(s, d, n);
            let j = index_after(s, d, n);
            assert(j < n);
            assert(rotated(v, now).0.current as nat == j);
            assert(0 < d < n && rotated(v, now).0.current == index_after(s, d, n) && forall|k: nat| 0 < k < d ==> !key_available(
                #[trigger] v.limited_until[index_after(s, k, n) as int], now));
        },
        None => {
            assert forall|i: int| 0 <= i < n && i != v.current implies !key_available(#[trigger] v.limited_until[i], now) by {
                let k: nat = if i > s { (i - s) as nat } else { (i + n - s) as nat };
                assert(0 < k < n);
                if i > s {
                    vstd::arithmetic::div_mod::lemma_small_mod(i as nat, n);
                } else {
                    vstd::arithmetic::div_mod::lemma_mod_sub_multiples_vanish((s + k) as int, n as int);
                    vstd::arithmetic::div_mod::lemma_small_mod(i as nat, n);
                }
                assert(index_after(s, k, n) == i);
            }
        },
    }
}

/// The pool after the key in use answered "rate limited" at each of `nows`
/// in turn.
pub open spec fn after_rotations(v: KeyPoolView, nows: Seq<u64>) -> KeyPoolView
    decreases nows.len(),
{
    if nows.len() == 0 {
        v
    } else {
        rotated(after_rotations(v, nows.drop_last()), nows.last()).0
    }
}

/// However many rotations happen, the pool stays well formed over the same
/// keys and budgets: the key in use is always one of the keys.
pub proof fn law_rotations_keep_key_in_use(v: KeyPoolView, nows: Seq<u64>)
    requires
        v.well_formed(),
        forall|i: int| 0 <= i < nows.len() ==> #[trigger] nows[i] + rate_limit_pause_ms() <= u64::MAX,
    ensures
        after_rotations(v, nows).well_formed(),
        after_rotations(v, nows).keys == v.keys,
        after_rotations(v, nows).limiters == v.limiters,
        after_rotations(v, nows).current < v.keys.len(),
    decreases nows.len(),
{
    if nows.len() > 0 {
        let before = nows.drop_last();
        assert forall|i: int| 0 <= i < before.len() implies #[trigger] before[i] + rate_limit_pause_ms()
            <= u64::MAX by {
            assert(before[i] == nows[i]);
        }
        law_rotations_keep_key_in_use(v, before);
        assert(nows.last() == nows[nows.len() - 1]);
        law_rotation_takes_next_available_key(after_rotations(v, before), nows.last());
    }
}

impl HeliusKeyPool {
    /// The pool is consistent.
    pub closed spec fn wf(&self) -> bool {
        &&& self@.well_formed()
        &&& self.keys@.len() == self.rate_limited_until@.len()
        &&& self.keys@.len() == self.limiters@.len()
    }

    /// A consistent pool is well formed as seen from outside: it has at least
    /// one key, and the key in use is one of them.
    pub proof fn lemma_wf_view(&self)
        requires
            self.wf(),
        ensures
            self@.well_formed(),
            self@.current < self@.keys.len(),
            self@.keys.len() > 0,
    {
    }

    /// A pool over the given keys, none of them rate-limited, each with its
    /// own budget of 40 requests per minute, the first in use.
    pub fn new(keys: Vec<String>) -> (pool: Self)
        requires
            keys@.len() > 0,
        ensures
            pool.wf(),
            pool@.keys == texts(keys@),
            pool@.current == 0,
            pool@.limited_until == Seq::new(keys@.len(), |i: int| None::<u64>),
            pool@.limiters == Seq::new(keys@.len(), |i: int| key_budget()),
    {
        let n = keys.len();
        let mut marks: Vec<Option<u64>> = Vec::new();
        let mut limiters: Vec<RateLimiter> = Vec::new();
        let mut i: usize = 0;
        while i < n
            invariant
                i <= n,
                marks@.len() == i,
                limiters@.len() == i,
                forall|j: int| 0 <= j < i ==> marks@[j] is None,
                forall|j: int| 0 <= j < i ==> #[trigger] limiters@[j]@ == key_budget(),
            decreases n - i,
        {
            marks.push(None);
            limiters.push(RateLimiter::new(40, 60));
            i = i + 1;
        }
        let pool = HeliusKeyPool { keys, current_index: 0, rate_limited_until: marks, limiters };
        assert(pool@.limited_until =~= Seq::new(n as nat, |i: int| None::<u64>));
        assert(pool@.limiters =~= Seq::new(n as nat, |i: int| key_budget()));
        pool
    }

    /// The key in use.
    pub fn current(&self) -> (k: &str)
        requires
            self.wf(),
        ensures
            k@ == self@.keys[self@.current as int],
    {
        self.keys[self.current_index].as_str()
    }

    /// Key `index`.
    pub fn key(&self, index: usize) -> (k: &str)
        requires
            self.wf(),
            index < self@.keys.len(),
        ensures
            k@ == self@.keys[index as int],
    {
        self.keys[index].as_str()
    }

    /// The index of the key in use.
    pub fn current_index(&self) -> (i: usize)
        requires
            self.wf(),
        ensures
            i == self@.current,
    {
        self.current_index
    }

    /// The number of keys.
    pub fn key_count(&self) -> (n: usize)
        requires
            self.wf(),
        ensures
            n == self@.keys.len(),
    {
        self.keys.len()
    }

    /// Key `index` masked for logging: its first 8 bytes and `***`.
    pub fn masked(&self, index: usize) -> (m: String)
        requires
            self.wf(),
            index < self@.keys.len(),
            maskable(self@.keys[index as int]),
        ensures
            m@ == masked_text(self@.keys[index as int]),
    {
        let k = self.keys[index].as_str();
        assert(k@ == self@.keys[index as int]);
        if k.as_bytes().len() > 8 {
            let (head, _) = k.split_at(8);
            proof {
                vstd::utf8::encode_utf8_decode_utf8(head@);
                assert(head.spec_bytes() =~= key_bytes(k@).take(8));
            }
            let mut m = String::from_str(head);
            m.append("***");
            m
        } else {
            String::from_str("***")
        }
    }

    /// Marks the key in use as rate-limited for 65 seconds from `now_ms` and
    /// moves to the next key round the list that is available (an expired mark
    /// is cleared on the way). Returns whether every key was rate-limited, in
    /// which case the key in use stays the same.
    pub fn rotate_on_rate_limit(&mut self, now_ms: u64) -> (all_limited: bool)
        requires
            old(self).wf(),
            now_ms + rate_limit_pause_ms() <= u64::MAX,
        ensures
            final(self).wf(),
            (final(self)@, all_limited) == rotated(old(self)@, now_ms),
    {
        let n = self.keys.len();
        let start = self.current_index;
        let ghost marks = self.rate_limited_until@;
        let ghost v0 = self@;
        assert(v0.keys.len() == n && v0.limited_until == marks && v0.current == start);
        self.rate_limited_until.set(start, Some(now_ms + 65000));
        let mut step: usize = 1;
        while step < n
            invariant
                n == self.keys@.len(),
                n == self.rate_limited_until@.len(),
                n == self.limiters@.len(),
                start < n,
                1 <= step,
                self.current_index == start,
                v0 == old(self)@,
                v0.well_formed(),
                v0.keys.len() == n,
                v0.limited_until == marks,
                v0.current == start,
                self@.keys == v0.keys,
                self@.limiters == v0.limiters,
                self.rate_limited_until@ == marks.update(start as int, Some((now_ms + 65000) as u64)),
                marks.len() == n,
                next_available(marks, start as nat, 1, now_ms) == next_available(marks, start as nat, step as nat, now_ms),
            decreases n - step,
        {
            let j = if step < n - start { start + step } else { step - (n - start) };
            assert(j == index_after(start as nat, step as nat, n as nat)) by (nonlinear_arith)
                requires
                    start < n,
                    step < n,
                    j == if step < n - start { start + step } else { step - (n - start) },
            {
                if step < n - start {
                    vstd::arithmetic::div_mod::lemma_small_mod((start + step) as nat, n as nat);
                } else {
                    vstd::arithmetic::div_mod::lemma_mod_sub_multiples_vanish((start + step) as int, n as int);
                    vstd::arithmetic::div_mod::lemma_small_mod((start + step - n) as nat, n as nat);
                }
            }
            assert(j != start);
            let available = match self.rate_limited_until[j] {
                None => true,
                Some(until) => now_ms >= until,
            };
            if available {
                self.rate_limited_until.set(j, None);
                self.current_index = j;
                proof {
                    assert(next_available(marks, start as nat, step as nat, now_ms) == Some(step as nat));
                    assert(self@.limited_until =~= rotated(v0, now_ms).0.limited_until);
                }
                return false;
            }
            step = step + 1;
        }
        proof {
            assert(next_available(marks, start as nat, step as nat, now_ms) is None);
            assert(self@.limited_until =~= rotated(v0, now_ms).0.limited_until);
        }
        true
    }

    /// The status of every key at `now_ms`, one line per key: the key in use
    /// marked, the key's number, the masked key, and whether it is usable or
    /// for how many more seconds it is rate-limited.
    pub fn status_summary(&self, now_ms: u64) -> (s: String)
        requires
            self.wf(),
            forall|i: int| 0 <= i < self@.keys.len() ==> maskable(#[trigger] self@.keys[i]),
        ensures
            s@ == status_text(self@, now_ms),
    {
        let n = self.keys.len();
        let ghost lines = Seq::new(n as nat, |i: int| status_line(self@, i, now_ms));
        let mut out = String::new();
        let mut i: usize = 0;
        assert(lines.take(0) =~= Seq::<Seq<char>>::empty());
        while i < n
            invariant
                self.wf(),
                n == self@.keys.len(),
                i <= n,
                lines == Seq::new(n as nat, |i: int| status_line(self@, i, now_ms)),
                forall|i: int| 0 <= i < self@.keys.len() ==> maskable(#[trigger] self@.keys[i]),
                out@ == joined_lines(lines.take(i as int)),
            decreases n - i,
        {
            let line = self.status_line(i, now_ms);
            let ghost before = out@;
            if i > 0 {
                out.append("\n");
            }
            out.append(line.as_str());
            assert(lines.take(i + 1).drop_last() =~= lines.take(i as int));
            assert(out@ =~= joined_lines(lines.take(i + 1)));
            i = i + 1;
        }
        assert(lines.take(n as int) =~= lines);
        out
    }

    /// The status line of key `i` at `now_ms`.
    fn status_line(&self, i: usize, now_ms: u64) -> (line: String)
        requires
            self.wf(),
            i < self@.keys.len(),
            maskable(self@.keys[i as int]),
        ensures
            line@ == status_line(self@, i as int, now_ms),
    {
        let mut line = if i == self.current_index {
            String::from_str("\u{25b6}")
        } else {
            String::from_str("  ")
        };
        line.append(" Key #");
        let count = self.keys.len();
        assert(i < count);
        line.append(decimal_string((i + 1) as u64).as_str());
        line.append(": ");
        line.append(self.masked(i).as_str());
        line.append(" \u{2014} ");
        match self.rate_limited_until[i] {
            None => line.append("\u{2705} OK"),
            Some(until) => {
                if now_ms >= until {
                    line.append("\u{2705} OK (recovered)");
                } else {
                    line.append("\u{23f3} Rate-limited (");
                    line.append(decimal_string((until - now_ms) / 1000).as_str());
                    line.append("s left)");
                }
            },
        }
        line
    }

    /// Drops the calls of the key in use that left its window by `now_ms`.
    pub fn prune_current(&mut self, now_ms: u64)
        requires
            old(self).wf(),
        ensures
            final(self).wf(),
            final(self)@ == (KeyPoolView {
                limiters: old(self)@.limiters.update(
                    old(self)@.current as int,
                    pruned(old(self)@.limiters[old(self)@.current as int], now_ms),
                ),
                ..old(self)@
            }),
    {
        let i = self.current_index;
        let mut limiter = self.limiters.remove(i);
        limiter.prune(now_ms);
        self.limiters.insert(i, limiter);
        proof {
            assert(self@.limiters =~= old(self)@.limiters.update(i as int, pruned(old(self)@.limiters[i as int], now_ms)));
        }
    }

    /// How many milliseconds to sleep at `now_ms` before using the key in use,
    /// if any (see `RateLimiter::wait_ms`).
    pub fn current_wait_ms(&self, now_ms: u64) -> (w: Option<u128>)
        requires
            self.wf(),
        ensures
            match w {
                Some(ms) => wait_for(self@.limiters[self@.current as int], now_ms) == Some(ms as nat),
                None => wait_for(self@.limiters[self@.current as int], now_ms) is None,
            },
    {
        let limiter = &self.limiters[self.current_index];
        assert(limiter@ == self@.limiters[self@.current as int]);
        limiter.wait_ms(now_ms)
    }

    /// Counts a request made with the key in use at `now_ms`.
    pub fn record_current(&mut self, now_ms: u64)
        requires
            old(self).wf(),
        ensures
            final(self).wf(),
            final(self)@ == (KeyPoolView {
                limiters: old(self)@.limiters.update(
                    old(self)@.current as int,
                    recorded(old(self)@.limiters[old(self)@.current as int], now_ms),
                ),
                ..old(self)@
            }),
    {
        let i = self.current_index;
        let mut limiter = self.limiters.remove(i);
        limiter.record(now_ms);
        self.limiters.insert(i, limiter);
        proof {
            assert(self@.limiters =~= old(self)@.limiters.update(i as int, recorded(old(self)@.limiters[i as int], now_ms)));
        }
    }
}


/// A rotation changes the marks of at most two keys: the key that was in use
/// is marked for 65 seconds from `now`, the key moved to (if any) has its
/// expired mark cleared, and every other key keeps its mark.
pub proof fn law_rotation_changes_no_other_mark(v: KeyPoolView, now: u64)
    requires
        v.well_formed(),
        now + rate_limit_pause_ms() <= u64::MAX,
    ensures
        ({
            let (w, all_limited) = rotated(v, now);
            &&& w.limited_until.len() == v.limited_until.len()
            &&& w.limited_until[v.current as int] == Some((now + rate_limit_pause_ms()) as u64)
            &&& all_limited ==> w.current == v.current
            &&& forall|i: int|
                0 <= i < v.limited_until.len() && i != v.current && i != w.current ==> #[trigger] w.limited_until[i]
                    == v.limited_until[i]
            &&& w.current != v.current ==> w.limited_until[w.current as int] is None && key_available(
                v.limited_until[w.current as int],
                now,
            )
        }),
{
    law_rotation_takes_next_available_key(v, now);
}

} // verus!
