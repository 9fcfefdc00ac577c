//! Small string-building helpers with exact character-level contracts.

use vstd::prelude::*;
use vstd::string::*;

verus! {

/// `String::push` from std: the contract states that the character sequence of
/// the string grows by exactly the pushed character.
#[verifier::external_body]
pub(crate) fn push_char(s: &mut String, c: char)
    ensures
        final(s)@ == old(s)@.push(c),
{
    s.push(c);
}

/// The ASCII character of a decimal digit.
pub open spec fn digit_char(d: nat) -> char {
    ((48 + d) as u32) as char
}

/// The decimal representation of `n`, most significant digit first, without
/// leading zeros (`"0"` for zero).
pub open spec fn decimal(n: nat) -> Seq<char>
    decreases n,
{
    if n < 10 {
        seq![digit_char(n)]
    } else {
        decimal(n / 10).push(digit_char(n % 10))
    }
}

/// Formats `n` in decimal, as `format!("{}", n)` does for unsigned integers.
pub fn decimal_string(n: u64) -> (s: String)
    ensures
        s@ == decimal(n as nat),
    decreases n,
{
    let d = (n % 10) as u8;
    let c = (48u8 + d) as char;
    if n < 10 {
        let mut s = String::new();
        push_char(&mut s, c);
        s
    } else {
        let mut s = decimal_string(n / 10);
        push_char(&mut s, c);
        s
    }
}

/// Unicode `White_Space`, which `char::is_whitespace` and `str::trim` use.
pub open spec fn is_whitespace(c: char) -> bool {
    ||| '\u{9}' <= c <= '\u{d}'
    ||| c == ' '
    ||| c == '\u{85}'
    ||| c == '\u{a0}'
    ||| c == '\u{1680}'
    ||| '\u{2000}' <= c <= '\u{200a}'
    ||| c == '\u{2028}'
    ||| c == '\u{2029}'
    ||| c == '\u{202f}'
    ||| c == '\u{205f}'
    ||| c == '\u{3000}'
}

/// Whether `c` is Unicode whitespace.
pub fn exec_is_whitespace(c: char) -> (b: bool)
    ensures
        b == is_whitespace(c),
{
    ('\u{9}' <= c && c <= '\u{d}') || c == ' ' || c == '\u{85}' || c == '\u{a0}' || c
        == '\u{1680}' || ('\u{2000}' <= c && c <= '\u{200a}') || c == '\u{2028}' || c
        == '\u{2029}' || c == '\u{202f}' || c == '\u{205f}' || c == '\u{3000}'
}

/// `s` without its leading and trailing whitespace, as `str::trim` gives it:
/// the text between the first and the last character that is no whitespace
/// (empty when there is none).
pub open spec fn trimmed(s: Seq<char>) -> Seq<char> {
    if forall|i: int| 0 <= i < s.len() ==> is_whitespace(#[trigger] s[i]) {
        seq![]
    } else {
        let first = choose|i: int|
            0 <= i < s.len() && !is_whitespace(s[i]) && forall|j: int|
                0 <= j < i ==> is_whitespace(#[trigger] s[j]);
        let last = choose|i: int|
            0 <= i < s.len() && !is_whitespace(s[i]) && forall|j: int|
                i < j < s.len() ==> is_whitespace(#[trigger] s[j]);
        s.subrange(first, last + 1)
    }
}

/// Removes leading and trailing whitespace.
pub fn trim(s: &str) -> (t: &str)
    ensures
        t@ == trimmed(s@),
{
    let n = s.unicode_len();
    let mut start: usize = 0;
    while start < n && exec_is_whitespace(s.get_char(start))
        invariant
            n == s@.len(),
            start <= n,
            forall|j: int| 0 <= j < start ==> is_whitespace(#[trigger] s@[j]),
        decreases n - start,
    {
        start += 1;
    }
    if start == n {
        return s.substring_char(0, 0);
    }
    let mut end: usize = n;
    while end > start + 1 && exec_is_whitespace(s.get_char(end - 1))
        invariant
            n == s@.len(),
            start < end <= n,
            !is_whitespace(s@[start as int]),
            forall|j: int| end <= j < n ==> is_whitespace(#[trigger] s@[j]),
        decreases end,
    {
        end -= 1;
    }
    proof {
        let first = choose|i: int|
            0 <= i < s@.len() && !is_whitespace(s@[i]) && forall|j: int|
                0 <= j < i ==> is_whitespace(#[trigger] s@[j]);
        assert(0 <= start < s@.len() && !is_whitespace(s@[start as int]) && forall|j: int|
            0 <= j < start ==> is_whitespace(#[trigger] s@[j]));
        if first < start {
            assert(is_whitespace(s@[first]));
        } else if first > start {
            assert(is_whitespace(s@[start as int]));
        }
        assert(!is_whitespace(s@[end - 1]));
        let last = choose|i: int|
            0 <= i < s@.len() && !is_whitespace(s@[i]) && forall|j: int|
                i < j < s@.len() ==> is_whitespace(#[trigger] s@[j]);
        assert(0 <= end - 1 < s@.len() && !is_whitespace(s@[end - 1]) && forall|j: int|
            end - 1 < j < s@.len() ==> is_whitespace(#[trigger] s@[j]));
        if last < end - 1 {
            assert(is_whitespace(s@[end - 1]));
        } else if last > end - 1 {
            assert(is_whitespace(s@[last]));
        }
    }
    s.substring_char(start, end)
}

/// The character sequences of a list of strings.
pub open spec fn texts(v: Seq<String>) -> Seq<Seq<char>> {
    v.map_values(|s: String| s@)
}

/// Whether two strings hold the same characters.
pub fn same_text(a: &str, b: &str) -> (r: bool)
    ensures
        r == (a@ == b@),
{
    let n = a.unicode_len();
    if n != b.unicode_len() {
        return false;
    }
    let mut i: usize = 0;
    while i < n
        invariant
            n == a@.len(),
            n == b@.len(),
            i <= n,
            forall|j: int| 0 <= j < i ==> a@[j] == b@[j],
        decreases n - i,
    {
        if a.get_char(i) != b.get_char(i) {
            return false;
        }
        i = i + 1;
    }
    assert(a@ =~= b@);
    true
}

/// The pieces of `rest` between separators, the first of them continuing the
/// piece `cur` already read: what `str::split` yields, one piece more than
/// there are separators.
pub open spec fn split_from(cur: Seq<char>, rest: Seq<char>, sep: char) -> Seq<Seq<char>>
    decreases rest.len(),
{
    if rest.len() == 0 {
        seq![cur]
    } else if rest[0] == sep {
        seq![cur] + split_from(seq![], rest.skip(1), sep)
    } else {
        split_from(cur.push(rest[0]), rest.skip(1), sep)
    }
}

/// The pieces of `s` between occurrences of `sep`, as `str::split` gives them.
pub open spec fn split_on(s: Seq<char>, sep: char) -> Seq<Seq<char>> {
    split_from(seq![], s, sep)
}

/// Splits `s` at every `sep`.
pub fn split_on_char(s: &str, sep: char) -> (pieces: Vec<String>)
    ensures
        texts(pieces@) == split_on(s@, sep),
{
    let n = s.unicode_len();
    let mut pieces: Vec<String> = Vec::new();
    let mut cur = String::new();
    let mut i: usize = 0;
    assert(s@.skip(0) =~= s@);
    assert(texts(pieces@) =~= Seq::<Seq<char>>::empty());
    while i < n
        invariant
            n == s@.len(),
            i <= n,
            texts(pieces@) + split_from(cur@, s@.skip(i as int), sep) == split_on(s@, sep),
        decreases n - i,
    {
        let c = s.get_char(i);
        let ghost rest = s@.skip(i as int);
        assert(rest.skip(1) =~= s@.skip(i + 1));
        if c == sep {
            let ghost before = texts(pieces@);
            let ghost piece = cur@;
            pieces.push(cur);
            assert(texts(pieces@) =~= before.push(piece));
            cur = String::new();
            assert(before + (seq![piece] + split_from(seq![], rest.skip(1), sep)) =~= before.push(piece) + split_from(cur@, rest.skip(1), sep));
        } else {
            push_char(&mut cur, c);
        }
        i = i + 1;
    }
    let ghost before = texts(pieces@);
    assert(s@.skip(n as int) =~= Seq::<char>::empty());
    pieces.push(cur);
    assert(texts(pieces@) =~= before.push(cur@));
    pieces
}

/// The words of `rest`, the first continuing the word `cur` already read:
/// maximal runs of characters that are not whitespace, as
/// `str::split_whitespace` yields them.
pub open spec fn words_from(cur: Seq<char>, rest: Seq<char>) -> Seq<Seq<char>>
    decreases rest.len(),
{
    if rest.len() == 0 {
        if cur.len() == 0 {
            seq![]
        } else {
            seq![cur]
        }
    } else if is_whitespace(rest[0]) {
        (if cur.len() == 0 {
            seq![]
        } else {
            seq![cur]
        }) + words_from(seq![], rest.skip(1))
    } else {
        words_from(cur.push(rest[0]), rest.skip(1))
    }
}

/// The whitespace-separated words of `s`.
pub open spec fn words(s: Seq<char>) -> Seq<Seq<char>> {
    words_from(seq![], s)
}

/// Splits `s` into its whitespace-separated words.
pub fn split_words(s: &str) -> (ws: Vec<String>)
    ensures
        texts(ws@) == words(s@),
{
    let n = s.unicode_len();
    let mut ws: Vec<String> = Vec::new();
    let mut cur = String::new();
    let mut i: usize = 0;
    assert(s@.skip(0) =~= s@);
    assert(texts(ws@) =~= Seq::<Seq<char>>::empty());
    while i < n
        invariant
            n == s@.len(),
            i <= n,
            texts(ws@) + words_from(cur@, s@.skip(i as int)) == words(s@),
        decreases n - i,
    {
        let c = s.get_char(i);
        let ghost rest = s@.skip(i as int);
        assert(rest.skip(1) =~= s@.skip(i + 1));
        if exec_is_whitespace(c) {
            let ghost before = texts(ws@);
            let ghost word = cur@;
            if cur.unicode_len() > 0 {
                ws.push(cur);
                assert(texts(ws@) =~= before.push(word));
                assert(before + (seq![word] + words_from(seq![], rest.skip(1))) =~= before.push(word) + words_from(seq![], rest.skip(1)));
            } else {
                assert(before + (Seq::<Seq<char>>::empty() + words_from(seq![], rest.skip(1))) =~= before + words_from(seq![], rest.skip(1)));
            }
            cur = String::new();
            assert(cur@ =~= Seq::<char>::empty());
        } else {
            push_char(&mut cur, c);
        }
        i = i + 1;
    }
    assert(s@.skip(n as int) =~= Seq::<char>::empty());
    if cur.unicode_len() > 0 {
        let ghost before = texts(ws@);
        let ghost word = cur@;
        ws.push(cur);
        assert(texts(ws@) =~= before.push(word));
    } else {
        assert(texts(ws@) + Seq::<Seq<char>>::empty() =~= texts(ws@));
    }
    ws
}

/// Whether `keys` holds a string with the characters of `k`.
pub fn list_contains(keys: &Vec<String>, k: &str) -> (r: bool)
    ensures
        r == texts(keys@).contains(k@),
{
    let mut i: usize = 0;
    while i < keys.len()
        invariant
            i <= keys.len(),
            forall|j: int| 0 <= j < i ==> keys@[j]@ != k@,
        decreases keys.len() - i,
    {
        if same_text(keys[i].as_str(), k) {
            assert(texts(keys@)[i as int] == k@);
            return true;
        }
        i = i + 1;
    }
    proof {
        if texts(keys@).contains(k@) {
            let j = choose|j: int| 0 <= j < texts(keys@).len() && texts(keys@)[j] == k@;
            assert(keys@[j]@ == k@);
        }
    }
    false
}

} // verus!
