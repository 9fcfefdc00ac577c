//! Base58 (Bitcoin alphabet) encoding and decoding of byte strings, as used for
//! Solana keys: each leading zero byte becomes a leading `'1'`, the rest is the
//! big-endian number written in base 58.

use vstd::prelude::*;
use vstd::string::*;
use crate::text::push_char;

verus! {

// ============================================================
// Alphabet
// ============================================================

/// The value of an alphabet byte of
/// `123456789ABCDEFGHJKLMNPQRSTUVWXYZabcdefghijkmnopqrstuvwxyz`, if it is one.
pub open spec fn digit_value(b: u8) -> Option<nat> {
    if 49 <= b <= 57 {
        Some((b - 49) as nat)
    } else if 65 <= b <= 72 {
        Some((b - 56) as nat)
    } else if 74 <= b <= 78 {
        Some((b - 57) as nat)
    } else if 80 <= b <= 90 {
        Some((b - 58) as nat)
    } else if 97 <= b <= 107 {
        Some((b - 64) as nat)
    } else if 109 <= b <= 122 {
        Some((b - 65) as nat)
    } else {
        None
    }
}

/// The alphabet byte of a base-58 digit (`d < 58`).
pub open spec fn digit_byte(d: nat) -> u8 {
    if d <= 8 {
        (d + 49) as u8
    } else if d <= 16 {
        (d + 56) as u8
    } else if d <= 21 {
        (d + 57) as u8
    } else if d <= 32 {
        (d + 58) as u8
    } else if d <= 43 {
        (d + 64) as u8
    } else {
        (d + 65) as u8
    }
}

/// The alphabet character of a base-58 digit.
pub open spec fn digit_char(d: nat) -> char {
    digit_byte(d) as char
}

/// The byte that `c as u8` gives: the low eight bits of the code point.
pub open spec fn low_byte(c: char) -> u8 {
    ((c as u32) % 256) as u8
}

/// The base-58 digit that a character stands for: only the ASCII characters
/// of the alphabet are digits.
pub open spec fn char_digit(c: char) -> Option<nat> {
    if (c as u32) < 128 {
        digit_value(low_byte(c))
    } else {
        None
    }
}

fn exec_digit_value(b: u8) -> (r: Option<u64>)
    ensures
        match r {
            Some(d) => digit_value(b) == Some(d as nat),
            None => digit_value(b) is None,
        },
{
    if 49 <= b && b <= 57 {
        Some((b - 49) as u64)
    } else if 65 <= b && b <= 72 {
        Some((b - 56) as u64)
    } else if 74 <= b && b <= 78 {
        Some((b - 57) as u64)
    } else if 80 <= b && b <= 90 {
        Some((b - 58) as u64)
    } else if 97 <= b && b <= 107 {
        Some((b - 64) as u64)
    } else if 109 <= b && b <= 122 {
        Some((b - 65) as u64)
    } else {
        None
    }
}

fn exec_digit_char(d: u8) -> (c: char)
    requires
        d < 58,
    ensures
        c == digit_char(d as nat),
{
    let b: u8 = if d <= 8 {
        d + 49
    } else if d <= 16 {
        d + 56
    } else if d <= 21 {
        d + 57
    } else if d <= 32 {
        d + 58
    } else if d <= 43 {
        d + 64
    } else {
        d + 65
    };
    b as char
}

proof fn lemma_digit_roundtrip(d: nat)
    requires
        d < 58,
    ensures
        digit_value(digit_byte(d)) == Some(d),
        low_byte(digit_char(d)) == digit_byte(d),
        (digit_char(d) as u32) < 128,
        char_digit(digit_char(d)) == Some(d),
        (digit_char(d) == '1') <==> d == 0,
        (digit_byte(d) as char) == digit_char(d),
{
}

// ============================================================
// Numbers written as digit sequences
// ============================================================

/// 256 to the power `n`.
pub open spec fn pow256(n: nat) -> nat
    decreases n,
{
    if n == 0 {
        1
    } else {
        256 * pow256((n - 1) as nat)
    }
}

/// 58 to the power `n`.
pub open spec fn pow58(n: nat) -> nat
    decreases n,
{
    if n == 0 {
        1
    } else {
        58 * pow58((n - 1) as nat)
    }
}

/// The number that a big-endian byte sequence denotes.
pub open spec fn value_be(s: Seq<u8>) -> nat
    decreases s.len(),
{
    if s.len() == 0 {
        0
    } else {
        value_be(s.drop_last()) * 256 + s.last() as nat
    }
}

/// The shortest big-endian byte sequence of `n` (empty for zero).
pub open spec fn be_bytes(n: nat) -> Seq<u8>
    decreases n,
{
    if n == 0 {
        seq![]
    } else {
        be_bytes(n / 256).push((n % 256) as u8)
    }
}

/// The base-58 digits of `n`, most significant first, without leading zeros
/// (empty for zero).
pub open spec fn base58_digits(n: nat) -> Seq<nat>
    decreases n,
{
    if n == 0 {
        seq![]
    } else {
        base58_digits(n / 58).push(n % 58)
    }
}

/// The number that a big-endian base-58 digit sequence denotes.
pub open spec fn value58_be(ds: Seq<nat>) -> nat
    decreases ds.len(),
{
    if ds.len() == 0 {
        0
    } else {
        value58_be(ds.drop_last()) * 58 + ds.last()
    }
}

/// The number that a little-endian base-58 digit sequence denotes.
pub open spec fn value58_le(ds: Seq<u8>) -> nat
    decreases ds.len(),
{
    if ds.len() == 0 {
        0
    } else {
        ds[0] as nat + 58 * value58_le(ds.drop_first())
    }
}

/// `n` zero bytes.
pub open spec fn zero_bytes(n: nat) -> Seq<u8> {
    Seq::new(n, |i: int| 0u8)
}

/// `n` copies of `'1'`, the base-58 digit zero.
pub open spec fn ones(n: nat) -> Seq<char> {
    Seq::new(n, |i: int| '1')
}

/// How many bytes at the start of `s` are zero.
pub open spec fn zero_prefix_len(s: Seq<u8>) -> nat
    decreases s.len(),
{
    if s.len() == 0 {
        0
    } else if s[0] == 0 {
        1 + zero_prefix_len(s.drop_first())
    } else {
        0
    }
}

// ============================================================
// Specification of the two directions
// ============================================================

/// Reads `s` character by character: while nothing but `'1'`s has been read
/// and the number is still zero, a `'1'` counts one more leading zero byte;
/// otherwise the character must be one of the alphabet, whose digit is
/// appended to the number. The result is the leading-zero count and the
/// number, or the first character that is no digit.
pub open spec fn decode_digits(s: Seq<char>) -> Result<(nat, nat), char>
    decreases s.len(),
{
    if s.len() == 0 {
        Ok((0, 0))
    } else {
        match decode_digits(s.drop_last()) {
            Err(c) => Err(c),
            Ok((zeros, value)) => {
                let c = s.last();
                if c == '1' && value == 0 {
                    Ok((zeros + 1, 0))
                } else {
                    match char_digit(c) {
                        Some(d) => Ok((zeros, value * 58 + d)),
                        None => Err(c),
                    }
                }
            },
        }
    }
}

/// The message that names a character that is no base-58 digit.
pub open spec fn invalid_char_message(c: char) -> Seq<char> {
    "Invalid character in base58: '"@ + seq![c] + "'"@
}

/// What decoding `s` gives: the leading zero bytes followed by the shortest
/// big-endian bytes of the number, or the message for the first bad character.
pub open spec fn base58_decode(s: Seq<char>) -> Result<Seq<u8>, Seq<char>> {
    match decode_digits(s) {
        Ok((zeros, value)) => Ok(zero_bytes(zeros) + be_bytes(value)),
        Err(c) => Err(invalid_char_message(c)),
    }
}

/// The base-58 text of `bytes`: a `'1'` per leading zero byte, then the digits
/// of the big-endian number.
pub open spec fn base58_encode(bytes: Seq<u8>) -> Seq<char> {
    ones(zero_prefix_len(bytes)) + base58_digits(value_be(bytes)).map_values(
        |d: nat| digit_char(d),
    )
}

/// The view of a decoding result.
pub open spec fn decoded_view(r: Result<Vec<u8>, String>) -> Result<Seq<u8>, Seq<char>> {
    match r {
        Ok(v) => Ok(v@),
        Err(m) => Err(m@),
    }
}

// ============================================================
// Lemmas on big-endian bytes
// ============================================================

proof fn lemma_value_be_prepend(b: u8, t: Seq<u8>)
    ensures
        value_be(seq![b] + t) == b * pow256(t.len()) + value_be(t),
    decreases t.len(),
{
    if t.len() == 0 {
        assert(seq![b] + t =~= seq![b]);
        assert(seq![b].drop_last() =~= Seq::<u8>::empty());
        assert(value_be(Seq::<u8>::empty()) == 0);
        assert(pow256(0) == 1);
    } else {
        let t2 = t.drop_last();
        let s = seq![b] + t;
        assert(s.drop_last() =~= seq![b] + t2);
        assert(s.last() == t.last());
        lemma_value_be_prepend(b, t2);
        let p2 = pow256(t2.len());
        assert(pow256(t.len()) == 256 * p2);
        let v2 = value_be(t2);
        assert(value_be(s) == (b * p2 + v2) * 256 + t.last());
        assert(value_be(t) == v2 * 256 + t.last());
        assert((b * p2 + v2) * 256 + t.last() == b * (256 * p2) + (v2 * 256 + t.last()))
            by (nonlinear_arith);
    }
}

proof fn lemma_value_be_bound(s: Seq<u8>)
    ensures
        value_be(s) < pow256(s.len()),
    decreases s.len(),
{
    if s.len() > 0 {
        let s2 = s.drop_last();
        lemma_value_be_bound(s2);
        let v = value_be(s2);
        let p = pow256(s2.len());
        assert(v * 256 + s.last() < 256 * p) by (nonlinear_arith)
            requires
                v < p,
                s.last() < 256,
        ;
    }
}

proof fn lemma_pow256_positive(n: nat)
    ensures
        pow256(n) >= 1,
    decreases n,
{
    if n > 0 {
        lemma_pow256_positive((n - 1) as nat);
    }
}

proof fn lemma_pow58_positive(n: nat)
    ensures
        pow58(n) >= 1,
    decreases n,
{
    if n > 0 {
        lemma_pow58_positive((n - 1) as nat);
    }
}

/// A nonempty byte sequence whose first byte is nonzero denotes at least
/// 256 to the power of its length minus one; one whose first byte is zero
/// denotes less than that.
proof fn lemma_value_be_first_byte(s: Seq<u8>)
    requires
        s.len() > 0,
    ensures
        s[0] != 0 ==> value_be(s) >= pow256((s.len() - 1) as nat),
        s[0] == 0 ==> value_be(s) < pow256((s.len() - 1) as nat),
{
    let t = s.drop_first();
    assert(s =~= seq![s[0]] + t);
    lemma_value_be_prepend(s[0], t);
    lemma_value_be_bound(t);
    let p = pow256(t.len());
    assert(s[0] != 0 ==> s[0] * p >= p) by (nonlinear_arith);
}

/// The shortest encoding of the number of a sequence without a leading zero
/// byte is that sequence.
proof fn lemma_be_bytes_of_value(s: Seq<u8>)
    requires
        s.len() == 0 || s[0] != 0,
    ensures
        be_bytes(value_be(s)) == s,
        s.len() > 0 ==> value_be(s) > 0,
    decreases s.len(),
{
    if s.len() > 0 {
        let s2 = s.drop_last();
        if s2.len() > 0 {
            assert(s2[0] == s[0]);
        }
        lemma_be_bytes_of_value(s2);
        let v = value_be(s);
        assert(v / 256 == value_be(s2));
        assert(v % 256 == s.last());
        if s2.len() == 0 {
            assert(s.last() == s[0]);
        }
        assert(v > 0);
        assert(be_bytes(v) == be_bytes(v / 256).push((v % 256) as u8));
        assert(s2.push(s.last()) =~= s);
    }
}

proof fn lemma_value_be_zero_prefix(s: Seq<u8>)
    ensures
        value_be(s) == value_be(s.skip(zero_prefix_len(s) as int)),
        zero_prefix_len(s) <= s.len(),
        s.take(zero_prefix_len(s) as int) =~= zero_bytes(zero_prefix_len(s)),
        zero_prefix_len(s) < s.len() ==> s[zero_prefix_len(s) as int] != 0,
    decreases s.len(),
{
    if s.len() > 0 && s[0] == 0 {
        let t = s.drop_first();
        lemma_value_be_zero_prefix(t);
        assert(s =~= seq![0u8] + t);
        lemma_value_be_prepend(0u8, t);
        assert(s.skip(zero_prefix_len(s) as int) =~= t.skip(zero_prefix_len(t) as int));
        assert forall|i: int| 0 <= i < zero_prefix_len(s) implies s.take(
            zero_prefix_len(s) as int,
        )[i] == 0u8 by {
            if i > 0 {
                assert(s[i] == t[i - 1]);
                assert(t.take(zero_prefix_len(t) as int)[i - 1] == 0u8);
            }
        }
    } else {
        assert(s.skip(0) =~= s);
    }
}

proof fn lemma_zero_prefix_push(s: Seq<u8>, b: u8)
    ensures
        zero_prefix_len(s.push(b)) == if zero_prefix_len(s) == s.len() && b == 0 {
            s.len() + 1
        } else {
            zero_prefix_len(s)
        },
        zero_prefix_len(s) <= s.len(),
    decreases s.len(),
{
    assert(s.push(b)[0] == if s.len() == 0 { b } else { s[0] });
    if s.len() == 0 {
        assert(s.push(b).drop_first() =~= Seq::<u8>::empty());
        assert(zero_prefix_len(Seq::<u8>::empty()) == 0);
    } else {
        assert(s.push(b).drop_first() =~= s.drop_first().push(b));
        lemma_zero_prefix_push(s.drop_first(), b);
    }
}

proof fn lemma_value_be_zero_iff(s: Seq<u8>)
    ensures
        (value_be(s) == 0) <==> (zero_prefix_len(s) == s.len()),
    decreases s.len(),
{
    if s.len() > 0 {
        let s2 = s.drop_last();
        lemma_value_be_zero_iff(s2);
        assert(s2.push(s.last()) =~= s);
        lemma_zero_prefix_push(s2, s.last());
    }
}

// ============================================================
// Lemmas on base-58 digits
// ============================================================

proof fn lemma_value58_le_push(r: Seq<u8>, x: u8)
    ensures
        value58_le(r.push(x)) == value58_le(r) + x * pow58(r.len()),
    decreases r.len(),
{
    if r.len() == 0 {
        assert(r.push(x).drop_first() =~= Seq::<u8>::empty());
        assert(r.push(x)[0] == x);
        assert(value58_le(Seq::<u8>::empty()) == 0);
        assert(pow58(0) == 1);
    } else {
        let r2 = r.drop_first();
        assert(r.push(x).drop_first() =~= r2.push(x));
        assert(r.push(x)[0] == r[0]);
        lemma_value58_le_push(r2, x);
        let p2 = pow58(r2.len());
        assert(pow58(r.len()) == 58 * p2);
        let v2 = value58_le(r2);
        assert(value58_le(r.push(x)) == r[0] + 58 * (v2 + x * p2));
        assert(r[0] + 58 * (v2 + x * p2) == (r[0] + 58 * v2) + x * (58 * p2)) by (nonlinear_arith);
    }
}

/// All entries are base-58 digits.
pub open spec fn all_digits(r: Seq<u8>) -> bool {
    forall|i: int| 0 <= i < r.len() ==> r[i] < 58
}

proof fn lemma_value58_le_bound(r: Seq<u8>)
    requires
        all_digits(r),
    ensures
        value58_le(r) < pow58(r.len()),
        r.len() > 0 && r.last() != 0 ==> value58_le(r) >= pow58((r.len() - 1) as nat),
    decreases r.len(),
{
    if r.len() > 0 {
        let r2 = r.drop_first();
        assert(all_digits(r2)) by {
            assert forall|i: int| 0 <= i < r2.len() implies r2[i] < 58 by {
                assert(r2[i] == r[i + 1]);
            }
        }
        lemma_value58_le_bound(r2);
        let v = value58_le(r2);
        let p = pow58(r2.len());
        assert(r[0] + 58 * v < 58 * p) by (nonlinear_arith)
            requires
                v < p,
                r[0] < 58,
        ;
        if r.last() != 0 {
            if r2.len() > 0 {
                assert(r2.last() == r.last());
                assert(v >= pow58((r2.len() - 1) as nat));
                assert(pow58((r.len() - 1) as nat) == 58 * pow58((r2.len() - 1) as nat));
                assert(r[0] + 58 * v >= 58 * pow58((r2.len() - 1) as nat)) by (nonlinear_arith)
                    requires
                        v >= pow58((r2.len() - 1) as nat),
                ;
            } else {
                assert(r.last() == r[0]);
            }
        }
    }
}

/// Little-endian digits whose last digit is nonzero are the reverse of the
/// canonical big-endian digits of their number.
proof fn lemma_base58_digits_of_le(r: Seq<u8>)
    requires
        all_digits(r),
        r.len() == 0 || r.last() != 0,
    ensures
        base58_digits(value58_le(r)) =~= Seq::new(r.len(), |k: int| r[r.len() - 1 - k] as nat),
        r.len() > 0 ==> value58_le(r) > 0,
    decreases r.len(),
{
    if r.len() > 0 {
        let r2 = r.drop_first();
        assert(all_digits(r2)) by {
            assert forall|i: int| 0 <= i < r2.len() implies r2[i] < 58 by {
                assert(r2[i] == r[i + 1]);
            }
        }
        if r2.len() > 0 {
            assert(r2.last() == r.last());
        }
        lemma_base58_digits_of_le(r2);
        let v = value58_le(r);
        let v2 = value58_le(r2);
        assert(v % 58 == r[0]);
        assert(v / 58 == v2);
        if r2.len() == 0 {
            assert(r[0] == r.last());
        }
        assert(v > 0);
        assert(base58_digits(v) == base58_digits(v / 58).push(v % 58));
    }
}

proof fn lemma_base58_digits_props(n: nat)
    ensures
        value58_be(base58_digits(n)) == n,
        n > 0 ==> base58_digits(n).len() > 0 && base58_digits(n)[0] > 0,
        forall|i: int| 0 <= i < base58_digits(n).len() ==> #[trigger] base58_digits(n)[i] < 58,
    decreases n,
{
    if n > 0 {
        lemma_base58_digits_props(n / 58);
        let ds = base58_digits(n);
        assert(ds.drop_last() =~= base58_digits(n / 58));
        if n / 58 == 0 {
            assert(ds[0] == n % 58);
        } else {
            assert(ds[0] == base58_digits(n / 58)[0]);
        }
        assert forall|i: int| 0 <= i < ds.len() implies #[trigger] ds[i] < 58 by {
            if i < ds.len() - 1 {
                assert(ds[i] == base58_digits(n / 58)[i]);
            }
        }
    }
}

proof fn lemma_value58_be_positive(ds: Seq<nat>)
    requires
        ds.len() > 0,
        ds[0] > 0,
    ensures
        value58_be(ds) > 0,
    decreases ds.len(),
{
    if ds.len() > 1 {
        let ds2 = ds.drop_last();
        assert(ds2[0] == ds[0]);
        lemma_value58_be_positive(ds2);
    }
}

proof fn lemma_decode_ones(z: nat)
    ensures
        decode_digits(ones(z)) == Ok::<(nat, nat), char>((z, 0)),
    decreases z,
{
    if z > 0 {
        lemma_decode_ones((z - 1) as nat);
        assert(ones(z).drop_last() =~= ones((z - 1) as nat));
    }
}

proof fn lemma_decode_digit_chars(z: nat, ds: Seq<nat>)
    requires
        ds.len() == 0 || ds[0] > 0,
        forall|i: int| 0 <= i < ds.len() ==> #[trigger] ds[i] < 58,
    ensures
        decode_digits(ones(z) + ds.map_values(|d: nat| digit_char(d))) == Ok::<(nat, nat), char>(
            (z, value58_be(ds)),
        ),
    decreases ds.len(),
{
    let f = |d: nat| digit_char(d);
    if ds.len() == 0 {
        assert(ones(z) + ds.map_values(f) =~= ones(z));
        lemma_decode_ones(z);
    } else {
        let ds2 = ds.drop_last();
        if ds2.len() > 0 {
            assert(ds2[0] == ds[0]);
        }
        assert forall|i: int| 0 <= i < ds2.len() implies #[trigger] ds2[i] < 58 by {
            assert(ds2[i] == ds[i]);
        }
        lemma_decode_digit_chars(z, ds2);
        let s = ones(z) + ds.map_values(f);
        assert(s.drop_last() =~= ones(z) + ds2.map_values(f));
        let d = ds.last();
        assert(s.last() == digit_char(d));
        lemma_digit_roundtrip(d);
        if ds2.len() > 0 {
            lemma_value58_be_positive(ds2);
        } else {
            assert(d == ds[0]);
        }
    }
}

proof fn lemma_decode_error_extends(s: Seq<char>, k: int, c: char)
    requires
        0 <= k <= s.len(),
        decode_digits(s.take(k)) == Err::<(nat, nat), char>(c),
    ensures
        decode_digits(s) == Err::<(nat, nat), char>(c),
    decreases s.len(),
{
    if k == s.len() {
        assert(s.take(k) =~= s);
    } else {
        assert(s.drop_last().take(k) =~= s.take(k));
        lemma_decode_error_extends(s.drop_last(), k, c);
    }
}

/// How many characters at the start of `s` are `'1'`.
pub open spec fn leading_ones(s: Seq<char>) -> nat
    decreases s.len(),
{
    if s.len() == 0 {
        0
    } else if s[0] == '1' {
        1 + leading_ones(s.drop_first())
    } else {
        0
    }
}

proof fn lemma_leading_ones(s: Seq<char>)
    ensures
        leading_ones(s) <= s.len(),
        s.take(leading_ones(s) as int) =~= ones(leading_ones(s)),
        leading_ones(s) < s.len() ==> s[leading_ones(s) as int] != '1',
    decreases s.len(),
{
    if s.len() > 0 && s[0] == '1' {
        let t = s.drop_first();
        lemma_leading_ones(t);
        assert forall|i: int| 0 <= i < leading_ones(s) implies s.take(leading_ones(s) as int)[i]
            == '1' by {
            if i > 0 {
                assert(s[i] == t[i - 1]);
                assert(t.take(leading_ones(t) as int)[i - 1] == '1');
            }
        }
        if leading_ones(s) < s.len() {
            assert(s[leading_ones(s) as int] == t[leading_ones(t) as int]);
        }
    }
}

proof fn lemma_char_digit_inverse(c: char)
    requires
        char_digit(c) is Some,
    ensures
        char_digit(c)->Some_0 < 58,
        digit_char(char_digit(c)->Some_0) == c,
{
    let u = c as u32;
    let b = low_byte(c);
    assert(b == u) by {
        assert(u < 128);
    }
    let d = char_digit(c)->Some_0;
    lemma_digit_roundtrip(d);
    assert(digit_byte(d) == b);
    assert((digit_byte(d) as u32) == u);
}

/// The shortest big-endian bytes of `n` denote `n` and start with a nonzero
/// byte.
proof fn lemma_be_bytes_props(n: nat)
    ensures
        value_be(be_bytes(n)) == n,
        n > 0 ==> be_bytes(n).len() > 0 && be_bytes(n)[0] != 0,
        n == 0 ==> be_bytes(n).len() == 0,
    decreases n,
{
    if n > 0 {
        lemma_be_bytes_props(n / 256);
        let b = be_bytes(n);
        assert(b.drop_last() =~= be_bytes(n / 256));
        assert(b.last() == (n % 256) as u8);
        if n / 256 == 0 {
            assert(b[0] == (n % 256) as u8);
        } else {
            assert(b[0] == be_bytes(n / 256)[0]);
        }
    }
}

proof fn lemma_zero_prefix_of_zeros(z: nat, t: Seq<u8>)
    requires
        t.len() == 0 || t[0] != 0,
    ensures
        zero_prefix_len(zero_bytes(z) + t) == z,
    decreases z,
{
    let s = zero_bytes(z) + t;
    if z == 0 {
        assert(s =~= t);
        if t.len() > 0 {
            assert(s[0] == t[0]);
        }
    } else {
        assert(s[0] == 0u8);
        assert(s.drop_first() =~= zero_bytes((z - 1) as nat) + t);
        lemma_zero_prefix_of_zeros((z - 1) as nat, t);
    }
}

/// Base-58 digits without a leading zero are the canonical digits of their
/// number.
proof fn lemma_base58_digits_of_value(ds: Seq<nat>)
    requires
        ds.len() == 0 || ds[0] > 0,
        forall|i: int| 0 <= i < ds.len() ==> #[trigger] ds[i] < 58,
    ensures
        base58_digits(value58_be(ds)) == ds,
    decreases ds.len(),
{
    if ds.len() > 0 {
        let ds2 = ds.drop_last();
        if ds2.len() > 0 {
            assert(ds2[0] == ds[0]);
        }
        assert forall|i: int| 0 <= i < ds2.len() implies #[trigger] ds2[i] < 58 by {
            assert(ds2[i] == ds[i]);
        }
        lemma_base58_digits_of_value(ds2);
        lemma_value58_be_positive(ds);
        let v = value58_be(ds);
        assert(ds.last() < 58);
        assert(v / 58 == value58_be(ds2));
        assert(v % 58 == ds.last());
        assert(ds2.push(ds.last()) =~= ds);
    }
}

// ============================================================
// Laws
// ============================================================

/// Decoding the base-58 text of any byte string gives that byte string back.
pub proof fn law_decode_encode_roundtrip(bytes: Seq<u8>)
    ensures
        base58_decode(base58_encode(bytes)) == Ok::<Seq<u8>, Seq<char>>(bytes),
{
    let z = zero_prefix_len(bytes);
    let n = value_be(bytes);
    let ds = base58_digits(n);
    lemma_base58_digits_props(n);
    lemma_decode_digit_chars(z, ds);
    lemma_value_be_zero_prefix(bytes);
    let rest = bytes.skip(z as int);
    if rest.len() > 0 {
        assert(rest[0] == bytes[z as int]);
    }
    lemma_be_bytes_of_value(rest);
    assert(bytes =~= bytes.take(z as int) + rest);
}

/// Every text made of alphabet characters decodes, and encoding what it
/// decodes to gives the text back: its leading `'1'`s become leading zero
/// bytes and return as `'1'`s.
pub proof fn law_encode_decode_roundtrip(s: Seq<char>)
    requires
        forall|i: int| 0 <= i < s.len() ==> char_digit(#[trigger] s[i]) is Some,
    ensures
        base58_decode(s) is Ok,
        base58_encode(base58_decode(s)->Ok_0) == s,
{
    let z = leading_ones(s);
    lemma_leading_ones(s);
    let rest = s.skip(z as int);
    let ds = Seq::new(rest.len(), |i: int| char_digit(rest[i])->Some_0);
    assert forall|i: int| 0 <= i < ds.len() implies #[trigger] ds[i] < 58 && digit_char(ds[i])
        == rest[i] by {
        assert(rest[i] == s[i + z]);
        lemma_char_digit_inverse(rest[i]);
    }
    if ds.len() > 0 {
        assert(rest[0] == s[z as int]);
        lemma_digit_roundtrip(0);
        assert(ds[0] != 0);
    }
    let f = |d: nat| digit_char(d);
    assert(s =~= ones(z) + ds.map_values(f)) by {
        assert(s =~= s.take(z as int) + rest);
    }
    lemma_decode_digit_chars(z, ds);
    let v = value58_be(ds);
    let b = zero_bytes(z) + be_bytes(v);
    assert(base58_decode(s) == Ok::<Seq<u8>, Seq<char>>(b));
    lemma_be_bytes_props(v);
    lemma_zero_prefix_of_zeros(z, be_bytes(v));
    lemma_value_be_zero_prefix(b);
    assert(b.skip(z as int) =~= be_bytes(v));
    lemma_base58_digits_of_value(ds);
    assert(ds.map_values(f) =~= base58_digits(value_be(b)).map_values(f));
}

/// The base-58 text of a byte string consists of alphabet characters only,
/// and starts with exactly one `'1'` per leading zero byte.
pub proof fn law_encode_alphabet(bytes: Seq<u8>)
    ensures
        forall|i: int|
            0 <= i < base58_encode(bytes).len() ==> char_digit(#[trigger] base58_encode(bytes)[i]) is Some,
        forall|i: int| 0 <= i < zero_prefix_len(bytes) ==> #[trigger] base58_encode(bytes)[i] == '1',
        zero_prefix_len(bytes) < base58_encode(bytes).len() ==> base58_encode(bytes)[zero_prefix_len(
            bytes,
        ) as int] != '1',
{
    let z = zero_prefix_len(bytes);
    let n = value_be(bytes);
    let ds = base58_digits(n);
    lemma_base58_digits_props(n);
    let e = base58_encode(bytes);
    assert forall|i: int| 0 <= i < e.len() implies char_digit(#[trigger] e[i]) is Some by {
        if i >= z {
            lemma_digit_roundtrip(ds[i - z]);
        }
    }
    if z < e.len() {
        lemma_digit_roundtrip(ds[0]);
    }
}

/// Every character of a base-58 text is an ASCII letter or digit of the
/// alphabet (code points 49 to 122).
pub proof fn lemma_encode_chars(bytes: Seq<u8>)
    ensures
        forall|i: int|
            0 <= i < base58_encode(bytes).len() ==> 49 <= (#[trigger] base58_encode(bytes)[i]) as u32
                <= 122 && base58_encode(bytes)[i] != '[',
{
    let z = zero_prefix_len(bytes);
    let ds = base58_digits(value_be(bytes));
    lemma_base58_digits_props(value_be(bytes));
    let e = base58_encode(bytes);
    assert forall|i: int| 0 <= i < e.len() implies 49 <= (#[trigger] e[i]) as u32 <= 122 && e[i] != '[' by {
        if i >= z {
            let d = ds[i - z];
            assert(e[i] == digit_char(d));
            assert(d < 58);
        }
    }
}

// ============================================================
// Executable decoding and encoding
// ============================================================

/// Decode base58 string to Vec<u8>
pub fn bs58_decode(input: &str) -> (res: Result<Vec<u8>, String>)
    ensures
        decoded_view(res) == base58_decode(input@),
{
    let mut result: Vec<u8> = Vec::new();
    let mut leading_zeros: usize = 0;
    let n = input.unicode_len();

    let mut i: usize = 0;
    while i < n
        invariant
            n == input@.len(),
            i <= n,
            leading_zeros <= i,
            decode_digits(input@.take(i as int)) == Ok::<(nat, nat), char>(
                (leading_zeros as nat, value_be(result@)),
            ),
            result@.len() == 0 || result@[0] != 0,
        decreases n - i,
    {
        let ch = input.get_char(i);
        proof {
            assert(input@.take(i + 1).drop_last() =~= input@.take(i as int));
            assert(input@.take(i + 1).last() == ch);
            lemma_be_bytes_of_value(result@);
        }
        if ch == '1' && result.len() == 0 {
            leading_zeros += 1;
            i += 1;
            continue;
        }
        let code: u32 = ch as u32;
        let low: u8 = (code % 256) as u8;
        let found = if code < 128 { exec_digit_value(low) } else { None };
        let digit = match found {
            Some(d) => d,
            None => {
                let mut msg = String::from_str("Invalid character in base58: '");
                push_char(&mut msg, ch);
                msg.append("'");
                proof {
                    lemma_decode_error_extends(input@, i + 1, ch);
                    assert(msg@ =~= invalid_char_message(ch));
                }
                return Err(msg);
            },
        };

        let ghost old_r = result@;
        let len = result.len();
        let mut carry: u64 = digit;
        let mut j: usize = len;
        assert(result@.subrange(len as int, len as int) =~= Seq::<u8>::empty());
        assert(old_r.subrange(len as int, len as int) =~= Seq::<u8>::empty());
        assert(value_be(Seq::<u8>::empty()) == 0);
        assert(pow256((len - j) as nat) == 1);
        assert(carry * pow256((len - j) as nat) == carry);
        while j > 0
            invariant
                j <= len,
                len == result@.len(),
                len == old_r.len(),
                carry < 58,
                digit < 58,
                forall|t: int| 0 <= t < j ==> result@[t] == old_r[t],
                value_be(result@.subrange(j as int, len as int)) + carry * pow256(
                    (len - j) as nat,
                ) == 58 * value_be(old_r.subrange(j as int, len as int)) + digit,
            decreases j,
        {
            j -= 1;
            let byte = result[j];
            let ghost t_new = result@.subrange(j + 1, len as int);
            let ghost t_old = old_r.subrange(j + 1, len as int);
            let ghost c0 = carry;
            assert(byte == old_r[j as int]);
            carry += (byte as u64) * 58;
            let nb = (carry % 256) as u8;
            result.set(j, nb);
            carry /= 256;
            proof {
                assert(result@.subrange(j + 1, len as int) =~= t_new);
                assert(result@.subrange(j as int, len as int) =~= seq![nb] + t_new);
                assert(old_r.subrange(j as int, len as int) =~= seq![byte] + t_old);
                lemma_value_be_prepend(nb, t_new);
                lemma_value_be_prepend(byte, t_old);
                let k = t_new.len();
                assert(k == (len - (j + 1)) as nat);
                assert(pow256((len - j) as nat) == 256 * pow256(k));
                let p = pow256(k);
                let vn = value_be(t_new);
                let vo = value_be(t_old);
                assert(nb * p + vn + carry * (256 * p) == 58 * (byte * p + vo) + digit)
                    by (nonlinear_arith)
                    requires
                        vn + c0 * p == 58 * vo + digit,
                        nb == (c0 + byte * 58) % 256,
                        carry == (c0 + byte * 58) / 256,
                ;
            }
        }
        proof {
            assert(result@.subrange(0, len as int) =~= result@);
            assert(old_r.subrange(0, len as int) =~= old_r);
            lemma_pow256_positive(len as nat);
            lemma_value_be_bound(result@);
            if len > 0 {
                lemma_value_be_first_byte(old_r);
            }
        }
        let ghost total = 58 * value_be(old_r) + digit;
        assert(len > 0 ==> total >= pow256((len - 1) as nat)) by (nonlinear_arith)
            requires
                len > 0 ==> value_be(old_r) >= pow256((len - 1) as nat),
                total == 58 * value_be(old_r) + digit,
        ;
        if carry == 0 && len > 0 {
            proof {
                lemma_value_be_first_byte(result@);
            }
        }
        while carry > 0
            invariant
                carry < 58,
                value_be(result@) + carry * pow256(result@.len()) == total,
                carry == 0 ==> (result@.len() == 0 || result@[0] != 0),
            decreases carry,
        {
            let b = (carry % 256) as u8;
            let ghost r0 = result@;
            result.insert(0, b);
            carry /= 256;
            proof {
                assert(result@ =~= seq![b] + r0);
                lemma_value_be_prepend(b, r0);
            }
        }
        i += 1;
    }
    assert(input@.take(n as int) =~= input@);

    let mut output: Vec<u8> = Vec::new();
    let mut k: usize = 0;
    while k < leading_zeros
        invariant
            k <= leading_zeros,
            output@ =~= zero_bytes(k as nat),
        decreases leading_zeros - k,
    {
        output.push(0u8);
        k += 1;
    }
    let mut m: usize = 0;
    while m < result.len()
        invariant
            m <= result@.len(),
            output@ =~= zero_bytes(leading_zeros as nat) + result@.take(m as int),
        decreases result@.len() - m,
    {
        output.push(result[m]);
        m += 1;
        assert(result@.take(m as int) =~= result@.take(m - 1).push(result@[m - 1]));
    }
    proof {
        assert(result@.take(result@.len() as int) =~= result@);
        lemma_be_bytes_of_value(result@);
    }
    Ok(output)
}

/// Encode bytes to base58 string
pub fn bs58_encode(bytes: &[u8]) -> (s: String)
    ensures
        s@ == base58_encode(bytes@),
{
    // base-58 digits of the number so far, least significant first
    let mut result: Vec<u8> = Vec::new();
    let mut leading_zeros: usize = 0;
    let n = bytes.len();

    let mut i: usize = 0;
    while i < n
        invariant
            n == bytes@.len(),
            i <= n,
            leading_zeros as nat == zero_prefix_len(bytes@.take(i as int)),
            value58_le(result@) == value_be(bytes@.take(i as int)),
            all_digits(result@),
            result@.len() == 0 || result@.last() != 0,
            (result@.len() == 0) <==> (leading_zeros == i),
        decreases n - i,
    {
        let byte = bytes[i];
        proof {
            let p = bytes@.take(i as int);
            assert(bytes@.take(i + 1) =~= p.push(byte));
            assert(bytes@.take(i + 1).drop_last() =~= p);
            lemma_zero_prefix_push(p, byte);
            lemma_value_be_zero_iff(p);
            lemma_value58_le_bound(result@);
            lemma_pow58_positive((result@.len() - 1) as nat);
        }
        if byte == 0 && result.len() == 0 {
            leading_zeros += 1;
        } else {
            let ghost old_r = result@;
            let len = result.len();
            let mut carry: u64 = byte as u64;
            let mut j: usize = 0;
            assert(result@.take(0) =~= Seq::<u8>::empty());
            assert(old_r.take(0) =~= Seq::<u8>::empty());
            assert(value58_le(Seq::<u8>::empty()) == 0);
            assert(pow58(0) == 1);
            while j < len
                invariant
                    j <= len,
                    len == result@.len(),
                    len == old_r.len(),
                    carry < 256,
                    all_digits(old_r),
                    forall|t: int| 0 <= t < j ==> result@[t] < 58,
                    forall|t: int| j <= t < len ==> result@[t] == old_r[t],
                    value58_le(result@.take(j as int)) + carry * pow58(j as nat) == 256 * value58_le(
                        old_r.take(j as int),
                    ) + byte,
                decreases len - j,
            {
                let digit = result[j];
                let ghost c0 = carry;
                let ghost pn = result@.take(j as int);
                let ghost po = old_r.take(j as int);
                assert(digit == old_r[j as int]);
                carry += (digit as u64) * 256;
                let nd = (carry % 58) as u8;
                result.set(j, nd);
                carry /= 58;
                proof {
                    assert(result@.take(j as int) =~= pn);
                    assert(result@.take(j + 1) =~= pn.push(nd));
                    assert(old_r.take(j + 1) =~= po.push(digit));
                    lemma_value58_le_push(pn, nd);
                    lemma_value58_le_push(po, digit);
                    let p = pow58(j as nat);
                    assert(pow58((j + 1) as nat) == 58 * p);
                    let vn = value58_le(pn);
                    let vo = value58_le(po);
                    assert(vn + nd * p + carry * (58 * p) == 256 * (vo + digit * p) + byte)
                        by (nonlinear_arith)
                        requires
                            vn + c0 * p == 256 * vo + byte,
                            nd == (c0 + digit * 256) % 58,
                            carry == (c0 + digit * 256) / 58,
                    ;
                }
                j += 1;
            }
            proof {
                assert(result@.take(len as int) =~= result@);
                assert(old_r.take(len as int) =~= old_r);
                assert(all_digits(result@));
                lemma_value58_le_bound(result@);
                lemma_value58_le_bound(old_r);
                if len > 0 {
                    lemma_pow58_positive((len - 1) as nat);
                    assert(pow58(len as nat) == 58 * pow58((len - 1) as nat));
                    assert(256 * value58_le(old_r) + byte >= pow58(len as nat)) by (nonlinear_arith)
                        requires
                            value58_le(old_r) >= pow58((len - 1) as nat),
                            pow58(len as nat) == 58 * pow58((len - 1) as nat),
                    ;
                } else {
                    assert(byte != 0);
                }
            }
            let ghost total = 256 * value58_le(old_r) + byte;
            assert(carry > 0);
            while carry > 0
                invariant
                    carry < 256,
                    all_digits(result@),
                    value58_le(result@) + carry * pow58(result@.len()) == total,
                    result@.len() > 0 || carry > 0,
                    carry == 0 ==> result@.last() != 0,
                decreases carry,
            {
                let d = (carry % 58) as u8;
                let ghost r0 = result@;
                let ghost c0 = carry;
                result.push(d);
                carry /= 58;
                proof {
                    lemma_value58_le_push(r0, d);
                    let p = pow58(r0.len());
                    assert(pow58(result@.len()) == 58 * p);
                    assert(d * p + carry * (58 * p) == c0 * p) by (nonlinear_arith)
                        requires
                            d == c0 % 58,
                            carry == c0 / 58,
                    ;
                    assert(carry == 0 ==> d == c0);
                }
            }
        }
        i += 1;
    }
    assert(bytes@.take(n as int) =~= bytes@);

    let mut output = String::new();
    let mut k: usize = 0;
    while k < leading_zeros
        invariant
            k <= leading_zeros,
            output@ =~= ones(k as nat),
        decreases leading_zeros - k,
    {
        push_char(&mut output, '1');
        k += 1;
    }
    let len = result.len();
    let mut m: usize = 0;
    while m < len
        invariant
            len == result@.len(),
            m <= len,
            all_digits(result@),
            output@ =~= ones(leading_zeros as nat) + Seq::new(
                m as nat,
                |t: int| digit_char(result@[len - 1 - t] as nat),
            ),
        decreases len - m,
    {
        let c = exec_digit_char(result[len - 1 - m]);
        push_char(&mut output, c);
        m += 1;
    }
    proof {
        lemma_base58_digits_of_le(result@);
        let ds = base58_digits(value_be(bytes@));
        assert(ds.map_values(|d: nat| digit_char(d)) =~= Seq::new(
            len as nat,
            |t: int| digit_char(result@[len - 1 - t] as nat),
        ));
    }
    output
}

/// The digits are written with the Bitcoin alphabet
/// `123456789ABCDEFGHJKLMNPQRSTUVWXYZabcdefghijkmnopqrstuvwxyz`: digit `d` is its `d`-th character, and a character is a digit
/// exactly when it occurs there, standing for its position.
pub proof fn law_bitcoin_alphabet()
    ensures
        forall|d: nat| d < 58 ==> #[trigger] digit_char(d) == "123456789ABCDEFGHJKLMNPQRSTUVWXYZabcdefghijkmnopqrstuvwxyz"@[d as int],
        forall|d: nat| d < 58 ==> char_digit(#[trigger] "123456789ABCDEFGHJKLMNPQRSTUVWXYZabcdefghijkmnopqrstuvwxyz"@[d as int]) == Some(d),
        forall|c: char|
            #[trigger] char_digit(c) is Some ==> char_digit(c)->Some_0 < 58 && "123456789ABCDEFGHJKLMNPQRSTUVWXYZabcdefghijkmnopqrstuvwxyz"@[char_digit(
                c,
            )->Some_0 as int] == c,
{
    reveal_strlit("123456789ABCDEFGHJKLMNPQRSTUVWXYZabcdefghijkmnopqrstuvwxyz");
    let a = "123456789ABCDEFGHJKLMNPQRSTUVWXYZabcdefghijkmnopqrstuvwxyz"@;
    assert(a.len() == 58);
    assert forall|d: nat| d < 58 implies #[trigger] digit_char(d) == a[d as int] by {
        lemma_digit_roundtrip(d);
    }
    assert forall|d: nat| d < 58 implies char_digit(#[trigger] a[d as int]) == Some(d) by {
        lemma_digit_roundtrip(d);
        assert(digit_char(d) == a[d as int]);
    }
    assert forall|c: char| #[trigger] char_digit(c) is Some implies char_digit(c)->Some_0 < 58 && a[char_digit(
        c,
    )->Some_0 as int] == c by {
        lemma_char_digit_inverse(c);
        let d = char_digit(c)->Some_0;
        assert(digit_char(d) == a[d as int]);
    }
}

} // verus!
