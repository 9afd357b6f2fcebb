//! Lowercase hexadecimal rendering and parsing.
//!
//! The text-family codec renders its CRC-32 as an 8-character,
//! right-justified, space-padded lowercase hex string; ambient-light
//! payloads arrive as ASCII hex and are parsed back into an integer.

use vstd::prelude::*;

verus! {

/// The lowercase hex character for a single digit value.
pub open spec fn spec_hex_digit(d: int) -> u8 {
    if d < 10 {
        (0x30 + d) as u8
    } else {
        (0x57 + d) as u8
    }
}

/// Number of hex digits in the minimal representation of `v`.
pub open spec fn hex_len(v: nat) -> nat
    decreases v,
{
    if v < 16 {
        1
    } else {
        1 + hex_len(v / 16)
    }
}

/// The minimal lowercase hex representation of `v`, most significant first.
pub open spec fn hex_digits(v: nat) -> Seq<u8>
    decreases v,
{
    if v < 16 {
        seq![spec_hex_digit(v as int)]
    } else {
        hex_digits(v / 16).push(spec_hex_digit((v % 16) as int))
    }
}

/// `v` rendered as 8 characters: spaces, then the minimal hex digits.
pub open spec fn spec_hex8(v: u32) -> Seq<u8> {
    Seq::new((8 - hex_len(v as nat)) as nat, |i: int| 0x20u8) + hex_digits(v as nat)
}

pub proof fn lemma_hex_digits_len(v: nat)
    ensures
        hex_digits(v).len() == hex_len(v),
    decreases v,
{
    if v >= 16 {
        lemma_hex_digits_len(v / 16);
    }
}

/// 16^n.
pub open spec fn pow16(n: nat) -> nat
    decreases n,
{
    if n == 0 {
        1
    } else {
        16 * pow16((n - 1) as nat)
    }
}

pub proof fn lemma_hex_len_le(v: nat, n: nat)
    requires
        1 <= n,
        v < pow16(n),
    ensures
        hex_len(v) <= n,
    decreases n,
{
    if v >= 16 {
        assert(pow16(n) == 16 * pow16((n - 1) as nat));
        assert(v / 16 < pow16((n - 1) as nat)) by (nonlinear_arith)
            requires
                v < 16 * pow16((n - 1) as nat),
        ;
        lemma_hex_len_le(v / 16, (n - 1) as nat);
    }
}

/// Every u32 fits in 8 hex digits.
pub proof fn lemma_hex_len_u32(v: u32)
    ensures
        hex_len(v as nat) <= 8,
        hex_digits(v as nat).len() <= 8,
{
    assert(pow16(0) == 1);
    assert(pow16(1) == 16);
    assert(pow16(2) == 0x100);
    assert(pow16(3) == 0x1000);
    assert(pow16(4) == 0x10000);
    assert(pow16(5) == 0x100000);
    assert(pow16(6) == 0x1000000);
    assert(pow16(7) == 0x10000000);
    assert(pow16(8) == 0x100000000);
    lemma_hex_len_le(v as nat, 8);
    lemma_hex_digits_len(v as nat);
}

/// Hex digit characters are digits `0`..`9` or letters `a`..`f`.
pub proof fn lemma_hex_digits_chars(v: nat)
    ensures
        forall|i: int|
            0 <= i < hex_digits(v).len() ==> (0x30 <= #[trigger] hex_digits(v)[i] <= 0x39 || 0x61
                <= hex_digits(v)[i] <= 0x66),
    decreases v,
{
    if v < 16 {
        assert(hex_digits(v)[0] == spec_hex_digit(v as int));
    } else {
        lemma_hex_digits_chars(v / 16);
        let d = hex_digits(v / 16);
        assert forall|i: int| 0 <= i < hex_digits(v).len() implies (0x30 <= #[trigger] hex_digits(
            v,
        )[i] <= 0x39 || 0x61 <= hex_digits(v)[i] <= 0x66) by {
            if i < d.len() {
                assert(hex_digits(v)[i] == d[i]);
            } else {
                assert(hex_digits(v)[i] == spec_hex_digit((v % 16) as int));
            }
        }
    }
}

/// The rendered field holds only spaces, digits and lowercase letters;
/// in particular it never holds the frame delimiters.
pub proof fn lemma_hex8_chars(v: u32)
    ensures
        spec_hex8(v).len() == 8,
        forall|i: int|
            0 <= i < 8 ==> (#[trigger] spec_hex8(v)[i] == 0x20 || 0x30 <= spec_hex8(v)[i] <= 0x39
                || 0x61 <= spec_hex8(v)[i] <= 0x66),
{
    lemma_hex_len_u32(v);
    lemma_hex_digits_len(v as nat);
    lemma_hex_digits_chars(v as nat);
}

/// Render `v` as 8 bytes of right-justified, space-padded lowercase hex.
pub fn hex8(v: u32) -> (r: Vec<u8>)
    ensures
        r@ == spec_hex8(v),
{
    let mut buf: Vec<u8> = vec![0x20u8; 8];
    let mut x: u32 = v;
    let mut i: usize = 8;
    let mut done = false;
    proof {
        lemma_hex_len_u32(v);
        lemma_hex_digits_len(v as nat);
        assert(hex_digits(x as nat) + buf@.subrange(8, 8) =~= hex_digits(v as nat));
    }
    while !done
        invariant
            0 <= i <= 8,
            buf@.len() == 8,
            forall|j: int| 0 <= j < i ==> buf@[j] == 0x20u8,
            !done ==> 1 <= i && hex_len(x as nat) <= i && hex_digits(x as nat) + buf@.subrange(
                i as int,
                8,
            ) =~= hex_digits(v as nat),
            done ==> i == 8 - hex_len(v as nat) && buf@.subrange(i as int, 8) =~= hex_digits(
                v as nat,
            ),
        decreases x, (if done {
            0int
        } else {
            1int
        }),
    {
        let d = (x % 16) as u8;
        let c: u8 = if d < 10 {
            0x30 + d
        } else {
            0x57 + d
        };
        let ghost prev = buf@;
        let ghost px = x as nat;
        buf.set(i - 1, c);
        x = x / 16;
        i = i - 1;
        proof {
            lemma_hex_digits_len(px);
            lemma_hex_digits_len(x as nat);
            lemma_hex_digits_len(v as nat);
            assert(buf@.subrange(i as int, 8) =~= seq![c] + prev.subrange(i + 1, 8));
            if px < 16 {
                assert(hex_digits(px) =~= seq![c]);
                assert(buf@.subrange(i as int, 8) =~= hex_digits(px) + prev.subrange(i + 1, 8));
                assert(buf@.subrange(i as int, 8) =~= hex_digits(v as nat));
            } else {
                assert(hex_digits(px) == hex_digits(px / 16).push(c));
                assert(hex_digits(px) =~= hex_digits(x as nat) + seq![c]);
                assert(hex_digits(x as nat) + buf@.subrange(i as int, 8) =~= hex_digits(v as nat));
            }
        }
        if x == 0 {
            done = true;
        }
        proof {
            if px >= 16 && x == 0 {
                assert(false);
            }
        }
    }
    proof {
        assert(buf@ =~= buf@.subrange(0, i as int) + buf@.subrange(i as int, 8));
        assert(buf@.subrange(0, i as int) =~= Seq::new((8 - hex_len(v as nat)) as nat,
            |k: int| 0x20u8,
        ));
        assert(buf@ =~= spec_hex8(v));
    }
    buf
}

/// Whether `b` is an ASCII hex digit character.
pub open spec fn is_hex_digit_char(b: u8) -> bool {
    (0x30 <= b <= 0x39) || (0x41 <= b <= 0x46) || (0x61 <= b <= 0x66)
}

/// The value of one ASCII hex digit character.
pub open spec fn hex_char_value(b: u8) -> int {
    if 0x30 <= b <= 0x39 {
        b - 0x30
    } else if 0x41 <= b <= 0x46 {
        b - 0x41 + 10
    } else {
        b - 0x61 + 10
    }
}

/// The value of an ASCII hex numeral, most significant digit first.
pub open spec fn spec_hex_value(s: Seq<u8>) -> int
    decreases s.len(),
{
    if s.len() == 0 {
        0
    } else {
        spec_hex_value(s.drop_last()) * 16 + hex_char_value(s.last())
    }
}

/// Whether `s` is a well-formed hex numeral that fits in `u16`:
/// nonempty, hex digits only, value at most `0xFFFF`.
pub open spec fn spec_hex_u16_ok(s: Seq<u8>) -> bool {
    &&& s.len() > 0
    &&& forall|i: int| 0 <= i < s.len() ==> is_hex_digit_char(#[trigger] s[i])
    &&& spec_hex_value(s) <= 0xFFFF
}

pub proof fn lemma_hex_value_nonneg(s: Seq<u8>)
    requires
        forall|i: int| 0 <= i < s.len() ==> is_hex_digit_char(#[trigger] s[i]),
    ensures
        spec_hex_value(s) >= 0,
    decreases s.len(),
{
    if s.len() > 0 {
        assert(forall|i: int|
            0 <= i < s.drop_last().len() ==> is_hex_digit_char(#[trigger] s.drop_last()[i]));
        lemma_hex_value_nonneg(s.drop_last());
        assert(spec_hex_value(s.drop_last()) * 16 >= 0) by (nonlinear_arith)
            requires
                spec_hex_value(s.drop_last()) >= 0,
        ;
        assert(is_hex_digit_char(s.last()));
    }
}

/// Parse an ASCII hex numeral into a `u16`, as ambient-light payloads use.
/// Returns `None` when the input is empty, holds a non-hex-digit character,
/// or does not fit.
pub fn parse_hex_u16(s: &[u8]) -> (r: Option<u16>)
    ensures
        match r {
            Some(v) => spec_hex_u16_ok(s@) && v == spec_hex_value(s@),
            None => !spec_hex_u16_ok(s@),
        },
{
    if s.len() == 0 {
        return None;
    }
    let mut acc: u32 = 0;
    let mut i: usize = 0;
    while i < s.len()
        invariant
            0 <= i <= s@.len(),
            forall|j: int| 0 <= j < i ==> is_hex_digit_char(#[trigger] s@[j]),
            acc == spec_hex_value(s@.take(i as int)),
            acc <= 0xFFFF,
        decreases s@.len() - i,
    {
        let b = s[i];
        let d: u8 = if 0x30 <= b && b <= 0x39 {
            b - 0x30
        } else if 0x41 <= b && b <= 0x46 {
            b - 0x41 + 10
        } else if 0x61 <= b && b <= 0x66 {
            b - 0x61 + 10
        } else {
            proof {
                assert(!is_hex_digit_char(s@[i as int]));
            }
            return None;
        };
        acc = acc * 16 + (d as u32);
        proof {
            assert(s@.take(i + 1).drop_last() =~= s@.take(i as int));
            assert(s@.take(i + 1).last() == b);
        }
        if acc > 0xFFFF {
            proof {
                if forall|j: int| 0 <= j < s@.len() ==> is_hex_digit_char(#[trigger] s@[j]) {
                    lemma_hex_value_tail_ge(s@, i + 1);
                }
            }
            return None;
        }
        i = i + 1;
    }
    proof {
        assert(s@.take(s@.len() as int) =~= s@);
    }
    Some(acc as u16)
}

/// A hex numeral is at least as large as the value of any of its prefixes
/// (digits only ever scale the value up).
proof fn lemma_hex_value_tail_ge(s: Seq<u8>, i: int)
    requires
        0 <= i <= s.len(),
        forall|j: int| 0 <= j < s.len() ==> is_hex_digit_char(#[trigger] s[j]),
    ensures
        spec_hex_value(s) >= spec_hex_value(s.take(i)),
    decreases s.len() - i,
{
    if i >= s.len() {
        assert(s.take(i) =~= s);
    } else {
        lemma_hex_value_tail_ge(s, i + 1);
        let p = s.take(i + 1);
        assert(p.drop_last() =~= s.take(i));
        assert(forall|j: int| 0 <= j < s.take(i).len() ==> is_hex_digit_char(#[trigger] s.take(i)[j]));
        lemma_hex_value_nonneg(s.take(i));
        assert(spec_hex_value(p) == spec_hex_value(s.take(i)) * 16 + hex_char_value(p.last()));
        assert(spec_hex_value(s.take(i)) * 16 >= spec_hex_value(s.take(i))) by (nonlinear_arith)
            requires
                spec_hex_value(s.take(i)) >= 0,
        ;
        assert(hex_char_value(p.last()) >= 0);
    }
}

} // verus!
