//! The fixed, versioned binary encoding of everything this library submits
//! to a chain: little-endian integers, compact length prefixes, and raw byte
//! strings. Every payload must match the receiving runtime byte for byte, so
//! each encoder's contract gives the exact byte sequence.

use vstd::prelude::*;
use vstd::arithmetic::div_mod::{
    lemma_fundamental_div_mod, lemma_fundamental_div_mod_converse, lemma_mod_mod,
};

verus! {

/// The `n` little-endian bytes of `v` (low byte first).
pub open spec fn le_bytes(v: int, n: int) -> Seq<u8>
    decreases n,
{
    if n <= 0 {
        Seq::empty()
    } else {
        seq![(v % 256) as u8] + le_bytes(v / 256, n - 1)
    }
}

/// How many bytes are needed to write `v` without leading zeroes (one byte
/// for zero).
pub open spec fn min_bytes(v: int) -> int
    decreases v,
{
    if v < 256 {
        1
    } else {
        1 + min_bytes(v / 256)
    }
}

/// The compact (variable-length) encoding of a non-negative integer: the two
/// low bits of the first byte select the mode, the value is shifted left by
/// two in the one-, two- and four-byte modes, and larger values get a length
/// byte followed by their minimal little-endian form.
pub open spec fn compact_bytes(v: int) -> Seq<u8> {
    if v < 0x40 {
        seq![(v * 4) as u8]
    } else if v < 0x4000 {
        le_bytes(v * 4 + 1, 2)
    } else if v < 0x40000000 {
        le_bytes(v * 4 + 2, 4)
    } else {
        seq![((min_bytes(v) - 4) * 4 + 3) as u8] + le_bytes(v, min_bytes(v))
    }
}

pub fn encode_u32(v: u32, out: &mut Vec<u8>)
    ensures
        final(out)@ == old(out)@ + le_bytes(v as int, 4),
{
    let ghost pre = out@;
    out.push((v % 256) as u8);
    out.push(((v / 256) % 256) as u8);
    out.push(((v / 0x10000) % 256) as u8);
    out.push((v / 0x1000000) as u8);
    proof {
        lemma_le_bytes_unfold4(v as int);
        assert(out@ =~= pre + le_bytes(v as int, 4));
    }
}

proof fn lemma_le_bytes_unfold4(v: int)
    requires
        0 <= v < 0x100000000,
    ensures
        le_bytes(v, 4) =~= seq![
            (v % 256) as u8,
            ((v / 256) % 256) as u8,
            ((v / 0x10000) % 256) as u8,
            ((v / 0x1000000) % 256) as u8,
        ],
{
    reveal_with_fuel(le_bytes, 6);
    assert(v / 256 / 256 == v / 0x10000) by (nonlinear_arith);
    assert(v / 0x10000 / 256 == v / 0x1000000) by (nonlinear_arith);
    assert(v / 0x1000000 % 256 == v / 0x1000000);
    assert(v / 0x1000000 / 256 == 0) by (nonlinear_arith)
        requires
            0 <= v < 0x100000000;
    assert(le_bytes(v, 4) =~= seq![
        (v % 256) as u8,
        ((v / 256) % 256) as u8,
        ((v / 0x10000) % 256) as u8,
        ((v / 0x1000000) % 256) as u8,
    ]);
}

/// Appends the `n` little-endian bytes of `v`; `v` must fit in `n` bytes.
pub fn encode_le_bytes(v: u128, n: usize, out: &mut Vec<u8>)
    requires
        n > 0 ==> pow256(n as int) > v,
        n == 0 ==> v == 0,
    ensures
        final(out)@ == old(out)@ + le_bytes(v as int, n as int),
{
    let mut rem: u128 = v;
    let mut i: usize = 0;
    while i < n
        invariant
            i <= n,
            out@ == old(out)@ + le_bytes(v as int, i as int),
            rem == pow_shift(v as int, i as int),
        decreases n - i,
    {
        let ghost pre = out@;
        out.push((rem % 256) as u8);
        rem = rem / 256;
        i = i + 1;
        proof {
            lemma_le_bytes_step(v as int, i - 1 as int);
            assert(out@ =~= old(out)@ + le_bytes(v as int, i as int));
        }
    }
    proof {
        assert(out@ =~= old(out)@ + le_bytes(v as int, n as int));
    }
}

/// `v` shifted right by `i` bytes.
pub open spec fn pow_shift(v: int, i: int) -> int
    decreases i,
{
    if i <= 0 {
        v
    } else {
        pow_shift(v, i - 1) / 256
    }
}

/// 256 to the power `n`.
pub open spec fn pow256(n: int) -> int
    decreases n,
{
    if n <= 0 {
        1
    } else {
        256 * pow256(n - 1)
    }
}

proof fn lemma_le_bytes_step(v: int, i: int)
    requires
        0 <= i,
        0 <= v,
    ensures
        le_bytes(v, i + 1) =~= le_bytes(v, i) + seq![(pow_shift(v, i) % 256) as u8],
    decreases i,
{
    if i == 0 {
        assert(le_bytes(v, 0) =~= Seq::empty());
        assert(le_bytes(v / 256, 0) =~= Seq::empty());
        assert(le_bytes(v, 1) =~= seq![(v % 256) as u8] + le_bytes(v / 256, 0));
    } else {
        lemma_le_bytes_step(v / 256, i - 1);
        lemma_pow_shift_commute(v, i - 1);
        assert(le_bytes(v, i + 1) =~= seq![(v % 256) as u8] + le_bytes(v / 256, i));
        assert(le_bytes(v, i) =~= seq![(v % 256) as u8] + le_bytes(v / 256, i - 1));
    }
}

/// Shifting after dropping the low byte is one more byte of shift.
proof fn lemma_pow_shift_commute(v: int, i: int)
    requires
        0 <= i,
    ensures
        pow_shift(v / 256, i) == pow_shift(v, i + 1),
    decreases i,
{
    if i == 0 {
        assert(pow_shift(v, 0) == v);
        assert(pow_shift(v / 256, 0) == v / 256);
        assert(pow_shift(v, 1) == pow_shift(v, 0) / 256);
    } else {
        lemma_pow_shift_commute(v, i - 1);
        assert(pow_shift(v / 256, i) == pow_shift(v / 256, i - 1) / 256);
        assert(pow_shift(v, i + 1) == pow_shift(v, i) / 256);
    }
}

pub fn encode_u64(v: u64, out: &mut Vec<u8>)
    ensures
        final(out)@ == old(out)@ + le_bytes(v as int, 8),
{
    proof {
        lemma_pow256_values();
    }
    encode_le_bytes(v as u128, 8, out);
}

pub fn encode_u128(v: u128, out: &mut Vec<u8>)
    ensures
        final(out)@ == old(out)@ + le_bytes(v as int, 16),
{
    proof {
        lemma_pow256_values();
    }
    encode_le_bytes(v, 16, out);
}

pub proof fn lemma_pow256_values()
    ensures
        pow256(7) == 0x100000000000000,
        pow256(8) == 0x10000000000000000,
        pow256(16) == 0x100000000000000000000000000000000,
{
    assert(pow256(0) == 1);
    assert(pow256(1) == 0x100);
    assert(pow256(2) == 0x10000);
    assert(pow256(3) == 0x1000000);
    assert(pow256(4) == 0x100000000);
    assert(pow256(5) == 0x10000000000);
    assert(pow256(6) == 0x1000000000000);
    assert(pow256(7) == 0x100000000000000);
    assert(pow256(8) == 0x10000000000000000);
    assert(pow256(9) == 0x1000000000000000000);
    assert(pow256(10) == 0x100000000000000000000);
    assert(pow256(11) == 0x10000000000000000000000);
    assert(pow256(12) == 0x1000000000000000000000000);
    assert(pow256(13) == 0x100000000000000000000000000);
    assert(pow256(14) == 0x10000000000000000000000000000);
    assert(pow256(15) == 0x1000000000000000000000000000000);
    assert(pow256(16) == 0x100000000000000000000000000000000);
}

proof fn lemma_pow256_positive(n: int)
    ensures
        pow256(n) >= 1,
    decreases n,
{
    if n > 0 {
        lemma_pow256_positive(n - 1);
    }
}

/// `min_bytes(v)` counts exactly the bytes a loop of divisions by 256 takes
/// to exhaust `v`.
proof fn lemma_min_bytes_bound(v: int, n: int)
    requires
        0 <= v,
        n >= 1,
        pow256(n) > v,
    ensures
        min_bytes(v) <= n,
        pow256(min_bytes(v)) > v,
    decreases n,
{
    if v < 256 {
        lemma_pow256_positive(min_bytes(v) - 1);
    } else {
        assert(pow256(n) == 256 * pow256(n - 1));
        assert(v / 256 < pow256(n - 1)) by (nonlinear_arith)
            requires
                v < 256 * pow256(n - 1),
                v >= 0;
        lemma_min_bytes_bound(v / 256, n - 1);
    }
}

/// Appends the compact encoding of `v`.
pub fn encode_compact_u128(v: u128, out: &mut Vec<u8>)
    ensures
        final(out)@ == old(out)@ + compact_bytes(v as int),
{
    if v < 0x40 {
        out.push((v as u8) * 4);
        proof {
            assert(out@ =~= old(out)@ + compact_bytes(v as int));
        }
    } else if v < 0x4000 {
        let w: u32 = (v as u32) * 4 + 1;
        out.push((w % 256) as u8);
        out.push((w / 256) as u8);
        proof {
            reveal_with_fuel(le_bytes, 3);
            let wi = v as int * 4 + 1;
            assert(wi / 256 % 256 == wi / 256);
            assert(wi / 256 / 256 == 0) by (nonlinear_arith)
                requires
                    0x100 <= wi < 0x10000;
            assert(out@ =~= old(out)@ + compact_bytes(v as int));
        }
    } else if v < 0x40000000 {
        encode_u32((v as u32) * 4 + 2, out);
    } else {
        // big-integer mode: a length byte, then the minimal little-endian form
        proof {
            lemma_pow256_values();
        }
        let mut tmp: u128 = v;
        let mut n: usize = 0;
        while tmp >= 256
            invariant
                tmp == pow_shift(v as int, n as int),
                n <= 16,
                v as int >= 0x40000000,
                pow_shift(v as int, n as int) >= 1,
                min_bytes(v as int) == n + min_bytes(tmp as int),
                pow256(16 - n as int) > tmp,
            decreases tmp,
        {
            proof {
                lemma_pow_shift_decreases(v as int, n as int);
                assert(pow256((16 - n) as int) == 256 * pow256((15 - n) as int));
                assert(tmp as int / 256 < pow256((15 - n) as int)) by (nonlinear_arith)
                    requires
                        (tmp as int) < 256 * pow256((15 - n) as int),
                        (tmp as int) >= 0;
            }
            tmp = tmp / 256;
            n = n + 1;
        }
        let total: usize = n + 1;
        proof {
            lemma_min_bytes_at_least_4(v as int);
            assert(min_bytes(v as int) == total as int);
            lemma_pow256_values();
            lemma_min_bytes_bound(v as int, 16);
        }
        out.push(((total - 4) * 4 + 3) as u8);
        encode_le_bytes(v, total, out);
        proof {
            assert(out@ =~= old(out)@ + compact_bytes(v as int));
        }
    }
}

proof fn lemma_pow_shift_decreases(v: int, n: int)
    requires
        0 <= v,
        0 <= n,
    ensures
        pow_shift(v, n) / 256 == pow_shift(v, n + 1),
{
}

proof fn lemma_min_bytes_at_least_4(v: int)
    requires
        v >= 0x40000000,
    ensures
        min_bytes(v) >= 4,
{
    assert(v / 256 >= 0x400000);
    assert(v / 256 / 256 >= 0x4000) by (nonlinear_arith)
        requires
            v / 256 >= 0x400000;
    assert(min_bytes(v) == 1 + min_bytes(v / 256));
    assert(min_bytes(v / 256) == 1 + min_bytes(v / 256 / 256));
    assert(min_bytes(v / 256 / 256) == 1 + min_bytes(v / 256 / 256 / 256));
    lemma_min_bytes_positive(v / 256 / 256 / 256);
}

proof fn lemma_min_bytes_positive(v: int)
    ensures
        min_bytes(v) >= 1,
    decreases v,
{
    if v >= 256 {
        lemma_min_bytes_positive(v / 256);
    }
}

proof fn lemma_pow256_mono(a: int, b: int)
    requires
        a <= b,
    ensures
        pow256(a) <= pow256(b),
    decreases b - a,
{
    if a < b {
        lemma_pow256_mono(a, b - 1);
        lemma_pow256_positive(b - 1);
    }
}

pub fn encode_compact_u64(v: u64, out: &mut Vec<u8>)
    ensures
        final(out)@ == old(out)@ + compact_bytes(v as int),
{
    encode_compact_u128(v as u128, out);
}

pub fn encode_compact_u32(v: u32, out: &mut Vec<u8>)
    ensures
        final(out)@ == old(out)@ + compact_bytes(v as int),
{
    encode_compact_u128(v as u128, out);
}

/// Appends raw bytes, unprefixed (the encoding of a fixed-size byte array).
pub fn encode_raw(bytes: &[u8], out: &mut Vec<u8>)
    ensures
        final(out)@ == old(out)@ + bytes@,
{
    let mut i: usize = 0;
    while i < bytes.len()
        invariant
            i <= bytes@.len(),
            out@ == old(out)@ + bytes@.subrange(0, i as int),
        decreases bytes@.len() - i,
    {
        out.push(bytes[i]);
        proof {
            assert(out@ =~= old(out)@ + bytes@.subrange(0, i + 1 as int));
        }
        i = i + 1;
    }
    proof {
        assert(out@ =~= old(out)@ + bytes@);
    }
}

/// The integer a little-endian byte string denotes.
pub open spec fn le_value(s: Seq<u8>) -> int
    decreases s.len(),
{
    if s.len() == 0 {
        0
    } else {
        s[0] + 256 * le_value(s.drop_first())
    }
}

/// A byte string is recovered exactly from its value and its length.
pub proof fn lemma_le_value_round_trip(s: Seq<u8>)
    ensures
        0 <= le_value(s) < pow256(s.len() as int),
        le_bytes(le_value(s), s.len() as int) =~= s,
    decreases s.len(),
{
    if s.len() > 0 {
        let rest = s.drop_first();
        lemma_le_value_round_trip(rest);
        let v = le_value(s);
        assert(v % 256 == s[0] && v / 256 == le_value(rest)) by (nonlinear_arith)
            requires
                v == s[0] + 256 * le_value(rest),
                0 <= s[0] < 256,
                le_value(rest) >= 0;
        assert(le_bytes(v, s.len() as int) =~= seq![(v % 256) as u8] + le_bytes(
            v / 256,
            s.len() - 1,
        ));
        assert(v < pow256(s.len() as int)) by (nonlinear_arith)
            requires
                v == s[0] + 256 * le_value(rest),
                s[0] < 256,
                le_value(rest) < pow256(s.len() - 1),
                pow256(s.len() as int) == 256 * pow256(s.len() - 1);
    }
}

/// A byte string whose top byte is not zero denotes a value that needs all
/// its bytes.
proof fn lemma_le_value_minimal(s: Seq<u8>)
    requires
        s.len() >= 1,
        s.last() != 0,
    ensures
        le_value(s) >= pow256(s.len() - 1),
        min_bytes(le_value(s)) == s.len(),
    decreases s.len(),
{
    let v = le_value(s);
    if s.len() == 1 {
        assert(s.drop_first().len() == 0);
        assert(le_value(s.drop_first()) == 0);
        assert(v == s[0] + 256 * le_value(s.drop_first()));
    } else {
        let rest = s.drop_first();
        assert(rest.last() == s.last());
        lemma_le_value_minimal(rest);
        lemma_pow256_positive(s.len() - 2);
        assert(v >= 256 * pow256(s.len() - 2)) by (nonlinear_arith)
            requires
                v == s[0] + 256 * le_value(rest),
                s[0] >= 0,
                le_value(rest) >= pow256(s.len() - 2);
        assert(v / 256 == le_value(rest)) by (nonlinear_arith)
            requires
                v == s[0] + 256 * le_value(rest),
                0 <= s[0] < 256,
                le_value(rest) >= 0;
        assert(min_bytes(v) == 1 + min_bytes(v / 256));
    }
}

/// Reads one compact-encoded integer at `pos`. On success the bytes consumed
/// are exactly the compact encoding of the value returned; on failure no
/// 128-bit value has its compact encoding at `pos`. Non-minimal encodings,
/// and values above 128 bits, are rejected.
pub fn decode_compact(bytes: &Vec<u8>, pos: usize) -> (r: Option<(u128, usize)>)
    requires
        pos <= bytes@.len(),
    ensures
        match r {
            Some(v_p) => pos < v_p.1 <= bytes@.len() && bytes@.subrange(pos as int, v_p.1 as int)
                =~= compact_bytes(v_p.0 as int),
            None => forall|v: int, e: int|
                #![trigger compact_bytes(v), bytes@.subrange(pos as int, e)]
                0 <= v <= u128::MAX && pos < e <= bytes@.len() ==> bytes@.subrange(pos as int, e)
                    != compact_bytes(v),
        },
{
    if pos >= bytes.len() {
        return None;
    }
    let b0 = bytes[pos];
    let mode = b0 % 4;
    if mode == 0 {
        let v: u128 = (b0 / 4) as u128;
        proof {
            assert(bytes@.subrange(pos as int, pos + 1 as int) =~= seq![b0]);
            assert(b0 == (v as int * 4) as u8);
        }
        Some((v, pos + 1))
    } else if mode == 1 {
        if bytes.len() - pos < 2 {
            proof {
                lemma_no_compact_here(bytes@, pos as int, b0, bytes@.len() as int);
            }
            return None;
        }
        let b1 = bytes[pos + 1];
        let w: u32 = b0 as u32 + 256 * (b1 as u32);
        let v: u128 = (w / 4) as u128;
        if v < 0x40 {
            proof {
                assert forall|v2: int, e: int|
                    0 <= v2 <= u128::MAX && pos < e <= bytes@.len() && bytes@.subrange(
                        pos as int,
                        e,
                    ) == compact_bytes(v2) implies false by {
                    lemma_compact_shape(v2);
                    let c = compact_bytes(v2);
                    assert(c[0] == bytes@[pos as int]);
                    assert(0x40 <= v2 < 0x4000);
                    assert(e == pos + 2);
                    assert(c[1] == bytes@[pos + 1]);
                    assert(w as int == v2 * 4 + 1);
                    lemma_fundamental_div_mod_converse(w as int, 4, v2, 1);
                }
            }
            return None;
        }
        proof {
            reveal_with_fuel(le_bytes, 3);
            let wi = w as int;
            assert(wi % 4 == 1 && wi == (wi / 4) * 4 + 1) by (nonlinear_arith)
                requires
                    wi == b0 + 256 * b1,
                    b0 % 4 == 1,
                    0 <= b0 < 256,
                    0 <= b1 < 256;
            assert(wi % 256 == b0 && wi / 256 == b1) by (nonlinear_arith)
                requires
                    wi == b0 + 256 * b1,
                    0 <= b0 < 256,
                    0 <= b1 < 256;
            assert((b1 as int) % 256 == b1 as int);
            assert(bytes@.subrange(pos as int, pos + 2 as int) =~= seq![b0, b1]);
        }
        Some((v, pos + 2))
    } else if mode == 2 {
        if bytes.len() - pos < 4 {
            proof {
                lemma_no_compact_here(bytes@, pos as int, b0, bytes@.len() as int);
            }
            return None;
        }
        let b1 = bytes[pos + 1];
        let b2 = bytes[pos + 2];
        let b3 = bytes[pos + 3];
        let w: u32 = b0 as u32 + 256 * (b1 as u32) + 0x10000 * (b2 as u32) + 0x1000000 * (
        b3 as u32);
        let v: u128 = (w / 4) as u128;
        if v < 0x4000 {
            proof {
                assert forall|v2: int, e: int|
                    0 <= v2 <= u128::MAX && pos < e <= bytes@.len() && bytes@.subrange(
                        pos as int,
                        e,
                    ) == compact_bytes(v2) implies false by {
                    lemma_compact_shape(v2);
                    let c = compact_bytes(v2);
                    assert(c[0] == bytes@[pos as int]);
                    assert(0x4000 <= v2 < 0x40000000);
                    assert(e == pos + 4);
                    assert(c[1] == bytes@[pos + 1] && c[2] == bytes@[pos + 2] && c[3] == bytes@[pos
                        + 3]);
                    assert(w as int == v2 * 4 + 2);
                    lemma_fundamental_div_mod_converse(w as int, 4, v2, 2);
                }
            }
            return None;
        }
        proof {
            let wi = w as int;
            assert(wi % 4 == 2 && wi == (wi / 4) * 4 + 2) by (nonlinear_arith)
                requires
                    wi == b0 + 256 * b1 + 0x10000 * b2 + 0x1000000 * b3,
                    b0 % 4 == 2,
                    0 <= b0 < 256,
                    0 <= b1 < 256,
                    0 <= b2 < 256,
                    0 <= b3 < 256;
            lemma_le_bytes_unfold4(wi);
            assert(wi % 256 == b0 && (wi / 256) % 256 == b1 && (wi / 0x10000) % 256 == b2 && (wi
                / 0x1000000) % 256 == b3) by (nonlinear_arith)
                requires
                    wi == b0 + 256 * b1 + 0x10000 * b2 + 0x1000000 * b3,
                    0 <= b0 < 256,
                    0 <= b1 < 256,
                    0 <= b2 < 256,
                    0 <= b3 < 256;
            assert(bytes@.subrange(pos as int, pos + 4 as int) =~= seq![b0, b1, b2, b3]);
        }
        Some((v, pos + 4))
    } else {
        // big-integer mode: a length byte, then that many little-endian bytes
        let n: usize = (b0 / 4) as usize + 4;
        if n > 16 {
            proof {
                assert forall|v2: int, e: int|
                    0 <= v2 <= u128::MAX && pos < e <= bytes@.len() && bytes@.subrange(
                        pos as int,
                        e,
                    ) == compact_bytes(v2) implies false by {
                    lemma_big_mode_length(bytes@, pos as int, b0, n as int, v2, e);
                }
            }
            return None;
        }
        if bytes.len() - pos < n + 1 {
            proof {
                assert forall|v2: int, e: int|
                    0 <= v2 <= u128::MAX && pos < e <= bytes@.len() && bytes@.subrange(
                        pos as int,
                        e,
                    ) == compact_bytes(v2) implies false by {
                    lemma_big_mode_length(bytes@, pos as int, b0, n as int, v2, e);
                }
            }
            return None;
        }
        if bytes[pos + n] == 0 {
            // non-minimal: the top byte must carry information
            proof {
                assert forall|v2: int, e: int|
                    0 <= v2 <= u128::MAX && pos < e <= bytes@.len() && bytes@.subrange(
                        pos as int,
                        e,
                    ) == compact_bytes(v2) implies false by {
                    lemma_big_mode_length(bytes@, pos as int, b0, n as int, v2, e);
                    let c = compact_bytes(v2);
                    assert(c.last() == bytes@[pos + n]);
                }
            }
            return None;
        }
        let blen = bytes.len();
        let mut v: u128 = 0;
        let mut m: u128 = 1;
        let mut i: usize = 0;
        proof {
            lemma_pow256_values();
            lemma_pow256_mono(n as int, 16);
            assert(bytes@.subrange(pos + 1 as int, pos + 1 as int) =~= Seq::<u8>::empty());
        }
        while i < n
            invariant
                i <= n <= 16,
                blen == bytes@.len(),
                pos + 1 + n <= blen,
                v == le_value(bytes@.subrange(pos + 1 as int, pos + 1 + i as int)),
                i == n || m == pow256(i as int),
                pow256(n as int) <= pow256(16),
                pow256(16) == 0x100000000000000000000000000000000,
            decreases n - i,
        {
            let ghost prefix = bytes@.subrange(pos + 1 as int, pos + 1 + i as int);
            let b = bytes[pos + 1 + i];
            proof {
                lemma_le_value_round_trip(prefix);
                lemma_pow256_mono(i + 1 as int, 16);
                assert(v + b * m < pow256(i + 1 as int)) by (nonlinear_arith)
                    requires
                        v < pow256(i as int),
                        0 <= b < 256,
                        m == pow256(i as int),
                        pow256(i + 1 as int) == 256 * pow256(i as int),
                        m >= 0;
                lemma_le_value_snoc(prefix, b);
                assert(bytes@.subrange(pos + 1 as int, pos + 2 + i as int) =~= prefix.push(b));
            }
            v = v + (b as u128) * m;
            if i + 1 < n {
                proof {
                    lemma_pow256_mono(i + 2 as int, 16);
                }
                m = m * 256;
            }
            i = i + 1;
        }
        if v < 0x40000000 {
            proof {
                assert forall|v2: int, e: int|
                    0 <= v2 <= u128::MAX && pos < e <= bytes@.len() && bytes@.subrange(
                        pos as int,
                        e,
                    ) == compact_bytes(v2) implies false by {
                    lemma_big_mode_length(bytes@, pos as int, b0, n as int, v2, e);
                    let c = compact_bytes(v2);
                    assert(c.subrange(1, c.len() as int) =~= bytes@.subrange(
                        pos + 1 as int,
                        pos + 1 + n as int,
                    ));
                    assert(le_value(c.subrange(1, c.len() as int)) == v2);
                }
            }
            return None;
        }
        proof {
            let body = bytes@.subrange(pos + 1 as int, pos + 1 + n as int);
            lemma_le_value_round_trip(body);
            lemma_le_value_minimal(body);
            assert(bytes@.subrange(pos as int, pos + 1 + n as int) =~= seq![b0] + body);
            assert(b0 == ((n - 4) * 4 + 3) as u8) by (bit_vector)
                requires
                    b0 % 4 == 3,
                    n == (b0 / 4) as usize + 4,
                    b0 < 256,
            ;
        }
        Some((v, pos + 1 + n))
    }
}

/// A little-endian byte string has exactly the length it was asked for.
pub proof fn lemma_le_bytes_len(v: int, n: int)
    requires
        0 <= n,
    ensures
        le_bytes(v, n).len() == n,
    decreases n,
{
    if n > 0 {
        lemma_le_bytes_len(v / 256, n - 1);
    }
}

/// Reading a little-endian byte string back gives the value it was written
/// from.
pub proof fn lemma_le_bytes_value(x: int, n: int)
    requires
        0 <= n,
        0 <= x < pow256(n),
    ensures
        le_value(le_bytes(x, n)) == x,
    decreases n,
{
    if n == 0 {
        assert(le_bytes(x, 0) =~= Seq::<u8>::empty());
    } else {
        assert(pow256(n) == 256 * pow256(n - 1));
        assert(x / 256 < pow256(n - 1)) by (nonlinear_arith)
            requires
                0 <= x < 256 * pow256(n - 1);
        lemma_le_bytes_value(x / 256, n - 1);
        lemma_le_bytes_len(x / 256, n - 1);
        let t = le_bytes(x, n);
        assert(t =~= seq![(x % 256) as u8] + le_bytes(x / 256, n - 1));
        assert(t.drop_first() =~= le_bytes(x / 256, n - 1));
        lemma_fundamental_div_mod(x, 256);
    }
}

/// A value needs at least as many bytes as `min_bytes` says.
proof fn lemma_min_bytes_lower(v: int)
    requires
        v >= 1,
    ensures
        pow256(min_bytes(v) - 1) <= v,
    decreases v,
{
    if v >= 256 {
        lemma_min_bytes_lower(v / 256);
        lemma_min_bytes_positive(v / 256);
        lemma_fundamental_div_mod(v, 256);
        assert(min_bytes(v) == 1 + min_bytes(v / 256));
        assert(pow256(min_bytes(v / 256)) == 256 * pow256(min_bytes(v / 256) - 1));
    }
}

/// The top byte of a minimal little-endian string is not zero.
proof fn lemma_le_bytes_top_nonzero(v: int, n: int)
    requires
        n >= 1,
        pow256(n - 1) <= v < pow256(n),
    ensures
        le_bytes(v, n).last() != 0,
{
    lemma_le_bytes_len(v, n);
    lemma_le_bytes_value(v, n);
    let t = le_bytes(v, n);
    if t.last() == 0 {
        let front = t.subrange(0, n - 1);
        assert(t =~= front.push(t.last()));
        lemma_le_value_snoc(front, t.last());
        lemma_le_value_round_trip(front);
        assert(0 * pow256(n - 1) == 0) by (nonlinear_arith);
        assert(le_value(t) < pow256(n - 1));
    }
}

/// Shape of a compact encoding: the first byte's low bits name the mode, the
/// length follows from them, and the value can be read back off the bytes.
pub proof fn lemma_compact_shape(v: int)
    requires
        0 <= v <= u128::MAX,
    ensures
        ({
            let s = compact_bytes(v);
            &&& s.len() >= 1
            &&& (v < 0x40 ==> s.len() == 1 && s[0] % 4 == 0 && s[0] == v * 4)
            &&& (0x40 <= v < 0x4000 ==> s.len() == 2 && s[0] % 4 == 1 && s[0] + 256 * s[1] == v * 4
                + 1)
            &&& (0x4000 <= v < 0x40000000 ==> s.len() == 4 && s[0] % 4 == 2 && s[0] + 256 * s[1]
                + 0x10000 * s[2] + 0x1000000 * s[3] == v * 4 + 2)
            &&& (0x40000000 <= v ==> s.len() == 1 + min_bytes(v) && 4 <= min_bytes(v) <= 16 && s[0]
                % 4 == 3 && s[0] == (min_bytes(v) - 4) * 4 + 3 && s.last() != 0 && le_value(
                s.subrange(1, s.len() as int),
            ) == v)
        }),
{
    let s = compact_bytes(v);
    if v < 0x40 {
        assert(s =~= seq![(v * 4) as u8]);
        assert((v * 4) % 4 == 0) by (nonlinear_arith);
    } else if v < 0x4000 {
        let w = v * 4 + 1;
        reveal_with_fuel(le_bytes, 3);
        lemma_fundamental_div_mod_converse(w, 4, v, 1);
        lemma_mod_mod(w, 4, 64);
        lemma_fundamental_div_mod(w, 256);
        assert(s =~= seq![(w % 256) as u8, ((w / 256) % 256) as u8]);
        assert((w / 256) % 256 == w / 256);
        assert(s[0] % 4 == (w % 256) % 4 == w % 4 == 1);
    } else if v < 0x40000000 {
        let w = v * 4 + 2;
        lemma_le_bytes_unfold4(w);
        lemma_fundamental_div_mod_converse(w, 4, v, 2);
        lemma_mod_mod(w, 4, 64);
        assert(s[0] % 4 == (w % 256) % 4 == w % 4 == 2);
        assert(w % 256 + 256 * ((w / 256) % 256) + 0x10000 * ((w / 0x10000) % 256) + 0x1000000 * ((w
            / 0x1000000) % 256) == w) by (nonlinear_arith)
            requires
                0 <= w < 0x100000000;
    } else {
        let mb = min_bytes(v);
        lemma_min_bytes_at_least_4(v);
        lemma_pow256_values();
        lemma_min_bytes_bound(v, 16);
        lemma_min_bytes_lower(v);
        lemma_le_bytes_len(v, mb);
        assert(s.len() == 1 + mb);
        assert(s[0] == ((mb - 4) * 4 + 3) as u8);
        assert(((mb - 4) * 4 + 3) % 4 == 3) by (nonlinear_arith)
            requires
                mb >= 4;
        let tail = s.subrange(1, s.len() as int);
        assert(tail =~= le_bytes(v, mb));
        lemma_le_bytes_top_nonzero(v, mb);
        lemma_le_bytes_value(v, mb);
        assert(s.last() == tail.last());
    }
}

/// Two compact encodings that start at the same place in the same byte
/// string carry the same value and end at the same place.
pub proof fn lemma_compact_unique(v1: int, v2: int, s: Seq<u8>, pos: int, e1: int, e2: int)
    requires
        0 <= v1 <= u128::MAX,
        0 <= v2 <= u128::MAX,
        0 <= pos < e1 <= s.len(),
        pos < e2 <= s.len(),
        s.subrange(pos, e1) == compact_bytes(v1),
        s.subrange(pos, e2) == compact_bytes(v2),
    ensures
        v1 == v2,
        e1 == e2,
{
    lemma_compact_shape(v1);
    lemma_compact_shape(v2);
    let c1 = compact_bytes(v1);
    let c2 = compact_bytes(v2);
    assert(c1[0] == s[pos] && c2[0] == s[pos]);
    if v1 >= 0x40000000 && v2 >= 0x40000000 {
        // the first byte pins the length byte, hence the length
        assert(min_bytes(v1) == min_bytes(v2));
    }
    assert(e1 == e2);
    assert(c1 =~= c2);
    if v1 < 0x40 {
        assert(v1 * 4 == v2 * 4);
    } else if v1 < 0x4000 {
        assert(v1 * 4 + 1 == v2 * 4 + 1);
    } else if v1 < 0x40000000 {
        assert(v1 * 4 + 2 == v2 * 4 + 2);
    } else {
        assert(le_value(c1.subrange(1, c1.len() as int)) == le_value(
            c2.subrange(1, c2.len() as int),
        ));
    }
}

/// When the byte at `pos` selects the one- or two- or four-byte mode, any
/// compact encoding there needs more bytes than remain.
proof fn lemma_no_compact_here(s: Seq<u8>, pos: int, b0: u8, len: int)
    requires
        0 <= pos < len == s.len(),
        s[pos] == b0,
        b0 % 4 == 1 || b0 % 4 == 2,
        b0 % 4 == 1 ==> len - pos < 2,
        b0 % 4 == 2 ==> len - pos < 4,
    ensures
        forall|v: int, e: int|
            #![trigger compact_bytes(v), s.subrange(pos, e)]
            0 <= v <= u128::MAX && pos < e <= len ==> s.subrange(pos, e) != compact_bytes(v),
{
    assert forall|v: int, e: int|
        0 <= v <= u128::MAX && pos < e <= len && s.subrange(pos, e) == compact_bytes(
            v,
        ) implies false by {
        lemma_compact_shape(v);
        let c = compact_bytes(v);
        assert(c[0] == s[pos]);
        if b0 % 4 == 1 {
            assert(0x40 <= v < 0x4000);
            assert(e == pos + 2);
        } else {
            assert(0x4000 <= v < 0x40000000);
            assert(e == pos + 4);
        }
    }
}

/// When the byte at `pos` selects the big-integer mode, any compact encoding
/// there has exactly the length that byte announces, a value of at least
/// `0x40000000` read off its tail, and a non-zero top byte.
proof fn lemma_big_mode_length(s: Seq<u8>, pos: int, b0: u8, n: int, v: int, e: int)
    requires
        0 <= pos < s.len(),
        s[pos] == b0,
        b0 % 4 == 3,
        n == b0 / 4 + 4,
        0 <= v <= u128::MAX,
        pos < e <= s.len(),
        s.subrange(pos, e) == compact_bytes(v),
    ensures
        v >= 0x40000000,
        min_bytes(v) == n,
        4 <= n <= 16,
        e == pos + 1 + n,
        compact_bytes(v).last() != 0,
        le_value(compact_bytes(v).subrange(1, 1 + n)) == v,
{
    lemma_compact_shape(v);
    let c = compact_bytes(v);
    assert(c[0] == s[pos]);
    assert(v >= 0x40000000);
    let mb = min_bytes(v);
    assert(b0 as int == (mb - 4) * 4 + 3);
    lemma_fundamental_div_mod_converse(b0 as int, 4, mb - 4, 3);
    assert(mb == n);
}

/// Appending one byte to a little-endian string adds its value at the next
/// place.
proof fn lemma_le_value_snoc(s: Seq<u8>, b: u8)
    ensures
        le_value(s.push(b)) == le_value(s) + b * pow256(s.len() as int),
    decreases s.len(),
{
    if s.len() == 0 {
        assert(le_value(s) == 0);
        assert(pow256(0) == 1);
        assert(s.push(b) =~= seq![b]);
        assert(seq![b].drop_first() =~= Seq::<u8>::empty());
        assert(le_value(seq![b].drop_first()) == 0);
        assert(le_value(seq![b]) == b + 256 * le_value(seq![b].drop_first()));
    } else {
        lemma_le_value_snoc(s.drop_first(), b);
        assert(s.push(b).drop_first() =~= s.drop_first().push(b));
        assert(le_value(s.push(b)) == s[0] + 256 * le_value(s.drop_first().push(b)));
        assert(256 * (le_value(s.drop_first()) + b * pow256(s.len() - 1)) == 256 * le_value(
            s.drop_first(),
        ) + b * (256 * pow256(s.len() - 1))) by (nonlinear_arith);
        assert(pow256(s.len() as int) == 256 * pow256(s.len() - 1));
    }
}

/// Reads a fixed eight-byte little-endian integer at `pos`.
pub fn decode_u64_le(bytes: &Vec<u8>, pos: usize) -> (r: u64)
    requires
        pos + 8 <= bytes@.len(),
    ensures
        le_bytes(r as int, 8) =~= bytes@.subrange(pos as int, pos + 8 as int),
{
    let blen = bytes.len();
    let mut v: u64 = 0;
    let mut m: u64 = 1;
    let mut i: usize = 0;
    proof {
        lemma_pow256_values();
        assert(bytes@.subrange(pos as int, pos as int) =~= Seq::<u8>::empty());
        assert(pow256(0) == 1);
    }
    while i < 8
        invariant
            i <= 8,
            blen == bytes@.len(),
            pos + 8 <= blen,
            v == le_value(bytes@.subrange(pos as int, pos + i as int)),
            i == 8 || m == pow256(i as int),
            pow256(8) == 0x10000000000000000,
        decreases 8 - i,
    {
        let ghost prefix = bytes@.subrange(pos as int, pos + i as int);
        let b = bytes[pos + i];
        proof {
            lemma_le_value_round_trip(prefix);
            lemma_pow256_mono(i + 1 as int, 8);
            assert(v + b * m < pow256(i + 1 as int)) by (nonlinear_arith)
                requires
                    v < pow256(i as int),
                    0 <= b < 256,
                    m == pow256(i as int),
                    pow256(i + 1 as int) == 256 * pow256(i as int),
                    m >= 0;
            lemma_le_value_snoc(prefix, b);
            assert(bytes@.subrange(pos as int, pos + 1 + i as int) =~= prefix.push(b));
        }
        v = v + (b as u64) * m;
        if i + 1 < 8 {
            proof {
                lemma_pow256_mono(i + 1 as int, 7);
                lemma_pow256_values();
            }
            m = m * 256;
        }
        i = i + 1;
    }
    proof {
        let s = bytes@.subrange(pos as int, pos + 8 as int);
        lemma_le_value_round_trip(s);
    }
    v
}

/// The encoding of a variable-length byte string: its compact length, then
/// its bytes.
pub open spec fn bytes_with_len(b: Seq<u8>) -> Seq<u8> {
    compact_bytes(b.len() as int) + b
}

pub fn encode_bytes(bytes: &Vec<u8>, out: &mut Vec<u8>)
    ensures
        final(out)@ == old(out)@ + bytes_with_len(bytes@),
{
    encode_compact_u64(bytes.len() as u64, out);
    encode_raw(bytes.as_slice(), out);
}

} // verus!
