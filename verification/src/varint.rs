//! SQLite-style variable-length integer codec.
//!
//! A 64-bit unsigned value is encoded into 1 to 9 bytes, most significant
//! byte first. Each of the first 1 to 8 bytes carries 7 data bits plus a
//! continuation bit (set on every byte but the last); a value that uses bits
//! 56 to 63 forces the full 9-byte form, whose trailing byte carries the low
//! 8 bits raw, with no continuation bit.

use vstd::prelude::*;
use vstd::arithmetic::div_mod::{
    lemma_fundamental_div_mod, lemma_div_non_zero, lemma_div_is_ordered,
    lemma_div_multiples_vanish, lemma_mod_bound, lemma_multiply_divide_lt,
    lemma_small_mod,
};
use vstd::arithmetic::mul::{lemma_mul_is_associative, lemma_mul_is_distributive_add_other_way};
use crate::error::TursoMiniError;

verus! {

/// 128 raised to the power `k`: the weight of the `k`-th 7-bit group.
pub open spec fn pow128(k: nat) -> int
    decreases k,
{
    if k == 0 {
        1
    } else {
        128 * pow128((k - 1) as nat)
    }
}

/// The number of bytes the encoding of `v` occupies.
pub open spec fn spec_varint_len(v: u64) -> int {
    if v <= 0x7f {
        1
    } else if v <= 0x3fff {
        2
    } else if v <= 0x1fffff {
        3
    } else if v <= 0xfffffff {
        4
    } else if v <= 0x7ffffffff {
        5
    } else if v <= 0x3ffffffffff {
        6
    } else if v <= 0x1ffffffffffff {
        7
    } else if v <= 0xffffffffffffff {
        8
    } else {
        9
    }
}

/// `n` bytes of 7-bit groups of `v`, most significant group first. The
/// continuation bit is set on every byte but the last, and on the last byte
/// too when `cont` is set.
pub open spec fn spec_enc7(v: int, n: nat, cont: bool) -> Seq<u8>
    recommends
        0 <= v < pow128(n),
        n >= 1,
    decreases n,
{
    if n <= 1 {
        seq![(v % 128 + if cont { 128int } else { 0int }) as u8]
    } else {
        seq![((v / pow128((n - 1) as nat)) % 128 + 128) as u8]
            + spec_enc7(v % pow128((n - 1) as nat), (n - 1) as nat, cont)
    }
}

/// The byte sequence `write_varint` emits for `v`.
pub open spec fn spec_varint_encode(v: u64) -> Seq<u8> {
    if v <= 0xffffffffffffff {
        spec_enc7(v as int, spec_varint_len(v) as nat, false)
    } else {
        spec_enc7(v as int / 256, 8, true) + seq![(v % 256) as u8]
    }
}

/// One step of decoding: `fuel` continuation bytes may still be read before
/// the raw ninth byte; `acc` holds the bits read so far. Returns the decoded
/// value and the number of bytes consumed, or `None` for corrupt input: a
/// buffer that ends before the encoding does, or a 9-byte form whose first
/// eight bytes carry fewer than 49 bits (such a value has a shorter
/// encoding, so the 9-byte form never arises from a valid encoder).
pub open spec fn spec_varint_decode_rec(b: Seq<u8>, fuel: nat, acc: int) -> Option<(u64, int)>
    decreases fuel,
{
    if fuel == 0 {
        if b.len() == 0 {
            None
        } else if acc / 0x1000000000000 == 0 {
            None
        } else {
            Some((((acc * 256 + b[0]) as u64), 1))
        }
    } else if b.len() == 0 {
        None
    } else if b[0] < 128 {
        Some((((acc * 128 + b[0]) as u64), 1))
    } else {
        match spec_varint_decode_rec(b.drop_first(), (fuel - 1) as nat, acc * 128 + (b[0] - 128)) {
            None => None,
            Some((v, n)) => Some((v, n + 1)),
        }
    }
}

/// The value and byte count `read_varint` reports for `b`, or `None` when
/// `b` does not start with a well-formed encoding.
pub open spec fn spec_varint_decode(b: Seq<u8>) -> Option<(u64, int)> {
    spec_varint_decode_rec(b, 8, 0)
}

proof fn lemma_pow128_values()
    ensures
        pow128(0) == 1,
        pow128(1) == 0x80,
        pow128(2) == 0x4000,
        pow128(3) == 0x200000,
        pow128(4) == 0x10000000,
        pow128(5) == 0x800000000,
        pow128(6) == 0x40000000000,
        pow128(7) == 0x2000000000000,
        pow128(8) == 0x100000000000000,
{
    assert(pow128(0) == 1);
    assert(pow128(1) == 0x80);
    assert(pow128(2) == 0x4000);
    assert(pow128(3) == 0x200000);
    assert(pow128(4) == 0x10000000);
    assert(pow128(5) == 0x800000000);
    assert(pow128(6) == 0x40000000000);
    assert(pow128(7) == 0x2000000000000);
    assert(pow128(8) == 0x100000000000000);
}

proof fn lemma_enc7_len(v: int, n: nat, cont: bool)
    requires
        n >= 1,
    ensures
        spec_enc7(v, n, cont).len() == n,
    decreases n,
{
    if n > 1 {
        lemma_enc7_len(v % pow128((n - 1) as nat), (n - 1) as nat, cont);
    }
}

/// A terminated group run decodes to exactly its own bits appended below
/// whatever the accumulator already held.
proof fn lemma_decode_enc7_terminated(v: int, n: nat, rest: Seq<u8>, fuel: nat, acc: int)
    requires
        0 <= v < pow128(n),
        1 <= n <= fuel,
        0 <= acc,
        acc * pow128(n) + v < 0x10000000000000000,
    ensures
        spec_varint_decode_rec(spec_enc7(v, n, false) + rest, fuel, acc)
            == Some((((acc * pow128(n) + v) as u64), n as int)),
    decreases n,
{
    let b = spec_enc7(v, n, false) + rest;
    if n == 1 {
        assert(v % 128 == v) by { lemma_small_mod(v as nat, 128); }
        assert(b[0] == v as u8);
        assert(acc * pow128(1) == acc * 128);
    } else {
        let p = pow128((n - 1) as nat);
        lemma_pow128_pos((n - 1) as nat);
        assert(pow128(n) == 128 * p);
        assert(v / p < 128) by { lemma_multiply_divide_lt(v, p, 128); }
        assert(v / p >= 0) by (nonlinear_arith)
            requires v >= 0, p > 0;
        assert((v / p) % 128 == v / p) by { lemma_small_mod((v / p) as nat, 128); }
        let b0: u8 = ((v / p) % 128 + 128) as u8;
        let tail = spec_enc7(v % p, (n - 1) as nat, false);
        assert(b =~= seq![b0] + (tail + rest));
        assert(b[0] == b0 && b0 >= 128);
        assert(b.drop_first() =~= tail + rest);
        let acc2 = acc * 128 + (v / p);
        assert(0 <= v % p < p) by { lemma_mod_bound(v, p); }
        assert(acc2 * p + v % p == acc * pow128(n) + v) by {
            lemma_fundamental_div_mod(v, p);
            lemma_mul_is_distributive_add_other_way(p, acc * 128, v / p);
            lemma_mul_is_associative(acc, 128, p);
        }
        lemma_decode_enc7_terminated(v % p, (n - 1) as nat, rest, (fuel - 1) as nat, acc2);
    }
}

/// A run of `n` continuation-marked groups shifts its bits into the
/// accumulator and leaves decoding to continue in the remaining bytes with
/// no fuel left.
proof fn lemma_decode_enc7_cont(w: int, n: nat, rest: Seq<u8>, acc: int)
    requires
        0 <= w < pow128(n),
        1 <= n,
        0 <= acc,
    ensures
        spec_varint_decode_rec(spec_enc7(w, n, true) + rest, n, acc)
            == match spec_varint_decode_rec(rest, 0, acc * pow128(n) + w) {
                None => None::<(u64, int)>,
                Some((val, cnt)) => Some((val, cnt + n)),
            },
    decreases n,
{
    let b = spec_enc7(w, n, true) + rest;
    if n == 1 {
        assert(w % 128 == w) by { lemma_small_mod(w as nat, 128); }
        assert(b[0] == (w + 128) as u8);
        assert(b.drop_first() =~= rest);
        assert(acc * pow128(1) == acc * 128);
    } else {
        let p = pow128((n - 1) as nat);
        lemma_pow128_pos((n - 1) as nat);
        assert(pow128(n) == 128 * p);
        assert(w / p < 128) by { lemma_multiply_divide_lt(w, p, 128); }
        assert(w / p >= 0) by (nonlinear_arith)
            requires w >= 0, p > 0;
        assert((w / p) % 128 == w / p) by { lemma_small_mod((w / p) as nat, 128); }
        let b0: u8 = ((w / p) % 128 + 128) as u8;
        let tail = spec_enc7(w % p, (n - 1) as nat, true);
        assert(b =~= seq![b0] + (tail + rest));
        assert(b[0] == b0 && b0 >= 128);
        assert(b.drop_first() =~= tail + rest);
        let acc2 = acc * 128 + (w / p);
        assert(0 <= w % p < p) by { lemma_mod_bound(w, p); }
        assert(acc2 * p + w % p == acc * pow128(n) + w) by {
            lemma_fundamental_div_mod(w, p);
            lemma_mul_is_distributive_add_other_way(p, acc * 128, w / p);
            lemma_mul_is_associative(acc, 128, p);
        }
        lemma_decode_enc7_cont(w % p, (n - 1) as nat, rest, acc2);
    }
}

proof fn lemma_pow128_pos(k: nat)
    ensures
        pow128(k) >= 1,
    decreases k,
{
    if k > 0 {
        lemma_pow128_pos((k - 1) as nat);
    }
}

/// The round-trip law: decoding the encoding of any 64-bit value yields that
/// value back, and consumes exactly `spec_varint_len(v)` bytes.
pub proof fn lemma_varint_round_trip(v: u64)
    ensures
        spec_varint_decode(spec_varint_encode(v)) == Some((v, spec_varint_len(v))),
{
    lemma_pow128_values();
    if v <= 0xffffffffffffff {
        let n = spec_varint_len(v) as nat;
        assert(0 <= v < pow128(n));
        lemma_decode_enc7_terminated(v as int, n, Seq::empty(), 8, 0);
        assert(spec_enc7(v as int, n, false) + Seq::<u8>::empty() =~= spec_enc7(v as int, n, false));
    } else {
        let w = v as int / 256;
        let rest = seq![(v % 256) as u8];
        assert(w < pow128(8)) by { lemma_multiply_divide_lt(v as int, 256, 0x100000000000000); }
        assert(w >= 0x1000000000000) by {
            lemma_div_multiples_vanish(0x1000000000000, 256);
            lemma_div_is_ordered(0x100000000000000, v as int, 256);
        }
        assert(w / 0x1000000000000 != 0) by { lemma_div_non_zero(w, 0x1000000000000); }
        lemma_decode_enc7_cont(w, 8, rest, 0);
        assert(w * 256 + (v % 256) == v) by { lemma_fundamental_div_mod(v as int, 256); }
        assert(spec_varint_decode_rec(rest, 0, w) == Some(((v, 1int))));
    }
}

/// Any value that uses bits 56 to 63 takes the full 9-byte form.
pub proof fn lemma_varint_len_nine(v: u64)
    requires
        v & 0xff00000000000000 != 0,
    ensures
        spec_varint_len(v) == 9,
{
    assert(v > 0xffffffffffffff) by (bit_vector)
        requires v & 0xff00000000000000 != 0;
}

fn pow128_exec(k: usize) -> (r: u64)
    requires
        k <= 7,
    ensures
        r == pow128(k as nat),
{
    proof { lemma_pow128_values(); }
    if k == 0 {
        1
    } else if k == 1 {
        0x80
    } else if k == 2 {
        0x4000
    } else if k == 3 {
        0x200000
    } else if k == 4 {
        0x10000000
    } else if k == 5 {
        0x800000000
    } else if k == 6 {
        0x40000000000
    } else {
        0x2000000000000
    }
}

/// Writes the `n` 7-bit groups of `v` at `buf[start..start + n]`, most
/// significant group first, marking every byte but the last as continued
/// (and the last too when `cont` is set).
fn write_groups(buf: &mut [u8], start: usize, v: u64, n: usize, cont: bool)
    requires
        1 <= n <= 8,
        start + n <= old(buf).len(),
        v < pow128(n as nat),
    ensures
        final(buf)@.len() == old(buf)@.len(),
        final(buf)@.subrange(start as int, (start + n) as int) == spec_enc7(
            v as int,
            n as nat,
            cont,
        ),
        forall|j: int|
            0 <= j < final(buf)@.len() && !(start <= j < start + n) ==> final(buf)@[j] == old(
                buf,
            )@[j],
    decreases n,
{
    proof { lemma_pow128_values(); }
    if n == 1 {
        let b0: u8 = (v % 128) as u8 + if cont { 128u8 } else { 0u8 };
        buf[start] = b0;
        proof {
            assert(buf@.subrange(start as int, (start + 1) as int) =~= seq![b0]);
            assert(spec_enc7(v as int, 1, cont) =~= seq![b0]);
        }
    } else {
        let p = pow128_exec(n - 1);
        proof {
            lemma_pow128_pos((n - 1) as nat);
            assert(pow128(n as nat) == 128 * pow128((n - 1) as nat));
            assert((v as int) / (p as int) < 128) by {
                lemma_multiply_divide_lt(v as int, p as int, 128);
            }
        }
        let hi: u8 = ((v / p) % 128) as u8 + 128;
        buf[start] = hi;
        proof {
            assert(0 <= ((v as int) % (p as int)) < (p as int)) by {
                lemma_mod_bound(v as int, p as int);
            }
        }
        write_groups(buf, start + 1, v % p, n - 1, cont);
        proof {
            let tail = spec_enc7((v % p) as int, (n - 1) as nat, cont);
            lemma_enc7_len((v % p) as int, (n - 1) as nat, cont);
            assert(buf@[start as int] == hi);
            assert(buf@.subrange((start + 1) as int, (start + n) as int) == tail);
            assert(spec_enc7(v as int, n as nat, cont) == seq![hi] + tail) by {
                assert((v as int / p as int) % 128 + 128 == hi);
            }
            assert(buf@.subrange(start as int, (start + n) as int) =~= seq![hi] + tail);
        }
    }
}

/// The number of bytes `write_varint` emits for `value`, computed without
/// writing.
pub fn varint_len(value: u64) -> (n: usize)
    ensures
        n == spec_varint_len(value),
{
    if value <= 0x7f {
        1
    } else if value <= 0x3fff {
        2
    } else if value <= 0x1fffff {
        3
    } else if value <= 0xfffffff {
        4
    } else if value <= 0x7ffffffff {
        5
    } else if value <= 0x3ffffffffff {
        6
    } else if value <= 0x1ffffffffffff {
        7
    } else if value <= 0xffffffffffffff {
        8
    } else {
        9
    }
}

/// Encodes `value` at the start of `buf` and returns the number of bytes
/// written; the rest of `buf` is left untouched.
pub fn write_varint(buf: &mut [u8], value: u64) -> (n: usize)
    requires
        old(buf).len() >= spec_varint_len(value),
    ensures
        n == spec_varint_len(value),
        final(buf)@.len() == old(buf)@.len(),
        final(buf)@.subrange(0, n as int) == spec_varint_encode(value),
        forall|j: int| n <= j < final(buf)@.len() ==> final(buf)@[j] == old(buf)@[j],
{
    proof { lemma_pow128_values(); }
    if value > 0xffffffffffffff {
        buf[8] = (value % 256) as u8;
        proof {
            assert(value as int / 256 < pow128(8)) by {
                lemma_multiply_divide_lt(value as int, 256, 0x100000000000000);
            }
        }
        write_groups(buf, 0, value / 256, 8, true);
        proof {
            let enc = spec_enc7(value as int / 256, 8, true);
            lemma_enc7_len(value as int / 256, 8, true);
            assert(buf@[8] == (value % 256) as u8);
            assert(buf@.subrange(0, 9) =~= enc + seq![(value % 256) as u8]);
        }
        9
    } else {
        let n = varint_len(value);
        write_groups(buf, 0, value, n, false);
        n
    }
}

fn read_varint_from(buf: &[u8], i: usize, acc: u64) -> (r: Result<(u64, usize), TursoMiniError>)
    requires
        i <= 8,
        i <= buf@.len(),
        acc < pow128(i as nat),
    ensures
        ({
            let d = spec_varint_decode_rec(buf@.skip(i as int), (8 - i) as nat, acc as int);
            match r {
                Ok(p) => d == Some((p.0, p.1 - i)) && i < p.1 <= 9,
                Err(e) => d is None && e == TursoMiniError::Corrupt,
            }
        }),
    decreases 8 - i,
{
    proof { lemma_pow128_values(); }
    let ghost s = buf@.skip(i as int);
    if i == 8 {
        if buf.len() <= 8 {
            assert(s.len() == 0);
            Err(TursoMiniError::Corrupt)
        } else {
            let c = buf[8];
            assert(s[0] == buf@[8]);
            if acc / 0x1000000000000 == 0 {
                Err(TursoMiniError::Corrupt)
            } else {
                Ok((acc * 256 + c as u64, 9))
            }
        }
    } else if i >= buf.len() {
        assert(s.len() == 0);
        Err(TursoMiniError::Corrupt)
    } else {
        let c = buf[i];
        assert(s[0] == buf@[i as int]);
        if c < 128 {
            Ok((acc * 128 + c as u64, i + 1))
        } else {
            proof {
                assert(buf@.skip(i as int).drop_first() =~= buf@.skip(i as int + 1));
            }
            read_varint_from(buf, i + 1, acc * 128 + (c - 128) as u64)
        }
    }
}

/// Decodes the varint at the start of `buf`, returning the value and the
/// number of bytes consumed. Fails with `Corrupt` exactly when `buf` holds
/// no well-formed encoding: it ends before a terminating byte, or a ninth
/// byte appears although the first eight carried fewer than 49 bits.
pub fn read_varint(buf: &[u8]) -> (r: Result<(u64, usize), TursoMiniError>)
    ensures
        match r {
            Ok(p) => spec_varint_decode(buf@) == Some((p.0, p.1 as int)) && 1 <= p.1 <= 9,
            Err(e) => spec_varint_decode(buf@) is None && e == TursoMiniError::Corrupt,
        },
{
    proof {
        assert(buf@.skip(0) =~= buf@);
    }
    read_varint_from(buf, 0, 0)
}

} // verus!

