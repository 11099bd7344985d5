//! ULEB128: the variable-length integer encoding of the Move binary
//! format.  Seven bits per byte, least significant group first, the
//! high bit set on every byte but the last.  Reading accepts exactly
//! the canonical encodings of `u64` values: at most ten bytes, no
//! bits beyond the 64th, and no zero final byte after the first.

use vstd::prelude::*;

verus! {

/// `128` to the power `i`.
pub open spec fn pow128(i: nat) -> nat
    decreases i,
{
    if i == 0 {
        1
    } else {
        128 * pow128((i - 1) as nat)
    }
}

/// The canonical ULEB128 encoding of `v`.
pub open spec fn uleb128_encode(v: nat) -> Seq<u8>
    decreases v,
{
    if v < 128 {
        seq![v as u8]
    } else {
        seq![(v % 128 + 128) as u8] + uleb128_encode(v / 128)
    }
}

/// Reading a ULEB128 value, as the Move binary format's reader does
/// it: the byte at `p` is the `i`-th of the value and `acc` holds the
/// groups read so far.  The result is the value and the position
/// after its last byte, or the position after the byte at which
/// reading failed (the end of the input when it ran out).
pub open spec fn uleb128_scan(s: Seq<u8>, p: int, i: nat, acc: nat) -> Result<(nat, int), int>
    decreases 10 - i,
{
    if i >= 10 {
        Err(p)
    } else if p >= s.len() {
        Err(p)
    } else {
        let b = s[p];
        let cur = (b % 128) as nat;
        if i == 9 && cur > 1 {
            // Bits beyond the 64th.
            Err(p + 1)
        } else {
            let acc2 = acc + cur * pow128(i);
            if b < 128 {
                if i > 0 && cur == 0 {
                    // Non-canonical: a zero final group.
                    Err(p + 1)
                } else {
                    Ok((acc2, p + 1))
                }
            } else if i == 9 {
                // Longer than ten bytes.
                Err(p + 1)
            } else {
                uleb128_scan(s, p + 1, i + 1, acc2)
            }
        }
    }
}

/// Reading a ULEB128 value that starts at position `p`.
pub open spec fn uleb128_decode(s: Seq<u8>, p: int) -> Result<(nat, int), int> {
    uleb128_scan(s, p, 0, 0)
}

pub proof fn lemma_pow128_values()
    ensures
        pow128(1) == 0x80,
        pow128(2) == 0x4000,
        pow128(3) == 0x20_0000,
        pow128(4) == 0x1000_0000,
        pow128(5) == 0x8_0000_0000,
        pow128(6) == 0x400_0000_0000,
        pow128(7) == 0x2_0000_0000_0000,
        pow128(8) == 0x100_0000_0000_0000,
        pow128(9) == 0x8000_0000_0000_0000,
{
    reveal_with_fuel(pow128, 10);
}

proof fn lemma_pow128_positive(i: nat)
    ensures
        pow128(i) >= 1,
    decreases i,
{
    if i > 0 {
        lemma_pow128_positive((i - 1) as nat);
    }
}

/// The largest value representable in the remaining groups when the
/// next byte is the `i`-th: `2 * 128^(9 - i)`.
pub open spec fn uleb128_cap(i: nat) -> nat {
    2 * pow128((9 - i) as nat)
}

/// A successful read yields a value below `2^64`.
proof fn lemma_scan_bound(s: Seq<u8>, p: int, i: nat, acc: nat)
    requires
        i <= 9,
        acc < pow128(i),
    ensures
        uleb128_scan(s, p, i, acc) matches Ok((w, q)) ==> w < 2 * pow128(9) && q > p,
    decreases 10 - i,
{
    lemma_pow128_values();
    if p < s.len() {
        let b = s[p];
        let cur = (b % 128) as nat;
        let pw = pow128(i);
        assert(pow128(i + 1) == 128 * pw);
        if i < 9 {
            assert(acc + cur * pw < pow128(i + 1)) by (nonlinear_arith)
                requires
                    acc < pw,
                    cur <= 127,
                    pow128(i + 1) == 128 * pw,
            ;
            if i + 1 < 9 {
                lemma_pow128_monotone(i + 1, 9);
            }
            if b >= 128 {
                lemma_scan_bound(s, p + 1, i + 1, acc + cur * pw);
            }
        } else {
            if cur <= 1 {
                assert(acc + cur * pw < 2 * pow128(9)) by (nonlinear_arith)
                    requires
                        acc < pw,
                        cur <= 1,
                        pw == pow128(9),
                ;
            }
        }
    }
}

pub proof fn lemma_pow128_monotone(i: nat, j: nat)
    requires
        i <= j,
    ensures
        pow128(i) <= pow128(j),
    decreases j - i,
{
    if i < j {
        lemma_pow128_monotone(i, (j - 1) as nat);
        lemma_pow128_positive((j - 1) as nat);
    }
}

/// A successful read yields a `u64` value and consumes at least one
/// byte.
pub proof fn lemma_uleb128_decode_bound(s: Seq<u8>, p: int)
    ensures
        uleb128_decode(s, p) matches Ok((w, q)) ==> w <= u64::MAX && q > p,
{
    lemma_pow128_values();
    lemma_scan_bound(s, p, 0, 0);
}

/// A failed read fails at or after its starting position.
pub proof fn lemma_uleb128_decode_fail_pos(s: Seq<u8>, p: int, i: nat, acc: nat)
    ensures
        uleb128_scan(s, p, i, acc) matches Err(f) ==> f >= p,
    decreases 10 - i,
{
    if i < 10 && p < s.len() {
        lemma_uleb128_decode_fail_pos(s, p + 1, i + 1, acc + ((s[p] % 128) as nat) * pow128(i));
    }
}

/// The encoding of a value is between one and ten bytes long.
pub proof fn lemma_uleb128_encode_len(v: nat)
    ensures
        uleb128_encode(v).len() >= 1,
        v <= u64::MAX ==> uleb128_encode(v).len() <= 10,
{
    lemma_pow128_values();
    if v <= u64::MAX {
        assert(uleb128_cap(0) == 2 * pow128(9));
        lemma_encode_len_cap(v, 0);
    } else {
        assert(uleb128_encode(v) == seq![(v % 128 + 128) as u8] + uleb128_encode(v / 128));
    }
}

proof fn lemma_encode_len_cap(v: nat, i: nat)
    requires
        i <= 9,
        v < uleb128_cap(i),
    ensures
        uleb128_encode(v).len() >= 1,
        uleb128_encode(v).len() <= 10 - i,
    decreases v,
{
    lemma_pow128_values();
    if v >= 128 {
        assert(i < 9);
        assert(uleb128_cap(i) == 128 * uleb128_cap(i + 1)) by {
            assert(pow128((9 - i) as nat) == 128 * pow128((9 - (i + 1)) as nat));
        }
        lemma_encode_len_cap(v / 128, i + 1);
    } else {
        lemma_encode_len_cap_small(v);
    }
}

proof fn lemma_encode_len_cap_small(v: nat)
    requires
        v < 128,
    ensures
        uleb128_encode(v).len() == 1,
{
}

/// Reading the encoding of `v` (the `i`-th group onwards) yields `v`
/// scaled to its position and ends right after the encoding.
proof fn lemma_scan_encoded(v: nat, s: Seq<u8>, p: int, i: nat, acc: nat)
    requires
        i <= 9,
        v < uleb128_cap(i),
        i > 0 ==> v > 0,
        0 <= p,
        p + uleb128_encode(v).len() <= s.len(),
        s.subrange(p, p + uleb128_encode(v).len()) == uleb128_encode(v),
    ensures
        uleb128_scan(s, p, i, acc) == Ok::<(nat, int), int>((acc + v * pow128(i), p + uleb128_encode(v).len())),
    decreases v,
{
    lemma_pow128_values();
    let enc = uleb128_encode(v);
    assert(s[p] == s.subrange(p, p + enc.len())[0]);
    let pw = pow128(i);
    if v < 128 {
        assert(enc =~= seq![v as u8]);
        assert(s[p] == v as u8);
        assert((v as u8) % 128 == v);
        if i == 9 {
            assert(uleb128_cap(9) == 2);
        }
    } else {
        assert(i < 9) by {
            if i == 9 {
                assert(uleb128_cap(9) == 2);
            }
        }
        let b = (v % 128 + 128) as u8;
        assert(s[p] == b);
        assert(b % 128 == v % 128);
        assert(pow128(i + 1) == 128 * pw);
        assert(uleb128_cap(i) == 128 * uleb128_cap(i + 1)) by {
            assert(pow128((9 - i) as nat) == 128 * pow128((9 - (i + 1)) as nat));
        }
        let rest = uleb128_encode(v / 128);
        assert(enc == seq![b] + rest);
        assert(s.subrange(p + 1, p + 1 + rest.len()) =~= rest) by {
            assert forall|k: int| 0 <= k < rest.len() implies s.subrange(p + 1, p + 1 + rest.len())[k] == rest[k] by {
                assert(s.subrange(p, p + enc.len())[k + 1] == enc[k + 1]);
            }
        }
        let cur = (v % 128) as nat;
        lemma_scan_encoded(v / 128, s, p + 1, i + 1, acc + cur * pw);
        assert(acc + cur * pw + (v / 128) * pow128(i + 1) == acc + v * pw) by (nonlinear_arith)
            requires
                pow128(i + 1) == 128 * pw,
                cur == v % 128,
                v == 128 * (v / 128) + v % 128,
        ;
    }
}

/// Round trip: reading the encoding of a `u64` value gives back the
/// value and stops right after the encoding.
pub proof fn lemma_uleb128_round_trip(v: nat, s: Seq<u8>, p: int)
    requires
        v <= u64::MAX,
        0 <= p,
        p + uleb128_encode(v).len() <= s.len(),
        s.subrange(p, p + uleb128_encode(v).len()) == uleb128_encode(v),
    ensures
        uleb128_decode(s, p) == Ok::<(nat, int), int>((v, p + uleb128_encode(v).len())),
{
    lemma_pow128_values();
    assert(uleb128_cap(0) == 2 * pow128(9));
    assert(pow128(0) == 1);
    lemma_scan_encoded(v, s, p, 0, 0);
    assert(0 + v * pow128(0) == v);
}

/// Reading from the `i`-th group onwards succeeds only on the
/// canonical encoding of some value `v`, which it scales to its
/// position.
proof fn lemma_scan_canonical(s: Seq<u8>, p: int, i: nat, acc: nat) -> (v: nat)
    requires
        0 <= p,
        uleb128_scan(s, p, i, acc) is Ok,
    ensures
        uleb128_scan(s, p, i, acc) matches Ok((w, q)) && {
            &&& w == acc + v * pow128(i)
            &&& q == p + uleb128_encode(v).len()
            &&& q <= s.len()
            &&& s.subrange(p, q) == uleb128_encode(v)
            &&& (i > 0 ==> v > 0)
        },
    decreases 10 - i,
{
    let b = s[p];
    let cur = (b % 128) as nat;
    let pw = pow128(i);
    if b < 128 {
        assert(cur == b);
        assert(uleb128_encode(cur) =~= seq![cur as u8]);
        assert(s.subrange(p, p + 1) =~= seq![b]);
        cur
    } else {
        let acc2 = acc + cur * pw;
        let v2 = lemma_scan_canonical(s, p + 1, i + 1, acc2);
        let v = cur + 128 * v2;
        let q = p + 1 + uleb128_encode(v2).len();
        assert(v >= 128);
        assert(v % 128 == cur && v / 128 == v2);
        assert(b == (cur + 128) as u8);
        assert(uleb128_encode(v) == seq![(v % 128 + 128) as u8] + uleb128_encode(v2));
        assert(s.subrange(p, q) =~= seq![b] + s.subrange(p + 1, q));
        assert(pow128(i + 1) == 128 * pw);
        assert(acc2 + v2 * pow128(i + 1) == acc + v * pw) by (nonlinear_arith)
            requires
                pow128(i + 1) == 128 * pw,
                acc2 == acc + cur * pw,
                v == cur + 128 * v2,
        ;
        v
    }
}

/// Canonicity: a successful read consumed exactly the encoding of
/// the value it returned.
pub proof fn lemma_uleb128_canonical(s: Seq<u8>, p: int)
    requires
        0 <= p,
    ensures
        uleb128_decode(s, p) matches Ok((w, q)) ==> q <= s.len() && s.subrange(p, q)
            == uleb128_encode(w),
{
    if uleb128_decode(s, p) is Ok {
        let v = lemma_scan_canonical(s, p, 0, 0);
        assert(pow128(0) == 1);
        assert(0 + v * pow128(0) == v);
    }
}

/// Appends the ULEB128 encoding of `value` to `out`.
pub fn write_uleb128(value: u64, out: &mut Vec<u8>)
    ensures
        final(out)@ == old(out)@ + uleb128_encode(value as nat),
{
    let mut value = value;
    let ghost start = out@;
    let ghost orig = value as nat;
    while value >= 128
        invariant
            start + uleb128_encode(orig) == out@ + uleb128_encode(value as nat),
        decreases value,
    {
        let byte = (value % 128 + 128) as u8;
        let ghost before = out@;
        out.push(byte);
        assert(uleb128_encode(value as nat) == seq![byte] + uleb128_encode((value / 128) as nat));
        assert(before + uleb128_encode(value as nat) =~= out@ + uleb128_encode((value / 128) as nat));
        value = value / 128;
    }
    let byte = value as u8;
    let ghost before = out@;
    out.push(byte);
    assert(uleb128_encode(value as nat) =~= seq![byte]);
    assert(before + uleb128_encode(value as nat) =~= out@);
}

} // verus!
