//! The bit-level model of a byte buffer: bits are numbered from the most
//! significant bit of the first byte, and multi-bit fields are big-endian.

use vstd::prelude::*;

verus! {

/// The largest buffer the bit reader accepts, in bytes: bit positions must
/// stay well inside `u64`.
pub open spec fn max_buf_len() -> int {
    0x0fff_ffff_ffff_ffff
}

/// `2` raised to the power `n`.
pub open spec fn pow2(n: nat) -> nat
    decreases n,
{
    if n == 0 {
        1
    } else {
        2 * pow2((n - 1) as nat)
    }
}

/// Number of bits held by `bytes`.
pub open spec fn bit_len(bytes: Seq<u8>) -> int {
    (bytes.len() * 8) as int
}

/// The bit at index `i` (0 = most significant bit of the first byte).
pub open spec fn bit_at(bytes: Seq<u8>, i: int) -> bool {
    (bytes[i / 8] as nat / pow2((7 - i % 8) as nat)) % 2 == 1
}

/// The unsigned big-endian number formed by the `n` bits starting at `pos`.
pub open spec fn bits_value(bytes: Seq<u8>, pos: int, n: nat) -> nat
    decreases n,
{
    if n == 0 {
        0
    } else {
        2 * bits_value(bytes, pos, (n - 1) as nat) + if bit_at(bytes, pos + n - 1) {
            1nat
        } else {
            0nat
        }
    }
}

/// Reading `n` bits at `pos`: the value and the position after it, or `None`
/// when fewer than `n` bits remain.
pub open spec fn read_bits(bytes: Seq<u8>, pos: int, n: nat) -> Option<(nat, int)> {
    if pos + n <= bit_len(bytes) {
        Some((bits_value(bytes, pos, n), pos + n))
    } else {
        None
    }
}

/// Reading one bit at `pos` as a flag.
pub open spec fn read_flag(bytes: Seq<u8>, pos: int) -> Option<(bool, int)> {
    match read_bits(bytes, pos, 1) {
        Some((v, p)) => Some((v == 1, p)),
        None => None,
    }
}

/// The number of consecutive zero bits starting at `pos`, counting at most
/// `limit` of them and stopping at the end of the data.
pub open spec fn zero_run(bytes: Seq<u8>, pos: int, limit: nat) -> nat
    decreases limit,
{
    if limit == 0 || pos < 0 || pos >= bit_len(bytes) || bit_at(bytes, pos) {
        0
    } else {
        1 + zero_run(bytes, pos + 1, (limit - 1) as nat)
    }
}

/// Why an Exp-Golomb code could not be read.
pub enum GolombFault {
    /// The data ended before the code did.
    EndOfData,
    /// The code has 32 or more leading zero bits: its value does not fit in 32 bits.
    TooLarge,
}

/// Reading an unsigned Exp-Golomb code `ue(v)` at `pos`: `k` leading zero
/// bits, a one bit, then `k` more bits `b`; the value is `2^k - 1 + b`.
pub open spec fn read_ue(bytes: Seq<u8>, pos: int) -> Result<(u32, int), GolombFault> {
    let k = zero_run(bytes, pos, 32);
    if k == 32 {
        Err(GolombFault::TooLarge)
    } else if pos + 2 * k + 1 > bit_len(bytes) {
        Err(GolombFault::EndOfData)
    } else {
        Ok(((pow2(k) - 1 + bits_value(bytes, pos + k + 1, k)) as u32, pos + 2 * k + 1))
    }
}

/// The signed value that an Exp-Golomb code number stands for: 1, -1, 2, -2, ...
/// for the code numbers 1, 2, 3, 4, ...
pub open spec fn golomb_to_signed(v: int) -> int {
    if v % 2 == 1 {
        (v + 1) / 2
    } else {
        -(v / 2)
    }
}

/// Reading a signed Exp-Golomb code `se(v)` at `pos`.
pub open spec fn read_se(bytes: Seq<u8>, pos: int) -> Result<(i32, int), GolombFault> {
    match read_ue(bytes, pos) {
        Ok((v, p)) => Ok((golomb_to_signed(v as int) as i32, p)),
        Err(f) => Err(f),
    }
}

/// `pow2` is positive and doubles at each step.
pub proof fn lemma_pow2_facts(n: nat)
    ensures
        pow2(n) >= 1,
        pow2(n + 1) == 2 * pow2(n),
    decreases n,
{
    if n > 0 {
        lemma_pow2_facts((n - 1) as nat);
    }
}

/// An `n`-bit value is below `2^n`.
pub proof fn lemma_bits_value_bound(bytes: Seq<u8>, pos: int, n: nat)
    ensures
        bits_value(bytes, pos, n) < pow2(n),
    decreases n,
{
    if n > 0 {
        lemma_bits_value_bound(bytes, pos, (n - 1) as nat);
    }
}

/// Splitting off the first bit: the `n + 1` bits at `pos` are worth the first
/// bit times `2^n` plus the `n` bits after it.
pub proof fn lemma_bits_value_first(bytes: Seq<u8>, pos: int, n: nat)
    ensures
        bits_value(bytes, pos, n + 1) == (if bit_at(bytes, pos) {
            pow2(n)
        } else {
            0
        }) + bits_value(bytes, pos + 1, n),
    decreases n,
{
    if n > 0 {
        let m = (n - 1) as nat;
        lemma_bits_value_first(bytes, pos, m);
        assert(pos + (n + 1) - 1 == (pos + 1) + n - 1);
        assert(bits_value(bytes, pos, n + 1) == 2 * bits_value(bytes, pos, n) + (if bit_at(
            bytes,
            pos + n,
        ) {
            1nat
        } else {
            0nat
        }));
        assert(bits_value(bytes, pos + 1, n) == 2 * bits_value(bytes, pos + 1, m) + (if bit_at(
            bytes,
            pos + 1 + n - 1,
        ) {
            1nat
        } else {
            0nat
        }));
        assert(pow2(n) == 2 * pow2(m));
        if bit_at(bytes, pos) {
            assert(bits_value(bytes, pos, n) == pow2(m) + bits_value(bytes, pos + 1, m));
        } else {
            assert(bits_value(bytes, pos, n) == bits_value(bytes, pos + 1, m));
        }
    } else {
        assert(bits_value(bytes, pos, 0) == 0);
        assert(bits_value(bytes, pos + 1, 0) == 0);
        assert(pow2(0) == 1);
    }
}

/// A flag is the bit at `pos`.
pub proof fn lemma_read_flag(bytes: Seq<u8>, pos: int)
    ensures
        read_flag(bytes, pos) == (if pos + 1 <= bit_len(bytes) {
            Some((bit_at(bytes, pos), pos + 1))
        } else {
            None
        }),
{
    assert(bits_value(bytes, pos, 0) == 0);
}

/// A run of zeros read one at a time: the run at `pos` is `j` longer than the
/// run after `j` zero bits.
pub proof fn lemma_zero_run_step(bytes: Seq<u8>, pos: int, limit: nat)
    requires
        0 <= pos < bit_len(bytes),
        limit > 0,
        !bit_at(bytes, pos),
    ensures
        zero_run(bytes, pos, limit) == 1 + zero_run(bytes, pos + 1, (limit - 1) as nat),
{
}

/// The powers of two that field widths use.
pub proof fn lemma_pow2_widths()
    ensures
        pow2(1) == 2,
        pow2(2) == 4,
        pow2(3) == 8,
        pow2(4) == 16,
        pow2(5) == 32,
        pow2(8) == 256,
        pow2(16) == 0x1_0000,
        pow2(32) == 0x1_0000_0000,
{
    reveal_with_fuel(pow2, 33);
}

/// `2^31`.
pub proof fn lemma_pow2_31()
    ensures
        pow2(31) == 0x8000_0000,
{
    reveal_with_fuel(pow2, 32);
}

/// Where a run of zeros stops short of its limit inside the data, a one bit
/// stands.
pub proof fn lemma_zero_run_end(bytes: Seq<u8>, pos: int, limit: nat)
    ensures
        zero_run(bytes, pos, limit) <= limit,
        0 <= pos && zero_run(bytes, pos, limit) < limit && pos + zero_run(bytes, pos, limit) < bit_len(bytes)
            ==> bit_at(bytes, pos + zero_run(bytes, pos, limit)),
    decreases limit,
{
    if limit > 0 && 0 <= pos < bit_len(bytes) && !bit_at(bytes, pos) {
        lemma_zero_run_end(bytes, pos + 1, (limit - 1) as nat);
    }
}

/// The value of an Exp-Golomb code stays below `2^32 - 1`.
pub proof fn lemma_ue_bound(bytes: Seq<u8>, pos: int)
    ensures
        read_ue(bytes, pos) matches Ok((v, p)) ==> v < 0xffff_ffff && p == pos + 2 * zero_run(
            bytes,
            pos,
            32,
        ) + 1,
{
    let k = zero_run(bytes, pos, 32);
    lemma_zero_run_end(bytes, pos, 32);
    if k < 32 {
        let b = bits_value(bytes, pos + k + 1, k);
        lemma_bits_value_bound(bytes, pos + k + 1, k);
        lemma_pow2_mono(k, 31);
        lemma_pow2_31();
        lemma_pow2_facts(k);
        assert(pow2(k) - 1 + b < 0xffff_ffff);
        let x = pow2(k) - 1 + b;
        assert(0 <= x < 0xffff_ffff);
        assert((x as u32) as int == x);
        if pos + 2 * k + 1 <= bit_len(bytes) {
            assert(read_ue(bytes, pos) == Ok::<(u32, int), GolombFault>((x as u32, pos + 2 * k + 1)));
        }
    }
}

/// `pow2` grows with its exponent.
pub proof fn lemma_pow2_mono(a: nat, b: nat)
    requires
        a <= b,
    ensures
        pow2(a) <= pow2(b),
    decreases b,
{
    if a < b {
        lemma_pow2_mono(a, (b - 1) as nat);
        lemma_pow2_facts((b - 1) as nat);
    }
}

/// The Exp-Golomb code number that stands for a signed value.
pub open spec fn signed_to_golomb(s: int) -> int {
    if s > 0 {
        2 * s - 1
    } else {
        -2 * s
    }
}

/// Mapping a code number to its signed value loses nothing: the code number
/// is found again from the value.
pub proof fn law_golomb_signed_round_trip(v: nat)
    ensures
        signed_to_golomb(golomb_to_signed(v as int)) == v,
{
}

/// Table 9-3 of H.264: code numbers 0, 1, 2, 3, 4, ... stand for the signed
/// values 0, 1, -1, 2, -2, ...; code `2k - 1` is `k` and code `2k` is `-k`.
pub proof fn law_signed_golomb_table(k: nat)
    ensures
        golomb_to_signed(0) == 0,
        golomb_to_signed(1) == 1,
        golomb_to_signed(2) == -1,
        golomb_to_signed(3) == 2,
        golomb_to_signed(4) == -2,
        k >= 1 ==> golomb_to_signed(2 * k - 1) == k,
        golomb_to_signed(2 * k as int) == -(k as int),
{
    if k >= 1 {
        assert((2 * k - 1) % 2 == 1) by (nonlinear_arith)
            requires
                k >= 1,
        ;
    }
    assert((2 * k) % 2 == 0 && (2 * k) / 2 == k) by (nonlinear_arith);
}

/// The bits of a run of zeros are zero.
pub proof fn lemma_zero_run_bits(bytes: Seq<u8>, pos: int, limit: nat)
    ensures
        forall|i: int| 0 <= i < zero_run(bytes, pos, limit) ==> !#[trigger] bit_at(bytes, pos + i) && 0 <= pos && pos + i
            < bit_len(bytes),
    decreases limit,
{
    if limit > 0 && 0 <= pos < bit_len(bytes) && !bit_at(bytes, pos) {
        lemma_zero_run_bits(bytes, pos + 1, (limit - 1) as nat);
        assert forall|i: int| 0 <= i < zero_run(bytes, pos, limit) implies !#[trigger] bit_at(bytes, pos + i) && 0 <= pos
            && pos + i < bit_len(bytes) by {
            if i > 0 {
                assert(bit_at(bytes, pos + i) == bit_at(bytes, (pos + 1) + (i - 1)));
            }
        }
    }
}

/// An unsigned Exp-Golomb code is `k` zero bits followed by the `k + 1` bit
/// number `v + 1` (which starts with a one bit), `v` being the value read; it
/// takes `2k + 1` bits, with `k` at most 31.
pub proof fn law_ue_bits(bytes: Seq<u8>, pos: int)
    requires
        0 <= pos,
    ensures
        read_ue(bytes, pos) matches Ok((v, p)) ==> {
            let k = (p - pos - 1) / 2;
            &&& p == pos + 2 * k + 1
            &&& 0 <= k <= 31
            &&& p <= bit_len(bytes)
            &&& forall|i: int| 0 <= i < k ==> !#[trigger] bit_at(bytes, pos + i)
            &&& bit_at(bytes, pos + k)
            &&& bits_value(bytes, pos + k, (k + 1) as nat) == v + 1
        },
{
    let k = zero_run(bytes, pos, 32);
    lemma_zero_run_end(bytes, pos, 32);
    lemma_zero_run_bits(bytes, pos, 32);
    lemma_ue_bound(bytes, pos);
    if k < 32 && pos + 2 * k + 1 <= bit_len(bytes) {
        lemma_bits_value_first(bytes, pos + k, k);
        lemma_bits_value_bound(bytes, pos + k + 1, k);
        lemma_pow2_facts(k);
        lemma_pow2_mono(k, 31);
        lemma_pow2_31();
        let b = bits_value(bytes, pos + k + 1, k);
        let x = pow2(k) - 1 + b;
        assert(0 <= x < 0xffff_ffff);
        assert((x as u32) as int == x);
        assert((2 * k as int) / 2 == k);
        assert(((pos + 2 * k + 1) - pos - 1) / 2 == k);
    }
}

/// A signed Exp-Golomb code is the unsigned code of the code number that
/// `signed_to_golomb` gives for its value.
pub proof fn law_se_bits(bytes: Seq<u8>, pos: int)
    ensures
        read_se(bytes, pos) matches Ok((s, p)) ==> (read_ue(bytes, pos) matches Ok((v, q)) && q == p
            && signed_to_golomb(s as int) == v),
{
    lemma_ue_bound(bytes, pos);
}

// ---------------------------------------------------------------------------
// Reads inside the data do not look past it

/// A bit inside `bytes` is the same once more bytes follow.
pub proof fn lemma_bit_at_extend(bytes: Seq<u8>, extra: Seq<u8>, i: int)
    requires
        0 <= i < bit_len(bytes),
    ensures
        bit_at(bytes + extra, i) == bit_at(bytes, i),
{
    assert((bytes + extra)[i / 8] == bytes[i / 8]);
}

/// A value read from bits inside `bytes` is the same once more bytes follow.
pub proof fn lemma_bits_value_extend(bytes: Seq<u8>, extra: Seq<u8>, pos: int, n: nat)
    requires
        0 <= pos,
        pos + n <= bit_len(bytes),
    ensures
        bits_value(bytes + extra, pos, n) == bits_value(bytes, pos, n),
    decreases n,
{
    if n > 0 {
        lemma_bits_value_extend(bytes, extra, pos, (n - 1) as nat);
        lemma_bit_at_extend(bytes, extra, pos + n - 1);
    }
}

pub broadcast proof fn lemma_read_bits_extend(bytes: Seq<u8>, extra: Seq<u8>, pos: int, n: nat)
    requires
        0 <= pos,
        read_bits(bytes, pos, n) is Some,
    ensures
        #[trigger] read_bits(bytes + extra, pos, n) == read_bits(bytes, pos, n),
        read_bits(bytes, pos, n) matches Some((_, p)) && p == pos + n,
{
    lemma_bits_value_extend(bytes, extra, pos, n);
}

pub broadcast proof fn lemma_read_flag_extend(bytes: Seq<u8>, extra: Seq<u8>, pos: int)
    requires
        0 <= pos,
        read_flag(bytes, pos) is Some,
    ensures
        #[trigger] read_flag(bytes + extra, pos) == read_flag(bytes, pos),
        read_flag(bytes, pos) matches Some((_, p)) && p == pos + 1,
{
    lemma_bits_value_extend(bytes, extra, pos, 1);
}

/// A run of zeros that ends inside `bytes`, with a one bit or at its limit,
/// is the same once more bytes follow.
pub proof fn lemma_zero_run_extend(bytes: Seq<u8>, extra: Seq<u8>, pos: int, limit: nat)
    requires
        0 <= pos,
        zero_run(bytes, pos, limit) == limit || pos + zero_run(bytes, pos, limit) < bit_len(bytes),
    ensures
        zero_run(bytes + extra, pos, limit) == zero_run(bytes, pos, limit),
    decreases limit,
{
    if limit > 0 {
        if pos < bit_len(bytes) {
            lemma_bit_at_extend(bytes, extra, pos);
            if !bit_at(bytes, pos) {
                lemma_zero_run_extend(bytes, extra, pos + 1, (limit - 1) as nat);
            }
        }
    }
}

pub broadcast proof fn lemma_read_ue_extend(bytes: Seq<u8>, extra: Seq<u8>, pos: int)
    requires
        0 <= pos,
        read_ue(bytes, pos) is Ok,
    ensures
        #[trigger] read_ue(bytes + extra, pos) == read_ue(bytes, pos),
        read_ue(bytes, pos) matches Ok((_, p)) && p > pos,
{
    let k = zero_run(bytes, pos, 32);
    lemma_zero_run_extend(bytes, extra, pos, 32);
    lemma_bits_value_extend(bytes, extra, pos + k + 1, k);
}

pub broadcast proof fn lemma_read_se_extend(bytes: Seq<u8>, extra: Seq<u8>, pos: int)
    requires
        0 <= pos,
        read_se(bytes, pos) is Ok,
    ensures
        #[trigger] read_se(bytes + extra, pos) == read_se(bytes, pos),
        read_se(bytes, pos) matches Ok((_, p)) && p > pos,
{
    lemma_read_ue_extend(bytes, extra, pos);
}

pub broadcast group group_read_extend {
    lemma_read_bits_extend,
    lemma_read_flag_extend,
    lemma_read_ue_extend,
    lemma_read_se_extend,
}

} // verus!
