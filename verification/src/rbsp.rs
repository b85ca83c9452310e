//! A reader of bits, flags and Exp-Golomb codes from the bytes of an RBSP.

use vstd::prelude::*;
use bitreader::BitReader;
use bitreader::BitReaderError;
use crate::bits::max_buf_len;
use crate::bits::bit_len;
use crate::bits::read_bits;
use crate::bits::read_flag;
use crate::bits::read_ue;
use crate::bits::read_se;
use crate::bits::zero_run;
use crate::bits::golomb_to_signed;
use crate::bits::GolombFault;
use crate::bits::lemma_bits_value_first;
use crate::bits::lemma_bits_value_bound;
use crate::bits::lemma_pow2_facts;
use crate::bits::lemma_zero_run_step;
use crate::bits::lemma_ue_bound;
use crate::bits::lemma_zero_run_end;
use crate::bits::lemma_read_flag;

verus! {

/// The error of the `bitreader` crate; opaque here.
#[verifier::external_type_specification]
#[verifier::external_body]
pub struct ExBitReaderError(BitReaderError);

/// `bitreader::BitReader::read_bool`, on a reader over `bytes` moved to bit
/// `position` with `BitReader::skip`. The source reads the bit at that position
/// and fails only when no bit is left there.
#[verifier::external_body]
fn bitreader_read_bool(bytes: &[u8], position: u64) -> (res: Result<bool, BitReaderError>)
    requires
        bytes@.len() <= max_buf_len(),
        position <= bit_len(bytes@),
    ensures
        match res {
            Ok(b) => read_flag(bytes@, position as int) == Some((b, position + 1)),
            Err(_) => read_flag(bytes@, position as int) is None,
        },
{
    let mut reader = BitReader::new(bytes);
    reader.skip(position)?;
    reader.read_bool()
}

/// `bitreader::BitReader::read_u8`, on a reader over `bytes` moved to bit
/// `position` with `BitReader::skip`. The source returns the `bit_count` bits
/// there as a big-endian number; it fails when `bit_count` is over 8 or fewer
/// bits remain.
#[verifier::external_body]
fn bitreader_read_u8(bytes: &[u8], position: u64, bit_count: u8) -> (res: Result<u8, BitReaderError>)
    requires
        bytes@.len() <= max_buf_len(),
        position <= bit_len(bytes@),
    ensures
        match res {
            Ok(v) => bit_count <= 8 && read_bits(bytes@, position as int, bit_count as nat) == Some(
                (v as nat, position + bit_count),
            ),
            Err(_) => bit_count > 8 || read_bits(bytes@, position as int, bit_count as nat) is None,
        },
{
    let mut reader = BitReader::new(bytes);
    reader.skip(position)?;
    reader.read_u8(bit_count)
}

/// `bitreader::BitReader::read_u16`, on a reader over `bytes` moved to bit
/// `position` with `BitReader::skip`. The source returns the `bit_count` bits
/// there as a big-endian number; it fails when `bit_count` is over 16 or fewer
/// bits remain.
#[verifier::external_body]
fn bitreader_read_u16(bytes: &[u8], position: u64, bit_count: u8) -> (res: Result<u16, BitReaderError>)
    requires
        bytes@.len() <= max_buf_len(),
        position <= bit_len(bytes@),
    ensures
        match res {
            Ok(v) => bit_count <= 16 && read_bits(bytes@, position as int, bit_count as nat) == Some(
                (v as nat, position + bit_count),
            ),
            Err(_) => bit_count > 16 || read_bits(bytes@, position as int, bit_count as nat) is None,
        },
{
    let mut reader = BitReader::new(bytes);
    reader.skip(position)?;
    reader.read_u16(bit_count)
}

/// `bitreader::BitReader::read_u32`, on a reader over `bytes` moved to bit
/// `position` with `BitReader::skip`. The source returns the `bit_count` bits
/// there as a big-endian number; it fails when `bit_count` is over 32 or fewer
/// bits remain.
#[verifier::external_body]
fn bitreader_read_u32(bytes: &[u8], position: u64, bit_count: u8) -> (res: Result<u32, BitReaderError>)
    requires
        bytes@.len() <= max_buf_len(),
        position <= bit_len(bytes@),
    ensures
        match res {
            Ok(v) => bit_count <= 32 && read_bits(bytes@, position as int, bit_count as nat) == Some(
                (v as nat, position + bit_count),
            ),
            Err(_) => bit_count > 32 || read_bits(bytes@, position as int, bit_count as nat) is None,
        },
{
    let mut reader = BitReader::new(bytes);
    reader.skip(position)?;
    reader.read_u32(bit_count)
}

/// An error of a read that names the syntax element being read.
#[derive(Debug)]
pub enum RbspBitReaderError {
    ReaderError(BitReaderError),
    ReaderErrorFor(&'static str, BitReaderError),
    /// An Exp-Golomb-coded syntax element's value does not fit in 32 bits.
    ExpGolombTooLarge(&'static str),
}

/// What an `RbspBitReaderError` says, with the `bitreader` error left out.
pub enum RbspFault {
    Reader,
    ReaderFor(Seq<char>),
    ExpGolombTooLarge(Seq<char>),
}

impl View for RbspBitReaderError {
    type V = RbspFault;

    open spec fn view(&self) -> RbspFault {
        match self {
            RbspBitReaderError::ReaderError(_) => RbspFault::Reader,
            RbspBitReaderError::ReaderErrorFor(name, _) => RbspFault::ReaderFor(name@),
            RbspBitReaderError::ExpGolombTooLarge(name) => RbspFault::ExpGolombTooLarge(name@),
        }
    }
}

impl From<BitReaderError> for RbspBitReaderError {
    fn from(e: BitReaderError) -> (res: Self) {
        RbspBitReaderError::ReaderError(e)
    }
}

impl vstd::std_specs::convert::FromSpecImpl<BitReaderError> for RbspBitReaderError {
    open spec fn obeys_from_spec() -> bool {
        true
    }

    open spec fn from_spec(e: BitReaderError) -> Self {
        RbspBitReaderError::ReaderError(e)
    }
}

/// The outcome of a named Exp-Golomb read, as `RbspFault`.
pub open spec fn ue_named(bytes: Seq<u8>, pos: int, name: Seq<char>) -> Result<(u32, int), RbspFault> {
    match read_ue(bytes, pos) {
        Ok(r) => Ok(r),
        Err(GolombFault::EndOfData) => Err(RbspFault::ReaderFor(name)),
        Err(GolombFault::TooLarge) => Err(RbspFault::ExpGolombTooLarge(name)),
    }
}

/// The outcome of a named flag read, as `RbspFault`.
pub open spec fn flag_named(bytes: Seq<u8>, pos: int, name: Seq<char>) -> Result<(bool, int), RbspFault> {
    match read_flag(bytes, pos) {
        Some(r) => Ok(r),
        None => Err(RbspFault::ReaderFor(name)),
    }
}

/// Reads bits, flags and Exp-Golomb codes from a byte buffer, front to back.
pub struct RbspBitReader<'buf> {
    buf: &'buf [u8],
    position: u64,
}

impl<'buf> RbspBitReader<'buf> {
    /// The bytes being read.
    pub closed spec fn bytes(&self) -> Seq<u8> {
        self.buf@
    }

    /// The number of bits read so far.
    pub closed spec fn pos(&self) -> int {
        self.position as int
    }

    /// The position lies within the data, and the data is not too long.
    pub open spec fn wf(&self) -> bool {
        &&& self.bytes().len() <= max_buf_len()
        &&& 0 <= self.pos() <= bit_len(self.bytes())
    }

    pub fn new(buf: &'buf [u8]) -> (r: Self)
        requires
            buf@.len() <= max_buf_len(),
        ensures
            r.wf(),
            r.bytes() == buf@,
            r.pos() == 0,
    {
        RbspBitReader { buf, position: 0 }
    }

    /// The number of bits read so far.
    pub fn position(&self) -> (p: u64)
        ensures
            p == self.pos(),
    {
        self.position
    }

    pub fn read_bool(&mut self) -> (res: Result<bool, BitReaderError>)
        requires
            old(self).wf(),
        ensures
            final(self).wf(),
            final(self).bytes() == old(self).bytes(),
            match res {
                Ok(b) => read_flag(old(self).bytes(), old(self).pos()) == Some((b, final(self).pos())),
                Err(_) => read_flag(old(self).bytes(), old(self).pos()) is None && final(self).pos() == old(self).pos(),
            },
    {
        let b = bitreader_read_bool(self.buf, self.position)?;
        self.position = self.position + 1;
        Ok(b)
    }

    pub fn read_bool_named(&mut self, name: &'static str) -> (res: Result<bool, RbspBitReaderError>)
        requires
            old(self).wf(),
        ensures
            final(self).wf(),
            final(self).bytes() == old(self).bytes(),
            match res {
                Ok(b) => flag_named(old(self).bytes(), old(self).pos(), name@) == Ok::<(bool, int), RbspFault>((b, final(self).pos())),
                Err(e) => flag_named(old(self).bytes(), old(self).pos(), name@) == Err::<(bool, int), RbspFault>(e@)
                    && final(self).pos() == old(self).pos(),
            },
    {
        match self.read_bool() {
            Ok(b) => Ok(b),
            Err(e) => Err(RbspBitReaderError::ReaderErrorFor(name, e)),
        }
    }

    pub fn read_u8(&mut self, bit_count: u8) -> (res: Result<u8, BitReaderError>)
        requires
            old(self).wf(),
        ensures
            final(self).wf(),
            final(self).bytes() == old(self).bytes(),
            match res {
                Ok(v) => bit_count <= 8 && read_bits(old(self).bytes(), old(self).pos(), bit_count as nat)
                    == Some((v as nat, final(self).pos())),
                Err(_) => (bit_count > 8 || read_bits(old(self).bytes(), old(self).pos(), bit_count as nat) is None)
                    && final(self).pos() == old(self).pos(),
            },
    {
        let v = bitreader_read_u8(self.buf, self.position, bit_count)?;
        self.position = self.position + bit_count as u64;
        Ok(v)
    }

    pub fn read_u16(&mut self, bit_count: u8) -> (res: Result<u16, BitReaderError>)
        requires
            old(self).wf(),
        ensures
            final(self).wf(),
            final(self).bytes() == old(self).bytes(),
            match res {
                Ok(v) => bit_count <= 16 && read_bits(old(self).bytes(), old(self).pos(), bit_count as nat)
                    == Some((v as nat, final(self).pos())),
                Err(_) => (bit_count > 16 || read_bits(old(self).bytes(), old(self).pos(), bit_count as nat) is None)
                    && final(self).pos() == old(self).pos(),
            },
    {
        let v = bitreader_read_u16(self.buf, self.position, bit_count)?;
        self.position = self.position + bit_count as u64;
        Ok(v)
    }

    pub fn read_u32(&mut self, bit_count: u8) -> (res: Result<u32, BitReaderError>)
        requires
            old(self).wf(),
        ensures
            final(self).wf(),
            final(self).bytes() == old(self).bytes(),
            match res {
                Ok(v) => bit_count <= 32 && read_bits(old(self).bytes(), old(self).pos(), bit_count as nat)
                    == Some((v as nat, final(self).pos())),
                Err(_) => (bit_count > 32 || read_bits(old(self).bytes(), old(self).pos(), bit_count as nat) is None)
                    && final(self).pos() == old(self).pos(),
            },
    {
        let v = bitreader_read_u32(self.buf, self.position, bit_count)?;
        self.position = self.position + bit_count as u64;
        Ok(v)
    }

    /// Moves past the zero bits that start an Exp-Golomb code, stopping at the
    /// one bit that ends them (which stays unread) or after 32 zeros.
    fn skip_leading_zeros(&mut self) -> (res: Result<u8, BitReaderError>)
        requires
            old(self).wf(),
        ensures
            final(self).wf(),
            final(self).bytes() == old(self).bytes(),
            match res {
                Ok(k) => k <= 32 && k == zero_run(old(self).bytes(), old(self).pos(), 32) && final(self).pos()
                    == old(self).pos() + k && (k < 32 ==> final(self).pos() < bit_len(old(self).bytes())),
                Err(_) => zero_run(old(self).bytes(), old(self).pos(), 32) < 32 && old(self).pos()
                    + zero_run(old(self).bytes(), old(self).pos(), 32) == bit_len(old(self).bytes())
                    && final(self).pos() == bit_len(old(self).bytes()),
            },
    {
        let ghost bytes = self.bytes();
        let ghost start = self.pos();
        let mut count: u8 = 0;
        proof {
            lemma_zero_run_end(bytes, start, 32);
        }
        while count < 32
            invariant
                self.wf(),
                self.bytes() == bytes,
                bytes == old(self).bytes(),
                start == old(self).pos(),
                0 <= start,
                count <= 32,
                self.pos() == start + count,
                zero_run(bytes, start, 32) == count + zero_run(bytes, self.pos(), (32 - count) as nat),
            decreases 32 - count,
        {
            proof {
                lemma_read_flag(bytes, self.pos());
            }
            let bit = bitreader_read_bool(self.buf, self.position)?;
            if bit {
                return Ok(count);
            }
            proof {
                lemma_zero_run_step(bytes, self.pos(), (32 - count) as nat);
            }
            self.position = self.position + 1;
            count = count + 1;
        }
        Ok(count)
    }

    /// Reads an unsigned Exp-Golomb code. A code of 32 or more leading zero
    /// bits is refused by `bitreader`, being asked for more than 32 bits.
    pub fn read_ue(&mut self) -> (res: Result<u32, BitReaderError>)
        requires
            old(self).wf(),
        ensures
            final(self).wf(),
            final(self).bytes() == old(self).bytes(),
            match res {
                Ok(v) => read_ue(old(self).bytes(), old(self).pos()) == Ok::<(u32, int), GolombFault>((v, final(self).pos())),
                Err(_) => read_ue(old(self).bytes(), old(self).pos()) is Err && final(self).pos() == old(self).pos() + zero_run(old(self).bytes(), old(self).pos(), 32),
            },
    {
        let ghost bytes = self.bytes();
        let ghost start = self.pos();
        let k = self.skip_leading_zeros()?;
        // the one bit that ends the zeros and the `k` bits after it
        let v = self.read_u32(k + 1)?;
        proof {
            let kk = k as nat;
            lemma_zero_run_end(bytes, start, 32);
            lemma_bits_value_first(bytes, start + kk, kk);
            lemma_bits_value_bound(bytes, start + kk + 1, kk);
            lemma_pow2_facts(kk);
            lemma_ue_bound(bytes, start);
        }
        Ok(v - 1)
    }

    pub fn read_ue_named(&mut self, name: &'static str) -> (res: Result<u32, RbspBitReaderError>)
        requires
            old(self).wf(),
        ensures
            final(self).wf(),
            final(self).bytes() == old(self).bytes(),
            match res {
                Ok(v) => ue_named(old(self).bytes(), old(self).pos(), name@) == Ok::<(u32, int), RbspFault>((v, final(self).pos())),
                Err(e) => ue_named(old(self).bytes(), old(self).pos(), name@) == Err::<(u32, int), RbspFault>(e@)
                    && final(self).pos() == old(self).pos() + zero_run(old(self).bytes(), old(self).pos(), 32),
            },
    {
        let ghost bytes = self.bytes();
        let ghost start = self.pos();
        let k = match self.skip_leading_zeros() {
            Ok(k) => k,
            Err(e) => return Err(RbspBitReaderError::ReaderErrorFor(name, e)),
        };
        if k == 32 {
            return Err(RbspBitReaderError::ExpGolombTooLarge(name));
        }
        let v = match self.read_u32(k + 1) {
            Ok(v) => v,
            Err(e) => return Err(RbspBitReaderError::ReaderErrorFor(name, e)),
        };
        proof {
            let kk = k as nat;
            lemma_zero_run_end(bytes, start, 32);
            lemma_bits_value_first(bytes, start + kk, kk);
            lemma_bits_value_bound(bytes, start + kk + 1, kk);
            lemma_pow2_facts(kk);
            lemma_ue_bound(bytes, start);
        }
        Ok(v - 1)
    }

    /// Reads a signed Exp-Golomb code.
    pub fn read_se(&mut self) -> (res: Result<i32, BitReaderError>)
        requires
            old(self).wf(),
        ensures
            final(self).wf(),
            final(self).bytes() == old(self).bytes(),
            match res {
                Ok(v) => read_se(old(self).bytes(), old(self).pos()) == Ok::<(i32, int), GolombFault>((v, final(self).pos())),
                Err(_) => read_se(old(self).bytes(), old(self).pos()) is Err && final(self).pos() == old(self).pos() + zero_run(old(self).bytes(), old(self).pos(), 32),
            },
    {
        let ghost bytes = self.bytes();
        let ghost start = self.pos();
        let v = self.read_ue()?;
        proof {
            lemma_ue_bound(bytes, start);
        }
        Ok(golomb_to_signed_exec(v))
    }
}

/// Maps an Exp-Golomb code number to the signed value it stands for.
pub fn golomb_to_signed_exec(v: u32) -> (r: i32)
    requires
        v < 0xffff_ffff,
    ensures
        r == golomb_to_signed(v as int),
{
    if v % 2 == 1 {
        (v / 2 + 1) as i32
    } else {
        -((v / 2) as i32)
    }
}

} // verus!
