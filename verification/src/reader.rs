//! Bit-level reader for H.263 bitstreams.

use crate::error::Error;
use crate::types::HalfPel;
use vstd::arithmetic::power2::pow2;
use vstd::prelude::*;

verus! {

/// The `i`th bit of a byte sequence, counting from the most significant bit
/// of the first byte, as the bitstream transmits them.
pub open spec fn stream_bit(bytes: Seq<u8>, i: int) -> bool
    recommends
        0 <= i < bytes.len() * 8,
{
    (bytes[i / 8] >> ((7 - (i % 8)) as u8)) & 1 == 1
}

/// The value of the `n` bits starting at bit `start`, read as a big-endian
/// unsigned number.
pub open spec fn stream_value(bytes: Seq<u8>, start: int, n: nat) -> nat
    decreases n,
{
    if n == 0 {
        0
    } else {
        2 * stream_value(bytes, start, (n - 1) as nat) + (if stream_bit(bytes, start + n - 1) {
            1nat
        } else {
            0nat
        })
    }
}

/// The value of `n` bits read with sign extension from bit `n`.
pub open spec fn stream_signed_value(bytes: Seq<u8>, start: int, n: nat) -> int
    recommends
        n >= 1,
{
    let u = stream_value(bytes, start, n);
    if u >= pow2((n - 1) as nat) {
        u - pow2(n)
    } else {
        u as int
    }
}

/// A 17-bit picture or GOB start code (sixteen zero bits followed by a one
/// bit) begins at bit `p`.
pub open spec fn is_start_code_at(bytes: Seq<u8>, p: int) -> bool {
    p + 17 <= bytes.len() * 8 && stream_value(bytes, p, 17) == 1
}

/// `n` bits hold a value below `2^n`.
pub proof fn lemma_stream_value_bound(bytes: Seq<u8>, start: int, n: nat)
    ensures
        stream_value(bytes, start, n) < pow2(n),
    decreases n,
{
    if n == 0 {
        vstd::arithmetic::power2::lemma2_to64();
    } else {
        vstd::arithmetic::power2::lemma_pow2_unfold(n);
        lemma_stream_value_bound(bytes, start, (n - 1) as nat);
    }
}

/// Reading `n1` bits and then `n2` bits is the same as reading `n1 + n2`
/// bits at once: the combined value is the first value shifted up by `n2`
/// bits plus the second. Together with `lemma_stream_byte` this says that a
/// decomposition of a byte sequence into reads of any widths, concatenated
/// back in order, reproduces the input bits.
pub proof fn lemma_stream_value_concat(bytes: Seq<u8>, start: int, n1: nat, n2: nat)
    ensures
        stream_value(bytes, start, n1 + n2) == stream_value(bytes, start, n1) * pow2(n2)
            + stream_value(bytes, start + n1, n2),
    decreases n2,
{
    if n2 == 0 {
        vstd::arithmetic::power2::lemma2_to64();
    } else {
        lemma_stream_value_concat(bytes, start, n1, (n2 - 1) as nat);
        vstd::arithmetic::power2::lemma_pow2_unfold(n2);
        assert(stream_value(bytes, start, (n1 + n2 - 1) as nat) == stream_value(bytes, start, n1)
            * pow2((n2 - 1) as nat) + stream_value(bytes, start + n1, (n2 - 1) as nat));
        let v1 = stream_value(bytes, start, n1);
        assert(2 * (v1 * pow2((n2 - 1) as nat)) == v1 * pow2(n2)) by (nonlinear_arith)
            requires
                pow2(n2) == 2 * pow2((n2 - 1) as nat),
        ;
    }
}

/// The eight bits starting at bit `8 * i` hold exactly the byte `bytes[i]`:
/// reads that cover whole bytes reproduce them.
pub proof fn lemma_stream_byte(bytes: Seq<u8>, i: int)
    requires
        0 <= i < bytes.len(),
    ensures
        stream_value(bytes, 8 * i, 8) == bytes[i],
{
    let b = bytes[i];
    reveal_with_fuel(stream_value, 9);
    vstd::arithmetic::div_mod::lemma_fundamental_div_mod_converse(8 * i + 0, 8, i, 0);
    vstd::arithmetic::div_mod::lemma_fundamental_div_mod_converse(8 * i + 1, 8, i, 1);
    vstd::arithmetic::div_mod::lemma_fundamental_div_mod_converse(8 * i + 2, 8, i, 2);
    vstd::arithmetic::div_mod::lemma_fundamental_div_mod_converse(8 * i + 3, 8, i, 3);
    vstd::arithmetic::div_mod::lemma_fundamental_div_mod_converse(8 * i + 4, 8, i, 4);
    vstd::arithmetic::div_mod::lemma_fundamental_div_mod_converse(8 * i + 5, 8, i, 5);
    vstd::arithmetic::div_mod::lemma_fundamental_div_mod_converse(8 * i + 6, 8, i, 6);
    vstd::arithmetic::div_mod::lemma_fundamental_div_mod_converse(8 * i + 7, 8, i, 7);
    assert(stream_value(bytes, 8 * i, 8) == 128 * (if b >> 7 & 1 == 1 {
        1nat
    } else {
        0nat
    }) + 64 * (if b >> 6 & 1 == 1 {
        1nat
    } else {
        0nat
    }) + 32 * (if b >> 5 & 1 == 1 {
        1nat
    } else {
        0nat
    }) + 16 * (if b >> 4 & 1 == 1 {
        1nat
    } else {
        0nat
    }) + 8 * (if b >> 3 & 1 == 1 {
        1nat
    } else {
        0nat
    }) + 4 * (if b >> 2 & 1 == 1 {
        1nat
    } else {
        0nat
    }) + 2 * (if b >> 1 & 1 == 1 {
        1nat
    } else {
        0nat
    }) + (if b >> 0 & 1 == 1 {
        1nat
    } else {
        0nat
    }));
    assert(b as nat == 128 * (if b >> 7 & 1 == 1 {
        1nat
    } else {
        0nat
    }) + 64 * (if b >> 6 & 1 == 1 {
        1nat
    } else {
        0nat
    }) + 32 * (if b >> 5 & 1 == 1 {
        1nat
    } else {
        0nat
    }) + 16 * (if b >> 4 & 1 == 1 {
        1nat
    } else {
        0nat
    }) + 8 * (if b >> 3 & 1 == 1 {
        1nat
    } else {
        0nat
    }) + 4 * (if b >> 2 & 1 == 1 {
        1nat
    } else {
        0nat
    }) + 2 * (if b >> 1 & 1 == 1 {
        1nat
    } else {
        0nat
    }) + (if b >> 0 & 1 == 1 {
        1nat
    } else {
        0nat
    })) by (bit_vector);
}

/// The first start code inside the stuffing window at `pos` opens a
/// group of blocks: its five following group-number bits are readable and
/// nonzero.
pub open spec fn window_opens_gob(bytes: Seq<u8>, pos: int, window: int, total: int) -> bool {
    exists|q: int|
        pos <= q <= pos + window && #[trigger] is_start_code_at(bytes, q) && (forall|p: int|
            pos <= p < q ==> !(#[trigger] is_start_code_at(bytes, p))) && q + 22 <= total
            && stream_value(bytes, q + 17, 5) != 0
}

/// The outcome of decoding one unrestricted motion vector code.
pub enum UmvOutcome {
    /// The decoded half-pel value, and the bit position just past the
    /// consumed code.
    Value(int, int),

    /// The buffered bits end inside the code.
    OutOfBits,

    /// The accumulated magnitude reached 4096, which no conforming
    /// bitstream produces.
    Invalid,
}

/// Walk the tail of a table D.3 code: bit pairs extend the binary
/// magnitude while they read `01` or `11`, and `00` or `10` terminate
/// with the sign. `mantissa` holds the magnitude bits so far and `bulk`
/// the value of the leading one bit; the fuel only serves termination
/// and never runs out before the magnitude bound does.
pub open spec fn umv_walk(
    bytes: Seq<u8>,
    pos: int,
    mantissa: int,
    bulk: int,
    fuel: nat,
) -> UmvOutcome
    decreases fuel,
{
    if bulk >= 4096 {
        UmvOutcome::Invalid
    } else if pos + 2 > bytes.len() * 8 {
        UmvOutcome::OutOfBits
    } else if fuel == 0 {
        UmvOutcome::Invalid
    } else {
        let code = stream_value(bytes, pos, 2);
        if code == 0 {
            UmvOutcome::Value(mantissa + bulk, pos + 2)
        } else if code == 2 {
            UmvOutcome::Value(-(mantissa + bulk), pos + 2)
        } else if code == 1 {
            umv_walk(bytes, pos + 2, 2 * mantissa, 2 * bulk, (fuel - 1) as nat)
        } else {
            umv_walk(bytes, pos + 2, 2 * mantissa + 1, 2 * bulk, (fuel - 1) as nat)
        }
    }
}

/// The value that table D.3 of H.263 (01/2005) decodes from the bits at
/// `pos`: a leading one bit is zero, anything else starts a magnitude
/// walk.
pub open spec fn umv_decode_at(bytes: Seq<u8>, pos: int) -> UmvOutcome {
    if pos + 1 > bytes.len() * 8 {
        UmvOutcome::OutOfBits
    } else if stream_bit(bytes, pos) {
        UmvOutcome::Value(0, pos + 1)
    } else {
        umv_walk(bytes, pos + 1, 0, 1, 13)
    }
}

/// The total width of a sequence of reads.
pub open spec fn widths_total(widths: Seq<nat>) -> nat
    decreases widths.len(),
{
    if widths.len() == 0 {
        0
    } else {
        widths[0] + widths_total(widths.skip(1))
    }
}

/// The reads' values concatenated in order as big-endian bit strings:
/// each value is shifted up by the widths of everything after it.
pub open spec fn reads_concatenated(bytes: Seq<u8>, start: int, widths: Seq<nat>) -> nat
    decreases widths.len(),
{
    if widths.len() == 0 {
        0
    } else {
        stream_value(bytes, start, widths[0]) * pow2(widths_total(widths.skip(1)))
            + reads_concatenated(bytes, start + widths[0], widths.skip(1))
    }
}

/// The bit-reader round trip: for any byte sequence, any starting bit and
/// any decomposition into read widths, concatenating the read values in
/// order as big-endian bit strings reproduces the bits read at once. In
/// particular, with `lemma_stream_byte`, widths that sum to a multiple of
/// eight starting at a byte boundary reproduce the input bytes.
pub proof fn lemma_reads_reproduce_bits(bytes: Seq<u8>, start: int, widths: Seq<nat>)
    ensures
        reads_concatenated(bytes, start, widths) == stream_value(
            bytes,
            start,
            widths_total(widths),
        ),
    decreases widths.len(),
{
    if widths.len() > 0 {
        lemma_reads_reproduce_bits(bytes, start + widths[0], widths.skip(1));
        lemma_stream_value_concat(bytes, start, widths[0], widths_total(widths.skip(1)));
    }
}

/// A reader that decodes an H.263 bitstream bit by bit out of an internal
/// byte buffer. The caller appends compressed bytes with `feed_bytes`; a
/// read past the buffered bytes fails with `Error::EndOfStream` and leaves
/// the reader unchanged, so more bytes can be supplied and the read
/// retried.
pub struct H263Reader {
    /// Buffered bitstream data.
    buffer: Vec<u8>,

    /// How many bits of the buffer have already been read.
    bits_read: usize,
}

impl H263Reader {
    /// The buffered bytes.
    pub closed spec fn bytes(self) -> Seq<u8> {
        self.buffer@
    }

    /// The read cursor, in bits from the start of the buffer.
    pub closed spec fn pos(self) -> nat {
        self.bits_read as nat
    }

    /// The number of bits the buffer holds.
    pub open spec fn total_bits(self) -> nat {
        self.bytes().len() * 8
    }

    /// The cursor lies within the buffer and the buffer's bit count fits
    /// the machine.
    pub open spec fn wf(self) -> bool {
        self.pos() <= self.total_bits() && self.bytes().len() <= 0x0fffffff
    }

    /// Wrap buffered source data in a reader.
    pub fn from_source(source: &[u8]) -> (r: Self)
        requires
            source@.len() <= 0x0fffffff,
        ensures
            r.wf(),
            r.bytes() == source@,
            r.pos() == 0,
    {
        let mut buffer: Vec<u8> = Vec::new();
        let mut i: usize = 0;
        while i < source.len()
            invariant
                i <= source@.len(),
                buffer@ == source@.subrange(0, i as int),
            decreases source@.len() - i,
        {
            buffer.push(source[i]);
            i += 1;
        }
        assert(buffer@ == source@);
        H263Reader { buffer, bits_read: 0 }
    }

    /// Append more source data at the end of the buffer. The cursor does
    /// not move.
    pub fn feed_bytes(&mut self, data: &[u8])
        requires
            old(self).wf(),
            old(self).bytes().len() + data@.len() <= 0x0fffffff,
        ensures
            final(self).wf(),
            final(self).bytes() == old(self).bytes() + data@,
            final(self).pos() == old(self).pos(),
    {
        let ghost orig = self.buffer@;
        let mut i: usize = 0;
        while i < data.len()
            invariant
                i <= data@.len(),
                self.buffer@ == orig + data@.subrange(0, i as int),
                self.bits_read == old(self).bits_read,
                orig.len() + data@.len() <= 0x0fffffff,
            decreases data@.len() - i,
        {
            self.buffer.push(data[i]);
            i += 1;
        }
        assert(self.buffer@ == orig + data@);
    }

    /// Read the bit at absolute position `i`.
    fn get_bit(&self, i: usize) -> (r: bool)
        requires
            self.wf(),
            i < self.total_bits(),
        ensures
            r == stream_bit(self.bytes(), i as int),
    {
        let byte_index = i / 8;
        let bit_offset = i % 8;
        assert(byte_index < self.buffer@.len()) by {
            vstd::arithmetic::div_mod::lemma_fundamental_div_mod(i as int, 8);
        }
        let byte = self.buffer[byte_index];
        (byte >> ((7 - bit_offset) as u8)) & 1 == 1
    }

    /// The value of `n` bits starting at absolute bit position `start`,
    /// without moving the cursor.
    fn peek_value_at(&self, start: usize, n: u32) -> (r: Result<u32, Error>)
        requires
            self.wf(),
        ensures
            match r {
                Ok(v) => n <= 32 && start + n <= self.total_bits() && v as nat == stream_value(
                    self.bytes(),
                    start as int,
                    n as nat,
                ),
                Err(e) => (e == Error::InternalDecoderError && n > 32) || (e == Error::EndOfStream
                    && n <= 32 && start + n > self.total_bits()),
            },
    {
        if n > 32 {
            return Err(Error::InternalDecoderError);
        }
        let len8 = self.buffer.len() * 8;
        if start > len8 || (n as usize) > len8 - start {
            return Err(Error::EndOfStream);
        }
        let mut accum: u32 = 0;
        let mut k: u32 = 0;
        proof {
            vstd::arithmetic::power2::lemma2_to64();
        }
        while k < n
            invariant
                self.wf(),
                n <= 32,
                start + n <= self.total_bits(),
                k <= n,
                accum as nat == stream_value(self.bytes(), start as int, k as nat),
                (accum as nat) < pow2(k as nat),
            decreases n - k,
        {
            proof {
                if (k as nat) < 31 {
                    vstd::arithmetic::power2::lemma_pow2_strictly_increases(k as nat, 31);
                }
                vstd::arithmetic::power2::lemma2_to64();
                assert(accum < 0x80000000);
            }
            let b = self.get_bit(start + k as usize);
            let bit_val: u32 = if b {
                1
            } else {
                0
            };
            let next = (accum << 1u32) | bit_val;
            proof {
                assert(next == 2 * accum + bit_val) by (bit_vector)
                    requires
                        accum < 0x80000000u32 && bit_val <= 1 && next == (accum << 1u32) | bit_val,
                ;
                vstd::arithmetic::power2::lemma_pow2_unfold((k + 1) as nat);
            }
            accum = next;
            k += 1;
        }
        Ok(accum)
    }

    /// Copy `bits_needed` bits out of the stream, without consuming them,
    /// into the low bits of the result. `bits_needed` may be at most 32; a
    /// wider request is an internal decoder error. Repeated calls return
    /// the same bits.
    pub fn peek_bits(&self, bits_needed: u32) -> (r: Result<u32, Error>)
        requires
            self.wf(),
        ensures
            match r {
                Ok(v) => bits_needed <= 32 && self.pos() + bits_needed <= self.total_bits()
                    && v as nat == stream_value(self.bytes(), self.pos() as int, bits_needed as nat),
                Err(e) => (e == Error::InternalDecoderError && bits_needed > 32) || (e
                    == Error::EndOfStream && bits_needed <= 32 && self.pos() + bits_needed
                    > self.total_bits()),
            },
    {
        self.peek_value_at(self.bits_read, bits_needed)
    }

    /// Skip forward `bits_to_skip` bits. If the buffer does not hold that
    /// many unread bits, the reader is left unchanged and `EndOfStream` is
    /// returned.
    pub fn skip_bits(&mut self, bits_to_skip: u32) -> (r: Result<(), Error>)
        requires
            old(self).wf(),
        ensures
            final(self).wf(),
            final(self).bytes() == old(self).bytes(),
            match r {
                Ok(()) => old(self).pos() + bits_to_skip <= old(self).total_bits() && final(self).pos() == old(self).pos() + bits_to_skip,
                Err(e) => e == Error::EndOfStream && old(self).pos() + bits_to_skip > old(self).total_bits() && final(self).pos() == old(self).pos(),
            },
    {
        let len8 = self.buffer.len() * 8;
        if bits_to_skip as usize > len8 - self.bits_read {
            return Err(Error::EndOfStream);
        }
        self.bits_read = self.bits_read + bits_to_skip as usize;
        Ok(())
    }

    /// Move `bits_needed` bits out of the stream into the low bits of the
    /// result, advancing the cursor past them.
    pub fn read_bits(&mut self, bits_needed: u32) -> (r: Result<u32, Error>)
        requires
            old(self).wf(),
        ensures
            final(self).wf(),
            final(self).bytes() == old(self).bytes(),
            match r {
                Ok(v) => bits_needed <= 32 && old(self).pos() + bits_needed <= old(self).total_bits() && v as nat == stream_value(
                    old(self).bytes(),
                    old(self).pos() as int,
                    bits_needed as nat,
                ) && final(self).pos() == old(self).pos() + bits_needed,
                Err(e) => final(self).pos() == old(self).pos() && ((e
                    == Error::InternalDecoderError && bits_needed > 32) || (e == Error::EndOfStream
                    && bits_needed <= 32 && old(self).pos() + bits_needed > old(self).total_bits())),
            },
    {
        let r = self.peek_bits(bits_needed);
        match r {
            Ok(v) => {
                let skipped = self.skip_bits(bits_needed);
                assert(skipped is Ok);
                Ok(v)
            },
            Err(e) => Err(e),
        }
    }

    /// Copy `bits_needed` bits out of the stream, sign-extending from bit
    /// `bits_needed`, without consuming them. At least one and at most 32
    /// bits must be requested.
    pub fn peek_signed_bits(&self, bits_needed: u32) -> (r: Result<i32, Error>)
        requires
            self.wf(),
            1 <= bits_needed,
        ensures
            match r {
                Ok(v) => bits_needed <= 32 && self.pos() + bits_needed <= self.total_bits()
                    && v as int == stream_signed_value(
                    self.bytes(),
                    self.pos() as int,
                    bits_needed as nat,
                ),
                Err(e) => (e == Error::InternalDecoderError && bits_needed > 32) || (e
                    == Error::EndOfStream && bits_needed <= 32 && self.pos() + bits_needed
                    > self.total_bits()),
            },
    {
        let v = match self.peek_bits(bits_needed) {
            Ok(v) => v,
            Err(e) => {
                return Err(e);
            },
        };
        proof {
            lemma_stream_value_bound(self.bytes(), self.pos() as int, bits_needed as nat);
        }
        if bits_needed == 32 {
            proof {
                let u = stream_value(self.bytes(), self.pos() as int, 32);
                vstd::arithmetic::power2::lemma2_to64();
                assert(v as int == if u >= pow2(31) {
                    u - pow2(32)
                } else {
                    u as int
                } ==> v as int == stream_signed_value(self.bytes(), self.pos() as int, 32));
                assert(v as i32 as int == if v as nat >= 0x80000000nat {
                    v - 0x100000000
                } else {
                    v as int
                }) by (bit_vector);
            }
            return Ok(v as i32);
        }
        let sign_bit = v >> (bits_needed - 1);
        proof {
            let n = bits_needed;
            vstd::bits::lemma_u32_shr_is_div(v, (n - 1) as u32);
            vstd::arithmetic::power2::lemma_pow2_unfold(n as nat);
            vstd::arithmetic::power2::lemma_pow2_pos((n - 1) as nat);
            // v < pow2(n) == 2 * pow2(n - 1), so v / pow2(n - 1) is 0 or 1,
            // and it is 1 exactly when v >= pow2(n - 1).
            let d = pow2((n - 1) as nat) as int;
            vstd::arithmetic::div_mod::lemma_fundamental_div_mod(v as int, d);
            let q = v as int / d;
            let rr = v as int % d;
            if v as int >= d {
                assert(q == 1) by (nonlinear_arith)
                    requires
                        v as int == d * q + rr && 0 <= rr < d && d <= v as int && (v as int) < 2 * d,
                ;
            } else {
                assert(q == 0) by (nonlinear_arith)
                    requires
                        v as int == d * q + rr && 0 <= rr < d && 0 <= v as int && (v as int) < d,
                ;
            }
            assert(sign_bit == 1 <==> v as nat >= pow2((n - 1) as nat));
            if (n as nat) - 1 < 31 {
                vstd::arithmetic::power2::lemma_pow2_strictly_increases((n - 1) as nat, 31);
            }
            vstd::arithmetic::power2::lemma2_to64();
        }
        if sign_bit == 1 {
            let extended = v | (u32::MAX << bits_needed);
            proof {
                let n = bits_needed;
                // The extension adds exactly the bits above `n`.
                assert(extended as int == v + 0x100000000 - pow2(n as nat)) by {
                    lemma_sign_extension_bits(v, n);
                }
                assert(extended >= 0x80000000u32) by {
                    if (n as nat) < 32 {
                        vstd::arithmetic::power2::lemma_pow2_strictly_increases(n as nat, 32);
                    }
                    vstd::arithmetic::power2::lemma_pow2_unfold(n as nat);
                    vstd::arithmetic::power2::lemma2_to64();
                }
                assert((extended as i32) as int == extended - 0x100000000) by (bit_vector)
                    requires
                        extended >= 0x80000000u32,
                ;
            }
            Ok(extended as i32)
        } else {
            // The value has a clear sign bit, so it fits `i32` unchanged.
            assert(v < 0x80000000) by {
                vstd::arithmetic::power2::lemma2_to64();
            }
            Ok(v as i32)
        }
    }

    /// Move `bits_needed` bits out of the stream with sign extension,
    /// advancing the cursor past them.
    pub fn read_signed_bits(&mut self, bits_needed: u32) -> (r: Result<i32, Error>)
        requires
            old(self).wf(),
            1 <= bits_needed,
        ensures
            final(self).wf(),
            final(self).bytes() == old(self).bytes(),
            match r {
                Ok(v) => bits_needed <= 32 && old(self).pos() + bits_needed <= old(self).total_bits() && v as int == stream_signed_value(
                    old(self).bytes(),
                    old(self).pos() as int,
                    bits_needed as nat,
                ) && final(self).pos() == old(self).pos() + bits_needed,
                Err(e) => final(self).pos() == old(self).pos() && ((e
                    == Error::InternalDecoderError && bits_needed > 32) || (e == Error::EndOfStream
                    && bits_needed <= 32 && old(self).pos() + bits_needed > old(self).total_bits())),
            },
    {
        let r = self.peek_signed_bits(bits_needed);
        match r {
            Ok(v) => {
                let skipped = self.skip_bits(bits_needed);
                assert(skipped is Ok);
                Ok(v)
            },
            Err(e) => Err(e),
        }
    }

    /// Read one byte from the bitstream.
    pub fn read_u8(&mut self) -> (r: Result<u8, Error>)
        requires
            old(self).wf(),
        ensures
            final(self).wf(),
            final(self).bytes() == old(self).bytes(),
            match r {
                Ok(v) => old(self).pos() + 8 <= old(self).total_bits() && v as nat == stream_value(
                    old(self).bytes(),
                    old(self).pos() as int,
                    8,
                ) && final(self).pos() == old(self).pos() + 8,
                Err(e) => e == Error::EndOfStream && old(self).pos() + 8 > old(self).total_bits()
                    && final(self).pos() == old(self).pos(),
            },
    {
        proof {
            lemma_stream_value_bound(old(self).bytes(), old(self).pos() as int, 8);
            vstd::arithmetic::power2::lemma2_to64();
        }
        match self.read_bits(8) {
            Ok(v) => Ok(v as u8),
            Err(e) => Err(e),
        }
    }

    /// How many bits must be skipped to realign the cursor to the next
    /// byte boundary.
    pub fn realignment_bits(&self) -> (r: u32)
        ensures
            r as nat == (8 - self.pos() % 8) % 8,
    {
        ((8 - (self.bits_read % 8)) % 8) as u32
    }

    /// Recognize a start code in the bitstream, without consuming
    /// anything.
    ///
    /// Start codes are optionally aligned: encoders may insert up to eight
    /// zero bits of stuffing to achieve byte alignment. In the normal mode
    /// the code is accepted only within the bits needed to realign to the
    /// next byte boundary, and the number of stuffing bits before it is
    /// returned; otherwise `None`. With `in_error` set, the search
    /// continues through the whole buffered stream, for resynchronising a
    /// corrupted bitstream.
    pub fn recognize_start_code(&self, in_error: bool) -> (r: Result<Option<u32>, Error>)
        requires
            self.wf(),
        ensures
            match r {
                Ok(Some(k)) => is_start_code_at(self.bytes(), self.pos() + k as int) && (forall|
                    p: int,
                |
                    self.pos() <= p < self.pos() + k ==> !(#[trigger] is_start_code_at(
                        self.bytes(),
                        p,
                    ))) && (!in_error ==> k as nat <= (8 - self.pos() % 8) % 8),
                Ok(None) => !in_error && forall|p: int|
                    self.pos() <= p <= self.pos() + (8 - self.pos() % 8) % 8
                        ==> !(#[trigger] is_start_code_at(self.bytes(), p)),
                // An error comes only when the buffered bits cannot decide:
                // in the normal mode the realignment window runs past the
                // buffer and holds no start code; in the recovery mode no
                // start code exists in the whole remaining stream.
                Err(e) => e == Error::EndOfStream && (!in_error ==> self.pos() + (8 - self.pos()
                    % 8) % 8 + 17 > self.total_bits() && (forall|p: int|
                    self.pos() <= p <= self.pos() + (8 - self.pos() % 8) % 8 ==> !(
                    #[trigger] is_start_code_at(self.bytes(), p)))) && (in_error ==> forall|
                    p: int,
                |
                    self.pos() <= p ==> !(#[trigger] is_start_code_at(self.bytes(), p))),
            },
    {
        let max_skip = self.realignment_bits();
        let mut skip: u32 = 0;
        loop
            invariant
                self.wf(),
                self.pos() + skip <= self.total_bits(),
                forall|p: int|
                    self.pos() <= p < self.pos() + skip ==> !(#[trigger] is_start_code_at(
                        self.bytes(),
                        p,
                    )),
                !in_error ==> skip <= max_skip,
                max_skip as nat == (8 - self.pos() % 8) % 8,
            decreases self.total_bits() - (self.pos() + skip),
        {
            let v = match self.peek_value_at(self.bits_read + skip as usize, 17) {
                Ok(v) => v,
                Err(_) => {
                    proof {
                        // Bits ran out at this offset, so any position at
                        // or past it lacks the seventeen bits a start
                        // code needs, and every earlier offset was
                        // already ruled out.
                        assert forall|p: int| self.pos() <= p implies !(
                        #[trigger] is_start_code_at(self.bytes(), p)) by {
                            if p >= self.pos() + skip {
                                assert(p + 17 > self.total_bits());
                            }
                        }
                    }
                    return Err(Error::EndOfStream);
                },
            };
            if v == 1 {
                return Ok(Some(skip));
            }
            if !in_error && skip >= max_skip {
                return Ok(None);
            }
            skip = skip + 1;
        }
    }

    /// Restore a checkpoint known to lie within the buffer, as a failed
    /// parse transaction does before propagating its error.
    pub fn restore(&mut self, checkpoint: usize)
        requires
            old(self).wf(),
            checkpoint as nat <= old(self).total_bits(),
        ensures
            final(self).wf(),
            final(self).bytes() == old(self).bytes(),
            final(self).pos() == checkpoint as nat,
    {
        self.bits_read = checkpoint;
    }

    /// How many unread bits the buffer still holds.
    pub fn available_bits(&self) -> (r: usize)
        requires
            self.wf(),
        ensures
            r as nat == self.total_bits() - self.pos(),
    {
        self.buffer.len() * 8 - self.bits_read
    }

    /// A checkpoint that a failed parse can be rolled back to. Checkpoints
    /// stay valid as long as the buffer is not committed.
    pub fn checkpoint(&self) -> (r: usize)
        ensures
            r as nat == self.pos(),
    {
        self.bits_read
    }

    /// Restore a previously-created checkpoint, making all bits read since
    /// its creation readable again.
    pub fn rollback(&mut self, checkpoint: usize) -> (r: Result<(), Error>)
        requires
            old(self).wf(),
        ensures
            final(self).wf(),
            final(self).bytes() == old(self).bytes(),
            match r {
                Ok(()) => checkpoint as nat <= old(self).total_bits() && final(self).pos()
                    == checkpoint as nat,
                Err(e) => e == Error::InternalDecoderError && checkpoint as nat > old(self).total_bits() && final(self).pos() == old(self).pos(),
            },
    {
        let len8 = self.buffer.len() * 8;
        if checkpoint > len8 {
            return Err(Error::InternalDecoderError);
        }
        self.bits_read = checkpoint;
        Ok(())
    }

    /// Read an unrestricted motion vector component, encoded per table
    /// D.3 of H.263 (01/2005): a leading one bit is zero; otherwise a
    /// binary magnitude accumulates while the trailing bit pair is `01` or
    /// `11`, terminating on `00` (positive) or `10` (negative). A
    /// magnitude of 4096 or larger is an invalid differential.
    pub fn read_umv(&mut self) -> (r: Result<HalfPel, Error>)
        requires
            old(self).wf(),
        ensures
            final(self).wf(),
            final(self).bytes() == old(self).bytes(),
            match r {
                Ok(h) => umv_decode_at(old(self).bytes(), old(self).pos() as int)
                    == UmvOutcome::Value(h.value(), final(self).pos() as int) && -4096 < h.value()
                    < 4096 && old(self).pos() < final(self).pos() <= old(self).total_bits(),
                Err(e) => (e == Error::EndOfStream && umv_decode_at(
                    old(self).bytes(),
                    old(self).pos() as int,
                ) == UmvOutcome::OutOfBits) || (e == Error::InvalidMvd && umv_decode_at(
                    old(self).bytes(),
                    old(self).pos() as int,
                ) == UmvOutcome::Invalid),
            },
    {
        let ghost bytes = self.bytes();
        let ghost pos0 = self.pos() as int;
        let start = match self.read_bits(1) {
            Ok(v) => v,
            Err(_) => {
                return Err(Error::EndOfStream);
            },
        };
        proof {
            reveal_with_fuel(stream_value, 2);
        }
        if start == 1 {
            return Ok(HalfPel::from_unit(0));
        }
        let mut mantissa: i32 = 0;
        let mut bulk: i32 = 1;
        let ghost fuel: nat = 13;
        proof {
            vstd::arithmetic::power2::lemma2_to64();
        }
        while bulk <= 2048
            invariant
                self.wf(),
                self.bytes() == bytes,
                bytes == old(self).bytes(),
                pos0 == old(self).pos() as int,
                pos0 < self.pos() <= self.total_bits(),
                1 <= bulk <= 4096,
                0 <= mantissa < bulk,
                bulk as int * pow2(fuel) == 8192,
                umv_decode_at(bytes, pos0) == umv_walk(
                    bytes,
                    self.pos() as int,
                    mantissa as int,
                    bulk as int,
                    fuel,
                ),
            decreases 4096 - bulk,
        {
            proof {
                if fuel == 0 {
                    vstd::arithmetic::power2::lemma2_to64();
                    assert(bulk as int * pow2(fuel) == bulk as int) by (nonlinear_arith)
                        requires
                            pow2(fuel) == 1,
                    ;
                }
                assert(fuel >= 1);
            }
            let code = match self.read_bits(2) {
                Ok(v) => v,
                Err(_) => {
                    return Err(Error::EndOfStream);
                },
            };
            proof {
                reveal_with_fuel(stream_value, 3);
                lemma_stream_value_bound(bytes, self.pos() as int - 2, 2);
                vstd::arithmetic::power2::lemma2_to64();
                vstd::arithmetic::power2::lemma_pow2_unfold(fuel);
                assert((2 * bulk) as int * pow2((fuel - 1) as nat) == 8192) by (nonlinear_arith)
                    requires
                        bulk as int * pow2(fuel) == 8192 && pow2(fuel) == 2 * pow2(
                            (fuel - 1) as nat,
                        ),
                ;
            }
            if code == 0 {
                return Ok(HalfPel::from_unit((mantissa + bulk) as i16));
            } else if code == 2 {
                return Ok(HalfPel::from_unit((-(mantissa + bulk)) as i16));
            } else if code == 1 {
                mantissa = mantissa * 2;
                bulk = bulk * 2;
            } else {
                mantissa = mantissa * 2 + 1;
                bulk = bulk * 2;
            }
            proof {
                fuel = (fuel - 1) as nat;
            }
        }
        proof {
            // The magnitude bracket doubles from one along the walk, so
            // leaving the loop means it reached exactly 4096.
            vstd::arithmetic::power2::lemma2_to64();
            if fuel == 0 {
                assert(bulk as int * pow2(fuel) == bulk as int) by (nonlinear_arith)
                    requires
                        pow2(fuel) == 1,
                ;
            } else if fuel == 1 {
                assert(bulk as int * pow2(fuel) == 2 * bulk as int) by (nonlinear_arith)
                    requires
                        pow2(fuel) == 2,
                ;
            } else {
                vstd::arithmetic::power2::lemma_pow2_unfold(fuel);
                vstd::arithmetic::power2::lemma_pow2_strictly_increases(0, (fuel - 1) as nat);
                assert(bulk as int <= 2048) by (nonlinear_arith)
                    requires
                        bulk as int * pow2(fuel) == 8192 && pow2(fuel) >= 4 && bulk as int >= 1,
                ;
            }
            assert(bulk == 4096);
        }
        Err(Error::InvalidMvd)
    }

    /// Discard the consumed whole bytes of the buffer, invalidating all
    /// previous checkpoints. Called once a user-facing object has been
    /// fully read.
    pub fn commit(&mut self)
        requires
            old(self).wf(),
        ensures
            final(self).wf(),
            final(self).bytes() == old(self).bytes().skip((old(self).pos() / 8) as int),
            final(self).pos() == old(self).pos() % 8,
    {
        let consumed = self.bits_read / 8;
        let mut rest: Vec<u8> = Vec::new();
        let mut i: usize = consumed;
        proof {
            vstd::arithmetic::div_mod::lemma_fundamental_div_mod(old(self).bits_read as int, 8);
        }
        while i < self.buffer.len()
            invariant
                consumed <= i,
                i <= self.buffer@.len(),
                self.buffer@ == old(self).buffer@,
                rest@ == self.buffer@.subrange(consumed as int, i as int),
            decreases self.buffer@.len() - i,
        {
            rest.push(self.buffer[i]);
            i += 1;
        }
        assert(rest@ == self.buffer@.skip(consumed as int));
        self.buffer = rest;
        self.bits_read = self.bits_read % 8;
    }
}

/// Filling the bits of `v` above `n` with ones adds `2^32 - 2^n` when `v`
/// holds fewer than `n` bits.
proof fn lemma_sign_extension_bits(v: u32, n: u32)
    requires
        1 <= n < 32,
        v < pow2(n as nat),
    ensures
        (v | (u32::MAX << n)) as int == v + 0x100000000int - pow2(n as nat),
{
    vstd::arithmetic::power2::lemma2_to64();
    assert(pow2(n as nat) < pow2(32)) by {
        vstd::arithmetic::power2::lemma_pow2_strictly_increases(n as nat, 32);
    }
    assert((1u64 << n) as nat == pow2(n as nat)) by {
        vstd::bits::lemma_u64_shl_is_mul(1u64, n as u64);
    }
    assert((v | (u32::MAX << n)) as u64 == 0x100000000u64 - (1u64 << n) + (v as u64))
        by (bit_vector)
        requires
            1 <= n < 32 && (v as u64) < (1u64 << n),
    ;
}

} // verus!
