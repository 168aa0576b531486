//! A cursor that reads a byte buffer as a stream of bits, most significant
//! bit of each byte first.

use crate::error::Error;
use vstd::arithmetic::power2::lemma2_to64;
use vstd::arithmetic::power2::lemma_pow2_strictly_increases;
use vstd::arithmetic::power2::lemma_pow2_unfold;
use vstd::arithmetic::power2::pow2;
use vstd::prelude::*;

verus! {

/// The bit at `index` of the stream: `0` or `1`.
pub open spec fn bit_at(bytes: Seq<u8>, index: int) -> nat {
    ((bytes[index / 8] >> ((7 - index % 8) as u8)) & 1) as nat
}

/// The unsigned number whose binary digits are the `count` bits from `start`
/// on, first bit most significant.
pub open spec fn bits_value(bytes: Seq<u8>, start: int, count: nat) -> nat
    decreases count,
{
    if count == 0 {
        0
    } else {
        2 * bits_value(bytes, start, (count - 1) as nat) + bit_at(bytes, start + count - 1)
    }
}

/// A number of `count` binary digits is below two to the power `count`.
pub proof fn lemma_bits_value_bound(bytes: Seq<u8>, start: int, count: nat)
    ensures
        bits_value(bytes, start, count) < pow2(count),
    decreases count,
{
    if count == 0 {
        lemma2_to64();
    } else {
        lemma_bits_value_bound(bytes, start, (count - 1) as nat);
        lemma_pow2_unfold(count);
        let byte = bytes[(start + count - 1) / 8];
        let shift = (7 - (start + count - 1) % 8) as u8;
        assert((byte >> shift) & 1 <= 1) by (bit_vector);
    }
}

/// Eight bits read from a byte boundary are that byte.
pub proof fn lemma_bits_value_byte(bytes: Seq<u8>, index: int)
    requires
        0 <= index < bytes.len(),
    ensures
        bits_value(bytes, index * 8, 8) == bytes[index],
{
    let byte = bytes[index];
    reveal_with_fuel(bits_value, 9);
    assert(((byte >> 7u8) & 1) * 128 + ((byte >> 6u8) & 1) * 64 + ((byte >> 5u8) & 1) * 32 + ((byte
        >> 4u8) & 1) * 16 + ((byte >> 3u8) & 1) * 8 + ((byte >> 2u8) & 1) * 4 + ((byte >> 1u8) & 1)
        * 2 + ((byte >> 0u8) & 1) == byte) by (bit_vector);
}

/// Four bits read from a byte boundary are the high half of that byte, and
/// the four after them its low half.
pub proof fn lemma_bits_value_nibbles(bytes: Seq<u8>, index: int)
    requires
        0 <= index < bytes.len(),
    ensures
        bits_value(bytes, index * 8, 4) == bytes[index] / 16,
        bits_value(bytes, index * 8 + 4, 4) == bytes[index] % 16,
{
    let byte = bytes[index];
    reveal_with_fuel(bits_value, 5);
    assert(((byte >> 7u8) & 1) * 8 + ((byte >> 6u8) & 1) * 4 + ((byte >> 5u8) & 1) * 2 + ((byte
        >> 4u8) & 1) == byte / 16) by (bit_vector);
    assert(((byte >> 3u8) & 1) * 8 + ((byte >> 2u8) & 1) * 4 + ((byte >> 1u8) & 1) * 2 + ((byte
        >> 0u8) & 1) == byte % 16) by (bit_vector);
}

/// A read position in a byte buffer, counted in bits.
pub struct BitCursor<'a> {
    bytes: &'a [u8],
    byte_offset: usize,
    bit_offset: u8,
}

impl<'a> BitCursor<'a> {
    /// The buffer that the cursor reads.
    pub closed spec fn bytes(&self) -> Seq<u8> {
        self.bytes@
    }

    /// The number of bits already passed.
    pub closed spec fn position(&self) -> nat {
        (self.byte_offset * 8 + self.bit_offset) as nat
    }

    #[verifier::type_invariant]
    spec fn well_formed(&self) -> bool {
        &&& self.bit_offset < 8
        &&& self.byte_offset * 8 + self.bit_offset <= self.bytes@.len() * 8
    }

    /// A cursor at the first bit of `bytes`.
    pub fn new(bytes: &'a [u8]) -> (cursor: BitCursor<'a>)
        ensures
            cursor.bytes() == bytes@,
            cursor.position() == 0,
    {
        BitCursor { bytes, byte_offset: 0, bit_offset: 0 }
    }

    /// Reads the next `count` bits as an unsigned number, first bit most
    /// significant, and moves past them. Fails, without moving, if fewer
    /// than `count` bits are left.
    pub fn read_bits(&mut self, count: u8) -> (result: Result<u32, Error>)
        requires
            count <= 32,
        ensures
            final(self).bytes() == old(self).bytes(),
            match result {
                Ok(value) => {
                    &&& old(self).position() + count <= old(self).bytes().len() * 8
                    &&& value == bits_value(old(self).bytes(), old(self).position() as int, count as nat)
                    &&& final(self).position() == old(self).position() + count
                },
                Err(error) => {
                    &&& error == Error::Truncated
                    &&& old(self).position() + count > old(self).bytes().len() * 8
                    &&& final(self).position() == old(self).position()
                },
            },
    {
        proof {
            use_type_invariant(&*self);
        }
        let needed_bytes: usize = ((self.bit_offset as usize) + (count as usize) + 7) / 8;
        if self.bytes.len() - self.byte_offset < needed_bytes {
            return Err(Error::Truncated);
        }
        let ghost start = self.position() as int;
        let bytes = self.bytes;
        let mut byte_offset: usize = self.byte_offset;
        let mut bit_offset: u8 = self.bit_offset;
        let mut value: u32 = 0;
        let mut taken: u8 = 0;
        while taken < count
            invariant
                taken <= count <= 32,
                bit_offset < 8,
                byte_offset * 8 + bit_offset == start + taken,
                start + count <= bytes@.len() * 8,
                value == bits_value(bytes@, start, taken as nat),
            decreases count - taken,
        {
            proof {
                // `value` has `taken` binary digits, at most 31 of them.
                lemma_bits_value_bound(bytes@, start, taken as nat);
                lemma2_to64();
                if taken < 31 {
                    lemma_pow2_strictly_increases(taken as nat, 31);
                }
            }
            let byte: u8 = bytes[byte_offset];
            let bit: u8 = (byte >> (7 - bit_offset)) & 1;
            assert(bit <= 1) by (bit_vector)
                requires
                    bit == (byte >> (7 - bit_offset) as u8) & 1,
            ;
            value = value * 2 + (bit as u32);
            taken = taken + 1;
            if bit_offset == 7 {
                bit_offset = 0;
                byte_offset = byte_offset + 1;
            } else {
                bit_offset = bit_offset + 1;
            }
        }
        *self = BitCursor { bytes, byte_offset, bit_offset };
        Ok(value)
    }

    /// Moves past the next `count` bits. Fails, without moving, if fewer than
    /// `count` bits are left.
    pub fn skip_bits(&mut self, count: usize) -> (result: Result<(), Error>)
        ensures
            final(self).bytes() == old(self).bytes(),
            match result {
                Ok(_) => {
                    &&& old(self).position() + count <= old(self).bytes().len() * 8
                    &&& final(self).position() == old(self).position() + count
                },
                Err(error) => {
                    &&& error == Error::Truncated
                    &&& old(self).position() + count > old(self).bytes().len() * 8
                    &&& final(self).position() == old(self).position()
                },
            },
    {
        proof {
            use_type_invariant(&*self);
        }
        let bits: u8 = self.bit_offset + (count % 8) as u8;
        let whole_bytes: usize = count / 8 + (bits / 8) as usize;
        let bit_offset: u8 = bits % 8;
        let left: usize = self.bytes.len() - self.byte_offset;
        if left < whole_bytes || (left == whole_bytes && bit_offset > 0) {
            return Err(Error::Truncated);
        }
        *self = BitCursor {
            bytes: self.bytes,
            byte_offset: self.byte_offset + whole_bytes,
            bit_offset,
        };
        Ok(())
    }

    /// The bytes that the cursor has not entered: those from the next byte
    /// boundary on.
    pub fn remaining(&self) -> (rest: &'a [u8])
        ensures
            rest@ == self.bytes().skip((self.position() + 7) as int / 8),
    {
        proof {
            use_type_invariant(self);
        }
        let bytes = self.bytes;
        let len: usize = bytes.len();
        let from: usize = if self.bit_offset > 0 {
            self.byte_offset + 1
        } else {
            self.byte_offset
        };
        &bytes[from..len]
    }
}

} // verus!
