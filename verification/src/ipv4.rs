//! The IPv4 header codec: finds where the header of a datagram ends and which
//! protocol its payload belongs to.

use crate::bits::lemma_bits_value_byte;
use crate::bits::lemma_bits_value_nibbles;
use crate::bits::BitCursor;
use crate::error::Error;
use vstd::prelude::*;

verus! {

/// The only IP version that is decoded.
pub const IP_VERSION: u8 = 4;

/// The shortest header, in 32-bit words: the fixed fields without options.
pub const MIN_HEADER_WORDS: u8 = 5;

/// The offset of the protocol number in the header.
pub const PROTOCOL_OFFSET: usize = 9;

/// The protocol number of ICMP.
pub const PROTOCOL_ICMP: u8 = 1;

/// What is kept of an IPv4 header.
#[derive(Clone, Copy, Debug, PartialEq, Eq, Structural)]
pub struct IpV4PacketHeader {
    /// The number of the protocol that the payload belongs to (1 is ICMP).
    pub protocol: u8,
}

/// The version field of a datagram: the high half of its first byte.
pub open spec fn version_field(packet: Seq<u8>) -> int {
    packet[0] as int / 16
}

/// The internet header length of a datagram, in 32-bit words: the low half of
/// its first byte.
pub open spec fn header_words(packet: Seq<u8>) -> int {
    packet[0] as int % 16
}

/// What decoding `packet` gives: the header and the bytes behind it, or the
/// reason for which `packet` is rejected.
pub open spec fn decoded(packet: Seq<u8>) -> Result<(IpV4PacketHeader, Seq<u8>), Error> {
    if packet.len() == 0 {
        Err(Error::Truncated)
    } else if version_field(packet) != IP_VERSION {
        Err(Error::UnsupportedVersion)
    } else if header_words(packet) < MIN_HEADER_WORDS {
        Err(Error::InvalidHeaderLength)
    } else if packet.len() < 4 * header_words(packet) {
        Err(Error::Truncated)
    } else {
        Ok(
            (
                IpV4PacketHeader { protocol: packet[PROTOCOL_OFFSET as int] },
                packet.skip(4 * header_words(packet)),
            ),
        )
    }
}

impl IpV4PacketHeader {
    /// Decodes the IPv4 header at the start of `packet` and returns it with
    /// the bytes that follow the header, options included in the header.
    /// The total-length field does not bound the payload and the header
    /// checksum is not examined.
    pub fn decode(packet: &[u8]) -> (result: Result<(IpV4PacketHeader, &[u8]), Error>)
        ensures
            match result {
                Ok((header, payload)) => decoded(packet@) == Ok::<_, Error>((header, payload@)),
                Err(error) => decoded(packet@) == Err::<(IpV4PacketHeader, Seq<u8>), _>(error),
            },
    {
        let mut cursor = BitCursor::new(packet);
        proof {
            if packet@.len() > 0 {
                lemma_bits_value_nibbles(packet@, 0);
            }
        }
        let version: u32 = cursor.read_bits(4)?;
        if version != IP_VERSION as u32 {
            return Err(Error::UnsupportedVersion);
        }
        let internet_header_length: u32 = cursor.read_bits(4)?;
        if internet_header_length < MIN_HEADER_WORDS as u32 {
            return Err(Error::InvalidHeaderLength);
        }
        // Type of service.
        cursor.skip_bits(8)?;
        let _total_length: u32 = cursor.read_bits(16)?;
        // Identification, flags and fragment offset.
        cursor.skip_bits(32)?;
        // Time to live.
        cursor.skip_bits(8)?;
        let protocol: u32 = cursor.read_bits(8)?;
        proof {
            lemma_bits_value_byte(packet@, PROTOCOL_OFFSET as int);
        }
        // Header checksum.
        cursor.skip_bits(16)?;
        // Source and destination addresses.
        cursor.skip_bits(32)?;
        cursor.skip_bits(32)?;
        // Options.
        cursor.skip_bits((internet_header_length as usize - MIN_HEADER_WORDS as usize) * 32)?;
        Ok((IpV4PacketHeader { protocol: protocol as u8 }, cursor.remaining()))
    }
}

} // verus!
