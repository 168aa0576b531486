//! The ICMPv4 header codec and the writable view that it encodes into.

use crate::checksum::internet_checksum;
use crate::checksum::Checksum;
use crate::endian::be_u16;
use crate::endian::be_u16_bytes;
use crate::endian::be_u32;
use crate::endian::be_u32_bytes;
use crate::endian::lemma_be_u16_of_bytes;
use crate::endian::lemma_be_u32_of_bytes;
use crate::endian::read_be_u16;
use crate::endian::read_be_u32;
use crate::endian::write_be_u16;
use crate::endian::write_be_u32;
use crate::error::Error;
use vstd::prelude::*;

verus! {

/// The length of an ICMPv4 header.
pub const HEADER_LEN: usize = 8;

/// The offset of the checksum field in the header.
pub const CHECKSUM_OFFSET: usize = 2;

/// The offset of the last four header bytes, which depend on the message
/// type.
pub const REMAINING_OFFSET: usize = 4;

/// An ICMPv4 header without its checksum, which exists on the wire only.
#[derive(Clone, Copy, Debug, PartialEq, Eq, Structural)]
pub struct IcmpV4Header {
    /// The message type (8 is an echo request, 0 an echo reply).
    pub message_type: u8,
    /// The code, whose meaning depends on the message type.
    pub code: u8,
    /// The last four header bytes as one big-endian number. What they mean
    /// depends on the message type and is of no concern here.
    pub remaining: u32,
}

/// The eight header bytes of `header` with `checksum` in the checksum field.
pub open spec fn header_bytes(header: IcmpV4Header, checksum: u16) -> Seq<u8> {
    seq![header.message_type, header.code] + be_u16_bytes(checksum) + be_u32_bytes(
        header.remaining,
    )
}

/// The message that encoding `header` in front of `data` gives: its checksum
/// field holds the Internet checksum of the whole message taken with that
/// field at zero.
pub open spec fn encoded(header: IcmpV4Header, data: Seq<u8>) -> Seq<u8> {
    header_bytes(header, internet_checksum(header_bytes(header, 0) + data)) + data
}

/// `packet` with the two bytes of its checksum field replaced by zeros.
pub open spec fn with_zeroed_checksum(packet: Seq<u8>) -> Seq<u8> {
    packet.subrange(0, CHECKSUM_OFFSET as int) + seq![0u8, 0u8] + packet.skip(
        REMAINING_OFFSET as int,
    )
}

/// The checksum that the checksum field of `packet` has to hold.
pub open spec fn expected_checksum(packet: Seq<u8>) -> u16 {
    internet_checksum(with_zeroed_checksum(packet))
}

/// The checksum that the checksum field of `packet` holds.
pub open spec fn stored_checksum(packet: Seq<u8>) -> u16 {
    be_u16(packet.subrange(CHECKSUM_OFFSET as int, REMAINING_OFFSET as int))
}

/// The number that the last four header bytes of `packet` hold.
pub open spec fn remaining_field(packet: Seq<u8>) -> u32 {
    be_u32(packet.subrange(REMAINING_OFFSET as int, HEADER_LEN as int))
}

/// The first eight bytes of `packet`: its header.
pub open spec fn header_of(packet: Seq<u8>) -> Seq<u8> {
    packet.subrange(0, HEADER_LEN as int)
}

/// The bytes of `packet` behind its header.
pub open spec fn data_of(packet: Seq<u8>) -> Seq<u8> {
    packet.skip(HEADER_LEN as int)
}

/// What decoding `packet` gives: the header and the data behind it, or the
/// reason for which `packet` is rejected.
pub open spec fn decoded(packet: Seq<u8>) -> Result<(IcmpV4Header, Seq<u8>), Error> {
    if packet.len() < HEADER_LEN {
        Err(Error::Truncated)
    } else if stored_checksum(packet) != expected_checksum(packet) {
        Err(Error::ChecksumMismatch)
    } else {
        Ok(
            (
                IcmpV4Header {
                    message_type: packet[0],
                    code: packet[1],
                    remaining: remaining_field(packet),
                },
                data_of(packet),
            ),
        )
    }
}

/// The Internet checksum of `packet` taken with its checksum field at zero.
fn checksum_without_field(packet: &[u8]) -> (value: u16)
    requires
        packet@.len() >= REMAINING_OFFSET,
    ensures
        value == expected_checksum(packet@),
{
    let zeros: [u8; 2] = [0, 0];
    let mut checksum = Checksum::new();
    checksum.add_bytes(&packet[0..CHECKSUM_OFFSET]);
    checksum.add_bytes(zeros.as_slice());
    checksum.add_bytes(&packet[REMAINING_OFFSET..packet.len()]);
    assert(checksum@ =~= with_zeroed_checksum(packet@));
    checksum.checksum()
}

impl IcmpV4Header {
    /// Decodes the ICMPv4 header at the start of `packet`, after checking the
    /// checksum of the whole of `packet`, and returns it with the data that
    /// follows the header.
    pub fn decode(packet: &[u8]) -> (result: Result<(IcmpV4Header, &[u8]), Error>)
        ensures
            match result {
                Ok((header, data)) => decoded(packet@) == Ok::<_, Error>((header, data@)),
                Err(error) => decoded(packet@) == Err::<(IcmpV4Header, Seq<u8>), _>(error),
            },
    {
        if packet.len() < HEADER_LEN {
            return Err(Error::Truncated);
        }
        let expected: u16 = checksum_without_field(packet);
        let message_type: u8 = packet[0];
        let code: u8 = packet[1];
        if read_be_u16(packet, CHECKSUM_OFFSET) != expected {
            return Err(Error::ChecksumMismatch);
        }
        let remaining: u32 = read_be_u32(packet, REMAINING_OFFSET);
        Ok((IcmpV4Header { message_type, code, remaining }, &packet[HEADER_LEN..packet.len()]))
    }

    /// Writes the header into the first eight bytes of `buffer`, with the
    /// checksum of the whole message, header and data, in its checksum
    /// field. The data behind the header is read and left as it is.
    pub fn encode(&self, buffer: &mut WritableIcmpPacket)
        requires
            old(buffer).well_formed(),
        ensures
            final(buffer).well_formed(),
            final(buffer)@ == encoded(*self, data_of(old(buffer)@)),
    {
        let ghost data = data_of(buffer@);
        {
            let header = buffer.header();
            header[0] = self.message_type;
            header[1] = self.code;
            write_be_u32(header, REMAINING_OFFSET, self.remaining);
        }
        assert(with_zeroed_checksum(buffer@) =~= header_bytes(*self, 0) + data);
        let calculated: u16 = checksum_without_field(buffer.full());
        {
            let header = buffer.header();
            write_be_u16(header, CHECKSUM_OFFSET, calculated);
        }
        assert(buffer@ =~= encoded(*self, data));
    }
}

/// A caller's buffer of at least eight bytes, seen as an ICMPv4 message: an
/// eight-byte header and the data behind it. The view borrows the buffer and
/// copies nothing.
pub struct WritableIcmpPacket<'a> {
    buffer: &'a mut [u8],
}

impl<'a> WritableIcmpPacket<'a> {
    /// The bytes of the whole buffer.
    pub closed spec fn view(&self) -> Seq<u8> {
        self.buffer@
    }

    /// The buffer can hold a header.
    pub open spec fn well_formed(&self) -> bool {
        self@.len() >= HEADER_LEN
    }

    /// A view of `buffer`, if it can hold a header.
    pub fn new(buffer: &'a mut [u8]) -> (packet: Option<Self>)
        ensures
            packet is Some <==> old(buffer)@.len() >= HEADER_LEN,
            packet matches Some(view) ==> view@ == old(buffer)@ && view.well_formed(),
            packet is None ==> final(buffer)@ == old(buffer)@,
    {
        if buffer.len() < HEADER_LEN {
            None
        } else {
            Some(WritableIcmpPacket { buffer })
        }
    }

    /// The first eight bytes of the buffer.
    pub fn header(&mut self) -> (bytes: &mut [u8])
        requires
            old(self).well_formed(),
        ensures
            bytes@ == header_of(old(self)@),
            final(self)@ == final(bytes)@ + data_of(old(self)@),
    {
        let (header, _data) = self.buffer.split_at_mut(HEADER_LEN);
        header
    }

    /// The bytes behind the header.
    pub fn data(&mut self) -> (bytes: &mut [u8])
        requires
            old(self).well_formed(),
        ensures
            bytes@ == data_of(old(self)@),
            final(self)@ == header_of(old(self)@) + final(bytes)@,
    {
        let (_header, data) = self.buffer.split_at_mut(HEADER_LEN);
        data
    }

    /// The whole buffer.
    pub fn full(&mut self) -> (bytes: &mut [u8])
        ensures
            bytes@ == old(self)@,
            final(self)@ == final(bytes)@,
    {
        &mut *self.buffer
    }
}

/// Decoding the message that encoding gives returns the header and the data
/// that went into it, whatever they are.
pub proof fn lemma_decode_inverts_encode(header: IcmpV4Header, data: Seq<u8>)
    ensures
        decoded(encoded(header, data)) == Ok::<_, Error>((header, data)),
{
    let unsummed = header_bytes(header, 0) + data;
    let checksum = internet_checksum(unsummed);
    let message = encoded(header, data);
    lemma_be_u16_of_bytes(checksum);
    lemma_be_u32_of_bytes(header.remaining);
    assert(with_zeroed_checksum(message) =~= unsummed);
    assert(message.subrange(2, 4) =~= be_u16_bytes(checksum));
    assert(message.subrange(4, 8) =~= be_u32_bytes(header.remaining));
    assert(data_of(message) =~= data);
}

/// A message whose checksum field holds anything but the checksum of the
/// message taken with that field at zero is rejected as a checksum mismatch,
/// whatever else it holds.
pub proof fn lemma_altered_checksum_rejected(packet: Seq<u8>, high: u8, low: u8)
    requires
        packet.len() >= HEADER_LEN,
        be_u16(seq![high, low]) != expected_checksum(packet),
    ensures
        decoded(packet.update(2, high).update(3, low)) == Err::<(IcmpV4Header, Seq<u8>), _>(
            Error::ChecksumMismatch,
        ),
{
    let altered = packet.update(2, high).update(3, low);
    assert(with_zeroed_checksum(altered) =~= with_zeroed_checksum(packet));
    assert(altered.subrange(2, 4) =~= seq![high, low]);
}

} // verus!
