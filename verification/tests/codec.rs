use icmp_encoding::Error;
use icmp_encoding::IcmpV4Header;
use icmp_encoding::IpV4PacketHeader;
use icmp_encoding::WritableIcmpPacket;

fn icmp_encoded() -> [u8; 64] {
    [
        0, 0, 131, 227, 32, 5, 0, 15, 94, 165, 50, 160, 0, 0, 223, 191, 8, 9, 10, 11, 12, 13, 14,
        15, 16, 17, 18, 19, 20, 21, 22, 23, 24, 25, 26, 27, 28, 29, 30, 31, 32, 33, 34, 35, 36,
        37, 38, 39, 40, 41, 42, 43, 44, 45, 46, 47, 48, 49, 50, 51, 52, 53, 54, 55,
    ]
}

fn icmp_decoded() -> IcmpV4Header {
    IcmpV4Header {
        message_type: 0,
        code: 0,
        remaining: 537198607,
    }
}

fn ipv4_encoded() -> [u8; 84] {
    [
        69, 0, 64, 0, 101, 92, 0, 0, 64, 1, 253, 194, 10, 100, 1, 1, 10, 100, 1, 194, 0, 0, 131,
        227, 32, 5, 0, 15, 94, 165, 50, 160, 0, 0, 223, 191, 8, 9, 10, 11, 12, 13, 14, 15, 16, 17,
        18, 19, 20, 21, 22, 23, 24, 25, 26, 27, 28, 29, 30, 31, 32, 33, 34, 35, 36, 37, 38, 39,
        40, 41, 42, 43, 44, 45, 46, 47, 48, 49, 50, 51, 52, 53, 54, 55,
    ]
}

#[test]
fn icmp_decode() {
    let encoded = &icmp_encoded()[..];
    let (header, body) = IcmpV4Header::decode(encoded).unwrap();

    assert_eq!((header, body), (icmp_decoded(), &encoded[8..]))
}

#[test]
fn encode() {
    let decoded = icmp_decoded();

    let mut output_buffer = [0u8; 64];
    let encoded = &icmp_encoded()[..];

    let mut wrapped_output_buffer = WritableIcmpPacket::new(&mut output_buffer).unwrap();
    wrapped_output_buffer.data().clone_from_slice(&encoded[8..]);

    decoded.encode(&mut wrapped_output_buffer);

    assert_eq!(encoded, wrapped_output_buffer.full(),)
}

#[test]
fn ipv4_decode() {
    let encoded = &ipv4_encoded()[..];
    let decoded = IpV4PacketHeader::decode(encoded).unwrap();

    assert_eq!((IpV4PacketHeader { protocol: 1 }, &encoded[20..]), decoded)
}

#[test]
fn decode_ping_request_packet() -> Result<(), Box<dyn ::std::error::Error>> {
    let encoded: [u8; 84] = [
        69, 0, 64, 0, 101, 92, 0, 0, 64, 1, 253, 194, 10, 100, 1, 1, 10, 100, 1, 194, 0, 0, 131,
        227, 32, 5, 0, 15, 94, 165, 50, 160, 0, 0, 223, 191, 8, 9, 10, 11, 12, 13, 14, 15, 16, 17,
        18, 19, 20, 21, 22, 23, 24, 25, 26, 27, 28, 29, 30, 31, 32, 33, 34, 35, 36, 37, 38, 39,
        40, 41, 42, 43, 44, 45, 46, 47, 48, 49, 50, 51, 52, 53, 54, 55,
    ];

    let (ip_header, ip_data) = IpV4PacketHeader::decode(&encoded).unwrap();
    println!("{:?}, {:?}", ip_header, ip_data);

    let (icmp_header, icmp_data) = IcmpV4Header::decode(ip_data).unwrap();
    println!("{:?}, {:?}", icmp_header, icmp_data);

    Ok(())
}

#[test]
fn decoding_ipv4_then_icmp_matches_decoding_the_icmp_slice() {
    let datagram = ipv4_encoded();
    let (ip_header, ip_payload) = IpV4PacketHeader::decode(&datagram).unwrap();
    assert_eq!(ip_header, IpV4PacketHeader { protocol: 1 });
    assert_eq!(ip_payload, &icmp_encoded()[..]);

    let through_both = IcmpV4Header::decode(ip_payload).unwrap();
    let message = icmp_encoded();
    let direct = IcmpV4Header::decode(&message).unwrap();
    assert_eq!(through_both, direct);
    assert_eq!(through_both, (icmp_decoded(), &message[8..]));
}

#[test]
fn encode_then_decode_returns_header_and_data() {
    let header = IcmpV4Header {
        message_type: 8,
        code: 3,
        remaining: 0x1234_5678,
    };
    let data: Vec<u8> = (0u8..57).map(|i| i.wrapping_mul(37).wrapping_add(5)).collect();

    let mut buffer = vec![0xaau8; 8 + data.len()];
    let mut packet = WritableIcmpPacket::new(&mut buffer).unwrap();
    packet.data().copy_from_slice(&data);
    header.encode(&mut packet);

    let (decoded, rest) = IcmpV4Header::decode(&buffer).unwrap();
    assert_eq!(decoded, header);
    assert_eq!(rest, &data[..]);
}

#[test]
fn encode_then_decode_with_no_data() {
    let header = IcmpV4Header {
        message_type: 0,
        code: 0,
        remaining: 0,
    };
    let mut buffer = [0x55u8; 8];
    let mut packet = WritableIcmpPacket::new(&mut buffer).unwrap();
    header.encode(&mut packet);
    assert_eq!(buffer, [0, 0, 0xff, 0xff, 0, 0, 0, 0]);

    let (decoded, rest) = IcmpV4Header::decode(&buffer).unwrap();
    assert_eq!(decoded, header);
    assert!(rest.is_empty());
}

#[test]
fn encode_writes_big_endian_fields_and_checksum() {
    let header = IcmpV4Header {
        message_type: 8,
        code: 0,
        remaining: 0x0001_0002,
    };
    // Stale bytes in the checksum field count as zero.
    let mut buffer = [0xeeu8; 8];
    let mut packet = WritableIcmpPacket::new(&mut buffer).unwrap();
    header.encode(&mut packet);
    // 0x0800 + 0x0001 + 0x0002 = 0x0803, whose complement is 0xf7fc.
    assert_eq!(buffer, [8, 0, 0xf7, 0xfc, 0, 1, 0, 2]);
}

#[test]
fn encode_covers_the_data_and_leaves_it_alone() {
    let header = IcmpV4Header {
        message_type: 8,
        code: 0,
        remaining: 0xa1b2_c3d4,
    };
    let mut buffer = [8u8, 8, 8, 8, 8, 8, 8, 8, 0x10, 0x20, 0x30];
    let mut packet = WritableIcmpPacket::new(&mut buffer).unwrap();
    header.encode(&mut packet);
    // 0x0800 + 0xa1b2 + 0xc3d4 + 0x1020 + 0x3000 = 0x1ada6, folded 0xada7.
    assert_eq!(
        buffer,
        [8, 0, 0x52, 0x58, 0xa1, 0xb2, 0xc3, 0xd4, 0x10, 0x20, 0x30]
    );
}

#[test]
fn decode_rejects_an_altered_checksum_field() {
    let valid = icmp_encoded();
    for (index, flip) in [(2usize, 1u8), (2, 0x80), (3, 1), (3, 0xff)] {
        let mut altered = valid;
        altered[index] ^= flip;
        assert_eq!(
            IcmpV4Header::decode(&altered),
            Err(Error::ChecksumMismatch)
        );
    }
}

#[test]
fn decode_rejects_altered_content() {
    let valid = icmp_encoded();
    for index in [0usize, 1, 4, 7, 8, 40, 63] {
        let mut altered = valid;
        altered[index] = altered[index].wrapping_add(1);
        assert_eq!(
            IcmpV4Header::decode(&altered),
            Err(Error::ChecksumMismatch)
        );
    }
}

#[test]
fn decode_rejects_short_messages_as_truncated() {
    let valid = icmp_encoded();
    for len in 0..8 {
        assert_eq!(IcmpV4Header::decode(&valid[..len]), Err(Error::Truncated));
    }
    // Eight zero bytes make no valid message, but they are long enough.
    assert_eq!(
        IcmpV4Header::decode(&[0u8; 8]),
        Err(Error::ChecksumMismatch)
    );
}

#[test]
fn decode_takes_a_message_of_odd_length() {
    // 0x0800 + 0x0007 + 0x0009 + 0xab00 = 0xb310, whose complement is 0x4cef.
    let message = [8u8, 0, 0x4c, 0xef, 0, 7, 0, 9, 0xab];
    let (header, data) = IcmpV4Header::decode(&message).unwrap();
    assert_eq!(
        header,
        IcmpV4Header {
            message_type: 8,
            code: 0,
            remaining: 0x0007_0009,
        }
    );
    assert_eq!(data, &[0xabu8][..]);
}

#[test]
fn writable_packet_needs_eight_bytes() {
    for len in 0..8 {
        let mut buffer = vec![0u8; len];
        assert!(WritableIcmpPacket::new(&mut buffer).is_none());
    }
    for len in [8usize, 9, 64, 1500] {
        let mut buffer = vec![0u8; len];
        assert!(WritableIcmpPacket::new(&mut buffer).is_some());
    }
}

#[test]
fn writable_packet_regions_share_the_buffer() {
    let mut buffer: Vec<u8> = (0u8..20).collect();
    let mut packet = WritableIcmpPacket::new(&mut buffer).unwrap();
    assert_eq!(packet.header(), &[0u8, 1, 2, 3, 4, 5, 6, 7][..]);
    assert_eq!(packet.data(), &[8u8, 9, 10, 11, 12, 13, 14, 15, 16, 17, 18, 19][..]);
    assert_eq!(packet.full().len(), 20);

    packet.header()[7] = 0xf7;
    packet.data()[0] = 0xf8;
    packet.full()[19] = 0xf9;
    assert_eq!(packet.full()[7], 0xf7);
    assert_eq!(packet.full()[8], 0xf8);
    assert_eq!(packet.data()[11], 0xf9);

    // The view copied nothing: the caller's buffer holds what was written.
    assert_eq!(buffer[7], 0xf7);
    assert_eq!(buffer[8], 0xf8);
    assert_eq!(buffer[19], 0xf9);
    assert_eq!(buffer[0], 0);
}

#[test]
fn writable_packet_of_eight_bytes_has_no_data() {
    let mut buffer = [1u8; 8];
    let mut packet = WritableIcmpPacket::new(&mut buffer).unwrap();
    assert_eq!(packet.header().len(), 8);
    assert!(packet.data().is_empty());
    assert_eq!(packet.full().len(), 8);
}

#[test]
fn ipv4_decode_rejects_an_empty_buffer() {
    assert_eq!(IpV4PacketHeader::decode(&[]), Err(Error::Truncated));
}

#[test]
fn ipv4_decode_rejects_other_versions() {
    let mut datagram = ipv4_encoded();
    datagram[0] = 0x65;
    assert_eq!(
        IpV4PacketHeader::decode(&datagram),
        Err(Error::UnsupportedVersion)
    );
    datagram[0] = 0x05;
    assert_eq!(
        IpV4PacketHeader::decode(&datagram),
        Err(Error::UnsupportedVersion)
    );
    // The version is looked at before anything else.
    assert_eq!(
        IpV4PacketHeader::decode(&[0x60]),
        Err(Error::UnsupportedVersion)
    );
}

#[test]
fn ipv4_decode_rejects_short_header_lengths() {
    for words in 0u8..5 {
        let mut datagram = ipv4_encoded();
        datagram[0] = 0x40 | words;
        assert_eq!(
            IpV4PacketHeader::decode(&datagram),
            Err(Error::InvalidHeaderLength)
        );
        assert_eq!(
            IpV4PacketHeader::decode(&[0x40 | words]),
            Err(Error::InvalidHeaderLength)
        );
    }
}

#[test]
fn ipv4_decode_rejects_buffers_shorter_than_the_header() {
    let datagram = ipv4_encoded();
    for len in 1..20 {
        assert_eq!(
            IpV4PacketHeader::decode(&datagram[..len]),
            Err(Error::Truncated)
        );
    }
    let (header, payload) = IpV4PacketHeader::decode(&datagram[..20]).unwrap();
    assert_eq!(header, IpV4PacketHeader { protocol: 1 });
    assert!(payload.is_empty());
}

#[test]
fn ipv4_decode_skips_options() {
    let mut datagram = vec![0u8; 40];
    datagram[0] = 0x47;
    datagram[9] = 17;
    for (i, byte) in datagram.iter_mut().enumerate().skip(20) {
        *byte = i as u8;
    }
    // Seven words: twenty fixed bytes and eight bytes of options.
    let (header, payload) = IpV4PacketHeader::decode(&datagram).unwrap();
    assert_eq!(header, IpV4PacketHeader { protocol: 17 });
    assert_eq!(payload, &datagram[28..]);

    assert_eq!(
        IpV4PacketHeader::decode(&datagram[..27]),
        Err(Error::Truncated)
    );
    assert!(IpV4PacketHeader::decode(&datagram[..28]).unwrap().1.is_empty());
}

#[test]
fn ipv4_decode_takes_the_longest_header() {
    let mut datagram = vec![0u8; 61];
    datagram[0] = 0x4f;
    datagram[9] = 255;
    datagram[60] = 0x99;
    let (header, payload) = IpV4PacketHeader::decode(&datagram).unwrap();
    assert_eq!(header, IpV4PacketHeader { protocol: 255 });
    assert_eq!(payload, &[0x99u8][..]);
    assert_eq!(
        IpV4PacketHeader::decode(&datagram[..59]),
        Err(Error::Truncated)
    );
}

#[test]
fn ipv4_decode_does_not_bound_the_payload_by_total_length() {
    let mut datagram = ipv4_encoded().to_vec();
    // Total length says 84; the buffer holds more.
    datagram.extend_from_slice(&[1, 2, 3, 4]);
    let (_, payload) = IpV4PacketHeader::decode(&datagram).unwrap();
    assert_eq!(payload.len(), 68);
    assert_eq!(&payload[64..], &[1u8, 2, 3, 4][..]);
}

#[test]
fn ipv4_decode_does_not_check_the_header_checksum() {
    let mut datagram = ipv4_encoded();
    datagram[10] ^= 0xff;
    datagram[11] ^= 0xff;
    let (header, payload) = IpV4PacketHeader::decode(&datagram).unwrap();
    assert_eq!(header, IpV4PacketHeader { protocol: 1 });
    assert_eq!(payload.len(), 64);
}
