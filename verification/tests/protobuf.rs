use tf2_queue_query::protobuf::{
    append_varint, body_from_packet, decode_map_counts, proto_packet, read_varint, tf_client_init, WireError,
    PROTO_MASK,
};

#[test]
fn decodes_packed_counts() {
    assert_eq!(
        decode_map_counts(&[0x0a, 0x04, 0x00, 0x01, 0xac, 0x02]).unwrap(),
        [0, 1, 300]
    );
}

#[test]
fn decodes_unpacked_counts_and_skips_unknown() {
    assert_eq!(
        decode_map_counts(&[0x10, 0x07, 0x08, 0x04, 0x08, 0x05]).unwrap(),
        [4, 5]
    );
}

#[test]
fn strips_gc_proto_header() {
    let packet = proto_packet(6525, &[1, 2, 3]);
    assert_eq!(body_from_packet(0x197d | PROTO_MASK, &packet), [1, 2, 3]);
}

#[test]
fn varints_are_little_endian_base_128() {
    let mut out = vec![0xff];
    append_varint(&mut out, 300);
    assert_eq!(out, [0xff, 0xac, 0x02]);
    let mut zero = Vec::new();
    append_varint(&mut zero, 0);
    assert_eq!(zero, [0x00]);
    let mut max = Vec::new();
    append_varint(&mut max, u64::MAX);
    assert_eq!(max, [0xff, 0xff, 0xff, 0xff, 0xff, 0xff, 0xff, 0xff, 0xff, 0x01]);
}

#[test]
fn encoded_counts_decode_back_packed_and_unpacked() {
    let values = [0u32, 1, 127, 128, 300, 65_535, u32::MAX];
    let mut unpacked = Vec::new();
    let mut payload = Vec::new();
    for v in values {
        unpacked.push(0x08);
        append_varint(&mut unpacked, u64::from(v));
        append_varint(&mut payload, u64::from(v));
    }
    assert_eq!(decode_map_counts(&unpacked).unwrap(), values);
    let mut packed = vec![0x0a];
    append_varint(&mut packed, payload.len() as u64);
    packed.extend_from_slice(&payload);
    assert_eq!(decode_map_counts(&packed).unwrap(), values);
}

#[test]
fn packet_body_comes_back() {
    for body in [&[][..], &[9u8][..], &[0x08, 0x96, 0x01][..]] {
        let packet = proto_packet(6536, body);
        assert_eq!(&packet[..8], &[0x88, 0x19, 0x00, 0x80, 0, 0, 0, 0]);
        assert_eq!(body_from_packet(6536 | PROTO_MASK, &packet), body);
    }
}

#[test]
fn packet_left_whole_when_header_does_not_match() {
    let packet = proto_packet(6525, &[1, 2, 3]);
    assert_eq!(body_from_packet(6525, &packet), &packet[..]);
    assert_eq!(body_from_packet(6524 | PROTO_MASK, &packet), &packet[..]);
    assert_eq!(body_from_packet(6525 | PROTO_MASK, &[1, 2]), &[1, 2]);
    let mut long_header = proto_packet(6525, &[1, 2, 3]);
    long_header[4] = 2;
    assert_eq!(body_from_packet(6525 | PROTO_MASK, &long_header), &[3]);
    long_header[4] = 9;
    assert_eq!(body_from_packet(6525 | PROTO_MASK, &long_header), &long_header[..]);
}

#[test]
fn client_init_carries_the_version() {
    assert_eq!(tf_client_init(300), [0x08, 0xac, 0x02, 0x10, 0x00]);
    assert_eq!(tf_client_init(0), [0x08, 0x00, 0x10, 0x00]);
}

#[test]
fn decode_errors_are_reported() {
    assert_eq!(decode_map_counts(&[]), Err(WireError::NoCounts));
    assert_eq!(decode_map_counts(&[0x10, 0x01]), Err(WireError::NoCounts));
    assert_eq!(decode_map_counts(&[0x08]), Err(WireError::TruncatedVarint));
    assert_eq!(decode_map_counts(&[0x08, 0x80]), Err(WireError::TruncatedVarint));
    assert_eq!(
        decode_map_counts(&[0x08, 0xff, 0xff, 0xff, 0xff, 0xff, 0xff, 0xff, 0xff, 0xff, 0x02]),
        Err(WireError::VarintOverflow)
    );
    assert_eq!(decode_map_counts(&[0x08, 0x80, 0x80, 0x80, 0x80, 0x10]), Err(WireError::CountOutOfRange));
    assert_eq!(decode_map_counts(&[0x0a, 0x05, 0x01]), Err(WireError::TruncatedPacked));
    assert_eq!(decode_map_counts(&[0x0b]), Err(WireError::UnsupportedWireType(3)));
    assert_eq!(decode_map_counts(&[0x11, 0x00]), Err(WireError::TruncatedField));
    assert_eq!(decode_map_counts(&[0x12, 0x03, 0x00]), Err(WireError::TruncatedField));
    assert_eq!(decode_map_counts(&[0x15, 0x00, 0x00, 0x00]), Err(WireError::TruncatedField));
}

#[test]
fn fixed_width_and_length_delimited_fields_are_skipped() {
    let bytes = [
        0x11, 1, 2, 3, 4, 5, 6, 7, 8, // field 2, 64-bit
        0x1a, 0x02, 0xaa, 0xbb, // field 3, length-delimited
        0x25, 1, 2, 3, 4, // field 4, 32-bit
        0x08, 0x2a,
    ];
    assert_eq!(decode_map_counts(&bytes).unwrap(), [42]);
}

#[test]
fn read_varint_reads_back_what_append_varint_wrote() {
    for v in [0u64, 1, 127, 128, 300, 1 << 35, u64::MAX] {
        let mut buf = vec![0xff, 0x80];
        append_varint(&mut buf, v);
        let end = buf.len();
        buf.extend_from_slice(&[0x80, 0x01]);
        let mut offset = 2;
        assert_eq!(read_varint(&buf, &mut offset), Ok(v));
        assert_eq!(offset, end);
    }
    let mut offset = 0;
    assert_eq!(read_varint(&[0x80], &mut offset), Err(WireError::TruncatedVarint));
}

#[test]
fn decoding_a_concatenation_concatenates_the_counts() {
    let a = [0x0a, 0x02, 0x01, 0x02, 0x18, 0x05];
    let b = [0x08, 0x2a, 0x0a, 0x01, 0x07];
    let mut both = a.to_vec();
    both.extend_from_slice(&b);
    let mut expected = decode_map_counts(&a).unwrap();
    expected.extend(decode_map_counts(&b).unwrap());
    assert_eq!(decode_map_counts(&both).unwrap(), expected);
    assert_eq!(expected, [1, 2, 42, 7]);
}
