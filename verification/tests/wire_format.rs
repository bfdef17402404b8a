use dns_resolver::source_api::{CallData, CallResponse, ResolveInfo, ResolveRequest};
use dns_resolver::wire::{
    read_len_delimited, read_string, read_u64, read_varint, skip_field, skip_unknown, varint_len,
    write_string_payload, write_varint, VarintRead, WireError,
};
use protobuf::CodedOutputStream;

fn protobuf_bytes(write: impl FnOnce(&mut CodedOutputStream)) -> Vec<u8> {
    let mut out = Vec::new();
    {
        let mut os = CodedOutputStream::vec(&mut out);
        write(&mut os);
        os.flush().unwrap();
    }
    out
}

#[test]
fn varint_of_300_takes_two_bytes() {
    let mut out = Vec::new();
    write_varint(&mut out, 300);
    assert_eq!(out, vec![0xac, 0x02]);
    assert_eq!(varint_len(300), 2);
}

#[test]
fn varint_lengths_match_protobuf() {
    for v in [0u64, 1, 127, 128, 16383, 16384, u32::MAX as u64, 1 << 56, u64::MAX] {
        assert_eq!(varint_len(v), protobuf::rt::compute_raw_varint64_size(v));
        let mut out = Vec::new();
        write_varint(&mut out, v);
        assert_eq!(out.len() as u64, varint_len(v));
        assert_eq!(out, protobuf_bytes(|os| os.write_raw_varint64(v).unwrap()));
    }
}

#[test]
fn varint_reads_back() {
    let mut out = vec![9u8];
    write_varint(&mut out, 1_000_000_007);
    assert_eq!(read_varint(&out, 1, 10, 1), VarintRead::Value(1_000_000_007, out.len() - 1));
}

#[test]
fn varint_read_cut_short_is_incomplete() {
    assert_eq!(read_varint(&[0x80, 0x80], 0, 10, 1), VarintRead::Incomplete);
    assert_eq!(read_varint(&[], 0, 10, 1), VarintRead::Incomplete);
}

#[test]
fn varint_read_too_long_is_malformed() {
    let bytes = [0xffu8; 11];
    assert_eq!(read_varint(&bytes, 0, 10, 1), VarintRead::Malformed);
    // A 64-bit varint whose tenth byte carries more than one bit.
    let mut ten = vec![0xffu8; 9];
    ten.push(0x02);
    assert_eq!(read_varint(&ten, 0, 10, 1), VarintRead::Malformed);
    ten[9] = 0x01;
    assert_eq!(read_varint(&ten, 0, 10, 1), VarintRead::Value(u64::MAX, 10));
}

#[test]
fn u64_payload_errors() {
    assert_eq!(read_u64(&[0x80], 0), Err(WireError::Truncated));
    assert_eq!(read_u64(&[0xff; 11], 0), Err(WireError::IncorrectVarint));
    assert_eq!(read_u64(&[0x05, 0x06], 1), Ok((6, 2)));
}

#[test]
fn string_payload_round_trip() {
    let mut out = Vec::new();
    write_string_payload(&mut out, "héllo");
    assert_eq!(out[0], 6);
    assert_eq!(read_string(&out, 0), Ok(("héllo".to_string(), 7)));
}

#[test]
fn string_payload_errors() {
    assert_eq!(read_string(&[0x03, b'a'], 0), Err(WireError::Truncated));
    assert_eq!(read_string(&[0x02, 0xff, 0xfe], 0), Err(WireError::InvalidUtf8));
    assert_eq!(read_len_delimited(&[0x02, 0xff, 0xfe], 0), Ok((vec![0xff, 0xfe], 3)));
    assert_eq!(read_len_delimited(&[0xff, 0xff, 0xff, 0xff, 0xff, 0x01], 0), Err(WireError::IncorrectVarint));
}

#[test]
fn skipping_fields_of_each_wire_type() {
    let s = [0x96u8, 0x01, 0xaa];
    assert_eq!(skip_field(&s, 0, 0, 0), Ok(2));
    assert_eq!(skip_field(&[0u8; 8], 0, 1, 0), Ok(8));
    assert_eq!(skip_field(&[0u8; 7], 0, 1, 0), Err(WireError::Truncated));
    assert_eq!(skip_field(&[0x02, 7, 7, 9], 0, 2, 0), Ok(3));
    assert_eq!(skip_field(&[0u8; 4], 0, 5, 0), Ok(4));
    assert_eq!(skip_field(&[0u8; 3], 0, 5, 0), Err(WireError::Truncated));
    assert_eq!(skip_field(&[], 0, 4, 0), Err(WireError::UnexpectedEndGroup));
    // A group holding a varint field, closed by its end marker (field 1, type 4).
    assert_eq!(skip_field(&[0x08, 0x01, 0x0c, 0x55], 0, 3, 0), Ok(3));
    // A group at the depth limit cannot open another one.
    assert_eq!(skip_field(&[0x0c], 0, 3, 100), Err(WireError::RecursionLimit));
    // Inside a group, a tag with field number zero is refused.
    assert_eq!(skip_field(&[0x00], 0, 3, 0), Err(WireError::IncorrectTag));
}

#[test]
fn unknown_field_with_invalid_wire_type() {
    assert_eq!(skip_unknown(&[0x00], 0, 0x1e), Err(WireError::UnknownWireType));
    assert_eq!(skip_unknown(&[0x01], 0, 0x18), Ok(1));
}

#[test]
fn resolve_request_encoding_matches_protobuf() {
    let req = ResolveRequest { url: "dxm://node.example".to_string(), build_channel: true };
    let mut out = Vec::new();
    req.serial_with_output_stream(&mut out);
    let expected = protobuf_bytes(|os| {
        os.write_string(1, &req.url).unwrap();
        os.write_bool(2, true).unwrap();
    });
    assert_eq!(out, expected);
    assert_eq!(req.compute_size(), protobuf::rt::string_size(1, &req.url) + 2);
    assert_eq!(req.compute_size(), out.len() as u64);
}

#[test]
fn default_resolve_request_encodes_to_nothing() {
    let req = ResolveRequest::default();
    assert_eq!(req.url, "");
    assert!(!req.build_channel);
    let mut out = Vec::new();
    req.serial_with_output_stream(&mut out);
    assert!(out.is_empty());
    assert_eq!(req.compute_size(), 0);
}

#[test]
fn resolve_request_parses_back() {
    let req = ResolveRequest { url: "http://10.1.2.3:9000".to_string(), build_channel: true };
    let mut out = Vec::new();
    req.serial_with_output_stream(&mut out);
    let mut back = ResolveRequest::default();
    assert_eq!(back.parse_from_input_stream(&out), Ok(()));
    assert_eq!(back.url, req.url);
    assert!(back.build_channel);
}

#[test]
fn resolve_request_skips_unknown_fields() {
    let bytes = protobuf_bytes(|os| {
        os.write_int64(7, 99).unwrap();
        os.write_string(1, "http://a.b").unwrap();
        os.write_string(9, "ignored").unwrap();
        os.write_bool(2, true).unwrap();
    });
    let mut req = ResolveRequest::default();
    assert_eq!(req.parse_from_input_stream(&bytes), Ok(()));
    assert_eq!(req.url, "http://a.b");
    assert!(req.build_channel);
}

#[test]
fn later_field_overwrites_earlier() {
    let bytes = protobuf_bytes(|os| {
        os.write_string(1, "first").unwrap();
        os.write_string(1, "second").unwrap();
        os.write_bool(2, true).unwrap();
        os.write_bool(2, false).unwrap();
    });
    let mut req = ResolveRequest::default();
    assert_eq!(req.parse_from_input_stream(&bytes), Ok(()));
    assert_eq!(req.url, "second");
    assert!(!req.build_channel);
}

#[test]
fn resolve_request_parse_errors() {
    let mut req = ResolveRequest::default();
    // The string runs past the end of the input.
    assert_eq!(req.parse_from_input_stream(&[0x0a, 0x05, b'a']), Err(WireError::Truncated));
    let mut req = ResolveRequest::default();
    // An unknown field with wire type 7.
    assert_eq!(req.parse_from_input_stream(&[0x0a, 0x01, b'x', 0x1f]), Err(WireError::UnknownWireType));
    // The field read before the error stays.
    assert_eq!(req.url, "x");
    let mut req = ResolveRequest::default();
    assert_eq!(req.parse_from_input_stream(&[0x0a, 0x01, 0xc3]), Err(WireError::InvalidUtf8));
}

#[test]
fn malformed_tag_gives_no_result() {
    let mut req = ResolveRequest::default();
    assert_eq!(req.try_parse_from_input_stream(&[0x0a, 0x01, b'y', 0xff, 0xff, 0xff, 0xff, 0xff, 0xff]), None);
    assert_eq!(req.url, "y");
    let mut req = ResolveRequest::default();
    assert_eq!(req.try_parse_from_input_stream(&[]), Some(Ok(())));
    assert_eq!(req.try_parse_from_input_stream(&[0x10, 0x80]), Some(Err(WireError::Truncated)));
}

#[test]
fn resolve_info_encoding_matches_protobuf() {
    let info = ResolveInfo { conn_id: -5, channel_id: 1 << 40 };
    let mut out = Vec::new();
    info.serial_with_output_stream(&mut out);
    let expected = protobuf_bytes(|os| {
        os.write_int64(1, -5).unwrap();
        os.write_int64(2, 1 << 40).unwrap();
    });
    assert_eq!(out, expected);
    assert_eq!(
        info.compute_size(),
        protobuf::rt::int64_size(1, -5) + protobuf::rt::int64_size(2, 1 << 40)
    );
    assert_eq!(info.compute_size(), out.len() as u64);
    let mut back = ResolveInfo::default();
    assert_eq!(back.parse_from_input_stream(&out), Ok(()));
    assert_eq!(back.conn_id, -5);
    assert_eq!(back.channel_id, 1 << 40);
}

#[test]
fn zero_resolve_info_fields_are_omitted() {
    let info = ResolveInfo { conn_id: 0, channel_id: 3 };
    let mut out = Vec::new();
    info.serial_with_output_stream(&mut out);
    assert_eq!(out, vec![0x10, 0x03]);
    let d = ResolveInfo::default();
    assert_eq!((d.conn_id, d.channel_id), (0, 0));
}

#[test]
fn call_response_round_trip() {
    let resp = CallResponse { value: "0x00ff".to_string() };
    let mut out = Vec::new();
    resp.serial_with_output_stream(&mut out);
    assert_eq!(out, protobuf_bytes(|os| os.write_string(1, "0x00ff").unwrap()));
    assert_eq!(resp.compute_size(), out.len() as u64);
    let mut back = CallResponse::default();
    assert_eq!(back.parse_from_input_stream(&out), Ok(()));
    assert_eq!(back.value, "0x00ff");
    assert_eq!(CallResponse::default().value, "");
}

#[test]
fn call_data_round_trip() {
    let call = CallData { contract_addr: "0x1234".to_string(), data: "abcdef".to_string() };
    let mut out = Vec::new();
    call.serial_with_output_stream(&mut out);
    let expected = protobuf_bytes(|os| {
        os.write_string(1, "0x1234").unwrap();
        os.write_string(2, "abcdef").unwrap();
    });
    assert_eq!(out, expected);
    assert_eq!(call.compute_size(), out.len() as u64);
    let mut back = CallData::default();
    assert_eq!(back.parse_from_input_stream(&out), Ok(()));
    assert_eq!(back.contract_addr, "0x1234");
    assert_eq!(back.data, "abcdef");
    let d = CallData::default();
    assert_eq!((d.contract_addr.as_str(), d.data.as_str()), ("", ""));
}

#[test]
fn parsing_merges_into_existing_values() {
    let mut call = CallData { contract_addr: "kept".to_string(), data: "old".to_string() };
    assert_eq!(call.parse_from_input_stream(&[0x12, 0x03, b'n', b'e', b'w']), Ok(()));
    assert_eq!(call.contract_addr, "kept");
    assert_eq!(call.data, "new");
}
