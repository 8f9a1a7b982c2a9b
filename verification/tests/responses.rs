use sftp::attrs::{Extension, FileAttr};
use sftp::error::Error;
use sftp::recv;
use sftp::responses::{
    frame_length, recv_extension_list, recv_names, recv_packet, recv_payload, FxpData, FxpHandle,
    FxpName, FxpStatus, FxpStatusCode, FxpVersion, Name, Response, SftpResponse,
    SftpResponsePacket,
};
use sftp::wire::Receivable;

fn be32(n: u32) -> Vec<u8> {
    n.to_be_bytes().to_vec()
}

fn string(b: &[u8]) -> Vec<u8> {
    let mut out = be32(b.len() as u32);
    out.extend_from_slice(b);
    out
}

fn framed(payload: &[u8]) -> Vec<u8> {
    let mut out = be32(payload.len() as u32);
    out.extend_from_slice(payload);
    out
}

fn message(msg_type: u8, req_id: u32, body: &[u8]) -> Vec<u8> {
    let mut payload = vec![msg_type];
    payload.extend(be32(req_id));
    payload.extend_from_slice(body);
    framed(&payload)
}

fn status_body(code: u32, msg: &[u8]) -> Vec<u8> {
    let mut body = be32(code);
    body.extend(string(msg));
    body.extend(string(b"en"));
    body
}

#[test]
fn responses_have_their_type_bytes() {
    assert_eq!(FxpVersion::msg_type(), 2);
    assert_eq!(FxpStatus::msg_type(), 101);
    assert_eq!(FxpHandle::msg_type(), 102);
    assert_eq!(FxpData::msg_type(), 103);
    assert_eq!(FxpName::msg_type(), 104);
}

#[test]
fn a_version_frame_has_no_request_id() {
    let bytes = framed(&[2, 0, 0, 0, 3]);
    let mut r: &[u8] = &bytes;
    assert_eq!(
        recv(&mut r),
        Ok(SftpResponse {
            req_id: 0,
            packet: SftpResponsePacket::Version(FxpVersion { version: 3, extensions: vec![] }),
        })
    );
    assert!(r.is_empty());
}

#[test]
fn a_version_frame_lists_extensions_to_its_end() {
    let mut payload = vec![2, 0, 0, 0, 3];
    payload.extend(string(b"posix-rename@openssh.com"));
    payload.extend(string(b"1"));
    payload.extend(string(b"fsync@openssh.com"));
    payload.extend(string(b"1"));
    let mut bytes = framed(&payload);
    bytes.extend([9, 9]);
    let mut r: &[u8] = &bytes;
    let resp = recv(&mut r).unwrap();
    assert_eq!(
        resp.packet,
        SftpResponsePacket::Version(FxpVersion {
            version: 3,
            extensions: vec![
                Extension { name: b"posix-rename@openssh.com".to_vec(), data: b"1".to_vec() },
                Extension { name: b"fsync@openssh.com".to_vec(), data: b"1".to_vec() },
            ],
        })
    );
    assert_eq!(r, &[9, 9]);
}

#[test]
fn a_version_frame_with_a_cut_extension_fails() {
    let mut payload = vec![2, 0, 0, 0, 3];
    payload.extend(string(b"name"));
    payload.extend([0, 0]);
    let bytes = framed(&payload);
    let mut r: &[u8] = &bytes;
    assert_eq!(recv(&mut r), Err(Error::UnexpectedEOF));
    assert_eq!(r.len(), bytes.len());
}

#[test]
fn extension_list_runs_to_the_end() {
    let mut bytes = string(b"a");
    bytes.extend(string(b"b"));
    let mut r: &[u8] = &bytes;
    assert_eq!(
        recv_extension_list(&mut r),
        Ok(vec![Extension { name: b"a".to_vec(), data: b"b".to_vec() }])
    );
    assert!(r.is_empty());
    let mut r: &[u8] = &[];
    assert_eq!(recv_extension_list(&mut r), Ok(vec![]));
}

#[test]
fn each_status_code_is_known() {
    let codes = [
        (0, FxpStatusCode::Okay),
        (1, FxpStatusCode::EOF),
        (2, FxpStatusCode::NoSuchFile),
        (3, FxpStatusCode::PermissionDenied),
        (4, FxpStatusCode::Failure),
        (5, FxpStatusCode::BadMessage),
        (6, FxpStatusCode::NoConnection),
        (7, FxpStatusCode::ConnectionLost),
        (8, FxpStatusCode::OpUnsupported),
    ];
    for (n, code) in codes {
        let bytes = message(101, 7, &status_body(n, b"text"));
        let mut r: &[u8] = &bytes;
        assert_eq!(
            recv(&mut r),
            Ok(SftpResponse {
                req_id: 7,
                packet: SftpResponsePacket::Status(FxpStatus { code, msg: "text".to_string() }),
            })
        );
        assert!(r.is_empty());
    }
}

#[test]
fn a_code_outside_the_protocol_keeps_what_follows() {
    let mut body = status_body(9, b"odd");
    body.extend([1, 2, 3]);
    let bytes = message(101, 1, &body);
    let mut r: &[u8] = &bytes;
    assert_eq!(
        recv(&mut r).unwrap().packet,
        SftpResponsePacket::Status(FxpStatus {
            code: FxpStatusCode::UnknownCode(vec![1, 2, 3]),
            msg: "odd".to_string(),
        })
    );
    let bytes = message(101, 1, &status_body(0xffff_ffff, b""));
    let mut r: &[u8] = &bytes;
    assert_eq!(
        recv(&mut r).unwrap().packet,
        SftpResponsePacket::Status(FxpStatus {
            code: FxpStatusCode::UnknownCode(vec![]),
            msg: String::new(),
        })
    );
}

#[test]
fn a_status_text_may_hold_any_utf8() {
    let text = "caf\u{e9} \u{4e2d}\u{6587} \u{1f600}";
    let bytes = message(101, 1, &status_body(4, text.as_bytes()));
    let mut r: &[u8] = &bytes;
    assert_eq!(
        recv(&mut r).unwrap().packet,
        SftpResponsePacket::Status(FxpStatus {
            code: FxpStatusCode::Failure,
            msg: text.to_string(),
        })
    );
}

#[test]
fn a_status_text_that_is_not_utf8_is_refused() {
    let bytes = message(101, 1, &status_body(4, &[b'a', 0xff, b'b']));
    let mut r: &[u8] = &bytes;
    assert_eq!(recv(&mut r), Err(Error::Utf8));
    assert_eq!(r.len(), bytes.len());
    let bytes = message(101, 1, &status_body(77, &[0xc3]));
    let mut r: &[u8] = &bytes;
    assert_eq!(recv(&mut r), Err(Error::Utf8));
}

#[test]
fn a_status_without_its_language_tag_is_cut() {
    let mut body = be32(0);
    body.extend(string(b"ok"));
    let bytes = message(101, 1, &body);
    let mut r: &[u8] = &bytes;
    assert_eq!(recv(&mut r), Err(Error::UnexpectedEOF));
}

#[test]
fn a_status_is_read_off_its_body() {
    let body = status_body(2, b"No such file");
    let mut r: &[u8] = &body;
    assert_eq!(
        FxpStatus::recv(&mut r),
        Ok(FxpStatus { code: FxpStatusCode::NoSuchFile, msg: "No such file".to_string() })
    );
    assert!(r.is_empty());
}

#[test]
fn a_handle_frame() {
    let bytes = message(102, 0x0a0b_0c0d, &string(b"\x00\x01h"));
    let mut r: &[u8] = &bytes;
    assert_eq!(
        recv(&mut r),
        Ok(SftpResponse {
            req_id: 0x0a0b_0c0d,
            packet: SftpResponsePacket::Handle(FxpHandle { handle: vec![0, 1, b'h'] }),
        })
    );
}

#[test]
fn a_data_frame() {
    let bytes = message(103, 2, &string(b"temp"));
    let mut r: &[u8] = &bytes;
    assert_eq!(
        recv(&mut r),
        Ok(SftpResponse {
            req_id: 2,
            packet: SftpResponsePacket::Data(FxpData { data: b"temp".to_vec() }),
        })
    );
}

fn name_bytes(filename: &[u8], longname: &[u8], size: u64) -> Vec<u8> {
    let mut out = string(filename);
    out.extend(string(longname));
    out.extend(be32(1));
    out.extend(size.to_be_bytes());
    out
}

fn name_value(filename: &[u8], longname: &[u8], size: u64) -> Name {
    let mut attrs = FileAttr::new();
    attrs.size = Some(size);
    Name { filename: filename.to_vec(), longname: longname.to_vec(), attrs }
}

#[test]
fn a_name_frame_lists_its_names_in_order() {
    let mut body = be32(2);
    body.extend(name_bytes(b"a", b"-rw- a", 1));
    body.extend(name_bytes(b"b", b"-rw- b", 2));
    let bytes = message(104, 3, &body);
    let mut r: &[u8] = &bytes;
    assert_eq!(
        recv(&mut r),
        Ok(SftpResponse {
            req_id: 3,
            packet: SftpResponsePacket::Name(FxpName {
                names: vec![name_value(b"a", b"-rw- a", 1), name_value(b"b", b"-rw- b", 2)],
            }),
        })
    );
}

#[test]
fn a_name_frame_with_fewer_names_than_it_counts_is_cut() {
    let mut body = be32(2);
    body.extend(name_bytes(b"a", b"-rw- a", 1));
    let bytes = message(104, 3, &body);
    let mut r: &[u8] = &bytes;
    assert_eq!(recv(&mut r), Err(Error::UnexpectedEOF));
    assert_eq!(r.len(), bytes.len());
}

#[test]
fn a_name_frame_with_more_bytes_than_names_holds_unexpected_data() {
    let mut body = be32(1);
    body.extend(name_bytes(b"a", b"-rw- a", 1));
    body.extend(name_bytes(b"b", b"-rw- b", 2));
    let bytes = message(104, 3, &body);
    let mut r: &[u8] = &bytes;
    assert_eq!(recv(&mut r), Err(Error::UnexpectedData));
    assert_eq!(r.len(), bytes.len());
}

#[test]
fn names_are_read_by_count() {
    let mut bytes = name_bytes(b"a", b"l", 5);
    bytes.push(1);
    let mut r: &[u8] = &bytes;
    assert_eq!(recv_names(&mut r, 1), Ok(vec![name_value(b"a", b"l", 5)]));
    assert_eq!(r, &[1]);
    let mut r: &[u8] = &bytes;
    assert_eq!(Name::recv(&mut r), Ok(name_value(b"a", b"l", 5)));
    let mut r: &[u8] = &bytes;
    assert_eq!(recv_names(&mut r, 2), Err(Error::UnexpectedEOF));
    assert_eq!(r.len(), bytes.len());
}

#[test]
fn an_attrs_frame() {
    let mut body = be32(0x1);
    body.extend(17u64.to_be_bytes());
    let bytes = message(105, 4, &body);
    let mut r: &[u8] = &bytes;
    let mut attrs = FileAttr::new();
    attrs.size = Some(17);
    assert_eq!(
        recv(&mut r),
        Ok(SftpResponse { req_id: 4, packet: SftpResponsePacket::Attrs(attrs) })
    );
}

#[test]
fn a_message_of_an_unknown_type_is_kept_byte_for_byte() {
    for msg_type in [0u8, 1, 3, 100, 106, 200, 201, 255] {
        let data = vec![0, 255, 1, 254, 2, 0, 0];
        let bytes = message(msg_type, 0x0102_0304, &data);
        let mut r: &[u8] = &bytes;
        assert_eq!(
            recv(&mut r),
            Ok(SftpResponse {
                req_id: 0x0102_0304,
                packet: SftpResponsePacket::Unknown { msg_type, data: data.clone() },
            })
        );
        assert!(r.is_empty());
    }
}

#[test]
fn a_message_of_an_unknown_type_may_be_empty() {
    let bytes = message(200, 5, &[]);
    let mut r: &[u8] = &bytes;
    assert_eq!(
        recv(&mut r),
        Ok(SftpResponse {
            req_id: 5,
            packet: SftpResponsePacket::Unknown { msg_type: 200, data: vec![] },
        })
    );
}

#[test]
fn a_frame_longer_than_its_message_holds_unexpected_data() {
    let mut body = string(b"h");
    body.push(0);
    let bytes = message(102, 1, &body);
    let mut r: &[u8] = &bytes;
    assert_eq!(recv(&mut r), Err(Error::UnexpectedData));
    assert_eq!(r.len(), bytes.len());
}

#[test]
fn a_frame_shorter_than_its_message_is_cut() {
    let bytes = framed(&[102, 0, 0, 0, 1, 0, 0, 0, 5, b'h']);
    let mut r: &[u8] = &bytes;
    assert_eq!(recv(&mut r), Err(Error::UnexpectedEOF));
    let bytes = framed(&[102, 0, 0]);
    let mut r: &[u8] = &bytes;
    assert_eq!(recv(&mut r), Err(Error::UnexpectedEOF));
    let bytes = framed(&[]);
    let mut r: &[u8] = &bytes;
    assert_eq!(recv(&mut r), Err(Error::UnexpectedEOF));
}

#[test]
fn a_stream_that_ends_inside_the_length_is_cut() {
    let mut r: &[u8] = &[0, 0, 0];
    assert_eq!(recv(&mut r), Err(Error::UnexpectedEOF));
    assert_eq!(r.len(), 3);
    let mut r: &[u8] = &[];
    assert_eq!(recv(&mut r), Err(Error::UnexpectedEOF));
}

#[test]
fn a_stream_that_ends_inside_the_frame_fails() {
    // The frame announces 12 bytes, the stream has 10 of them.
    let bytes = [0, 0, 0, 12, 102, 0, 0, 0, 1, 0, 0, 0, 3, b'a'];
    let mut r: &[u8] = &bytes;
    assert_eq!(recv(&mut r), Err(Error::UnexpectedEOF));
    assert_eq!(r.len(), bytes.len());
    // The message is whole, the frame is not.
    let bytes = [0, 0, 0, 12, 102, 0, 0, 0, 1, 0, 0, 0, 1, b'a'];
    let mut r: &[u8] = &bytes;
    assert_eq!(recv(&mut r), Err(Error::UnexpectedData));
    // An unknown type takes what is there, and the frame is still not whole.
    let bytes = [0, 0, 0, 12, 200, 0, 0, 0, 1, 7];
    let mut r: &[u8] = &bytes;
    assert_eq!(recv(&mut r), Err(Error::UnexpectedData));
}

#[test]
fn frames_are_taken_off_a_stream_one_by_one() {
    let mut bytes = message(102, 1, &string(b"h1"));
    bytes.extend(message(103, 2, &string(b"data")));
    let mut r: &[u8] = &bytes;
    assert_eq!(recv(&mut r).unwrap().req_id, 1);
    assert_eq!(
        recv(&mut r),
        Ok(SftpResponse {
            req_id: 2,
            packet: SftpResponsePacket::Data(FxpData { data: b"data".to_vec() }),
        })
    );
    assert!(r.is_empty());
}

#[test]
fn payload_and_packet_are_read_without_the_length() {
    let payload = [103, 0, 0, 0, 9, 0, 0, 0, 1, b'x', 0xaa];
    let mut r: &[u8] = &payload;
    assert_eq!(
        recv_payload(&mut r),
        Ok(SftpResponse {
            req_id: 9,
            packet: SftpResponsePacket::Data(FxpData { data: vec![b'x'] }),
        })
    );
    assert_eq!(r, &[0xaa]);
    let body = [0, 0, 0, 1, b'x'];
    let mut r: &[u8] = &body;
    assert_eq!(
        recv_packet(102, &mut r),
        Ok(SftpResponsePacket::Handle(FxpHandle { handle: vec![b'x'] }))
    );
    let mut r: &[u8] = &body;
    assert_eq!(
        recv_packet(42, &mut r),
        Ok(SftpResponsePacket::Unknown { msg_type: 42, data: body.to_vec() })
    );
    assert!(r.is_empty());
}

#[test]
fn the_length_of_a_frame_is_in_its_first_four_bytes() {
    assert_eq!(frame_length(&[0, 0, 1, 2]), Ok(258));
    assert_eq!(frame_length(&[0, 0, 1, 2, 3, 4]), Ok(258));
    assert_eq!(frame_length(&[0, 0, 1]), Err(Error::UnexpectedEOF));
}
