//! Tests of the session-bus message parsing and the value model.

use jay_core::dbus::incoming::{
    classify_message, error_reply_name, parse_fixed_header, total_remaining, Incoming, MsgClass,
    Parser, MSG_ERROR, MSG_METHOD_RETURN, MSG_SIGNAL, HDR_INTERFACE, HDR_MEMBER, HDR_PATH,
    HDR_REPLY_SERIAL,
};
use jay_core::dbus::types::{Bool, DbusError, DictEntry, Headers, ObjectPath, Signature, Variant};

fn le32(v: u32) -> [u8; 4] {
    [v as u8, (v >> 8) as u8, (v >> 16) as u8, (v >> 24) as u8]
}

#[test]
fn fixed_header_round_trip() {
    let mut buf = vec![b'l', 4u8, 0u8, 1u8];
    buf.extend_from_slice(&le32(32));
    buf.extend_from_slice(&le32(77));
    buf.extend_from_slice(&le32(120));
    let fh = parse_fixed_header(&buf, true).unwrap();
    assert_eq!(fh.msg_ty, 4);
    assert_eq!(fh.flags, 0);
    assert_eq!(fh.body_len, 32);
    assert_eq!(fh.serial, 77);
    assert_eq!(fh.headers_len, 120);
}

#[test]
fn wrong_endianness_and_protocol_are_refused() {
    let mut buf = vec![b'B', 4u8, 0u8, 1u8];
    buf.extend_from_slice(&[0u8; 12]);
    assert_eq!(parse_fixed_header(&buf, true), Err(DbusError::InvalidEndianess));
    let mut buf = vec![b'l', 4u8, 0u8, 2u8];
    buf.extend_from_slice(&[0u8; 12]);
    assert_eq!(parse_fixed_header(&buf, true), Err(DbusError::InvalidProtocol));
}

#[test]
fn remaining_length_pads_headers_to_eight() {
    assert_eq!(total_remaining(0, 0), 0);
    assert_eq!(total_remaining(1, 0), 8);
    assert_eq!(total_remaining(8, 4), 12);
    assert_eq!(total_remaining(13, 3), 19);
}

fn push_string_header(buf: &mut Vec<u8>, code: u8, ty: u8, text: &[u8]) {
    while buf.len() % 8 != 0 {
        buf.push(0);
    }
    buf.push(code);
    buf.push(1);
    buf.push(ty);
    buf.push(0);
    buf.extend_from_slice(&le32(text.len() as u32));
    buf.extend_from_slice(text);
    buf.push(0);
}

#[test]
fn header_fields_parse_in_any_mix() {
    let mut buf: Vec<u8> = Vec::new();
    push_string_header(&mut buf, HDR_PATH, b'o', b"/org/example/path");
    push_string_header(&mut buf, HDR_INTERFACE, b's', b"org.example.Iface");
    push_string_header(&mut buf, HDR_MEMBER, b's', b"Changed");
    // A reply-serial header: code, one-byte signature "u", padding, word.
    while buf.len() % 8 != 0 {
        buf.push(0);
    }
    buf.push(HDR_REPLY_SERIAL);
    buf.push(1);
    buf.push(b'u');
    buf.push(0);
    buf.extend_from_slice(&le32(4242));
    let incoming = Incoming { fds_available: 0 };
    let headers = incoming.parse_headers(&buf).unwrap();
    assert_eq!(headers.path, Some(ObjectPath(b"/org/example/path".to_vec())));
    assert_eq!(headers.interface, Some(b"org.example.Iface".to_vec()));
    assert_eq!(headers.member, Some(b"Changed".to_vec()));
    assert_eq!(headers.reply_serial, Some(4242));
    assert_eq!(headers.error_name, None);
    assert_eq!(headers.unix_fds, None);
}

#[test]
fn unknown_header_fields_are_skipped() {
    let mut buf: Vec<u8> = Vec::new();
    // An unknown header code carrying a byte value.
    buf.push(200);
    buf.push(1);
    buf.push(b'y');
    buf.push(0);
    buf.push(42);
    push_string_header(&mut buf, HDR_MEMBER, b's', b"Ping");
    let incoming = Incoming { fds_available: 0 };
    let headers = incoming.parse_headers(&buf).unwrap();
    assert_eq!(headers.member, Some(b"Ping".to_vec()));
}

#[test]
fn repeated_header_fields_last_occurrence_wins() {
    let mut buf: Vec<u8> = Vec::new();
    push_string_header(&mut buf, HDR_MEMBER, b's', b"First");
    push_string_header(&mut buf, HDR_MEMBER, b's', b"Second");
    let incoming = Incoming { fds_available: 0 };
    let headers = incoming.parse_headers(&buf).unwrap();
    assert_eq!(headers.member, Some(b"Second".to_vec()));
}

#[test]
fn wrongly_typed_header_field_is_refused() {
    let mut buf: Vec<u8> = Vec::new();
    // The member header must be a string, not a u32.
    buf.push(HDR_MEMBER);
    buf.push(1);
    buf.push(b'u');
    buf.push(0);
    buf.extend_from_slice(&le32(1));
    let incoming = Incoming { fds_available: 0 };
    assert_eq!(incoming.parse_headers(&buf), Err(DbusError::InvalidVariantType));
}

#[test]
fn too_few_descriptors_are_refused() {
    let incoming = Incoming { fds_available: 1 };
    assert!(incoming.check_fds(1).is_ok());
    assert_eq!(incoming.check_fds(2), Err(DbusError::TooFewFds));
}

#[test]
fn message_classification() {
    let empty = || Headers {
        path: None,
        interface: None,
        member: None,
        error_name: None,
        reply_serial: None,
        destination: None,
        sender: None,
        signature: None,
        unix_fds: None,
    };
    let mut h = empty();
    assert_eq!(classify_message(MSG_METHOD_RETURN, &h), Err(DbusError::NoReplySerial));
    h.reply_serial = Some(5);
    assert_eq!(classify_message(MSG_METHOD_RETURN, &h), Ok(MsgClass::Reply { serial: 5 }));
    assert_eq!(classify_message(MSG_ERROR, &h), Ok(MsgClass::ErrorReply { serial: 5 }));
    let mut s = empty();
    assert_eq!(classify_message(MSG_SIGNAL, &s), Err(DbusError::MissingSignalHeaders));
    s.interface = Some(b"i".to_vec());
    s.member = Some(b"m".to_vec());
    s.path = Some(ObjectPath(b"/p".to_vec()));
    assert_eq!(classify_message(MSG_SIGNAL, &s), Ok(MsgClass::Signal));
    assert_eq!(classify_message(1, &empty()), Ok(MsgClass::Other));
}

#[test]
fn variant_extraction_is_typed() {
    assert_eq!(Variant::U32(7).into_u32(), Ok(7));
    assert_eq!(Variant::U8(7).into_u32(), Err(DbusError::InvalidVariantType));
    assert_eq!(Variant::String(b"x".to_vec()).into_string(), Ok(b"x".to_vec()));
    assert_eq!(Variant::U32(7).into_string(), Err(DbusError::InvalidVariantType));
    assert_eq!(
        Variant::ObjectPath(ObjectPath(b"/a".to_vec())).into_object_path(),
        Ok(ObjectPath(b"/a".to_vec()))
    );
    assert_eq!(
        Variant::Signature(Signature(b"su".to_vec())).into_signature(),
        Ok(Signature(b"su".to_vec()))
    );
}

#[test]
fn signatures_of_containers() {
    let mut w: Vec<u8> = Vec::new();
    Variant::Struct(vec![Variant::U32(1), Variant::String(b"x".to_vec())]).write_signature(&mut w);
    assert_eq!(w, b"(us)".to_vec());
    let mut w: Vec<u8> = Vec::new();
    Variant::Array(b"u".to_vec(), vec![]).write_signature(&mut w);
    assert_eq!(w, b"au".to_vec());
    let mut w: Vec<u8> = Vec::new();
    Variant::DictEntry(Box::new(Variant::String(b"k".to_vec())), Box::new(Variant::U64(1)))
        .write_signature(&mut w);
    assert_eq!(w, b"{st}".to_vec());
    let mut w: Vec<u8> = Vec::new();
    Variant::Variant(Box::new(Variant::U8(1))).write_signature(&mut w);
    assert_eq!(w, b"v".to_vec());
}

#[test]
fn dict_entries_pair_key_and_value() {
    let e = DictEntry { key: 7u32, value: b"seven".to_vec() };
    assert_eq!(e.key, 7);
    assert_eq!(e.value, b"seven".to_vec());
}

#[test]
fn descriptor_counting_walks_containers() {
    assert_eq!(Variant::U32(1).num_fds(), 0);
    assert_eq!(Variant::Fd(3).num_fds(), 1);
    let v = Variant::Struct(vec![
        Variant::Fd(3),
        Variant::Array(b"h".to_vec(), vec![Variant::Fd(4), Variant::Fd(5)]),
        Variant::Variant(Box::new(Variant::Fd(6))),
        Variant::DictEntry(Box::new(Variant::U32(1)), Box::new(Variant::Fd(7))),
        Variant::String(b"no fd".to_vec()),
    ]);
    assert_eq!(v.num_fds(), 5);
}

#[test]
fn bool_words_must_be_zero_or_one() {
    assert_eq!(Bool::from_bool(true).0, 1);
    assert_eq!(Bool::from_bool(false).0, 0);
    assert_eq!(Bool(0).to_bool(), Ok(false));
    assert_eq!(Bool(1).to_bool(), Ok(true));
    assert_eq!(Bool(2).to_bool(), Err(DbusError::InvalidBool));
}

#[test]
fn error_replies_need_a_name() {
    let empty = Headers {
        path: None,
        interface: None,
        member: None,
        error_name: None,
        reply_serial: None,
        destination: None,
        sender: None,
        signature: None,
        unix_fds: None,
    };
    assert_eq!(error_reply_name(empty), Err(DbusError::NoErrorName));
    let named = Headers {
        error_name: Some(b"org.example.Error".to_vec()),
        path: None,
        interface: None,
        member: None,
        reply_serial: None,
        destination: None,
        sender: None,
        signature: None,
        unix_fds: None,
    };
    assert_eq!(error_reply_name(named), Ok(b"org.example.Error".to_vec()));
}

#[test]
fn truncated_values_are_refused() {
    // A string whose length prefix runs past the message.
    let mut p = Parser::new(&[9, 0, 0, 0, 1]);
    assert_eq!(p.read_string(), Err(DbusError::UnexpectedEof));
    // A string without its terminating zero byte.
    let mut p = Parser::new(&[1, 0, 0, 0, b'a', 7]);
    assert_eq!(p.read_string(), Err(DbusError::InvalidLength));
}

#[test]
fn parser_respects_alignment() {
    let buf = [1u8, 0, 0, 0, 9, 0, 0, 0];
    let mut p = Parser::new(&buf);
    assert_eq!(p.read_u8(), Ok(1));
    // The next 32-bit read pads to the four-byte boundary first.
    assert_eq!(p.read_u32(), Ok(9));
    assert!(p.eof());
}
