//! Tests of the JDWP framing, reply parsing, handshake and the client core's
//! request/reply correlation.

use xjvmdbg::client::reply_outcome;
use xjvmdbg::client::JdwpClientCore;
use xjvmdbg::errors::Error;
use xjvmdbg::jdwp::handshake_bytes;
use xjvmdbg::jdwp::verify_handshake;
use xjvmdbg::jdwp::AllClassesReply;
use xjvmdbg::jdwp::Command;
use xjvmdbg::jdwp::CommandPacketHeader;
use xjvmdbg::jdwp::IdSizesReply;
use xjvmdbg::jdwp::JdwpString;
use xjvmdbg::jdwp::ReplyPacketHeader;
use xjvmdbg::jdwp::TypeTag;
use xjvmdbg::jdwp::VariableLengthId;
use xjvmdbg::jdwp::VersionReply;

#[test]
fn test_deserialize_vm_version_command() {
    let data = vec![1u8, 1u8];
    let raw = xjvmdbg::codec::read_u16_at(&data, 0).unwrap();
    let value = Command::from_value(raw).unwrap();
    assert_eq!(value, Command::VirtualMachineVersion);
}

#[test]
fn test_read_jdwp_string_empty() {
    let data = vec![0u8, 0u8, 0u8, 0u8];
    let (value, end) = JdwpString::read(&data, 0).unwrap();
    assert!(value.string.is_empty());
    assert_eq!(end, 4);
}

#[test]
fn test_read_jdwp_string() {
    let data = vec![0u8, 0u8, 0u8, 4u8, 74u8, 68u8, 87u8, 80u8];
    let (value, end) = JdwpString::read(&data, 0).unwrap();
    assert_eq!(value.string, "JDWP");
    assert_eq!(end, 8);
}

#[test]
fn test_write_jdwp_string() {
    let value = JdwpString { string: String::from("JDWP") };
    let buffer = value.write();
    let expected = [0u8, 0u8, 0u8, 4u8, 74u8, 68u8, 87u8, 80u8];
    assert_eq!(buffer, expected);
}

#[test]
fn test_write_jdwp_string_empty() {
    let value = JdwpString { string: String::from("") };
    let buffer = value.write();
    let expected = [0u8, 0u8, 0u8, 0u8];
    assert_eq!(buffer, expected);
}

#[test]
fn handshake_bytes_are_ascii_jdwp_handshake() {
    let b = handshake_bytes();
    assert_eq!(b, b"JDWP-Handshake".to_vec());
    assert!(verify_handshake(&b).is_ok());
}

#[test]
fn handshake_mismatch_is_fatal() {
    let reply = b"JDWP-NOPESORRY".to_vec();
    let r = verify_handshake(&reply);
    assert_eq!(r, Err(Error::HandshakeMismatch));
    let short = b"JDWP".to_vec();
    assert_eq!(verify_handshake(&short), Err(Error::HandshakeMismatch));
}

#[test]
fn command_header_serializes_big_endian() {
    let h = CommandPacketHeader {
        length: 11,
        id: 0x01020304,
        flags: 0,
        command: Command::VirtualMachineIDSizes,
    };
    let bytes = h.to_bytes();
    assert_eq!(bytes, vec![0, 0, 0, 11, 1, 2, 3, 4, 0, 1, 7]);
    assert_eq!(CommandPacketHeader::get_length(), 11);
}

#[test]
fn reply_header_reads_big_endian() {
    let data = vec![0u8, 0, 0, 13, 0, 0, 0, 7, 0x80, 0, 21, 0xEE, 0xFF];
    let (h, end) = ReplyPacketHeader::read(&data, 0).unwrap();
    assert_eq!(end, 11);
    assert_eq!(h.length, 13);
    assert_eq!(h.id, 7);
    assert_eq!(h.flags, 0x80);
    assert_eq!(h.error_code, 21);
    assert!(!h.is_success());
    assert_eq!(reply_outcome(&h), Err(Error::ProtocolError(21)));
    let ok = ReplyPacketHeader { error_code: 0, ..h };
    assert!(ok.is_success());
    assert_eq!(reply_outcome(&ok), Ok(()));
}

#[test]
fn variable_length_id_widths() {
    let data = vec![0x01u8, 0x02, 0x03, 0x04, 0x05, 0x06, 0x07, 0x08];
    let (v1, e1) = VariableLengthId::read(&data, 0, 1).unwrap();
    assert_eq!((v1.value, e1), (0x01, 1));
    let (v2, e2) = VariableLengthId::read(&data, 0, 2).unwrap();
    assert_eq!((v2.value, e2), (0x0102, 2));
    let (v4, e4) = VariableLengthId::read(&data, 0, 4).unwrap();
    assert_eq!((v4.value, e4), (0x01020304, 4));
    let (v8, e8) = VariableLengthId::read(&data, 0, 8).unwrap();
    assert_eq!((v8.value, e8), (0x0102030405060708, 8));
    assert!(VariableLengthId::read(&data, 0, 3).is_err());
    assert!(VariableLengthId::read(&data, 4, 8).is_err());
}

#[test]
fn version_reply_parses() {
    let mut body: Vec<u8> = vec![];
    body.extend_from_slice(&[0, 0, 0, 2]); // description "hi"
    body.extend_from_slice(b"hi");
    body.extend_from_slice(&[0, 0, 0, 1]); // jdwp_major = 1
    body.extend_from_slice(&[0, 0, 0, 8]); // jdwp_minor = 8
    body.extend_from_slice(&[0, 0, 0, 3]); // vm_version "1.8"
    body.extend_from_slice(b"1.8");
    body.extend_from_slice(&[0, 0, 0, 2]); // vm_name "vm"
    body.extend_from_slice(b"vm");
    let v = VersionReply::read(&body).unwrap();
    assert_eq!(v.description.string, "hi");
    assert_eq!(v.jdwp_major, 1);
    assert_eq!(v.jdwp_minor, 8);
    assert_eq!(v.vm_version.string, "1.8");
    assert_eq!(v.vm_name.string, "vm");
    assert!(VersionReply::read(&vec![0, 0, 0, 9]).is_err());
}

#[test]
fn id_sizes_reply_parses() {
    let mut body: Vec<u8> = vec![];
    for v in [8i32, 8, 8, 8, 8] {
        body.extend_from_slice(&v.to_be_bytes());
    }
    let r = IdSizesReply::read(&body).unwrap();
    assert_eq!(r.reference_type_id_size, 8);
    assert!(IdSizesReply::read(&vec![0u8; 19]).is_err());
}

#[test]
fn size_dependent_command_before_bootstrap() {
    // AllClasses before IDSizes yields IdSizesUnknown; after a successful
    // IDSizes with 8-byte reference ids the same body parses.
    let mut core = JdwpClientCore::new();
    let mut body: Vec<u8> = vec![0, 0, 0, 1]; // one class
    body.push(1); // TypeTag::Class
    body.extend_from_slice(&[0, 0, 0, 0, 0, 0, 0, 42]); // 8-byte type id
    body.extend_from_slice(&[0, 0, 0, 20]); // signature length
    body.extend_from_slice(b"Ljava/lang/Object;xx"); // 20 bytes
    body.extend_from_slice(&[0, 0, 0, 7]); // status
    let before = core.parse_all_classes(&body);
    assert_eq!(before, Err(Error::IdSizesUnknown));

    let reply = IdSizesReply {
        field_id_size: 8,
        method_id_size: 8,
        object_id_size: 8,
        reference_type_id_size: 8,
        frame_id_size: 8,
    };
    core.accept_id_sizes(&reply).unwrap();
    let after: AllClassesReply = core.parse_all_classes(&body).unwrap();
    assert_eq!(after.classes.len(), 1);
    assert_eq!(after.classes[0].ref_type_tag, TypeTag::Class);
    assert_eq!(after.classes[0].type_id.value, 42);
    assert_eq!(after.classes[0].signature.string, "Ljava/lang/Object;xx");
    assert_eq!(after.classes[0].status.bits(), 7);
}

#[test]
fn id_sizes_outside_supported_widths_are_rejected() {
    let mut core = JdwpClientCore::new();
    let reply = IdSizesReply {
        field_id_size: 8,
        method_id_size: 3,
        object_id_size: 8,
        reference_type_id_size: 8,
        frame_id_size: 8,
    };
    assert_eq!(core.accept_id_sizes(&reply), Err(Error::IdSizesTruncated));
    assert_eq!(core.parse_all_classes(&vec![0, 0, 0, 0]), Err(Error::IdSizesUnknown));
}

#[test]
fn concurrent_sends_get_distinct_ids_and_single_delivery() {
    // Three requests in flight: each gets a unique id; a reply is routed to
    // its id once, and a duplicate reply for the same id is dropped.
    let mut core = JdwpClientCore::new();
    let (id1, h1) = core.begin_send(Command::VirtualMachineVersion, 0);
    let (id2, h2) = core.begin_send(Command::VirtualMachineIDSizes, 0);
    let (id3, _h3) = core.begin_send(Command::VirtualMachineAllClasses, 4);
    assert!(id1 != id2 && id2 != id3 && id1 != id3);
    assert_eq!(h1.id, id1);
    assert_eq!(h1.length, 11);
    assert_eq!(h2.command, Command::VirtualMachineIDSizes);
    assert!(core.is_pending(id1) && core.is_pending(id2) && core.is_pending(id3));

    // Replies arrive out of order and are matched solely by id.
    assert!(core.on_reply(id2));
    assert!(!core.is_pending(id2));
    assert!(core.is_pending(id1) && core.is_pending(id3));
    // A duplicate reply for id2 is dropped: the id was removed first.
    assert!(!core.on_reply(id2));

    // A timed-out request is removed, so its late reply is dropped too.
    core.timeout_request(id1);
    assert!(!core.on_reply(id1));
    assert!(core.on_reply(id3));
    // A reply for an id never issued is dropped.
    assert!(!core.on_reply(0xDEAD));
}

#[test]
fn reader_failure_clears_all_waiters() {
    let mut core = JdwpClientCore::new();
    let (id1, _) = core.begin_send(Command::VirtualMachineVersion, 0);
    let (id2, _) = core.begin_send(Command::VirtualMachineVersion, 0);
    core.reader_failed();
    assert!(core.closed);
    assert!(!core.is_pending(id1) && !core.is_pending(id2));
}
