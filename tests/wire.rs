use wayland_client::codec::{
    check_frame, decode_args, decode_header, decode_message, encode_args, encode_message, type_matches,
    ArgValue, DecodeError, EncodeError, Header,
};
use wayland_client::fixed::Fixed;
use wayland_client::schema::ArgType;

fn s(x: &str) -> String {
    x.to_string()
}

fn round_trip(sig: Vec<ArgType>, vals: Vec<ArgValue>) {
    let (bytes, fds) = encode_args(&sig, &vals).unwrap();
    assert_eq!(bytes.len() % 4, 0);
    let (back, used) = decode_args(&bytes, &sig, &fds).unwrap();
    assert_eq!(back, vals);
    assert_eq!(used, fds.len());
}

#[test]
fn every_type_round_trips() {
    round_trip(vec![ArgType::Int], vec![ArgValue::Int(-5)]);
    round_trip(vec![ArgType::UInt], vec![ArgValue::UInt(0xdead_beef)]);
    round_trip(vec![ArgType::Enum(s("e"))], vec![ArgValue::UInt(7)]);
    round_trip(vec![ArgType::Fixed], vec![ArgValue::Fixed(Fixed::from_bits(-3200))]);
    round_trip(vec![ArgType::Object(s("o"))], vec![ArgValue::Object(0)]);
    round_trip(vec![ArgType::NewId(s("o"))], vec![ArgValue::NewId(9)]);
    round_trip(
        vec![ArgType::UnspecifiedNewId],
        vec![ArgValue::UnspecifiedNewId { interface: b"wl_seat".to_vec(), version: 7, id: 12 }],
    );
    round_trip(vec![ArgType::Fd, ArgType::Fd], vec![ArgValue::Fd(4), ArgValue::Fd(9)]);
    round_trip(vec![ArgType::String], vec![ArgValue::Str(None)]);
}

#[test]
fn strings_and_arrays_round_trip_at_every_padding() {
    for n in 0..8usize {
        let content: Vec<u8> = (0..n).map(|i| b'a' + i as u8).collect();
        round_trip(vec![ArgType::String, ArgType::UInt], vec![ArgValue::Str(Some(content.clone())), ArgValue::UInt(1)]);
        round_trip(vec![ArgType::Array, ArgType::Int], vec![ArgValue::Array(content.clone()), ArgValue::Int(-1)]);
    }
}

#[test]
fn string_layout() {
    let (bytes, _) = encode_args(&vec![ArgType::String], &vec![ArgValue::Str(Some(b"abc".to_vec()))]).unwrap();
    assert_eq!(bytes, vec![4, 0, 0, 0, b'a', b'b', b'c', 0]);
    let (bytes, _) = encode_args(&vec![ArgType::String], &vec![ArgValue::Str(Some(b"abcd".to_vec()))]).unwrap();
    assert_eq!(bytes, vec![5, 0, 0, 0, b'a', b'b', b'c', b'd', 0, 0, 0, 0]);
    let (bytes, _) = encode_args(&vec![ArgType::Array], &vec![ArgValue::Array(vec![1, 2])]).unwrap();
    assert_eq!(bytes, vec![2, 0, 0, 0, 1, 2, 0, 0]);
}

#[test]
fn descriptors_travel_beside_the_bytes_in_order() {
    let sig = vec![ArgType::Fd, ArgType::UInt, ArgType::Fd];
    let vals = vec![ArgValue::Fd(10), ArgValue::UInt(3), ArgValue::Fd(11)];
    let (bytes, fds) = encode_args(&sig, &vals).unwrap();
    assert_eq!(bytes, vec![3, 0, 0, 0]);
    assert_eq!(fds, vec![10, 11]);
    assert_eq!(decode_args(&bytes, &sig, &[10]), Err(DecodeError::MissingFd));
}

#[test]
fn mismatched_values_are_refused() {
    assert_eq!(encode_args(&vec![ArgType::Int], &vec![ArgValue::UInt(1)]), Err(EncodeError::Mismatch));
    assert_eq!(encode_args(&vec![ArgType::Int], &vec![]), Err(EncodeError::Mismatch));
    assert!(type_matches(&ArgType::Enum(s("x")), &ArgValue::UInt(1)));
    assert!(!type_matches(&ArgType::Enum(s("x")), &ArgValue::Int(1)));
}

#[test]
fn malformed_bodies_are_refused() {
    assert_eq!(decode_args(&[1, 0], &[ArgType::UInt], &[]), Err(DecodeError::Truncated));
    assert_eq!(decode_args(&[1, 0, 0, 0, 5, 0, 0, 0], &[ArgType::UInt], &[]), Err(DecodeError::TrailingBytes));
    assert_eq!(decode_args(&[2, 0, 0, 0, b'a', b'b', 0, 0], &[ArgType::String], &[]), Err(DecodeError::BadString));
    assert_eq!(decode_args(&[9, 0, 0, 0, b'a', 0, 0, 0], &[ArgType::String], &[]), Err(DecodeError::Truncated));
    assert_eq!(decode_args(&[0, 0, 0, 0, 1, 0, 0, 0, 1, 0, 0, 0], &[ArgType::UnspecifiedNewId], &[]), Err(DecodeError::BadString));
}

#[test]
fn header_layout() {
    let (msg, fds) = encode_message(7, 3, &[ArgType::UInt], &[ArgValue::UInt(0x0102_0304)]).unwrap();
    assert!(fds.is_empty());
    assert_eq!(msg, vec![7, 0, 0, 0, 3, 0, 12, 0, 4, 3, 2, 1]);
    assert_eq!(decode_header(&msg), Some(Header { object_id: 7, opcode: 3, size: 12 }));
    assert_eq!(decode_header(&msg[..7]), None);
    let (vals, used) = decode_message(&msg, &[ArgType::UInt], &[]).unwrap();
    assert_eq!(vals, vec![ArgValue::UInt(0x0102_0304)]);
    assert_eq!(used, 0);
}

#[test]
fn declared_length_must_match_signature() {
    // Two fixed-size arguments need 16 bytes in all; the header claims 12.
    let msg = vec![7, 0, 0, 0, 0, 0, 12, 0, 1, 0, 0, 0];
    assert_eq!(decode_message(&msg, &[ArgType::UInt, ArgType::UInt], &[]), Err(DecodeError::BadFrame));
    assert!(!check_frame(12, &[ArgType::UInt, ArgType::UInt]));
    assert!(check_frame(16, &[ArgType::UInt, ArgType::UInt]));
    assert!(!check_frame(20, &[ArgType::UInt, ArgType::UInt]));
    assert!(check_frame(20, &[ArgType::UInt, ArgType::String]));
    assert!(!check_frame(14, &[ArgType::String]));
    assert!(!check_frame(4, &[]));
    assert!(check_frame(8, &[ArgType::Fd]));
    // A header whose length differs from the bytes handed in.
    let short = vec![7, 0, 0, 0, 0, 0, 16, 0, 1, 0, 0, 0];
    assert_eq!(decode_message(&short, &[ArgType::UInt], &[]), Err(DecodeError::BadFrame));
}

#[test]
fn oversized_messages_are_refused() {
    let big = vec![0u8; 70_000];
    assert_eq!(encode_message(1, 0, &[ArgType::Array], &[ArgValue::Array(big)]), Err(EncodeError::TooLarge));
}
