//! Wire-codec behaviour, exercised through the public encode and decode
//! functions.

use echo::codec::{decode_command, decode_response, DecodeOutcome};
use echo::message::{EchoCommand, EchoResponse};

#[test]
fn round_trip_message() {
    for message in [
        EchoCommand::Hello("foo.socket".to_owned()),
        EchoCommand::Message("Hello World".to_owned()),
        EchoCommand::Goodbye(),
    ] {
        let buff = message.encode();
        let len = buff.len();
        match decode_command(&buff, true) {
            DecodeOutcome::Frame(decoded, consumed) => {
                assert_eq!(message, decoded);
                assert_eq!(len, consumed);
            },
            other => panic!("expected a frame, got {:?}", other),
        }
    }
}

#[test]
fn round_trip_response() {
    for response in [
        EchoResponse::EchoResponse("Hello World".to_owned()),
        EchoResponse::Goodbye(),
        EchoResponse::IdAssigned("id-1".to_owned()),
    ] {
        let buff = response.encode();
        let len = buff.len();
        match decode_response(&buff, true) {
            DecodeOutcome::Frame(decoded, consumed) => {
                assert_eq!(response, decoded);
                assert_eq!(len, consumed);
            },
            other => panic!("expected a frame, got {:?}", other),
        }
    }
}

#[test]
fn frame_layout_exact() {
    // One frame of Message("A"): big-endian length 13, little-endian
    // discriminant 1, little-endian byte count 1, then the byte of "A".
    let bytes = EchoCommand::Message("A".to_owned()).encode();
    assert_eq!(
        bytes,
        vec![0, 0, 0, 0, 0, 0, 0, 13, 1, 0, 0, 0, 1, 0, 0, 0, 0, 0, 0, 0, 65]
    );
}

#[test]
fn truncated_frame() {
    // A prefix announcing five bytes, followed by only two.
    let buff = vec![0, 0, 0, 0, 0, 0, 0, 5, 1, 2];
    assert_eq!(decode_command(&buff, true), DecodeOutcome::FramingError);
    assert_eq!(decode_command(&buff, false), DecodeOutcome::NeedBytes);
    assert_eq!(decode_response(&buff, true), DecodeOutcome::FramingError);
}

#[test]
fn truncated_prefix() {
    // The close arrives inside the length prefix itself.
    let buff = vec![0, 0, 0];
    assert_eq!(decode_command(&buff, true), DecodeOutcome::FramingError);
    assert_eq!(decode_command(&buff, false), DecodeOutcome::NeedBytes);
}

#[test]
fn empty_buffer() {
    let buff: Vec<u8> = Vec::new();
    assert_eq!(decode_command(&buff, true), DecodeOutcome::EndOfStream);
    assert_eq!(decode_command(&buff, false), DecodeOutcome::NeedBytes);
    assert_eq!(decode_response(&buff, true), DecodeOutcome::EndOfStream);
}

#[test]
fn zero_length_frame() {
    // No variant encodes to an empty payload, so a zero prefix is malformed.
    let buff = vec![0, 0, 0, 0, 0, 0, 0, 0];
    assert_eq!(decode_command(&buff, false), DecodeOutcome::FramingError);
    assert_eq!(decode_response(&buff, true), DecodeOutcome::FramingError);
}

#[test]
fn unknown_discriminant() {
    // A whole frame whose payload names no variant.
    let buff = vec![0, 0, 0, 0, 0, 0, 0, 4, 9, 0, 0, 0];
    assert_eq!(decode_command(&buff, false), DecodeOutcome::FramingError);
    assert_eq!(decode_response(&buff, false), DecodeOutcome::FramingError);
}

#[test]
fn wrong_field_length() {
    // The string field's byte count does not cover the rest of the payload.
    let buff = vec![0, 0, 0, 0, 0, 0, 0, 15, 0, 0, 0, 0, 9, 0, 0, 0, 0, 0, 0, 0, 65, 66, 67];
    assert_eq!(decode_command(&buff, true), DecodeOutcome::FramingError);
}

#[test]
fn goodbye_with_trailing_payload() {
    // Goodbye carries no fields; a longer payload is malformed.
    let buff = vec![0, 0, 0, 0, 0, 0, 0, 5, 2, 0, 0, 0, 7];
    assert_eq!(decode_command(&buff, true), DecodeOutcome::FramingError);
}

#[test]
fn ill_formed_utf8_field() {
    // A lone continuation byte is not valid UTF-8.
    let buff = vec![0, 0, 0, 0, 0, 0, 0, 13, 0, 0, 0, 0, 1, 0, 0, 0, 0, 0, 0, 0, 0xbf];
    assert_eq!(decode_command(&buff, true), DecodeOutcome::FramingError);
}

#[test]
fn frame_with_trailing_bytes() {
    // Decoding consumes exactly one frame and leaves the rest alone.
    let mut buff = EchoCommand::Goodbye().encode();
    let frame_len = buff.len();
    buff.extend_from_slice(&[1, 2, 3]);
    match decode_command(&buff, false) {
        DecodeOutcome::Frame(decoded, consumed) => {
            assert_eq!(decoded, EchoCommand::Goodbye());
            assert_eq!(consumed, frame_len);
        },
        other => panic!("expected a frame, got {:?}", other),
    }
}

#[test]
fn non_ascii_payload_round_trip() {
    let message = EchoCommand::Message("héllo ☃".to_owned());
    let buff = message.encode();
    match decode_command(&buff, true) {
        DecodeOutcome::Frame(decoded, _) => assert_eq!(message, decoded),
        other => panic!("expected a frame, got {:?}", other),
    }
}
