use robot_core::commands::{Command, SetSpeedParams};
use robot_core::ecc::ECC_LEN;
use robot_core::message::{Message, MessageDeserializeErorr, MAX_MESSAGE_LEN};

#[test]
fn deserialize_test() {
    let msg = Message::Command(42,
                               Command::SetSpeed(SetSpeedParams {
                                   left: -100, right: 42
                               }));
    let serialized = msg.serialize().unwrap();
    let deserialized = Message::deserialize(&serialized[..]).unwrap();
    assert_eq!(deserialized, msg)
}

#[test]
fn deserialize_corrupted_test() {
    let msg = Message::Command(42,
                               Command::SetSpeed(SetSpeedParams {
                                   left: -100, right: 42
                               }));
    let mut serialized = msg.serialize().unwrap();
    for i in 0..5 {
        serialized[i] = 0x0;
    }

    let deserialized = Message::deserialize(&serialized[..]).unwrap();
    assert_eq!(deserialized, msg)
}

#[test]
fn roundtrip_all_variants_test() {
    let messages = [
        Message::Command(0, Command::Stop),
        Message::Command(250, Command::OpenGripper),
        Message::Command(251, Command::CloseGripper),
        Message::Command(65535, Command::LiftGripper),
        Message::Command(65536, Command::LowerGripper),
        Message::Command(u32::MAX, Command::SetSpeed(SetSpeedParams {
            left: i32::MIN,
            right: i32::MAX,
        })),
        Message::Ack(7),
        Message::Done(u32::MAX),
    ];
    for msg in messages {
        let serialized = msg.serialize().unwrap();
        assert!(serialized.len() <= MAX_MESSAGE_LEN);
        assert_eq!(Message::deserialize(&serialized[..]).unwrap(), msg);
    }
}

#[test]
fn serialized_layout_test() {
    // one tag byte, one id byte, eight code bytes
    let serialized = Message::Ack(5).serialize().unwrap();
    assert_eq!(serialized.len(), 2 + ECC_LEN);
    assert_eq!(serialized[0], 1);
    assert_eq!(serialized[1], 5);

    // the code really is a function of the payload: equal payloads give
    // equal blocks, different payloads different code
    let again = Message::Ack(5).serialize().unwrap();
    assert_eq!(serialized, again);
    let other = Message::Ack(6).serialize().unwrap();
    assert_ne!(serialized, other);

    // fixed-width two's complement wheel speeds
    let speeds = Message::Command(
        1,
        Command::SetSpeed(SetSpeedParams { left: -100, right: 42 }),
    )
    .serialize()
    .unwrap();
    assert_eq!(
        &speeds[..speeds.len() - ECC_LEN],
        &[0, 1, 1, 0x9C, 0xFF, 0xFF, 0xFF, 0x2A, 0x00, 0x00, 0x00]
    );
}

#[test]
fn corrupt_four_bytes_anywhere_test() {
    // four corrupted bytes — data or code — always correct
    let msg = Message::Command(123456, Command::SetSpeed(SetSpeedParams {
        left: -1,
        right: 1,
    }));
    let clean = msg.serialize().unwrap();
    for start in 0..clean.len() - 3 {
        let mut corrupted = clean.clone();
        for i in start..start + 4 {
            corrupted[i] ^= 0xA5;
        }
        assert_eq!(Message::deserialize(&corrupted[..]).unwrap(), msg);
    }
}

#[test]
fn deserialize_short_block_test() {
    // fewer bytes than the code itself cannot carry a frame
    let r = Message::deserialize(&[1, 2, 3]);
    assert!(matches!(r, Err(MessageDeserializeErorr::Ecc)));
}

#[test]
fn deserialize_unknown_tag_test() {
    // a clean block whose payload carries an unknown tag is a decode
    // error, not a code error
    let encoded = reed_solomon::Encoder::new(ECC_LEN).encode(&[99, 1]);
    let r = Message::deserialize(&encoded[..]);
    assert!(matches!(r, Err(MessageDeserializeErorr::Decode)));
}

#[test]
fn deserialize_truncated_payload_test() {
    // a SetSpeed command cut off before its speeds does not decode
    let encoded = reed_solomon::Encoder::new(ECC_LEN).encode(&[0, 1, 1, 0x9C]);
    let r = Message::deserialize(&encoded[..]);
    assert!(matches!(r, Err(MessageDeserializeErorr::Decode)));
}
