use felis::envelope::{Command, Echo, Flag, OpenInHelix, Response};
use felis::wire::{WireRead, WireReadError, WireWrite};

fn encode<T: WireWrite>(v: &T) -> Vec<u8> {
    let mut buf = Vec::new();
    v.write(&mut buf);
    buf
}

fn decode<T: WireRead>(bytes: &[u8]) -> Result<(T, usize), WireReadError> {
    T::read(bytes, 0)
}

#[test]
fn test_u8_write() {
    assert_eq!(encode(&232u8), vec![232u8]);
}

#[test]
fn test_u8_read() {
    let buf = [232u8];
    assert_eq!(decode::<u8>(&buf).unwrap(), (232u8, 1));
}

#[test]
fn test_u16_write() {
    assert_eq!(encode(&232u16), 232u16.to_be_bytes().to_vec());
}

#[test]
fn test_u16_read() {
    let buf = 232u16.to_be_bytes();
    assert_eq!(decode::<u16>(&buf).unwrap().0, 232u16);
}

#[test]
fn test_u32_write() {
    assert_eq!(encode(&232u32), 232u32.to_be_bytes().to_vec());
}

#[test]
fn test_u32_read() {
    let buf = 232u32.to_be_bytes();
    assert_eq!(decode::<u32>(&buf).unwrap().0, 232u32);
}

#[test]
fn test_u64_write() {
    assert_eq!(encode(&232u64), 232u64.to_be_bytes().to_vec());
}

#[test]
fn test_u64_read() {
    let buf = 232u64.to_be_bytes();
    assert_eq!(decode::<u64>(&buf).unwrap().0, 232u64);
}

#[test]
fn big_endian_order_of_wide_integers() {
    assert_eq!(encode(&0x0102_0304u32), vec![1, 2, 3, 4]);
    assert_eq!(encode(&0x0102u16), vec![1, 2]);
    assert_eq!(decode::<u64>(&[0, 0, 0, 0, 0, 0, 1, 2]).unwrap(), (258u64, 8));
    assert_eq!(decode::<u64>(&u64::MAX.to_be_bytes()).unwrap().0, u64::MAX);
}

#[test]
fn test_none_write() {
    assert_eq!(encode(&Option::<String>::None), vec![0u8]);
}

#[test]
fn test_none_read() {
    let buf = vec![0u8];
    assert_eq!(decode::<Option<String>>(&buf).unwrap().0, None);
}

#[test]
fn test_some_t_write() {
    let str = "lorem ipsum";
    let mut expected = vec![1u8];
    expected.extend_from_slice(&(str.len() as u64).to_be_bytes());
    expected.extend_from_slice(str.as_bytes());
    assert_eq!(encode(&Some(str.to_string())), expected);
}

#[test]
fn test_some_t_read() {
    let str = "lorem ipsum";
    let mut buf = vec![1u8];
    buf.extend_from_slice(&(str.len() as u64).to_be_bytes());
    buf.extend_from_slice(str.as_bytes());
    assert_eq!(decode::<Option<String>>(&buf).unwrap(), (Some(str.to_string()), buf.len()));
}

const LOREM: &str = "Lorem ipsum dolor sit amet, consectetur adipiscing elit, sed do eiusmod tempor incididunt ut labore et dolore magna aliqua.";

#[test]
fn lib_test_string_wire_format_to_bytes() {
    let mut bytes = (LOREM.as_bytes().len() as u64).to_be_bytes().to_vec();
    bytes.extend_from_slice(LOREM.as_bytes());
    assert_eq!(encode(&String::from(LOREM)), bytes);
}

#[test]
fn lib_test_string_wire_format_from_bytes() {
    let mut bytes = (LOREM.as_bytes().len() as u64).to_be_bytes().to_vec();
    bytes.extend_from_slice(LOREM.as_bytes());
    assert_eq!(decode::<String>(&bytes).unwrap().0, String::from(LOREM));
}

#[test]
fn string_length_prefix_counts_bytes_not_chars() {
    let text = "test message! \u{1F980}";
    let bytes = encode(&text.to_string());
    assert_eq!(&bytes[..8], &18u64.to_be_bytes());
    assert_eq!(&bytes[8..], "test message! \u{1F980}".as_bytes());
    assert_eq!(decode::<String>(&bytes).unwrap(), (text.to_string(), 26));
}

#[test]
fn empty_string_and_sequence_round_trip() {
    let empty = encode(&String::new());
    assert_eq!(empty, vec![0u8; 8]);
    assert_eq!(decode::<String>(&empty).unwrap(), (String::new(), 8));
    let none: Vec<u32> = Vec::new();
    let bytes = encode(&none);
    assert_eq!(bytes, vec![0u8; 8]);
    assert_eq!(decode::<Vec<u32>>(&bytes).unwrap(), (none, 8));
}

#[test]
fn sequence_is_count_then_elements() {
    let v: Vec<u16> = vec![1, 2, 0x0304];
    let bytes = encode(&v);
    assert_eq!(bytes, vec![0, 0, 0, 0, 0, 0, 0, 3, 0, 1, 0, 2, 3, 4]);
    assert_eq!(decode::<Vec<u16>>(&bytes).unwrap(), (v, 14));
}

#[test]
fn nested_sequences_round_trip() {
    let v: Vec<Option<String>> = vec![Some("a".to_string()), None, Some(String::new())];
    let bytes = encode(&v);
    assert_eq!(decode::<Vec<Option<String>>>(&bytes).unwrap(), (v, bytes.len()));
}

#[test]
fn decoding_leaves_following_bytes() {
    let mut bytes = encode(&7u32);
    bytes.extend_from_slice(&[9, 9, 9]);
    assert_eq!(decode::<u32>(&bytes).unwrap(), (7u32, 4));
    assert_eq!(u8::read(&bytes, 4).unwrap(), (9u8, 5));
}

#[test]
fn truncated_input_is_reported() {
    assert_eq!(decode::<u32>(&[1, 2, 3]), Err(WireReadError::Truncated));
    assert_eq!(decode::<u8>(&[]), Err(WireReadError::Truncated));
    let mut bytes = encode(&"hello".to_string());
    bytes.pop();
    assert_eq!(decode::<String>(&bytes), Err(WireReadError::Truncated));
    let mut seq = encode(&vec![1u32, 2u32]);
    seq.truncate(10);
    assert_eq!(decode::<Vec<u32>>(&seq), Err(WireReadError::Truncated));
    assert!(!WireReadError::Truncated.is_invalid_encoding());
}

#[test]
fn invalid_utf8_is_reported() {
    let mut bytes = 2u64.to_be_bytes().to_vec();
    bytes.extend_from_slice(&[0xC3, 0x28]);
    let err = decode::<String>(&bytes).unwrap_err();
    assert_eq!(err, WireReadError::InvalidUtf8);
    assert!(err.is_invalid_encoding());
}

#[test]
fn invalid_option_discriminant_names_the_byte() {
    assert_eq!(
        decode::<Option<u8>>(&[2, 5]),
        Err(WireReadError::InvalidDiscriminant(2))
    );
    assert_eq!(decode::<Option<u8>>(&[1]), Err(WireReadError::Truncated));
}

#[test]
fn test_enum_unit_write() {
    assert_eq!(encode(&Command::Shutdown), 0u64.to_be_bytes().to_vec());
}

#[test]
fn test_enum_unit_read() {
    let buf = 0u64.to_be_bytes();
    assert_eq!(decode::<Command>(&buf).unwrap(), (Command::Shutdown, 8));
}

#[test]
fn commands_round_trip() {
    let commands = vec![
        Command::Shutdown,
        Command::Echo(Echo { message: "hello".to_string() }),
        Command::Echo(Echo { message: String::new() }),
        Command::GetActiveFocusedWindow,
        Command::OpenInHelix(OpenInHelix {
            path: "/path/to/felis/src/lib.rs".to_string(),
            kitty_tab_id: Some(3),
            flag: Some(Flag::DryRun),
        }),
        Command::OpenInHelix(OpenInHelix {
            path: String::new(),
            kitty_tab_id: None,
            flag: None,
        }),
    ];
    for (ordinal, cmd) in commands.iter().enumerate() {
        let bytes = encode(cmd);
        let expected_ordinal = [0u64, 1, 1, 2, 3, 3][ordinal];
        assert_eq!(&bytes[..8], &expected_ordinal.to_be_bytes());
        assert_eq!(decode::<Command>(&bytes).unwrap(), (cmd.clone(), bytes.len()));
    }
}

#[test]
fn open_in_helix_record_layout() {
    let cmd = OpenInHelix {
        path: "a".to_string(),
        kitty_tab_id: Some(0x0102),
        flag: Some(Flag::DryRun),
    };
    let mut expected = 1u64.to_be_bytes().to_vec();
    expected.push(b'a');
    expected.extend_from_slice(&[1, 0, 0, 1, 2]);
    expected.push(1);
    expected.extend_from_slice(&1u64.to_be_bytes());
    assert_eq!(encode(&cmd), expected);
}

#[test]
fn responses_round_trip() {
    for (ordinal, resp) in [
        Response::Ack,
        Response::Message("hello".to_string()),
        Response::WindowId(42),
    ]
    .iter()
    .enumerate()
    {
        let bytes = encode(resp);
        assert_eq!(&bytes[..8], &(ordinal as u64).to_be_bytes());
        assert_eq!(decode::<Response>(&bytes).unwrap(), (resp.clone(), bytes.len()));
    }
}

#[test]
fn flags_encode_as_ordinals() {
    assert_eq!(encode(&Flag::NoOp), 0u64.to_be_bytes().to_vec());
    assert_eq!(encode(&Flag::DryRun), 1u64.to_be_bytes().to_vec());
    assert_eq!(
        decode::<Flag>(&2u64.to_be_bytes()),
        Err(WireReadError::InvalidOrdinal(2))
    );
}

#[test]
fn malformed_ordinal_is_invalid_encoding() {
    let bytes = 9999u64.to_be_bytes();
    let err = decode::<Command>(&bytes).unwrap_err();
    assert_eq!(err, WireReadError::InvalidOrdinal(9999));
    assert!(err.is_invalid_encoding());
    assert_eq!(
        decode::<Response>(&3u64.to_be_bytes()),
        Err(WireReadError::InvalidOrdinal(3))
    );
}

#[test]
fn signed_integers_are_twos_complement() {
    assert_eq!(encode(&-1i32), vec![0xff, 0xff, 0xff, 0xff]);
    assert_eq!(encode(&-2i16), vec![0xff, 0xfe]);
    assert_eq!(encode(&-128i8), vec![0x80]);
    assert_eq!(encode(&i64::MIN), i64::MIN.to_be_bytes().to_vec());
    assert_eq!(decode::<i32>(&[0xff, 0xff, 0xff, 0xfe]).unwrap(), (-2i32, 4));
    assert_eq!(decode::<i8>(&[0x7f]).unwrap().0, 127i8);
    for v in [i64::MIN, -1, 0, 1, i64::MAX] {
        assert_eq!(decode::<i64>(&encode(&v)).unwrap(), (v, 8));
    }
    assert_eq!(decode::<i16>(&[0x80]), Err(WireReadError::Truncated));
}

#[test]
fn wide_integers_round_trip() {
    assert_eq!(encode(&1u128), 1u128.to_be_bytes().to_vec());
    assert_eq!(encode(&-1i128), vec![0xff; 16]);
    for v in [0u128, 1, u128::MAX, 0x0102_0304_0506_0708_090a_0b0c_0d0e_0f10] {
        assert_eq!(decode::<u128>(&encode(&v)).unwrap(), (v, 16));
    }
    for v in [i128::MIN, -5, 0, i128::MAX] {
        assert_eq!(decode::<i128>(&encode(&v)).unwrap(), (v, 16));
    }
    assert_eq!(decode::<u128>(&[0; 15]), Err(WireReadError::Truncated));
}
