use afe::{AfeBuilder, AfeError, AfeFile};

fn sample() -> AfeFile {
    AfeFile {
        version: 1,
        app_name: "App".to_string(),
        app_version: "1.0".to_string(),
        lua_script: "x = 1\n".to_string(),
        permissions: "rwxr-xr-x".to_string(),
        using: "demo".to_string(),
    }
}

fn sample_bytes() -> Vec<u8> {
    let mut bytes: Vec<u8> = vec![1];
    bytes.push(3);
    bytes.extend_from_slice(b"App");
    bytes.push(3);
    bytes.extend_from_slice(b"1.0");
    bytes.push(6);
    bytes.extend_from_slice(b"x = 1\n");
    bytes.push(9);
    bytes.extend_from_slice(b"rwxr-xr-x");
    bytes.push(4);
    bytes.extend_from_slice(b"demo");
    bytes
}

fn with_script(script: String) -> AfeFile {
    AfeFile { lua_script: script, ..sample() }
}

#[test]
fn encoding_is_version_then_length_prefixed_texts() {
    assert_eq!(sample().encode(), Ok(sample_bytes()));
}

#[test]
fn decoding_reads_the_same_layout() {
    assert_eq!(AfeFile::decode(&sample_bytes()), Ok(sample()));
}

#[test]
fn encoding_agrees_with_bincode_on_the_tuple_of_fields() {
    let file = AfeFile {
        version: 1,
        app_name: "Gr\u{fc}\u{df}e".to_string(),
        app_version: "0.0.1-\u{3b1}".to_string(),
        lua_script: "print('\u{1f600}')\n".repeat(40),
        permissions: "rw-------".to_string(),
        using: String::new(),
    };
    let expected = bincode::encode_to_vec(
        (
            file.version,
            &file.app_name,
            &file.app_version,
            &file.lua_script,
            &file.permissions,
            &file.using,
        ),
        bincode::config::standard(),
    )
    .unwrap();
    assert_eq!(file.encode(), Ok(expected));
}

#[test]
fn bincode_reads_back_what_encode_wrote() {
    let file = with_script("a".repeat(300));
    let bytes = file.encode().unwrap();
    let ((version, app_name, app_version, lua_script, permissions, using), read): (
        (u32, String, String, String, String, String),
        usize,
    ) = bincode::decode_from_slice(&bytes, bincode::config::standard()).unwrap();
    assert_eq!(read, bytes.len());
    assert_eq!(
        AfeFile { version, app_name, app_version, lua_script, permissions, using },
        file
    );
}

#[test]
fn round_trip_of_a_plain_container() {
    let file = sample();
    assert_eq!(AfeFile::decode(&file.encode().unwrap()), Ok(file));
}

#[test]
fn round_trip_with_every_text_empty() {
    let file = AfeFile {
        version: 1,
        app_name: String::new(),
        app_version: String::new(),
        lua_script: String::new(),
        permissions: String::new(),
        using: String::new(),
    };
    let bytes = file.encode().unwrap();
    assert_eq!(bytes, vec![1, 0, 0, 0, 0, 0]);
    assert_eq!(AfeFile::decode(&bytes), Ok(file));
}

#[test]
fn round_trip_with_an_empty_script() {
    let file = with_script(String::new());
    assert_eq!(AfeFile::decode(&file.encode().unwrap()), Ok(file));
}

#[test]
fn round_trip_keeps_text_outside_ascii() {
    let file = AfeFile {
        version: 1,
        app_name: "\u{e9}t\u{e9}".to_string(),
        app_version: "\u{4e00}.\u{4e8c}".to_string(),
        lua_script: "s = '\u{1f600} \u{0} \u{7f} \u{80} \u{7ff} \u{800} \u{ffff} \u{10000} \u{10ffff}'\n"
            .to_string(),
        permissions: "rwxr-xr-x".to_string(),
        using: "\u{3b4}".to_string(),
    };
    assert_eq!(AfeFile::decode(&file.encode().unwrap()), Ok(file));
}

#[test]
fn length_of_250_bytes_takes_one_byte() {
    let file = with_script("a".repeat(250));
    let bytes = file.encode().unwrap();
    // version, two texts of three bytes, then the script
    assert_eq!(bytes[9], 250);
    assert_eq!(bytes[10], b'a');
    assert_eq!(bytes.len(), sample_bytes().len() - 6 + 250);
    assert_eq!(AfeFile::decode(&bytes), Ok(file));
}

#[test]
fn length_of_251_bytes_takes_marker_and_two_bytes() {
    let file = with_script("a".repeat(251));
    let bytes = file.encode().unwrap();
    assert_eq!(&bytes[9..12], &[251, 251, 0]);
    assert_eq!(bytes[12], b'a');
    assert_eq!(AfeFile::decode(&bytes), Ok(file));
}

#[test]
fn length_of_65535_bytes_takes_marker_and_two_bytes() {
    let file = with_script("b".repeat(65535));
    let bytes = file.encode().unwrap();
    assert_eq!(&bytes[9..12], &[251, 255, 255]);
    assert_eq!(AfeFile::decode(&bytes), Ok(file));
}

#[test]
fn length_of_65536_bytes_takes_marker_and_four_bytes() {
    let file = with_script("c".repeat(65536));
    let bytes = file.encode().unwrap();
    assert_eq!(&bytes[9..14], &[252, 0, 0, 1, 0]);
    assert_eq!(bytes[14], b'c');
    assert_eq!(AfeFile::decode(&bytes), Ok(file));
}

#[test]
fn length_is_written_least_significant_byte_first() {
    let file = with_script("d".repeat(0x0102));
    let bytes = file.encode().unwrap();
    assert_eq!(&bytes[9..12], &[251, 0x02, 0x01]);
    let file = with_script("e".repeat(0x01_0203));
    let bytes = file.encode().unwrap();
    assert_eq!(&bytes[9..14], &[252, 0x03, 0x02, 0x01, 0x00]);
    assert_eq!(AfeFile::decode(&bytes), Ok(file));
}

#[test]
fn length_prefix_counts_bytes_not_characters() {
    let file = with_script("\u{20ac}".to_string());
    let bytes = file.encode().unwrap();
    assert_eq!(&bytes[9..13], &[3, 0xE2, 0x82, 0xAC]);
}

#[test]
fn encoded_len_is_the_length_of_the_encoding() {
    for n in [0usize, 1, 250, 251, 252, 65535, 65536, 70000] {
        let file = with_script("z".repeat(n));
        assert_eq!(file.encoded_len(), Some(file.encode().unwrap().len()));
    }
    assert_eq!(sample().encoded_len(), Some(sample_bytes().len()));
}

#[test]
fn other_versions_are_written_as_they_are() {
    let file = AfeFile { version: 7, ..sample() };
    let bytes = file.encode().unwrap();
    assert_eq!(bytes[0], 7);
    assert_eq!(&bytes[1..], &sample_bytes()[1..]);
    let file = AfeFile { version: 300, ..sample() };
    let bytes = file.encode().unwrap();
    assert_eq!(&bytes[..3], &[251, 44, 1]);
    let file = AfeFile { version: u32::MAX, ..sample() };
    let bytes = file.encode().unwrap();
    assert_eq!(&bytes[..5], &[252, 255, 255, 255, 255]);
}

#[test]
fn unknown_version_is_rejected() {
    let mut bytes = sample_bytes();
    bytes[0] = 2;
    assert_eq!(AfeFile::decode(&bytes), Err(AfeError::Decoding));
    bytes[0] = 0;
    assert_eq!(AfeFile::decode(&bytes), Err(AfeError::Decoding));
    let future = AfeFile { version: 2, ..sample() };
    assert_eq!(AfeFile::decode(&future.encode().unwrap()), Err(AfeError::Decoding));
    let far = AfeFile { version: 70000, ..sample() };
    assert_eq!(AfeFile::decode(&far.encode().unwrap()), Err(AfeError::Decoding));
}

#[test]
fn empty_input_is_rejected() {
    assert_eq!(AfeFile::decode(&[]), Err(AfeError::Decoding));
}

#[test]
fn every_proper_prefix_is_rejected() {
    let bytes = sample_bytes();
    for cut in 0..bytes.len() {
        assert_eq!(AfeFile::decode(&bytes[..cut]), Err(AfeError::Decoding));
    }
    assert_eq!(AfeFile::decode(&bytes), Ok(sample()));
}

#[test]
fn trailing_data_is_rejected() {
    let mut bytes = sample_bytes();
    bytes.push(0);
    assert_eq!(AfeFile::decode(&bytes), Err(AfeError::Decoding));
}

#[test]
fn text_that_is_not_utf8_is_rejected() {
    let mut bytes = sample_bytes();
    // first byte of the application name
    bytes[2] = 0xFF;
    assert_eq!(AfeFile::decode(&bytes), Err(AfeError::Decoding));
    let mut bytes = sample_bytes();
    // a lone continuation byte
    bytes[3] = 0x80;
    assert_eq!(AfeFile::decode(&bytes), Err(AfeError::Decoding));
}

#[test]
fn length_beyond_the_input_is_rejected() {
    let mut bytes = sample_bytes();
    let last = bytes.len() - 5;
    assert_eq!(bytes[last], 4);
    bytes[last] = 5;
    assert_eq!(AfeFile::decode(&bytes), Err(AfeError::Decoding));
    // a length of 2^64 - 1
    let mut huge: Vec<u8> = vec![1, 253];
    huge.extend_from_slice(&[0xFF; 8]);
    huge.extend_from_slice(b"abc");
    assert_eq!(AfeFile::decode(&huge), Err(AfeError::Decoding));
}

#[test]
fn integer_in_a_wider_form_than_needed_is_rejected() {
    // the version 1 written with the two-byte marker
    let mut bytes: Vec<u8> = vec![251, 1, 0];
    bytes.extend_from_slice(&sample_bytes()[1..]);
    assert_eq!(AfeFile::decode(&bytes), Err(AfeError::Decoding));
    // the length 3 of the application name written with the four-byte marker
    let mut bytes: Vec<u8> = vec![1, 252, 3, 0, 0, 0];
    bytes.extend_from_slice(&sample_bytes()[2..]);
    assert_eq!(AfeFile::decode(&bytes), Err(AfeError::Decoding));
    // and with the eight-byte marker
    let mut bytes: Vec<u8> = vec![1, 253, 3, 0, 0, 0, 0, 0, 0, 0];
    bytes.extend_from_slice(&sample_bytes()[2..]);
    assert_eq!(AfeFile::decode(&bytes), Err(AfeError::Decoding));
}

#[test]
fn reserved_markers_are_rejected() {
    for marker in [254u8, 255] {
        let mut bytes = sample_bytes();
        bytes[0] = marker;
        assert_eq!(AfeFile::decode(&bytes), Err(AfeError::Decoding));
        let mut bytes = sample_bytes();
        bytes[1] = marker;
        assert_eq!(AfeFile::decode(&bytes), Err(AfeError::Decoding));
    }
}

#[test]
fn what_decodes_encodes_to_the_same_bytes() {
    let bytes = sample_bytes();
    let file = AfeFile::decode(&bytes).unwrap();
    assert_eq!(file.encode(), Ok(bytes));
}

#[test]
fn builder_to_bytes_is_the_encoding_of_its_snapshot() {
    let mut builder = AfeBuilder::new("App", "1.0");
    builder.add_lua_function("f", vec!["a", "b"], "return a+b");
    let bytes = builder.to_bytes("demo".to_string()).unwrap();
    assert_eq!(bytes, builder.build("demo".to_string()).encode().unwrap());
}

#[test]
fn persisted_bytes_decode_to_what_was_built() {
    let mut builder = AfeBuilder::new("App", "1.0");
    builder.set_permissions("rwxr-xr-x").add_lua_code("x = 1");
    let bytes = builder.to_bytes("demo".to_string()).unwrap();
    assert_eq!(bytes, sample_bytes());
    let file = AfeFile::decode(&bytes).unwrap();
    assert_eq!(file.app_name, "App");
    assert_eq!(file.app_version, "1.0");
    assert_eq!(file.permissions, "rwxr-xr-x");
    assert!(file.lua_script.contains("x = 1\n"));
    assert_eq!(file.using, "demo");
    assert_eq!(file.version, 1);
}

#[test]
fn invalid_permissions_do_not_stop_encoding() {
    let mut builder = AfeBuilder::new("App", "1.0");
    builder.set_permissions("bogus");
    assert!(builder.validate().is_err());
    let bytes = builder.to_bytes(String::new()).unwrap();
    assert_eq!(AfeFile::decode(&bytes).unwrap().permissions, "bogus");
}
