use rippa::command::{
    decode_header, encode_message, AppString, ItemAttribute, MakeMkvCommand, MakeMkvHeader,
    MAGIC_CMD_NUMBER,
};
use rippa::error::MakeMkvError;
use rippa::util::{u32_const_slice, u32_from_le_bytes, u32s_to_u64, u64_to_le_u32};

#[test]
fn command_codes_round_trip() {
    for value in 0u8..=255 {
        match MakeMkvCommand::try_from(value) {
            Ok(cmd) => assert_eq!(cmd.code(), value),
            Err(MakeMkvError::InvalidCommand(m)) => {
                assert_eq!(m, format!("{} is not a valid command", value))
            }
            Err(e) => panic!("unexpected error {:?}", e),
        }
    }
    assert_eq!(MakeMkvCommand::try_from(0).unwrap(), MakeMkvCommand::Noop);
    assert_eq!(MakeMkvCommand::try_from(43).unwrap(), MakeMkvCommand::CallAppSetString);
    assert_eq!(MakeMkvCommand::try_from(194).unwrap(), MakeMkvCommand::BackUpdateDrive);
    assert_eq!(MakeMkvCommand::try_from(239).unwrap(), MakeMkvCommand::Unknown);
    assert!(MakeMkvCommand::try_from(5).is_err());
    assert!(MakeMkvCommand::try_from(240).is_err());
}

#[test]
fn invalid_command_message() {
    match MakeMkvCommand::try_from(100) {
        Err(MakeMkvError::InvalidCommand(m)) => assert_eq!(m, "100 is not a valid command"),
        _ => panic!("100 names no command"),
    }
}

#[test]
fn app_string_and_attribute_codes() {
    assert_eq!(AppString::Name.code(), 0);
    assert_eq!(AppString::InterfaceLanguage.code(), 23);
    assert_eq!(AppString::KeyString.code(), 25);
    assert_eq!(ItemAttribute::Name.code(), 2);
    assert_eq!(ItemAttribute::ChapterCount.code(), 8);
    assert_eq!(ItemAttribute::Duration.code(), 9);
    assert_eq!(ItemAttribute::OffsetSequenceId.code(), 50);
}

#[test]
fn header_bytes() {
    let h = MakeMkvHeader::new(0x1234, 3, MakeMkvCommand::CallAppGetString);
    assert_eq!(h.as_bytes(), [0x34, 0x12, 3, 32]);
    let back = MakeMkvHeader::read_from_bytes([0x34, 0x12, 3, 32]);
    assert_eq!(back, h);
}

#[test]
fn decode_full_and_short_headers() {
    let h = decode_header([0x05, 0x00, 0x02, 0x01], 4).unwrap();
    assert_eq!(h.cmd, MakeMkvCommand::Return);
    assert_eq!(h.data_size, 5);
    assert_eq!(h.arg_len, 2);

    let h = decode_header([MAGIC_CMD_NUMBER + 4, 0, 0, 0], 1).unwrap();
    assert_eq!(h.cmd, MakeMkvCommand::CallOnIdle);
    assert_eq!(h.data_size, 0);
    assert_eq!(h.arg_len, 0);

    match decode_header([0x10, 0, 0, 0], 1) {
        Err(MakeMkvError::MakeMkv(m)) => assert_eq!(m, "Received invalid command: 16"),
        _ => panic!("a bare byte below the magic number is refused"),
    }
    match decode_header([0, 0, 0, 0], 3) {
        Err(MakeMkvError::MakeMkv(m)) => assert_eq!(m, "3 is not a valid header length"),
        _ => panic!("three bytes are no header"),
    }
    assert!(matches!(
        decode_header([0, 0, 0, 7], 4),
        Err(MakeMkvError::InvalidCommand(_))
    ));
    assert!(matches!(
        decode_header([MAGIC_CMD_NUMBER + 5, 0, 0, 0], 1),
        Err(MakeMkvError::InvalidCommand(_))
    ));
}

#[test]
fn encode_message_layout() {
    let m = encode_message(MakeMkvCommand::CallOpenDisk, &[1, 0x0102_0304], &[9, 8, 7]);
    assert_eq!(
        m,
        vec![3, 0, 2, 19, 1, 0, 0, 0, 4, 3, 2, 1, 9, 8, 7]
    );
    let empty = encode_message(MakeMkvCommand::ClientDone, &[], &[]);
    assert_eq!(empty, vec![0, 0, 0, 2]);
}

#[test]
fn encoded_header_decodes() {
    let m = encode_message(MakeMkvCommand::CallGetUiItemInfo, &[7, 8, 9], &[1, 2]);
    let h = decode_header([m[0], m[1], m[2], m[3]], 4).unwrap();
    assert_eq!(h.cmd, MakeMkvCommand::CallGetUiItemInfo);
    assert_eq!(h.arg_len, 3);
    assert_eq!(h.data_size, 2);
}

#[test]
fn encoded_message_reads_back() {
    let args = [0xdead_beef_u32, 0, 7, u32::MAX];
    let data = b"/data/media\0";
    let m = encode_message(MakeMkvCommand::CallSetOutputFolder, &args, data);
    assert_eq!(m.len(), 4 + 4 * args.len() + data.len());
    let h = decode_header([m[0], m[1], m[2], m[3]], 4).unwrap();
    assert_eq!(h.cmd, MakeMkvCommand::CallSetOutputFolder);
    assert_eq!(h.arg_len as usize, args.len());
    assert_eq!(h.data_size as usize, data.len());
    for (i, a) in args.iter().enumerate() {
        let at = 4 + 4 * i;
        assert_eq!(u32_from_le_bytes([m[at], m[at + 1], m[at + 2], m[at + 3]]), *a);
    }
    assert_eq!(&m[4 + 4 * args.len()..], &data[..]);
}

#[test]
fn u64_words() {
    assert_eq!(u32s_to_u64(1, 2), 0x1_0000_0002);
    assert_eq!(u64_to_le_u32(0x1_0000_0002), [2, 1]);
    let v = 0xdead_beef_0bad_f00d_u64;
    let w = u64_to_le_u32(v);
    assert_eq!(u32s_to_u64(w[1], w[0]), v);
    assert_eq!(u32_const_slice(&[1, 2, 3, 4, 5]), [1, 2, 3, 4]);
}
