use rippa::drive::{
    get_disc_format, get_mmc_profile_string, int_from_str_bytes, parse_timestamp, DriveInfo,
    DriveState, DriveUpdate, UtcDateTime,
};
use rippa::error::MakeMkvError;

fn record(id: u32, payload: &[u8]) -> Vec<u8> {
    let mut r = id.to_be_bytes().to_vec();
    r.extend_from_slice(&(payload.len() as u32).to_be_bytes());
    r.extend_from_slice(payload);
    r
}

fn update_data(records: &[Vec<u8>]) -> Vec<u8> {
    let mut d = b"BD Drive\0Movie Disc\0/dev/sr0\0".to_vec();
    for r in records {
        d.extend_from_slice(r);
    }
    d
}

const ARGS: [u32; 4] = [3, 7, 2, 8 | 16];

fn parse(records: &[Vec<u8>]) -> DriveInfo {
    DriveInfo::try_from_update(&ARGS, &update_data(records)).unwrap()
}

#[test]
fn fixed_part_and_names() {
    let d = parse(&[]);
    assert_eq!(d.drive_id, 3);
    assert_eq!(d.drive_state, DriveState::Inserted);
    assert_eq!(d.drive_name.as_deref(), Some("BD Drive"));
    assert_eq!(d.disc_name.as_deref(), Some("Movie Disc"));
    assert_eq!(d.device_name.as_deref(), Some("/dev/sr0"));
    assert!(d.disc_has_aacs);
    assert!(d.disc_has_bdsvm);
    assert!(!d.disc_has_css);
    assert!(d.libredrive_info.is_empty());

    let d = DriveInfo::try_from_update(&[1, 2, 0, 0], &update_data(&[])).unwrap();
    assert_eq!(d.drive_name, None);
    assert_eq!(d.disc_name.as_deref(), Some("Movie Disc"));
    assert_eq!(d.device_name, None);
    assert_eq!(d.drive_state, DriveState::EmptyClosed);
    assert!(!d.disc_has_aacs);
}

#[test]
fn refused_updates() {
    match DriveInfo::try_from_update(&[1, 2, 3], b"x\0y\0z\0") {
        Err(MakeMkvError::DriveInfo(m)) => assert_eq!(m, "Invalid args or data length"),
        _ => panic!("three arguments are too few"),
    }
    match DriveInfo::try_from_update(&ARGS, b"") {
        Err(MakeMkvError::DriveInfo(m)) => assert_eq!(m, "Invalid args or data length"),
        _ => panic!("empty data is refused"),
    }
    match DriveInfo::try_from_update(&[1, 0, 5, 0], b"a\0b\0c\0") {
        Err(MakeMkvError::InvalidCommand(m)) => assert_eq!(m, "5 is not a valid drive state"),
        _ => panic!("5 names no state"),
    }
    match DriveInfo::try_from_update(&ARGS, b"a\0b\0c") {
        Err(MakeMkvError::DriveInfo(m)) => assert_eq!(m, "Data didn't contain enough strings"),
        _ => panic!("two NULs are too few"),
    }
    let mut short = update_data(&[]);
    short.extend_from_slice(&[0, 0, 0]);
    match DriveInfo::try_from_update(&ARGS, &short) {
        Err(MakeMkvError::DriveInfo(m)) => assert_eq!(m, "Not enough data"),
        _ => panic!("a partial record header is refused"),
    }
    let mut overrun = update_data(&[]);
    overrun.extend_from_slice(&[0, 1, 0, 0, 0, 0, 0, 9, 1, 2]);
    match DriveInfo::try_from_update(&ARGS, &overrun) {
        Err(MakeMkvError::DriveInfo(m)) => assert_eq!(m, "Not enough data"),
        _ => panic!("a record longer than the data is refused"),
    }
}

#[test]
fn drive_states() {
    assert_eq!(DriveState::try_from(0).unwrap(), DriveState::EmptyClosed);
    assert_eq!(DriveState::try_from(1).unwrap(), DriveState::EmptyOpen);
    assert_eq!(DriveState::try_from(3).unwrap(), DriveState::Loaded);
    assert_eq!(DriveState::try_from(256).unwrap(), DriveState::NoDrive);
    assert_eq!(DriveState::try_from(257).unwrap(), DriveState::Unmounting);
    assert!(DriveState::try_from(4).is_err());
    for s in [
        DriveState::EmptyClosed,
        DriveState::EmptyOpen,
        DriveState::Inserted,
        DriveState::Loaded,
        DriveState::NoDrive,
        DriveState::Unmounting,
    ] {
        assert_eq!(DriveState::try_from(s.code()).unwrap(), s);
    }
}

#[test]
fn inquiry_serial_and_firmware_text() {
    let mut inquiry = vec![0u8; 8];
    inquiry.extend_from_slice(b"HL-DT-ST");
    inquiry.extend_from_slice(b"BD-RE  WH16NS40 ");
    inquiry.extend_from_slice(b"1.05");
    let d = parse(&[
        record(0x0100_0000, &inquiry),
        record(0x0101_0108, &[0, 0, 0, 4, b'A', b'B', b'C', b'D', b'E']),
        record(0x0200_0001, b"  NS40 fw  "),
        record(0x0001_0000, b"TAG  \0"),
    ]);
    assert_eq!(d.manufacturer.as_deref(), Some("HL-DT-ST"));
    assert_eq!(d.product.as_deref(), Some("BD-RE  WH16NS40"));
    assert_eq!(d.revision.as_deref(), Some("1.05"));
    assert_eq!(d.drive_serial_number.as_deref(), Some("ABCD"));
    assert_eq!(d.drive_firmware.as_deref(), Some("NS40 fw"));
    assert_eq!(d.driveio_tag.as_deref(), Some("TAG"));

    let d = parse(&[record(0x0100_0000, &[1, 2, 3])]);
    assert_eq!(d.manufacturer, None);
}

#[test]
fn short_records_that_refuse_the_update() {
    let cases: [(u32, &[u8], &str); 7] = [
        (0x0101_0108, &[0, 0, 0], "Not enough drive serial number data"),
        (0x0101_0108, &[0, 0, 0, 9, 1], "Not enough drive serial number data"),
        (0x0101_010c, &[0; 19], "Not enough firmware information data"),
        (0x0102_0000, &[1], "Not enough data for current profile"),
        (0x0303_0000, &[1, 2, 3], "Not enough data for disc capacity"),
        (0x0300_0001, &[0, 0, 0, 0], "Not enough data for DVD copyright information"),
        (0x0300_0000, &[0; 6], "Not enough data for DVD physical format"),
    ];
    for (id, payload, message) in cases {
        match DriveInfo::try_from_update(&ARGS, &update_data(&[record(id, payload)])) {
            Err(MakeMkvError::DriveInfo(m)) => assert_eq!(m, message),
            _ => panic!("record {:#x} should refuse the update", id),
        }
    }
}

#[test]
fn profile_capacity_and_copyright() {
    let d = parse(&[
        record(0x0102_0000, &[0x00, 0x40]),
        record(0x0303_0000, &[0, 0, 1, 0]),
        record(0x0300_0001, &[0, 0, 0, 0, 1]),
    ]);
    assert_eq!(d.current_profile.as_deref(), Some("BD-ROM"));
    assert_eq!(d.disc_capacity_sectors, Some(256));
    assert!(d.disc_has_css);
    assert!(!d.disc_has_cprm);

    let d = parse(&[record(0x0300_0001, &[0, 0, 0, 0, 2])]);
    assert!(d.disc_has_cprm);
    let d = DriveInfo::try_from_update(&[0, 0, 2, 0], &update_data(&[record(0x0300_0001, &[0, 0, 0, 0, 16])])).unwrap();
    assert!(d.disc_has_aacs);
}

#[test]
fn dvd_physical_format() {
    let d = parse(&[record(0x0300_0000, &[0, 0, 0, 0, 0x21, 0x02, 0x30])]);
    assert_eq!(d.disc_type.as_deref(), Some("DVD-R"));
    assert_eq!(d.disc_size.as_deref(), Some("120 mm"));
    assert_eq!(d.disc_read_rate_quarters, Some(4));
    assert_eq!(d.disc_layers, Some(2));
    assert_eq!(d.disc_layer_orientation.as_deref(), Some("OTP"));

    let d = parse(&[record(0x0300_0000, &[0, 0, 0, 0, 0x90, 0x1f, 0x00])]);
    assert_eq!(d.disc_type.as_deref(), Some("DVD+RW"));
    assert_eq!(d.disc_size.as_deref(), Some("80 mm"));
    assert_eq!(d.disc_read_rate_quarters, None);
    assert_eq!(d.disc_layers, Some(1));
    assert_eq!(d.disc_layer_orientation.as_deref(), Some("PTP"));
}

#[test]
fn blu_ray_disc_information() {
    let mut p = vec![0u8; 20];
    p[4..7].copy_from_slice(b"DI\x01");
    p[12..15].copy_from_slice(b"BDR");
    p[16] = 0x22;
    p[17] = 0x01;
    let d = parse(&[record(0x0300_0100, &p)]);
    assert_eq!(d.disc_type.as_deref(), Some("BD-R"));
    assert_eq!(d.disc_layers, Some(2));
    assert_eq!(d.disc_channel_bit_length.as_deref(), Some("74.5 nm"));

    p[12..15].copy_from_slice(b"XYZ");
    let d = parse(&[record(0x0300_0100, &p)]);
    assert_eq!(d.disc_type, None);
    let d = parse(&[record(0x0300_0100, &[0; 19])]);
    assert_eq!(d.disc_layers, None);
    p[12..15].copy_from_slice(b"BDO");
    p[16] = 0x11;
    p[17] = 0x02;
    let d = parse(&[record(0x0300_0100, &p)]);
    assert_eq!(d.disc_type.as_deref(), Some("DB-ROM"));
    assert_eq!(d.disc_layers, Some(1));
    assert_eq!(d.disc_channel_bit_length.as_deref(), Some("69.0 nm"));
}

#[test]
fn aacs_and_svm_records() {
    let d = parse(&[
        record(0x0510_2201, &[0x10, 0, 0, 0, 0, 20, 0, 0, 0, 0, 0, 0x44]),
        record(0x0510_2202, &[0, 0, 0, 0, 0, 0, 0, 0, 0, 0, 0, 0, 0, 0x07, 0xe5, 3, 0]),
        record(0x0510_2203, &[0, 1, 0, 0]),
        record(0x0510_2204, &[0, 0, 0, 0x42]),
    ]);
    assert_eq!(d.disc_aacs_mkb_version, Some(0x44));
    assert_eq!(d.disc_aacs_version.as_deref(), Some("2.0"));
    assert_eq!(d.disc_svm_version.as_deref(), Some("2021.3"));
    assert_eq!(d.disc_aacs_category.as_deref(), Some("B"));
    assert_eq!(d.drive_highest_aacs, Some(0x42));

    let d = parse(&[
        record(0x0510_2201, &[0x11, 0, 0, 0, 0, 20, 0, 0, 0, 0, 0, 0x44]),
        record(0x0510_2203, &[0, 7, 0, 0]),
        record(0x0510_2204, &[0, 0, 0, 0x42, 0]),
    ]);
    assert_eq!(d.disc_aacs_mkb_version, None);
    assert_eq!(d.disc_aacs_category, None);
    assert_eq!(d.drive_highest_aacs, None);

    let d = parse(&[record(0x0510_2201, &[0x10, 0, 0, 0, 0, 99, 0, 0, 0, 0, 1, 0])]);
    assert_eq!(d.disc_aacs_version.as_deref(), Some("1.0"));
    assert_eq!(d.disc_aacs_mkb_version, Some(256));
}

#[test]
fn timestamps() {
    let d = parse(&[
        record(0x0510_2205, b"XXXX20230415123059\0\0"),
        record(0x0101_010c, b"XXXX199912312359 0\0\0"),
    ]);
    assert_eq!(
        d.disc_timestamp,
        Some(UtcDateTime { year: 2023, month: 4, day: 15, hour: 12, minute: 30, second: 59 })
    );
    assert_eq!(
        d.drive_firmware_date,
        Some(UtcDateTime { year: 1999, month: 12, day: 31, hour: 23, minute: 59, second: 0 })
    );
    assert_eq!(parse_timestamp(b"XXXX20230230000000\0\0"), None);
    assert_eq!(
        parse_timestamp(b"XXXX20240229000000\0\0"),
        Some(UtcDateTime { year: 2024, month: 2, day: 29, hour: 0, minute: 0, second: 0 })
    );
    assert_eq!(parse_timestamp(b"XXXX2023AB15123059\0\0"), None);
    assert_eq!(parse_timestamp(b"XXXX20230415243059\0\0"), None);
    assert_eq!(parse_timestamp(b"XXXX2023041512305 \0\0"), None);
    assert_eq!(
        parse_timestamp(b"XXXX202304151230\0\0\0\0"),
        Some(UtcDateTime { year: 2023, month: 4, day: 15, hour: 12, minute: 30, second: 0 })
    );
}

#[test]
fn libredrive_lines() {
    let d = parse(&[record(0x0510_2210, b"LibreDrive\nEnabled\nFirmware ok\n\0\0")]);
    assert_eq!(d.libredrive_info, vec!["Enabled".to_string(), "Firmware ok".to_string(), String::new()]);
    let d = parse(&[record(0x0510_2210, b"only\0\0")]);
    assert!(d.libredrive_info.is_empty());
}

#[test]
fn unknown_records_are_skipped() {
    let d = parse(&[record(0x0999_0000, &[1, 2, 3]), record(0x0102_0000, &[0, 8])]);
    assert_eq!(d.current_profile.as_deref(), Some("CD-ROM"));
}

#[test]
fn malformed_records() {
    let data = update_data(&[record(0x0001_0000, &[])]);
    assert!(DriveInfo::update_is_malformed(&ARGS, &data));
    assert!(matches!(DriveInfo::update_outcome(&ARGS, &data), DriveUpdate::Malformed));
    let data = update_data(&[record(0x0510_2210, &[b'x'])]);
    assert!(DriveInfo::update_is_malformed(&ARGS, &data));
    let data = update_data(&[record(0x0510_2210, b"ok\0\0")]);
    assert!(!DriveInfo::update_is_malformed(&ARGS, &data));
}

#[test]
fn lossy_decoding_of_names() {
    let d = DriveInfo::try_from_update(&ARGS, b"\xff\xfeDrive\0Disc\0dev\0").unwrap();
    assert_eq!(d.drive_name.as_deref(), Some("\u{fffd}\u{fffd}Drive"));
}

#[test]
fn profile_and_format_names() {
    assert_eq!(get_mmc_profile_string(16), "DVD-ROM");
    assert_eq!(get_mmc_profile_string(20), "DVD-RW");
    assert_eq!(get_mmc_profile_string(90), "HD DVD-RW DL");
    assert_eq!(get_mmc_profile_string(7), "invalid");
    assert_eq!(get_disc_format(0), "DVD-ROM");
    assert_eq!(get_disc_format(12), "DVD+R DL");
    assert_eq!(get_disc_format(7), "invalid");
}

#[test]
fn numbers_in_text_fields() {
    assert_eq!(int_from_str_bytes(b"2023"), Some(2023));
    assert_eq!(int_from_str_bytes(b"+12"), Some(12));
    assert_eq!(int_from_str_bytes(b"007"), Some(7));
    assert_eq!(int_from_str_bytes(b""), None);
    assert_eq!(int_from_str_bytes(b"+"), None);
    assert_eq!(int_from_str_bytes(b" 1"), None);
    assert_eq!(int_from_str_bytes(b"-1"), None);
    assert_eq!(int_from_str_bytes(b"4294967295"), Some(u32::MAX));
    assert_eq!(int_from_str_bytes(b"4294967296"), None);
}
