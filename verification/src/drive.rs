//! The drive updates that MakeMKV sends: a fixed part, three NUL-separated
//! names, then a list of tagged records read from the drive and the disc.

use crate::error::MakeMkvError;
use crate::text::{
    bytes_to_string, decimal_string, from_utf8_lossy, parse_unsigned, spec_bytes_to_string,
    spec_decimal, spec_parse_unsigned, spec_split_char, split_char, strings_view, utf8_lossy,
};
use crate::util::{spec_be_u32, u32_const_slice, u32_from_be_bytes};
use vstd::prelude::*;
use vstd::string::*;
use chrono::TimeZone;

verus! {

/// The state of a disc drive.
#[derive(Copy, Clone, Debug, PartialEq, Eq, Structural)]
pub enum DriveState {
    EmptyClosed,
    EmptyOpen,
    Inserted,
    Loaded,
    NoDrive,
    Unmounting,
}

impl DriveState {
    /// The number of the state on the wire.
    pub open spec fn spec_code(self) -> u32 {
        match self {
            DriveState::EmptyClosed => 0,
            DriveState::EmptyOpen => 1,
            DriveState::Inserted => 2,
            DriveState::Loaded => 3,
            DriveState::NoDrive => 256,
            DriveState::Unmounting => 257,
        }
    }

    /// The number of the state on the wire.
    pub fn code(&self) -> (c: u32)
        ensures
            c == self.spec_code(),
    {
        match self {
            DriveState::EmptyClosed => 0,
            DriveState::EmptyOpen => 1,
            DriveState::Inserted => 2,
            DriveState::Loaded => 3,
            DriveState::NoDrive => 256,
            DriveState::Unmounting => 257,
        }
    }

    /// The numbers that name a state.
    pub open spec fn is_code(value: u32) -> bool {
        value <= 3 || value == 256 || value == 257
    }

    /// The state with the given number; any other number is an
    /// `InvalidCommand` error whose message says so.
    pub fn try_from(value: u32) -> (r: Result<DriveState, MakeMkvError>)
        ensures
            r is Ok <==> Self::is_code(value),
            r matches Ok(s) ==> s.spec_code() == value,
            r matches Err(e) ==> e matches MakeMkvError::InvalidCommand(m) && m@
                == spec_decimal(value as nat) + " is not a valid drive state"@,
    {
        match value {
            0 => Ok(DriveState::EmptyClosed),
            1 => Ok(DriveState::EmptyOpen),
            2 => Ok(DriveState::Inserted),
            3 => Ok(DriveState::Loaded),
            256 => Ok(DriveState::NoDrive),
            257 => Ok(DriveState::Unmounting),
            _ => {
                let mut m = decimal_string(value as u64);
                m.append(" is not a valid drive state");
                Err(MakeMkvError::InvalidCommand(m))
            },
        }
    }
}

/// Every state's number names it, and no other state has that number.
pub proof fn lemma_drive_state_code(s: DriveState, t: DriveState)
    ensures
        DriveState::is_code(s.spec_code()),
        s.spec_code() == t.spec_code() ==> s == t,
{
}

/// A calendar date and time of day in UTC.
#[derive(Copy, Clone, Debug, PartialEq, Eq, Structural)]
pub struct UtcDateTime {
    pub year: i32,
    pub month: u32,
    pub day: u32,
    pub hour: u32,
    pub minute: u32,
    pub second: u32,
}

/// A leap year of the proleptic Gregorian calendar.
pub open spec fn is_leap_year(year: int) -> bool {
    (year % 4 == 0 && year % 100 != 0) || year % 400 == 0
}

/// The number of days of a month.
pub open spec fn days_in_month(year: int, month: int) -> int {
    if month == 2 {
        if is_leap_year(year) {
            29
        } else {
            28
        }
    } else if month == 4 || month == 6 || month == 9 || month == 11 {
        30
    } else {
        31
    }
}

/// A date and time that `chrono` can represent in UTC: a year in its range,
/// an existing calendar day, and a time of day without a leap second.
pub open spec fn spec_valid_utc(year: i32, month: u32, day: u32, hour: u32, minute: u32, second: u32) -> bool {
    &&& -262143 <= year <= 262142
    &&& 1 <= month <= 12
    &&& 1 <= day <= days_in_month(year as int, month as int)
    &&& hour < 24
    &&& minute < 60
    &&& second < 60
}

/// Whether the date and time exist in UTC.
///
/// Calls `chrono::TimeZone::with_ymd_and_hms` on `Utc`. Its source builds
/// the date with `NaiveDate::from_ymd_opt` (an existing day of the
/// proleptic Gregorian calendar in the years -262143 to 262142) and the
/// time with `NaiveTime::from_hms_opt` (no leap second), and maps the
/// result to UTC, which always succeeds; the contract states that test.
#[verifier::external_body]
fn utc_datetime_exists(year: i32, month: u32, day: u32, hour: u32, minute: u32, second: u32) -> (b: bool)
    ensures
        b == spec_valid_utc(year, month, day, hour, minute, second),
{
    match chrono::Utc.with_ymd_and_hms(year, month, day, hour, minute, second) {
        chrono::LocalResult::Single(_) => true,
        chrono::LocalResult::Ambiguous(_, _) => true,
        chrono::LocalResult::None => false,
    }
}

/// The unsigned number written in a text field, if it is one.
pub open spec fn spec_int_from_str_bytes(bytes: Seq<u8>) -> Option<nat> {
    spec_parse_unsigned(bytes, 0xffff_ffff)
}

/// The unsigned 32-bit number written in a text field.
pub fn int_from_str_bytes(bytes: &[u8]) -> (r: Option<u32>)
    ensures
        r matches Some(v) ==> spec_int_from_str_bytes(bytes@) == Some(v as nat),
        r is None ==> spec_int_from_str_bytes(bytes@) is None,
{
    match parse_unsigned(bytes, 0xffff_ffff) {
        Some(v) => Some(v as u32),
        None => None,
    }
}

/// The date and time that a 20-byte timestamp field holds: year, month,
/// day, hour and minute as decimal text at offsets 4, 8, 10, 12 and 14, and
/// the second at offset 16 unless that byte is NUL or a space (then it is
/// zero). Fields that are no numbers, and dates that do not exist, give
/// nothing.
pub open spec fn spec_parse_timestamp(b: Seq<u8>) -> Option<UtcDateTime> {
    let year = spec_int_from_str_bytes(b.subrange(4, 8));
    let month = spec_int_from_str_bytes(b.subrange(8, 10));
    let day = spec_int_from_str_bytes(b.subrange(10, 12));
    let hour = spec_int_from_str_bytes(b.subrange(12, 14));
    let minute = spec_int_from_str_bytes(b.subrange(14, 16));
    let second = if b[16] != 0 && b[16] != 0x20 {
        spec_int_from_str_bytes(b.subrange(16, 18))
    } else {
        Some(0nat)
    };
    if year is Some && month is Some && day is Some && hour is Some && minute is Some
        && second is Some {
        let t = UtcDateTime {
            year: year.unwrap() as i32,
            month: month.unwrap() as u32,
            day: day.unwrap() as u32,
            hour: hour.unwrap() as u32,
            minute: minute.unwrap() as u32,
            second: second.unwrap() as u32,
        };
        if spec_valid_utc(t.year, t.month, t.day, t.hour, t.minute, t.second) {
            Some(t)
        } else {
            None
        }
    } else {
        None
    }
}

/// A year field has four bytes, so its value fits an `i32`.
proof fn lemma_four_digit_bound(b: Seq<u8>)
    requires
        b.len() == 4,
        spec_int_from_str_bytes(b) is Some,
    ensures
        spec_int_from_str_bytes(b).unwrap() <= 9999,
{
    let d = crate::text::unsigned_digits(b);
    crate::text::lemma_digits_value_below(d);
    reveal_with_fuel(crate::text::pow10, 5);
}

/// The date and time in a 20-byte timestamp field.
pub fn parse_timestamp(bytes: &[u8]) -> (r: Option<UtcDateTime>)
    requires
        bytes@.len() == 20,
    ensures
        r == spec_parse_timestamp(bytes@),
{
    let year = match int_from_str_bytes(&bytes[4..8]) {
        Some(v) => v,
        None => return None,
    };
    proof {
        lemma_four_digit_bound(bytes@.subrange(4, 8));
    }
    let month = match int_from_str_bytes(&bytes[8..10]) {
        Some(v) => v,
        None => return None,
    };
    let day = match int_from_str_bytes(&bytes[10..12]) {
        Some(v) => v,
        None => return None,
    };
    let hour = match int_from_str_bytes(&bytes[12..14]) {
        Some(v) => v,
        None => return None,
    };
    let minute = match int_from_str_bytes(&bytes[14..16]) {
        Some(v) => v,
        None => return None,
    };
    let second = if bytes[16] != 0 && bytes[16] != 0x20 {
        match int_from_str_bytes(&bytes[16..18]) {
            Some(v) => v,
            None => return None,
        }
    } else {
        0
    };
    let year = year as i32;
    if utc_datetime_exists(year, month, day, hour, minute, second) {
        Some(UtcDateTime { year, month, day, hour, minute, second })
    } else {
        None
    }
}

/// The name of an MMC profile number.
pub open spec fn spec_mmc_profile(id: u16) -> Seq<char> {
    match id {
        8 => "CD-ROM"@,
        9 => "CD-R"@,
        10 => "CD-RW"@,
        16 => "DVD-ROM"@,
        17 => "DVD-R"@,
        18 => "DVD-RAM"@,
        19 => "DVD-RW"@,
        20 => "DVD-RW"@,
        21 => "DVD-R DL SR"@,
        22 => "DVD-R DL JR"@,
        23 => "DVD-RW DL"@,
        26 => "DVD+RW"@,
        27 => "DVD+R"@,
        42 => "DVD+RW DL"@,
        43 => "DVD+R DL"@,
        64 => "BD-ROM"@,
        65 => "BD-R SRM"@,
        66 => "BD-R RRM"@,
        67 => "BD-RE"@,
        80 => "HD DVD-ROM"@,
        81 => "HD DVD-R"@,
        82 => "HD DVD-RAM"@,
        83 => "HD DVD-RW"@,
        88 => "HD DVD-R DL"@,
        90 => "HD DVD-RW DL"@,
        _ => "invalid"@,
    }
}

/// The name of an MMC profile number.
pub fn get_mmc_profile_string(id: u16) -> (s: String)
    ensures
        s@ == spec_mmc_profile(id),
{
    let name = match id {
        8 => "CD-ROM",
        9 => "CD-R",
        10 => "CD-RW",
        16 => "DVD-ROM",
        17 => "DVD-R",
        18 => "DVD-RAM",
        19 => "DVD-RW",
        20 => "DVD-RW",
        21 => "DVD-R DL SR",
        22 => "DVD-R DL JR",
        23 => "DVD-RW DL",
        26 => "DVD+RW",
        27 => "DVD+R",
        42 => "DVD+RW DL",
        43 => "DVD+R DL",
        64 => "BD-ROM",
        65 => "BD-R SRM",
        66 => "BD-R RRM",
        67 => "BD-RE",
        80 => "HD DVD-ROM",
        81 => "HD DVD-R",
        82 => "HD DVD-RAM",
        83 => "HD DVD-RW",
        88 => "HD DVD-R DL",
        90 => "HD DVD-RW DL",
        _ => "invalid",
    };
    name.to_owned()
}

/// The name of a DVD book type.
pub open spec fn spec_disc_format(id: u8) -> Seq<char> {
    match id {
        0 => "DVD-ROM"@,
        1 => "DVD-RAM"@,
        2 => "DVD-R"@,
        3 => "DVD-RW"@,
        4 => "HD DVD-ROM"@,
        5 => "HD DVD-RAM"@,
        6 => "HD DVD-R"@,
        9 => "DVD+RW"@,
        10 => "DVD+R"@,
        11 => "DVD+RW DL"@,
        12 => "DVD+R DL"@,
        _ => "invalid"@,
    }
}

/// The name of a DVD book type.
pub fn get_disc_format(id: u8) -> (s: String)
    ensures
        s@ == spec_disc_format(id),
{
    let name = match id {
        0 => "DVD-ROM",
        1 => "DVD-RAM",
        2 => "DVD-R",
        3 => "DVD-RW",
        4 => "HD DVD-ROM",
        5 => "HD DVD-RAM",
        6 => "HD DVD-R",
        9 => "DVD+RW",
        10 => "DVD+R",
        11 => "DVD+RW DL",
        12 => "DVD+R DL",
        _ => "invalid",
    };
    name.to_owned()
}

/// The view of an optional string: its characters.
pub open spec fn opt_view(o: Option<String>) -> Option<Seq<char>> {
    match o {
        Some(s) => Some(s@),
        None => None,
    }
}

/// What a drive update says about a drive and the disc in it.
///
/// Two values that the logic only stores are kept exact: the disc capacity
/// as the sector count that the drive reports (the capacity in GiB is that
/// count divided by 1024 and by 512), and the read rate in quarters.
#[derive(Debug)]
pub struct DriveInfo {
    pub drive_id: u32,
    pub drive_name: Option<String>,
    pub disc_name: Option<String>,
    pub device_name: Option<String>,
    pub driveio_tag: Option<String>,
    pub current_profile: Option<String>,
    pub libredrive_info: Vec<String>,
    pub disc_timestamp: Option<UtcDateTime>,
    pub disc_has_css: bool,
    pub disc_has_cprm: bool,
    pub disc_has_aacs: bool,
    pub disc_has_bdsvm: bool,
    pub disc_aacs_mkb_version: Option<u32>,
    pub disc_aacs_version: Option<String>,
    pub disc_aacs_category: Option<String>,
    pub disc_svm_version: Option<String>,
    pub drive_state: DriveState,
    pub drive_serial_number: Option<String>,
    pub drive_firmware_date: Option<UtcDateTime>,
    pub drive_firmware: Option<String>,
    pub drive_highest_aacs: Option<u32>,
    pub disc_capacity_sectors: Option<u32>,
    pub disc_type: Option<String>,
    pub disc_size: Option<String>,
    pub disc_read_rate_quarters: Option<u32>,
    pub disc_layers: Option<u8>,
    pub disc_layer_orientation: Option<String>,
    pub disc_channel_bit_length: Option<String>,
    pub manufacturer: Option<String>,
    pub product: Option<String>,
    pub revision: Option<String>,
}

/// The contents of a `DriveInfo`, strings taken as their characters.
pub struct DriveInfoView {
    pub drive_id: u32,
    pub drive_name: Option<Seq<char>>,
    pub disc_name: Option<Seq<char>>,
    pub device_name: Option<Seq<char>>,
    pub driveio_tag: Option<Seq<char>>,
    pub current_profile: Option<Seq<char>>,
    pub libredrive_info: Seq<Seq<char>>,
    pub disc_timestamp: Option<UtcDateTime>,
    pub disc_has_css: bool,
    pub disc_has_cprm: bool,
    pub disc_has_aacs: bool,
    pub disc_has_bdsvm: bool,
    pub disc_aacs_mkb_version: Option<u32>,
    pub disc_aacs_version: Option<Seq<char>>,
    pub disc_aacs_category: Option<Seq<char>>,
    pub disc_svm_version: Option<Seq<char>>,
    pub drive_state: DriveState,
    pub drive_serial_number: Option<Seq<char>>,
    pub drive_firmware_date: Option<UtcDateTime>,
    pub drive_firmware: Option<Seq<char>>,
    pub drive_highest_aacs: Option<u32>,
    pub disc_capacity_sectors: Option<u32>,
    pub disc_type: Option<Seq<char>>,
    pub disc_size: Option<Seq<char>>,
    pub disc_read_rate_quarters: Option<u32>,
    pub disc_layers: Option<u8>,
    pub disc_layer_orientation: Option<Seq<char>>,
    pub disc_channel_bit_length: Option<Seq<char>>,
    pub manufacturer: Option<Seq<char>>,
    pub product: Option<Seq<char>>,
    pub revision: Option<Seq<char>>,
}

impl View for DriveInfo {
    type V = DriveInfoView;

    open spec fn view(&self) -> DriveInfoView {
        DriveInfoView {
            drive_id: self.drive_id,
            drive_name: opt_view(self.drive_name),
            disc_name: opt_view(self.disc_name),
            device_name: opt_view(self.device_name),
            driveio_tag: opt_view(self.driveio_tag),
            current_profile: opt_view(self.current_profile),
            libredrive_info: strings_view(self.libredrive_info@),
            disc_timestamp: self.disc_timestamp,
            disc_has_css: self.disc_has_css,
            disc_has_cprm: self.disc_has_cprm,
            disc_has_aacs: self.disc_has_aacs,
            disc_has_bdsvm: self.disc_has_bdsvm,
            disc_aacs_mkb_version: self.disc_aacs_mkb_version,
            disc_aacs_version: opt_view(self.disc_aacs_version),
            disc_aacs_category: opt_view(self.disc_aacs_category),
            disc_svm_version: opt_view(self.disc_svm_version),
            drive_state: self.drive_state,
            drive_serial_number: opt_view(self.drive_serial_number),
            drive_firmware_date: self.drive_firmware_date,
            drive_firmware: opt_view(self.drive_firmware),
            drive_highest_aacs: self.drive_highest_aacs,
            disc_capacity_sectors: self.disc_capacity_sectors,
            disc_type: opt_view(self.disc_type),
            disc_size: opt_view(self.disc_size),
            disc_read_rate_quarters: self.disc_read_rate_quarters,
            disc_layers: self.disc_layers,
            disc_layer_orientation: opt_view(self.disc_layer_orientation),
            disc_channel_bit_length: opt_view(self.disc_channel_bit_length),
            manufacturer: opt_view(self.manufacturer),
            product: opt_view(self.product),
            revision: opt_view(self.revision),
        }
    }
}

/// Record identifiers, built from a category in the top byte.
pub const DRIVE_INFO_CATEGORY_DRIVE_STANDARD: u32 = 1;
pub const DRIVE_INFO_CATEGORY_DRIVE_SPECIFIC: u32 = 2;
pub const DRIVE_INFO_CATEGORY_DISC_STANDARD: u32 = 3;
pub const DRIVE_IO_TAG: u32 = 0x0001_0000;
pub const INQUIRY_DATA: u32 = 0x0100_0000;
pub const FEATURE_DESCRIPTOR_DRIVE_SERIAL_NUMBER: u32 = 0x0101_0108;
pub const FEATURE_DESCRIPTOR_FIRMWARE_INFORMATION: u32 = 0x0101_010c;
pub const CURRENT_PROFILE: u32 = 0x0102_0000;
pub const FIRMWARE_DETAILS_STRING: u32 = 0x0200_0001;
pub const DISC_STRUCTURE_DVD_PHYSICAL_FORMAT: u32 = 0x0300_0000;
pub const DISC_STRUCTURE_DVD_COPYRIGHT_INFORMATION: u32 = 0x0300_0001;
pub const DISC_STRUCTURE_BD_DISC_INFORMATION: u32 = 0x0300_0100;
pub const DISC_CAPACITY: u32 = 0x0303_0000;
pub const AACS_MKB_INFORMATION: u32 = 0x0510_2201;
pub const SVM_INFORMATION: u32 = 0x0510_2202;
pub const AACS_CATEGORY: u32 = 0x0510_2203;
pub const DRIVE_HIGHEST_AACS: u32 = 0x0510_2204;
pub const DISC_TIMESTAMP: u32 = 0x0510_2205;
pub const LIBREDRIVE_INFORMATION: u32 = 0x0510_2210;

/// How a record, or a whole update, is taken.
pub enum Step {
    /// Go on with the drive as it now stands.
    Next(DriveInfoView),
    /// The update is refused with this message.
    Stop(Seq<char>),
    /// A record that the parser cannot slice: a tag string of no bytes, or
    /// LibreDrive text of fewer than two bytes.
    Malformed,
}

/// A text field, decoded and trimmed.
pub open spec fn text(b: Seq<u8>) -> Option<Seq<char>> {
    Some(spec_bytes_to_string(b))
}

/// A "BDx" disc-information marker: BDO, BDW, BDR or BDU.
pub open spec fn is_bd_marker(p: Seq<u8>) -> bool {
    p[0] == 0x42 && p[1] == 0x44 && (p[2] == 0x4f || p[2] == 0x57 || p[2] == 0x52 || p[2] == 0x55)
}

/// What a DVD physical-format record says of the disc.
pub open spec fn spec_dvd_physical(d: DriveInfoView, p: Seq<u8>) -> DriveInfoView {
    DriveInfoView {
        disc_type: Some(spec_disc_format(p[4] / 16)),
        disc_size: if p[5] / 16 == 0 {
            Some("120 mm"@)
        } else if p[5] / 16 == 1 {
            Some("80 mm"@)
        } else {
            None
        },
        disc_read_rate_quarters: if p[5] % 16 == 0 {
            Some(1u32)
        } else if p[5] % 16 == 1 {
            Some(2u32)
        } else if p[5] % 16 == 2 {
            Some(4u32)
        } else if p[5] % 16 == 3 {
            Some(8u32)
        } else if p[5] % 16 == 4 {
            Some(12u32)
        } else {
            None
        },
        disc_layers: Some((1 + (p[6] / 32) % 4) as u8),
        disc_layer_orientation: if (p[6] / 16) % 2 == 0 {
            Some("PTP"@)
        } else {
            Some("OTP"@)
        },
        ..d
    }
}

/// What a Blu-ray disc-information record says of the disc, when its
/// markers are right.
pub open spec fn spec_bd_info(d: DriveInfoView, p: Seq<u8>) -> DriveInfoView {
    DriveInfoView {
        disc_type: if p[16] % 16 == 1 {
            Some("DB-ROM"@)
        } else if p[16] % 16 == 2 {
            Some("BD-R"@)
        } else if p[16] % 16 == 4 {
            Some("BD-RE"@)
        } else if p[16] % 16 == 9 {
            Some("BD-ROM UHD"@)
        } else {
            None
        },
        disc_layers: Some(p[16] / 16),
        disc_channel_bit_length: if p[17] % 16 == 1 {
            Some("74.5 nm"@)
        } else if p[17] % 16 == 2 {
            Some("69.0 nm"@)
        } else {
            None
        },
        ..d
    }
}

/// What a drive I/O tag record does: the tag is its text without the last
/// byte.
pub open spec fn spec_tag_record(d: DriveInfoView, p: Seq<u8>) -> Step {
    if p.len() == 0 {
        Step::Malformed
    } else {
        Step::Next(DriveInfoView { driveio_tag: text(p.subrange(0, p.len() - 1)), ..d })
    }
}

/// What an inquiry-data record does: vendor, product and revision.
pub open spec fn spec_inquiry_record(d: DriveInfoView, p: Seq<u8>) -> Step {
    if p.len() >= 36 {
        Step::Next(
            DriveInfoView {
                manufacturer: text(p.subrange(8, 16)),
                product: text(p.subrange(16, 32)),
                revision: text(p.subrange(32, 36)),
                ..d
            },
        )
    } else {
        Step::Next(d)
    }
}

/// What a serial-number record does: the serial is the text of the length
/// given at offset 3, from offset 4.
pub open spec fn spec_serial_record(d: DriveInfoView, p: Seq<u8>) -> Step {
    if p.len() < 4 || p.len() < 4 + p[3] {
        Step::Stop("Not enough drive serial number data"@)
    } else {
        Step::Next(DriveInfoView { drive_serial_number: text(p.subrange(4, 4 + p[3])), ..d })
    }
}

/// What a DVD copyright record does: the protection named at offset 4.
pub open spec fn spec_copyright_record(d: DriveInfoView, p: Seq<u8>) -> Step {
    if p.len() < 5 {
        Step::Stop("Not enough data for DVD copyright information"@)
    } else if p[4] == 1 {
        Step::Next(DriveInfoView { disc_has_css: true, ..d })
    } else if p[4] == 2 {
        Step::Next(DriveInfoView { disc_has_cprm: true, ..d })
    } else if p[4] == 3 || p[4] == 16 {
        Step::Next(DriveInfoView { disc_has_aacs: true, ..d })
    } else {
        Step::Next(d)
    }
}

/// What a Blu-ray disc-information record does: only one with the "DI\x01"
/// and "BDx" markers changes the drive.
pub open spec fn spec_bd_record(d: DriveInfoView, p: Seq<u8>) -> Step {
    if p.len() >= 20 && p[4] == 0x44 && p[5] == 0x49 && p[6] == 0x01 && is_bd_marker(
        p.subrange(12, 15),
    ) {
        Step::Next(spec_bd_info(d, p))
    } else {
        Step::Next(d)
    }
}

/// What an AACS media-key-block record does: the version of the block and
/// of AACS, when the record has the right type.
pub open spec fn spec_mkb_record(d: DriveInfoView, p: Seq<u8>) -> Step {
    if p.len() < 12 || p[0] != 0x10 {
        Step::Next(d)
    } else {
        Step::Next(
            DriveInfoView {
                disc_aacs_mkb_version: Some(spec_be_u32(p.subrange(8, 12)) as u32),
                disc_aacs_version: if p[5] == 10 {
                    Some("1.0/II"@)
                } else if p[5] == 20 {
                    Some("2.0"@)
                } else if p[5] == 21 {
                    Some("2.1"@)
                } else {
                    Some("1.0"@)
                },
                ..d
            },
        )
    }
}

/// What an SVM record does: the version as year, a dot, and month.
pub open spec fn spec_svm_record(d: DriveInfoView, p: Seq<u8>) -> Step {
    if p.len() < 17 {
        Step::Next(d)
    } else {
        Step::Next(
            DriveInfoView {
                disc_svm_version: Some(
                    spec_decimal((p[13] * 256 + p[14]) as nat) + "."@ + spec_decimal(p[15] as nat),
                ),
                ..d
            },
        )
    }
}

/// What an AACS category record does.
pub open spec fn spec_category_record(d: DriveInfoView, p: Seq<u8>) -> Step {
    if p.len() < 4 {
        Step::Next(d)
    } else {
        Step::Next(
            DriveInfoView {
                disc_aacs_category: if p[1] == 0 {
                    Some("C"@)
                } else if p[1] == 1 {
                    Some("B"@)
                } else if p[1] == 2 {
                    Some("A"@)
                } else {
                    None
                },
                ..d
            },
        )
    }
}

/// What a LibreDrive record does: the lines of its text without the last
/// two bytes, but for the first line.
pub open spec fn spec_libredrive_record(d: DriveInfoView, p: Seq<u8>) -> Step {
    if p.len() < 2 {
        Step::Malformed
    } else {
        Step::Next(
            DriveInfoView {
                libredrive_info: spec_split_char(
                    utf8_lossy(p.subrange(0, p.len() - 2)),
                    '\n',
                ).drop_first(),
                ..d
            },
        )
    }
}

/// What a record with identifier `id` and payload `p` does to the drive;
/// records of other identifiers leave it as it is.
pub open spec fn spec_apply_record(d: DriveInfoView, id: u32, p: Seq<u8>) -> Step {
    let n = p.len();
    if id == DRIVE_IO_TAG {
        spec_tag_record(d, p)
    } else if id == INQUIRY_DATA {
        spec_inquiry_record(d, p)
    } else if id == FEATURE_DESCRIPTOR_DRIVE_SERIAL_NUMBER {
        spec_serial_record(d, p)
    } else if id == FEATURE_DESCRIPTOR_FIRMWARE_INFORMATION {
        if n != 20 {
            Step::Stop("Not enough firmware information data"@)
        } else {
            Step::Next(DriveInfoView { drive_firmware_date: spec_parse_timestamp(p), ..d })
        }
    } else if id == FIRMWARE_DETAILS_STRING {
        Step::Next(DriveInfoView { drive_firmware: text(p), ..d })
    } else if id == CURRENT_PROFILE {
        if n < 2 {
            Step::Stop("Not enough data for current profile"@)
        } else {
            Step::Next(
                DriveInfoView {
                    current_profile: Some(spec_mmc_profile((p[0] * 256 + p[1]) as u16)),
                    ..d
                },
            )
        }
    } else if id == DISC_CAPACITY {
        if n < 4 {
            Step::Stop("Not enough data for disc capacity"@)
        } else {
            Step::Next(
                DriveInfoView {
                    disc_capacity_sectors: Some(spec_be_u32(p.subrange(0, 4)) as u32),
                    ..d
                },
            )
        }
    } else if id == DISC_STRUCTURE_DVD_COPYRIGHT_INFORMATION {
        spec_copyright_record(d, p)
    } else if id == DISC_STRUCTURE_DVD_PHYSICAL_FORMAT {
        if n < 7 {
            Step::Stop("Not enough data for DVD physical format"@)
        } else {
            Step::Next(spec_dvd_physical(d, p))
        }
    } else if id == DISC_STRUCTURE_BD_DISC_INFORMATION {
        spec_bd_record(d, p)
    } else if id == AACS_MKB_INFORMATION {
        spec_mkb_record(d, p)
    } else if id == SVM_INFORMATION {
        spec_svm_record(d, p)
    } else if id == AACS_CATEGORY {
        spec_category_record(d, p)
    } else if id == DRIVE_HIGHEST_AACS {
        if n != 4 {
            Step::Next(d)
        } else {
            Step::Next(DriveInfoView { drive_highest_aacs: Some(spec_be_u32(p) as u32), ..d })
        }
    } else if id == DISC_TIMESTAMP {
        if n != 20 {
            Step::Next(d)
        } else {
            Step::Next(DriveInfoView { disc_timestamp: spec_parse_timestamp(p), ..d })
        }
    } else if id == LIBREDRIVE_INFORMATION {
        spec_libredrive_record(d, p)
    } else {
        Step::Next(d)
    }
}

/// Takes the records of `rest` in order: each is a big-endian identifier,
/// a big-endian payload size and the payload. A record that does not fit
/// in what is left refuses the update.
pub open spec fn spec_walk(d: DriveInfoView, rest: Seq<u8>) -> Step
    decreases rest.len(),
{
    if rest.len() == 0 {
        Step::Next(d)
    } else if rest.len() < 8 {
        Step::Stop("Not enough data"@)
    } else {
        let id = spec_be_u32(rest.subrange(0, 4)) as u32;
        let size = spec_be_u32(rest.subrange(4, 8));
        if size > rest.len() - 8 {
            Step::Stop("Not enough data"@)
        } else {
            match spec_apply_record(d, id, rest.subrange(8, 8 + size)) {
                Step::Next(d2) => spec_walk(d2, rest.subrange(8 + size, rest.len() as int)),
                other => other,
            }
        }
    }
}

/// The index of the first NUL byte of `s` at or after `from`, or the
/// length of `s` if there is none.
pub open spec fn spec_find_nul(s: Seq<u8>, from: int) -> int
    decreases s.len() - from,
{
    if from >= s.len() {
        s.len() as int
    } else if s[from] == 0 {
        from
    } else {
        spec_find_nul(s, from + 1)
    }
}

/// The outcome of a drive update.
pub enum UpdateSpec {
    /// The drive that the update describes.
    Parsed(DriveInfoView),
    /// The state number names no state.
    BadState,
    /// The update is refused with this message.
    Failed(Seq<char>),
    /// The update holds a record that the parser cannot slice.
    Malformed,
}

/// The drive that an update describes: `args` holds the drive id, the
/// flags that say which names are present, the state and the disc's file
/// system flags; `data` holds the three names, each ended by a NUL, and
/// then the records.
pub open spec fn spec_update(args: Seq<u32>, data: Seq<u8>) -> UpdateSpec {
    if data.len() == 0 || args.len() < 4 {
        UpdateSpec::Failed("Invalid args or data length"@)
    } else if !DriveState::is_code(args[2]) {
        UpdateSpec::BadState
    } else {
        let i1 = spec_find_nul(data, 0);
        let i2 = spec_find_nul(data, i1 + 1);
        let i3 = spec_find_nul(data, i2 + 1);
        if i1 >= data.len() || i2 >= data.len() || i3 >= data.len() {
            UpdateSpec::Failed("Data didn't contain enough strings"@)
        } else {
            let flags = args[1];
            let fs_flags = args[3];
            let d = DriveInfoView {
                drive_id: args[0],
                drive_name: if flags & 1 == 1 {
                    Some(utf8_lossy(data.subrange(0, i1)))
                } else {
                    None
                },
                disc_name: if flags & 2 == 2 {
                    Some(utf8_lossy(data.subrange(i1 + 1, i2)))
                } else {
                    None
                },
                device_name: if flags & 4 == 4 {
                    Some(utf8_lossy(data.subrange(i2 + 1, i3)))
                } else {
                    None
                },
                driveio_tag: None,
                current_profile: None,
                libredrive_info: Seq::empty(),
                disc_timestamp: None,
                disc_has_css: false,
                disc_has_cprm: false,
                disc_has_aacs: fs_flags & 8 != 0,
                disc_has_bdsvm: fs_flags & 16 != 0,
                disc_aacs_mkb_version: None,
                disc_aacs_version: None,
                disc_aacs_category: None,
                disc_svm_version: None,
                drive_state: choose|s: DriveState| s.spec_code() == args[2],
                drive_serial_number: None,
                drive_firmware_date: None,
                drive_firmware: None,
                drive_highest_aacs: None,
                disc_capacity_sectors: None,
                disc_type: None,
                disc_size: None,
                disc_read_rate_quarters: None,
                disc_layers: None,
                disc_layer_orientation: None,
                disc_channel_bit_length: None,
                manufacturer: None,
                product: None,
                revision: None,
            };
            match spec_walk(d, data.subrange(i3 + 1, data.len() as int)) {
                Step::Next(v) => UpdateSpec::Parsed(v),
                Step::Stop(m) => UpdateSpec::Failed(m),
                Step::Malformed => UpdateSpec::Malformed,
            }
        }
    }
}

/// Why a record stopped an update.
pub enum RecordStop {
    /// The update is refused with this message.
    Fail(String),
    /// The record cannot be sliced.
    Malformed,
}

/// The string of a literal.
fn owned(s: &str) -> (r: String)
    ensures
        r@ == s@,
{
    s.to_owned()
}

/// The four bytes at `at` of `p`, read big-endian.
fn be_u32_at(p: &[u8], at: usize) -> (r: u32)
    requires
        at + 4 <= p@.len(),
    ensures
        r == spec_be_u32(p@.subrange(at as int, at + 4)),
{
    let n = p.len();
    assert(at + 4 <= n);
    let b = u32_const_slice(&p[at..at + 4]);
    assert(b@ =~= p@.subrange(at as int, at + 4));
    u32_from_be_bytes(b)
}

/// The outcome of a record as the contract of an applying function states
/// it.
pub open spec fn step_done(step: Step, r: Result<(), RecordStop>, after: DriveInfoView) -> bool {
    match step {
        Step::Next(v) => r is Ok && after == v,
        Step::Stop(m) => r matches Err(RecordStop::Fail(s)) && s@ == m,
        Step::Malformed => r matches Err(RecordStop::Malformed),
    }
}

fn apply_tag(d: &mut DriveInfo, p: &[u8]) -> (r: Result<(), RecordStop>)
    ensures
        step_done(spec_tag_record(old(d)@, p@), r, final(d)@),
{
    if p.len() == 0 {
        return Err(RecordStop::Malformed);
    }
    d.driveio_tag = bytes_to_string(&p[0..p.len() - 1]);
    Ok(())
}

fn apply_inquiry(d: &mut DriveInfo, p: &[u8]) -> (r: Result<(), RecordStop>)
    ensures
        step_done(spec_inquiry_record(old(d)@, p@), r, final(d)@),
{
    if p.len() >= 36 {
        d.manufacturer = bytes_to_string(&p[8..16]);
        d.product = bytes_to_string(&p[16..32]);
        d.revision = bytes_to_string(&p[32..36]);
    }
    Ok(())
}

fn apply_serial(d: &mut DriveInfo, p: &[u8]) -> (r: Result<(), RecordStop>)
    ensures
        step_done(spec_serial_record(old(d)@, p@), r, final(d)@),
{
    let n = p.len();
    if n < 4 {
        return Err(RecordStop::Fail(owned("Not enough drive serial number data")));
    }
    let size = p[3] as usize;
    if n < 4 + size {
        return Err(RecordStop::Fail(owned("Not enough drive serial number data")));
    }
    d.drive_serial_number = bytes_to_string(&p[4..4 + size]);
    Ok(())
}

fn apply_copyright(d: &mut DriveInfo, p: &[u8]) -> (r: Result<(), RecordStop>)
    ensures
        step_done(spec_copyright_record(old(d)@, p@), r, final(d)@),
{
    if p.len() < 5 {
        return Err(RecordStop::Fail(owned("Not enough data for DVD copyright information")));
    }
    if p[4] == 1 {
        d.disc_has_css = true;
    } else if p[4] == 2 {
        d.disc_has_cprm = true;
    } else if p[4] == 3 || p[4] == 16 {
        d.disc_has_aacs = true;
    }
    Ok(())
}

fn apply_physical(d: &mut DriveInfo, p: &[u8]) -> (r: Result<(), RecordStop>)
    requires
        p@.len() >= 7,
    ensures
        r is Ok,
        final(d)@ == spec_dvd_physical(old(d)@, p@),
{
    d.disc_type = Some(get_disc_format(p[4] / 16));
    let size_code = p[5] / 16;
    d.disc_size = if size_code == 0 {
        Some(owned("120 mm"))
    } else if size_code == 1 {
        Some(owned("80 mm"))
    } else {
        None
    };
    let rate_code = p[5] % 16;
    d.disc_read_rate_quarters = if rate_code == 0 {
        Some(1)
    } else if rate_code == 1 {
        Some(2)
    } else if rate_code == 2 {
        Some(4)
    } else if rate_code == 3 {
        Some(8)
    } else if rate_code == 4 {
        Some(12)
    } else {
        None
    };
    d.disc_layers = Some(1 + (p[6] / 32) % 4);
    d.disc_layer_orientation = if (p[6] / 16) % 2 == 0 {
        Some(owned("PTP"))
    } else {
        Some(owned("OTP"))
    };
    Ok(())
}

fn apply_bd(d: &mut DriveInfo, p: &[u8]) -> (r: Result<(), RecordStop>)
    ensures
        step_done(spec_bd_record(old(d)@, p@), r, final(d)@),
{
    if p.len() >= 20 && p[4] == 0x44 && p[5] == 0x49 && p[6] == 0x01 && p[12] == 0x42 && p[13]
        == 0x44 && (p[14] == 0x4f || p[14] == 0x57 || p[14] == 0x52 || p[14] == 0x55) {
        let type_code = p[16] % 16;
        d.disc_type = if type_code == 1 {
            Some(owned("DB-ROM"))
        } else if type_code == 2 {
            Some(owned("BD-R"))
        } else if type_code == 4 {
            Some(owned("BD-RE"))
        } else if type_code == 9 {
            Some(owned("BD-ROM UHD"))
        } else {
            None
        };
        d.disc_layers = Some(p[16] / 16);
        let length_code = p[17] % 16;
        d.disc_channel_bit_length = if length_code == 1 {
            Some(owned("74.5 nm"))
        } else if length_code == 2 {
            Some(owned("69.0 nm"))
        } else {
            None
        };
    }
    Ok(())
}

fn apply_mkb(d: &mut DriveInfo, p: &[u8]) -> (r: Result<(), RecordStop>)
    ensures
        step_done(spec_mkb_record(old(d)@, p@), r, final(d)@),
{
    if p.len() >= 12 && p[0] == 0x10 {
        d.disc_aacs_mkb_version = Some(be_u32_at(p, 8));
        d.disc_aacs_version = if p[5] == 10 {
            Some(owned("1.0/II"))
        } else if p[5] == 20 {
            Some(owned("2.0"))
        } else if p[5] == 21 {
            Some(owned("2.1"))
        } else {
            Some(owned("1.0"))
        };
    }
    Ok(())
}

fn apply_svm(d: &mut DriveInfo, p: &[u8]) -> (r: Result<(), RecordStop>)
    ensures
        step_done(spec_svm_record(old(d)@, p@), r, final(d)@),
{
    if p.len() >= 17 {
        let year = (p[13] as u64) * 256 + p[14] as u64;
        let mut v = decimal_string(year);
        v.append(".");
        crate::text::push_decimal(&mut v, p[15] as u64);
        d.disc_svm_version = Some(v);
    }
    Ok(())
}

fn apply_category(d: &mut DriveInfo, p: &[u8]) -> (r: Result<(), RecordStop>)
    ensures
        step_done(spec_category_record(old(d)@, p@), r, final(d)@),
{
    if p.len() >= 4 {
        d.disc_aacs_category = if p[1] == 0 {
            Some(owned("C"))
        } else if p[1] == 1 {
            Some(owned("B"))
        } else if p[1] == 2 {
            Some(owned("A"))
        } else {
            None
        };
    }
    Ok(())
}

fn apply_libredrive(d: &mut DriveInfo, p: &[u8]) -> (r: Result<(), RecordStop>)
    ensures
        step_done(spec_libredrive_record(old(d)@, p@), r, final(d)@),
{
    let n = p.len();
    if n < 2 {
        return Err(RecordStop::Malformed);
    }
    let text = from_utf8_lossy(&p[0..n - 2]);
    let mut pieces = split_char(text.as_str(), '\n');
    proof {
        crate::text::lemma_split_char_nonempty(text@, '\n');
    }
    let ghost all = pieces@;
    pieces.remove(0);
    assert(strings_view(pieces@) =~= strings_view(all).drop_first());
    d.libredrive_info = pieces;
    Ok(())
}

/// Applies one record to the drive.
#[verifier::rlimit(40)]
pub fn apply_record(d: &mut DriveInfo, id: u32, p: &[u8]) -> (r: Result<(), RecordStop>)
    ensures
        step_done(spec_apply_record(old(d)@, id, p@), r, final(d)@),
{
    let n = p.len();
    if id == DRIVE_IO_TAG {
        apply_tag(d, p)
    } else if id == INQUIRY_DATA {
        apply_inquiry(d, p)
    } else if id == FEATURE_DESCRIPTOR_DRIVE_SERIAL_NUMBER {
        apply_serial(d, p)
    } else if id == FEATURE_DESCRIPTOR_FIRMWARE_INFORMATION {
        if n != 20 {
            return Err(RecordStop::Fail(owned("Not enough firmware information data")));
        }
        d.drive_firmware_date = parse_timestamp(p);
        Ok(())
    } else if id == FIRMWARE_DETAILS_STRING {
        d.drive_firmware = bytes_to_string(p);
        Ok(())
    } else if id == CURRENT_PROFILE {
        if n < 2 {
            return Err(RecordStop::Fail(owned("Not enough data for current profile")));
        }
        let profile_id = (p[0] as u16) * 256 + p[1] as u16;
        d.current_profile = Some(get_mmc_profile_string(profile_id));
        Ok(())
    } else if id == DISC_CAPACITY {
        if n < 4 {
            return Err(RecordStop::Fail(owned("Not enough data for disc capacity")));
        }
        d.disc_capacity_sectors = Some(be_u32_at(p, 0));
        Ok(())
    } else if id == DISC_STRUCTURE_DVD_COPYRIGHT_INFORMATION {
        apply_copyright(d, p)
    } else if id == DISC_STRUCTURE_DVD_PHYSICAL_FORMAT {
        if n < 7 {
            return Err(RecordStop::Fail(owned("Not enough data for DVD physical format")));
        }
        apply_physical(d, p)
    } else if id == DISC_STRUCTURE_BD_DISC_INFORMATION {
        apply_bd(d, p)
    } else if id == AACS_MKB_INFORMATION {
        apply_mkb(d, p)
    } else if id == SVM_INFORMATION {
        apply_svm(d, p)
    } else if id == AACS_CATEGORY {
        apply_category(d, p)
    } else if id == DRIVE_HIGHEST_AACS {
        if n == 4 {
            let v = be_u32_at(p, 0);
            assert(p@.subrange(0, 4) =~= p@);
            d.drive_highest_aacs = Some(v);
        }
        Ok(())
    } else if id == DISC_TIMESTAMP {
        if n == 20 {
            d.disc_timestamp = parse_timestamp(p);
        }
        Ok(())
    } else if id == LIBREDRIVE_INFORMATION {
        apply_libredrive(d, p)
    } else {
        Ok(())
    }
}

/// Applies the records of `rest` to the drive, in order.
#[verifier::spinoff_prover]
#[verifier::rlimit(40)]
fn walk_records(d: &mut DriveInfo, rest: &[u8]) -> (r: Result<(), RecordStop>)
    ensures
        step_done(spec_walk(old(d)@, rest@), r, final(d)@),
{
    let ghost goal = spec_walk(d@, rest@);
    let mut pos: usize = 0;
    assert(rest@.subrange(0, rest@.len() as int) =~= rest@);
    while pos < rest.len()
        invariant
            pos <= rest@.len(),
            goal == spec_walk(old(d)@, rest@),
            goal == spec_walk(d@, rest@.subrange(pos as int, rest@.len() as int)),
        decreases rest@.len() - pos,
    {
        let ghost tail = rest@.subrange(pos as int, rest@.len() as int);
        if rest.len() - pos < 8 {
            return Err(RecordStop::Fail(owned("Not enough data")));
        }
        let id = be_u32_at(rest, pos);
        let size = be_u32_at(rest, pos + 4) as usize;
        assert(tail.subrange(0, 4) =~= rest@.subrange(pos as int, pos + 4));
        assert(tail.subrange(4, 8) =~= rest@.subrange(pos + 4, pos + 8));
        let start = pos + 8;
        if size > rest.len() - start {
            return Err(RecordStop::Fail(owned("Not enough data")));
        }
        let end = start + size;
        assert(tail.subrange(8, 8 + size) =~= rest@.subrange(start as int, end as int));
        assert(tail.subrange(8 + size, tail.len() as int) =~= rest@.subrange(
            end as int,
            rest@.len() as int,
        ));
        apply_record(d, id, &rest[start..end])?;
        pos = end;
    }
    assert(rest@.subrange(pos as int, rest@.len() as int) =~= Seq::<u8>::empty());
    Ok(())
}

/// The index of the first NUL byte of `s` at or after `from`, or the
/// length of `s`.
fn find_nul(s: &[u8], from: usize) -> (r: usize)
    requires
        from <= s@.len(),
    ensures
        r == spec_find_nul(s@, from as int),
        from <= r <= s@.len(),
{
    let mut i = from;
    while i < s.len()
        invariant
            from <= i <= s@.len(),
            spec_find_nul(s@, from as int) == spec_find_nul(s@, i as int),
        decreases s@.len() - i,
    {
        if s[i] == 0 {
            return i;
        }
        i = i + 1;
    }
    i
}

/// The outcome of a drive update, with the records that cannot be sliced
/// told apart from the ones that are refused.
pub enum DriveUpdate {
    Parsed(DriveInfo),
    Failed(MakeMkvError),
    Malformed,
}

/// The result of a drive update agrees with what the update says: the
/// drive it describes, or the error it earns.
pub open spec fn update_result_matches(u: UpdateSpec, args: Seq<u32>, r: Result<DriveInfo, MakeMkvError>) -> bool {
    match u {
        UpdateSpec::Parsed(v) => r matches Ok(d) && d@ == v,
        UpdateSpec::BadState => r matches Err(MakeMkvError::InvalidCommand(m)) && m@ == spec_decimal(
            args[2] as nat,
        ) + " is not a valid drive state"@,
        UpdateSpec::Failed(m) => r matches Err(MakeMkvError::DriveInfo(s)) && s@ == m,
        UpdateSpec::Malformed => false,
    }
}

impl DriveInfo {
    /// The outcome of a drive update, malformed records included.
    pub fn update_outcome(args: &[u32], data: &[u8]) -> (r: DriveUpdate)
        ensures
            match spec_update(args@, data@) {
                UpdateSpec::Malformed => r is Malformed,
                u => match r {
                    DriveUpdate::Parsed(d) => update_result_matches(u, args@, Ok(d)),
                    DriveUpdate::Failed(e) => update_result_matches(u, args@, Err(e)),
                    DriveUpdate::Malformed => false,
                },
            },
    {
        if data.len() == 0 || args.len() < 4 {
            return DriveUpdate::Failed(MakeMkvError::DriveInfo(owned("Invalid args or data length")));
        }
        let drive_state = match DriveState::try_from(args[2]) {
            Ok(s) => s,
            Err(e) => return DriveUpdate::Failed(e),
        };
        proof {
            let c = choose|t: DriveState| t.spec_code() == args@[2];
            lemma_drive_state_code(drive_state, c);
        }
        let i1 = find_nul(data, 0);
        if i1 >= data.len() {
            return DriveUpdate::Failed(MakeMkvError::DriveInfo(owned("Data didn't contain enough strings")));
        }
        let i2 = find_nul(data, i1 + 1);
        if i2 >= data.len() {
            return DriveUpdate::Failed(MakeMkvError::DriveInfo(owned("Data didn't contain enough strings")));
        }
        let i3 = find_nul(data, i2 + 1);
        if i3 >= data.len() {
            return DriveUpdate::Failed(MakeMkvError::DriveInfo(owned("Data didn't contain enough strings")));
        }
        let flags = args[1];
        let fs_flags = args[3];
        let drive_name = if flags & 1 == 1 {
            Some(from_utf8_lossy(&data[0..i1]))
        } else {
            None
        };
        let disc_name = if flags & 2 == 2 {
            Some(from_utf8_lossy(&data[i1 + 1..i2]))
        } else {
            None
        };
        let device_name = if flags & 4 == 4 {
            Some(from_utf8_lossy(&data[i2 + 1..i3]))
        } else {
            None
        };
        let mut drive = DriveInfo {
            drive_id: args[0],
            drive_name,
            disc_name,
            device_name,
            driveio_tag: None,
            current_profile: None,
            libredrive_info: Vec::new(),
            disc_timestamp: None,
            disc_has_css: false,
            disc_has_cprm: false,
            disc_has_aacs: fs_flags & 8 != 0,
            disc_has_bdsvm: fs_flags & 16 != 0,
            disc_aacs_mkb_version: None,
            disc_aacs_version: None,
            disc_aacs_category: None,
            disc_svm_version: None,
            drive_state,
            drive_serial_number: None,
            drive_firmware_date: None,
            drive_firmware: None,
            drive_highest_aacs: None,
            disc_capacity_sectors: None,
            disc_type: None,
            disc_size: None,
            disc_read_rate_quarters: None,
            disc_layers: None,
            disc_layer_orientation: None,
            disc_channel_bit_length: None,
            manufacturer: None,
            product: None,
            revision: None,
        };
        assert(strings_view(drive.libredrive_info@) =~= Seq::<Seq<char>>::empty());
        match walk_records(&mut drive, &data[i3 + 1..data.len()]) {
            Ok(()) => DriveUpdate::Parsed(drive),
            Err(RecordStop::Fail(m)) => DriveUpdate::Failed(MakeMkvError::DriveInfo(m)),
            Err(RecordStop::Malformed) => DriveUpdate::Malformed,
        }
    }

    /// Whether a drive update holds a record that the parser cannot slice.
    pub fn update_is_malformed(args: &[u32], data: &[u8]) -> (b: bool)
        ensures
            b == spec_update(args@, data@) is Malformed,
    {
        match Self::update_outcome(args, data) {
            DriveUpdate::Malformed => true,
            _ => false,
        }
    }

    /// The drive that a drive update describes, or the error it earns: a
    /// short update, a state number that names no state, fewer than three
    /// names, or a record that is too short or does not fit.
    pub fn try_from_update(args: &[u32], data: &[u8]) -> (r: Result<DriveInfo, MakeMkvError>)
        requires
            !(spec_update(args@, data@) is Malformed),
        ensures
            update_result_matches(spec_update(args@, data@), args@, r),
    {
        match Self::update_outcome(args, data) {
            DriveUpdate::Parsed(d) => Ok(d),
            DriveUpdate::Failed(e) => Err(e),
            DriveUpdate::Malformed => Err(MakeMkvError::DriveNotDetected),
        }
    }
}

/// A Blu-ray disc-information record with the "DI\x01" marker at offset 4
/// and a "BDO", "BDW", "BDR" or "BDU" marker at offset 12 names the disc
/// type by the low nibble of byte 16 (1 "DB-ROM", 2 "BD-R", 4 "BD-RE",
/// 9 "BD-ROM UHD", anything else none), gives the number of layers as the
/// high nibble of byte 16 and the channel bit length by the low nibble of
/// byte 17 (1 "74.5 nm", 2 "69.0 nm", anything else none), and changes
/// nothing else.
pub proof fn lemma_bd_disc_information(d: DriveInfoView, p: Seq<u8>)
    requires
        p.len() >= 20,
        p[4] == 0x44 && p[5] == 0x49 && p[6] == 0x01,
        p[12] == 0x42 && p[13] == 0x44,
        p[14] == 0x4f || p[14] == 0x57 || p[14] == 0x52 || p[14] == 0x55,
    ensures
        spec_apply_record(d, DISC_STRUCTURE_BD_DISC_INFORMATION, p) matches Step::Next(v) && {
            &&& p[16] % 16 == 1 ==> v.disc_type == Some("DB-ROM"@)
            &&& p[16] % 16 == 2 ==> v.disc_type == Some("BD-R"@)
            &&& p[16] % 16 == 4 ==> v.disc_type == Some("BD-RE"@)
            &&& p[16] % 16 == 9 ==> v.disc_type == Some("BD-ROM UHD"@)
            &&& !(p[16] % 16 == 1 || p[16] % 16 == 2 || p[16] % 16 == 4 || p[16] % 16 == 9)
                ==> v.disc_type is None
            &&& v.disc_layers == Some((p[16] / 16) as u8)
            &&& p[17] % 16 == 1 ==> v.disc_channel_bit_length == Some("74.5 nm"@)
            &&& p[17] % 16 == 2 ==> v.disc_channel_bit_length == Some("69.0 nm"@)
            &&& !(p[17] % 16 == 1 || p[17] % 16 == 2) ==> v.disc_channel_bit_length is None
            &&& v == DriveInfoView {
                disc_type: v.disc_type,
                disc_layers: v.disc_layers,
                disc_channel_bit_length: v.disc_channel_bit_length,
                ..d
            }
        },
{
    assert(is_bd_marker(p.subrange(12, 15)));
}

/// A Blu-ray disc-information record without both markers, or shorter
/// than twenty bytes, leaves the drive as it was.
pub proof fn lemma_bd_disc_information_ignored(d: DriveInfoView, p: Seq<u8>)
    requires
        !(p.len() >= 20 && p[4] == 0x44 && p[5] == 0x49 && p[6] == 0x01 && p[12] == 0x42
            && p[13] == 0x44 && (p[14] == 0x4f || p[14] == 0x57 || p[14] == 0x52 || p[14]
            == 0x55)),
    ensures
        spec_apply_record(d, DISC_STRUCTURE_BD_DISC_INFORMATION, p) == Step::Next(d),
{
}

} // verus!
