//! The commands of the MakeMKV GUI-server protocol, the message header and
//! the encoding of the messages sent to MakeMKV.

use crate::error::MakeMkvError;
use crate::text::{decimal_string, spec_decimal};
use crate::util::{
    lemma_u32_le_roundtrip, spec_le_u32, spec_u32_le, u16_from_le_bytes, u16_to_le_bytes,
    u32_to_le_bytes,
};
use vstd::prelude::*;
use vstd::string::*;

verus! {

/// A command of the MakeMKV GUI-server protocol. Client calls start at 16,
/// notifications from the server ("back" commands) at 192.
#[derive(Copy, Clone, Debug, PartialEq, Eq, Structural)]
pub enum MakeMkvCommand {
    Noop,
    Return,
    ClientDone,
    CallSignalExit,
    CallOnIdle,
    CallSetOutputFolder,
    CallUpdateAvailableDrives,
    CallOpenFile,
    CallOpenDisk,
    CallOpenTitleCollection,
    CallCloseDisk,
    CallEjectDisk,
    CallSaveAllSelectedTitlesToMkv,
    CallGetUiItemState,
    CallSetUiItemState,
    CallGetUiItemInfo,
    CallGetSettingInt,
    CallGetSettingString,
    CallSetSettingInt,
    CallSetSettingString,
    CallSaveSettings,
    CallAppGetString,
    CallBackupDisc,
    CallGetInterfaceLanguageData,
    CallSetUiItemInfo,
    CallSetProfile,
    CallInitMMBD,
    CallOpenMMBD,
    CallDiscInfoMMBD,
    CallDecryptUnitMMBD,
    CallSetExternAppFlags,
    CallManageState,
    CallAppSetString,
    BackEnterJobMode,
    BackLeaveJobMode,
    BackUpdateDrive,
    BackUpdateCurrentBar,
    BackUpdateTotalBar,
    BackUpdateLayout,
    BackSetTotalName,
    BackUpdateCurrentInfo,
    BackReportUiMessage,
    BackExit,
    BackSetTitleCollInfo,
    BackSetTitleInfo,
    BackSetTrackInfo,
    BackSetChapterInfo,
    BackReportUiDialog,
    BackFatalCommError,
    BackOutOfMem,
    Unknown,
}

impl MakeMkvCommand {
    /// The number of the command on the wire.
    pub open spec fn spec_code(self) -> u8 {
        match self {
            MakeMkvCommand::Noop => 0,
            MakeMkvCommand::Return => 1,
            MakeMkvCommand::ClientDone => 2,
            MakeMkvCommand::CallSignalExit => 3,
            MakeMkvCommand::CallOnIdle => 4,
            MakeMkvCommand::CallSetOutputFolder => 16,
            MakeMkvCommand::CallUpdateAvailableDrives => 17,
            MakeMkvCommand::CallOpenFile => 18,
            MakeMkvCommand::CallOpenDisk => 19,
            MakeMkvCommand::CallOpenTitleCollection => 20,
            MakeMkvCommand::CallCloseDisk => 21,
            MakeMkvCommand::CallEjectDisk => 22,
            MakeMkvCommand::CallSaveAllSelectedTitlesToMkv => 23,
            MakeMkvCommand::CallGetUiItemState => 24,
            MakeMkvCommand::CallSetUiItemState => 25,
            MakeMkvCommand::CallGetUiItemInfo => 26,
            MakeMkvCommand::CallGetSettingInt => 27,
            MakeMkvCommand::CallGetSettingString => 28,
            MakeMkvCommand::CallSetSettingInt => 29,
            MakeMkvCommand::CallSetSettingString => 30,
            MakeMkvCommand::CallSaveSettings => 31,
            MakeMkvCommand::CallAppGetString => 32,
            MakeMkvCommand::CallBackupDisc => 33,
            MakeMkvCommand::CallGetInterfaceLanguageData => 34,
            MakeMkvCommand::CallSetUiItemInfo => 35,
            MakeMkvCommand::CallSetProfile => 36,
            MakeMkvCommand::CallInitMMBD => 37,
            MakeMkvCommand::CallOpenMMBD => 38,
            MakeMkvCommand::CallDiscInfoMMBD => 39,
            MakeMkvCommand::CallDecryptUnitMMBD => 40,
            MakeMkvCommand::CallSetExternAppFlags => 41,
            MakeMkvCommand::CallManageState => 42,
            MakeMkvCommand::CallAppSetString => 43,
            MakeMkvCommand::BackEnterJobMode => 192,
            MakeMkvCommand::BackLeaveJobMode => 193,
            MakeMkvCommand::BackUpdateDrive => 194,
            MakeMkvCommand::BackUpdateCurrentBar => 195,
            MakeMkvCommand::BackUpdateTotalBar => 196,
            MakeMkvCommand::BackUpdateLayout => 197,
            MakeMkvCommand::BackSetTotalName => 198,
            MakeMkvCommand::BackUpdateCurrentInfo => 199,
            MakeMkvCommand::BackReportUiMessage => 200,
            MakeMkvCommand::BackExit => 201,
            MakeMkvCommand::BackSetTitleCollInfo => 202,
            MakeMkvCommand::BackSetTitleInfo => 203,
            MakeMkvCommand::BackSetTrackInfo => 204,
            MakeMkvCommand::BackSetChapterInfo => 205,
            MakeMkvCommand::BackReportUiDialog => 206,
            MakeMkvCommand::BackFatalCommError => 224,
            MakeMkvCommand::BackOutOfMem => 225,
            MakeMkvCommand::Unknown => 239,
        }
    }

    /// The number of the command on the wire.
    pub fn code(&self) -> (c: u8)
        ensures
            c == self.spec_code(),
    {
        match self {
            MakeMkvCommand::Noop => 0,
            MakeMkvCommand::Return => 1,
            MakeMkvCommand::ClientDone => 2,
            MakeMkvCommand::CallSignalExit => 3,
            MakeMkvCommand::CallOnIdle => 4,
            MakeMkvCommand::CallSetOutputFolder => 16,
            MakeMkvCommand::CallUpdateAvailableDrives => 17,
            MakeMkvCommand::CallOpenFile => 18,
            MakeMkvCommand::CallOpenDisk => 19,
            MakeMkvCommand::CallOpenTitleCollection => 20,
            MakeMkvCommand::CallCloseDisk => 21,
            MakeMkvCommand::CallEjectDisk => 22,
            MakeMkvCommand::CallSaveAllSelectedTitlesToMkv => 23,
            MakeMkvCommand::CallGetUiItemState => 24,
            MakeMkvCommand::CallSetUiItemState => 25,
            MakeMkvCommand::CallGetUiItemInfo => 26,
            MakeMkvCommand::CallGetSettingInt => 27,
            MakeMkvCommand::CallGetSettingString => 28,
            MakeMkvCommand::CallSetSettingInt => 29,
            MakeMkvCommand::CallSetSettingString => 30,
            MakeMkvCommand::CallSaveSettings => 31,
            MakeMkvCommand::CallAppGetString => 32,
            MakeMkvCommand::CallBackupDisc => 33,
            MakeMkvCommand::CallGetInterfaceLanguageData => 34,
            MakeMkvCommand::CallSetUiItemInfo => 35,
            MakeMkvCommand::CallSetProfile => 36,
            MakeMkvCommand::CallInitMMBD => 37,
            MakeMkvCommand::CallOpenMMBD => 38,
            MakeMkvCommand::CallDiscInfoMMBD => 39,
            MakeMkvCommand::CallDecryptUnitMMBD => 40,
            MakeMkvCommand::CallSetExternAppFlags => 41,
            MakeMkvCommand::CallManageState => 42,
            MakeMkvCommand::CallAppSetString => 43,
            MakeMkvCommand::BackEnterJobMode => 192,
            MakeMkvCommand::BackLeaveJobMode => 193,
            MakeMkvCommand::BackUpdateDrive => 194,
            MakeMkvCommand::BackUpdateCurrentBar => 195,
            MakeMkvCommand::BackUpdateTotalBar => 196,
            MakeMkvCommand::BackUpdateLayout => 197,
            MakeMkvCommand::BackSetTotalName => 198,
            MakeMkvCommand::BackUpdateCurrentInfo => 199,
            MakeMkvCommand::BackReportUiMessage => 200,
            MakeMkvCommand::BackExit => 201,
            MakeMkvCommand::BackSetTitleCollInfo => 202,
            MakeMkvCommand::BackSetTitleInfo => 203,
            MakeMkvCommand::BackSetTrackInfo => 204,
            MakeMkvCommand::BackSetChapterInfo => 205,
            MakeMkvCommand::BackReportUiDialog => 206,
            MakeMkvCommand::BackFatalCommError => 224,
            MakeMkvCommand::BackOutOfMem => 225,
            MakeMkvCommand::Unknown => 239,
        }
    }

    /// The numbers that name a command.
    pub open spec fn is_code(value: u8) -> bool {
        ||| value <= 4
        ||| 16 <= value <= 43
        ||| 192 <= value <= 206
        ||| value == 224
        ||| value == 225
        ||| value == 239
    }

    /// The command with the given number. A number that names no command is
    /// an `InvalidCommand` error whose message says so.
    pub fn try_from(value: u8) -> (r: Result<MakeMkvCommand, MakeMkvError>)
        ensures
            r is Ok <==> Self::is_code(value),
            r matches Ok(c) ==> c.spec_code() == value,
            r matches Err(e) ==> e matches MakeMkvError::InvalidCommand(m) && m@
                == spec_decimal(value as nat) + " is not a valid command"@,
    {
        match value {
            0 => Ok(MakeMkvCommand::Noop),
            1 => Ok(MakeMkvCommand::Return),
            2 => Ok(MakeMkvCommand::ClientDone),
            3 => Ok(MakeMkvCommand::CallSignalExit),
            4 => Ok(MakeMkvCommand::CallOnIdle),
            16 => Ok(MakeMkvCommand::CallSetOutputFolder),
            17 => Ok(MakeMkvCommand::CallUpdateAvailableDrives),
            18 => Ok(MakeMkvCommand::CallOpenFile),
            19 => Ok(MakeMkvCommand::CallOpenDisk),
            20 => Ok(MakeMkvCommand::CallOpenTitleCollection),
            21 => Ok(MakeMkvCommand::CallCloseDisk),
            22 => Ok(MakeMkvCommand::CallEjectDisk),
            23 => Ok(MakeMkvCommand::CallSaveAllSelectedTitlesToMkv),
            24 => Ok(MakeMkvCommand::CallGetUiItemState),
            25 => Ok(MakeMkvCommand::CallSetUiItemState),
            26 => Ok(MakeMkvCommand::CallGetUiItemInfo),
            27 => Ok(MakeMkvCommand::CallGetSettingInt),
            28 => Ok(MakeMkvCommand::CallGetSettingString),
            29 => Ok(MakeMkvCommand::CallSetSettingInt),
            30 => Ok(MakeMkvCommand::CallSetSettingString),
            31 => Ok(MakeMkvCommand::CallSaveSettings),
            32 => Ok(MakeMkvCommand::CallAppGetString),
            33 => Ok(MakeMkvCommand::CallBackupDisc),
            34 => Ok(MakeMkvCommand::CallGetInterfaceLanguageData),
            35 => Ok(MakeMkvCommand::CallSetUiItemInfo),
            36 => Ok(MakeMkvCommand::CallSetProfile),
            37 => Ok(MakeMkvCommand::CallInitMMBD),
            38 => Ok(MakeMkvCommand::CallOpenMMBD),
            39 => Ok(MakeMkvCommand::CallDiscInfoMMBD),
            40 => Ok(MakeMkvCommand::CallDecryptUnitMMBD),
            41 => Ok(MakeMkvCommand::CallSetExternAppFlags),
            42 => Ok(MakeMkvCommand::CallManageState),
            43 => Ok(MakeMkvCommand::CallAppSetString),
            192 => Ok(MakeMkvCommand::BackEnterJobMode),
            193 => Ok(MakeMkvCommand::BackLeaveJobMode),
            194 => Ok(MakeMkvCommand::BackUpdateDrive),
            195 => Ok(MakeMkvCommand::BackUpdateCurrentBar),
            196 => Ok(MakeMkvCommand::BackUpdateTotalBar),
            197 => Ok(MakeMkvCommand::BackUpdateLayout),
            198 => Ok(MakeMkvCommand::BackSetTotalName),
            199 => Ok(MakeMkvCommand::BackUpdateCurrentInfo),
            200 => Ok(MakeMkvCommand::BackReportUiMessage),
            201 => Ok(MakeMkvCommand::BackExit),
            202 => Ok(MakeMkvCommand::BackSetTitleCollInfo),
            203 => Ok(MakeMkvCommand::BackSetTitleInfo),
            204 => Ok(MakeMkvCommand::BackSetTrackInfo),
            205 => Ok(MakeMkvCommand::BackSetChapterInfo),
            206 => Ok(MakeMkvCommand::BackReportUiDialog),
            224 => Ok(MakeMkvCommand::BackFatalCommError),
            225 => Ok(MakeMkvCommand::BackOutOfMem),
            239 => Ok(MakeMkvCommand::Unknown),
            _ => {
                let mut m = decimal_string(value as u64);
                m.append(" is not a valid command");
                Err(MakeMkvError::InvalidCommand(m))
            },
        }
    }
}

/// Every command's number names it, and no other command has that number.
pub proof fn lemma_command_code(c: MakeMkvCommand, d: MakeMkvCommand)
    ensures
        MakeMkvCommand::is_code(c.spec_code()),
        c.spec_code() == d.spec_code() ==> c == d,
{
}

/// A string that MakeMKV reports about itself.
#[derive(Copy, Clone, Debug, PartialEq, Eq, Structural)]
pub enum AppString {
    Name,
    Version,
    Platform,
    Build,
    KeyType,
    KeyFeatures,
    KeyExpiration,
    EvalState,
    ProgExpiration,
    LatestVersion,
    RestartRequired,
    ExpertMode,
    ProfileCount,
    ProgExpired,
    OutputFolderName,
    OutputBaseName,
    CurrentProfile,
    OpenFileFilter,
    WebsiteURL,
    OpenDVDFileFilter,
    DefaultSelectionString,
    DefaultOutputFileName,
    ExternalAppItem,
    InterfaceLanguage,
    ProfileString,
    KeyString,
}

impl AppString {
    /// The number of the string on the wire.
    pub open spec fn spec_code(self) -> u32 {
        match self {
            AppString::Name => 0,
            AppString::Version => 1,
            AppString::Platform => 2,
            AppString::Build => 3,
            AppString::KeyType => 4,
            AppString::KeyFeatures => 5,
            AppString::KeyExpiration => 6,
            AppString::EvalState => 7,
            AppString::ProgExpiration => 8,
            AppString::LatestVersion => 9,
            AppString::RestartRequired => 10,
            AppString::ExpertMode => 11,
            AppString::ProfileCount => 12,
            AppString::ProgExpired => 13,
            AppString::OutputFolderName => 14,
            AppString::OutputBaseName => 15,
            AppString::CurrentProfile => 16,
            AppString::OpenFileFilter => 17,
            AppString::WebsiteURL => 18,
            AppString::OpenDVDFileFilter => 19,
            AppString::DefaultSelectionString => 20,
            AppString::DefaultOutputFileName => 21,
            AppString::ExternalAppItem => 22,
            AppString::InterfaceLanguage => 23,
            AppString::ProfileString => 24,
            AppString::KeyString => 25,
        }
    }

    /// The number of the string on the wire.
    pub fn code(&self) -> (c: u32)
        ensures
            c == self.spec_code(),
    {
        match self {
            AppString::Name => 0,
            AppString::Version => 1,
            AppString::Platform => 2,
            AppString::Build => 3,
            AppString::KeyType => 4,
            AppString::KeyFeatures => 5,
            AppString::KeyExpiration => 6,
            AppString::EvalState => 7,
            AppString::ProgExpiration => 8,
            AppString::LatestVersion => 9,
            AppString::RestartRequired => 10,
            AppString::ExpertMode => 11,
            AppString::ProfileCount => 12,
            AppString::ProgExpired => 13,
            AppString::OutputFolderName => 14,
            AppString::OutputBaseName => 15,
            AppString::CurrentProfile => 16,
            AppString::OpenFileFilter => 17,
            AppString::WebsiteURL => 18,
            AppString::OpenDVDFileFilter => 19,
            AppString::DefaultSelectionString => 20,
            AppString::DefaultOutputFileName => 21,
            AppString::ExternalAppItem => 22,
            AppString::InterfaceLanguage => 23,
            AppString::ProfileString => 24,
            AppString::KeyString => 25,
        }
    }
}

/// An attribute of a title, track or chapter.
#[derive(Copy, Clone, Debug, PartialEq, Eq, Structural)]
pub enum ItemAttribute {
    Unknown,
    Type,
    Name,
    LangCode,
    LangName,
    CodecId,
    CodecShort,
    CodecLong,
    ChapterCount,
    Duration,
    DiskSize,
    DiskSizeBytes,
    StreamTypeExtension,
    Bitrate,
    AudioChannelsCount,
    AngleInfo,
    SourceFileName,
    AudioSampleRate,
    AudioSampleSize,
    VideoSize,
    VideoAspectRatio,
    VideoFrameRate,
    StreamFlags,
    DateTime,
    OriginalTitleId,
    SegmentsCount,
    SegmentsMap,
    OutputFileName,
    MetadataLanguageCode,
    MetadataLanguageName,
    TreeInfo,
    PanelTitle,
    VolumeName,
    OrderWeight,
    OutputFormat,
    OutputFormatDescription,
    SeamlessInfo,
    PanelText,
    MkvFlags,
    MkvFlagsText,
    AudioChannelLayoutName,
    OutputCodecShort,
    OutputConversionType,
    OutputAudioSampleRate,
    OutputAudioSampleSize,
    OutputAudioChannelsCount,
    OutputAudioChannelLayoutName,
    OutputAudioChannelLayout,
    OutputAudioMixDescription,
    Comment,
    OffsetSequenceId,
}

impl ItemAttribute {
    /// The number of the attribute on the wire.
    pub open spec fn spec_code(self) -> u32 {
        match self {
            ItemAttribute::Unknown => 0,
            ItemAttribute::Type => 1,
            ItemAttribute::Name => 2,
            ItemAttribute::LangCode => 3,
            ItemAttribute::LangName => 4,
            ItemAttribute::CodecId => 5,
            ItemAttribute::CodecShort => 6,
            ItemAttribute::CodecLong => 7,
            ItemAttribute::ChapterCount => 8,
            ItemAttribute::Duration => 9,
            ItemAttribute::DiskSize => 10,
            ItemAttribute::DiskSizeBytes => 11,
            ItemAttribute::StreamTypeExtension => 12,
            ItemAttribute::Bitrate => 13,
            ItemAttribute::AudioChannelsCount => 14,
            ItemAttribute::AngleInfo => 15,
            ItemAttribute::SourceFileName => 16,
            ItemAttribute::AudioSampleRate => 17,
            ItemAttribute::AudioSampleSize => 18,
            ItemAttribute::VideoSize => 19,
            ItemAttribute::VideoAspectRatio => 20,
            ItemAttribute::VideoFrameRate => 21,
            ItemAttribute::StreamFlags => 22,
            ItemAttribute::DateTime => 23,
            ItemAttribute::OriginalTitleId => 24,
            ItemAttribute::SegmentsCount => 25,
            ItemAttribute::SegmentsMap => 26,
            ItemAttribute::OutputFileName => 27,
            ItemAttribute::MetadataLanguageCode => 28,
            ItemAttribute::MetadataLanguageName => 29,
            ItemAttribute::TreeInfo => 30,
            ItemAttribute::PanelTitle => 31,
            ItemAttribute::VolumeName => 32,
            ItemAttribute::OrderWeight => 33,
            ItemAttribute::OutputFormat => 34,
            ItemAttribute::OutputFormatDescription => 35,
            ItemAttribute::SeamlessInfo => 36,
            ItemAttribute::PanelText => 37,
            ItemAttribute::MkvFlags => 38,
            ItemAttribute::MkvFlagsText => 39,
            ItemAttribute::AudioChannelLayoutName => 40,
            ItemAttribute::OutputCodecShort => 41,
            ItemAttribute::OutputConversionType => 42,
            ItemAttribute::OutputAudioSampleRate => 43,
            ItemAttribute::OutputAudioSampleSize => 44,
            ItemAttribute::OutputAudioChannelsCount => 45,
            ItemAttribute::OutputAudioChannelLayoutName => 46,
            ItemAttribute::OutputAudioChannelLayout => 47,
            ItemAttribute::OutputAudioMixDescription => 48,
            ItemAttribute::Comment => 49,
            ItemAttribute::OffsetSequenceId => 50,
        }
    }

    /// The number of the attribute on the wire.
    pub fn code(&self) -> (c: u32)
        ensures
            c == self.spec_code(),
    {
        match self {
            ItemAttribute::Unknown => 0,
            ItemAttribute::Type => 1,
            ItemAttribute::Name => 2,
            ItemAttribute::LangCode => 3,
            ItemAttribute::LangName => 4,
            ItemAttribute::CodecId => 5,
            ItemAttribute::CodecShort => 6,
            ItemAttribute::CodecLong => 7,
            ItemAttribute::ChapterCount => 8,
            ItemAttribute::Duration => 9,
            ItemAttribute::DiskSize => 10,
            ItemAttribute::DiskSizeBytes => 11,
            ItemAttribute::StreamTypeExtension => 12,
            ItemAttribute::Bitrate => 13,
            ItemAttribute::AudioChannelsCount => 14,
            ItemAttribute::AngleInfo => 15,
            ItemAttribute::SourceFileName => 16,
            ItemAttribute::AudioSampleRate => 17,
            ItemAttribute::AudioSampleSize => 18,
            ItemAttribute::VideoSize => 19,
            ItemAttribute::VideoAspectRatio => 20,
            ItemAttribute::VideoFrameRate => 21,
            ItemAttribute::StreamFlags => 22,
            ItemAttribute::DateTime => 23,
            ItemAttribute::OriginalTitleId => 24,
            ItemAttribute::SegmentsCount => 25,
            ItemAttribute::SegmentsMap => 26,
            ItemAttribute::OutputFileName => 27,
            ItemAttribute::MetadataLanguageCode => 28,
            ItemAttribute::MetadataLanguageName => 29,
            ItemAttribute::TreeInfo => 30,
            ItemAttribute::PanelTitle => 31,
            ItemAttribute::VolumeName => 32,
            ItemAttribute::OrderWeight => 33,
            ItemAttribute::OutputFormat => 34,
            ItemAttribute::OutputFormatDescription => 35,
            ItemAttribute::SeamlessInfo => 36,
            ItemAttribute::PanelText => 37,
            ItemAttribute::MkvFlags => 38,
            ItemAttribute::MkvFlagsText => 39,
            ItemAttribute::AudioChannelLayoutName => 40,
            ItemAttribute::OutputCodecShort => 41,
            ItemAttribute::OutputConversionType => 42,
            ItemAttribute::OutputAudioSampleRate => 43,
            ItemAttribute::OutputAudioSampleSize => 44,
            ItemAttribute::OutputAudioChannelsCount => 45,
            ItemAttribute::OutputAudioChannelLayoutName => 46,
            ItemAttribute::OutputAudioChannelLayout => 47,
            ItemAttribute::OutputAudioMixDescription => 48,
            ItemAttribute::Comment => 49,
            ItemAttribute::OffsetSequenceId => 50,
        }
    }
}

/// The number that a one-byte message carries above its command number.
pub const MAGIC_CMD_NUMBER: u8 = 0xf0;

/// The four-byte header that starts each message: the size of the data
/// (little-endian), the number of 32-bit arguments and the command number.
#[derive(Copy, Clone, Debug, PartialEq, Eq, Structural)]
pub struct MakeMkvHeader {
    pub data_size: u16,
    pub arg_len: u8,
    pub cmd: u8,
}

impl MakeMkvHeader {
    /// A header for a message of the given command.
    pub fn new(data_size: u16, arg_len: u8, cmd: MakeMkvCommand) -> (h: MakeMkvHeader)
        ensures
            h.data_size == data_size,
            h.arg_len == arg_len,
            h.cmd == cmd.spec_code(),
    {
        MakeMkvHeader { data_size, arg_len, cmd: cmd.code() }
    }

    /// The bytes of the header on the wire.
    pub open spec fn spec_bytes(self) -> Seq<u8> {
        seq![(self.data_size % 256) as u8, (self.data_size / 256) as u8, self.arg_len, self.cmd]
    }

    /// The header that four bytes on the wire hold.
    pub open spec fn spec_from_bytes(b: Seq<u8>) -> MakeMkvHeader {
        MakeMkvHeader { data_size: (b[0] + 256 * b[1]) as u16, arg_len: b[2], cmd: b[3] }
    }

    /// The bytes of the header on the wire.
    pub fn as_bytes(&self) -> (b: [u8; 4])
        ensures
            b@ == self.spec_bytes(),
    {
        let size = u16_to_le_bytes(self.data_size);
        let b = [size[0], size[1], self.arg_len, self.cmd];
        assert(b@ =~= self.spec_bytes());
        b
    }

    /// The header that four bytes on the wire hold.
    pub fn read_from_bytes(b: [u8; 4]) -> (h: MakeMkvHeader)
        ensures
            h == Self::spec_from_bytes(b@),
    {
        let data_size = u16_from_le_bytes([b[0], b[1]]);
        MakeMkvHeader { data_size, arg_len: b[2], cmd: b[3] }
    }
}

/// Writing a header and reading the bytes back gives the same header.
pub proof fn lemma_header_roundtrip(h: MakeMkvHeader)
    ensures
        MakeMkvHeader::spec_from_bytes(h.spec_bytes()) == h,
{
}

/// Reading four bytes as a header and writing it gives the same bytes.
pub proof fn lemma_header_bytes_roundtrip(b: Seq<u8>)
    requires
        b.len() == 4,
    ensures
        MakeMkvHeader::spec_from_bytes(b).spec_bytes() == b,
{
    assert(MakeMkvHeader::spec_from_bytes(b).spec_bytes() =~= b);
}

/// The command and sizes announced by the header of a received message.
#[derive(Copy, Clone, Debug, PartialEq, Eq, Structural)]
pub struct ReceivedHeader {
    pub cmd: MakeMkvCommand,
    pub data_size: u16,
    pub arg_len: u8,
}

/// What a header read of `n` bytes announces. Four bytes are a full header;
/// a single byte is a bare command, offset by `MAGIC_CMD_NUMBER`, with no
/// arguments and no data. Any other length is an error, and so is a number
/// that names no command.
pub fn decode_header(buf: [u8; 4], n: usize) -> (r: Result<ReceivedHeader, MakeMkvError>)
    ensures
        n == 4 ==> (r is Ok <==> MakeMkvCommand::is_code(buf[3])),
        n == 4 ==> (r matches Ok(h) ==> h.cmd.spec_code() == buf[3] && h.data_size == buf[0] + 256
            * buf[1] && h.arg_len == buf[2]),
        n == 1 ==> (r is Ok <==> buf[0] >= MAGIC_CMD_NUMBER && MakeMkvCommand::is_code(
            (buf[0] - MAGIC_CMD_NUMBER) as u8,
        )),
        n == 1 ==> (r matches Ok(h) ==> h.cmd.spec_code() == buf[0] - MAGIC_CMD_NUMBER
            && h.data_size == 0 && h.arg_len == 0),
        n == 1 && buf[0] < MAGIC_CMD_NUMBER ==> r matches Err(MakeMkvError::MakeMkv(_)),
        n != 4 && n != 1 ==> r matches Err(MakeMkvError::MakeMkv(_)),
        r matches Err(MakeMkvError::InvalidCommand(_)) ==> n == 4 || n == 1,
{
    if n == 4 {
        let header = MakeMkvHeader::read_from_bytes(buf);
        let cmd = MakeMkvCommand::try_from(header.cmd)?;
        Ok(ReceivedHeader { cmd, data_size: header.data_size, arg_len: header.arg_len })
    } else if n == 1 {
        let cmd_num = buf[0];
        if cmd_num < MAGIC_CMD_NUMBER {
            let mut m = String::new();
            m.append("Received invalid command: ");
            crate::text::push_decimal(&mut m, cmd_num as u64);
            return Err(MakeMkvError::MakeMkv(m));
        }
        let cmd = MakeMkvCommand::try_from(cmd_num - MAGIC_CMD_NUMBER)?;
        Ok(ReceivedHeader { cmd, data_size: 0, arg_len: 0 })
    } else {
        let mut m = decimal_string(n as u64);
        m.append(" is not a valid header length");
        Err(MakeMkvError::MakeMkv(m))
    }
}

/// The little-endian bytes of a sequence of 32-bit arguments.
pub open spec fn spec_args_le(args: Seq<u32>) -> Seq<u8>
    decreases args.len(),
{
    if args.len() == 0 {
        Seq::empty()
    } else {
        spec_args_le(args.drop_last()) + spec_u32_le(args.last())
    }
}

/// The header of a message carrying `arg_count` arguments and `data_len`
/// bytes of data: both counts are cut to the width of their header field.
pub open spec fn spec_message_header(cmd: MakeMkvCommand, arg_count: nat, data_len: nat) -> MakeMkvHeader {
    MakeMkvHeader {
        data_size: (data_len % 65536) as u16,
        arg_len: (arg_count % 256) as u8,
        cmd: cmd.spec_code(),
    }
}

/// The bytes of a message: the header, the arguments little-endian, then
/// the data.
pub open spec fn spec_message(cmd: MakeMkvCommand, args: Seq<u32>, data: Seq<u8>) -> Seq<u8> {
    spec_message_header(cmd, args.len(), data.len()).spec_bytes() + spec_args_le(args) + data
}

/// The bytes of the message that sends `cmd` with its arguments and data.
pub fn encode_message(cmd: MakeMkvCommand, args: &[u32], data: &[u8]) -> (m: Vec<u8>)
    ensures
        m@ == spec_message(cmd, args@, data@),
{
    let header = MakeMkvHeader::new(
        (data.len() % 65536) as u16,
        (args.len() % 256) as u8,
        cmd,
    ).as_bytes();
    let mut m: Vec<u8> = Vec::new();
    m.push(header[0]);
    m.push(header[1]);
    m.push(header[2]);
    m.push(header[3]);
    let ghost head = m@;
    assert(head =~= spec_message_header(cmd, args@.len(), data@.len()).spec_bytes());
    let mut i: usize = 0;
    while i < args.len()
        invariant
            i <= args@.len(),
            m@ == head + spec_args_le(args@.subrange(0, i as int)),
        decreases args@.len() - i,
    {
        let b = u32_to_le_bytes(args[i]);
        m.push(b[0]);
        m.push(b[1]);
        m.push(b[2]);
        m.push(b[3]);
        proof {
            assert(args@.subrange(0, i + 1).drop_last() =~= args@.subrange(0, i as int));
            assert(m@ =~= head + spec_args_le(args@.subrange(0, i + 1)));
        }
        i = i + 1;
    }
    assert(args@.subrange(0, i as int) =~= args@);
    let ghost with_args = m@;
    let mut j: usize = 0;
    while j < data.len()
        invariant
            j <= data@.len(),
            m@ == with_args + data@.subrange(0, j as int),
        decreases data@.len() - j,
    {
        m.push(data[j]);
        proof {
            assert(m@ =~= with_args + data@.subrange(0, j + 1));
        }
        j = j + 1;
    }
    assert(data@.subrange(0, j as int) =~= data@);
    m
}

/// The header at the start of an encoded message reads back as the command
/// and the counts that were encoded, cut to the width of their fields.
pub proof fn lemma_message_header_roundtrip(cmd: MakeMkvCommand, args: Seq<u32>, data: Seq<u8>)
    ensures
        spec_message(cmd, args, data).subrange(0, 4) == spec_message_header(cmd, args.len(), data.len()).spec_bytes(),
        MakeMkvHeader::spec_from_bytes(spec_message(cmd, args, data).subrange(0, 4)) == spec_message_header(
            cmd,
            args.len(),
            data.len(),
        ),
        MakeMkvCommand::is_code(MakeMkvHeader::spec_from_bytes(spec_message(cmd, args, data).subrange(0, 4)).cmd),
{
    let h = spec_message_header(cmd, args.len(), data.len());
    assert(spec_message(cmd, args, data).subrange(0, 4) =~= h.spec_bytes());
    lemma_header_roundtrip(h);
    lemma_command_code(cmd, cmd);
}

/// The length of the little-endian encoding of a sequence of arguments.
pub proof fn lemma_args_le_len(args: Seq<u32>)
    ensures
        spec_args_le(args).len() == 4 * args.len(),
    decreases args.len(),
{
    if args.len() > 0 {
        lemma_args_le_len(args.drop_last());
    }
}

/// The four bytes of argument `i` in the encoding of the arguments are
/// that argument, little-endian.
proof fn lemma_args_le_index(args: Seq<u32>, i: int)
    requires
        0 <= i < args.len(),
    ensures
        spec_args_le(args).subrange(4 * i, 4 * i + 4) == spec_u32_le(args[i]),
    decreases args.len(),
{
    let pre = args.drop_last();
    lemma_args_le_len(pre);
    let e = spec_args_le(args);
    assert(e == spec_args_le(pre) + spec_u32_le(args.last()));
    if i == args.len() - 1 {
        assert(e.subrange(4 * i, 4 * i + 4) =~= spec_u32_le(args[i]));
    } else {
        lemma_args_le_index(pre, i);
        assert(e.subrange(4 * i, 4 * i + 4) =~= spec_args_le(pre).subrange(4 * i, 4 * i + 4));
    }
}

/// Reading back an encoded message gives what was encoded: when the counts
/// fit their header fields, the header names the command and announces the
/// number of arguments and the size of the data, each argument reads back
/// from its four little-endian bytes, and the data follows them.
pub proof fn lemma_message_roundtrip(cmd: MakeMkvCommand, args: Seq<u32>, data: Seq<u8>)
    requires
        args.len() < 256,
        data.len() < 65536,
    ensures
        ({
            let m = spec_message(cmd, args, data);
            let h = MakeMkvHeader::spec_from_bytes(m.subrange(0, 4));
            &&& m.len() == 4 + 4 * args.len() + data.len()
            &&& h.cmd == cmd.spec_code()
            &&& h.arg_len == args.len()
            &&& h.data_size == data.len()
            &&& forall|i: int|
                0 <= i < args.len() ==> spec_le_u32(#[trigger] m.subrange(4 + 4 * i, 8 + 4 * i))
                    == args[i]
            &&& m.subrange(4 + 4 * args.len() as int, m.len() as int) == data
        }),
{
    let m = spec_message(cmd, args, data);
    let e = spec_args_le(args);
    lemma_message_header_roundtrip(cmd, args, data);
    lemma_args_le_len(args);
    let head = spec_message_header(cmd, args.len(), data.len()).spec_bytes();
    assert(m == head + e + data);
    assert forall|i: int| 0 <= i < args.len() implies spec_le_u32(
        #[trigger] m.subrange(4 + 4 * i, 8 + 4 * i),
    ) == args[i] by {
        lemma_args_le_index(args, i);
        assert(m.subrange(4 + 4 * i, 8 + 4 * i) =~= e.subrange(4 * i, 4 * i + 4));
        lemma_u32_le_roundtrip(args[i]);
    }
    assert(m.subrange(4 + 4 * args.len() as int, m.len() as int) =~= data);
}

/// A response to a call: its command and the arguments and data that came
/// with it.
pub struct AbiResponse {
    pub _cmd: MakeMkvCommand,
    pub args: Vec<u32>,
    pub data: Vec<u8>,
}

impl AbiResponse {
    /// A response made of the given parts.
    pub fn new(cmd: MakeMkvCommand, args: Vec<u32>, data: Vec<u8>) -> (r: AbiResponse)
        ensures
            r._cmd == cmd,
            r.args@ == args@,
            r.data@ == data@,
    {
        AbiResponse { _cmd: cmd, args, data }
    }
}

/// What MakeMKV reports about itself.
#[derive(Clone, Debug)]
pub struct MakeMkvInfo {
    pub name: String,
    pub version: String,
    pub platform: String,
    pub interface_language: String,
    pub build: String,
    pub key_type: String,
    pub key_features: String,
    pub key_expiration: String,
    pub eval_state: String,
    pub prog_expiration: String,
    pub latest_version: String,
    pub restart_required: String,
    pub expert_mode: String,
    pub profile_count: String,
    pub prog_expired: String,
    pub current_profile: String,
    pub open_file_filter: String,
    pub website_url: String,
    pub open_dvd_file_filter: String,
    pub default_selection_string: String,
    pub default_output_file_name: String,
    pub external_app_item: String,
    pub profile_string: String,
    pub key_string: String,
}

/// The strings that make up `MakeMkvInfo`, in the order in which they are
/// asked for.
pub open spec fn spec_info_keys() -> Seq<AppString> {
    seq![
        AppString::Name,
        AppString::Version,
        AppString::Platform,
        AppString::InterfaceLanguage,
        AppString::KeyType,
        AppString::KeyFeatures,
        AppString::KeyExpiration,
        AppString::EvalState,
        AppString::ProgExpiration,
        AppString::LatestVersion,
        AppString::RestartRequired,
        AppString::ExpertMode,
        AppString::ProfileCount,
        AppString::ProgExpired,
        AppString::CurrentProfile,
        AppString::OpenFileFilter,
        AppString::WebsiteURL,
        AppString::OpenDVDFileFilter,
        AppString::DefaultSelectionString,
        AppString::DefaultOutputFileName,
        AppString::ExternalAppItem,
        AppString::ProfileString,
        AppString::KeyString,
        AppString::Build,
    ]
}

} // verus!
