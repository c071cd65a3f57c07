//! The state that a MakeMKV session builds from what the server sends, and
//! the requests and replies of the calls that the client makes.

use crate::command::{AbiResponse, AppString, ItemAttribute, MakeMkvCommand, MakeMkvInfo, spec_info_keys};
use crate::drive::{opt_view, spec_update, DriveInfo, DriveState, UpdateSpec};
use crate::error::MakeMkvError;
use crate::language_data::LanguageData;
use crate::text::{from_utf8_lossy, utf8_lossy};
use crate::title::TitleList;
use crate::util::{spec_u32s_to_u64, u32s_to_u64, u64_to_le_u32};
use vstd::prelude::*;
use vstd::string::*;

verus! {

/// The raw positions of the two progress bars, out of 65535.
#[derive(Copy, Clone, Debug, PartialEq, Eq, Structural)]
pub struct ProgressBars {
    pub current: u32,
    pub total: u32,
}

impl ProgressBars {
    /// Both bars at their start, as a new rip shows them.
    pub fn new() -> (p: ProgressBars)
        ensures
            p.current == 0,
            p.total == 0,
    {
        ProgressBars { current: 0, total: 0 }
    }
}

/// The byte with which the client answers the server's greeting.
pub const HANDSHAKE_REPLY: u8 = 0xBB;

/// Whether a four-byte chunk of the server's greeting is its last one: the
/// greeting ends with a chunk whose last byte is `0xAA`.
pub fn ends_greeting(chunk: [u8; 4]) -> (b: bool)
    ensures
        b == (chunk[3] == 0xAA),
{
    chunk[3] == 0xAA
}

/// The number of slots for the current-operation texts.
pub const CURRENT_INFO_SLOTS: usize = 10;

/// What a session has learnt from the server's notifications.
pub struct SessionState {
    pub drive: Option<DriveInfo>,
    pub titles: Option<TitleList>,
    pub language_data: Option<LanguageData>,
    pub current_info: Vec<Option<String>>,
    pub progress: ProgressBars,
    pub job_mode: bool,
}

/// What to do after a message from the server has been taken in.
pub enum MessageOutcome {
    /// The message answers the call: hand this response back.
    Respond(AbiResponse),
    /// Acknowledge the message with `ClientDone`; when a progress bar moved,
    /// report the progress first.
    Acknowledge { progress_changed: bool },
    /// Read the next message without acknowledging this one.
    Skip,
}

impl SessionState {
    /// There are ten text slots, and the title list is well formed.
    pub open spec fn wf(&self) -> bool {
        &&& self.current_info@.len() == CURRENT_INFO_SLOTS
        &&& self.titles matches Some(t) ==> t.wf()
    }

    /// A session that knows nothing yet.
    pub fn new() -> (s: SessionState)
        ensures
            s.wf(),
            s.drive is None,
            s.titles is None,
            s.language_data is None,
            forall|i: int| 0 <= i < CURRENT_INFO_SLOTS ==> s.current_info@[i] is None,
            s.progress == (ProgressBars { current: 0, total: 0 }),
            !s.job_mode,
    {
        let mut current_info: Vec<Option<String>> = Vec::new();
        let mut i: usize = 0;
        while i < CURRENT_INFO_SLOTS
            invariant
                i <= CURRENT_INFO_SLOTS,
                current_info@.len() == i,
                forall|k: int| 0 <= k < i ==> current_info@[k] is None,
            decreases CURRENT_INFO_SLOTS - i,
        {
            current_info.push(None);
            i = i + 1;
        }
        SessionState {
            drive: None,
            titles: None,
            language_data: None,
            current_info,
            progress: ProgressBars::new(),
            job_mode: false,
        }
    }

    /// A message that the handling cannot take without going out of bounds:
    /// a drive update with a record that cannot be sliced, or a title for a
    /// slot beyond the announced number of titles.
    pub open spec fn spec_message_panics(&self, cmd: MakeMkvCommand, args: Seq<u32>, data: Seq<u8>) -> bool {
        ||| cmd == MakeMkvCommand::BackUpdateDrive && spec_update(args, data) is Malformed
        ||| {
            &&& cmd == MakeMkvCommand::BackSetTitleInfo
            &&& args.len() == 7
            &&& self.titles matches Some(t)
            &&& args[0] >= t.size
        }
    }

    /// Whether handling the message would go out of bounds.
    pub fn message_panics(&self, cmd: MakeMkvCommand, args: &[u32], data: &[u8]) -> (b: bool)
        ensures
            b == self.spec_message_panics(cmd, args@, data@),
    {
        match cmd {
            MakeMkvCommand::BackUpdateDrive => DriveInfo::update_is_malformed(args, data),
            MakeMkvCommand::BackSetTitleInfo => {
                if args.len() != 7 {
                    return false;
                }
                match &self.titles {
                    Some(t) => args[0] >= t.size,
                    None => false,
                }
            },
            _ => false,
        }
    }

    /// Everything but the drive is as before.
    pub open spec fn same_but_drive(&self, other: &SessionState) -> bool {
        &&& self.titles == other.titles
        &&& self.language_data == other.language_data
        &&& self.current_info == other.current_info
        &&& self.progress == other.progress
        &&& self.job_mode == other.job_mode
    }

    /// Everything but the titles is as before.
    pub open spec fn same_but_titles(&self, other: &SessionState) -> bool {
        &&& self.drive == other.drive
        &&& self.language_data == other.language_data
        &&& self.current_info == other.current_info
        &&& self.progress == other.progress
        &&& self.job_mode == other.job_mode
    }

    /// Everything but the progress bars and the job mode is as before.
    pub open spec fn same_but_progress(&self, other: &SessionState) -> bool {
        &&& self.drive == other.drive
        &&& self.titles == other.titles
        &&& self.language_data == other.language_data
        &&& self.current_info == other.current_info
    }

    /// Takes in a message from the server and says what to do next:
    /// - a `Return` answers the call with its arguments and data;
    /// - a drive update replaces the drive when it parses, and is otherwise
    ///   ignored;
    /// - a title-collection message of three arguments starts a new title
    ///   list, a title message of seven arguments fills a title slot, a track
    ///   message of at least four and a chapter message of exactly four
    ///   arguments fill a slot of a title; the wrong number of arguments
    ///   (or a title message before any title list) skips the message;
    /// - a current-info text goes to its slot when the slot number is below
    ///   ten;
    /// - job-mode messages set and clear the job mode, progress messages
    ///   move a bar;
    /// - anything else is acknowledged and changes nothing.
    pub fn handle_message(&mut self, cmd: MakeMkvCommand, args: Vec<u32>, data: Vec<u8>) -> (r: MessageOutcome)
        requires
            old(self).wf(),
            !old(self).spec_message_panics(cmd, args@, data@),
        ensures
            final(self).wf(),
            cmd == MakeMkvCommand::Return ==> {
                &&& r matches MessageOutcome::Respond(resp)
                &&& resp._cmd == cmd
                &&& resp.args@ == args@
                &&& resp.data@ == data@
            },
            cmd != MakeMkvCommand::Return ==> !(r is Respond),
            cmd == MakeMkvCommand::BackUpdateDrive ==> {
                &&& r matches MessageOutcome::Acknowledge { progress_changed: false }
                &&& final(self).same_but_drive(old(self))
                &&& match spec_update(args@, data@) {
                    UpdateSpec::Parsed(v) => final(self).drive matches Some(d) && d@ == v,
                    _ => final(self).drive == old(self).drive,
                }
            },
            cmd == MakeMkvCommand::BackSetTitleCollInfo ==> {
                &&& final(self).same_but_titles(old(self))
                &&& args@.len() != 3 ==> r is Skip && final(self).titles == old(self).titles
                &&& args@.len() == 3 ==> {
                    &&& r matches MessageOutcome::Acknowledge { progress_changed: false }
                    &&& final(self).titles matches Some(t)
                    &&& t.handle == spec_u32s_to_u64(args@[1], args@[0])
                    &&& t.size == args@[2]
                    &&& t.titles@ == crate::title::empty_slots::<crate::title::Title>(
                        args@[2] as nat,
                    )
                    &&& t.name is None
                }
            },
            cmd == MakeMkvCommand::BackSetTitleInfo ==> {
                &&& final(self).same_but_titles(old(self))
                &&& (args@.len() != 7 || old(self).titles is None) ==> r is Skip
                    && final(self).titles == old(self).titles
                &&& (args@.len() == 7 && old(self).titles is Some) ==> {
                    &&& r matches MessageOutcome::Acknowledge { progress_changed: false }
                    &&& final(self).titles matches Some(t)
                    &&& old(self).titles matches Some(o)
                    &&& t.handle == o.handle && t.size == o.size && t.name == o.name
                    &&& forall|i: int|
                        0 <= i < t.titles@.len() && i != args@[0] ==> t.titles@[i]
                            == o.titles@[i]
                    &&& t.titles@[args@[0] as int] matches Some(title)
                    &&& title.is_fresh(
                        spec_u32s_to_u64(args@[2], args@[1]) as u64,
                        spec_u32s_to_u64(args@[6], args@[5]) as u64,
                        args@[4],
                        args@[3],
                    )
                }
            },
            cmd == MakeMkvCommand::BackSetTrackInfo ==> {
                &&& final(self).same_but_titles(old(self))
                &&& args@.len() < 4 ==> r is Skip && final(self).titles == old(self).titles
                &&& args@.len() >= 4 ==> (r matches MessageOutcome::Acknowledge { progress_changed: false })
                &&& args@.len() >= 4 && old(self).titles is None ==> final(self).titles is None
                &&& args@.len() >= 4 && old(self).titles is Some ==> {
                    &&& final(self).titles matches Some(t)
                    &&& old(self).titles matches Some(o)
                    &&& t.is_track_added(&o, args@[0], args@[1], spec_u32s_to_u64(args@[3], args@[2]) as u64)
                }
            },
            cmd == MakeMkvCommand::BackSetChapterInfo ==> {
                &&& final(self).same_but_titles(old(self))
                &&& args@.len() != 4 ==> r is Skip && final(self).titles == old(self).titles
                &&& args@.len() == 4 ==> (r matches MessageOutcome::Acknowledge { progress_changed: false })
                &&& args@.len() == 4 && old(self).titles is None ==> final(self).titles is None
                &&& args@.len() == 4 && old(self).titles is Some ==> {
                    &&& final(self).titles matches Some(t)
                    &&& old(self).titles matches Some(o)
                    &&& t.is_chapter_added(&o, args@[0], args@[1], spec_u32s_to_u64(args@[3], args@[2]) as u64)
                }
            },
            cmd == MakeMkvCommand::BackUpdateCurrentInfo ==> {
                &&& r matches MessageOutcome::Acknowledge { progress_changed: false }
                &&& final(self).drive == old(self).drive
                &&& final(self).titles == old(self).titles
                &&& final(self).language_data == old(self).language_data
                &&& final(self).progress == old(self).progress
                &&& final(self).job_mode == old(self).job_mode
                &&& (args@.len() > 0 && args@[0] < 10) ==> {
                    &&& forall|i: int|
                        0 <= i < CURRENT_INFO_SLOTS && i != args@[0]
                            ==> final(self).current_info@[i] == old(self).current_info@[i]
                    &&& final(self).current_info@[args@[0] as int] matches Some(s)
                    &&& s@ == utf8_lossy(data@)
                }
                &&& !(args@.len() > 0 && args@[0] < 10) ==> final(self).current_info
                    == old(self).current_info
            },
            cmd == MakeMkvCommand::BackEnterJobMode || cmd == MakeMkvCommand::BackLeaveJobMode ==> {
                &&& r matches MessageOutcome::Acknowledge { progress_changed: false }
                &&& final(self).same_but_progress(old(self))
                &&& final(self).progress == old(self).progress
                &&& final(self).job_mode == (cmd == MakeMkvCommand::BackEnterJobMode)
            },
            cmd == MakeMkvCommand::BackUpdateCurrentBar ==> {
                &&& final(self).same_but_progress(old(self))
                &&& final(self).job_mode == old(self).job_mode
                &&& args@.len() > 0 ==> (r matches MessageOutcome::Acknowledge { progress_changed: true }) && final(self).progress == (ProgressBars {
                    current: args@[0],
                    total: old(self).progress.total,
                })
                &&& args@.len() == 0 ==> (r matches MessageOutcome::Acknowledge { progress_changed: false }) && final(self).progress == old(self).progress
            },
            cmd == MakeMkvCommand::BackUpdateTotalBar ==> {
                &&& final(self).same_but_progress(old(self))
                &&& final(self).job_mode == old(self).job_mode
                &&& args@.len() > 0 ==> (r matches MessageOutcome::Acknowledge { progress_changed: true }) && final(self).progress == (ProgressBars {
                    current: old(self).progress.current,
                    total: args@[0],
                })
                &&& args@.len() == 0 ==> (r matches MessageOutcome::Acknowledge { progress_changed: false }) && final(self).progress == old(self).progress
            },
            !(cmd == MakeMkvCommand::Return || cmd == MakeMkvCommand::BackUpdateDrive || cmd
                == MakeMkvCommand::BackSetTitleCollInfo || cmd == MakeMkvCommand::BackSetTitleInfo
                || cmd == MakeMkvCommand::BackSetTrackInfo || cmd
                == MakeMkvCommand::BackSetChapterInfo || cmd
                == MakeMkvCommand::BackUpdateCurrentInfo || cmd
                == MakeMkvCommand::BackEnterJobMode || cmd == MakeMkvCommand::BackLeaveJobMode
                || cmd == MakeMkvCommand::BackUpdateCurrentBar || cmd
                == MakeMkvCommand::BackUpdateTotalBar) ==> {
                &&& r matches MessageOutcome::Acknowledge { progress_changed: false }
                &&& final(self).same_but_progress(old(self))
                &&& final(self).progress == old(self).progress
                &&& final(self).job_mode == old(self).job_mode
            },
            cmd == MakeMkvCommand::Return ==> {
                &&& final(self).same_but_progress(old(self))
                &&& final(self).progress == old(self).progress
                &&& final(self).job_mode == old(self).job_mode
            },
    {
        match cmd {
            MakeMkvCommand::BackUpdateDrive => {
                match DriveInfo::try_from_update(args.as_slice(), data.as_slice()) {
                    Ok(drive) => {
                        self.drive = Some(drive);
                    },
                    Err(_) => {},
                }
                MessageOutcome::Acknowledge { progress_changed: false }
            },
            MakeMkvCommand::BackSetTitleCollInfo => {
                if args.len() != 3 {
                    return MessageOutcome::Skip;
                }
                let handle = u32s_to_u64(args[1], args[0]);
                self.titles = Some(TitleList::new(handle, args[2]));
                MessageOutcome::Acknowledge { progress_changed: false }
            },
            MakeMkvCommand::BackSetTitleInfo => {
                if args.len() != 7 || self.titles.is_none() {
                    return MessageOutcome::Skip;
                }
                let handle = u32s_to_u64(args[2], args[1]);
                let chapter_handle = u32s_to_u64(args[6], args[5]);
                if let Some(titles) = &mut self.titles {
                    titles.add_title(args[0], handle, chapter_handle, args[4], args[3]);
                }
                MessageOutcome::Acknowledge { progress_changed: false }
            },
            MakeMkvCommand::BackSetTrackInfo => {
                if args.len() < 4 {
                    return MessageOutcome::Skip;
                }
                let handle = u32s_to_u64(args[3], args[2]);
                if let Some(titles) = &mut self.titles {
                    titles.add_track(args[0], args[1], handle);
                }
                MessageOutcome::Acknowledge { progress_changed: false }
            },
            MakeMkvCommand::BackSetChapterInfo => {
                if args.len() != 4 {
                    return MessageOutcome::Skip;
                }
                let handle = u32s_to_u64(args[3], args[2]);
                if let Some(titles) = &mut self.titles {
                    titles.add_chapter(args[0], args[1], handle);
                }
                MessageOutcome::Acknowledge { progress_changed: false }
            },
            MakeMkvCommand::BackUpdateCurrentInfo => {
                if args.len() > 0 && args[0] < 10 {
                    let text = from_utf8_lossy(data.as_slice());
                    self.current_info.set(args[0] as usize, Some(text));
                }
                MessageOutcome::Acknowledge { progress_changed: false }
            },
            MakeMkvCommand::BackEnterJobMode => {
                self.job_mode = true;
                MessageOutcome::Acknowledge { progress_changed: false }
            },
            MakeMkvCommand::BackLeaveJobMode => {
                self.job_mode = false;
                MessageOutcome::Acknowledge { progress_changed: false }
            },
            MakeMkvCommand::BackUpdateCurrentBar => {
                if args.len() > 0 {
                    self.progress.current = args[0];
                    MessageOutcome::Acknowledge { progress_changed: true }
                } else {
                    MessageOutcome::Acknowledge { progress_changed: false }
                }
            },
            MakeMkvCommand::BackUpdateTotalBar => {
                if args.len() > 0 {
                    self.progress.total = args[0];
                    MessageOutcome::Acknowledge { progress_changed: true }
                } else {
                    MessageOutcome::Acknowledge { progress_changed: false }
                }
            },
            MakeMkvCommand::Return => MessageOutcome::Respond(AbiResponse::new(cmd, args, data)),
            _ => MessageOutcome::Acknowledge { progress_changed: false },
        }
    }
}

impl SessionState {
    /// The id of the drive, when a disc is inserted in it.
    pub fn inserted_drive(&self) -> (r: Option<u32>)
        ensures
            match self.drive {
                Some(d) => if d.drive_state == DriveState::Inserted {
                    r == Some(d.drive_id)
                } else {
                    r is None
                },
                None => r is None,
            },
    {
        match &self.drive {
            Some(d) => if d.drive_state == DriveState::Inserted {
                Some(d.drive_id)
            } else {
                None
            },
            None => None,
        }
    }

    /// A reply to `CallGetUiItemInfo` that the decoding cannot take without
    /// going out of bounds: a text reply with no data at all.
    pub open spec fn spec_item_info_panics(&self, args: Seq<u32>, data: Seq<u8>) -> bool {
        &&& args.len() > 1
        &&& !(args[0] != 0 && self.language_data is Some)
        &&& args[1] != 0
        &&& data.len() == 0
    }

    /// Whether decoding the reply would go out of bounds.
    pub fn item_info_panics(&self, args: &[u32], data: &[u8]) -> (b: bool)
        ensures
            b == self.spec_item_info_panics(args@, data@),
    {
        args.len() > 1 && !(args[0] != 0 && self.language_data.is_some()) && args[1] != 0
            && data.len() == 0
    }

    /// The text of an item attribute from the reply to `CallGetUiItemInfo`:
    /// a nonzero first argument names an entry of the language table (when
    /// one is loaded); otherwise a nonzero second argument says that the
    /// data holds the text, ended by one byte. A reply without arguments,
    /// or with neither, is an error.
    pub fn item_info_from_response(&self, args: &[u32], data: &[u8]) -> (r: Result<
        Option<String>,
        MakeMkvError,
    >)
        requires
            !self.spec_item_info_panics(args@, data@),
        ensures
            args@.len() == 0 ==> r matches Err(MakeMkvError::InvalidResponse(_)),
            args@.len() > 0 && args@[0] != 0 && self.language_data is Some ==> {
                &&& self.language_data matches Some(l)
                &&& r matches Ok(v)
                &&& v matches Some(s) ==> l@.contains_key(args@[0]) && s@ == l@[args@[0]]
                &&& v is None ==> !l@.contains_key(args@[0])
            },
            args@.len() > 1 && !(args@[0] != 0 && self.language_data is Some) && args@[1] != 0 ==> {
                &&& r matches Ok(Some(s))
                &&& s@ == utf8_lossy(data@.subrange(0, data@.len() - 1))
            },
            args@.len() > 0 && !(args@[0] != 0 && self.language_data is Some) && !(args@.len() > 1
                && args@[1] != 0) ==> r matches Err(MakeMkvError::InvalidResponse(_)),
    {
        if args.len() == 0 {
            return Err(MakeMkvError::InvalidResponse("Args is empty".to_owned()));
        }
        if args[0] != 0 {
            if let Some(language_data) = &self.language_data {
                return Ok(language_data.get(args[0]));
            }
        }
        if args.len() > 1 && args[1] != 0 {
            return Ok(Some(from_utf8_lossy(&data[0..data.len() - 1])));
        }
        Err(MakeMkvError::InvalidResponse("Invalid get item info response, no data".to_owned()))
    }
}

/// The arguments of `CallAppGetString`: the string's number and two
/// indices, missing ones being zero.
pub fn app_string_request(key: AppString, index1: Option<u32>, index2: Option<u32>) -> (r: Vec<u32>)
    ensures
        r@ == seq![
            key.spec_code(),
            match index1 {
                Some(i) => i,
                None => 0u32,
            },
            match index2 {
                Some(i) => i,
                None => 0u32,
            },
        ],
{
    let i1 = match index1 {
        Some(i) => i,
        None => 0,
    };
    let i2 = match index2 {
        Some(i) => i,
        None => 0,
    };
    let r = vec![key.code(), i1, i2];
    assert(r@ =~= seq![key.spec_code(), i1, i2]);
    r
}

/// The text of a reply to `CallAppGetString`: the data without its last
/// byte, or the empty string when there is no data.
pub fn decode_app_string(data: &[u8]) -> (s: String)
    ensures
        data@.len() > 0 ==> s@ == utf8_lossy(data@.subrange(0, data@.len() - 1)),
        data@.len() == 0 ==> s@ == Seq::<char>::empty(),
{
    if data.len() > 0 {
        from_utf8_lossy(&data[0..data.len() - 1])
    } else {
        String::new()
    }
}

/// The arguments that address an item: its handle as little-endian words.
pub open spec fn spec_handle_args(handle: u64) -> Seq<u32> {
    seq![(handle % 0x1_0000_0000) as u32, (handle / 0x1_0000_0000) as u32]
}

/// The arguments of `CallGetUiItemInfo`.
pub fn item_info_request(handle: u64, attribute: ItemAttribute) -> (r: Vec<u32>)
    ensures
        r@ == spec_handle_args(handle).push(attribute.spec_code()),
{
    let words = u64_to_le_u32(handle);
    let r = vec![words[0], words[1], attribute.code()];
    assert(r@ =~= spec_handle_args(handle).push(attribute.spec_code()));
    r
}

/// The arguments of `CallGetUiItemState`.
pub fn item_state_request(handle: u64) -> (r: Vec<u32>)
    ensures
        r@ == spec_handle_args(handle),
{
    let words = u64_to_le_u32(handle);
    let r = vec![words[0], words[1]];
    assert(r@ =~= spec_handle_args(handle));
    r
}

/// The arguments of `CallSetUiItemState`.
pub fn set_item_state_request(handle: u64, state: u32) -> (r: Vec<u32>)
    ensures
        r@ == spec_handle_args(handle).push(state),
{
    let words = u64_to_le_u32(handle);
    let r = vec![words[0], words[1], state];
    assert(r@ =~= spec_handle_args(handle).push(state));
    r
}

/// The item state that selects an item for ripping, or deselects it: all
/// bits set, the lowest one only when selected.
pub fn enable_state(enable: bool) -> (s: u32)
    ensures
        s == if enable {
            0xffff_ffffu32
        } else {
            0xffff_fffeu32
        },
{
    let bit: u32 = if enable {
        1
    } else {
        0
    };
    assert(0xfffffffeu32 | 1u32 == 0xffffffffu32) by (bit_vector);
    assert(0xfffffffeu32 | 0u32 == 0xfffffffeu32) by (bit_vector);
    0xffff_fffe | bit
}

/// Whether an item state says that the item is selected: its lowest bit.
pub fn item_state_enabled(state: u32) -> (b: bool)
    ensures
        b == (state % 2 == 1),
{
    assert(state & 1u32 == state % 2) by (bit_vector);
    state & 1 == 1
}

/// Selecting or deselecting an item, and reading the state back, gives
/// the selection.
pub proof fn lemma_enable_state_roundtrip(enable: bool)
    ensures
        (if enable {
            0xffff_ffffu32
        } else {
            0xffff_fffeu32
        }) % 2 == 1 <==> enable,
{
}

/// The state in a reply to `CallGetUiItemState`: its first argument.
pub fn item_state_from_response(args: &[u32]) -> (r: Result<u32, MakeMkvError>)
    ensures
        args@.len() > 0 ==> r == Ok::<u32, MakeMkvError>(args@[0]),
        args@.len() == 0 ==> r matches Err(MakeMkvError::MakeMkv(_)),
{
    if args.len() > 0 {
        Ok(args[0])
    } else {
        Err(MakeMkvError::MakeMkv("No arg received in response".to_owned()))
    }
}

/// The data of `CallSetOutputFolder`: the folder's UTF-8 bytes and a NUL.
pub fn output_folder_payload(folder: &str) -> (r: Vec<u8>)
    ensures
        r@ == folder.spec_bytes().push(0),
{
    let bytes = folder.as_bytes();
    let mut r: Vec<u8> = Vec::new();
    let mut i: usize = 0;
    while i < bytes.len()
        invariant
            i <= bytes@.len(),
            bytes@ == folder.spec_bytes(),
            r@ == bytes@.subrange(0, i as int),
        decreases bytes@.len() - i,
    {
        r.push(bytes[i]);
        i = i + 1;
        assert(r@ =~= bytes@.subrange(0, i as int));
    }
    assert(bytes@.subrange(0, i as int) =~= bytes@);
    r.push(0);
    r
}

/// The arguments of `CallOpenDisk`: the drive index and the flags, zero
/// when missing.
pub fn open_disk_request(index: u32, flags: Option<u32>) -> (r: Vec<u32>)
    ensures
        r@ == seq![
            index,
            match flags {
                Some(f) => f,
                None => 0u32,
            },
        ],
{
    let f = match flags {
        Some(f) => f,
        None => 0,
    };
    let r = vec![index, f];
    assert(r@ =~= seq![index, f]);
    r
}

/// The arguments of `CallUpdateAvailableDrives`: the flags, zero when
/// missing.
pub fn update_drives_request(flags: Option<u32>) -> (r: Vec<u32>)
    ensures
        r@ == seq![
            match flags {
                Some(f) => f,
                None => 0u32,
            },
        ],
{
    let f = match flags {
        Some(f) => f,
        None => 0,
    };
    let r = vec![f];
    assert(r@ =~= seq![f]);
    r
}

/// The protocol version that the client speaks.
pub open spec fn spec_abi_version() -> Seq<u8> {
    seq![0x41u8, 0x30u8, 0x30u8, 0x30u8, 0x31u8]
}

/// Whether the version that the server announces is `A0001`, the one that
/// the client speaks.
pub fn is_expected_abi_version(bytes: &[u8]) -> (b: bool)
    ensures
        b == (bytes@ == spec_abi_version()),
{
    let ok = bytes.len() == 5 && bytes[0] == 0x41 && bytes[1] == 0x30 && bytes[2] == 0x30
        && bytes[3] == 0x30 && bytes[4] == 0x31;
    proof {
        if ok {
            assert(bytes@ =~= spec_abi_version());
        } else if bytes@ == spec_abi_version() {
            assert(bytes@[0] == 0x41 && bytes@[1] == 0x30 && bytes@[4] == 0x31);
        }
    }
    ok
}

/// The strings to ask for, in order, to learn what MakeMKV reports about
/// itself.
pub fn info_keys() -> (keys: Vec<AppString>)
    ensures
        keys@ == spec_info_keys(),
{
    let keys = vec![
        AppString::Name,
        AppString::Version,
        AppString::Platform,
        AppString::InterfaceLanguage,
        AppString::KeyType,
        AppString::KeyFeatures,
        AppString::KeyExpiration,
        AppString::EvalState,
        AppString::ProgExpiration,
        AppString::LatestVersion,
        AppString::RestartRequired,
        AppString::ExpertMode,
        AppString::ProfileCount,
        AppString::ProgExpired,
        AppString::CurrentProfile,
        AppString::OpenFileFilter,
        AppString::WebsiteURL,
        AppString::OpenDVDFileFilter,
        AppString::DefaultSelectionString,
        AppString::DefaultOutputFileName,
        AppString::ExternalAppItem,
        AppString::ProfileString,
        AppString::KeyString,
        AppString::Build,
    ];
    assert(keys@ =~= spec_info_keys());
    keys
}

impl MakeMkvInfo {
    /// The report made of the answers to `info_keys`, in their order.
    pub fn from_app_strings(strings: Vec<String>) -> (info: MakeMkvInfo)
        requires
            strings@.len() == 24,
        ensures
            info.name@ == strings@[0]@,
            info.version@ == strings@[1]@,
            info.platform@ == strings@[2]@,
            info.interface_language@ == strings@[3]@,
            info.key_type@ == strings@[4]@,
            info.key_features@ == strings@[5]@,
            info.key_expiration@ == strings@[6]@,
            info.eval_state@ == strings@[7]@,
            info.prog_expiration@ == strings@[8]@,
            info.latest_version@ == strings@[9]@,
            info.restart_required@ == strings@[10]@,
            info.expert_mode@ == strings@[11]@,
            info.profile_count@ == strings@[12]@,
            info.prog_expired@ == strings@[13]@,
            info.current_profile@ == strings@[14]@,
            info.open_file_filter@ == strings@[15]@,
            info.website_url@ == strings@[16]@,
            info.open_dvd_file_filter@ == strings@[17]@,
            info.default_selection_string@ == strings@[18]@,
            info.default_output_file_name@ == strings@[19]@,
            info.external_app_item@ == strings@[20]@,
            info.profile_string@ == strings@[21]@,
            info.key_string@ == strings@[22]@,
            info.build@ == strings@[23]@,
    {
        let mut strings = strings;
        let ghost all = strings@;
        let build = strings.pop().unwrap();
        assert(build == all[23]);
        let key_string = strings.pop().unwrap();
        assert(key_string == all[22]);
        let profile_string = strings.pop().unwrap();
        assert(profile_string == all[21]);
        let external_app_item = strings.pop().unwrap();
        assert(external_app_item == all[20]);
        let default_output_file_name = strings.pop().unwrap();
        assert(default_output_file_name == all[19]);
        let default_selection_string = strings.pop().unwrap();
        assert(default_selection_string == all[18]);
        let open_dvd_file_filter = strings.pop().unwrap();
        assert(open_dvd_file_filter == all[17]);
        let website_url = strings.pop().unwrap();
        assert(website_url == all[16]);
        let open_file_filter = strings.pop().unwrap();
        assert(open_file_filter == all[15]);
        let current_profile = strings.pop().unwrap();
        assert(current_profile == all[14]);
        let prog_expired = strings.pop().unwrap();
        assert(prog_expired == all[13]);
        let profile_count = strings.pop().unwrap();
        assert(profile_count == all[12]);
        let expert_mode = strings.pop().unwrap();
        assert(expert_mode == all[11]);
        let restart_required = strings.pop().unwrap();
        assert(restart_required == all[10]);
        let latest_version = strings.pop().unwrap();
        assert(latest_version == all[9]);
        let prog_expiration = strings.pop().unwrap();
        assert(prog_expiration == all[8]);
        let eval_state = strings.pop().unwrap();
        assert(eval_state == all[7]);
        let key_expiration = strings.pop().unwrap();
        assert(key_expiration == all[6]);
        let key_features = strings.pop().unwrap();
        assert(key_features == all[5]);
        let key_type = strings.pop().unwrap();
        assert(key_type == all[4]);
        let interface_language = strings.pop().unwrap();
        assert(interface_language == all[3]);
        let platform = strings.pop().unwrap();
        assert(platform == all[2]);
        let version = strings.pop().unwrap();
        assert(version == all[1]);
        let name = strings.pop().unwrap();
        assert(name == all[0]);
        MakeMkvInfo {
            name,
            version,
            platform,
            interface_language,
            key_type,
            key_features,
            key_expiration,
            eval_state,
            prog_expiration,
            latest_version,
            restart_required,
            expert_mode,
            profile_count,
            prog_expired,
            current_profile,
            open_file_filter,
            website_url,
            open_dvd_file_filter,
            default_selection_string,
            default_output_file_name,
            external_app_item,
            profile_string,
            key_string,
            build,
        }
    }
}

} // verus!
