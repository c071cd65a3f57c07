use rippa::command::{AppString, ItemAttribute, MakeMkvCommand};
use rippa::drive::DriveState;
use rippa::error::MakeMkvError;
use rippa::session::{
    app_string_request, decode_app_string, enable_state, info_keys, is_expected_abi_version,
    item_info_request, item_state_enabled, item_state_from_response, item_state_request,
    open_disk_request, output_folder_payload, set_item_state_request, update_drives_request,
    ends_greeting, MessageOutcome, ProgressBars, SessionState, HANDSHAKE_REPLY,
};
use rippa::command::MakeMkvInfo;

fn ack(o: &MessageOutcome) -> Option<bool> {
    match o {
        MessageOutcome::Acknowledge { progress_changed } => Some(*progress_changed),
        _ => None,
    }
}

#[test]
fn new_session() {
    let s = SessionState::new();
    assert!(s.drive.is_none() && s.titles.is_none() && s.language_data.is_none());
    assert_eq!(s.current_info.len(), 10);
    assert_eq!(s.progress, ProgressBars { current: 0, total: 0 });
    assert!(!s.job_mode);
}

#[test]
fn title_messages_build_the_list() {
    let mut s = SessionState::new();
    assert!(matches!(
        s.handle_message(MakeMkvCommand::BackSetTitleInfo, vec![0, 1, 0, 1, 1, 2, 0], vec![]),
        MessageOutcome::Skip
    ));
    let o = s.handle_message(MakeMkvCommand::BackSetTitleCollInfo, vec![0x20, 0x1, 2], vec![]);
    assert_eq!(ack(&o), Some(false));
    let t = s.titles.as_ref().unwrap();
    assert_eq!(t.handle, 0x1_0000_0020);
    assert_eq!(t.size, 2);
    assert!(matches!(
        s.handle_message(MakeMkvCommand::BackSetTitleCollInfo, vec![1, 2], vec![]),
        MessageOutcome::Skip
    ));
    assert!(s.message_panics(MakeMkvCommand::BackSetTitleInfo, &[2, 0, 0, 0, 0, 0, 0], &[]));
    assert!(!s.message_panics(MakeMkvCommand::BackSetTitleInfo, &[1, 0, 0, 0, 0, 0, 0], &[]));
    let o = s.handle_message(MakeMkvCommand::BackSetTitleInfo, vec![1, 5, 0, 3, 2, 6, 0], vec![]);
    assert_eq!(ack(&o), Some(false));
    let title = s.titles.as_ref().unwrap().titles[1].as_ref().unwrap();
    assert_eq!(title.handle, 5);
    assert_eq!(title.chapters.handle, 6);
    assert_eq!(title.track_size, 3);
    assert_eq!(title.chapters.size, 2);

    assert_eq!(ack(&s.handle_message(MakeMkvCommand::BackSetTrackInfo, vec![1, 2, 7, 0], vec![])), Some(false));
    assert!(matches!(
        s.handle_message(MakeMkvCommand::BackSetTrackInfo, vec![1, 2, 7], vec![]),
        MessageOutcome::Skip
    ));
    assert_eq!(ack(&s.handle_message(MakeMkvCommand::BackSetChapterInfo, vec![1, 1, 8, 0], vec![])), Some(false));
    assert!(matches!(
        s.handle_message(MakeMkvCommand::BackSetChapterInfo, vec![1, 1, 8, 0, 0], vec![]),
        MessageOutcome::Skip
    ));
    let title = s.titles.as_ref().unwrap().titles[1].as_ref().unwrap();
    assert_eq!(title.tracks[2].as_ref().unwrap().handle, 7);
    assert_eq!(title.chapters.chapters[1].as_ref().unwrap().handle, 8);
}

#[test]
fn drive_and_info_messages() {
    let mut s = SessionState::new();
    let o = s.handle_message(MakeMkvCommand::BackUpdateDrive, vec![4, 1, 2, 0], b"Drv\0\0\0".to_vec());
    assert_eq!(ack(&o), Some(false));
    assert_eq!(s.drive.as_ref().unwrap().drive_id, 4);
    assert_eq!(s.inserted_drive(), Some(4));
    s.handle_message(MakeMkvCommand::BackUpdateDrive, vec![4, 1, 9, 0], b"Drv\0\0\0".to_vec());
    assert_eq!(s.drive.as_ref().unwrap().drive_state, DriveState::Inserted);
    s.handle_message(MakeMkvCommand::BackUpdateDrive, vec![4, 1, 3, 0], b"Drv\0\0\0".to_vec());
    assert_eq!(s.inserted_drive(), None);
    assert!(s.message_panics(
        MakeMkvCommand::BackUpdateDrive,
        &[4, 1, 3, 0],
        &[0, 0, 0, 0, 1, 0, 0, 0, 0, 0, 0]
    ));

    s.handle_message(MakeMkvCommand::BackUpdateCurrentInfo, vec![3], b"Scanning".to_vec());
    assert_eq!(s.current_info[3].as_deref(), Some("Scanning"));
    s.handle_message(MakeMkvCommand::BackUpdateCurrentInfo, vec![10], b"ignored".to_vec());
    assert!(s.current_info.iter().filter(|x| x.is_some()).count() == 1);
}

#[test]
fn progress_and_job_mode() {
    let mut s = SessionState::new();
    assert_eq!(ack(&s.handle_message(MakeMkvCommand::BackEnterJobMode, vec![], vec![])), Some(false));
    assert!(s.job_mode);
    assert_eq!(ack(&s.handle_message(MakeMkvCommand::BackUpdateCurrentBar, vec![100], vec![])), Some(true));
    assert_eq!(ack(&s.handle_message(MakeMkvCommand::BackUpdateTotalBar, vec![200], vec![])), Some(true));
    assert_eq!(ack(&s.handle_message(MakeMkvCommand::BackUpdateTotalBar, vec![], vec![])), Some(false));
    assert_eq!(s.progress, ProgressBars { current: 100, total: 200 });
    s.handle_message(MakeMkvCommand::BackLeaveJobMode, vec![], vec![]);
    assert!(!s.job_mode);
    assert_eq!(ack(&s.handle_message(MakeMkvCommand::Noop, vec![], vec![])), Some(false));
}

#[test]
fn return_answers_the_call() {
    let mut s = SessionState::new();
    match s.handle_message(MakeMkvCommand::Return, vec![1, 2], vec![3]) {
        MessageOutcome::Respond(r) => {
            assert_eq!(r._cmd, MakeMkvCommand::Return);
            assert_eq!(r.args, vec![1, 2]);
            assert_eq!(r.data, vec![3]);
        }
        _ => panic!("a return answers the call"),
    }
}

#[test]
fn item_info_replies() {
    let s = SessionState::new();
    assert!(matches!(s.item_info_from_response(&[], &[]), Err(MakeMkvError::InvalidResponse(_))));
    assert_eq!(s.item_info_from_response(&[0, 1], b"Title 1\0").unwrap().as_deref(), Some("Title 1"));
    assert_eq!(s.item_info_from_response(&[7, 1], b"Text\0").unwrap().as_deref(), Some("Text"));
    assert!(matches!(s.item_info_from_response(&[0, 0], b"x"), Err(MakeMkvError::InvalidResponse(_))));
    assert!(matches!(s.item_info_from_response(&[3], b"x"), Err(MakeMkvError::InvalidResponse(_))));
    assert!(s.item_info_panics(&[0, 1], &[]));
    assert!(!s.item_info_panics(&[0, 1], &[0]));
}

#[test]
fn requests() {
    assert_eq!(app_string_request(AppString::Version, None, Some(4)), vec![1, 0, 4]);
    assert_eq!(item_info_request(0x2_0000_0001, ItemAttribute::Duration), vec![1, 2, 9]);
    assert_eq!(item_state_request(0x2_0000_0001), vec![1, 2]);
    assert_eq!(set_item_state_request(5, enable_state(true)), vec![5, 0, 0xffff_ffff]);
    assert_eq!(enable_state(false), 0xffff_fffe);
    assert!(item_state_enabled(enable_state(true)));
    assert!(!item_state_enabled(enable_state(false)));
    assert_eq!(open_disk_request(2, None), vec![2, 0]);
    assert_eq!(update_drives_request(Some(3)), vec![3]);
    assert_eq!(output_folder_payload("/data/é"), b"/data/\xc3\xa9\0".to_vec());
    assert_eq!(item_state_from_response(&[9, 1]).unwrap(), 9);
    assert!(matches!(item_state_from_response(&[]), Err(MakeMkvError::MakeMkv(_))));
}

#[test]
fn replies_and_versions() {
    assert_eq!(decode_app_string(b"MakeMKV\0"), "MakeMKV");
    assert_eq!(decode_app_string(b""), "");
    assert!(is_expected_abi_version(b"A0001"));
    assert!(!is_expected_abi_version(b"A0002"));
    assert!(!is_expected_abi_version(b"A000"));
}

#[test]
fn info_report() {
    let keys = info_keys();
    assert_eq!(keys.len(), 24);
    assert_eq!(keys[0], AppString::Name);
    assert_eq!(keys[3], AppString::InterfaceLanguage);
    assert_eq!(keys[23], AppString::Build);
    let strings: Vec<String> = (0..24).map(|i| format!("s{}", i)).collect();
    let info = MakeMkvInfo::from_app_strings(strings);
    assert_eq!(info.name, "s0");
    assert_eq!(info.interface_language, "s3");
    assert_eq!(info.key_type, "s4");
    assert_eq!(info.key_string, "s22");
    assert_eq!(info.build, "s23");
}

#[test]
fn greeting_and_fresh_bars() {
    assert!(ends_greeting([1, 2, 3, 0xAA]));
    assert!(!ends_greeting([0xAA, 0xAA, 0xAA, 0]));
    assert_eq!(HANDSHAKE_REPLY, 0xBB);
    let p = ProgressBars::new();
    assert_eq!((p.current, p.total), (0, 0));
}
