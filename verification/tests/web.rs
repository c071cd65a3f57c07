use rippa::error::{MakeMkvError, RippaError};
use rippa::title::{parse_duration, TimeSpan, TitleList};
use rippa::web::{
    format_time, parse_selected_titles, selection_plan, IndexPage, Job, MakeMkvDiscDataPage,
    MakeMkvInfoPage, MakeMkvProgressPage, MakeMkvStatus, TaskState,
};
use std::collections::HashMap;

#[test]
fn time_formats() {
    assert_eq!(format_time(&TimeSpan { secs: 3723, nanos: 0 }), "1:02:03");
    assert_eq!(format_time(&TimeSpan { secs: 59, nanos: 0 }), "00:59");
    assert_eq!(format_time(&TimeSpan { secs: 0, nanos: 0 }), "00:00");
    assert_eq!(format_time(&TimeSpan { secs: 36000 + 600, nanos: 5 }), "10:10:00");
    assert_eq!(format_time(&TimeSpan { secs: 754, nanos: 0 }), "12:34");
}

#[test]
fn shown_time_reads_back() {
    for secs in [3600u64, 3723, 86399, 360000, 1_000_000_007] {
        let shown = format_time(&TimeSpan { secs, nanos: 0 });
        assert_eq!(parse_duration(Some(shown)), Some(TimeSpan { secs, nanos: 0 }));
    }
    assert_eq!(parse_duration(Some(format_time(&TimeSpan { secs: 59, nanos: 0 }))), None);
}

#[test]
fn title_selections() {
    let m = parse_selected_titles("title0=on&title0track1=on&title0track3=on&title2=on").unwrap();
    let mut expected = HashMap::new();
    expected.insert(0usize, vec![1usize, 3]);
    expected.insert(2usize, vec![]);
    assert_eq!(m, expected);

    assert_eq!(parse_selected_titles("title1track2=on"), None);
    assert_eq!(parse_selected_titles("foo=1"), None);
    assert_eq!(parse_selected_titles(""), None);
    assert_eq!(parse_selected_titles("titleX=on"), None);
    assert_eq!(parse_selected_titles("title1=on&title1track2track3=on"), None);
    let m = parse_selected_titles("title+3").unwrap();
    assert_eq!(m.get(&3), Some(&vec![]));
    assert_eq!(parse_selected_titles("title1=on&title1trackx2=on"), None);
    let m = parse_selected_titles("title1=on&title1track2=on&title1track02=x").unwrap();
    assert_eq!(m.get(&1), Some(&vec![2, 2]));
    let m = parse_selected_titles("title1=on&title1track2=on&title1=on").unwrap();
    assert_eq!(m.get(&1), Some(&vec![]));
}

#[test]
fn rip_selection_plan() {
    let mut l = TitleList::new(1, 3);
    l.add_title(0, 10, 11, 0, 2);
    l.add_title(2, 20, 21, 0, 2);
    l.add_track(0, 0, 100);
    l.add_track(0, 1, 101);
    l.add_track(2, 1, 201);
    let mut sel = HashMap::new();
    sel.insert(0usize, vec![1usize]);
    let plan = selection_plan(&l, &sel);
    assert_eq!(
        plan,
        vec![(10, true), (100, false), (101, true), (20, false), (201, false)]
    );
}

#[test]
fn task_states() {
    let mut t = TaskState::new();
    assert_eq!(t.status, MakeMkvStatus::NotInit);
    assert!(matches!(t.check_rip(), Err(RippaError::InvalidTitle)));
    assert!(t.start(Job::Init).is_ok());
    assert_eq!(t.status, MakeMkvStatus::Initialising);
    assert!(matches!(t.start(Job::Load), Err(RippaError::MakeMkvAlreadyRunning)));
    assert!(matches!(t.finish(Job::Load, Ok(())), Err(RippaError::MakeMkvNotRunning)));
    assert!(t.finish(Job::Init, Ok(())).is_ok());
    assert_eq!(t.status, MakeMkvStatus::Init);
    assert!(t.has_info && t.session_idle);
    assert!(matches!(t.start(Job::Rip), Err(RippaError::InvalidTitle)));
    t.start(Job::Load).unwrap();
    assert_eq!(t.status, MakeMkvStatus::GettingData);
    t.finish(Job::Load, Ok(())).unwrap();
    assert_eq!(t.status, MakeMkvStatus::LoadedData);
    assert!(t.check_rip().is_ok());
    t.start(Job::Rip).unwrap();
    assert_eq!(t.status, MakeMkvStatus::Ripping);
    assert!(t.watching_progress);
    t.finish(Job::Rip, Ok(())).unwrap();
    assert_eq!(t.status, MakeMkvStatus::Done);
    assert!(!t.watching_progress && t.session_idle);

    t.start(Job::Rip).unwrap();
    match t.finish(Job::Rip, Err(MakeMkvError::DriveNotDetected)) {
        Err(RippaError::MakeMkv(MakeMkvError::DriveNotDetected)) => {}
        _ => panic!("the job's error is reported"),
    }
    assert!(!t.session_idle);
    assert!(matches!(t.start(Job::Init), Err(RippaError::MakeMkvAlreadyRunning)));
}

#[test]
fn page_sections() {
    let info = MakeMkvInfoPage::new(None, MakeMkvStatus::NotInit, "0.1.0".to_string());
    assert!(info.info.is_none());
    assert_eq!(info.status, MakeMkvStatus::NotInit);
    assert_eq!(info.version, "0.1.0");
    let disc = MakeMkvDiscDataPage::new(Some(TitleList::new(7, 2)), MakeMkvStatus::LoadedData);
    assert_eq!(disc.title_list.as_ref().map(|l| l.titles.len()), Some(2));
    assert_eq!(disc.status, MakeMkvStatus::LoadedData);
    let rip = MakeMkvProgressPage::new("12.50".to_string(), "3.00".to_string(), MakeMkvStatus::Ripping);
    assert_eq!(rip.current_progress, "12.50");
    assert_eq!(rip.total_progress, "3.00");
    let page = IndexPage::new(info, disc, rip);
    assert_eq!(page.makemkv_rip.status, MakeMkvStatus::Ripping);
    assert_eq!(page.makemkv_info.version, "0.1.0");
    assert_eq!(page.makemkv_disc_data.status, MakeMkvStatus::LoadedData);
}

#[test]
fn rip_folder() {
    assert_eq!(rippa::web::rip_output_folder(), "/data/media/dmp/");
}
