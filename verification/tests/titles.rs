use rippa::title::{
    duration_overflows, parse_chapter_count, parse_duration, ChapterList, TimeSpan, Title,
    TitleList,
};

#[test]
fn new_lists_have_empty_slots() {
    let l = TitleList::new(0x10, 3);
    assert_eq!(l.handle, 0x10);
    assert_eq!(l.size, 3);
    assert_eq!(l.titles.len(), 3);
    assert!(l.titles.iter().all(|t| t.is_none()));
    assert!(l.name.is_none());

    let t = Title::new(1, 2, 4, 5);
    assert_eq!(t.handle, 1);
    assert_eq!(t.tracks.len(), 5);
    assert_eq!(t.track_size, 5);
    assert_eq!(t.chapters.handle, 2);
    assert_eq!(t.chapters.size, 4);
    assert_eq!(t.chapters.chapters.len(), 4);

    let c = ChapterList::new(9, 0);
    assert!(c.chapters.is_empty());
    assert!(c.chapter_count.is_none());
}

#[test]
fn filling_slots() {
    let mut l = TitleList::new(0x10, 2);
    l.add_title(1, 100, 200, 2, 3);
    assert!(l.titles[0].is_none());
    let t = l.titles[1].as_ref().unwrap();
    assert_eq!(t.handle, 100);
    assert_eq!(t.chapters.handle, 200);

    l.add_track(1, 2, 300);
    l.add_track(1, 3, 301);
    l.add_track(0, 0, 302);
    l.add_track(5, 0, 303);
    let t = l.titles[1].as_ref().unwrap();
    assert_eq!(t.tracks[2].as_ref().unwrap().handle, 300);
    assert!(t.tracks[0].is_none() && t.tracks[1].is_none());
    assert_eq!(t.tracks.len(), 3);

    l.add_chapter(1, 0, 400);
    l.add_chapter(1, 2, 401);
    let t = l.titles[1].as_ref().unwrap();
    assert_eq!(t.chapters.chapters[0].as_ref().unwrap().handle, 400);
    assert!(t.chapters.chapters[1].is_none());
    assert_eq!(t.chapters.chapters.len(), 2);
}

#[test]
fn durations() {
    assert_eq!(
        parse_duration(Some("1:02:03".to_string())),
        Some(TimeSpan { secs: 3723, nanos: 0 })
    );
    assert_eq!(
        parse_duration(Some("0:00:00".to_string())),
        Some(TimeSpan { secs: 0, nanos: 0 })
    );
    assert_eq!(parse_duration(Some("1:02".to_string())), None);
    assert_eq!(parse_duration(Some("1:02:03:04".to_string())), None);
    assert_eq!(parse_duration(Some("a:02:03".to_string())), None);
    assert_eq!(parse_duration(Some(String::new())), None);
    assert_eq!(parse_duration(None), None);
    let big = format!("{}:0:{}", u64::MAX / 3600, u64::MAX);
    assert!(!duration_overflows(&Some(big.clone())));
    assert_eq!(
        parse_duration(Some(big)),
        Some(TimeSpan { secs: u64::MAX, nanos: 999_999_999 })
    );
    assert!(duration_overflows(&Some(format!("{}:0:0", u64::MAX / 3600 + 1))));
    assert!(duration_overflows(&Some(format!("0:{}:0", u64::MAX / 60 + 1))));
    assert!(!duration_overflows(&Some("x:y".to_string())));
}

#[test]
fn chapter_counts() {
    assert_eq!(parse_chapter_count(Some("12".to_string())), Some(12));
    assert_eq!(parse_chapter_count(Some("+3".to_string())), Some(3));
    assert_eq!(parse_chapter_count(Some("twelve".to_string())), None);
    assert_eq!(parse_chapter_count(Some("4294967296".to_string())), None);
    assert_eq!(parse_chapter_count(None), None);
}
