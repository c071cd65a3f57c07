//! The titles of a disc as MakeMKV reports them: a list of titles, each with
//! its tracks and chapters, addressed by the indices that MakeMKV sends.

use crate::drive::opt_view;
use crate::text::{
    lemma_decimal_digits, lemma_parse_decimal, lemma_parse_decimal_too_big,
    lemma_split_char_concat, lemma_split_char_none, parse_number, spec_decimal, spec_number,
    spec_split_char, split_char, strings_view,
};
use vstd::prelude::*;
use vstd::string::*;

verus! {

/// A span of time in whole seconds and nanoseconds, as `std::time::Duration`
/// holds it.
#[derive(Copy, Clone, Debug, PartialEq, Eq, Structural)]
pub struct TimeSpan {
    pub secs: u64,
    pub nanos: u32,
}

impl TimeSpan {
    /// The largest span, to which additions saturate.
    pub open spec fn spec_max() -> TimeSpan {
        TimeSpan { secs: u64::MAX, nanos: 999_999_999 }
    }

    /// The whole seconds of the span.
    pub fn as_secs(&self) -> (s: u64)
        ensures
            s == self.secs,
    {
        self.secs
    }
}

/// A `len`-long sequence of empty slots.
pub open spec fn empty_slots<T>(len: nat) -> Seq<Option<T>> {
    Seq::new(len, |i: int| None)
}

/// `len` empty slots.
fn none_vec<T>(len: u32) -> (v: Vec<Option<T>>)
    ensures
        v@ == empty_slots::<T>(len as nat),
{
    let mut v: Vec<Option<T>> = Vec::new();
    let mut i: u32 = 0;
    while i < len
        invariant
            i <= len,
            v@ == empty_slots::<T>(i as nat),
        decreases len - i,
    {
        v.push(None);
        i = i + 1;
        assert(v@ =~= empty_slots::<T>(i as nat));
    }
    v
}

/// A chapter of a title.
#[derive(Clone, Debug)]
pub struct Chapter {
    pub handle: u64,
    pub name: Option<String>,
    pub datetime: Option<TimeSpan>,
}

impl Chapter {
    /// A chapter with the given handle and nothing else known.
    pub fn new(handle: u64) -> (c: Chapter)
        ensures
            c.handle == handle,
            c.name is None,
            c.datetime is None,
    {
        Chapter { handle, name: None, datetime: None }
    }
}

/// The chapters of a title, in `size` slots filled as MakeMKV reports them.
#[derive(Clone, Debug)]
pub struct ChapterList {
    pub handle: u64,
    pub size: u32,
    pub chapters: Vec<Option<Chapter>>,
    pub chapter_count: Option<u32>,
}

impl ChapterList {
    /// The slots match the announced size.
    pub open spec fn wf(&self) -> bool {
        self.chapters@.len() == self.size
    }

    /// A list of `size` empty chapter slots.
    pub fn new(handle: u64, size: u32) -> (l: ChapterList)
        ensures
            l.wf(),
            l.handle == handle,
            l.size == size,
            l.chapters@ == empty_slots::<Chapter>(size as nat),
            l.chapter_count is None,
    {
        ChapterList { handle, chapters: none_vec(size), size, chapter_count: None }
    }

    /// Fills slot `index` with a new chapter; an index beyond the size is
    /// ignored.
    pub fn add_chapter(&mut self, index: u32, handle: u64)
        requires
            old(self).wf(),
        ensures
            final(self).wf(),
            final(self).handle == old(self).handle,
            final(self).size == old(self).size,
            final(self).chapter_count == old(self).chapter_count,
            index >= old(self).size ==> final(self).chapters@ == old(self).chapters@,
            index < old(self).size ==> {
                &&& final(self).chapters@.len() == old(self).chapters@.len()
                &&& forall|i: int|
                    0 <= i < final(self).chapters@.len() && i != index
                        ==> final(self).chapters@[i] == old(self).chapters@[i]
                &&& final(self).chapters@[index as int] matches Some(c)
                &&& c.handle == handle
                &&& c.name is None
                &&& c.datetime is None
            },
    {
        if index >= self.size {
            return;
        }
        self.chapters.set(index as usize, Some(Chapter::new(handle)));
    }
}

/// A track of a title.
#[derive(Clone, Debug)]
pub struct Track {
    pub handle: u64,
    pub track_type: Option<String>,
    pub codec: Option<String>,
}

impl Track {
    /// A track with the given handle and nothing else known.
    pub fn new(handle: u64) -> (t: Track)
        ensures
            t.handle == handle,
            t.track_type is None,
            t.codec is None,
    {
        Track { handle, track_type: None, codec: None }
    }
}

/// A title of the disc, with its chapters and `track_size` track slots.
#[derive(Clone, Debug)]
pub struct Title {
    pub chapters: ChapterList,
    pub tracks: Vec<Option<Track>>,
    pub track_size: u32,
    pub handle: u64,
    pub name: Option<String>,
    pub duration: Option<TimeSpan>,
    pub disc_size: Option<String>,
}

impl Title {
    /// The track slots match the announced size, and so do the chapters.
    pub open spec fn wf(&self) -> bool {
        &&& self.tracks@.len() == self.track_size
        &&& self.chapters.wf()
    }

    /// A new title as `Title::new` makes it.
    pub open spec fn is_fresh(&self, handle: u64, chapter_handle: u64, chapter_size: u32, track_size: u32) -> bool {
        &&& self.wf()
        &&& self.handle == handle
        &&& self.track_size == track_size
        &&& self.tracks@ == empty_slots::<Track>(track_size as nat)
        &&& self.chapters.handle == chapter_handle
        &&& self.chapters.size == chapter_size
        &&& self.chapters.chapters@ == empty_slots::<Chapter>(chapter_size as nat)
        &&& self.chapters.chapter_count is None
        &&& self.name is None
        &&& self.duration is None
        &&& self.disc_size is None
    }

    /// A title with empty track and chapter slots and nothing else known.
    pub fn new(handle: u64, chapter_handle: u64, chapter_size: u32, track_size: u32) -> (t: Title)
        ensures
            t.is_fresh(handle, chapter_handle, chapter_size, track_size),
    {
        Title {
            chapters: ChapterList::new(chapter_handle, chapter_size),
            tracks: none_vec(track_size),
            handle,
            track_size,
            name: None,
            duration: None,
            disc_size: None,
        }
    }

    /// Fills track slot `index` with a new track; an index beyond the size
    /// is ignored.
    pub fn add_track(&mut self, index: u32, handle: u64)
        requires
            old(self).wf(),
        ensures
            final(self).wf(),
            final(self).chapters == old(self).chapters,
            final(self).track_size == old(self).track_size,
            final(self).handle == old(self).handle,
            final(self).name == old(self).name,
            final(self).duration == old(self).duration,
            final(self).disc_size == old(self).disc_size,
            index >= old(self).track_size ==> final(self).tracks@ == old(self).tracks@,
            index < old(self).track_size ==> {
                &&& forall|i: int|
                    0 <= i < final(self).tracks@.len() && i != index ==> final(self).tracks@[i]
                        == old(self).tracks@[i]
                &&& final(self).tracks@[index as int] matches Some(t)
                &&& t.handle == handle
                &&& t.track_type is None
                &&& t.codec is None
            },
    {
        if index < self.track_size {
            self.tracks.set(index as usize, Some(Track::new(handle)));
        }
    }
}

/// The titles of a disc, in `size` slots filled as MakeMKV reports them.
#[derive(Clone, Debug)]
pub struct TitleList {
    pub handle: u64,
    pub size: u32,
    pub titles: Vec<Option<Title>>,
    pub name: Option<String>,
}

impl TitleList {
    /// The slots match the announced size, and every title is well formed.
    pub open spec fn wf(&self) -> bool {
        &&& self.titles@.len() == self.size
        &&& forall|i: int|
            0 <= i < self.titles@.len() ==> (#[trigger] self.titles@[i] matches Some(t) ==> t.wf())
    }

    /// A list of `size` empty title slots.
    pub fn new(handle: u64, size: u32) -> (l: TitleList)
        ensures
            l.wf(),
            l.handle == handle,
            l.size == size,
            l.titles@ == empty_slots::<Title>(size as nat),
            l.name is None,
    {
        TitleList { handle, titles: none_vec(size), size, name: None }
    }

    /// Fills slot `index` with a new title.
    pub fn add_title(
        &mut self,
        index: u32,
        handle: u64,
        chapter_handle: u64,
        chapter_size: u32,
        track_size: u32,
    )
        requires
            old(self).wf(),
            index < old(self).size,
        ensures
            final(self).wf(),
            final(self).handle == old(self).handle,
            final(self).size == old(self).size,
            final(self).name == old(self).name,
            final(self).titles@.len() == old(self).titles@.len(),
            forall|i: int|
                0 <= i < final(self).titles@.len() && i != index ==> final(self).titles@[i]
                    == old(self).titles@[i],
            final(self).titles@[index as int] matches Some(t) && t.is_fresh(
                handle,
                chapter_handle,
                chapter_size,
                track_size,
            ),
    {
        self.titles.set(index as usize, Some(Title::new(handle, chapter_handle, chapter_size, track_size)));
    }

    /// The list after `add_track`: only the title at `title_index` may
    /// change, and in it only the track slot at `track_index`, which gets a
    /// new track; out-of-range indices and empty title slots change nothing.
    pub open spec fn is_track_added(&self, old: &TitleList, title_index: u32, track_index: u32, handle: u64) -> bool {
        &&& self.handle == old.handle
        &&& self.size == old.size
        &&& self.name == old.name
        &&& self.titles@.len() == old.titles@.len()
        &&& forall|i: int|
            0 <= i < self.titles@.len() && i != title_index ==> self.titles@[i]
                == old.titles@[i]
        &&& title_index < old.size ==> match old.titles@[title_index as int] {
            None => self.titles@[title_index as int] is None,
            Some(t) => {
                &&& self.titles@[title_index as int] matches Some(u)
                &&& u.chapters == t.chapters
                &&& u.handle == t.handle
                &&& u.track_size == t.track_size
                &&& u.name == t.name
                &&& u.duration == t.duration
                &&& u.disc_size == t.disc_size
                &&& track_index >= t.track_size ==> u.tracks@ == t.tracks@
                &&& track_index < t.track_size ==> {
                    &&& forall|k: int|
                        0 <= k < u.tracks@.len() && k != track_index ==> u.tracks@[k]
                            == t.tracks@[k]
                    &&& u.tracks@[track_index as int] matches Some(tr)
                    &&& tr.handle == handle
                    &&& tr.track_type is None
                    &&& tr.codec is None
                }
            },
        }
        &&& title_index >= old.size ==> self.titles@ == old.titles@
    }

    /// Fills track slot `track_index` of title `title_index` with a new
    /// track; a title index beyond the size, an empty title slot or a track
    /// index beyond the title's track count is ignored.
    pub fn add_track(&mut self, title_index: u32, track_index: u32, handle: u64)
        requires
            old(self).wf(),
        ensures
            final(self).wf(),
            final(self).is_track_added(old(self), title_index, track_index, handle),
    {
        if title_index >= self.size {
            return;
        }
        let i = title_index as usize;
        assert(self.titles@[i as int] matches Some(t) ==> t.wf());
        if let Some(title) = &mut self.titles[i] {
            title.add_track(track_index, handle);
        }
        assert forall|k: int| 0 <= k < self.titles@.len() implies (#[trigger] self.titles@[k] matches Some(t) ==> t.wf()) by {
            if k != i {
                assert(self.titles@[k] == old(self).titles@[k]);
            }
        }
    }

    /// The list after `add_chapter`: only the title at `title_index` may
    /// change, and in it only the chapter slot at `chapter_index`, which
    /// gets a new chapter; out-of-range indices and empty title slots change
    /// nothing.
    pub open spec fn is_chapter_added(&self, old: &TitleList, title_index: u32, chapter_index: u32, handle: u64) -> bool {
        &&& self.handle == old.handle
        &&& self.size == old.size
        &&& self.name == old.name
        &&& self.titles@.len() == old.titles@.len()
        &&& forall|i: int|
            0 <= i < self.titles@.len() && i != title_index ==> self.titles@[i]
                == old.titles@[i]
        &&& title_index < old.size ==> match old.titles@[title_index as int] {
            None => self.titles@[title_index as int] is None,
            Some(t) => {
                &&& self.titles@[title_index as int] matches Some(u)
                &&& u.tracks == t.tracks
                &&& u.handle == t.handle
                &&& u.track_size == t.track_size
                &&& u.name == t.name
                &&& u.duration == t.duration
                &&& u.disc_size == t.disc_size
                &&& u.chapters.handle == t.chapters.handle
                &&& u.chapters.size == t.chapters.size
                &&& u.chapters.chapter_count == t.chapters.chapter_count
                &&& chapter_index >= t.chapters.size ==> u.chapters.chapters@
                    == t.chapters.chapters@
                &&& chapter_index < t.chapters.size ==> {
                    &&& forall|k: int|
                        0 <= k < u.chapters.chapters@.len() && k != chapter_index
                            ==> u.chapters.chapters@[k] == t.chapters.chapters@[k]
                    &&& u.chapters.chapters@[chapter_index as int] matches Some(c)
                    &&& c.handle == handle
                    &&& c.name is None
                    &&& c.datetime is None
                }
            },
        }
        &&& title_index >= old.size ==> self.titles@ == old.titles@
    }

    /// Fills chapter slot `chapter_index` of title `title_index` with a new
    /// chapter; a title index beyond the size, an empty title slot or a
    /// chapter index beyond the title's chapter count is ignored.
    pub fn add_chapter(&mut self, title_index: u32, chapter_index: u32, handle: u64)
        requires
            old(self).wf(),
        ensures
            final(self).wf(),
            final(self).is_chapter_added(old(self), title_index, chapter_index, handle),
    {
        if title_index >= self.size {
            return;
        }
        let i = title_index as usize;
        assert(self.titles@[i as int] matches Some(t) ==> t.wf());
        if let Some(title) = &mut self.titles[i] {
            title.chapters.add_chapter(chapter_index, handle);
        }
        assert forall|k: int| 0 <= k < self.titles@.len() implies (#[trigger] self.titles@[k] matches Some(t) ==> t.wf()) by {
            if k != i {
                assert(self.titles@[k] == old(self).titles@[k]);
            }
        }
    }
}

/// The numbers of a "hours:minutes:seconds" text, one per piece between
/// colons, if every piece is a number.
pub open spec fn spec_duration_fields(s: Seq<char>) -> Option<Seq<nat>> {
    let parts = spec_split_char(s, ':');
    if forall|i: int| 0 <= i < parts.len() ==> (#[trigger] spec_number(parts[i], u64::MAX as nat)) is Some {
        Some(Seq::new(parts.len(), |i: int| spec_number(parts[i], u64::MAX as nat).unwrap()))
    } else {
        None
    }
}

/// A duration text whose hours or minutes do not fit in seconds: building
/// the duration from them panics.
pub open spec fn spec_duration_overflows(s: Option<Seq<char>>) -> bool {
    match s {
        Some(s) => match spec_duration_fields(s) {
            Some(f) => f.len() == 3 && (f[0] * 3600 > u64::MAX || f[1] * 60 > u64::MAX),
            None => false,
        },
        None => false,
    }
}

/// The duration that an optional "hours:minutes:seconds" text gives: the
/// sum of its fields in seconds, saturating at the largest span. Anything
/// but three numbers gives nothing.
pub open spec fn spec_parse_duration(s: Option<Seq<char>>) -> Option<TimeSpan> {
    match s {
        Some(s) => match spec_duration_fields(s) {
            Some(f) => if f.len() == 3 {
                let total = f[0] * 3600 + f[1] * 60 + f[2];
                if total <= u64::MAX {
                    Some(TimeSpan { secs: total as u64, nanos: 0 })
                } else {
                    Some(TimeSpan::spec_max())
                }
            } else {
                None
            },
            None => None,
        },
        None => None,
    }
}

/// The numbers of a "hours:minutes:seconds" text.
fn duration_fields(s: &str) -> (r: Option<Vec<u64>>)
    ensures
        match spec_duration_fields(s@) {
            Some(f) => r matches Some(v) && v@.len() == f.len() && forall|i: int|
                0 <= i < f.len() ==> v@[i] == f[i],
            None => r is None,
        },
{
    let parts = split_char(s, ':');
    let ghost sp = spec_split_char(s@, ':');
    let mut fields: Vec<u64> = Vec::new();
    let mut i: usize = 0;
    while i < parts.len()
        invariant
            i <= parts@.len(),
            strings_view(parts@) == sp,
            sp == spec_split_char(s@, ':'),
            fields@.len() == i,
            forall|k: int| 0 <= k < i ==> spec_number(sp[k], u64::MAX as nat) == Some(
                #[trigger] fields@[k] as nat,
            ),
        decreases parts@.len() - i,
    {
        assert(sp[i as int] == parts@[i as int]@);
        match parse_number(parts[i].as_str(), u64::MAX) {
            Some(v) => fields.push(v),
            None => {
                assert(spec_number(sp[i as int], u64::MAX as nat) is None);
                return None;
            },
        }
        i = i + 1;
    }
    assert forall|k: int| 0 <= k < sp.len() implies (#[trigger] spec_number(sp[k], u64::MAX as nat)) is Some by {
        assert(spec_number(sp[k], u64::MAX as nat) == Some(fields@[k] as nat));
    }
    Some(fields)
}

/// Whether building the duration of a text would overflow.
pub fn duration_overflows(s: &Option<String>) -> (b: bool)
    ensures
        b == spec_duration_overflows(opt_view(*s)),
{
    match s {
        Some(text) => match duration_fields(text.as_str()) {
            Some(f) => f.len() == 3 && (f[0] > u64::MAX / 3600 || f[1] > u64::MAX / 60),
            None => false,
        },
        None => false,
    }
}

/// The duration of an optional "hours:minutes:seconds" text.
pub fn parse_duration(s: Option<String>) -> (r: Option<TimeSpan>)
    requires
        !spec_duration_overflows(opt_view(s)),
    ensures
        r == spec_parse_duration(opt_view(s)),
{
    let text = match s {
        Some(t) => t,
        None => return None,
    };
    let f = match duration_fields(text.as_str()) {
        Some(f) => f,
        None => return None,
    };
    if f.len() != 3 {
        return None;
    }
    let hours = f[0] * 3600;
    let mins = f[1] * 60;
    match hours.checked_add(mins) {
        Some(hm) => match hm.checked_add(f[2]) {
            Some(total) => Some(TimeSpan { secs: total, nanos: 0 }),
            None => Some(TimeSpan { secs: u64::MAX, nanos: 999_999_999 }),
        },
        None => Some(TimeSpan { secs: u64::MAX, nanos: 999_999_999 }),
    }
}

/// The chapter count that an attribute text holds, as `str::parse::<u32>`
/// reads it.
pub fn parse_chapter_count(s: Option<String>) -> (r: Option<u32>)
    ensures
        r matches Some(v) ==> opt_view(s) matches Some(t) && spec_number(t, u32::MAX as nat)
            == Some(v as nat),
        r is None ==> (opt_view(s) matches Some(t) ==> spec_number(t, u32::MAX as nat) is None),
{
    match s {
        Some(t) => match parse_number(t.as_str(), 0xffff_ffff) {
            Some(v) => Some(v as u32),
            None => None,
        },
        None => None,
    }
}

/// An "hours:minutes:seconds" text of three decimal numbers is read by
/// their values: any number beyond 64 bits gives nothing; otherwise the
/// text overflows exactly when the hours or the minutes, in seconds, do not
/// fit in 64 bits, and when it does not, the span is the hours times 3600
/// plus the minutes times 60 plus the seconds, saturating at the largest
/// span.
pub proof fn lemma_parse_duration_values(h: nat, m: nat, s: nat)
    ensures
        ({
            let text = spec_decimal(h) + ":"@ + spec_decimal(m) + ":"@ + spec_decimal(s);
            let total = h * 3600 + m * 60 + s;
            &&& (h > u64::MAX || m > u64::MAX || s > u64::MAX) ==> {
                &&& !spec_duration_overflows(Some(text))
                &&& spec_parse_duration(Some(text)) is None
            }
            &&& (h <= u64::MAX && m <= u64::MAX && s <= u64::MAX) ==> {
                &&& spec_duration_overflows(Some(text)) == (h * 3600 > u64::MAX || m * 60
                    > u64::MAX)
                &&& total <= u64::MAX ==> spec_parse_duration(Some(text)) == Some(
                    TimeSpan { secs: total as u64, nanos: 0 },
                )
                &&& total > u64::MAX ==> spec_parse_duration(Some(text)) == Some(
                    TimeSpan { secs: u64::MAX, nanos: 999_999_999 },
                )
            }
        }),
{
    reveal_strlit(":");
    let a = spec_decimal(h);
    let b = spec_decimal(m);
    let c = spec_decimal(s);
    let text = a + ":"@ + b + ":"@ + c;
    assert(text =~= a + seq![':'] + (b + seq![':'] + c));
    lemma_split_char_concat(a, b + seq![':'] + c, ':');
    lemma_split_char_concat(b, c, ':');
    lemma_decimal_digits(h);
    lemma_decimal_digits(m);
    lemma_decimal_digits(s);
    lemma_split_char_none(a, ':');
    lemma_split_char_none(b, ':');
    lemma_split_char_none(c, ':');
    let parts = spec_split_char(text, ':');
    assert(parts =~= seq![a, b, c]);
    let max = u64::MAX as nat;
    if h <= max {
        lemma_parse_decimal(h, max);
    } else {
        lemma_parse_decimal_too_big(h, max);
    }
    if m <= max {
        lemma_parse_decimal(m, max);
    } else {
        lemma_parse_decimal_too_big(m, max);
    }
    if s <= max {
        lemma_parse_decimal(s, max);
    } else {
        lemma_parse_decimal_too_big(s, max);
    }
    assert(parts[0] == a && parts[1] == b && parts[2] == c);
    if h > max || m > max || s > max {
        assert(spec_duration_fields(text) is None) by {
            if h > max {
                assert(spec_number(parts[0], max) is None);
            } else if m > max {
                assert(spec_number(parts[1], max) is None);
            } else {
                assert(spec_number(parts[2], max) is None);
            }
        }
    } else {
        assert(spec_number(parts[0], max) == Some(h));
        assert(spec_number(parts[1], max) == Some(m));
        assert(spec_number(parts[2], max) == Some(s));
        assert(spec_duration_fields(text) == Some(seq![h, m, s]));
    }
}

} // verus!
