//! The decisions of the web front end: how times are shown, how a title
//! selection is read from a form, which items a rip selects, and how the
//! MakeMKV task moves between its states.

use crate::command::MakeMkvInfo;
use crate::error::{MakeMkvError, RippaError};
use crate::text::{
    chars_of, find_chars, lemma_decimal_digits, lemma_find, lemma_parse_decimal,
    lemma_parse_decimal_2, occurs_at,
    lemma_split_char_concat, lemma_split_char_none, lemma_split_char_nonempty,
    parse_number_chars, push_decimal, push_decimal_2, slice_to_vec, spec_decimal,
    spec_decimal_2, spec_find, spec_number, spec_split_char, spec_split_str,
    spec_split_str_from, split_chars,
    split_str_chars,
};
use crate::title::{
    spec_duration_fields, spec_duration_overflows, spec_parse_duration, TimeSpan, Title,
    TitleList, Track,
};
use std::collections::HashMap;
use vstd::prelude::*;
use vstd::string::*;

verus! {

broadcast use vstd::std_specs::hash::group_hash_axioms;

/// How a span of time is shown: `minutes:seconds`, both of two digits, with
/// `hours:` in front when there are whole hours.
pub open spec fn spec_format_time(secs: nat) -> Seq<char> {
    let s = secs % 60;
    let m = (secs / 60) % 60;
    let h = secs / 60 / 60;
    (if h == 0 {
        Seq::<char>::empty()
    } else {
        spec_decimal(h) + ":"@
    }) + spec_decimal_2(m) + ":"@ + spec_decimal_2(s)
}

/// Shows a span of time as `[hours:]minutes:seconds`.
pub fn format_time(duration: &TimeSpan) -> (s: String)
    ensures
        s@ == spec_format_time(duration.secs as nat),
{
    let total_secs = duration.as_secs();
    let secs = total_secs % 60;
    let mins = (total_secs / 60) % 60;
    let hours = total_secs / 60 / 60;
    let mut s = String::new();
    if hours != 0 {
        push_decimal(&mut s, hours);
        s.append(":");
    }
    push_decimal_2(&mut s, mins);
    s.append(":");
    push_decimal_2(&mut s, secs);
    s
}

/// The two-digit rendering holds decimal digits only.
proof fn lemma_decimal_2_digits(n: nat)
    ensures
        forall|i: int|
            0 <= i < spec_decimal_2(n).len() ==> '0' <= #[trigger] spec_decimal_2(n)[i] <= '9',
{
    lemma_decimal_digits(n);
    if n < 10 {
        assert forall|i: int| 0 <= i < spec_decimal_2(n).len() implies '0'
            <= #[trigger] spec_decimal_2(n)[i] <= '9' by {
            if i > 0 {
                assert(spec_decimal_2(n)[i] == spec_decimal(n)[i - 1]);
            }
        }
    }
}

/// A span of at least an hour, once shown, reads back as the same span of
/// whole seconds when parsed as an "hours:minutes:seconds" duration, and
/// its fields do not overflow.
pub proof fn lemma_format_then_parse(secs: u64)
    requires
        secs >= 3600,
    ensures
        !spec_duration_overflows(Some(spec_format_time(secs as nat))),
        spec_parse_duration(Some(spec_format_time(secs as nat))) == Some(
            TimeSpan { secs, nanos: 0 },
        ),
{
    let n = secs as nat;
    let s = n % 60;
    let m = (n / 60) % 60;
    let h = n / 60 / 60;
    assert(n == (n / 60) * 60 + s);
    assert(n / 60 == h * 60 + m);
    assert(h * 3600 + m * 60 + s == n) by (nonlinear_arith)
        requires
            n == (n / 60) * 60 + s,
            n / 60 == h * 60 + m,
    ;
    assert(h >= 1);
    reveal_strlit(":");
    let a = spec_decimal(h);
    let b = spec_decimal_2(m);
    let c = spec_decimal_2(s);
    let text = spec_format_time(n);
    assert(text =~= a + seq![':'] + (b + seq![':'] + c));
    lemma_split_char_concat(a, b + seq![':'] + c, ':');
    lemma_split_char_concat(b, c, ':');
    lemma_decimal_digits(h);
    lemma_decimal_2_digits(m);
    lemma_decimal_2_digits(s);
    lemma_split_char_none(a, ':');
    lemma_split_char_none(b, ':');
    lemma_split_char_none(c, ':');
    let parts = spec_split_char(text, ':');
    assert(parts =~= seq![a, b, c]);
    let max = u64::MAX as nat;
    lemma_parse_decimal(h, max);
    lemma_parse_decimal_2(m, max);
    lemma_parse_decimal_2(s, max);
    assert(spec_number(parts[0], max) == Some(h));
    assert(spec_number(parts[1], max) == Some(m));
    assert(spec_number(parts[2], max) == Some(s));
    let f = spec_duration_fields(text);
    assert(f == Some(seq![h, m, s]));
}

/// The folder into which a rip writes its files.
pub fn rip_output_folder() -> (s: &'static str)
    ensures
        s@ == "/data/media/dmp/"@,
{
    "/data/media/dmp/"
}

/// Where the MakeMKV task stands.
#[derive(Copy, Clone, Debug, PartialEq, Eq, Structural)]
pub enum MakeMkvStatus {
    NotInit,
    Initialising,
    Init,
    GettingData,
    LoadedData,
    Ripping,
    Done,
}

/// A request from the web server to the MakeMKV task: start MakeMKV, load
/// the disc, or rip the selected titles and tracks (track indices by title
/// index).
pub enum MakeMkvCommand {
    Init,
    Load,
    Rip(HashMap<usize, Vec<usize>>),
}

/// A job that the MakeMKV task runs in the background.
#[derive(Copy, Clone, Debug, PartialEq, Eq, Structural)]
pub enum Job {
    Init,
    Load,
    Rip,
}

/// What the MakeMKV task keeps track of: whether it holds an idle MakeMKV
/// session, which job runs, the status it shows, whether it has titles to
/// rip, and whether it follows the progress of a rip.
#[derive(Copy, Clone, Debug, PartialEq, Eq, Structural)]
pub struct TaskState {
    pub session_idle: bool,
    pub running: Option<Job>,
    pub status: MakeMkvStatus,
    pub has_info: bool,
    pub has_titles: bool,
    pub watching_progress: bool,
}

impl TaskState {
    /// A session is either idle in the task or lent to the running job,
    /// never both.
    pub open spec fn wf(&self) -> bool {
        self.session_idle ==> self.running is None
    }

    /// The state before anything happened: an idle session and no job.
    pub fn new() -> (t: TaskState)
        ensures
            t.wf(),
            t.session_idle,
            t.running is None,
            t.status == MakeMkvStatus::NotInit,
            !t.has_info,
            !t.has_titles,
            !t.watching_progress,
    {
        TaskState {
            session_idle: true,
            running: None,
            status: MakeMkvStatus::NotInit,
            has_info: false,
            has_titles: false,
            watching_progress: false,
        }
    }

    /// Whether a rip can start: the session must be idle and titles loaded.
    pub fn check_rip(&self) -> (r: Result<(), RippaError>)
        ensures
            !self.session_idle ==> r matches Err(RippaError::MakeMkvAlreadyRunning),
            self.session_idle && !self.has_titles ==> r matches Err(RippaError::InvalidTitle),
            self.session_idle && self.has_titles ==> r is Ok,
    {
        if !self.session_idle {
            return Err(RippaError::MakeMkvAlreadyRunning);
        }
        if !self.has_titles {
            return Err(RippaError::InvalidTitle);
        }
        Ok(())
    }

    /// The state and the answer after asking to start `job`: the idle
    /// session is lent to the job and its status shown; with no idle session
    /// (a job runs, or a failed rip lost it) the job is refused and nothing
    /// changes. A rip also needs titles.
    pub open spec fn spec_start(self, job: Job) -> (TaskState, Result<(), RippaError>) {
        if !self.session_idle {
            (self, Err(RippaError::MakeMkvAlreadyRunning))
        } else if job == Job::Rip && !self.has_titles {
            (self, Err(RippaError::InvalidTitle))
        } else {
            (
                TaskState {
                    session_idle: false,
                    running: Some(job),
                    status: match job {
                        Job::Init => MakeMkvStatus::Initialising,
                        Job::Load => MakeMkvStatus::GettingData,
                        Job::Rip => MakeMkvStatus::Ripping,
                    },
                    watching_progress: self.watching_progress || job == Job::Rip,
                    ..self
                },
                Ok(()),
            )
        }
    }

    /// The state and the answer after the end of `job` with `outcome`. With
    /// no job of that kind running nothing changes and the task reports that
    /// MakeMKV is not running. Otherwise the job is over: init and load give
    /// the session back, and when they succeeded the report or the titles
    /// are kept and the status moves on; a successful rip gives the session
    /// back, shows `Done` and stops following the progress; a failed rip
    /// does not give the session back (it is dropped with the error), and
    /// its error is the answer.
    pub open spec fn spec_finish(self, job: Job, outcome: Result<(), MakeMkvError>) -> (
        TaskState,
        Result<(), RippaError>,
    ) {
        if self.running != Some(job) {
            (self, Err(RippaError::MakeMkvNotRunning))
        } else {
            let ended = TaskState {
                running: None,
                session_idle: self.session_idle || outcome is Ok || job != Job::Rip,
                ..self
            };
            match outcome {
                Err(e) => (ended, Err(RippaError::MakeMkv(e))),
                Ok(_) => (
                    match job {
                        Job::Init => TaskState {
                            has_info: true,
                            status: MakeMkvStatus::Init,
                            ..ended
                        },
                        Job::Load => TaskState {
                            has_titles: true,
                            status: MakeMkvStatus::LoadedData,
                            ..ended
                        },
                        Job::Rip => TaskState {
                            status: MakeMkvStatus::Done,
                            watching_progress: false,
                            ..ended
                        },
                    },
                    Ok(()),
                ),
            }
        }
    }

    /// Lends the idle session to a new job, as `spec_start` says.
    pub fn start(&mut self, job: Job) -> (r: Result<(), RippaError>)
        requires
            old(self).wf(),
        ensures
            final(self).wf(),
            (*final(self), r) == old(self).spec_start(job),
    {
        if !self.session_idle {
            return Err(RippaError::MakeMkvAlreadyRunning);
        }
        if job == Job::Rip && !self.has_titles {
            return Err(RippaError::InvalidTitle);
        }
        self.session_idle = false;
        self.running = Some(job);
        self.status = match job {
            Job::Init => MakeMkvStatus::Initialising,
            Job::Load => MakeMkvStatus::GettingData,
            Job::Rip => MakeMkvStatus::Ripping,
        };
        if job == Job::Rip {
            self.watching_progress = true;
        }
        Ok(())
    }

    /// Takes the end of the running job, as `spec_finish` says.
    pub fn finish(&mut self, job: Job, outcome: Result<(), MakeMkvError>) -> (r: Result<(), RippaError>)
        requires
            old(self).wf(),
        ensures
            final(self).wf(),
            (*final(self), r) == old(self).spec_finish(job, outcome),
    {
        if self.running != Some(job) {
            return Err(RippaError::MakeMkvNotRunning);
        }
        self.running = None;
        let ok = outcome.is_ok();
        if ok || job != Job::Rip {
            self.session_idle = true;
        }
        if let Err(e) = outcome {
            return Err(RippaError::MakeMkv(e));
        }
        match job {
            Job::Init => {
                self.has_info = true;
                self.status = MakeMkvStatus::Init;
            },
            Job::Load => {
                self.has_titles = true;
                self.status = MakeMkvStatus::LoadedData;
            },
            Job::Rip => {
                self.status = MakeMkvStatus::Done;
                self.watching_progress = false;
            },
        }
        Ok(())
    }
}

/// While a job runs, no other job can start: the request is refused as
/// MakeMKV already running, and nothing changes.
pub proof fn lemma_one_job_at_a_time(t: TaskState, job: Job, other: Job)
    requires
        t.wf(),
        t.running == Some(job),
    ensures
        t.spec_start(other) == (t, Err::<(), RippaError>(RippaError::MakeMkvAlreadyRunning)),
{
}

/// With the session idle, starting MakeMKV or loading a disc always
/// succeeds, whatever was loaded before, and a rip succeeds once titles are
/// loaded: the session is lent to the job and its status shown.
pub proof fn lemma_idle_session_starts(t: TaskState, job: Job)
    requires
        t.wf(),
        t.session_idle,
        job != Job::Rip || t.has_titles,
    ensures
        t.spec_start(job).1 == Ok::<(), RippaError>(()),
        !t.spec_start(job).0.session_idle,
        t.spec_start(job).0.running == Some(job),
        t.spec_start(job).0.has_info == t.has_info,
        t.spec_start(job).0.has_titles == t.has_titles,
        job == Job::Init ==> t.spec_start(job).0.status == MakeMkvStatus::Initialising,
        job == Job::Load ==> t.spec_start(job).0.status == MakeMkvStatus::GettingData,
        job == Job::Rip ==> t.spec_start(job).0.status == MakeMkvStatus::Ripping,
{
}

/// Every state that starting or ending a job reaches is well formed.
pub proof fn lemma_steps_keep_wf(t: TaskState, job: Job, outcome: Result<(), MakeMkvError>)
    requires
        t.wf(),
    ensures
        t.spec_start(job).0.wf(),
        t.spec_finish(job, outcome).0.wf(),
{
}

/// A job that starts and succeeds gives the session back, so the next job
/// can start; a rip that fails keeps it, so no job can start after it.
pub proof fn lemma_job_cycle(t: TaskState, job: Job, next: Job, outcome: Result<(), MakeMkvError>)
    requires
        t.wf(),
        t.spec_start(job).1 is Ok,
    ensures
        ({
            let (started, _) = t.spec_start(job);
            let (ended, r) = started.spec_finish(job, outcome);
            &&& ended.running is None
            &&& (r is Ok <==> outcome is Ok)
            &&& outcome is Ok || job != Job::Rip ==> ended.session_idle
            &&& outcome is Err && job == Job::Rip ==> ended.spec_start(next) == (
                ended,
                Err::<(), RippaError>(RippaError::MakeMkvAlreadyRunning),
            )
        }),
{
}

/// The selection of a form as a map from title index to track indices.
pub open spec fn selection_view(m: HashMap<usize, Vec<usize>>) -> Map<usize, Seq<usize>> {
    Map::new(|k: usize| m@.contains_key(k), |k: usize| m@[k]@)
}

/// The tracks selected for a title: none when the title is not selected.
pub open spec fn selected_tracks(sel: Map<usize, Seq<usize>>, title: int) -> Seq<usize> {
    if title >= 0 && sel.contains_key(title as usize) {
        sel[title as usize]
    } else {
        Seq::empty()
    }
}

/// The items of the first `n` track slots: each present track, selected
/// when its index is listed.
pub open spec fn spec_track_plan(tracks: Seq<Option<Track>>, listed: Seq<usize>, n: nat) -> Seq<(u64, bool)>
    decreases n,
{
    if n == 0 {
        Seq::empty()
    } else {
        let rest = spec_track_plan(tracks, listed, (n - 1) as nat);
        match tracks[n - 1] {
            Some(t) => rest.push((t.handle, listed.contains((n - 1) as usize))),
            None => rest,
        }
    }
}

/// The items of a title: the title, selected when it is in the selection,
/// then its tracks.
pub open spec fn spec_title_items(t: Title, sel: Map<usize, Seq<usize>>, i: int) -> Seq<(u64, bool)> {
    seq![(t.handle, sel.contains_key(i as usize))] + spec_track_plan(
        t.tracks@,
        selected_tracks(sel, i),
        t.tracks@.len(),
    )
}

/// The items of the first `n` title slots, in order: every present title
/// followed by its tracks.
pub open spec fn spec_selection_plan(titles: Seq<Option<Title>>, sel: Map<usize, Seq<usize>>, n: nat) -> Seq<(u64, bool)>
    decreases n,
{
    if n == 0 {
        Seq::empty()
    } else {
        let rest = spec_selection_plan(titles, sel, (n - 1) as nat);
        match titles[n - 1] {
            Some(t) => rest + spec_title_items(t, sel, n - 1),
            None => rest,
        }
    }
}

/// Whether `v` holds `x`.
fn vec_contains(v: &Vec<usize>, x: usize) -> (b: bool)
    ensures
        b == v@.contains(x),
{
    let mut i: usize = 0;
    while i < v.len()
        invariant
            i <= v@.len(),
            forall|k: int| 0 <= k < i ==> v@[k] != x,
        decreases v@.len() - i,
    {
        if v[i] == x {
            return true;
        }
        i = i + 1;
    }
    false
}

/// The items of one title's track slots.
fn track_plan(tracks: &Vec<Option<Track>>, listed: &Vec<usize>, plan: &mut Vec<(u64, bool)>)
    ensures
        final(plan)@ == old(plan)@ + spec_track_plan(tracks@, listed@, tracks@.len()),
{
    let ghost start = plan@;
    let mut j: usize = 0;
    while j < tracks.len()
        invariant
            j <= tracks@.len(),
            plan@ == start + spec_track_plan(tracks@, listed@, j as nat),
        decreases tracks@.len() - j,
    {
        if let Some(track) = &tracks[j] {
            let enabled = vec_contains(listed, j);
            plan.push((track.handle, enabled));
        }
        j = j + 1;
        assert(plan@ =~= start + spec_track_plan(tracks@, listed@, j as nat));
    }
}

/// The items to select or deselect before a rip, in the order in which
/// they are set: each present title, selected when its index is in the
/// selection, then its present tracks, selected when listed for it.
pub fn selection_plan(titles: &TitleList, selection: &HashMap<usize, Vec<usize>>) -> (plan: Vec<(u64, bool)>)
    ensures
        plan@ == spec_selection_plan(
            titles.titles@,
            selection_view(*selection),
            titles.titles@.len(),
        ),
{
    let ghost sel = selection_view(*selection);
    let empty: Vec<usize> = Vec::new();
    let mut plan: Vec<(u64, bool)> = Vec::new();
    let mut i: usize = 0;
    while i < titles.titles.len()
        invariant
            i <= titles.titles@.len(),
            sel == selection_view(*selection),
            empty@.len() == 0,
            plan@ == spec_selection_plan(titles.titles@, sel, i as nat),
        decreases titles.titles@.len() - i,
    {
        if let Some(title) = &titles.titles[i] {
            let ghost before = plan@;
            let enabled = selection.contains_key(&i);
            plan.push((title.handle, enabled));
            let listed = match selection.get(&i) {
                Some(v) => v,
                None => &empty,
            };
            assert(listed@ == selected_tracks(sel, i as int));
            track_plan(&title.tracks, listed, &mut plan);
            assert(plan@ =~= before + spec_title_items(*title, sel, i as int));
        }
        i = i + 1;
    }
    plan
}

/// The word that starts every field of a title selection.
pub open spec fn title_word() -> Seq<char> {
    seq!['t', 'i', 't', 'l', 'e']
}

/// The word that separates a title index from a track index.
pub open spec fn track_word() -> Seq<char> {
    seq!['t', 'r', 'a', 'c', 'k']
}

/// The index numbers that the pieces hold, the pieces that hold none
/// being skipped.
pub open spec fn spec_index_numbers(parts: Seq<Seq<char>>) -> Seq<nat>
    decreases parts.len(),
{
    if parts.len() == 0 {
        Seq::empty()
    } else {
        let r = spec_index_numbers(parts.drop_last());
        match spec_number(parts.last(), usize::MAX as nat) {
            Some(v) => r.push(v),
            None => r,
        }
    }
}

/// What one field name of the form does to the selection: `title<i>`
/// selects title `i` with no tracks (forgetting tracks already listed for
/// it), `title<i>track<j>` adds track `j` to title `i`, which must already
/// be selected. Anything else spoils the whole selection.
pub open spec fn spec_apply_field(m: Map<usize, Seq<usize>>, item: Seq<char>) -> Option<
    Map<usize, Seq<usize>>,
> {
    if !(item.len() >= 5 && item.subrange(0, 5) == title_word()) {
        None
    } else {
        let stripped = item.subrange(5, item.len() as int);
        if spec_find(item, track_word(), 0) < 0 {
            match spec_number(stripped, usize::MAX as nat) {
                Some(i) => Some(m.insert(i as usize, Seq::empty())),
                None => None,
            }
        } else {
            let nums = spec_index_numbers(spec_split_str(stripped, track_word()));
            if nums.len() == 2 && m.contains_key(nums[0] as usize) {
                Some(m.insert(nums[0] as usize, m[nums[0] as usize].push(nums[1] as usize)))
            } else {
                None
            }
        }
    }
}

/// The field names of a form body: the part before `=` of each piece
/// between `&` characters.
pub open spec fn spec_field_names(body: Seq<char>) -> Seq<Seq<char>> {
    spec_split_char(body, '&').map_values(|p: Seq<char>| spec_split_char(p, '=')[0])
}

/// The selection that the first `n` field names make, starting from none.
pub open spec fn spec_fold_fields(items: Seq<Seq<char>>, n: nat) -> Option<Map<usize, Seq<usize>>>
    decreases n,
{
    if n == 0 {
        Some(Map::empty())
    } else {
        match spec_fold_fields(items, (n - 1) as nat) {
            Some(m) => spec_apply_field(m, items[n - 1]),
            None => None,
        }
    }
}

/// A spoilt selection stays spoilt, whatever fields follow.
proof fn lemma_fold_fields_none(items: Seq<Seq<char>>, n: nat, m: nat)
    requires
        n <= m,
        spec_fold_fields(items, n) is None,
    ensures
        spec_fold_fields(items, m) is None,
    decreases m - n,
{
    if n < m {
        lemma_fold_fields_none(items, n, (m - 1) as nat);
    }
}

/// The title selection that a form body makes.
pub open spec fn spec_parse_selected_titles(body: Seq<char>) -> Option<Map<usize, Seq<usize>>> {
    spec_fold_fields(spec_field_names(body), spec_field_names(body).len())
}

/// The index numbers that the pieces hold.
fn index_numbers(parts: &Vec<Vec<char>>) -> (r: Vec<usize>)
    ensures
        r@.len() == spec_index_numbers(parts@.map_values(|v: Vec<char>| v@)).len(),
        forall|k: int|
            0 <= k < r@.len() ==> r@[k] == spec_index_numbers(
                parts@.map_values(|v: Vec<char>| v@),
            )[k],
{
    let ghost pv = parts@.map_values(|v: Vec<char>| v@);
    let mut r: Vec<usize> = Vec::new();
    let mut i: usize = 0;
    while i < parts.len()
        invariant
            i <= parts@.len(),
            pv == parts@.map_values(|v: Vec<char>| v@),
            r@.len() == spec_index_numbers(pv.subrange(0, i as int)).len(),
            forall|k: int|
                0 <= k < r@.len() ==> r@[k] == spec_index_numbers(pv.subrange(0, i as int))[k],
        decreases parts@.len() - i,
    {
        assert(pv.subrange(0, i + 1).drop_last() =~= pv.subrange(0, i as int));
        assert(pv.subrange(0, i + 1).last() == parts@[i as int]@);
        match parse_number_chars(parts[i].as_slice(), usize::MAX as u64) {
            Some(v) => r.push(v as usize),
            None => {},
        }
        i = i + 1;
    }
    assert(pv.subrange(0, i as int) =~= pv);
    r
}

/// The title selection of a form body, title indices mapped to the track
/// indices selected for them, or nothing when a field name is not one of
/// `title<i>` and `title<i>track<j>` or lists a track for a title that is
/// not selected.
pub fn parse_selected_titles(body: &str) -> (r: Option<HashMap<usize, Vec<usize>>>)
    ensures
        match spec_parse_selected_titles(body@) {
            Some(m) => r matches Some(h) && selection_view(h) == m,
            None => r is None,
        },
{
    let chars = chars_of(body);
    let pieces = split_chars(chars.as_slice(), '&');
    let ghost items = spec_field_names(body@);
    let title_chars: Vec<char> = vec!['t', 'i', 't', 'l', 'e'];
    let track_chars: Vec<char> = vec!['t', 'r', 'a', 'c', 'k'];
    assert(title_chars@ =~= title_word());
    assert(track_chars@ =~= track_word());
    let mut map: HashMap<usize, Vec<usize>> = HashMap::new();
    assert(selection_view(map) =~= Map::<usize, Seq<usize>>::empty());
    let mut k: usize = 0;
    while k < pieces.len()
        invariant
            k <= pieces@.len(),
            chars@ == body@,
            pieces@.map_values(|v: Vec<char>| v@) == spec_split_char(body@, '&'),
            items == spec_field_names(body@),
            items.len() == pieces@.len(),
            title_chars@ == title_word(),
            track_chars@ == track_word(),
            spec_fold_fields(items, k as nat) == Some(selection_view(map)),
        decreases pieces@.len() - k,
    {
        let eq_parts = split_chars(pieces[k].as_slice(), '=');
        proof {
            lemma_split_char_nonempty(pieces@[k as int]@, '=');
        }
        let item = eq_parts[0].as_slice();
        assert(item@ == items[k as int]);
        let ghost before = selection_view(map);
        let is_title = item.len() >= 5 && item[0] == 't' && item[1] == 'i' && item[2] == 't'
            && item[3] == 'l' && item[4] == 'e';
        proof {
            if is_title {
                assert(item@.subrange(0, 5) =~= title_word());
            } else if item@.len() >= 5 && item@.subrange(0, 5) == title_word() {
                assert(item@.subrange(0, 5)[1] == 'i');
                assert(item@[0] == 't' && item@[1] == 'i' && item@[2] == 't' && item@[3] == 'l'
                    && item@[4] == 'e');
            }
        }
        if !is_title {
            proof {
                lemma_fold_fields_none(items, (k + 1) as nat, items.len());
            }
            return None;
        }
        let stripped = slice_to_vec(item, 5, item.len());
        match find_chars(item, track_chars.as_slice(), 0) {
            None => {
                let index = match parse_number_chars(stripped.as_slice(), usize::MAX as u64) {
                    Some(v) => v as usize,
                    None => {
                        proof {
                            lemma_fold_fields_none(items, (k + 1) as nat, items.len());
                        }
                        return None;
                    },
                };
                map.insert(index, Vec::new());
                assert(selection_view(map) =~= before.insert(index, Seq::empty()));
            },
            Some(_) => {
                let parts = split_str_chars(stripped.as_slice(), track_chars.as_slice());
                let nums = index_numbers(&parts);
                if nums.len() != 2 {
                    proof {
                        lemma_fold_fields_none(items, (k + 1) as nat, items.len());
                    }
                    return None;
                }
                let title = nums[0];
                let track = nums[1];
                match map.remove(&title) {
                    Some(v) => {
                        let mut v = v;
                        v.push(track);
                        map.insert(title, v);
                        assert(selection_view(map) =~= before.insert(title, before[title].push(track)));
                    },
                    None => {
                        proof {
                            lemma_fold_fields_none(items, (k + 1) as nat, items.len());
                        }
                        return None;
                    },
                }
            },
        }
        k = k + 1;
    }
    Some(map)
}

/// What the MakeMKV section of the page shows: the report MakeMKV gave
/// about itself, the task's status and the server's version.
pub struct MakeMkvInfoPage {
    pub info: Option<MakeMkvInfo>,
    pub status: MakeMkvStatus,
    pub version: String,
}

impl MakeMkvInfoPage {
    /// The section for the given report, status and version.
    pub fn new(info: Option<MakeMkvInfo>, status: MakeMkvStatus, version: String) -> (p: Self)
        ensures
            p.info == info,
            p.status == status,
            p.version == version,
    {
        MakeMkvInfoPage { info, status, version }
    }
}

/// What the disc section of the page shows: the titles of the loaded disc
/// and the task's status.
pub struct MakeMkvDiscDataPage {
    pub title_list: Option<TitleList>,
    pub status: MakeMkvStatus,
}

impl MakeMkvDiscDataPage {
    /// The section for the given titles and status.
    pub fn new(title_list: Option<TitleList>, status: MakeMkvStatus) -> (p: Self)
        ensures
            p.title_list == title_list,
            p.status == status,
    {
        MakeMkvDiscDataPage { title_list, status }
    }
}

/// What the rip section of the page shows: both progress bars, as shown
/// percentages, and the task's status.
pub struct MakeMkvProgressPage {
    pub current_progress: String,
    pub total_progress: String,
    pub status: MakeMkvStatus,
}

impl MakeMkvProgressPage {
    /// The section for the given percentages and status.
    pub fn new(current_progress: String, total_progress: String, status: MakeMkvStatus) -> (p: Self)
        ensures
            p.current_progress == current_progress,
            p.total_progress == total_progress,
            p.status == status,
    {
        MakeMkvProgressPage { current_progress, total_progress, status }
    }
}

/// The whole page: the MakeMKV, disc and rip sections.
pub struct IndexPage {
    pub makemkv_info: MakeMkvInfoPage,
    pub makemkv_disc_data: MakeMkvDiscDataPage,
    pub makemkv_rip: MakeMkvProgressPage,
}

impl IndexPage {
    /// The page made of the three sections.
    pub fn new(
        makemkv_info: MakeMkvInfoPage,
        makemkv_disc_data: MakeMkvDiscDataPage,
        makemkv_rip: MakeMkvProgressPage,
    ) -> (p: Self)
        ensures
            p.makemkv_info == makemkv_info,
            p.makemkv_disc_data == makemkv_disc_data,
            p.makemkv_rip == makemkv_rip,
    {
        IndexPage { makemkv_info, makemkv_disc_data, makemkv_rip }
    }
}

/// A text of title letters and digits holds no "track".
proof fn lemma_no_track(s: Seq<char>)
    requires
        forall|k: int| 0 <= k < s.len() ==> #[trigger] s[k] != 'r',
    ensures
        spec_find(s, track_word(), 0) == -1,
{
    lemma_find(s, track_word(), 0);
    let f = spec_find(s, track_word(), 0);
    if f != -1 {
        assert(s.subrange(f, f + 5)[1] == track_word()[1]);
        assert(s[f + 1] == 'r');
    }
}

/// The field name `title<i>`: the title word and the decimal index.
pub open spec fn title_field(i: nat) -> Seq<char> {
    "title"@ + spec_decimal(i)
}

/// The field name `title<i>track<j>`.
pub open spec fn track_field(i: nat, j: nat) -> Seq<char> {
    "title"@ + spec_decimal(i) + "track"@ + spec_decimal(j)
}

/// The characters of a title field: letters of "title", then digits.
proof fn lemma_title_field_chars(i: nat)
    ensures
        title_field(i).len() > 5,
        title_field(i).subrange(0, 5) == title_word(),
        title_field(i).subrange(5, title_field(i).len() as int) == spec_decimal(i),
        forall|k: int|
            0 <= k < title_field(i).len() ==> #[trigger] title_field(i)[k] != 'r'
                && title_field(i)[k] != '&' && title_field(i)[k] != '=',
{
    reveal_strlit("title");
    lemma_decimal_digits(i);
    let f = title_field(i);
    assert(f.subrange(0, 5) =~= title_word());
    assert(f.subrange(5, f.len() as int) =~= spec_decimal(i));
    assert forall|k: int| 0 <= k < f.len() implies #[trigger] f[k] != 'r' && f[k] != '&' && f[k]
        != '=' by {
        if k >= 5 {
            assert(f[k] == spec_decimal(i)[k - 5]);
        }
    }
}

/// A field name without `&` or `=` is the only field of a body made of it.
proof fn lemma_single_field(f: Seq<char>)
    requires
        forall|k: int| 0 <= k < f.len() ==> #[trigger] f[k] != '&' && f[k] != '=',
    ensures
        spec_field_names(f) == seq![f],
{
    lemma_split_char_none(f, '&');
    lemma_split_char_none(f, '=');
    assert(spec_field_names(f) =~= seq![f]);
}

/// The form field `title<i>`, for any index that fits in `usize`, selects
/// title `i` with no tracks.
pub proof fn lemma_select_title(i: usize)
    ensures
        spec_parse_selected_titles("title"@ + spec_decimal(i as nat)) == Some(
            Map::<usize, Seq<usize>>::empty().insert(i, Seq::empty()),
        ),
{
    let f = title_field(i as nat);
    lemma_title_field_chars(i as nat);
    lemma_single_field(f);
    lemma_no_track(f);
    lemma_parse_decimal(i as nat, usize::MAX as nat);
    let items = spec_field_names(f);
    assert(spec_fold_fields(items, 0) == Some(Map::<usize, Seq<usize>>::empty()));
    assert(items[0] == f);
    assert(spec_fold_fields(items, 1) == spec_apply_field(Map::<usize, Seq<usize>>::empty(), f));
}

/// The characters of a track field: letters of "title" and "track", and
/// digits, the "track" standing right after the title index.
proof fn lemma_track_field_chars(i: nat, j: nat)
    ensures
        track_field(i, j).len() > 5,
        track_field(i, j).subrange(0, 5) == title_word(),
        track_field(i, j).subrange(5, track_field(i, j).len() as int) == spec_decimal(i)
            + track_word() + spec_decimal(j),
        forall|k: int|
            0 <= k < track_field(i, j).len() ==> #[trigger] track_field(i, j)[k] != '&'
                && track_field(i, j)[k] != '=',
{
    reveal_strlit("title");
    reveal_strlit("track");
    lemma_decimal_digits(i);
    lemma_decimal_digits(j);
    let g = track_field(i, j);
    let di = spec_decimal(i);
    let dj = spec_decimal(j);
    assert(g =~= title_word() + di + track_word() + dj);
    assert(g.subrange(0, 5) =~= title_word());
    assert(g.subrange(5, g.len() as int) =~= di + track_word() + dj);
    assert forall|k: int| 0 <= k < g.len() implies #[trigger] g[k] != '&' && g[k] != '=' by {
        if 5 <= k < 5 + di.len() {
            assert(g[k] == di[k - 5]);
        } else if k >= 10 + di.len() {
            assert(g[k] == dj[k - 10 - di.len()]);
        }
    }
}

/// Splitting "<i>track<j>" at "track" gives the two indices' digits.
proof fn lemma_split_track(i: nat, j: nat)
    ensures
        spec_split_str(spec_decimal(i) + track_word() + spec_decimal(j), track_word()) == seq![
            spec_decimal(i),
            spec_decimal(j),
        ],
{
    lemma_decimal_digits(i);
    lemma_decimal_digits(j);
    let di = spec_decimal(i);
    let dj = spec_decimal(j);
    let s = di + track_word() + dj;
    let tw = track_word();
    let n = di.len() as int;
    assert(s.subrange(n, n + 5) =~= tw);
    assert(occurs_at(s, tw, n));
    lemma_find(s, tw, 0);
    let f0 = spec_find(s, tw, 0);
    if f0 != n {
        assert(f0 != -1);
        assert(f0 < n);
        assert(s.subrange(f0, f0 + 5)[0] == tw[0]);
        assert(s[f0] == di[f0]);
        assert(false);
    }
    lemma_find(s, tw, n + 5);
    let f1 = spec_find(s, tw, n + 5);
    if f1 != -1 {
        assert(s.subrange(f1, f1 + 5)[0] == tw[0]);
        assert(s[f1] == dj[f1 - n - 5]);
        assert(false);
    }
    assert(s.subrange(0, n) =~= di);
    assert(s.subrange(n + 5, s.len() as int) =~= dj);
    assert(spec_split_str_from(s, tw, n + 5) == seq![dj]);
    assert(spec_split_str_from(s, tw, 0) == seq![di] + spec_split_str_from(s, tw, n + 5));
    assert(spec_split_str(s, tw) =~= seq![di, dj]);
}

/// A track field holds "track".
proof fn lemma_track_found(i: nat, j: nat)
    ensures
        spec_find(track_field(i, j), track_word(), 0) >= 0,
{
    let g = track_field(i, j);
    let di = spec_decimal(i);
    reveal_strlit("title");
    reveal_strlit("track");
    assert(g =~= title_word() + di + track_word() + spec_decimal(j));
    let at = 5 + di.len() as int;
    assert(g.subrange(at, at + 5) =~= track_word());
    lemma_find(g, track_word(), 0);
    assert(occurs_at(g, track_word(), at));
}

/// Two pieces of decimal digits hold their two numbers.
proof fn lemma_two_numbers(i: nat, j: nat)
    requires
        i <= usize::MAX,
        j <= usize::MAX,
    ensures
        spec_index_numbers(seq![spec_decimal(i), spec_decimal(j)]) == seq![i, j],
{
    lemma_parse_decimal(i, usize::MAX as nat);
    lemma_parse_decimal(j, usize::MAX as nat);
    let parts = seq![spec_decimal(i), spec_decimal(j)];
    let first = seq![spec_decimal(i)];
    assert(parts.drop_last() =~= first);
    assert(first.drop_last() =~= Seq::<Seq<char>>::empty());
    assert(first.last() == spec_decimal(i));
    assert(spec_index_numbers(Seq::<Seq<char>>::empty()) == Seq::<nat>::empty());
    assert(spec_index_numbers(first) == Seq::<nat>::empty().push(i));
    assert(spec_index_numbers(first) =~= seq![i]);
    assert(spec_index_numbers(parts) =~= seq![i, j]);
}

/// The field `title<i>track<j>` adds track `j` to title `i`, once title
/// `i` is selected.
proof fn lemma_apply_track_field(m1: Map<usize, Seq<usize>>, i: usize, j: usize)
    requires
        m1.contains_key(i),
    ensures
        spec_apply_field(m1, track_field(i as nat, j as nat)) == Some(
            m1.insert(i, m1[i].push(j)),
        ),
{
    let g = track_field(i as nat, j as nat);
    lemma_track_field_chars(i as nat, j as nat);
    lemma_track_found(i as nat, j as nat);
    lemma_split_track(i as nat, j as nat);
    lemma_two_numbers(i as nat, j as nat);
    let stripped = g.subrange(5, g.len() as int);
    assert(spec_index_numbers(spec_split_str(stripped, track_word())) == seq![
        i as nat,
        j as nat,
    ]);
}

/// The form fields `title<i>` and `title<i>track<j>`, for any indices that
/// fit in `usize`, select title `i` with track `j` alone.
pub proof fn lemma_select_title_and_track(i: usize, j: usize)
    ensures
        spec_parse_selected_titles(
            "title"@ + spec_decimal(i as nat) + "&"@ + "title"@ + spec_decimal(i as nat) + "track"@
                + spec_decimal(j as nat),
        ) == Some(Map::<usize, Seq<usize>>::empty().insert(i, seq![j])),
{
    reveal_strlit("&");
    let f = title_field(i as nat);
    let g = track_field(i as nat, j as nat);
    let body = "title"@ + spec_decimal(i as nat) + "&"@ + "title"@ + spec_decimal(i as nat)
        + "track"@ + spec_decimal(j as nat);
    assert(body =~= f + seq!['&'] + g);
    lemma_title_field_chars(i as nat);
    lemma_track_field_chars(i as nat, j as nat);
    lemma_split_char_concat(f, g, '&');
    lemma_split_char_none(f, '&');
    lemma_split_char_none(g, '&');
    lemma_split_char_none(f, '=');
    lemma_split_char_none(g, '=');
    let items = spec_field_names(body);
    assert(spec_split_char(body, '&') =~= seq![f, g]);
    assert(items =~= seq![f, g]);
    // The first field selects title `i`.
    lemma_no_track(f);
    lemma_parse_decimal(i as nat, usize::MAX as nat);
    lemma_parse_decimal(j as nat, usize::MAX as nat);
    let m1 = Map::<usize, Seq<usize>>::empty().insert(i, Seq::empty());
    assert(spec_fold_fields(items, 0) == Some(Map::<usize, Seq<usize>>::empty()));
    assert(spec_fold_fields(items, 1) == Some(m1));
    // The second field adds track `j` to it.
    lemma_apply_track_field(m1, i, j);
    assert(spec_fold_fields(items, 2) == spec_apply_field(m1, g));
    assert(m1.insert(i, m1[i].push(j)) =~= Map::<usize, Seq<usize>>::empty().insert(i, seq![j]));
}

/// The plan of fewer title slots is the start of the plan of more.
proof fn lemma_plan_prefix(titles: Seq<Option<Title>>, sel: Map<usize, Seq<usize>>, m: nat, n: nat)
    requires
        m <= n,
    ensures
        spec_selection_plan(titles, sel, m).len() <= spec_selection_plan(titles, sel, n).len(),
        forall|k: int|
            0 <= k < spec_selection_plan(titles, sel, m).len() ==> spec_selection_plan(
                titles,
                sel,
                n,
            )[k] == #[trigger] spec_selection_plan(titles, sel, m)[k],
    decreases n - m,
{
    if m < n {
        lemma_plan_prefix(titles, sel, m, (n - 1) as nat);
    }
}

/// The track plan of fewer slots is the start of the track plan of more.
proof fn lemma_track_plan_prefix(tracks: Seq<Option<Track>>, listed: Seq<usize>, m: nat, n: nat)
    requires
        m <= n,
    ensures
        spec_track_plan(tracks, listed, m).len() <= spec_track_plan(tracks, listed, n).len(),
        forall|k: int|
            0 <= k < spec_track_plan(tracks, listed, m).len() ==> spec_track_plan(
                tracks,
                listed,
                n,
            )[k] == #[trigger] spec_track_plan(tracks, listed, m)[k],
    decreases n - m,
{
    if m < n {
        lemma_track_plan_prefix(tracks, listed, m, (n - 1) as nat);
    }
}

/// In the plan of a rip, each present title has its entry, after the
/// entries of the titles before it: its handle, selected exactly when its
/// index is in the selection, however many tracks are listed for it. Each
/// present track of it follows, after the present tracks before it: its
/// handle, selected exactly when its title is selected and its index is
/// listed for that title.
pub proof fn lemma_plan_entries(
    titles: Seq<Option<Title>>,
    sel: Map<usize, Seq<usize>>,
    i: int,
    j: int,
)
    requires
        0 <= i < titles.len(),
        titles[i] is Some,
    ensures
        ({
            let t = titles[i]->Some_0;
            let full = spec_selection_plan(titles, sel, titles.len());
            let at = spec_selection_plan(titles, sel, i as nat).len();
            &&& at < full.len()
            &&& full[at as int] == (t.handle, sel.contains_key(i as usize))
            &&& (0 <= j < t.tracks@.len() && t.tracks@[j] is Some) ==> {
                let k = t.tracks@[j]->Some_0;
                let pos = at + 1 + spec_track_plan(
                    t.tracks@,
                    selected_tracks(sel, i),
                    j as nat,
                ).len();
                &&& pos < full.len()
                &&& full[pos as int] == (k.handle, sel.contains_key(i as usize) && sel[i as usize].contains(
                    j as usize,
                ))
            }
        }),
{
    let t = titles[i]->Some_0;
    let n = titles.len();
    let before = spec_selection_plan(titles, sel, i as nat);
    let upto = spec_selection_plan(titles, sel, (i + 1) as nat);
    let listed = selected_tracks(sel, i);
    let tp = spec_track_plan(t.tracks@, listed, t.tracks@.len());
    assert(upto == before + (seq![(t.handle, sel.contains_key(i as usize))] + tp));
    lemma_plan_prefix(titles, sel, (i + 1) as nat, n);
    let at = before.len();
    assert(upto[at as int] == (t.handle, sel.contains_key(i as usize)));
    if 0 <= j < t.tracks@.len() && t.tracks@[j] is Some {
        let k = t.tracks@[j]->Some_0;
        let tj = spec_track_plan(t.tracks@, listed, j as nat);
        let tj1 = spec_track_plan(t.tracks@, listed, (j + 1) as nat);
        assert(tj1 == tj.push((k.handle, listed.contains(j as usize))));
        lemma_track_plan_prefix(t.tracks@, listed, (j + 1) as nat, t.tracks@.len());
        assert(tp[tj.len() as int] == tj1[tj.len() as int]);
        let pos = at + 1 + tj.len();
        assert(upto[pos as int] == tp[tj.len() as int]);
        if !sel.contains_key(i as usize) {
            assert(!listed.contains(j as usize));
        }
    }
}

} // verus!
