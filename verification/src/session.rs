//! The session state machine: a session walks through its picked RAW files one
//! step at a time. Each step records the RAW file, the challenge given, the JPEG
//! expected back and, once the step ends, its outcome (`exported`, `skipped` or
//! `abandoned`).
//!
//! The decisions are made here; the application performs what they call for
//! (opening the file in the editor, running the countdown, watching the export
//! folder) and reports back what it observed.
use vstd::prelude::*;
use crate::paths::{expected_export_path, file_name_or_default, file_name_or_empty, spec_expected_export_path};
use crate::settings::{is_possible_challenge, pick_challenge, Settings};
use crate::text::{opt_text, texts};

verus! {

broadcast use vstd::string::group_string_axioms;

/// One step of a session.
#[derive(Debug, Clone)]
pub struct StepRecord {
    pub raw_path: String,
    pub challenge: String,
    pub expected_jpg: String,
    pub outcome: Option<String>,
}

/// The value of a step.
pub struct StepRecordView {
    pub raw_path: Seq<char>,
    pub challenge: Seq<char>,
    pub expected_jpg: Seq<char>,
    pub outcome: Option<Seq<char>>,
}

impl View for StepRecord {
    type V = StepRecordView;

    open spec fn view(&self) -> StepRecordView {
        StepRecordView {
            raw_path: self.raw_path@,
            challenge: self.challenge@,
            expected_jpg: self.expected_jpg@,
            outcome: opt_text(self.outcome),
        }
    }
}

/// A running session.
#[derive(Debug, Clone)]
pub struct SessionState {
    pub export_dir: String,
    pub archive_root: String,
    pub picks: Vec<String>,
    pub current_idx: usize,
    pub session_id: usize,
    pub step_generation: usize,
    pub expected_jpg: String,
    pub seconds_per_photo: u64,
    pub records: Vec<StepRecord>,
    pub started_at_label: String,
}

/// The value of a session.
pub struct SessionView {
    pub export_dir: Seq<char>,
    pub archive_root: Seq<char>,
    pub picks: Seq<Seq<char>>,
    pub current_idx: usize,
    pub session_id: usize,
    pub step_generation: usize,
    pub expected_jpg: Seq<char>,
    pub seconds_per_photo: u64,
    pub records: Seq<StepRecordView>,
    pub started_at_label: Seq<char>,
}

/// The values of a list of steps.
pub open spec fn record_views(records: Seq<StepRecord>) -> Seq<StepRecordView> {
    records.map_values(|r: StepRecord| r@)
}

impl View for SessionState {
    type V = SessionView;

    open spec fn view(&self) -> SessionView {
        SessionView {
            export_dir: self.export_dir@,
            archive_root: self.archive_root@,
            picks: texts(self.picks@),
            current_idx: self.current_idx,
            session_id: self.session_id,
            step_generation: self.step_generation,
            expected_jpg: self.expected_jpg@,
            seconds_per_photo: self.seconds_per_photo,
            records: record_views(self.records@),
            started_at_label: self.started_at_label@,
        }
    }
}

impl SessionView {
    /// A session never stands past its last pick.
    pub open spec fn wf(self) -> bool {
        self.current_idx <= self.picks.len()
    }
}

impl SessionState {
    /// A session never stands past its last pick.
    pub open spec fn wf(&self) -> bool {
        self@.wf()
    }
}

/// The session that starts with `picks`, or none when fewer files were found
/// than the session asks for.
pub open spec fn spec_new_session(
    export_dir: Seq<char>,
    archive_root: Seq<char>,
    picks: Seq<Seq<char>>,
    photos_per_session: usize,
    session_id: usize,
    seconds_per_photo: u64,
    started_at_label: Seq<char>,
) -> Option<SessionView> {
    if picks.len() < photos_per_session {
        None
    } else {
        Some(
            SessionView {
                export_dir,
                archive_root,
                picks,
                current_idx: 0,
                session_id,
                step_generation: 0,
                expected_jpg: Seq::empty(),
                seconds_per_photo,
                records: Seq::empty(),
                started_at_label,
            },
        )
    }
}

/// A new session over `picks`, positioned before its first step; `None` when
/// fewer files were found than `photos_per_session`, in which case the session
/// does not start.
pub fn new_session(
    export_dir: String,
    archive_root: String,
    picks: Vec<String>,
    photos_per_session: usize,
    session_id: usize,
    seconds_per_photo: u64,
    started_at_label: String,
) -> (r: Option<SessionState>)
    ensures
        r is None <==> picks@.len() < photos_per_session,
        match r {
            Some(s) => Some(s@) == spec_new_session(
                export_dir@,
                archive_root@,
                texts(picks@),
                photos_per_session,
                session_id,
                seconds_per_photo,
                started_at_label@,
            ) && s.wf(),
            None => true,
        },
{
    if picks.len() < photos_per_session {
        return None;
    }
    let s = SessionState {
        export_dir,
        archive_root,
        picks,
        current_idx: 0,
        session_id,
        step_generation: 0,
        expected_jpg: String::new(),
        seconds_per_photo,
        records: Vec::new(),
        started_at_label,
    };
    assert(record_views(s.records@) =~= Seq::<StepRecordView>::empty());
    Some(s)
}

/// The outcome given to a step that ends: the forced outcome if there is one,
/// otherwise `exported` when its JPEG is on disk and `abandoned` when it is not.
pub open spec fn step_outcome(forced: Option<Seq<char>>, export_exists: bool) -> Seq<char> {
    match forced {
        Some(o) => o,
        None => if export_exists {
            "exported"@
        } else {
            "abandoned"@
        },
    }
}

/// The steps after the current one ends: the last step, if it has no outcome
/// yet, gets one; a step that already has an outcome keeps it.
pub open spec fn finalized_records(
    records: Seq<StepRecordView>,
    forced: Option<Seq<char>>,
    export_exists: bool,
) -> Seq<StepRecordView> {
    if records.len() == 0 || records.last().outcome is Some {
        records
    } else {
        records.update(
            records.len() - 1,
            StepRecordView { outcome: Some(step_outcome(forced, export_exists)), ..records.last() },
        )
    }
}

/// The session after its current step ends.
pub open spec fn finalized(s: SessionView, forced: Option<Seq<char>>, export_exists: bool) -> SessionView {
    SessionView { records: finalized_records(s.records, forced, export_exists), ..s }
}

/// Text of an optional string slice.
pub open spec fn opt_str_text(o: Option<&str>) -> Option<Seq<char>> {
    match o {
        Some(s) => Some(s@),
        None => None,
    }
}

/// Ends the current step: if the last step has no outcome yet, it gets
/// `forced_outcome`, or, when none is forced, `exported` if its expected JPEG
/// exists on disk (`expected_jpg_exists`, as the caller observed it) and
/// `abandoned` if not. An outcome that is already set is never overwritten.
pub fn finalize_current_record(
    session: &mut SessionState,
    forced_outcome: Option<&str>,
    expected_jpg_exists: bool,
)
    ensures
        final(session)@ == finalized(old(session)@, opt_str_text(forced_outcome), expected_jpg_exists),
{
    let n = session.records.len();
    if n == 0 {
        return;
    }
    if session.records[n - 1].outcome.is_some() {
        return;
    }
    let ghost before = session.records@;
    let last = session.records.pop().unwrap();
    let outcome = match forced_outcome {
        Some(o) => o.to_string(),
        None => {
            if expected_jpg_exists {
                "exported".to_string()
            } else {
                "abandoned".to_string()
            }
        },
    };
    session.records.push(
        StepRecord {
            raw_path: last.raw_path,
            challenge: last.challenge,
            expected_jpg: last.expected_jpg,
            outcome: Some(outcome),
        },
    );
    proof {
        assert(record_views(session.records@) =~= finalized_records(
            record_views(before),
            opt_str_text(forced_outcome),
            expected_jpg_exists,
        ));
    }
}

/// What `begin_step` found.
pub enum StepStart {
    /// The request belongs to an earlier session; nothing changed.
    Stale,
    /// Every pick has had its step: the session is over; nothing changed.
    Finished,
    /// A step started, with what the window is to show and the generation of
    /// its countdown.
    Started { payload: StepPayload, generation: usize },
}

/// What the window shows when a step starts.
#[derive(Debug, Clone)]
pub struct StepPayload {
    pub step_index: usize,
    pub total_steps: usize,
    pub raw_path: String,
    pub expected_jpg: String,
    pub seconds_remaining: u64,
    pub challenge: String,
}

/// The session once the step at its current position has started with the
/// challenge `challenge`: the JPEG expected back is recorded, the step generation
/// moves on by one, and a step without outcome is appended. The position itself
/// moves on only once the RAW file has been opened (`commit_step`).
pub open spec fn started_step(s: SessionView, challenge: Seq<char>) -> SessionView {
    let raw = s.picks[s.current_idx as int];
    let expected = spec_expected_export_path(s.export_dir, raw);
    SessionView {
        expected_jpg: expected,
        step_generation: (s.step_generation + 1) as usize,
        records: s.records.push(
            StepRecordView { raw_path: raw, challenge, expected_jpg: expected, outcome: None },
        ),
        ..s
    }
}

/// Starts the step at the session's current position, for a request made on
/// behalf of session `session_id` with the given settings.
///
/// A request of another session finds the session unchanged (`Stale`); so does a
/// session whose picks have all had their step (`Finished`: the caller then ends
/// the last step and writes the history). Otherwise the step starts with a challenge
/// drawn from the enabled ones, and the window is told the step's number (from 1),
/// the number of steps, the RAW file, the file name of the expected JPEG, the time
/// per photo and the challenge.
pub fn begin_step(session: &mut SessionState, session_id: usize, settings: &Settings) -> (r: StepStart)
    requires
        old(session).session_id == session_id && old(session).current_idx < old(session).picks@.len()
            ==> old(session).step_generation < usize::MAX,
    ensures
        old(session).wf() ==> final(session).wf(),
        old(session).session_id != session_id ==> r is Stale && final(session)@ == old(session)@,
        old(session).session_id == session_id && old(session).current_idx >= old(session).picks@.len()
            ==> r is Finished && final(session)@ == old(session)@,
        old(session).session_id == session_id && old(session).current_idx < old(session).picks@.len()
            ==> match r {
            StepStart::Started { payload, generation } => {
                &&& is_possible_challenge(settings@.challenges, payload.challenge@)
                &&& final(session)@ == started_step(old(session)@, payload.challenge@)
                &&& generation == final(session).step_generation
                &&& payload.step_index == old(session).current_idx + 1
                &&& payload.total_steps == old(session).picks@.len()
                &&& payload.raw_path@ == old(session)@.picks[old(session).current_idx as int]
                &&& payload.expected_jpg@ == file_name_or_empty(final(session).expected_jpg@)
                &&& payload.seconds_remaining == old(session).seconds_per_photo
            },
            _ => false,
        },
{
    if session.session_id != session_id {
        return StepStart::Stale;
    }
    if session.current_idx >= session.picks.len() {
        return StepStart::Finished;
    }
    let ghost before = session@;
    let raw_path = session.picks[session.current_idx].clone();
    let expected_jpg = expected_export_path(session.export_dir.as_str(), raw_path.as_str());
    session.expected_jpg = expected_jpg.clone();
    session.step_generation = session.step_generation + 1;
    let generation = session.step_generation;
    let challenge = pick_challenge(settings);
    let ghost old_records = session.records@;
    session.records.push(
        StepRecord {
            raw_path: raw_path.clone(),
            challenge: challenge.clone(),
            expected_jpg: expected_jpg.clone(),
            outcome: None,
        },
    );
    let payload = StepPayload {
        step_index: session.current_idx + 1,
        total_steps: session.picks.len(),
        raw_path,
        expected_jpg: file_name_or_default(expected_jpg.as_str()),
        seconds_remaining: session.seconds_per_photo,
        challenge,
    };
    proof {
        assert(record_views(session.records@) =~= record_views(old_records).push(session.records@.last()@));
        assert(session@ == started_step(before, payload.challenge@));
    }
    StepStart::Started { payload, generation }
}

/// Moves the session past the step that just started, once its RAW file is open.
pub fn commit_step(session: &mut SessionState)
    requires
        old(session).current_idx < old(session).picks@.len(),
    ensures
        final(session)@ == (SessionView { current_idx: (old(session).current_idx + 1) as usize, ..old(session)@ }),
        final(session).wf(),
{
    let n = session.picks.len();
    assert(session.current_idx < n);
    session.current_idx = session.current_idx + 1;
}

/// The outcome forced when the user moves on: `skipped` for a skip, none (the
/// disk decides) for "next".
pub open spec fn advance_outcome(skipped: bool) -> Option<Seq<char>> {
    if skipped {
        Some("skipped"@)
    } else {
        None
    }
}

/// The user moves on to the next photo, skipping the current one or not: the
/// current step ends (`skipped`, or by what is on disk), and the id of the
/// session whose next step is to start is returned (0 when no session runs).
pub fn advance_step(session: &mut Option<SessionState>, skipped: bool, expected_jpg_exists: bool) -> (id: usize)
    ensures
        match *old(session) {
            Some(s) => {
                &&& *final(session) matches Some(t)
                &&& t@ == finalized(s@, advance_outcome(skipped), expected_jpg_exists)
                &&& id == s.session_id
            },
            None => *final(session) is None && id == 0,
        },
{
    match session {
        Some(s) => {
            if skipped {
                finalize_current_record(s, Some("skipped"), expected_jpg_exists);
            } else {
                finalize_current_record(s, None, expected_jpg_exists);
            }
            s.session_id
        },
        None => 0,
    }
}

/// The position whose photo a rejection replaces: the step started last.
/// A session before its first step has no photo to reject.
pub fn rejection_slot(session: &SessionState) -> (r: Result<usize, String>)
    ensures
        match r {
            Ok(slot) => session.current_idx > 0 && slot == session.current_idx - 1,
            Err(message) => session.current_idx == 0 && message@ == "No active photo to reject."@,
        },
{
    if session.current_idx == 0 {
        return Err("No active photo to reject.".to_string());
    }
    Ok(session.current_idx - 1)
}

/// The session after the photo at `slot` is replaced by `replacement`: the
/// session goes back to that position, and the steps from it on are forgotten.
pub open spec fn replaced(s: SessionView, slot: int, replacement: Seq<char>) -> SessionView {
    SessionView {
        picks: s.picks.update(slot, replacement),
        current_idx: slot as usize,
        records: if s.records.len() > slot {
            s.records.take(slot)
        } else {
            s.records
        },
        ..s
    }
}

/// Replaces the photo of the step just started (at `slot`, from `rejection_slot`)
/// by `replacement`, so that the same step starts again with it: the number of
/// photos in the session stays the same. Fails, changing nothing, when no
/// replacement could be found. On success, the id of the session whose step is
/// to start is returned.
pub fn replace_pick(session: &mut SessionState, slot: usize, replacement: Option<String>) -> (r: Result<usize, String>)
    requires
        old(session).current_idx > 0,
        slot == old(session).current_idx - 1,
        replacement is Some ==> slot < old(session).picks@.len(),
    ensures
        old(session).wf() ==> final(session).wf(),
        match replacement {
            Some(p) => r == Ok::<usize, String>(old(session).session_id)
                && final(session)@ == replaced(old(session)@, slot as int, p@),
            None => r matches Err(message) && message@ == "No replacement photo available in the archive."@
                && final(session)@ == old(session)@,
        },
        final(session).picks@.len() == old(session).picks@.len(),
{
    match replacement {
        None => Err("No replacement photo available in the archive.".to_string()),
        Some(p) => {
            let ghost before = session@;
            let ghost old_picks = session.picks@;
            let ghost old_records = session.records@;
            session.picks.set(slot, p);
            session.current_idx = slot;
            if session.records.len() > slot {
                session.records.truncate(slot);
            }
            proof {
                assert(texts(session.picks@) =~= texts(old_picks).update(slot as int, session.picks@[slot as int]@));
                if old_records.len() > slot {
                    assert(record_views(session.records@) =~= record_views(old_records).take(slot as int));
                }
            }
            Ok(session.session_id)
        },
    }
}

/// A countdown of session `session_id` and step generation `generation` still
/// belongs to the step on screen.
pub open spec fn spec_timer_is_current(session: Option<SessionView>, session_id: usize, generation: usize) -> bool {
    match session {
        Some(s) => s.session_id == session_id && s.step_generation == generation,
        None => false,
    }
}

/// Text of an optional session.
pub open spec fn opt_session(session: Option<SessionState>) -> Option<SessionView> {
    match session {
        Some(s) => Some(s@),
        None => None,
    }
}

/// Whether a countdown started for session `session_id` and step generation
/// `generation` is still the one of the step on screen; a countdown that is not
/// stops.
pub fn timer_is_current(session: &Option<SessionState>, session_id: usize, generation: usize) -> (r: bool)
    ensures
        r == spec_timer_is_current(opt_session(*session), session_id, generation),
{
    match session {
        Some(s) => s.session_id == session_id && s.step_generation == generation,
        None => false,
    }
}

/// What a countdown does at one second.
pub enum TimerAction {
    /// The countdown no longer belongs to the step on screen: it ends silently.
    Stop,
    /// Show the seconds left, wait a second, and go on with one second less.
    Tick(u64),
    /// Show zero and report that the time is up; the countdown ends.
    Expire,
}

/// One second of a countdown that still belongs to the step on screen, with
/// `remaining` seconds left: a tick while time is left, the end at zero.
pub fn countdown_tick(remaining: u64) -> (a: TimerAction)
    ensures
        remaining > 0 ==> a == TimerAction::Tick(remaining),
        remaining == 0 ==> a is Expire,
{
    if remaining > 0 {
        TimerAction::Tick(remaining)
    } else {
        TimerAction::Expire
    }
}

/// One second of the countdown of session `session_id` and step generation
/// `generation`, which runs from the time per photo down to zero: it stops as soon
/// as another step (or session) has taken over, ticks while time is left, and
/// reports the time up at zero.
pub fn countdown_step(session: &Option<SessionState>, session_id: usize, generation: usize, remaining: u64) -> (a: TimerAction)
    ensures
        !spec_timer_is_current(opt_session(*session), session_id, generation) ==> a is Stop,
        spec_timer_is_current(opt_session(*session), session_id, generation) && remaining > 0
            ==> a == TimerAction::Tick(remaining),
        spec_timer_is_current(opt_session(*session), session_id, generation) && remaining == 0 ==> a is Expire,
{
    if !timer_is_current(session, session_id, generation) {
        return TimerAction::Stop;
    }
    countdown_tick(remaining)
}

/// What the export watcher looks for, for session `session_id`: the expected
/// JPEG of the current step and the session's position, unless the session is
/// another one or no step has started yet.
pub fn export_watch_target(session: &Option<SessionState>, session_id: usize) -> (r: Option<(String, usize)>)
    ensures
        match *session {
            Some(s) if s.session_id == session_id && s.expected_jpg@.len() > 0 => r matches Some(t)
                && t.0@ == s.expected_jpg@ && t.1 == s.current_idx,
            _ => r is None,
        },
{
    match session {
        Some(s) => {
            if s.session_id != session_id {
                return None;
            }
            if s.expected_jpg.unicode_len() == 0 {
                return None;
            }
            Some((s.expected_jpg.clone(), s.current_idx))
        },
        None => None,
    }
}

/// The expected JPEG has been seen on disk: if session `session_id` still runs,
/// its current step ends as `exported` (unless it already has an outcome).
pub fn mark_exported(session: &mut Option<SessionState>, session_id: usize)
    ensures
        match *old(session) {
            Some(s) if s.session_id == session_id => *final(session) matches Some(t) && t@ == finalized(
                s@,
                Some("exported"@),
                false,
            ),
            _ => *final(session) == *old(session),
        },
{
    match session {
        Some(s) => {
            if s.session_id == session_id {
                finalize_current_record(s, Some("exported"), false);
            }
        },
        None => {},
    }
}

/// Whether a file is done being written: its size, read twice a moment apart,
/// is the same both times and not zero.
pub fn sizes_are_stable(first_size: u64, second_size: u64) -> (r: bool)
    ensures
        r == (first_size > 0 && first_size == second_size),
{
    first_size > 0 && first_size == second_size
}

/// The first outcome a step gets is the one it keeps: ending a step that has
/// already ended changes nothing, whatever outcome the second attempt would give.
pub proof fn lemma_first_outcome_wins(
    s: SessionView,
    first: Option<Seq<char>>,
    first_exists: bool,
    second: Option<Seq<char>>,
    second_exists: bool,
)
    ensures
        finalized(finalized(s, first, first_exists), second, second_exists) == finalized(s, first, first_exists),
{
    let t = finalized(s, first, first_exists);
    if s.records.len() > 0 && s.records.last().outcome is None {
        assert(t.records.last().outcome is Some);
    }
    assert(finalized(t, second, second_exists).records =~= t.records);
}

/// Once a step has started, every countdown started before it is stale: only a
/// countdown of the new generation still counts. This holds also when the step
/// restarts at the same position after its photo was rejected.
pub proof fn lemma_started_step_stales_earlier_timers(s: SessionView, challenge: Seq<char>, generation: usize)
    requires
        s.current_idx < s.picks.len(),
        s.step_generation < usize::MAX,
        generation <= s.step_generation,
    ensures
        !spec_timer_is_current(Some(started_step(s, challenge)), s.session_id, generation),
        spec_timer_is_current(
            Some(started_step(s, challenge)),
            s.session_id,
            (s.step_generation + 1) as usize,
        ),
{
}

/// Replacing a rejected photo by one that is not among the session's picks keeps
/// the picks free of repeats, and keeps their number.
pub proof fn lemma_replacement_keeps_picks_distinct(s: SessionView, slot: int, replacement: Seq<char>)
    requires
        s.picks.no_duplicates(),
        0 <= slot < s.picks.len(),
        !s.picks.contains(replacement),
    ensures
        replaced(s, slot, replacement).picks.no_duplicates(),
        replaced(s, slot, replacement).picks.len() == s.picks.len(),
{
    let p = replaced(s, slot, replacement).picks;
    assert forall|i: int, j: int| 0 <= i < p.len() && 0 <= j < p.len() && i != j implies p[i] != p[j] by {
        if i == slot {
            assert(s.picks.contains(s.picks[j]));
        } else if j == slot {
            assert(s.picks.contains(s.picks[i]));
        }
    }
}

/// Rejecting the photo of the step just started, then starting the step again,
/// runs that same step with the replacement: the session is back at the same
/// position, the photo at the rejected slot is the replacement and every other
/// photo is kept, the steps from that slot on are replaced by one new step for the
/// replacement, and the countdown generation moves on.
pub proof fn lemma_reject_restarts_the_same_step(s: SessionView, replacement: Seq<char>, challenge: Seq<char>)
    requires
        s.wf(),
        s.current_idx > 0,
        s.step_generation < usize::MAX,
    ensures
        ({
            let slot = s.current_idx - 1;
            let r = replaced(s, slot, replacement);
            let t = started_step(r, challenge);
            &&& r.current_idx < r.picks.len()
            &&& t.current_idx == slot
            &&& t.picks.len() == s.picks.len()
            &&& t.picks[slot] == replacement
            &&& forall|j: int| 0 <= j < s.picks.len() && j != slot ==> t.picks[j] == s.picks[j]
            &&& t.step_generation == s.step_generation + 1
            &&& t.session_id == s.session_id
            &&& t.records == (if s.records.len() > slot {
                s.records.take(slot)
            } else {
                s.records
            }).push(StepRecordView {
                raw_path: replacement,
                challenge,
                expected_jpg: spec_expected_export_path(s.export_dir, replacement),
                outcome: None,
            })
        }),
{
}

} // verus!
