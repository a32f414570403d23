//! The history log: one entry per step of every finished session, appended as
//! JSON lines to a file and read back newest first. Turning an entry into JSON
//! and back is the application's part; the framing of the lines and their order
//! are decided here.
use vstd::prelude::*;
use crate::paths::{file_name_or_default, file_name_or_empty};
use crate::session::{SessionState, SessionView, StepRecordView};
use crate::text::opt_text;

verus! {

broadcast use vstd::string::group_string_axioms;

/// One logged step.
#[derive(Debug, Clone)]
pub struct HistoryEntry {
    pub timestamp: String,
    pub export_dir: String,
    pub raw_path: String,
    pub challenge: String,
    pub expected_jpg: String,
    pub outcome: String,
}

/// The value of a logged step.
pub struct HistoryEntryView {
    pub timestamp: Seq<char>,
    pub export_dir: Seq<char>,
    pub raw_path: Seq<char>,
    pub challenge: Seq<char>,
    pub expected_jpg: Seq<char>,
    pub outcome: Seq<char>,
}

impl View for HistoryEntry {
    type V = HistoryEntryView;

    open spec fn view(&self) -> HistoryEntryView {
        HistoryEntryView {
            timestamp: self.timestamp@,
            export_dir: self.export_dir@,
            raw_path: self.raw_path@,
            challenge: self.challenge@,
            expected_jpg: self.expected_jpg@,
            outcome: self.outcome@,
        }
    }
}

/// The values of a list of entries.
pub open spec fn entry_views(entries: Seq<HistoryEntry>) -> Seq<HistoryEntryView> {
    entries.map_values(|e: HistoryEntry| e@)
}

/// The history entry of a step of session `s`: the session's start label and
/// export folder, the step's RAW file and challenge, the file name of the JPEG
/// expected, and the step's outcome, `abandoned` when it never got one.
pub open spec fn entry_for(s: SessionView, record: StepRecordView) -> HistoryEntryView {
    HistoryEntryView {
        timestamp: s.started_at_label,
        export_dir: s.export_dir,
        raw_path: record.raw_path,
        challenge: record.challenge,
        expected_jpg: file_name_or_empty(record.expected_jpg),
        outcome: match record.outcome {
            Some(o) => o,
            None => "abandoned"@,
        },
    }
}

/// The history entries of a session: one per step, in order.
pub open spec fn session_entries(s: SessionView) -> Seq<HistoryEntryView> {
    s.records.map_values(|r: StepRecordView| entry_for(s, r))
}

/// The history entries of a session, one per step in order, with `abandoned`
/// for a step that never got an outcome.
pub fn history_entries_from_session(session: &SessionState) -> (r: Vec<HistoryEntry>)
    ensures
        entry_views(r@) == session_entries(session@),
{
    let ghost s = session@;
    let mut entries: Vec<HistoryEntry> = Vec::new();
    let n = session.records.len();
    for i in 0..n
        invariant
            n == session.records@.len(),
            s == session@,
            entries@.len() == i,
            forall|j: int| 0 <= j < i ==> #[trigger] entries@[j]@ == entry_for(s, s.records[j]),
    {
        let record = &session.records[i];
        assert(s.records[i as int] == record@);
        let outcome = match &record.outcome {
            Some(o) => o.clone(),
            None => "abandoned".to_string(),
        };
        entries.push(
            HistoryEntry {
                timestamp: session.started_at_label.clone(),
                export_dir: session.export_dir.clone(),
                raw_path: record.raw_path.clone(),
                challenge: record.challenge.clone(),
                expected_jpg: file_name_or_default(record.expected_jpg.as_str()),
                outcome,
            },
        );
    }
    assert(entry_views(entries@) =~= session_entries(s));
    entries
}

/// Values of a list of optional entries.
pub open spec fn opt_entry_views(entries: Seq<Option<HistoryEntry>>) -> Seq<Option<HistoryEntryView>> {
    entries.map_values(
        |e: Option<HistoryEntry>|
            match e {
                Some(x) => Some(x@),
                None => None,
            },
    )
}

/// The entries read from the log, from lines in file order (`None` for a line
/// that did not parse): the ones that parsed, newest first.
pub open spec fn newest_first(parsed: Seq<Option<HistoryEntryView>>) -> Seq<HistoryEntryView> {
    parsed.filter_map(|e: Option<HistoryEntryView>| e).reverse()
}

/// Orders the entries read from the log for display: lines that did not parse
/// are dropped, and the rest come newest (last written) first.
pub fn history_newest_first(parsed: Vec<Option<HistoryEntry>>) -> (r: Vec<HistoryEntry>)
    ensures
        entry_views(r@) == newest_first(opt_entry_views(parsed@)),
{
    let ghost views = opt_entry_views(parsed@);
    let mut kept: Vec<HistoryEntry> = Vec::new();
    let n = parsed.len();
    for i in 0..n
        invariant
            n == parsed@.len(),
            views == opt_entry_views(parsed@),
            entry_views(kept@) == views.take(i as int).filter_map(|e: Option<HistoryEntryView>| e),
    {
        proof {
            let t = views.take(i + 1);
            assert(t.drop_last() =~= views.take(i as int));
            assert(t.last() == views[i as int]);
        }
        match &parsed[i] {
            Some(e) => {
                let ghost before = kept@;
                kept.push(e.clone_entry());
                assert(entry_views(kept@) =~= entry_views(before) + seq![e@]);
            },
            None => {},
        }
    }
    assert(views.take(n as int) =~= views);
    let ghost forward = entry_views(kept@);
    let mut r: Vec<HistoryEntry> = Vec::new();
    let m = kept.len();
    for k in 0..m
        invariant
            m == kept@.len(),
            forward == entry_views(kept@),
            r@.len() == k,
            forall|j: int| 0 <= j < k ==> #[trigger] r@[j]@ == forward[m - 1 - j],
    {
        r.push(kept[m - 1 - k].clone_entry());
    }
    assert(entry_views(r@) =~= forward.reverse());
    r
}

impl HistoryEntry {
    /// A copy of the entry.
    pub fn clone_entry(&self) -> (r: HistoryEntry)
        ensures
            r@ == self@,
    {
        HistoryEntry {
            timestamp: self.timestamp.clone(),
            export_dir: self.export_dir.clone(),
            raw_path: self.raw_path.clone(),
            challenge: self.challenge.clone(),
            expected_jpg: self.expected_jpg.clone(),
            outcome: self.outcome.clone(),
        }
    }
}

/// Texts of a list of optional strings.
pub open spec fn opt_texts(lines: Seq<Option<String>>) -> Seq<Option<Seq<char>>> {
    lines.map_values(|l: Option<String>| opt_text(l))
}

/// The text appended to the log for the serialized entries `lines` (`None` for an
/// entry that could not be serialized): each serialized entry followed by a newline.
pub open spec fn framed_lines(lines: Seq<Option<Seq<char>>>) -> Seq<char>
    decreases lines.len(),
{
    if lines.len() == 0 {
        Seq::empty()
    } else {
        framed_lines(lines.drop_last()) + match lines.last() {
            Some(l) => l + seq!['\n'],
            None => Seq::empty(),
        }
    }
}

/// The text to append to the history file for a batch of serialized entries, one
/// per line; `None` when there is nothing to append, and the file is not touched.
pub fn frame_history_lines(lines: Vec<Option<String>>) -> (r: Option<String>)
    ensures
        match r {
            Some(text) => text@ == framed_lines(opt_texts(lines@)) && text@.len() > 0,
            None => framed_lines(opt_texts(lines@)).len() == 0,
        },
{
    let ghost views = opt_texts(lines@);
    let mut text = String::new();
    let mut any = false;
    let n = lines.len();
    for i in 0..n
        invariant
            n == lines@.len(),
            views == opt_texts(lines@),
            text@ == framed_lines(views.take(i as int)),
            any == (text@.len() > 0),
    {
        proof {
            let t = views.take(i + 1);
            assert(t.drop_last() =~= views.take(i as int));
            assert(t.last() == views[i as int]);
        }
        match &lines[i] {
            Some(line) => {
                text.append(line.as_str());
                text.append("\n");
                any = true;
                proof {
                    reveal_strlit("\n");
                }
            },
            None => {
                assert(framed_lines(views.take(i + 1)) =~= framed_lines(views.take(i as int)));
            },
        }
    }
    assert(views.take(n as int) =~= views);
    if any {
        Some(text)
    } else {
        None
    }
}

proof fn lemma_filter_map_add(a: Seq<Option<HistoryEntryView>>, b: Seq<Option<HistoryEntryView>>)
    ensures
        (a + b).filter_map(|e: Option<HistoryEntryView>| e) == a.filter_map(|e: Option<HistoryEntryView>| e)
            + b.filter_map(|e: Option<HistoryEntryView>| e),
    decreases b.len(),
{
    if b.len() == 0 {
        assert(a + b =~= a);
        assert(a.filter_map(|e: Option<HistoryEntryView>| e) + Seq::<HistoryEntryView>::empty()
            =~= a.filter_map(|e: Option<HistoryEntryView>| e));
    } else {
        lemma_filter_map_add(a, b.drop_last());
        assert((a + b).drop_last() =~= a + b.drop_last());
        assert((a + b).last() == b.last());
        let fa = a.filter_map(|e: Option<HistoryEntryView>| e);
        let fb = b.drop_last().filter_map(|e: Option<HistoryEntryView>| e);
        match b.last() {
            Some(x) => {
                assert(fa + fb + seq![x] =~= fa + (fb + seq![x]));
            },
            None => {},
        }
    }
}

/// Entries logged by a later session are read back before those of an earlier
/// one: reading the lines of two batches appended one after the other gives the
/// second batch, newest first, then the first batch, newest first.
pub proof fn lemma_later_batches_read_first(
    first: Seq<Option<HistoryEntryView>>,
    second: Seq<Option<HistoryEntryView>>,
)
    ensures
        newest_first(first + second) == newest_first(second) + newest_first(first),
{
    lemma_filter_map_add(first, second);
    let fa = first.filter_map(|e: Option<HistoryEntryView>| e);
    let fb = second.filter_map(|e: Option<HistoryEntryView>| e);
    assert((fa + fb).reverse() =~= fb.reverse() + fa.reverse());
}

/// Appending two batches one after the other writes the same text as appending
/// them as one batch.
pub proof fn lemma_framing_concatenates(first: Seq<Option<Seq<char>>>, second: Seq<Option<Seq<char>>>)
    ensures
        framed_lines(first + second) == framed_lines(first) + framed_lines(second),
    decreases second.len(),
{
    if second.len() == 0 {
        assert(first + second =~= first);
        assert(framed_lines(first) + framed_lines(second) =~= framed_lines(first));
    } else {
        lemma_framing_concatenates(first, second.drop_last());
        assert((first + second).drop_last() =~= first + second.drop_last());
        assert((first + second).last() == second.last());
        let tail = match second.last() {
            Some(l) => l + seq!['\n'],
            None => Seq::empty(),
        };
        assert(framed_lines(first) + framed_lines(second.drop_last()) + tail
            =~= framed_lines(first) + (framed_lines(second.drop_last()) + tail));
    }
}

} // verus!
