//! What holds of the session in every state it can reach, and of every list
//! it can hold.

use vstd::prelude::*;
use crate::animation::{frames_of, AnimationMode};
use crate::entry::{imported, EntryModel, Status};
use crate::naming::is_pdf_path;
use crate::session::{
    accepts,
    added,
    cleared_after_run,
    clicked,
    entry_after,
    extended,
    has_path,
    hovered,
    imported_into,
    initial,
    pumped,
    received,
    rendezvous,
    started,
    successes,
    summary_text,
    ticked,
    wanted_paths,
    window_height_for,
    SessionModel,
    LIST_MAX_FILES,
};
use crate::worker::{
    lemma_trace_in_order,
    messages_for,
    outcome_of,
    posted,
    trace,
    MessageModel,
    OutcomeModel,
};

verus! {

/// No two entries have the same path.
pub open spec fn distinct_paths(entries: Seq<EntryModel>) -> bool {
    forall|i: int, j: int|
        0 <= i < j < entries.len() ==> (#[trigger] entries[i]).path != (#[trigger] entries[j]).path
}

/// Every entry's path names a PDF.
pub open spec fn all_pdf(entries: Seq<EntryModel>) -> bool {
    forall|i: int| 0 <= i < entries.len() ==> is_pdf_path((#[trigger] entries[i]).path)
}

/// An entry has the path of an unlocked copy exactly when it was unlocked.
pub open spec fn outputs_follow_results(entries: Seq<EntryModel>) -> bool {
    forall|i: int|
        0 <= i < entries.len() ==> ((#[trigger] entries[i]).output_path is Some
            <==> entries[i].unlock_result == Some(true))
}

/// A list as the session holds it: not longer than the list may be, without
/// a path twice, of PDF files only, and with an unlocked copy named exactly
/// for the entries that were unlocked.
pub open spec fn list_ok(entries: Seq<EntryModel>) -> bool {
    &&& entries.len() <= LIST_MAX_FILES
    &&& distinct_paths(entries)
    &&& all_pdf(entries)
    &&& outputs_follow_results(entries)
}

/// A state as the session can reach it.
pub open spec fn wf(s: SessionModel) -> bool {
    &&& list_ok(s.entries)
    &&& s.frame_index < frames_of(s.mode)
    &&& (s.mode == AnimationMode::Success ==> s.unlock_in_progress && s.work_done
        && s.ready_for_success)
    &&& (s.mode == AnimationMode::Peck ==> s.unlock_in_progress && !s.ready_for_success && 1
        <= s.loops_left <= 2)
    &&& (s.unlock_in_progress ==> s.entries.len() > 0)
    &&& (s.unlock_in_progress ==> s.worker_attached || s.work_done)
    &&& (s.worker_attached ==> s.unlock_in_progress && !s.work_done)
    &&& (s.unlock_in_progress && !s.ready_for_success ==> s.mode == AnimationMode::Peck)
    &&& (s.unlock_in_progress && s.ready_for_success && s.work_done ==> s.mode
        == AnimationMode::Success)
    &&& (s.unlock_in_progress && s.ready_for_success && !s.work_done ==> s.mode
        == AnimationMode::Logo)
    &&& (s.unlock_in_progress ==> s.qpdf_ok)
    &&& (s.mode == AnimationMode::Success ==> s.result_text == summary_text(
        successes(s.entries),
        s.entries.len(),
    ) && s.success_reverse == (successes(s.entries) == 0))
}

/// Something that happens to the session.
pub enum Event {
    /// The frame clock is looked at, so many milliseconds after the last frame.
    Tick(nat),
    /// Files are added.
    Add(Seq<(Seq<char>, Option<bool>)>),
    /// Files are dropped or picked.
    Import(Seq<(Seq<char>, Option<bool>)>),
    /// An unlock is asked for.
    Start,
    /// The mascot is clicked.
    Click,
    /// A message of the worker comes in.
    Message(MessageModel, Option<bool>),
    /// The pointer is over the mascot, or not.
    Hover(bool),
    /// The window is fitted to the list.
    Resize,
    /// The prompt for the missing tool is taken.
    Prompt,
}

/// The state after an event.
pub open spec fn step(s: SessionModel, event: Event) -> SessionModel {
    match event {
        Event::Tick(elapsed_ms) => ticked(s, elapsed_ms),
        Event::Add(files) => added(s, files),
        Event::Import(files) => imported_into(s, files),
        Event::Start => started(s),
        Event::Click => clicked(s),
        Event::Message(message, output_encrypted) => received(s, message, output_encrypted),
        Event::Hover(over) => hovered(s, over),
        Event::Resize => SessionModel {
            last_window_height: window_height_for(s.entries.len()),
            ..s
        },
        Event::Prompt => SessionModel { qpdf_prompted: s.qpdf_prompted || !s.qpdf_ok, ..s },
    }
}

/// The state after a run of events.
pub open spec fn after(s: SessionModel, events: Seq<Event>) -> SessionModel
    decreases events.len(),
{
    if events.len() == 0 {
        s
    } else {
        step(after(s, events.drop_last()), events.last())
    }
}

/// Offering files to a good list leaves a good list: no path comes twice,
/// only PDF files are taken, and the list does not grow beyond its bound.
pub proof fn lemma_extended_list_ok(
    entries: Seq<EntryModel>,
    files: Seq<(Seq<char>, Option<bool>)>,
    n: nat,
)
    requires
        list_ok(entries),
    ensures
        list_ok(extended(entries, files, n)),
        extended(entries, files, n).len() >= entries.len(),
    decreases n,
{
    if n > 0 {
        lemma_extended_list_ok(entries, files, (n - 1) as nat);
    }
}

/// Adding files keeps a reachable state reachable.
pub proof fn lemma_added_wf(s: SessionModel, files: Seq<(Seq<char>, Option<bool>)>)
    requires
        wf(s),
    ensures
        wf(added(s, files)),
        !s.unlock_in_progress ==> added(s, files).entries.len() >= cleared_after_run(
            s,
        ).entries.len(),
{
    if !s.unlock_in_progress {
        let base = cleared_after_run(s);
        assert(list_ok(base.entries));
        lemma_extended_list_ok(base.entries, files, files.len());
    }
}

/// The meeting of animation and worker changes nothing until the peck
/// animation has played out and the worker is done; the outcome animation
/// starts by it only then.
pub proof fn lemma_rendezvous_waits_for_both(s: SessionModel)
    ensures
        !(s.ready_for_success && s.work_done) ==> rendezvous(s) == s,
        s.ready_for_success && s.work_done ==> rendezvous(s).mode == AnimationMode::Success,
        rendezvous(s).mode == AnimationMode::Success && s.mode != AnimationMode::Success
            ==> s.ready_for_success && s.work_done,
{
}

/// While an unlock is in progress, the meeting of animation and worker keeps
/// a reachable state reachable.
pub proof fn lemma_rendezvous_wf(s: SessionModel)
    requires
        wf(s),
        s.unlock_in_progress,
    ensures
        wf(rendezvous(s)),
{
}

/// A run of the tool that exits with status zero and leaves the copy at the
/// path it was given makes the file's entry name that path: the outcome
/// names it, the one message posted for the file carries it, and the entry
/// is unlocked with it.
pub proof fn lemma_present_copy_is_named(
    e: EntryModel,
    index: nat,
    path: Seq<char>,
    output_encrypted: Option<bool>,
)
    ensures
        outcome_of(Ok(true), path, true) == OutcomeModel::Finished(Some(path)),
        messages_for(index, outcome_of(Ok(true), path, true)) == seq![
            MessageModel::FileResult { index, success: true, output_path: Some(path) },
        ],
        entry_after(e, true, Some(path), output_encrypted).output_path == Some(path),
        entry_after(e, true, Some(path), output_encrypted).unlock_result == Some(true),
        entry_after(e, true, Some(path), output_encrypted).status == Status::Unlocked,
        entry_after(e, true, Some(path), output_encrypted).path == e.path,
{
}

/// A message of the worker keeps a reachable state reachable.
pub proof fn lemma_received_wf(s: SessionModel, message: MessageModel, output_encrypted: Option<bool>)
    requires
        wf(s),
    ensures
        wf(received(s, message, output_encrypted)),
{
    if s.worker_attached {
        match message {
            MessageModel::FileResult { index, success, output_path } => {
                if index < s.entries.len() {
                    let t = received(s, message, output_encrypted);
                    assert forall|i: int| 0 <= i < t.entries.len() implies (#[trigger] t.entries[i]).path
                        == s.entries[i].path by {}
                    assert(distinct_paths(t.entries));
                    assert(all_pdf(t.entries));
                    assert forall|i: int| 0 <= i < t.entries.len() implies ((#[trigger] t.entries[i]).output_path is Some
                        <==> t.entries[i].unlock_result == Some(true)) by {
                        if i != index {
                            assert(t.entries[i] == s.entries[i]);
                        }
                    }
                }
            },
            MessageModel::Info(text) => {},
            MessageModel::Done => {},
        }
    }
}

/// Every event keeps a reachable state reachable.
pub proof fn lemma_step_wf(s: SessionModel, event: Event)
    requires
        wf(s),
    ensures
        wf(step(s, event)),
{
    match event {
        Event::Tick(elapsed_ms) => {},
        Event::Add(files) => {
            lemma_added_wf(s, files);
        },
        Event::Import(files) => {
            lemma_added_wf(s, files);
        },
        Event::Start => {},
        Event::Click => {},
        Event::Message(message, output_encrypted) => {
            lemma_received_wf(s, message, output_encrypted);
        },
        Event::Hover(over) => {},
        Event::Resize => {},
        Event::Prompt => {},
    }
}

/// A batch of messages keeps a reachable state reachable.
pub proof fn lemma_pumped_wf(s: SessionModel, batch: Seq<(MessageModel, Option<bool>)>, n: nat)
    requires
        wf(s),
    ensures
        wf(pumped(s, batch, n)),
    decreases n,
{
    if n > 0 {
        lemma_pumped_wf(s, batch, (n - 1) as nat);
        lemma_received_wf(pumped(s, batch, (n - 1) as nat), batch[n - 1].0, batch[n - 1].1);
    }
}

/// Whatever happens to a session from its start, its state stays reachable.
pub proof fn lemma_session_wf(
    ok: bool,
    error: Option<Seq<char>>,
    version: Option<Seq<char>>,
    warning: Option<Seq<char>>,
    events: Seq<Event>,
)
    ensures
        wf(after(initial(ok, error, version, warning), events)),
    decreases events.len(),
{
    if events.len() > 0 {
        lemma_session_wf(ok, error, version, warning, events.drop_last());
        lemma_step_wf(after(initial(ok, error, version, warning), events.drop_last()), events.last());
    }
}

/// Whatever happens to a session from its start, its list holds no path
/// twice and only paths that name a PDF, and never more entries than the
/// list may hold.
pub proof fn lemma_list_stays_distinct_pdfs(
    ok: bool,
    error: Option<Seq<char>>,
    version: Option<Seq<char>>,
    warning: Option<Seq<char>>,
    events: Seq<Event>,
)
    ensures
        distinct_paths(after(initial(ok, error, version, warning), events).entries),
        all_pdf(after(initial(ok, error, version, warning), events).entries),
        after(initial(ok, error, version, warning), events).entries.len() <= LIST_MAX_FILES,
{
    lemma_session_wf(ok, error, version, warning, events);
}

/// Whatever happens to a session from its start, an entry that was unlocked
/// names its unlocked copy, and no other entry names one.
pub proof fn lemma_unlocked_entries_name_their_copy(
    ok: bool,
    error: Option<Seq<char>>,
    version: Option<Seq<char>>,
    warning: Option<Seq<char>>,
    events: Seq<Event>,
)
    ensures
        outputs_follow_results(after(initial(ok, error, version, warning), events).entries),
{
    lemma_session_wf(ok, error, version, warning, events);
}

/// Whatever happens to a session from its start, the outcome animation plays
/// only once the peck animation has played out and the worker is done.
pub proof fn lemma_success_needs_both(
    ok: bool,
    error: Option<Seq<char>>,
    version: Option<Seq<char>>,
    warning: Option<Seq<char>>,
    events: Seq<Event>,
)
    ensures
        after(initial(ok, error, version, warning), events).mode == AnimationMode::Success ==> after(
            initial(ok, error, version, warning),
            events,
        ).ready_for_success && after(initial(ok, error, version, warning), events).work_done,
{
    lemma_session_wf(ok, error, version, warning, events);
}

/// Whatever happens to a session from its start, while the outcome animation
/// plays the summary on screen is that of the list, and the animation runs
/// backwards exactly when no file was unlocked.
pub proof fn lemma_outcome_shows_summary(
    ok: bool,
    error: Option<Seq<char>>,
    version: Option<Seq<char>>,
    warning: Option<Seq<char>>,
    events: Seq<Event>,
)
    ensures
        ({
            let s = after(initial(ok, error, version, warning), events);
            s.mode == AnimationMode::Success ==> s.entries.len() > 0 && s.result_text
                == summary_text(successes(s.entries), s.entries.len()) && s.success_reverse == (
            successes(s.entries) == 0)
        }),
{
    lemma_session_wf(ok, error, version, warning, events);
}

/// In a reachable state an event sets the flag of the peck animation only
/// by a tick that ends the animation's last loop, and the flag of the worker
/// only by the worker's last message.
pub proof fn lemma_flags_have_one_source(s: SessionModel, event: Event)
    requires
        wf(s),
    ensures
        !s.ready_for_success && step(s, event).ready_for_success ==> event is Tick && s.mode
            == AnimationMode::Peck && s.loops_left <= 1 && s.frame_index == 1,
        !s.work_done && step(s, event).work_done ==> (event matches Event::Message(m, _) && m is Done),
{
}

/// The worker's messages, each with what the probe said of the copy it names.
pub open spec fn with_probes(
    messages: Seq<MessageModel>,
    probes: Seq<Option<bool>>,
) -> Seq<(MessageModel, Option<bool>)> {
    Seq::new(messages.len(), |i: int| (messages[i], probes[i]))
}

/// Messages other than `Done` leave the wait for the worker, the flags and
/// the animation as they are, and the list as long as it is.
pub proof fn lemma_pumped_before_done(s: SessionModel, batch: Seq<(MessageModel, Option<bool>)>, n: nat)
    requires
        s.worker_attached,
        n <= batch.len(),
        forall|i: int| 0 <= i < n ==> !((#[trigger] batch[i]).0 is Done),
    ensures
        pumped(s, batch, n).worker_attached,
        pumped(s, batch, n).work_done == s.work_done,
        pumped(s, batch, n).ready_for_success == s.ready_for_success,
        pumped(s, batch, n).unlock_in_progress == s.unlock_in_progress,
        pumped(s, batch, n).had_unlock == s.had_unlock,
        pumped(s, batch, n).mode == s.mode,
        pumped(s, batch, n).frame_index == s.frame_index,
        pumped(s, batch, n).loops_left == s.loops_left,
        pumped(s, batch, n).entries.len() == s.entries.len(),
    decreases n,
{
    if n > 0 {
        lemma_pumped_before_done(s, batch, (n - 1) as nat);
        assert(!(batch[n - 1].0 is Done));
    }
}

/// Once everything the worker posts for a run has been applied to a session
/// that waits for it, the wait is over: the worker is done and detached and
/// the list is as long as before. The outcome animation plays if the peck
/// animation had played out before; otherwise the animation goes on as it was.
pub proof fn lemma_trace_ends_wait(
    s: SessionModel,
    outcomes: Seq<OutcomeModel>,
    probes: Seq<Option<bool>>,
)
    requires
        wf(s),
        s.worker_attached,
    ensures
        ({
            let batch = with_probes(trace(outcomes), probes);
            let t = pumped(s, batch, batch.len());
            &&& wf(t)
            &&& t.work_done
            &&& !t.worker_attached
            &&& t.had_unlock
            &&& t.unlock_in_progress
            &&& t.entries.len() == s.entries.len()
            &&& t.ready_for_success == s.ready_for_success
            &&& (s.ready_for_success ==> t.mode == AnimationMode::Success)
            &&& (!s.ready_for_success ==> t.mode == s.mode && t.frame_index == s.frame_index
                && t.loops_left == s.loops_left)
        }),
{
    let batch = with_probes(trace(outcomes), probes);
    let n = (batch.len() - 1) as nat;
    lemma_trace_in_order(outcomes);
    assert forall|i: int| 0 <= i < n implies !((#[trigger] batch[i]).0 is Done) by {
        assert(batch[i].0 == trace(outcomes)[i]);
    }
    lemma_pumped_before_done(s, batch, n);
    lemma_pumped_wf(s, batch, batch.len());
    assert(batch[n as int].0 == trace(outcomes).last());
}

/// What the session holds for a file once the worker's result for it was
/// applied: whether it was unlocked, the copy's path, and the label.
pub open spec fn settled(e: EntryModel, before: EntryModel, outcome: OutcomeModel) -> bool {
    let unlocked = outcome matches OutcomeModel::Finished(Some(_));
    &&& e.path == before.path
    &&& e.unlock_result == Some(unlocked)
    &&& e.output_path == (if unlocked {
        outcome->Finished_0
    } else {
        None
    })
    &&& e.status == (if unlocked {
        Status::Unlocked
    } else {
        Status::UnlockFailed
    })
}

/// The messages posted for fewer files are the start of those posted for more.
pub proof fn lemma_posted_grows(outcomes: Seq<OutcomeModel>, n: nat, m: nat)
    requires
        n <= m,
    ensures
        posted(outcomes, n).len() <= posted(outcomes, m).len(),
        forall|k: int|
            0 <= k < posted(outcomes, n).len() ==> posted(outcomes, m)[k] == posted(outcomes, n)[k],
    decreases m,
{
    if n < m {
        lemma_posted_grows(outcomes, n, (m - 1) as nat);
    }
}

/// Once the messages posted for the first `n` files have been applied to a
/// session that waits for the worker, each of these files holds its result
/// and the others are as they were.
pub proof fn lemma_posted_settles(
    s: SessionModel,
    outcomes: Seq<OutcomeModel>,
    batch: Seq<(MessageModel, Option<bool>)>,
    n: nat,
)
    requires
        s.worker_attached,
        n <= outcomes.len(),
        outcomes.len() == s.entries.len(),
        batch.len() >= posted(outcomes, outcomes.len()).len(),
        forall|k: int|
            0 <= k < posted(outcomes, outcomes.len()).len() ==> (#[trigger] batch[k]).0 == posted(
                outcomes,
                outcomes.len(),
            )[k],
    ensures
        ({
            let t = pumped(s, batch, posted(outcomes, n).len());
            &&& t.worker_attached
            &&& t.entries.len() == s.entries.len()
            &&& forall|i: int| 0 <= i < n ==> settled(#[trigger] t.entries[i], s.entries[i], outcomes[i])
            &&& forall|i: int| n <= i < s.entries.len() ==> #[trigger] t.entries[i] == s.entries[i]
        }),
    decreases n,
{
    if n > 0 {
        let m = (n - 1) as nat;
        lemma_posted_settles(s, outcomes, batch, m);
        lemma_posted_grows(outcomes, n, outcomes.len());
        let start = posted(outcomes, m).len() as int;
        let own = messages_for(m, outcomes[m as int]);
        assert(posted(outcomes, n) == posted(outcomes, m) + own);
        let before = pumped(s, batch, start as nat);
        let first = pumped(s, batch, (start + 1) as nat);
        assert(batch[start].0 == own[0]);
        assert(first == received(before, batch[start].0, batch[start].1));
        if own.len() == 2 {
            assert(batch[start + 1].0 == own[1]);
            assert(pumped(s, batch, (start + 2) as nat) == received(
                first,
                batch[start + 1].0,
                batch[start + 1].1,
            ));
        }
    }
}

/// Once everything the worker posts for a run over the session's files has
/// been applied, every file holds the result of its own attempt.
pub proof fn lemma_trace_settles_every_file(
    s: SessionModel,
    outcomes: Seq<OutcomeModel>,
    probes: Seq<Option<bool>>,
)
    requires
        wf(s),
        s.worker_attached,
        outcomes.len() == s.entries.len(),
    ensures
        ({
            let batch = with_probes(trace(outcomes), probes);
            let t = pumped(s, batch, batch.len());
            &&& t.entries.len() == s.entries.len()
            &&& forall|i: int|
                0 <= i < s.entries.len() ==> settled(#[trigger] t.entries[i], s.entries[i], outcomes[i])
        }),
{
    let batch = with_probes(trace(outcomes), probes);
    let body = posted(outcomes, outcomes.len());
    assert forall|k: int| 0 <= k < body.len() implies (#[trigger] batch[k]).0 == body[k] by {
        assert(batch[k].0 == trace(outcomes)[k]);
    }
    lemma_posted_settles(s, outcomes, batch, outcomes.len());
    let before = pumped(s, batch, body.len());
    assert(batch[body.len() as int].0 == MessageModel::Done);
    assert(pumped(s, batch, batch.len()) == received(
        before,
        batch[body.len() as int].0,
        batch[body.len() as int].1,
    ));
}

/// What files have added to a list: the list is still its start, and each
/// entry behind it names a PDF that no entry before it names, at a place
/// within the list's bound.
pub proof fn lemma_extended_by_accepted(
    entries: Seq<EntryModel>,
    files: Seq<(Seq<char>, Option<bool>)>,
    n: nat,
)
    ensures
        extended(entries, files, n).len() >= entries.len(),
        forall|j: int| 0 <= j < entries.len() ==> extended(entries, files, n)[j] == entries[j],
        forall|j: int|
            entries.len() <= j < extended(entries, files, n).len() ==> {
                &&& j < LIST_MAX_FILES
                &&& is_pdf_path((#[trigger] extended(entries, files, n)[j]).path)
                &&& !has_path(
                    extended(entries, files, n).subrange(0, j),
                    extended(entries, files, n)[j].path,
                )
            },
    decreases n,
{
    if n > 0 {
        let before = extended(entries, files, (n - 1) as nat);
        let list = extended(entries, files, n);
        lemma_extended_by_accepted(entries, files, (n - 1) as nat);
        if accepts(before, files[n - 1].0) {
            assert forall|j: int| entries.len() <= j < list.len() implies {
                &&& j < LIST_MAX_FILES
                &&& is_pdf_path((#[trigger] list[j]).path)
                &&& !has_path(list.subrange(0, j), list[j].path)
            } by {
                if j < before.len() {
                    assert(list[j] == before[j]);
                    assert(list.subrange(0, j) =~= before.subrange(0, j));
                } else {
                    assert(list.subrange(0, j) =~= before);
                }
            }
        }
    }
}

/// Files that carry, in their order, the paths that some files have added
/// to a list are all taken when they are added to that list in their stead,
/// whatever the probe says of them.
pub proof fn lemma_accepted_paths_are_taken(
    entries: Seq<EntryModel>,
    offered: Seq<(Seq<char>, Option<bool>)>,
    files: Seq<(Seq<char>, Option<bool>)>,
    k: nat,
)
    requires
        files.len() == extended(entries, offered, offered.len()).len() - entries.len(),
        forall|i: int|
            0 <= i < files.len() ==> (#[trigger] files[i]).0 == extended(
                entries,
                offered,
                offered.len(),
            )[entries.len() + i].path,
        k <= files.len(),
    ensures
        extended(entries, files, k) == entries + Seq::new(
            k,
            |i: int| imported(files[i].0, files[i].1),
        ),
    decreases k,
{
    let list = extended(entries, offered, offered.len());
    let made = entries + Seq::new(k, |i: int| imported(files[i].0, files[i].1));
    lemma_extended_by_accepted(entries, offered, offered.len());
    if k > 0 {
        lemma_accepted_paths_are_taken(entries, offered, files, (k - 1) as nat);
        let before = extended(entries, files, (k - 1) as nat);
        let at = entries.len() + k - 1;
        let path = files[k - 1].0;
        assert(path == list[at].path);
        assert(before.len() == at);
        assert forall|i: int| 0 <= i < before.len() implies (#[trigger] before[i]).path
            != path by {
            let head = list.subrange(0, at);
            if i < entries.len() {
                assert(before[i] == entries[i]);
            } else {
                assert(before[i].path == files[i - entries.len()].0);
            }
            assert(head[i].path == before[i].path);
        }
        assert(accepts(before, path));
        assert(extended(entries, files, k) =~= made);
    } else {
        assert(extended(entries, files, 0) =~= made);
    }
}

/// Adding files that carry, in their order, the paths the session wants
/// from a batch takes every one of them: the list is what it was, or empty
/// after a run that has ended, and behind that one new entry for each file.
pub proof fn lemma_wanted_files_are_taken(
    s: SessionModel,
    offered: Seq<(Seq<char>, Option<bool>)>,
    files: Seq<(Seq<char>, Option<bool>)>,
)
    requires
        !s.unlock_in_progress,
        files.len() == wanted_paths(s, offered).len(),
        forall|i: int| 0 <= i < files.len() ==> (#[trigger] files[i]).0 == wanted_paths(s, offered)[i],
    ensures
        added(s, files).entries == cleared_after_run(s).entries + Seq::new(
            files.len(),
            |i: int| imported(files[i].0, files[i].1),
        ),
        added(s, files).entries.len() == added(s, offered).entries.len(),
{
    let base = cleared_after_run(s).entries;
    let list = extended(base, offered, offered.len());
    lemma_extended_by_accepted(base, offered, offered.len());
    assert forall|i: int| 0 <= i < files.len() implies (#[trigger] files[i]).0 == list[base.len()
        + i].path by {
        assert(wanted_paths(s, offered)[i] == list.subrange(base.len() as int, list.len() as int)[i].path);
    }
    lemma_accepted_paths_are_taken(base, offered, files, files.len());
}

/// After a run that has ended, added files replace the list: what was in it
/// is gone, and the new list is what the files make of an empty one.
pub proof fn lemma_add_after_run_replaces_list(s: SessionModel, files: Seq<(Seq<char>, Option<bool>)>)
    requires
        s.had_unlock,
        !s.unlock_in_progress,
    ensures
        added(s, files).entries == extended(Seq::empty(), files, files.len()),
        !added(s, files).had_unlock,
{
}

/// While an unlock is in progress, files that are added or dropped change
/// nothing.
pub proof fn lemma_add_blocked_during_unlock(s: SessionModel, files: Seq<(Seq<char>, Option<bool>)>)
    requires
        s.unlock_in_progress,
    ensures
        added(s, files) == s,
        imported_into(s, files) == s,
{
}

} // verus!
