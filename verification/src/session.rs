//! The session: the file list, the animation, and the meeting of the peck
//! animation with the worker's end before the outcome is shown.
//!
//! While an unlock is in progress, files that are added are ignored: the list
//! the worker runs over and the list on screen stay the same.

use vstd::prelude::*;
use vstd::string::*;
use vstd::arithmetic::div_mod::{lemma_add_mod_noop, lemma_small_mod};
use crate::animation::{
    frame_asset,
    frame_count,
    frames_of,
    picture_of,
    shown_frame,
    AnimationMode,
    AnimationState,
    FRAME_INTERVAL_MS,
    PECK_LOOPS,
};
use crate::entry::{clone_text, imported, EntryModel, FileEntry, Icon, Status};
use crate::naming::{file_name_of, is_pdf, is_pdf_path, path_file_name};
use crate::probe::QpdfStatus;
use crate::platform::texts;
use crate::reachable::{lemma_pumped_wf, lemma_rendezvous_wf, lemma_step_wf, wf, Event};
use crate::text::{decimal, push_decimal, text_of};
use crate::worker::{MessageModel, UnlockMessage};

verus! {

/// The most files the list holds.
pub const LIST_MAX_FILES: usize = 8;

/// The width of the window, in points.
pub const WINDOW_WIDTH: u32 = 390;

/// The height of the window with up to two files.
pub const WINDOW_HEIGHT_BASE: u32 = 390;

/// The height added for each file beyond the second.
pub const WINDOW_HEIGHT_STEP: u32 = 70;

/// The height of the window with more files than the list holds.
pub const WINDOW_HEIGHT_MAX: u32 = 975;

/// A path that was dropped or picked, with what the encryption probe said of it.
#[derive(Clone, Debug, PartialEq, Eq)]
pub struct ProbedFile {
    /// The path of the file.
    pub path: String,
    /// Whether the file is encrypted, where the probe could tell.
    pub encrypted: Option<bool>,
}

/// A message of the worker, with what the encryption probe said of the
/// unlocked copy it names, where it names one.
#[derive(Clone, Debug, PartialEq, Eq)]
pub struct Received {
    /// The message.
    pub message: UnlockMessage,
    /// Whether the unlocked copy is still encrypted, where the probe could tell.
    pub output_encrypted: Option<bool>,
}

/// What the frame clock does after a call of [`Session::tick_animation`].
#[derive(Clone, Copy, Debug, PartialEq, Eq)]
pub struct Tick {
    /// A frame's time was over: the frame clock starts anew.
    pub advanced: bool,
    /// The window is to be drawn again.
    pub repaint: bool,
}

/// What the program does after a click on the mascot.
#[derive(Clone, Debug, PartialEq, Eq)]
pub enum ClickAction {
    /// The list is empty: let the user pick files.
    PickFiles,
    /// An unlock has started: run the worker over these files.
    StartWorker(Vec<FileEntry>),
    /// Nothing.
    Nothing,
}

/// The state of the program.
#[derive(Clone, Debug, PartialEq, Eq)]
pub struct Session {
    /// The imported files, in the order in which they came.
    pub file_entries: Vec<FileEntry>,
    /// Where the mascot's animation stands.
    pub animation: AnimationState,
    /// An unlock was started and its outcome animation has not ended.
    pub unlock_in_progress: bool,
    /// The peck animation has played as often as it must.
    pub unlock_ready_for_success: bool,
    /// The worker has said that it is done.
    pub unlock_work_done: bool,
    /// The summary shown at the bottom.
    pub result_text: String,
    /// A worker runs and its messages are awaited.
    pub worker_attached: bool,
    /// The height the window was last given.
    pub last_window_height: u32,
    /// The outcome animation plays backwards.
    pub success_reverse: bool,
    /// The tool was found usable at start-up.
    pub qpdf_ok: bool,
    /// Why the tool is not usable.
    pub qpdf_error: Option<String>,
    /// The version the tool reported.
    pub qpdf_version: Option<String>,
    /// A note on the tool shown beside normal operation.
    pub qpdf_warning: Option<String>,
    /// A run has ended: the next files replace the list.
    pub had_unlock: bool,
    /// The user was told once that the tool is missing.
    pub qpdf_prompted: bool,
}

/// A [`Session`] as plain values.
pub struct SessionModel {
    pub entries: Seq<EntryModel>,
    pub mode: AnimationMode,
    pub frame_index: nat,
    pub loops_left: nat,
    pub unlock_in_progress: bool,
    pub ready_for_success: bool,
    pub work_done: bool,
    pub result_text: Seq<char>,
    pub worker_attached: bool,
    pub last_window_height: nat,
    pub success_reverse: bool,
    pub qpdf_ok: bool,
    pub qpdf_error: Option<Seq<char>>,
    pub qpdf_version: Option<Seq<char>>,
    pub qpdf_warning: Option<Seq<char>>,
    pub had_unlock: bool,
    pub qpdf_prompted: bool,
}

/// The views of some entries.
pub open spec fn entry_models(entries: Seq<FileEntry>) -> Seq<EntryModel> {
    Seq::new(entries.len(), |i: int| entries[i]@)
}

/// The views of some probed files.
pub open spec fn probed_models(files: Seq<ProbedFile>) -> Seq<(Seq<char>, Option<bool>)> {
    Seq::new(files.len(), |i: int| (files[i].path@, files[i].encrypted))
}

/// The views of some received messages.
pub open spec fn received_models(batch: Seq<Received>) -> Seq<(MessageModel, Option<bool>)> {
    Seq::new(batch.len(), |i: int| (batch[i].message@, batch[i].output_encrypted))
}

impl View for Session {
    type V = SessionModel;

    open spec fn view(&self) -> SessionModel {
        SessionModel {
            entries: entry_models(self.file_entries@),
            mode: self.animation.mode,
            frame_index: self.animation.frame_index as nat,
            loops_left: self.animation.loops_left as nat,
            unlock_in_progress: self.unlock_in_progress,
            ready_for_success: self.unlock_ready_for_success,
            work_done: self.unlock_work_done,
            result_text: self.result_text@,
            worker_attached: self.worker_attached,
            last_window_height: self.last_window_height as nat,
            success_reverse: self.success_reverse,
            qpdf_ok: self.qpdf_ok,
            qpdf_error: text_of(self.qpdf_error),
            qpdf_version: text_of(self.qpdf_version),
            qpdf_warning: text_of(self.qpdf_warning),
            had_unlock: self.had_unlock,
            qpdf_prompted: self.qpdf_prompted,
        }
    }
}

/// The text shown while the worker runs.
pub open spec fn processing_text() -> Seq<char> {
    "处理中..."@
}

/// The state at start-up, given what the probe of the tool found.
pub open spec fn initial(
    ok: bool,
    error: Option<Seq<char>>,
    version: Option<Seq<char>>,
    warning: Option<Seq<char>>,
) -> SessionModel {
    SessionModel {
        entries: Seq::empty(),
        mode: AnimationMode::Logo,
        frame_index: 0,
        loops_left: 0,
        unlock_in_progress: false,
        ready_for_success: false,
        work_done: false,
        result_text: Seq::empty(),
        worker_attached: false,
        last_window_height: WINDOW_HEIGHT_BASE as nat,
        success_reverse: false,
        qpdf_ok: ok,
        qpdf_error: error,
        qpdf_version: version,
        qpdf_warning: warning,
        had_unlock: false,
        qpdf_prompted: false,
    }
}

/// The state after a change to another animation, which starts at its first
/// frame; a change to the animation that plays already changes nothing.
pub open spec fn with_mode(s: SessionModel, mode: AnimationMode) -> SessionModel {
    if s.mode != mode {
        SessionModel { mode, frame_index: 0, loops_left: 0, ..s }
    } else {
        s
    }
}

/// How many entries were unlocked.
pub open spec fn successes(entries: Seq<EntryModel>) -> nat
    decreases entries.len(),
{
    if entries.len() == 0 {
        0
    } else {
        successes(entries.drop_last()) + if entries.last().unlock_result == Some(true) {
            1nat
        } else {
            0nat
        }
    }
}

/// The summary of a run in which `unlocked` of `total` files were unlocked.
pub open spec fn summary_text(unlocked: nat, total: nat) -> Seq<char> {
    if unlocked == total && total > 0 {
        "解锁成功"@
    } else if unlocked > 0 {
        "部分成功: "@ + decimal(unlocked) + "/"@ + decimal(total)
    } else {
        "解锁失败"@
    }
}

/// The state after the meeting of animation and worker was tried: once the
/// peck animation has played out and the worker is done, the summary is
/// written and the outcome animation starts, backwards where no file of a
/// list that is not empty was unlocked.
pub open spec fn rendezvous(s: SessionModel) -> SessionModel {
    if s.ready_for_success && s.work_done {
        SessionModel {
            result_text: summary_text(successes(s.entries), s.entries.len()),
            success_reverse: s.entries.len() > 0 && successes(s.entries) == 0,
            mode: AnimationMode::Success,
            frame_index: 0,
            loops_left: 1,
            ..s
        }
    } else {
        s
    }
}

/// How many loops are left once the animation has played through again.
pub open spec fn loops_after_wrap(s: SessionModel) -> nat {
    if s.loops_left > 0 {
        (s.loops_left - 1) as nat
    } else {
        0
    }
}

/// The state after the peck animation has played through once more: after
/// its last loop the animation has played out, the logo stands, and the
/// meeting with the worker is tried.
pub open spec fn peck_wrapped(s: SessionModel) -> SessionModel {
    if loops_after_wrap(s) == 0 {
        rendezvous(
            with_mode(
                SessionModel { loops_left: 0, ready_for_success: true, ..s },
                AnimationMode::Logo,
            ),
        )
    } else {
        SessionModel { loops_left: loops_after_wrap(s), ..s }
    }
}

/// The state after the outcome animation has played through: after its last
/// loop the unlock is over, and the happy loop plays if the list holds a
/// file, else the logo stands.
pub open spec fn success_wrapped(s: SessionModel) -> SessionModel {
    if loops_after_wrap(s) == 0 {
        with_mode(
            SessionModel { loops_left: 0, unlock_in_progress: false, ..s },
            if s.entries.len() > 0 {
                AnimationMode::HappyLoop
            } else {
                AnimationMode::Logo
            },
        )
    } else {
        SessionModel { loops_left: loops_after_wrap(s), ..s }
    }
}

/// The state after the frame clock was looked at, `elapsed_ms` after the
/// last frame.
pub open spec fn ticked(s: SessionModel, elapsed_ms: nat) -> SessionModel {
    if s.mode == AnimationMode::Logo || elapsed_ms < FRAME_INTERVAL_MS {
        s
    } else {
        let t = SessionModel {
            frame_index: ((s.frame_index + 1) as nat) % frames_of(s.mode),
            ..s
        };
        if t.frame_index != 0 {
            t
        } else {
            match s.mode {
                AnimationMode::Peck => peck_wrapped(t),
                AnimationMode::Success => success_wrapped(t),
                _ => t,
            }
        }
    }
}

/// The height of the window for a list of `count` files.
pub open spec fn window_height_for(count: nat) -> nat {
    if count <= 2 {
        WINDOW_HEIGHT_BASE as nat
    } else if count <= LIST_MAX_FILES {
        (WINDOW_HEIGHT_BASE + (count - 2) * WINDOW_HEIGHT_STEP) as nat
    } else {
        WINDOW_HEIGHT_MAX as nat
    }
}

/// Some entry has the path `path`.
pub open spec fn has_path(entries: Seq<EntryModel>, path: Seq<char>) -> bool {
    exists|i: int| 0 <= i < entries.len() && (#[trigger] entries[i]).path == path
}

/// A path is taken into the list: it names a PDF, is not in the list yet,
/// and the list is not full.
pub open spec fn accepts(entries: Seq<EntryModel>, path: Seq<char>) -> bool {
    &&& is_pdf_path(path)
    &&& !has_path(entries, path)
    &&& entries.len() < LIST_MAX_FILES
}

/// The list after the first `n` of `files` were offered to it in turn.
pub open spec fn extended(
    entries: Seq<EntryModel>,
    files: Seq<(Seq<char>, Option<bool>)>,
    n: nat,
) -> Seq<EntryModel>
    decreases n,
{
    if n == 0 {
        entries
    } else {
        let list = extended(entries, files, (n - 1) as nat);
        let file = files[n - 1];
        if accepts(list, file.0) {
            list.push(imported(file.0, file.1))
        } else {
            list
        }
    }
}

/// The state in which a list is started anew after a run that has ended.
pub open spec fn cleared_after_run(s: SessionModel) -> SessionModel {
    if s.had_unlock {
        SessionModel { entries: Seq::empty(), result_text: Seq::empty(), had_unlock: false, ..s }
    } else {
        s
    }
}

/// The state after files were added. While an unlock is in progress nothing
/// is added. After a run that has ended the new files replace the list.
pub open spec fn added(s: SessionModel, files: Seq<(Seq<char>, Option<bool>)>) -> SessionModel {
    if s.unlock_in_progress {
        s
    } else {
        let base = cleared_after_run(s);
        let entries = extended(base.entries, files, files.len());
        SessionModel {
            entries,
            result_text: if entries.len() > base.entries.len() {
                Seq::empty()
            } else {
                base.result_text
            },
            ..base
        }
    }
}

/// The state after files were dropped or picked: they are added, the happy
/// loop plays if the list holds a file, and the window fits the list.
pub open spec fn imported_into(s: SessionModel, files: Seq<(Seq<char>, Option<bool>)>) -> SessionModel {
    if s.unlock_in_progress {
        s
    } else {
        let t = added(s, files);
        let u = if t.entries.len() > 0 {
            with_mode(t, AnimationMode::HappyLoop)
        } else {
            t
        };
        SessionModel { last_window_height: window_height_for(u.entries.len()), ..u }
    }
}

/// An unlock can start: none is in progress, the list holds a file, and the
/// tool is usable.
pub open spec fn can_start(s: SessionModel) -> bool {
    !s.unlock_in_progress && s.entries.len() > 0 && s.qpdf_ok
}

/// The state after an unlock was asked for.
pub open spec fn started(s: SessionModel) -> SessionModel {
    if can_start(s) {
        SessionModel {
            unlock_in_progress: true,
            ready_for_success: false,
            work_done: false,
            result_text: processing_text(),
            mode: AnimationMode::Peck,
            frame_index: 0,
            loops_left: PECK_LOOPS as nat,
            worker_attached: true,
            ..s
        }
    } else {
        s
    }
}

/// The state after a click on the mascot.
pub open spec fn clicked(s: SessionModel) -> SessionModel {
    if s.entries.len() == 0 {
        s
    } else if !s.qpdf_ok {
        match s.qpdf_error {
            Some(msg) => SessionModel { result_text: msg, ..s },
            None => s,
        }
    } else {
        started(s)
    }
}

/// An entry after the worker's result for it. A success without a path
/// counts as a failure. After a success the icon follows the probe of the
/// copy: locked only where the copy is still encrypted.
pub open spec fn entry_after(
    e: EntryModel,
    success: bool,
    output_path: Option<Seq<char>>,
    output_encrypted: Option<bool>,
) -> EntryModel {
    if success && output_path is Some {
        EntryModel {
            unlock_result: Some(true),
            output_path,
            status: Status::Unlocked,
            icon: if output_encrypted == Some(true) {
                Icon::Locked
            } else {
                Icon::Unlocked
            },
            ..e
        }
    } else {
        EntryModel { unlock_result: Some(false), output_path: None, status: Status::UnlockFailed, ..e }
    }
}

/// The state after one message of the worker. Without a worker a message
/// changes nothing.
pub open spec fn received(s: SessionModel, message: MessageModel, output_encrypted: Option<bool>) -> SessionModel {
    if !s.worker_attached {
        s
    } else {
        match message {
            MessageModel::FileResult { index, success, output_path } => if index < s.entries.len() {
                SessionModel {
                    entries: s.entries.update(
                        index as int,
                        entry_after(s.entries[index as int], success, output_path, output_encrypted),
                    ),
                    ..s
                }
            } else {
                s
            },
            MessageModel::Info(text) => if s.result_text.len() == 0 || s.result_text
                == processing_text() {
                SessionModel { result_text: text, ..s }
            } else {
                s
            },
            MessageModel::Done => rendezvous(
                SessionModel { work_done: true, had_unlock: true, worker_attached: false, ..s },
            ),
        }
    }
}

/// The state after the first `n` messages of a batch.
pub open spec fn pumped(s: SessionModel, batch: Seq<(MessageModel, Option<bool>)>, n: nat) -> SessionModel
    decreases n,
{
    if n == 0 {
        s
    } else {
        received(pumped(s, batch, (n - 1) as nat), batch[n - 1].0, batch[n - 1].1)
    }
}

/// The state after the pointer was seen over the mascot, or away from it:
/// with files in the list and no unlock in progress the logo stands still
/// under the pointer, and the happy loop plays otherwise.
pub open spec fn hovered(s: SessionModel, over: bool) -> SessionModel {
    if !s.unlock_in_progress && s.entries.len() > 0 {
        with_mode(
            s,
            if over {
                AnimationMode::Logo
            } else {
                AnimationMode::HappyLoop
            },
        )
    } else {
        s
    }
}

/// Paths as files of which the probe has said nothing.
pub open spec fn unprobed(paths: Seq<String>) -> Seq<(Seq<char>, Option<bool>)> {
    Seq::new(paths.len(), |i: int| (paths[i]@, None::<bool>))
}

/// The paths of some entries.
pub open spec fn entry_paths(entries: Seq<EntryModel>) -> Seq<Seq<char>> {
    Seq::new(entries.len(), |i: int| entries[i].path)
}

/// The paths that adding the files would take into the list, in their
/// order: none while an unlock is in progress.
pub open spec fn wanted_paths(s: SessionModel, files: Seq<(Seq<char>, Option<bool>)>) -> Seq<
    Seq<char>,
> {
    if s.unlock_in_progress {
        Seq::empty()
    } else {
        let base = cleared_after_run(s).entries;
        let list = extended(base, files, files.len());
        entry_paths(list.subrange(base.len() as int, list.len() as int))
    }
}

/// The line shown below the mascot.
pub open spec fn hint_text(s: SessionModel) -> Seq<char> {
    if s.entries.len() == 0 {
        "点击或者拖入文件"@
    } else if s.entries.len() == 1 {
        s.entries[0].icon.glyph_text() + " "@ + match path_file_name(s.entries[0].path) {
            Some(name) => name,
            None => Seq::empty(),
        }
    } else {
        "已导入 "@ + decimal(s.entries.len()) + " 个文件"@
    }
}

/// The height of the window for a list of `count` files.
pub fn window_height(count: usize) -> (height: u32)
    ensures
        height == window_height_for(count as nat),
{
    if count <= 2 {
        WINDOW_HEIGHT_BASE
    } else if count <= LIST_MAX_FILES {
        let extra: u32 = if count == 3 {
            1
        } else if count == 4 {
            2
        } else if count == 5 {
            3
        } else if count == 6 {
            4
        } else if count == 7 {
            5
        } else {
            6
        };
        WINDOW_HEIGHT_BASE + extra * WINDOW_HEIGHT_STEP
    } else {
        WINDOW_HEIGHT_MAX
    }
}

/// The frame after `shown` in an animation of `count` frames, which starts
/// anew after its last frame.
pub fn next_frame(shown: usize, count: usize) -> (next: usize)
    requires
        count > 0,
    ensures
        next == ((shown + 1) as nat) % (count as nat),
{
    proof {
        lemma_add_mod_noop(shown as int, 1, count as int);
        lemma_small_mod(0, count as nat);
        if count > 1 {
            lemma_small_mod(1, count as nat);
        }
    }
    (shown % count + 1) % count
}

/// Whether some entry has the path `path`.
pub fn has_entry(entries: &Vec<FileEntry>, path: &String) -> (found: bool)
    ensures
        found == has_path(entry_models(entries@), path@),
{
    let mut i: usize = 0;
    while i < entries.len()
        invariant
            i <= entries.len(),
            forall|k: int| 0 <= k < i ==> (#[trigger] entry_models(entries@)[k]).path != path@,
        decreases entries.len() - i,
    {
        if entries[i].path == *path {
            proof {
                assert(entry_models(entries@)[i as int].path == path@);
            }
            return true;
        }
        i += 1;
    }
    false
}

/// A copy of some entries.
pub fn copy_entries(entries: &Vec<FileEntry>) -> (copy: Vec<FileEntry>)
    ensures
        entry_models(copy@) == entry_models(entries@),
{
    let mut copy: Vec<FileEntry> = Vec::new();
    let mut i: usize = 0;
    while i < entries.len()
        invariant
            i <= entries.len(),
            copy@.len() == i,
            forall|k: int| 0 <= k < i ==> (#[trigger] copy@[k])@ == entries@[k]@,
        decreases entries.len() - i,
    {
        copy.push(entries[i].duplicate());
        i += 1;
    }
    proof {
        assert(entry_models(copy@) =~= entry_models(entries@));
    }
    copy
}

/// How many entries were unlocked.
pub fn count_successes(entries: &Vec<FileEntry>) -> (count: usize)
    ensures
        count == successes(entry_models(entries@)),
        count <= entries.len(),
{
    let ghost models = entry_models(entries@);
    let mut count: usize = 0;
    let mut i: usize = 0;
    proof {
        assert(models.subrange(0, 0) =~= Seq::<EntryModel>::empty());
    }
    while i < entries.len()
        invariant
            i <= entries.len(),
            count <= i,
            models == entry_models(entries@),
            count == successes(models.subrange(0, i as int)),
        decreases entries.len() - i,
    {
        proof {
            let next = models.subrange(0, i + 1);
            assert(next.drop_last() =~= models.subrange(0, i as int));
            assert(next.last() == entries@[i as int]@);
        }
        match entries[i].unlock_result {
            Some(true) => {
                count += 1;
            },
            _ => {},
        }
        i += 1;
    }
    proof {
        assert(models.subrange(0, i as int) =~= models);
    }
    count
}

/// The summary of a run in which `unlocked` of `total` files were unlocked.
pub fn summary(unlocked: usize, total: usize) -> (text: String)
    ensures
        text@ == summary_text(unlocked as nat, total as nat),
{
    if unlocked == total && total > 0 {
        String::from_str("解锁成功")
    } else if unlocked > 0 {
        let mut text = String::from_str("部分成功: ");
        push_decimal(&mut text, unlocked);
        text.append("/");
        push_decimal(&mut text, total);
        text
    } else {
        String::from_str("解锁失败")
    }
}

impl Session {
    /// The session at start-up, given what the probe of the tool found.
    pub fn new(tool: QpdfStatus) -> (session: Session)
        ensures
            session@ == initial(
                tool.ok,
                text_of(tool.error),
                text_of(tool.version),
                text_of(tool.warning),
            ),
            wf(session@),
    {
        let session = Session {
            file_entries: Vec::new(),
            animation: AnimationState { mode: AnimationMode::Logo, frame_index: 0, loops_left: 0 },
            unlock_in_progress: false,
            unlock_ready_for_success: false,
            unlock_work_done: false,
            result_text: String::new(),
            worker_attached: false,
            last_window_height: WINDOW_HEIGHT_BASE,
            success_reverse: false,
            qpdf_ok: tool.ok,
            qpdf_error: tool.error,
            qpdf_version: tool.version,
            qpdf_warning: tool.warning,
            had_unlock: false,
            qpdf_prompted: false,
        };
        proof {
            assert(session@.entries =~= Seq::<EntryModel>::empty());
        }
        session
    }

    /// The name of the picture to draw, without directory and extension.
    pub fn current_texture(&self) -> (name: &'static str)
        ensures
            name@ == picture_of(
                self@.mode,
                self@.success_reverse,
                shown_frame(self@.mode, self@.frame_index),
            ),
    {
        frame_asset(self.animation.mode, self.success_reverse, self.animation.frame_index)
    }

    fn set_mode(&mut self, mode: AnimationMode)
        ensures
            final(self)@ == with_mode(old(self)@, mode),
    {
        if self.animation.mode != mode {
            self.animation.mode = mode;
            self.animation.frame_index = 0;
            self.animation.loops_left = 0;
        }
    }

    fn start_happy_loop(&mut self)
        ensures
            final(self)@ == with_mode(old(self)@, AnimationMode::HappyLoop),
    {
        self.set_mode(AnimationMode::HappyLoop);
    }

    fn start_peck(&mut self)
        ensures
            final(self)@ == (SessionModel {
                mode: AnimationMode::Peck,
                frame_index: 0,
                loops_left: PECK_LOOPS as nat,
                ..old(self)@
            }),
    {
        self.animation.mode = AnimationMode::Peck;
        self.animation.frame_index = 0;
        self.animation.loops_left = PECK_LOOPS;
    }

    fn start_success(&mut self, reverse: bool)
        ensures
            final(self)@ == (SessionModel {
                success_reverse: reverse,
                mode: AnimationMode::Success,
                frame_index: 0,
                loops_left: 1,
                ..old(self)@
            }),
    {
        self.success_reverse = reverse;
        self.animation.mode = AnimationMode::Success;
        self.animation.frame_index = 0;
        self.animation.loops_left = 1;
    }

    /// Tries the meeting of animation and worker: once the peck animation
    /// has played out and the worker is done, the summary is written and the
    /// outcome animation starts; until then nothing changes. The session
    /// tries it itself at the end of the peck animation and at the worker's
    /// last message.
    pub fn maybe_start_success_animation(&mut self)
        ensures
            final(self)@ == rendezvous(old(self)@),
            !(old(self)@.ready_for_success && old(self)@.work_done) ==> final(self)@ == old(self)@,
            wf(old(self)@) && old(self)@.unlock_in_progress ==> wf(final(self)@),
    {
        proof {
            if wf(self@) && self@.unlock_in_progress {
                lemma_rendezvous_wf(self@);
            }
        }
        if !(self.unlock_ready_for_success && self.unlock_work_done) {
            return ;
        }
        let success_count = count_successes(&self.file_entries);
        let total_count = self.file_entries.len();
        let is_failure = total_count > 0 && success_count == 0;
        self.result_text = summary(success_count, total_count);
        self.start_success(is_failure);
    }

    fn wrap_peck(&mut self)
        ensures
            final(self)@ == peck_wrapped(old(self)@),
    {
        if self.animation.loops_left > 0 {
            self.animation.loops_left = self.animation.loops_left - 1;
        }
        if self.animation.loops_left == 0 {
            self.unlock_ready_for_success = true;
            self.set_mode(AnimationMode::Logo);
            self.maybe_start_success_animation();
        }
    }

    fn wrap_success(&mut self)
        ensures
            final(self)@ == success_wrapped(old(self)@),
    {
        if self.animation.loops_left > 0 {
            self.animation.loops_left = self.animation.loops_left - 1;
        }
        if self.animation.loops_left == 0 {
            self.unlock_in_progress = false;
            if self.file_entries.len() > 0 {
                self.start_happy_loop();
            } else {
                self.set_mode(AnimationMode::Logo);
            }
        }
    }

    /// Looks at the frame clock, `elapsed_ms` milliseconds after the last
    /// frame. The logo stands still. Another animation moves on by one frame
    /// once a frame's time is over; at the end of its last loop the peck
    /// animation gives way to the outcome, if the worker is done, and the
    /// outcome animation ends the unlock.
    pub fn tick_animation(&mut self, elapsed_ms: u64) -> (tick: Tick)
        ensures
            final(self)@ == ticked(old(self)@, elapsed_ms as nat),
            tick.repaint == (old(self)@.mode != AnimationMode::Logo),
            tick.advanced == (old(self)@.mode != AnimationMode::Logo && elapsed_ms
                >= FRAME_INTERVAL_MS),
            wf(old(self)@) ==> wf(final(self)@),
    {
        proof {
            if wf(self@) {
                lemma_step_wf(self@, Event::Tick(elapsed_ms as nat));
            }
        }
        self.advance(elapsed_ms)
    }

    /// One look at the frame clock, as [`Session::tick_animation`] describes it.
    fn advance(&mut self, elapsed_ms: u64) -> (tick: Tick)
        ensures
            final(self)@ == ticked(old(self)@, elapsed_ms as nat),
            tick.repaint == (old(self)@.mode != AnimationMode::Logo),
            tick.advanced == (old(self)@.mode != AnimationMode::Logo && elapsed_ms
                >= FRAME_INTERVAL_MS),
    {
        if self.animation.mode == AnimationMode::Logo {
            return Tick { advanced: false, repaint: false };
        }
        if elapsed_ms < FRAME_INTERVAL_MS {
            return Tick { advanced: false, repaint: true };
        }
        self.animation.frame_index = next_frame(
            self.animation.frame_index,
            frame_count(self.animation.mode),
        );
        if self.animation.frame_index == 0 {
            match self.animation.mode {
                AnimationMode::Peck => self.wrap_peck(),
                AnimationMode::Success => self.wrap_success(),
                _ => {},
            }
        }
        Tick { advanced: true, repaint: true }
    }

    /// Fits the window to the list. Returns the new height where the window
    /// has to change.
    pub fn update_window_size(&mut self) -> (resize: Option<u32>)
        ensures
            final(self)@ == (SessionModel {
                last_window_height: window_height_for(old(self)@.entries.len()),
                ..old(self)@
            }),
            resize == if window_height_for(old(self)@.entries.len()) != old(
                self,
            )@.last_window_height {
                Some(window_height_for(old(self)@.entries.len()) as u32)
            } else {
                None
            },
            wf(old(self)@) ==> wf(final(self)@),
    {
        proof {
            if wf(self@) {
                lemma_step_wf(self@, Event::Resize);
            }
        }
        let height = window_height(self.file_entries.len());
        if height != self.last_window_height {
            self.last_window_height = height;
            Some(height)
        } else {
            None
        }
    }

    /// Adds files to the list, each with what the encryption probe said of
    /// it. A file is taken where its path names a PDF, is not in the list
    /// yet, and the list is not full; the others are passed over. After a
    /// run that has ended the list is emptied first. While an unlock is in
    /// progress nothing is added.
    pub fn add_files(&mut self, files: Vec<ProbedFile>)
        ensures
            final(self)@ == added(old(self)@, probed_models(files@)),
            wf(old(self)@) ==> wf(final(self)@),
    {
        proof {
            if wf(self@) {
                lemma_step_wf(self@, Event::Add(probed_models(files@)));
            }
        }
        if self.unlock_in_progress {
            return ;
        }
        let mut was_added = false;
        if self.had_unlock {
            self.file_entries = Vec::new();
            self.result_text = String::new();
            self.had_unlock = false;
        }
        let ghost base = cleared_after_run(old(self)@);
        let ghost offered = probed_models(files@);
        proof {
            assert(self@.entries =~= base.entries);
            assert(self@ == base);
        }
        let mut i: usize = 0;
        while i < files.len()
            invariant
                i <= files.len(),
                offered == probed_models(files@),
                self@ == (SessionModel { entries: extended(base.entries, offered, i as nat), ..base }),
                self@.entries.len() >= base.entries.len(),
                was_added == (self@.entries.len() > base.entries.len()),
            decreases files.len() - i,
        {
            let file = &files[i];
            let ghost list = self@.entries;
            proof {
                assert(offered[i as int] == (file.path@, file.encrypted));
            }
            if is_pdf(file.path.as_str()) && !has_entry(&self.file_entries, &file.path)
                && self.file_entries.len() < LIST_MAX_FILES {
                self.file_entries.push(FileEntry::new(file.path.clone(), file.encrypted));
                was_added = true;
                proof {
                    assert(self@.entries =~= list.push(imported(file.path@, file.encrypted)));
                }
            }
            i += 1;
        }
        if was_added {
            self.result_text = String::new();
        }
    }

    /// Takes in files that were dropped or picked: adds them, lets the happy
    /// loop play if the list holds a file, and fits the window to the list.
    /// Returns the new height where the window has to change. While an
    /// unlock is in progress nothing happens.
    pub fn import(&mut self, files: Vec<ProbedFile>) -> (resize: Option<u32>)
        ensures
            final(self)@ == imported_into(old(self)@, probed_models(files@)),
            resize is Some <==> final(self)@.last_window_height != old(self)@.last_window_height,
            resize matches Some(h) ==> h == final(self)@.last_window_height,
            wf(old(self)@) ==> wf(final(self)@),
    {
        proof {
            if wf(self@) {
                lemma_step_wf(self@, Event::Import(probed_models(files@)));
            }
        }
        if self.unlock_in_progress {
            return None;
        }
        self.add_files(files);
        if self.file_entries.len() > 0 {
            self.start_happy_loop();
        }
        self.update_window_size()
    }

    /// Asks for an unlock. Nothing happens while one is in progress, with an
    /// empty list, or without a usable tool. Otherwise the peck animation
    /// starts, and the files the worker is to run over are returned.
    pub fn start_unlock(&mut self) -> (files: Option<Vec<FileEntry>>)
        ensures
            final(self)@ == started(old(self)@),
            files is Some <==> can_start(old(self)@),
            files matches Some(list) ==> entry_models(list@) == old(self)@.entries,
            wf(old(self)@) ==> wf(final(self)@),
    {
        proof {
            if wf(self@) {
                lemma_step_wf(self@, Event::Start);
            }
        }
        if self.unlock_in_progress || self.file_entries.len() == 0 || !self.qpdf_ok {
            return None;
        }
        self.unlock_in_progress = true;
        self.unlock_ready_for_success = false;
        self.unlock_work_done = false;
        self.result_text = String::from_str("处理中...");
        self.start_peck();
        self.worker_attached = true;
        let files = copy_entries(&self.file_entries);
        Some(files)
    }

    /// Handles a click on the mascot. With an empty list the user is to pick
    /// files. Without a usable tool the reason is shown and no worker
    /// starts. Otherwise an unlock is asked for.
    pub fn click(&mut self) -> (action: ClickAction)
        ensures
            final(self)@ == clicked(old(self)@),
            action is PickFiles <==> old(self)@.entries.len() == 0,
            action is StartWorker <==> can_start(old(self)@),
            action matches ClickAction::StartWorker(list) ==> entry_models(list@) == old(
                self,
            )@.entries,
            wf(old(self)@) ==> wf(final(self)@),
    {
        proof {
            if wf(self@) {
                lemma_step_wf(self@, Event::Click);
            }
        }
        if self.file_entries.len() == 0 {
            return ClickAction::PickFiles;
        }
        if !self.qpdf_ok {
            let shown = clone_text(&self.qpdf_error);
            match shown {
                Some(msg) => {
                    self.result_text = msg;
                },
                None => {},
            }
            return ClickAction::Nothing;
        }
        match self.start_unlock() {
            Some(files) => ClickAction::StartWorker(files),
            None => ClickAction::Nothing,
        }
    }

    /// Applies one message of the worker; `output_encrypted` is what the
    /// encryption probe said of the unlocked copy, where the message names
    /// one. A file result updates its entry, a status text replaces an empty
    /// or "in progress" summary, and `Done` ends the wait for the worker and
    /// tries the meeting with the animation. Without a worker nothing happens.
    pub fn handle_unlock_message(&mut self, message: UnlockMessage, output_encrypted: Option<bool>)
        ensures
            final(self)@ == received(old(self)@, message@, output_encrypted),
            wf(old(self)@) ==> wf(final(self)@),
    {
        proof {
            if wf(self@) {
                lemma_step_wf(self@, Event::Message(message@, output_encrypted));
            }
        }
        self.apply_message(message, output_encrypted);
    }

    /// One message of the worker, as [`Session::handle_unlock_message`] describes it.
    fn apply_message(&mut self, message: UnlockMessage, output_encrypted: Option<bool>)
        ensures
            final(self)@ == received(old(self)@, message@, output_encrypted),
    {
        if !self.worker_attached {
            return ;
        }
        match message {
            UnlockMessage::FileResult { index, success, output_path } => {
                if index < self.file_entries.len() {
                    let ghost list = self@.entries;
                    let entry = &self.file_entries[index];
                    let updated = if success && output_path.is_some() {
                        FileEntry {
                            path: entry.path.clone(),
                            icon: match output_encrypted {
                                Some(true) => Icon::Locked,
                                _ => Icon::Unlocked,
                            },
                            status: Status::Unlocked,
                            unlock_result: Some(true),
                            output_path,
                        }
                    } else {
                        FileEntry {
                            path: entry.path.clone(),
                            icon: entry.icon,
                            status: Status::UnlockFailed,
                            unlock_result: Some(false),
                            output_path: None,
                        }
                    };
                    self.file_entries.set(index, updated);
                    proof {
                        assert(self@.entries =~= list.update(
                            index as int,
                            entry_after(
                                list[index as int],
                                success,
                                text_of(output_path),
                                output_encrypted,
                            ),
                        ));
                    }
                }
            },
            UnlockMessage::Info(text) => {
                let processing = String::from_str("处理中...");
                if self.result_text.as_str().is_empty() || self.result_text == processing {
                    self.result_text = text;
                }
            },
            UnlockMessage::Done => {
                self.unlock_work_done = true;
                self.had_unlock = true;
                self.worker_attached = false;
                self.maybe_start_success_animation();
            },
        }
    }

    /// Applies the messages of the worker that have come in, in their order.
    pub fn handle_unlock_messages(&mut self, batch: Vec<Received>)
        ensures
            final(self)@ == pumped(old(self)@, received_models(batch@), batch@.len()),
            wf(old(self)@) ==> wf(final(self)@),
    {
        proof {
            if wf(self@) {
                lemma_pumped_wf(self@, received_models(batch@), batch@.len());
            }
        }
        let ghost models = received_models(batch@);
        let mut batch = batch;
        let mut rest: Vec<Received> = Vec::new();
        let ghost total = batch@.len();
        let ghost mut i: nat = 0;
        // The batch is taken from its end, so it is turned round first.
        while batch.len() > 0
            invariant
                batch@.len() + rest@.len() == total,
                total == models.len(),
                forall|k: int|
                    0 <= k < batch@.len() ==> (#[trigger] batch@[k].message@, batch@[k].output_encrypted)
                        == models[k],
                forall|k: int|
                    0 <= k < rest@.len() ==> ((#[trigger] rest@[k]).message@, rest@[k].output_encrypted)
                        == models[total - 1 - k],
            decreases batch@.len(),
        {
            let item = batch.pop().unwrap();
            rest.push(item);
        }
        while rest.len() > 0
            invariant
                i + rest@.len() == total,
                total == models.len(),
                forall|k: int|
                    0 <= k < rest@.len() ==> ((#[trigger] rest@[k]).message@, rest@[k].output_encrypted)
                        == models[total - 1 - k],
                self@ == pumped(old(self)@, models, i),
            decreases rest@.len(),
        {
            let item = rest.pop().unwrap();
            self.handle_unlock_message(item.message, item.output_encrypted);
            proof {
                i = i + 1;
            }
        }
    }

    /// Follows the pointer: with files in the list and no unlock in
    /// progress, the logo stands still under the pointer and the happy loop
    /// plays otherwise.
    pub fn hover(&mut self, over: bool)
        ensures
            final(self)@ == hovered(old(self)@, over),
            wf(old(self)@) ==> wf(final(self)@),
    {
        proof {
            if wf(self@) {
                lemma_step_wf(self@, Event::Hover(over));
            }
        }
        if !self.unlock_in_progress && self.file_entries.len() > 0 {
            if over {
                self.set_mode(AnimationMode::Logo);
            } else {
                self.start_happy_loop();
            }
        }
    }

    /// Says, once, that the user is to be told that the tool is missing.
    pub fn take_tool_prompt(&mut self) -> (prompt: bool)
        ensures
            prompt == (!old(self)@.qpdf_ok && !old(self)@.qpdf_prompted),
            final(self)@ == (SessionModel {
                qpdf_prompted: old(self)@.qpdf_prompted || !old(self)@.qpdf_ok,
                ..old(self)@
            }),
            wf(old(self)@) ==> wf(final(self)@),
    {
        proof {
            if wf(self@) {
                lemma_step_wf(self@, Event::Prompt);
            }
        }
        if !self.qpdf_ok && !self.qpdf_prompted {
            self.qpdf_prompted = true;
            true
        } else {
            false
        }
    }

    /// Whether the list is shown below the mascot: it is with more than one
    /// file.
    pub fn shows_list(&self) -> (r: bool)
        ensures
            r == (self@.entries.len() > 1),
    {
        self.file_entries.len() > 1
    }

    /// The paths among `paths` that adding them would take into the list, in
    /// their order: those that name a PDF, are in the list neither before
    /// nor by an earlier one of them, and find the list not full. After a
    /// run that has ended the list counts as empty; while an unlock is in
    /// progress no path is wanted. Only these need the encryption probe.
    pub fn wanted(&self, paths: &Vec<String>) -> (wanted: Vec<String>)
        ensures
            texts(wanted@) == wanted_paths(self@, unprobed(paths@)),
    {
        let mut wanted: Vec<String> = Vec::new();
        if self.unlock_in_progress {
            proof {
                assert(texts(wanted@) =~= Seq::<Seq<char>>::empty());
            }
            return wanted;
        }
        let mut list: Vec<FileEntry> = if self.had_unlock {
            Vec::new()
        } else {
            copy_entries(&self.file_entries)
        };
        let ghost base = cleared_after_run(self@).entries;
        let ghost offered = unprobed(paths@);
        proof {
            assert(entry_models(list@) =~= base);
            assert(texts(wanted@) =~= entry_paths(
                entry_models(list@).subrange(base.len() as int, list@.len() as int),
            ));
        }
        let mut i: usize = 0;
        while i < paths.len()
            invariant
                i <= paths.len(),
                offered == unprobed(paths@),
                entry_models(list@) == extended(base, offered, i as nat),
                list@.len() >= base.len(),
                texts(wanted@) == entry_paths(
                    entry_models(list@).subrange(base.len() as int, list@.len() as int),
                ),
            decreases paths.len() - i,
        {
            let path = &paths[i];
            let ghost before = entry_models(list@);
            let ghost found = texts(wanted@);
            proof {
                assert(offered[i as int] == (path@, None::<bool>));
            }
            if is_pdf(path.as_str()) && !has_entry(&list, path) && list.len() < LIST_MAX_FILES {
                list.push(FileEntry::new(path.clone(), None));
                wanted.push(path.clone());
                proof {
                    assert(entry_models(list@) =~= before.push(imported(path@, None)));
                    assert(texts(wanted@) =~= found.push(path@));
                    assert(texts(wanted@) =~= entry_paths(
                        entry_models(list@).subrange(base.len() as int, list@.len() as int),
                    ));
                }
            }
            i += 1;
        }
        wanted
    }

    /// The line shown below the mascot: an invitation with an empty list,
    /// the icon and name of a single file, or the number of files.
    pub fn hint(&self) -> (text: String)
        ensures
            text@ == hint_text(self@),
    {
        let count = self.file_entries.len();
        if count == 0 {
            String::from_str("点击或者拖入文件")
        } else if count == 1 {
            let entry = &self.file_entries[0];
            let mut text = String::from_str(entry.icon.glyph());
            text.append(" ");
            match file_name_of(entry.path.as_str()) {
                Some(name) => {
                    text.append(name.as_str());
                },
                None => {
                    proof {
                        assert(text@ + Seq::<char>::empty() =~= text@);
                    }
                },
            }
            text
        } else {
            let mut text = String::from_str("已导入 ");
            push_decimal(&mut text, count);
            text.append(" 个文件");
            text
        }
    }
}

} // verus!
