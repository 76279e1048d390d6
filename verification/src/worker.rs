//! The unlock worker: where each copy goes, how `qpdf` is called for it, and
//! which messages the worker posts.

use vstd::prelude::*;
use vstd::string::*;
use crate::entry::{clone_text, FileEntry};
use crate::naming::{
    found_at,
    join,
    parent_of,
    path_join,
    path_parent,
    path_stem,
    stem_of,
    unique_output_path,
};
use crate::text::text_of;

verus! {

/// What the worker tells the session.
#[derive(Clone, Debug, PartialEq, Eq)]
pub enum UnlockMessage {
    /// The file at `index` was handled.
    FileResult { index: usize, success: bool, output_path: Option<String> },
    /// A text for the status line.
    Info(String),
    /// Every file was handled. Nothing follows.
    Done,
}

/// An [`UnlockMessage`] as plain values.
pub enum MessageModel {
    FileResult { index: nat, success: bool, output_path: Option<Seq<char>> },
    Info(Seq<char>),
    Done,
}

impl View for UnlockMessage {
    type V = MessageModel;

    open spec fn view(&self) -> MessageModel {
        match *self {
            UnlockMessage::FileResult { index, success, output_path } => MessageModel::FileResult {
                index: index as nat,
                success,
                output_path: text_of(output_path),
            },
            UnlockMessage::Info(text) => MessageModel::Info(text@),
            UnlockMessage::Done => MessageModel::Done,
        }
    }
}

/// How the attempt to unlock one file ended.
#[derive(Clone, Debug, PartialEq, Eq)]
pub enum UnlockOutcome {
    /// The tool could not be started; the system's error text.
    SpawnFailed(String),
    /// The tool exited with a status other than zero.
    Failed,
    /// The tool exited with status zero; the path of the copy if it is there.
    Finished(Option<String>),
}

/// An [`UnlockOutcome`] as plain values.
pub enum OutcomeModel {
    SpawnFailed(Seq<char>),
    Failed,
    Finished(Option<Seq<char>>),
}

impl View for UnlockOutcome {
    type V = OutcomeModel;

    open spec fn view(&self) -> OutcomeModel {
        match *self {
            UnlockOutcome::SpawnFailed(e) => OutcomeModel::SpawnFailed(e@),
            UnlockOutcome::Failed => OutcomeModel::Failed,
            UnlockOutcome::Finished(path) => OutcomeModel::Finished(text_of(path)),
        }
    }
}

/// The directory for downloads, given what the system names: its download
/// directory, else `Downloads` below the home directory, else none.
pub fn download_dir_from(download_dir: Option<String>, home_dir: Option<String>) -> (dir: Option<
    String,
>)
    ensures
        text_of(dir) == match (download_dir, home_dir) {
            (Some(d), _) => Some(d@),
            (None, Some(h)) => Some(path_join(h@, "Downloads"@)),
            (None, None) => None,
        },
{
    match download_dir {
        Some(d) => Some(d),
        None => match home_dir {
            Some(h) => Some(join(h.as_str(), "Downloads")),
            None => None,
        },
    }
}

/// The directory the copy of `source` is written to.
pub open spec fn output_dir_of(source: Seq<char>, download_dir: Option<Seq<char>>) -> Seq<char> {
    match download_dir {
        Some(d) => d,
        None => match path_parent(source) {
            Some(p) => p,
            None => "."@,
        },
    }
}

/// The stem the copy of `source` is named by.
pub open spec fn output_stem_of(source: Seq<char>) -> Seq<char> {
    match path_stem(source) {
        Some(s) => s,
        None => "output"@,
    }
}

/// Picks the path of the unlocked copy of `source`: in the download
/// directory where there is one, else beside the source, else in the working
/// directory; named by the source's stem, under the first name that
/// `is_taken` reports free.
pub fn output_path_for<F: Fn(&str) -> bool>(source: &str, download_dir: &Option<String>, is_taken: F) -> (path:
    String)
    requires
        forall|p: &str| #[trigger] call_requires(is_taken, (p,)),
    ensures
        exists|attempt: nat|
            found_at(
                is_taken,
                output_dir_of(source@, text_of(*download_dir)),
                output_stem_of(source@),
                path@,
                attempt,
            ),
{
    let dir = match download_dir {
        Some(d) => d.clone(),
        None => match parent_of(source) {
            Some(p) => p,
            None => String::from_str("."),
        },
    };
    let stem = match stem_of(source) {
        Some(s) => s,
        None => String::from_str("output"),
    };
    assert(dir@ == output_dir_of(source@, text_of(*download_dir)));
    assert(stem@ == output_stem_of(source@));
    let path = unique_output_path(dir.as_str(), stem.as_str(), is_taken);
    path
}

/// The arguments that make the tool write an unlocked copy of `source` to
/// `output`, with the empty password.
pub fn unlock_arguments(source: &str, output: &str) -> (args: Vec<String>)
    ensures
        args@.len() == 4,
        args@[0]@ == "--password="@,
        args@[1]@ == "--decrypt"@,
        args@[2]@ == source@,
        args@[3]@ == output@,
{
    let mut args: Vec<String> = Vec::new();
    args.push(String::from_str("--password="));
    args.push(String::from_str("--decrypt"));
    args.push(String::from_str(source));
    args.push(String::from_str(output));
    args
}

/// The arguments that make the tool report its version.
pub fn version_arguments() -> (args: Vec<String>)
    ensures
        args@.len() == 1,
        args@[0]@ == "--version"@,
{
    let mut args: Vec<String> = Vec::new();
    args.push(String::from_str("--version"));
    args
}

/// The arguments that make the tool report the encryption of `path`.
pub fn show_encryption_arguments(path: &str) -> (args: Vec<String>)
    ensures
        args@.len() == 2,
        args@[0]@ == "--show-encryption"@,
        args@[1]@ == path@,
{
    let mut args: Vec<String> = Vec::new();
    args.push(String::from_str("--show-encryption"));
    args.push(String::from_str(path));
    args
}

/// How one run of the tool on one file ended: it could not be started, it
/// failed, or it finished, and then the copy is named if it is there.
pub open spec fn outcome_of(
    run: Result<bool, Seq<char>>,
    output_path: Seq<char>,
    output_exists: bool,
) -> OutcomeModel {
    match run {
        Err(e) => OutcomeModel::SpawnFailed(e),
        Ok(false) => OutcomeModel::Failed,
        Ok(true) => OutcomeModel::Finished(
            if output_exists {
                Some(output_path)
            } else {
                None
            },
        ),
    }
}

/// The view of the result of a run.
pub open spec fn run_model(run: Result<bool, String>) -> Result<bool, Seq<char>> {
    match run {
        Ok(success) => Ok(success),
        Err(e) => Err(e@),
    }
}

/// How one run of the tool on one file ended. `run` holds whether the tool
/// exited with status zero, or the system's error text where it could not be
/// started; `output_exists` says whether the copy is there after the run.
pub fn unlock_pdf(run: Result<bool, String>, output_path: String, output_exists: bool) -> (outcome:
    UnlockOutcome)
    ensures
        outcome@ == outcome_of(run_model(run), output_path@, output_exists),
{
    match run {
        Err(e) => UnlockOutcome::SpawnFailed(e),
        Ok(false) => UnlockOutcome::Failed,
        Ok(true) => UnlockOutcome::Finished(
            if output_exists {
                Some(output_path)
            } else {
                None
            },
        ),
    }
}

/// The status text for a tool that could not be started on a file.
pub open spec fn spawn_failure_text(os_error: Seq<char>) -> Seq<char> {
    "解锁失败: qpdf 执行失败（请把 qpdf 放在程序同目录或加入 PATH）: "@ + os_error
}

/// The messages the worker posts for the file at `index`: its result, and
/// after it a status text where the tool could not be started.
pub open spec fn messages_for(index: nat, outcome: OutcomeModel) -> Seq<MessageModel> {
    match outcome {
        OutcomeModel::SpawnFailed(e) => seq![
            MessageModel::FileResult { index, success: false, output_path: None },
            MessageModel::Info(spawn_failure_text(e)),
        ],
        OutcomeModel::Failed => seq![
            MessageModel::FileResult { index, success: false, output_path: None },
        ],
        OutcomeModel::Finished(path) => seq![
            MessageModel::FileResult { index, success: true, output_path: path },
        ],
    }
}

/// The messages posted for the first `n` files.
pub open spec fn posted(outcomes: Seq<OutcomeModel>, n: nat) -> Seq<MessageModel>
    decreases n,
{
    if n == 0 {
        Seq::empty()
    } else {
        posted(outcomes, (n - 1) as nat) + messages_for((n - 1) as nat, outcomes[n - 1])
    }
}

/// Everything the worker posts for a run over the given outcomes: the
/// messages of each file in turn, then `Done`.
pub open spec fn trace(outcomes: Seq<OutcomeModel>) -> Seq<MessageModel> {
    posted(outcomes, outcomes.len()).push(MessageModel::Done)
}

/// The views of some outcomes.
pub open spec fn outcome_models(outcomes: Seq<UnlockOutcome>) -> Seq<OutcomeModel> {
    Seq::new(outcomes.len(), |i: int| outcomes[i]@)
}

/// The views of some messages.
pub open spec fn message_models(messages: Seq<UnlockMessage>) -> Seq<MessageModel> {
    Seq::new(messages.len(), |i: int| messages[i]@)
}

/// The messages the worker posts for the file at `index`.
pub fn file_messages(index: usize, outcome: &UnlockOutcome) -> (messages: Vec<UnlockMessage>)
    ensures
        message_models(messages@) == messages_for(index as nat, outcome@),
{
    let mut messages: Vec<UnlockMessage> = Vec::new();
    match outcome {
        UnlockOutcome::SpawnFailed(e) => {
            messages.push(UnlockMessage::FileResult { index, success: false, output_path: None });
            let mut text = String::from_str(
                "解锁失败: qpdf 执行失败（请把 qpdf 放在程序同目录或加入 PATH）: ",
            );
            text.append(e.as_str());
            messages.push(UnlockMessage::Info(text));
        },
        UnlockOutcome::Failed => {
            messages.push(UnlockMessage::FileResult { index, success: false, output_path: None });
        },
        UnlockOutcome::Finished(path) => {
            messages.push(
                UnlockMessage::FileResult { index, success: true, output_path: clone_text(path) },
            );
        },
    }
    proof {
        assert(message_models(messages@) =~= messages_for(index as nat, outcome@));
    }
    messages
}

/// Everything the worker posts for one run: for each file in turn its
/// messages, and `Done` last.
pub fn run_unlock(outcomes: &Vec<UnlockOutcome>) -> (messages: Vec<UnlockMessage>)
    ensures
        message_models(messages@) == trace(outcome_models(outcomes@)),
{
    let mut messages: Vec<UnlockMessage> = Vec::new();
    let mut index: usize = 0;
    proof {
        assert(message_models(messages@) =~= posted(outcome_models(outcomes@), 0));
    }
    while index < outcomes.len()
        invariant
            index <= outcomes.len(),
            message_models(messages@) == posted(outcome_models(outcomes@), index as nat),
        decreases outcomes.len() - index,
    {
        let ghost before = messages@;
        let mut next = file_messages(index, &outcomes[index]);
        let ghost added = next@;
        messages.append(&mut next);
        proof {
            assert(messages@ == before + added);
            assert(message_models(before + added) =~= message_models(before) + message_models(
                added,
            ));
            assert(outcome_models(outcomes@)[index as int] == outcomes@[index as int]@);
        }
        index += 1;
    }
    let ghost before = messages@;
    messages.push(UnlockMessage::Done);
    proof {
        assert(message_models(messages@) =~= message_models(before).push(MessageModel::Done));
    }
    messages
}

/// Where the worker stands in its run over the files.
#[derive(Clone, Debug, PartialEq, Eq)]
pub struct Worker {
    /// The files of the run, in their order.
    pub files: Vec<FileEntry>,
    /// The place of the file that is unlocked next.
    pub next: usize,
}

/// What the worker is to do now.
#[derive(Clone, Debug, PartialEq, Eq)]
pub struct Turn {
    /// The messages to post, in this order.
    pub post: Vec<UnlockMessage>,
    /// The path of the file to unlock after that; none: the run is over.
    pub unlock: Option<String>,
}

/// What closes the run once `next` files of `total` are handled: `Done`
/// after the last, nothing before.
pub open spec fn closing(next: nat, total: nat) -> Seq<MessageModel> {
    if next >= total {
        seq![MessageModel::Done]
    } else {
        Seq::empty()
    }
}

/// The path of the file at `next`, if there is one.
pub open spec fn source_at(files: Seq<FileEntry>, next: nat) -> Option<Seq<char>> {
    if next < files.len() {
        Some(files[next as int].path@)
    } else {
        None
    }
}

fn source_of(files: &Vec<FileEntry>, next: usize) -> (source: Option<String>)
    ensures
        text_of(source) == source_at(files@, next as nat),
{
    if next < files.len() {
        Some(files[next].path.clone())
    } else {
        None
    }
}

fn close(post: &mut Vec<UnlockMessage>, next: usize, total: usize)
    ensures
        message_models(final(post)@) == message_models(old(post)@) + closing(
            next as nat,
            total as nat,
        ),
{
    if next >= total {
        post.push(UnlockMessage::Done);
    }
    proof {
        assert(message_models(post@) =~= message_models(old(post)@) + closing(
            next as nat,
            total as nat,
        ));
    }
}

impl Worker {
    /// Starts a run over `files`: the first file is to be unlocked; with no
    /// file the run is over at once and `Done` is posted.
    pub fn begin(files: Vec<FileEntry>) -> (start: (Worker, Turn))
        ensures
            start.0.files@ == files@,
            start.0.next == 0,
            message_models(start.1.post@) == closing(0, files@.len()),
            text_of(start.1.unlock) == source_at(files@, 0),
    {
        let mut post: Vec<UnlockMessage> = Vec::new();
        close(&mut post, 0, files.len());
        let unlock = source_of(&files, 0);
        proof {
            assert(message_models(Seq::<UnlockMessage>::empty()) + closing(0, files@.len())
                =~= closing(0, files@.len()));
        }
        (Worker { files, next: 0 }, Turn { post, unlock })
    }

    /// Takes the outcome of the file that was to be unlocked: its messages
    /// are posted, and `Done` after them if it was the last file; else the
    /// next file is to be unlocked. Once the run is over nothing happens.
    pub fn report(&mut self, outcome: &UnlockOutcome) -> (turn: Turn)
        ensures
            final(self).files@ == old(self).files@,
            old(self).next < old(self).files@.len() ==> final(self).next == old(self).next + 1
                && message_models(turn.post@) == messages_for(old(self).next as nat, outcome@)
                + closing((old(self).next + 1) as nat, old(self).files@.len()) && text_of(
                turn.unlock,
            ) == source_at(old(self).files@, (old(self).next + 1) as nat),
            old(self).next >= old(self).files@.len() ==> final(self).next == old(self).next
                && turn.post@.len() == 0 && turn.unlock is None,
    {
        if self.next >= self.files.len() {
            return Turn { post: Vec::new(), unlock: None };
        }
        let mut post = file_messages(self.next, outcome);
        self.next = self.next + 1;
        close(&mut post, self.next, self.files.len());
        let unlock = source_of(&self.files, self.next);
        Turn { post, unlock }
    }
}

/// Everything the worker has posted once it has begun a run over `total`
/// files and reported the first `n` outcomes.
pub open spec fn posted_in_turns(total: nat, outcomes: Seq<OutcomeModel>, n: nat) -> Seq<
    MessageModel,
>
    decreases n,
{
    if n == 0 {
        closing(0, total)
    } else {
        posted_in_turns(total, outcomes, (n - 1) as nat) + messages_for(
            (n - 1) as nat,
            outcomes[n - 1],
        ) + closing(n, total)
    }
}

/// Before the last outcome is reported, the worker has posted the messages
/// of the files so far and no `Done`.
pub proof fn lemma_turns_before_the_end(total: nat, outcomes: Seq<OutcomeModel>, n: nat)
    requires
        n < total,
    ensures
        posted_in_turns(total, outcomes, n) == posted(outcomes, n),
    decreases n,
{
    if n > 0 {
        lemma_turns_before_the_end(total, outcomes, (n - 1) as nat);
        assert(posted_in_turns(total, outcomes, n) =~= posted(outcomes, n));
    } else {
        assert(posted_in_turns(total, outcomes, 0) =~= posted(outcomes, 0));
    }
}

/// Turn by turn the worker posts, over a whole run, exactly the messages of
/// [`trace`]: each file's in turn, and `Done` once and last.
pub proof fn lemma_turns_post_the_trace(outcomes: Seq<OutcomeModel>)
    ensures
        posted_in_turns(outcomes.len(), outcomes, outcomes.len()) == trace(outcomes),
{
    let total = outcomes.len();
    if total > 0 {
        lemma_turns_before_the_end(total, outcomes, (total - 1) as nat);
        assert(posted_in_turns(total, outcomes, total) =~= trace(outcomes));
    } else {
        assert(posted_in_turns(total, outcomes, total) =~= trace(outcomes));
    }
}

/// A file result sits at position `at` of `trace` and speaks of file `index`.
pub open spec fn result_at(trace: Seq<MessageModel>, at: int, index: nat) -> bool {
    &&& 0 <= at < trace.len()
    &&& trace[at] is FileResult
    &&& trace[at]->FileResult_index == index
}

/// Some message of `trace` is the result of file `index`.
pub open spec fn has_result(trace: Seq<MessageModel>, index: nat) -> bool {
    exists|at: int| result_at(trace, at, index)
}

/// Among the messages posted for the first `n` files none is `Done`, every
/// file result speaks of a file before `n`, and results come in the order of
/// the files.
pub proof fn lemma_posted_in_order(outcomes: Seq<OutcomeModel>, n: nat)
    requires
        n <= outcomes.len(),
    ensures
        forall|at: int| 0 <= at < posted(outcomes, n).len() ==> !(posted(outcomes, n)[at] is Done),
        forall|at: int, index: nat| #[trigger]
            result_at(posted(outcomes, n), at, index) ==> index < n,
        forall|a: int, b: int, i: nat, j: nat|
            #[trigger] result_at(posted(outcomes, n), a, i) && #[trigger] result_at(
                posted(outcomes, n),
                b,
                j,
            ) && i < j ==> a < b,
        forall|index: nat| index < n ==> #[trigger] has_result(posted(outcomes, n), index),
    decreases n,
{
    if n > 0 {
        let m = (n - 1) as nat;
        lemma_posted_in_order(outcomes, m);
        let head = posted(outcomes, m);
        let tail = messages_for(m, outcomes[m as int]);
        let all = posted(outcomes, n);
        assert(all == head + tail);
        assert forall|at: int, index: nat| #[trigger] result_at(all, at, index) implies index
            < n by {
            if at < head.len() {
                assert(result_at(head, at, index));
            }
        }
        assert forall|a: int, b: int, i: nat, j: nat|
            #[trigger] result_at(all, a, i) && #[trigger] result_at(all, b, j) && i < j implies a
            < b by {
            if b < head.len() {
                assert(result_at(head, b, j));
                if a < head.len() {
                    assert(result_at(head, a, i));
                }
            } else {
                if a < head.len() {
                } else {
                    assert(all[a] == tail[a - head.len()]);
                    assert(all[b] == tail[b - head.len()]);
                }
            }
        }
        assert forall|index: nat| index < n implies #[trigger] has_result(all, index) by {
            if index < m {
                assert(has_result(head, index));
                let at = choose|at: int| result_at(head, at, index);
                assert(result_at(all, at, index));
            } else {
                assert(all[head.len() as int] == tail[0]);
                assert(result_at(all, head.len() as int, index));
            }
        }
    }
}

/// The order of the worker's messages: the result of an earlier file comes
/// before that of a later one, every file has its result, and `Done` comes
/// once, as the last message.
pub proof fn lemma_trace_in_order(outcomes: Seq<OutcomeModel>)
    ensures
        trace(outcomes).last() is Done,
        forall|at: int| 0 <= at < trace(outcomes).len() - 1 ==> !(trace(outcomes)[at] is Done),
        forall|a: int, b: int, i: nat, j: nat|
            #[trigger] result_at(trace(outcomes), a, i) && #[trigger] result_at(
                trace(outcomes),
                b,
                j,
            ) && i < j ==> a < b,
        forall|index: nat| index < outcomes.len() ==> #[trigger] has_result(trace(outcomes), index),
{
    let body = posted(outcomes, outcomes.len());
    let all = trace(outcomes);
    lemma_posted_in_order(outcomes, outcomes.len());
    assert forall|a: int, b: int, i: nat, j: nat|
        #[trigger] result_at(all, a, i) && #[trigger] result_at(all, b, j) && i < j implies a
        < b by {
        assert(result_at(body, a, i));
        assert(result_at(body, b, j));
    }
    assert forall|index: nat| index < outcomes.len() implies #[trigger] has_result(all, index) by {
        assert(has_result(body, index));
        let at = choose|at: int| result_at(body, at, index);
        assert(result_at(all, at, index));
    }
}

} // verus!
