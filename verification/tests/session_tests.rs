use crackleaf::animation::{frame_asset, frame_count, AnimationMode};
use crackleaf::entry::{open_entry, FileEntry, Icon, Status};
use crackleaf::probe::{check_qpdf_ready, QpdfStatus, ToolOutput};
use crackleaf::session::{
    count_successes, has_entry, next_frame, summary, window_height, ClickAction, ProbedFile,
    Received, Session, Tick,
};
use crackleaf::worker::{run_unlock, UnlockMessage, UnlockOutcome};

fn tool_ok() -> QpdfStatus {
    check_qpdf_ready(&Ok(ToolOutput {
        success: true,
        stdout: String::from("qpdf version 11.9.0"),
        stderr: String::new(),
    }))
}

fn tool_missing() -> QpdfStatus {
    check_qpdf_ready(&Err(String::from("not found")))
}

fn probed(path: &str, encrypted: Option<bool>) -> ProbedFile {
    ProbedFile { path: String::from(path), encrypted }
}

fn pump(session: &mut Session, outcomes: Vec<UnlockOutcome>) {
    let batch = run_unlock(&outcomes)
        .into_iter()
        .map(|message| Received { message, output_encrypted: Some(false) })
        .collect();
    session.handle_unlock_messages(batch);
}

fn ticks(session: &mut Session, n: usize) {
    for _ in 0..n {
        session.tick_animation(150);
    }
}

#[test]
fn empty_state_pick_one_encrypted_file() {
    let mut s = Session::new(tool_ok());
    assert_eq!(s.hint(), "点击或者拖入文件");
    assert_eq!(s.click(), ClickAction::PickFiles);
    assert_eq!(s.import(vec![probed("a.pdf", Some(true))]), None);
    assert_eq!(s.file_entries.len(), 1);
    assert_eq!(s.file_entries[0].icon, Icon::Locked);
    assert_eq!(s.file_entries[0].icon.glyph(), "🔒");
    assert_eq!(s.file_entries[0].status.label(), "加密受限");
    assert_eq!(s.animation.mode, AnimationMode::HappyLoop);
    assert_eq!(s.hint(), "🔒 a.pdf");

    let files = match s.click() {
        ClickAction::StartWorker(files) => files,
        other => panic!("no worker: {:?}", other),
    };
    assert_eq!(files, s.file_entries);
    assert_eq!(s.animation.mode, AnimationMode::Peck);
    assert_eq!(s.animation.loops_left, 2);
    assert!(s.unlock_in_progress);
    assert!(s.worker_attached);
    assert_eq!(s.result_text, "处理中...");

    pump(&mut s, vec![UnlockOutcome::Finished(Some(String::from("/dl/a_unlocked.pdf")))]);
    assert!(s.unlock_work_done);
    assert!(!s.worker_attached);
    assert_eq!(s.animation.mode, AnimationMode::Peck);
    assert_eq!(s.file_entries[0].status.label(), "解锁成功");
    assert_eq!(s.file_entries[0].icon, Icon::Unlocked);
    assert_eq!(s.file_entries[0].output_path, Some(String::from("/dl/a_unlocked.pdf")));

    ticks(&mut s, 3);
    assert_eq!(s.animation.mode, AnimationMode::Peck);
    ticks(&mut s, 1);
    assert_eq!(s.animation.mode, AnimationMode::Success);
    assert!(!s.success_reverse);
    assert_eq!(s.result_text, "解锁成功");
    assert_eq!(s.current_texture(), "成功1");
    ticks(&mut s, 4);
    assert_eq!(s.animation.mode, AnimationMode::Success);
    assert_eq!(s.current_texture(), "成功5");
    assert!(s.unlock_in_progress);
    ticks(&mut s, 1);
    assert_eq!(s.animation.mode, AnimationMode::HappyLoop);
    assert!(!s.unlock_in_progress);
    assert!(s.had_unlock);
}

#[test]
fn two_files_one_fails() {
    let mut s = Session::new(tool_ok());
    s.import(vec![probed("a.pdf", Some(true)), probed("b.pdf", None)]);
    assert_eq!(s.hint(), "已导入 2 个文件");
    assert!(s.start_unlock().is_some());
    ticks(&mut s, 4);
    assert_eq!(s.animation.mode, AnimationMode::Logo);
    assert!(s.unlock_ready_for_success);
    pump(
        &mut s,
        vec![UnlockOutcome::Finished(Some(String::from("/dl/a_unlocked.pdf"))), UnlockOutcome::Failed],
    );
    assert_eq!(s.result_text, "部分成功: 1/2");
    assert_eq!(s.animation.mode, AnimationMode::Success);
    assert!(!s.success_reverse);
    assert_eq!(s.file_entries[0].output_path, Some(String::from("/dl/a_unlocked.pdf")));
    assert_eq!(s.file_entries[0].unlock_result, Some(true));
    assert_eq!(s.file_entries[1].output_path, None);
    assert_eq!(s.file_entries[1].unlock_result, Some(false));
    assert_eq!(s.file_entries[1].status.label(), "解锁失败");
    assert_eq!(s.file_entries[1].icon, Icon::Locked);
}

#[test]
fn zero_successes() {
    let mut s = Session::new(tool_ok());
    s.import(vec![probed("bad.pdf", Some(true))]);
    assert!(s.start_unlock().is_some());
    pump(&mut s, vec![UnlockOutcome::Failed]);
    ticks(&mut s, 4);
    assert_eq!(s.result_text, "解锁失败");
    assert_eq!(s.animation.mode, AnimationMode::Success);
    assert!(s.success_reverse);
    assert_eq!(s.current_texture(), "成功5");
    ticks(&mut s, 4);
    assert_eq!(s.current_texture(), "成功1");
}

#[test]
fn tool_missing_at_startup() {
    let mut s = Session::new(tool_missing());
    assert!(!s.qpdf_ok);
    assert!(s.take_tool_prompt());
    assert!(!s.take_tool_prompt());
    assert!(!s.take_tool_prompt());
    s.import(vec![probed("a.pdf", None)]);
    assert_eq!(s.file_entries.len(), 1);
    assert_eq!(s.click(), ClickAction::Nothing);
    assert_eq!(s.result_text, "qpdf 不可用（请把 qpdf 放在程序同目录）：not found");
    assert!(!s.unlock_in_progress);
    assert!(!s.worker_attached);
    assert_eq!(s.start_unlock(), None);
    assert_eq!(s.animation.mode, AnimationMode::HappyLoop);
}

#[test]
fn tool_present_needs_no_prompt() {
    let mut s = Session::new(tool_ok());
    assert!(!s.take_tool_prompt());
    assert!(!s.qpdf_prompted);
}

#[test]
fn duplicate_and_non_pdf_drops() {
    let mut s = Session::new(tool_ok());
    s.import(vec![probed("a.pdf", Some(false)), probed("a.pdf", Some(true)), probed("notes.txt", None)]);
    assert_eq!(s.file_entries.len(), 1);
    assert_eq!(s.file_entries[0], FileEntry::new(String::from("a.pdf"), Some(false)));
    assert_eq!(s.file_entries[0].icon, Icon::Unlocked);
    assert_eq!(s.file_entries[0].status, Status::Unrestricted);
    s.add_files(vec![probed("a.pdf", None), probed("B.PDF", None)]);
    assert_eq!(s.file_entries.len(), 2);
    assert_eq!(s.file_entries[1].path, "B.PDF");
    assert_eq!(s.file_entries[1].status.label(), "未知");
    assert_eq!(s.file_entries[1].icon, Icon::Locked);
}

#[test]
fn list_holds_eight_files() {
    let mut s = Session::new(tool_ok());
    let files: Vec<ProbedFile> = (0..11).map(|i| probed(&format!("f{}.pdf", i), None)).collect();
    let resize = s.import(files);
    assert_eq!(s.file_entries.len(), 8);
    assert_eq!(s.file_entries[7].path, "f7.pdf");
    assert_eq!(resize, Some(810));
    assert_eq!(s.last_window_height, 810);
    assert_eq!(s.import(vec![probed("late.pdf", None)]), None);
    assert_eq!(s.file_entries.len(), 8);
}

#[test]
fn window_heights() {
    assert_eq!(window_height(0), 390);
    assert_eq!(window_height(1), 390);
    assert_eq!(window_height(2), 390);
    assert_eq!(window_height(3), 460);
    assert_eq!(window_height(4), 530);
    assert_eq!(window_height(8), 810);
    assert_eq!(window_height(9), 975);
    assert_eq!(window_height(1000), 975);
}

#[test]
fn window_follows_the_list() {
    let mut s = Session::new(tool_ok());
    assert_eq!(s.update_window_size(), None);
    assert_eq!(
        s.import(vec![probed("a.pdf", None), probed("b.pdf", None), probed("c.pdf", None)]),
        Some(460)
    );
    assert_eq!(s.update_window_size(), None);
    assert_eq!(s.last_window_height, 460);
}

#[test]
fn add_after_a_run_replaces_the_list() {
    let mut s = Session::new(tool_ok());
    s.import(vec![probed("a.pdf", None), probed("b.pdf", None)]);
    assert!(s.start_unlock().is_some());
    pump(&mut s, vec![UnlockOutcome::Failed, UnlockOutcome::Failed]);
    ticks(&mut s, 9);
    assert!(!s.unlock_in_progress);
    assert!(s.had_unlock);
    assert_eq!(s.result_text, "解锁失败");
    s.add_files(vec![probed("c.pdf", Some(true))]);
    assert_eq!(s.file_entries, vec![FileEntry::new(String::from("c.pdf"), Some(true))]);
    assert!(!s.had_unlock);
    assert_eq!(s.result_text, "");
}

#[test]
fn add_after_a_run_with_nothing_to_take_empties_the_list() {
    let mut s = Session::new(tool_ok());
    s.import(vec![probed("a.pdf", None)]);
    assert!(s.start_unlock().is_some());
    pump(&mut s, vec![UnlockOutcome::Failed]);
    ticks(&mut s, 9);
    s.import(vec![probed("notes.txt", None)]);
    assert!(s.file_entries.is_empty());
    assert_eq!(s.result_text, "");
    assert_eq!(s.hint(), "点击或者拖入文件");
}

#[test]
fn add_during_unlock_is_ignored() {
    let mut s = Session::new(tool_ok());
    s.import(vec![probed("a.pdf", None)]);
    assert!(s.start_unlock().is_some());
    let before = s.clone();
    s.add_files(vec![probed("b.pdf", None)]);
    assert_eq!(s, before);
    assert_eq!(s.import(vec![probed("c.pdf", None)]), None);
    assert_eq!(s, before);
    pump(&mut s, vec![UnlockOutcome::Failed]);
    let before = s.clone();
    s.import(vec![probed("d.pdf", None)]);
    assert_eq!(s, before);
}

#[test]
fn second_start_during_unlock_does_nothing() {
    let mut s = Session::new(tool_ok());
    s.import(vec![probed("a.pdf", None)]);
    assert!(s.start_unlock().is_some());
    ticks(&mut s, 1);
    let before = s.clone();
    assert_eq!(s.start_unlock(), None);
    assert_eq!(s.click(), ClickAction::Nothing);
    assert_eq!(s, before);
}

#[test]
fn start_with_empty_list_does_nothing() {
    let mut s = Session::new(tool_ok());
    let before = s.clone();
    assert_eq!(s.start_unlock(), None);
    assert_eq!(s, before);
}

#[test]
fn peck_plays_out_before_the_outcome() {
    let mut s = Session::new(tool_ok());
    s.import(vec![probed("a.pdf", None)]);
    assert!(s.start_unlock().is_some());
    pump(&mut s, vec![UnlockOutcome::Finished(Some(String::from("/dl/a_unlocked.pdf")))]);
    for _ in 0..3 {
        assert_eq!(s.animation.mode, AnimationMode::Peck);
        assert_eq!(s.result_text, "处理中...");
        s.tick_animation(150);
    }
    assert_eq!(s.animation.mode, AnimationMode::Peck);
    s.tick_animation(150);
    assert_eq!(s.animation.mode, AnimationMode::Success);
}

#[test]
fn outcome_waits_for_the_worker() {
    let mut s = Session::new(tool_ok());
    s.import(vec![probed("a.pdf", None)]);
    assert!(s.start_unlock().is_some());
    ticks(&mut s, 4);
    assert_eq!(s.animation.mode, AnimationMode::Logo);
    assert!(s.unlock_in_progress);
    assert_eq!(s.tick_animation(1000), Tick { advanced: false, repaint: false });
    assert_eq!(s.result_text, "处理中...");
    s.handle_unlock_message(
        UnlockMessage::FileResult { index: 0, success: false, output_path: None },
        None,
    );
    assert_eq!(s.animation.mode, AnimationMode::Logo);
    s.handle_unlock_message(UnlockMessage::Done, None);
    assert_eq!(s.animation.mode, AnimationMode::Success);
    assert!(s.success_reverse);
}

#[test]
fn tick_waits_for_the_frame_time() {
    let mut s = Session::new(tool_ok());
    assert_eq!(s.tick_animation(500), Tick { advanced: false, repaint: false });
    s.import(vec![probed("a.pdf", None)]);
    let before = s.clone();
    assert_eq!(s.tick_animation(149), Tick { advanced: false, repaint: true });
    assert_eq!(s, before);
    assert_eq!(s.tick_animation(150), Tick { advanced: true, repaint: true });
    assert_eq!(s.animation.frame_index, 1);
}

#[test]
fn happy_loop_runs_forth_and_back() {
    let mut s = Session::new(tool_ok());
    s.import(vec![probed("a.pdf", None)]);
    let mut seen = Vec::new();
    for _ in 0..8 {
        seen.push(s.current_texture());
        s.tick_animation(200);
    }
    assert_eq!(seen, vec!["高兴1", "高兴2", "高兴3", "高兴4", "高兴3", "高兴2", "高兴1", "高兴1"]);
    assert_eq!(s.animation.mode, AnimationMode::HappyLoop);
}

#[test]
fn frame_tables() {
    assert_eq!(frame_count(AnimationMode::Logo), 1);
    assert_eq!(frame_count(AnimationMode::HappyLoop), 7);
    assert_eq!(frame_count(AnimationMode::Peck), 2);
    assert_eq!(frame_count(AnimationMode::Success), 5);
    assert_eq!(frame_asset(AnimationMode::Logo, false, 0), "crackleaf");
    assert_eq!(frame_asset(AnimationMode::Logo, false, 9), "crackleaf");
    assert_eq!(frame_asset(AnimationMode::Peck, false, 0), "啄1");
    assert_eq!(frame_asset(AnimationMode::Peck, false, 1), "啄2");
    assert_eq!(frame_asset(AnimationMode::Peck, false, 2), "啄2");
    assert_eq!(frame_asset(AnimationMode::Success, false, 2), "成功3");
    assert_eq!(frame_asset(AnimationMode::Success, true, 1), "成功4");
    assert_eq!(frame_asset(AnimationMode::Success, true, 77), "成功1");
    assert_eq!(frame_asset(AnimationMode::Success, false, 77), "成功5");
    assert_eq!(frame_asset(AnimationMode::HappyLoop, false, 6), "高兴1");
    assert_eq!(frame_asset(AnimationMode::HappyLoop, false, 60), "高兴1");
}

#[test]
fn frames_wrap_round() {
    assert_eq!(next_frame(0, 5), 1);
    assert_eq!(next_frame(4, 5), 0);
    assert_eq!(next_frame(0, 1), 0);
    assert_eq!(next_frame(8, 7), 2);
    assert_eq!(next_frame(usize::MAX, 2), 0);
}

#[test]
fn hover_stills_the_mascot() {
    let mut s = Session::new(tool_ok());
    s.hover(true);
    assert_eq!(s.animation.mode, AnimationMode::Logo);
    s.hover(false);
    assert_eq!(s.animation.mode, AnimationMode::Logo);
    s.import(vec![probed("a.pdf", None)]);
    ticks(&mut s, 2);
    s.hover(false);
    assert_eq!(s.animation.frame_index, 2);
    s.hover(true);
    assert_eq!(s.animation.mode, AnimationMode::Logo);
    assert_eq!(s.animation.frame_index, 0);
    s.hover(false);
    assert_eq!(s.animation.mode, AnimationMode::HappyLoop);
    assert!(s.start_unlock().is_some());
    s.hover(true);
    assert_eq!(s.animation.mode, AnimationMode::Peck);
}

#[test]
fn success_without_path_counts_as_failure() {
    let mut s = Session::new(tool_ok());
    s.import(vec![probed("a.pdf", Some(true))]);
    assert!(s.start_unlock().is_some());
    pump(&mut s, vec![UnlockOutcome::Finished(None)]);
    assert_eq!(s.file_entries[0].unlock_result, Some(false));
    assert_eq!(s.file_entries[0].output_path, None);
    assert_eq!(s.file_entries[0].status, Status::UnlockFailed);
    assert_eq!(s.file_entries[0].icon, Icon::Locked);
    ticks(&mut s, 4);
    assert_eq!(s.result_text, "解锁失败");
    assert!(s.success_reverse);
}

#[test]
fn icon_follows_the_probe_of_the_copy() {
    let mut s = Session::new(tool_ok());
    s.import(vec![probed("a.pdf", Some(true)), probed("b.pdf", Some(true)), probed("c.pdf", Some(true))]);
    assert!(s.start_unlock().is_some());
    let ok = |i: usize| UnlockMessage::FileResult {
        index: i,
        success: true,
        output_path: Some(format!("/dl/{}_unlocked.pdf", i)),
    };
    s.handle_unlock_message(ok(0), Some(true));
    s.handle_unlock_message(ok(1), Some(false));
    s.handle_unlock_message(ok(2), None);
    s.handle_unlock_message(ok(3), None);
    assert_eq!(s.file_entries.len(), 3);
    assert_eq!(s.file_entries[0].icon, Icon::Locked);
    assert_eq!(s.file_entries[0].status, Status::Unlocked);
    assert_eq!(s.file_entries[1].icon, Icon::Unlocked);
    assert_eq!(s.file_entries[2].icon, Icon::Unlocked);
    assert_eq!(s.file_entries[2].icon.glyph(), "🔓");
    assert_eq!(count_successes(&s.file_entries), 3);
}

#[test]
fn status_text_replaces_only_empty_or_processing() {
    let mut s = Session::new(tool_ok());
    s.import(vec![probed("a.pdf", None), probed("b.pdf", None)]);
    assert!(s.start_unlock().is_some());
    s.handle_unlock_message(UnlockMessage::Info(String::from("first")), None);
    assert_eq!(s.result_text, "first");
    s.handle_unlock_message(UnlockMessage::Info(String::from("second")), None);
    assert_eq!(s.result_text, "first");
    s.result_text = String::new();
    s.handle_unlock_message(UnlockMessage::Info(String::from("third")), None);
    assert_eq!(s.result_text, "third");
}

#[test]
fn spawn_failure_shows_its_text_until_the_summary() {
    let mut s = Session::new(tool_ok());
    s.import(vec![probed("a.pdf", None)]);
    assert!(s.start_unlock().is_some());
    pump(&mut s, vec![UnlockOutcome::SpawnFailed(String::from("boom"))]);
    assert_eq!(s.result_text, "解锁失败: qpdf 执行失败（请把 qpdf 放在程序同目录或加入 PATH）: boom");
    ticks(&mut s, 4);
    assert_eq!(s.result_text, "解锁失败");
}

#[test]
fn messages_without_a_worker_change_nothing() {
    let mut s = Session::new(tool_ok());
    s.import(vec![probed("a.pdf", None)]);
    let before = s.clone();
    s.handle_unlock_message(UnlockMessage::Done, None);
    s.handle_unlock_message(
        UnlockMessage::FileResult { index: 0, success: true, output_path: Some(String::from("x")) },
        None,
    );
    assert_eq!(s, before);
}

#[test]
fn summaries() {
    assert_eq!(summary(1, 1), "解锁成功");
    assert_eq!(summary(8, 8), "解锁成功");
    assert_eq!(summary(1, 2), "部分成功: 1/2");
    assert_eq!(summary(7, 12), "部分成功: 7/12");
    assert_eq!(summary(0, 2), "解锁失败");
    assert_eq!(summary(0, 0), "解锁失败");
}

#[test]
fn finds_entries_by_path() {
    let entries = vec![
        FileEntry::new(String::from("a.pdf"), None),
        FileEntry::new(String::from("b.pdf"), None),
    ];
    assert!(has_entry(&entries, &String::from("b.pdf")));
    assert!(!has_entry(&entries, &String::from("B.pdf")));
    assert!(!has_entry(&Vec::new(), &String::from("a.pdf")));
    assert_eq!(count_successes(&entries), 0);
}

#[test]
fn opens_the_copy_if_it_is_there() {
    let mut entry = FileEntry::new(String::from("/src/a.pdf"), None);
    assert_eq!(open_entry(&entry, true), "/src/a.pdf");
    entry.output_path = Some(String::from("/dl/a_unlocked.pdf"));
    assert_eq!(open_entry(&entry, true), "/dl/a_unlocked.pdf");
    assert_eq!(open_entry(&entry, false), "/src/a.pdf");
    assert_eq!(entry.duplicate(), entry);
}

#[test]
fn hint_names_a_single_file() {
    let mut s = Session::new(tool_ok());
    s.add_files(vec![probed("/some/dir/报告.pdf", Some(false))]);
    assert_eq!(s.hint(), "🔓 报告.pdf");
    s.add_files(vec![
        probed("/b.pdf", None),
        probed("/c.pdf", None),
    ]);
    assert_eq!(s.hint(), "已导入 3 个文件");
}

#[test]
fn list_shows_with_more_than_one_file() {
    let mut s = Session::new(tool_ok());
    assert!(!s.shows_list());
    s.add_files(vec![probed("a.pdf", None)]);
    assert!(!s.shows_list());
    s.add_files(vec![probed("b.pdf", None)]);
    assert!(s.shows_list());
}

#[test]
fn open_is_offered_once_a_copy_is_named() {
    let mut entry = FileEntry::new(String::from("a.pdf"), Some(true));
    assert!(!entry.can_open());
    entry.output_path = Some(String::from("/dl/a_unlocked.pdf"));
    assert!(entry.can_open());
}

#[test]
fn only_wanted_paths_need_a_probe() {
    let paths = |names: &[&str]| -> Vec<String> { names.iter().map(|n| n.to_string()).collect() };
    let mut s = Session::new(tool_ok());
    assert_eq!(
        s.wanted(&paths(&["a.pdf", "a.pdf", "notes.txt", "B.PDF"])),
        vec!["a.pdf", "B.PDF"]
    );
    s.add_files(vec![probed("a.pdf", None)]);
    assert_eq!(s.wanted(&paths(&["a.pdf", "c.pdf", "c.pdf"])), vec!["c.pdf"]);
    assert_eq!(s.wanted(&Vec::new()), Vec::<String>::new());
    let many: Vec<String> = (0..12).map(|i| format!("f{}.pdf", i)).collect();
    assert_eq!(s.wanted(&many), many[..7].to_vec());
    let before = s.clone();
    let wanted = s.wanted(&many);
    assert_eq!(s, before);
    s.add_files(wanted.iter().map(|p| probed(p, Some(true))).collect());
    assert_eq!(s.file_entries.len(), 8);
    assert_eq!(s.wanted(&paths(&["late.pdf"])), Vec::<String>::new());
}

#[test]
fn wanted_follows_the_state_of_the_run() {
    let mut s = Session::new(tool_ok());
    s.import(vec![probed("a.pdf", None)]);
    assert!(s.start_unlock().is_some());
    assert_eq!(s.wanted(&vec![String::from("b.pdf")]), Vec::<String>::new());
    pump(&mut s, vec![UnlockOutcome::Failed]);
    ticks(&mut s, 9);
    assert!(s.had_unlock);
    assert_eq!(
        s.wanted(&vec![String::from("a.pdf"), String::from("b.pdf")]),
        vec!["a.pdf", "b.pdf"]
    );
}

#[test]
fn meeting_needs_both_flags() {
    let mut s = Session::new(tool_ok());
    s.import(vec![probed("a.pdf", None)]);
    assert!(s.start_unlock().is_some());
    let before = s.clone();
    s.maybe_start_success_animation();
    assert_eq!(s, before);
    s.handle_unlock_message(
        UnlockMessage::FileResult {
            index: 0,
            success: true,
            output_path: Some(String::from("/dl/a_unlocked.pdf")),
        },
        None,
    );
    s.handle_unlock_message(UnlockMessage::Done, None);
    let before = s.clone();
    s.maybe_start_success_animation();
    assert_eq!(s, before);
    assert_eq!(s.animation.mode, AnimationMode::Peck);
    ticks(&mut s, 4);
    assert_eq!(s.animation.mode, AnimationMode::Success);
    ticks(&mut s, 2);
    s.maybe_start_success_animation();
    assert_eq!(s.animation.mode, AnimationMode::Success);
    assert_eq!(s.animation.frame_index, 0);
    assert_eq!(s.animation.loops_left, 1);
    assert_eq!(s.result_text, "解锁成功");
}
