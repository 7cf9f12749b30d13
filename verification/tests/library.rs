use turm::app::{
    AppMessage, AppState, Area, Effect, InputDecision, InputEvent, Job, KeyCode, KeyPress,
    MouseScrollTarget, MouseWheelDirection, OutputFileView,
};
use turm::dialog::{
    centered_dialog_area, dialog_frame, signal_index_for_digit, time_limit_cursor,
    time_limit_layout, time_limit_prompt_width, visible_input, Dialog, DialogContent,
};
use turm::file_watcher::{FileWatcherError, FileWatcherMessage, FileWatcherState, FollowedFile};
use turm::job_watcher::{
    parse_squeue_output_text, resolve_path, squeue_command_args, squeue_format_arg,
    substitute_filename_patterns, FilenameContext,
};
use turm::slurm::{command_failure, scancel_command, scontrol_timelimit_command};
use turm::ui_text::{fit_text, ScrollAnchor, TextLine};
use turm::view::{
    job_columns, job_list_border, job_row, jobs_title, log_title, pad_end_str, pad_start_str, Color,
};

fn key(code: KeyCode) -> KeyPress {
    KeyPress { code, control: false, shift: false, alt: false }
}

fn ch(c: char) -> KeyPress {
    key(KeyCode::Char(c))
}

fn job(id: &str, step: Option<&str>) -> Job {
    Job {
        job_id: id.to_string(),
        array_id: id.to_string(),
        array_step: step.map(|s| s.to_string()),
        name: "name".to_string(),
        state: "RUNNING".to_string(),
        state_compact: "R".to_string(),
        reason: None,
        user: "alice".to_string(),
        time: "1:00".to_string(),
        time_limit: "2:00:00".to_string(),
        start_time: "N/A".to_string(),
        tres: "cpu=1".to_string(),
        partition: "main".to_string(),
        nodelist: "n1".to_string(),
        stdout: Some(format!("/out/{id}.out")),
        stderr: Some(format!("/out/{id}.err")),
        command: "run.sh".to_string(),
    }
}

fn texts(lines: &[TextLine]) -> Vec<String> {
    lines
        .iter()
        .map(|l| l.spans.iter().map(|s| s.text.as_str()).collect::<String>())
        .collect()
}

#[test]
fn job_id_of_array_task_and_plain_job() {
    assert_eq!(job("12", Some("3")).id(), "12_3");
    assert_eq!(job("12", None).id(), "12");
}

#[test]
fn fit_text_bottom_shows_last_lines_before_partial_line() {
    let lines = fit_text("a\nb\nc\npartial", 2, 10, ScrollAnchor::Bottom, 0, false);
    assert_eq!(texts(&lines), vec!["b", "c"]);
}

#[test]
fn fit_text_top_with_offset() {
    let lines = fit_text("a\nb\nc\n", 2, 10, ScrollAnchor::Top, 1, false);
    assert_eq!(texts(&lines), vec!["b", "c"]);
}

#[test]
fn fit_text_truncates_with_ellipsis() {
    let lines = fit_text("abcdefgh\n", 5, 4, ScrollAnchor::Top, 0, false);
    assert_eq!(texts(&lines), vec!["abc…"]);
    assert!(lines[0].spans[1].dim);
}

#[test]
fn fit_text_wraps_with_continuation_marker() {
    let lines = fit_text("abcdefgh\n", 5, 4, ScrollAnchor::Top, 0, true);
    assert_eq!(texts(&lines), vec!["abcd", "↪ ef", "↪ gh"]);
}

#[test]
fn fit_text_wrap_bottom_keeps_last_screen_lines() {
    let lines = fit_text("x\nabcdefgh\n", 2, 4, ScrollAnchor::Bottom, 0, true);
    assert_eq!(texts(&lines), vec!["↪ ef", "↪ gh"]);
}

#[test]
fn fit_text_splits_carriage_returns() {
    let lines = fit_text("one\rtwo\r\nthree\n", 5, 10, ScrollAnchor::Top, 0, false);
    assert_eq!(texts(&lines), vec!["one", "two", "three"]);
}

#[test]
fn fit_text_never_exceeds_view() {
    let s = "l1\nl2\nl3\nl4\nl5\n";
    for lines in 0..4 {
        let v = fit_text(s, lines, 3, ScrollAnchor::Bottom, 0, true);
        assert!(v.len() <= lines);
        for l in &v {
            let w: usize = l.spans.iter().map(|s| s.text.chars().count()).sum();
            assert!(w <= 3);
        }
    }
}

#[test]
fn resolve_path_substitutes_patterns() {
    let p = resolve_path("out/%x-%j_%a.%N.%u.%%.log", "100", "N/A", "101", "node1,node2", "bob", "sim", "/work");
    assert_eq!(p.unwrap(), "/work/out/sim-101_4294967294.node1.bob.%.log");
}

#[test]
fn resolve_path_array_task() {
    let p = resolve_path("slurm-%A_%a.out", "100", "7", "107", "n", "u", "x", "/w/");
    assert_eq!(p.unwrap(), "/w/slurm-100_7.out");
}

#[test]
fn resolve_path_absolute_and_default() {
    assert_eq!(
        resolve_path("/abs/file.out", "1", "N/A", "1", "n", "u", "x", "/w").unwrap(),
        "/abs/file.out"
    );
    assert_eq!(
        resolve_path("", "5", "N/A", "5", "n", "u", "x", "/w").unwrap(),
        "/w/slurm-5.out"
    );
    assert_eq!(
        resolve_path("", "5", "2", "6", "n", "u", "x", "/w").unwrap(),
        "/w/slurm-5_2.out"
    );
}

#[test]
fn squeue_format_lists_all_fields() {
    let f = squeue_format_arg();
    assert!(f.starts_with("jobid:###turm###,name:###turm###,"));
    assert!(f.ends_with("NodeList:###turm###,WorkDir:###turm###"));
    let args = squeue_command_args(&vec!["--me".to_string()]);
    assert_eq!(args[..4], ["--me", "--array", "--noheader", "--Format"]);
    assert_eq!(args[4], f);
}

fn squeue_line(fields: &[&str]) -> String {
    let mut s = String::new();
    for f in fields {
        s.push_str(f);
        s.push_str("###turm###");
    }
    s
}

#[test]
fn parse_squeue_output_reads_jobs_and_skips_bad_lines() {
    let fields = [
        "42", "train", "PENDING", "carol", "0:00", "1:00:00", "2024-01-01T00:00:00", "cpu=4",
        "gpu", "(null)", "/home/carol/%x-%j.out", "", "train.sh", "PD", "Priority", "42", "N/A",
        "gpu01", "/home/carol",
    ];
    let out = format!("  {}  \r\nbroken line\n", squeue_line(&fields));
    let jobs = parse_squeue_output_text(&out);
    assert_eq!(jobs.len(), 1);
    let j = &jobs[0];
    assert_eq!(j.id(), "42");
    assert_eq!(j.array_step, None);
    assert_eq!(j.reason.as_deref(), Some("Priority"));
    assert_eq!(j.stdout.as_deref(), Some("/home/carol/train-42.out"));
    assert_eq!(j.stderr.as_deref(), Some("/home/carol/slurm-42.out"));
    assert_eq!(j.state_compact, "PD");
}

#[test]
fn slurm_commands_and_labels() {
    let c = scancel_command("12", Some("KILL"));
    assert_eq!(c.program, "scancel");
    assert_eq!(c.args, vec!["--signal", "KILL", "12"]);
    assert_eq!(c.label, "scancel --signal KILL 12");
    let c = scancel_command("12", None);
    assert_eq!(c.label, "scancel 12");
    let c = scontrol_timelimit_command("7", "1:00:00");
    assert_eq!(c.args, vec!["update", "JobId=7", "TimeLimit=1:00:00"]);
    assert_eq!(c.label, "scontrol update JobId=7 TimeLimit=1:00:00");
}

#[test]
fn command_failure_report() {
    let f = command_failure("cmd".to_string(), Some(1), "out\n", "err  \n");
    assert_eq!(f.command, "cmd");
    assert_eq!(f.output, "Exit code: 1\n\nstdout:\nout\n\nstderr:\nerr");
    let f = command_failure("cmd".to_string(), None, "", "");
    assert_eq!(f.output, "Exit code: N/A\n\nNo output.");
    let f = command_failure("cmd".to_string(), Some(-3), "", "boom");
    assert_eq!(f.output, "Exit code: -3\n\nboom");
}

#[test]
fn signal_digits() {
    assert_eq!(signal_index_for_digit('1'), Some(0));
    assert_eq!(signal_index_for_digit('9'), Some(8));
    assert_eq!(signal_index_for_digit('0'), None);
    assert_eq!(signal_index_for_digit('x'), None);
}

#[test]
fn refresh_keeps_selected_job() {
    let mut s = AppState::new();
    s.handle(AppMessage::Jobs(vec![job("1", None), job("2", None), job("3", None)]));
    assert_eq!(s.list.selected, Some(0));
    s.handle(AppMessage::Key(ch('j')));
    s.handle(AppMessage::Key(ch('j')));
    assert_eq!(s.list.selected, Some(2));
    s.handle(AppMessage::Jobs(vec![job("3", None), job("4", None)]));
    assert_eq!(s.list.selected, Some(0));
    assert_eq!(s.selected_job_id().as_deref(), Some("3"));
    s.handle(AppMessage::Jobs(vec![]));
    assert_eq!(s.list.selected, None);
}

#[test]
fn refresh_falls_back_to_last_position() {
    let mut s = AppState::new();
    s.handle(AppMessage::Jobs(vec![job("1", None), job("2", None), job("3", None)]));
    s.handle(AppMessage::Key(ch('G')));
    assert_eq!(s.list.selected, Some(usize::MAX));
    s.handle(AppMessage::Key(key(KeyCode::Up)));
    assert_eq!(s.list.selected, Some(usize::MAX - 1));
    s.handle(AppMessage::Jobs(vec![job("7", None)]));
    assert_eq!(s.list.selected, Some(0));
    s.handle(AppMessage::Jobs(vec![job("1", None), job("2", None), job("3", None)]));
    s.list.selected = Some(2);
    s.handle(AppMessage::Jobs(vec![job("8", None), job("9", None)]));
    assert_eq!(s.list.selected, Some(1));
}

#[test]
fn cancel_dialog_flow() {
    let mut s = AppState::new();
    s.handle(AppMessage::Jobs(vec![job("5", Some("2"))]));
    assert!(s.handle(AppMessage::Key(ch('c'))).is_none());
    assert!(matches!(&s.dialog, Some(Dialog::ConfirmCancelJob(id)) if id == "5_2"));
    match s.handle(AppMessage::Key(ch('y'))) {
        Some(Effect::Scancel { id, signal }) => {
            assert_eq!(id, "5_2");
            assert_eq!(signal, None);
        }
        _ => panic!("expected scancel"),
    }
    assert!(s.dialog.is_none());
}

#[test]
fn signal_dialog_flow() {
    let mut s = AppState::new();
    s.handle(AppMessage::Jobs(vec![job("5", None)]));
    s.handle(AppMessage::Key(ch('C')));
    s.handle(AppMessage::Key(key(KeyCode::Up)));
    assert!(matches!(s.dialog, Some(Dialog::SelectCancelSignal { selected_signal: 0, .. })));
    for _ in 0..10 {
        s.handle(AppMessage::Key(key(KeyCode::Down)));
    }
    assert!(matches!(s.dialog, Some(Dialog::SelectCancelSignal { selected_signal: 7, .. })));
    s.handle(AppMessage::Key(ch('9')));
    assert!(matches!(s.dialog, Some(Dialog::SelectCancelSignal { selected_signal: 7, .. })));
    s.handle(AppMessage::Key(ch('2')));
    match s.handle(AppMessage::Key(key(KeyCode::Enter))) {
        Some(Effect::Scancel { id, signal }) => {
            assert_eq!(id, "5");
            assert_eq!(signal.as_deref(), Some("INT"));
        }
        _ => panic!("expected scancel"),
    }
}

#[test]
fn time_limit_dialog_flow() {
    let mut s = AppState::new();
    s.handle(AppMessage::Jobs(vec![job("5", None)]));
    match s.handle(AppMessage::Key(ch('t'))) {
        Some(Effect::OpenTimeLimitInput(t)) => assert_eq!(t, "2:00:00"),
        _ => panic!("expected editor"),
    }
    assert!(matches!(s.handle(AppMessage::Key(ch('x'))), Some(Effect::ForwardToInput)));
    s.set_time_limit_input("   ".to_string());
    assert!(s.handle(AppMessage::Key(key(KeyCode::Enter))).is_none());
    assert!(s.dialog.is_some());
    s.set_time_limit_input(" 3:00:00 ".to_string());
    match s.handle(AppMessage::Key(key(KeyCode::Enter))) {
        Some(Effect::UpdateTimeLimit { id, time_limit }) => {
            assert_eq!(id, "5");
            assert_eq!(time_limit, "3:00:00");
        }
        _ => panic!("expected update"),
    }
    assert!(s.dialog.is_none());
}

#[test]
fn escape_closes_and_failure_shows() {
    let mut s = AppState::new();
    s.handle(AppMessage::Jobs(vec![job("5", None)]));
    s.handle(AppMessage::Key(ch('c')));
    assert!(s.handle(AppMessage::Key(key(KeyCode::Esc))).is_none());
    assert!(s.dialog.is_none());
    s.show_command_failure("scancel 5".to_string(), "Exit code: 1".to_string());
    assert!(matches!(s.dialog, Some(Dialog::CommandError { .. })));
    s.handle(AppMessage::Key(key(KeyCode::Enter)));
    assert!(s.dialog.is_none());
}

#[test]
fn dialog_blocks_mouse() {
    let mut s = AppState::new();
    s.handle(AppMessage::Jobs(vec![job("1", None), job("2", None)]));
    s.handle(AppMessage::Key(ch('c')));
    s.handle(AppMessage::MouseClick(1));
    assert_eq!(s.list.selected, Some(0));
    s.handle(AppMessage::MouseWheel {
        target: MouseScrollTarget::Output,
        direction: MouseWheelDirection::Up,
        amount: 3,
    });
    assert_eq!(s.job_output_offset, 0);
}

#[test]
fn output_scrolling_and_toggles() {
    let mut s = AppState::new();
    s.handle(AppMessage::Key(key(KeyCode::PageUp)));
    assert_eq!(s.job_output_offset, 1);
    s.handle(AppMessage::Key(KeyPress { code: KeyCode::PageUp, control: false, shift: true, alt: false }));
    assert_eq!(s.job_output_offset, 51);
    s.handle(AppMessage::Key(key(KeyCode::PageDown)));
    assert_eq!(s.job_output_offset, 50);
    s.handle(AppMessage::Key(key(KeyCode::Home)));
    assert_eq!(s.job_output_offset, 0);
    assert_eq!(s.job_output_anchor, ScrollAnchor::Top);
    s.handle(AppMessage::Key(key(KeyCode::PageUp)));
    assert_eq!(s.job_output_offset, 0);
    s.handle(AppMessage::Key(ch('o')));
    assert_eq!(s.output_file_view, OutputFileView::Stderr);
    s.handle(AppMessage::Key(ch('o')));
    assert_eq!(s.output_file_view, OutputFileView::Stdout);
    s.handle(AppMessage::Key(ch('w')));
    assert!(s.job_output_wrap);
}

#[test]
fn output_path_follows_selection_and_view() {
    let mut s = AppState::new();
    assert_eq!(s.output_path(), None);
    s.handle(AppMessage::Jobs(vec![job("1", None)]));
    assert_eq!(s.output_path().as_deref(), Some("/out/1.out"));
    s.handle(AppMessage::Key(ch('o')));
    assert_eq!(s.output_path().as_deref(), Some("/out/1.err"));
    s.handle(AppMessage::JobOutput(Err(FileWatcherError::File("gone".to_string()))));
    match &s.job_output {
        Err(e) => assert_eq!(e.message(), "Read error: gone"),
        Ok(_) => panic!("expected error"),
    }
}

#[test]
fn input_decisions() {
    let mut s = AppState::new();
    s.handle(AppMessage::Jobs(vec![job("1", None), job("2", None)]));
    s.job_list_area = Area { x: 0, y: 0, width: 20, height: 10 };
    s.job_output_area = Area { x: 20, y: 0, width: 20, height: 10 };
    assert_eq!(s.decide_input(InputEvent::Key(ch('q'))), InputDecision::Quit);
    assert_eq!(s.job_index_at(3, 2), Some(1));
    assert_eq!(s.job_index_at(3, 5), None);
    assert_eq!(s.job_index_at(0, 1), None);
    assert_eq!(s.decide_input(InputEvent::MouseLeftDown { column: 3, row: 2 }), InputDecision::Click(1));
    assert_eq!(s.decide_input(InputEvent::MouseLeftDown { column: 3, row: 1 }), InputDecision::Ignore);
    let wheel = InputEvent::MouseScroll { direction: MouseWheelDirection::Down, column: 25, row: 3 };
    assert_eq!(
        s.decide_input(wheel),
        InputDecision::Wheel { target: MouseScrollTarget::Output, direction: MouseWheelDirection::Down }
    );
    assert_eq!(s.merge_wheel(MouseScrollTarget::Output, MouseWheelDirection::Down, 4, wheel), Some(5));
    assert_eq!(s.merge_wheel(MouseScrollTarget::Jobs, MouseWheelDirection::Down, 4, wheel), None);
    assert_eq!(s.decide_input(InputEvent::Resize), InputDecision::Redraw);
    assert_eq!(s.decide_input(InputEvent::Paste), InputDecision::Ignore);
}

#[test]
fn mouse_wheel_scrolls_job_selection() {
    let mut s = AppState::new();
    s.handle(AppMessage::Jobs(vec![job("1", None), job("2", None)]));
    s.handle(AppMessage::MouseWheel { target: MouseScrollTarget::Jobs, direction: MouseWheelDirection::Down, amount: 5 });
    assert_eq!(s.list.selected, Some(5));
    s.handle(AppMessage::MouseWheel { target: MouseScrollTarget::Jobs, direction: MouseWheelDirection::Up, amount: 9 });
    assert_eq!(s.list.selected, Some(0));
    s.job_list_height = 10;
    s.handle(AppMessage::Key(KeyPress { code: KeyCode::Char('d'), control: true, shift: false, alt: false }));
    assert_eq!(s.list.selected, Some(5));
}

#[test]
fn file_watcher_decisions() {
    let mut w = FileWatcherState::new();
    let plan = w.select_file(Some("/a".to_string()));
    assert_eq!(plan.unwatch, None);
    assert_eq!(plan.read.as_deref(), Some("/a"));
    w.record_watch(false);
    assert_eq!(w.watch_candidate(false), None);
    assert_eq!(w.watch_candidate(true).as_deref(), Some("/a"));
    w.record_watch(true);
    let plan = w.select_file(None);
    assert_eq!(plan.unwatch.as_deref(), Some("/a"));
    assert_eq!(plan.read, None);
    assert!(!w.watching);
}

#[test]
fn dialog_layout_helpers() {
    let a = centered_dialog_area(80, 3, Area { x: 0, y: 0, width: 100, height: 20 });
    assert_eq!(a, Area { x: 10, y: 8, width: 80, height: 3 });
    let a = centered_dialog_area(80, 12, Area { x: 0, y: 0, width: 40, height: 10 });
    assert_eq!(a, Area { x: 0, y: 0, width: 40, height: 10 });
    assert_eq!(time_limit_prompt_width("12"), 27);
    assert_eq!(visible_input("abcdef", 2, 3), "cde");
    assert_eq!(visible_input("abc", 5, 3), "");
    assert_eq!(time_limit_cursor(Area { x: 1, y: 4, width: 78, height: 1 }, 27, 5, 2), (31, 4));
    assert_eq!(time_limit_cursor(Area { x: 1, y: 4, width: 10, height: 1 }, 27, 5, 2), (10, 4));
    let frame = dialog_frame(&Dialog::CommandError { command: "c".to_string(), output: "a\nb".to_string() }, "");
    assert_eq!(frame.height, 6);
    match frame.content {
        DialogContent::Text(t) => assert_eq!(t, "Command: c\n\na\nb"),
        _ => panic!("expected text"),
    }
    let frame = dialog_frame(&Dialog::SelectCancelSignal { id: "3".to_string(), selected_signal: 1 }, "");
    match frame.content {
        DialogContent::Lines(lines) => {
            assert_eq!(lines.len(), 10);
            assert_eq!(lines[3].spans[0].text, "2. ");
            assert_eq!(lines[3].spans[1].text, "INT");
        }
        _ => panic!("expected lines"),
    }
}

#[test]
fn view_helpers() {
    assert_eq!(pad_end_str("ab", 4), "ab  ");
    assert_eq!(pad_end_str("abcdef", 4), "abcd");
    assert_eq!(pad_start_str("ab", 4), "  ab");
    assert_eq!(jobs_title(12), "─Jobs (12)");
    let t = log_title(OutputFileView::Stdout, ScrollAnchor::Top, 3);
    assert_eq!(t.spans[2].text, "[T+3]");
    let t = log_title(OutputFileView::Stderr, ScrollAnchor::Bottom, 0);
    assert_eq!(t.spans[1].text, "stderr");
    assert_eq!(t.spans[2].text, "");
    let jobs = vec![job("1", None), job("123", Some("4"))];
    let c = job_columns(&jobs);
    assert_eq!(c.id, 5);
    let row = job_row(&jobs[0], c);
    let text: String = row.spans.iter().map(|s| s.text.as_str()).collect();
    assert_eq!(text, "R 1     main alice 1:00 name");
}

#[test]
fn followed_file_sends_only_changes() {
    let mut f = FollowedFile::new();
    assert!(f.set_file_path(None).is_none());
    match f.set_file_path(Some("/out/1.out".to_string())) {
        Some(FileWatcherMessage::FilePath(Some(p))) => assert_eq!(p, "/out/1.out"),
        _ => panic!("expected a request for the new file"),
    }
    assert!(f.set_file_path(Some("/out/1.out".to_string())).is_none());
    // The same path written differently is not a change.
    assert!(f.set_file_path(Some("/out//1.out".to_string())).is_none());
    assert_eq!(f.file_path.as_deref(), Some("/out/1.out"));
    match f.set_file_path(Some("/out/2.out".to_string())) {
        Some(FileWatcherMessage::FilePath(Some(p))) => assert_eq!(p, "/out/2.out"),
        _ => panic!("expected a request for the other file"),
    }
    assert!(matches!(f.set_file_path(None), Some(FileWatcherMessage::FilePath(None))));
    assert!(f.file_path.is_none());
}

#[test]
fn time_limit_layout_scrolls_to_the_cursor() {
    let inner = Area { x: 11, y: 9, width: 78, height: 1 };
    // A short value fits: nothing scrolls and the cursor follows the text.
    let l = time_limit_layout("1", "2:00:00", 7, inner);
    assert_eq!(l.prompt_width, 26);
    assert_eq!(l.visible, "2:00:00");
    assert_eq!(l.cursor, (11 + 26 + 7, 9));
    // 60 characters in a field of 52 columns, cursor at the end: the field
    // scrolls by 8 and the cursor stops at the last inside column.
    let value: String = (0..60).map(|i| char::from(b'a' + (i % 26) as u8)).collect();
    let l = time_limit_layout("1", &value, 60, inner);
    assert_eq!(l.visible, value.chars().skip(8).collect::<String>());
    assert_eq!(l.cursor, (11 + 77, 9));
    // Cursor at the start: no scroll, the first 52 characters show.
    let l = time_limit_layout("1", &value, 0, inner);
    assert_eq!(l.visible, value.chars().take(52).collect::<String>());
    assert_eq!(l.cursor, (11 + 26, 9));
}

#[test]
fn wheel_turns_add_up() {
    let wheel = |target, direction, amount| AppMessage::MouseWheel { target, direction, amount };
    for (target, direction) in [
        (MouseScrollTarget::Jobs, MouseWheelDirection::Down),
        (MouseScrollTarget::Jobs, MouseWheelDirection::Up),
        (MouseScrollTarget::Output, MouseWheelDirection::Down),
        (MouseScrollTarget::Output, MouseWheelDirection::Up),
    ] {
        let mut two = AppState::new();
        two.handle(AppMessage::Jobs(vec![job("1", None), job("2", None)]));
        two.handle(AppMessage::Key(key(KeyCode::Home)));
        two.handle(AppMessage::MouseWheel {
            target: MouseScrollTarget::Output,
            direction: MouseWheelDirection::Down,
            amount: 5,
        });
        let mut one = AppState::new();
        one.handle(AppMessage::Jobs(vec![job("1", None), job("2", None)]));
        one.handle(AppMessage::Key(key(KeyCode::Home)));
        one.handle(AppMessage::MouseWheel {
            target: MouseScrollTarget::Output,
            direction: MouseWheelDirection::Down,
            amount: 5,
        });
        two.handle(wheel(target, direction, 3));
        two.handle(wheel(target, direction, 4));
        one.handle(wheel(target, direction, 7));
        assert_eq!(two.list, one.list);
        assert_eq!(two.job_output_offset, one.job_output_offset);
    }
}

#[test]
fn click_selects_the_clicked_job() {
    let mut s = AppState::new();
    s.handle(AppMessage::Jobs(vec![job("1", None), job("2", None), job("3", None)]));
    s.job_list_area = Area { x: 0, y: 0, width: 20, height: 10 };
    match s.decide_input(InputEvent::MouseLeftDown { column: 4, row: 3 }) {
        InputDecision::Click(i) => {
            assert_eq!(i, 2);
            s.handle(AppMessage::MouseClick(i));
            assert_eq!(s.list.selected, Some(2));
            assert_eq!(s.selected_job_id().as_deref(), Some("3"));
        }
        other => panic!("expected a click, got {other:?}"),
    }
}

#[test]
fn fit_text_empty_rows_have_no_spans() {
    let lines = fit_text("a\n\nb\n", 5, 10, ScrollAnchor::Top, 0, false);
    assert_eq!(texts(&lines), vec!["a", "", "b"]);
    assert_eq!(lines[0].spans.len(), 1);
    assert!(lines[1].spans.is_empty());
    let lines = fit_text("\n\n", 5, 10, ScrollAnchor::Top, 0, true);
    assert_eq!(lines.len(), 1);
    assert!(lines[0].spans.is_empty());
}

#[test]
fn filename_patterns_are_substituted_left_to_right() {
    let ctx = FilenameContext {
        array_master: "100".to_string(),
        array_id: "7".to_string(),
        id: "107".to_string(),
        host: "node1,node2".to_string(),
        user: "bob".to_string(),
        name: "sim".to_string(),
    };
    let sub = |p: &str| substitute_filename_patterns(p, &ctx);
    assert_eq!(sub("%A_%a-%J-%j"), "100_7-107-107");
    assert_eq!(sub("%N.%n.%t.%s.%u.%x"), "node1.0.0.batch.bob.sim");
    // `%%` is one pattern: the `A` after it stays.
    assert_eq!(sub("%%A"), "%A");
    // Unknown codes and a trailing `%` are kept.
    assert_eq!(sub("%q%"), "%q%");
    assert_eq!(sub("100%%"), "100%");
    assert_eq!(sub(""), "");
}

#[test]
fn job_list_border_is_plain_under_a_dialog() {
    let mut s = AppState::new();
    let b = job_list_border(&s);
    assert_eq!(b.fg, Some(Color::Green));
    s.handle(AppMessage::Jobs(vec![job("1", None)]));
    s.handle(AppMessage::Key(ch('c')));
    let b = job_list_border(&s);
    assert_eq!(b.fg, None);
    assert_eq!(b.bg, None);
}
