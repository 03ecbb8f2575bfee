use std::cmp::Ordering;
use twinpane::copy_policy::{compare_target, copy_step, CopyAction, CopyEvent, CopyPolicy, TargetComparison};
use twinpane::cp_types::{copy_job, Cp_error, ExistingPathDilemma, EXIT_PROCESS_STATUS, InterruptSignal};
use twinpane::cp_utils::{
    compare_paths_for_modification_time, compare_paths_for_size, copy_direction, format_file_info,
    get_active_table_name, items_to_copy, new_total_items_text, parse_u64_or_zero,
    path_info_or_error, prepare_cp_jobs, FileFacts, PanelSide,
};
use twinpane::process::{
    apply_monitor_action, monitor_step, read_std_stream, should_read_output, stops_monitoring,
    MonitorAction, MonitorEvent, StdStream, WaitOutcome,
};

const OLDER: TargetComparison = TargetComparison { target_older: true, target_newer: false, sizes_differ: false };
const NEWER: TargetComparison = TargetComparison { target_older: false, target_newer: true, sizes_differ: true };

fn run_job(p: &CopyPolicy, exists: bool, c: TargetComparison, answer: Option<ExistingPathDilemma>) -> (CopyPolicy, CopyAction, bool) {
    let mut asked = false;
    let (mut p, mut a) = copy_step(p, &CopyEvent::JobStarted);
    loop {
        let event = match a {
            CopyAction::CheckTarget => CopyEvent::TargetChecked(exists),
            CopyAction::CompareTarget => CopyEvent::TargetCompared(c),
            CopyAction::AskUser => {
                asked = true;
                CopyEvent::UserAnswered(c, answer)
            }
            _ => return (p, a, asked),
        };
        let (q, b) = copy_step(&p, &event);
        p = q;
        a = b;
    }
}

#[test]
fn missing_target_is_copied() {
    let p = CopyPolicy::new();
    let (q, a, asked) = run_job(&p, false, OLDER, None);
    assert_eq!(a, CopyAction::Copy { show_copy_dialog: true });
    assert_eq!(q, p);
    assert!(!asked);
}

#[test]
fn existing_target_asks_the_user() {
    let p = CopyPolicy::new();
    let (_, a, asked) = run_job(&p, true, OLDER, Some(ExistingPathDilemma::Skip(false)));
    assert!(asked);
    assert_eq!(a, CopyAction::Skip);
    let (_, a, _) = run_job(&p, true, OLDER, None);
    assert_eq!(a, CopyAction::Abort);
    let (_, a, _) = run_job(&p, true, OLDER, Some(ExistingPathDilemma::Overwrite(false)));
    assert_eq!(a, CopyAction::Copy { show_copy_dialog: true });
    let (_, a, _) = run_job(&p, true, OLDER, Some(ExistingPathDilemma::ReplaceNewer(false)));
    assert_eq!(a, CopyAction::Skip);
    let (_, a, _) = run_job(&p, true, NEWER, Some(ExistingPathDilemma::ReplaceNewer(false)));
    assert_eq!(a, CopyAction::Copy { show_copy_dialog: true });
    let (_, a, _) = run_job(&p, true, NEWER, Some(ExistingPathDilemma::DifferentSizes(false)));
    assert_eq!(a, CopyAction::Copy { show_copy_dialog: true });
    let (_, a, _) = run_job(&p, true, OLDER, Some(ExistingPathDilemma::DifferentSizes(false)));
    assert_eq!(a, CopyAction::Skip);
}

#[test]
fn overwrite_all_is_remembered() {
    let p = CopyPolicy::new();
    let (q, a, _) = run_job(&p, true, OLDER, Some(ExistingPathDilemma::Overwrite(true)));
    assert_eq!(a, CopyAction::Copy { show_copy_dialog: true });
    assert!(q.overwrite_all);
    let (r, a, asked) = run_job(&q, true, NEWER, None);
    assert_eq!(a, CopyAction::Copy { show_copy_dialog: false });
    assert!(!asked);
    assert_eq!(r, q);
}

#[test]
fn skip_all_is_remembered() {
    let p = CopyPolicy::new();
    let (q, a, _) = run_job(&p, true, OLDER, Some(ExistingPathDilemma::Skip(true)));
    assert_eq!(a, CopyAction::Skip);
    assert!(q.skip_all);
    let (_, a, asked) = run_job(&q, true, NEWER, None);
    assert_eq!(a, CopyAction::Skip);
    assert!(!asked);
    let (_, a, _) = run_job(&q, false, NEWER, None);
    assert_eq!(a, CopyAction::Copy { show_copy_dialog: true });
}

#[test]
fn replace_older_all_is_remembered() {
    let p = CopyPolicy::new();
    let (q, a, _) = run_job(&p, true, NEWER, Some(ExistingPathDilemma::ReplaceOlder(true)));
    assert_eq!(a, CopyAction::Skip);
    assert!(q.replace_older_all);
    let (_, a, asked) = run_job(&q, true, OLDER, None);
    assert_eq!(a, CopyAction::Copy { show_copy_dialog: true });
    assert!(!asked);
    let (_, _, asked) = run_job(&q, true, NEWER, Some(ExistingPathDilemma::Skip(false)));
    assert!(asked);
}

#[test]
fn target_comparison() {
    let c = compare_target(Ordering::Greater, Ordering::Equal);
    assert_eq!(c, TargetComparison { target_older: true, target_newer: false, sizes_differ: false });
    let c = compare_target(Ordering::Less, Ordering::Less);
    assert_eq!(c, TargetComparison { target_older: false, target_newer: true, sizes_differ: true });
    let c = compare_target(Ordering::Equal, Ordering::Greater);
    assert_eq!(c, TargetComparison { target_older: false, target_newer: false, sizes_differ: true });
}

#[test]
fn compare_sizes_and_times() {
    assert_eq!(compare_paths_for_size(Some(1), Some(2)), Ordering::Less);
    assert_eq!(compare_paths_for_size(Some(3), Some(2)), Ordering::Greater);
    assert_eq!(compare_paths_for_size(Some(2), Some(2)), Ordering::Equal);
    assert_eq!(compare_paths_for_size(None, Some(2)), Ordering::Equal);
    assert_eq!(compare_paths_for_size(Some(1), None), Ordering::Equal);
    assert_eq!(compare_paths_for_modification_time(Some(-5), Some(7)), Ordering::Less);
    assert_eq!(compare_paths_for_modification_time(Some(9), Some(7)), Ordering::Greater);
    assert_eq!(compare_paths_for_modification_time(None, None), Ordering::Equal);
}

#[test]
fn panels_and_jobs() {
    assert_eq!(get_active_table_name(true), PanelSide::Right);
    assert_eq!(get_active_table_name(false), PanelSide::Left);
    assert_eq!(copy_direction(PanelSide::Left), (PanelSide::Left, PanelSide::Right));
    assert_eq!(copy_direction(PanelSide::Right), (PanelSide::Right, PanelSide::Left));
    let items = items_to_copy(vec![], (4, String::from("/a/f.txt")));
    assert_eq!(items, vec![(4, String::from("/a/f.txt"))]);
    let items = items_to_copy(vec![(1, String::from("/a/x")), (2, String::from("/a/y/"))], (4, String::from("/a/f.txt")));
    assert_eq!(items.len(), 2);
    let jobs = prepare_cp_jobs(&items, "/dest").unwrap();
    assert_eq!(jobs, vec![
        copy_job { source: String::from("/a/x"), target: String::from("/dest/x"), inx: 1 },
        copy_job { source: String::from("/a/y/"), target: String::from("/dest/y"), inx: 2 },
    ]);
    assert_eq!(prepare_cp_jobs(&vec![(0, String::from("/a/x")), (1, String::from("/"))], "/dest"), None);
    assert_eq!(prepare_cp_jobs(&vec![(0, String::from(".."))], "/dest"), None);
}

#[test]
fn total_items_counter() {
    assert_eq!(new_total_items_text("3", 2), "5");
    assert_eq!(new_total_items_text("", 4), "4");
    assert_eq!(new_total_items_text("+7", 1), "8");
    assert_eq!(new_total_items_text("abc", 1), "1");
    assert_eq!(new_total_items_text("-1", 1), "1");
    assert_eq!(new_total_items_text("18446744073709551616", 1), "1");
    assert_eq!(parse_u64_or_zero("18446744073709551615"), u64::MAX);
    assert_eq!(parse_u64_or_zero("+"), 0);
    assert_eq!(parse_u64_or_zero("012"), 12);
}

#[test]
fn file_info_text() {
    let facts = FileFacts {
        file_type: String::from("FileType { is_file: true }"),
        accessed: Some(String::from("01-Jan-24 10:00")),
        created: None,
        modified: Some(String::from("02-Feb-24 11:30")),
        size: 1234,
        mode: 33188,
    };
    let expected = format!(
        "Path: /tmp/x\nFile type: FileType {{ is_file: true }}\nAccess time: {:>25}\nCreated time: UNKNOWN\nModified time: {:>23}\nSize in bytes: {:>9}\nmode: {:>22}",
        "01-Jan-24 10:00", "02-Feb-24 11:30", 1234, 33188
    );
    assert_eq!(format_file_info("/tmp/x", &facts), expected);
}

#[test]
fn path_info_errors_name_the_source() {
    assert_eq!(path_info_or_error(Ok(String::from("info")), "/s"), "info");
    assert_eq!(
        path_info_or_error(Err(String::from("denied")), "/s"),
        "Couldn't get info for /s, reason: denied"
    );
}

#[test]
fn monitor_reactions() {
    assert_eq!(monitor_step(MonitorEvent::Interrupt(Some(InterruptSignal::Stop))), MonitorAction::Suspend);
    assert_eq!(monitor_step(MonitorEvent::Interrupt(Some(InterruptSignal::Continue))), MonitorAction::Resume);
    assert_eq!(monitor_step(MonitorEvent::Interrupt(Some(InterruptSignal::Terminate))), MonitorAction::Cancel);
    assert_eq!(monitor_step(MonitorEvent::Interrupt(Some(InterruptSignal::Other))), MonitorAction::Wait);
    assert_eq!(monitor_step(MonitorEvent::Interrupt(None)), MonitorAction::Wait);
    assert_eq!(monitor_step(MonitorEvent::Tick(WaitOutcome::Exited)), MonitorAction::Finished);
    assert_eq!(monitor_step(MonitorEvent::Tick(WaitOutcome::Running)), MonitorAction::Wait);
    assert_eq!(
        monitor_step(MonitorEvent::Tick(WaitOutcome::Failed(String::from("x")))),
        MonitorAction::WaitFailed(String::from("x"))
    );
    assert!(stops_monitoring(&MonitorAction::Cancel));
    assert!(stops_monitoring(&MonitorAction::Finished));
    assert!(!stops_monitoring(&MonitorAction::Suspend));
    assert!(!stops_monitoring(&MonitorAction::Wait));
}

#[test]
fn exit_status_updates() {
    let mut s = EXIT_PROCESS_STATUS::EXIT_STATUS_SUCCESS;
    apply_monitor_action(&mut s, &MonitorAction::Finished);
    assert_eq!(s, EXIT_PROCESS_STATUS::EXIT_STATUS_SUCCESS);
    assert!(should_read_output(&s));
    read_std_stream(&mut s, Ok(String::new()), StdStream::Stderr);
    assert_eq!(s, EXIT_PROCESS_STATUS::EXIT_STATUS_SUCCESS);
    read_std_stream(&mut s, Ok(String::from("cp: denied")), StdStream::Stdout);
    assert_eq!(s, EXIT_PROCESS_STATUS::EXIT_STATUS_ERROR(String::from("cp: denied")));
    assert!(!should_read_output(&s));
    let mut t = EXIT_PROCESS_STATUS::EXIT_STATUS_SUCCESS;
    read_std_stream(&mut t, Err(String::from("broken")), StdStream::Stderr);
    assert_eq!(t, EXIT_PROCESS_STATUS::COULD_NOT_READ_STDERR(String::from("broken")));
    read_std_stream(&mut t, Err(String::from("gone")), StdStream::Stdout);
    assert_eq!(t, EXIT_PROCESS_STATUS::COULD_NOT_READ_STDOUT(String::from("gone")));
    let mut u = EXIT_PROCESS_STATUS::EXIT_STATUS_SUCCESS;
    apply_monitor_action(&mut u, &MonitorAction::Cancel);
    assert_eq!(u, EXIT_PROCESS_STATUS::CANCELLED);
    apply_monitor_action(&mut u, &MonitorAction::WaitFailed(String::from("no child")));
    assert_eq!(u, EXIT_PROCESS_STATUS::EXIT_STATUS_ERROR(String::from("Could not wait: no child")));
    assert!(!EXIT_PROCESS_STATUS::COULD_NOT_START.is_success());
}

#[test]
fn cp_error_messages() {
    assert_eq!(Cp_error::CP_SOURCE_DOESNOT_EXIST.message(), "Source does not exist");
    assert_eq!(Cp_error::CP_TARGET_DOESNOT_EXIST.message(), "Target does not exist");
    assert_eq!(Cp_error::CP_COULDNOT_START.message(), "Could not start cp process");
    assert_eq!(Cp_error::CP_COULDNOT_READ_STDERR.message(), "Could not read stderr");
    assert_eq!(Cp_error::CP_COULDNOT_READ_STDOUT.message(), "Could not read stdout");
    assert_eq!(Cp_error::CP_EXIT_STATUS_ERROR(String::from("x")).message(), "");
    assert_eq!(Cp_error::CP_EXIT_STATUS_SUCCESS.message(), "");
}
