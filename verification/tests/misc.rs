use twinpane::cp_types::{Cp_error, ExistingPathDilemma, UpdateInfo};
use twinpane::find::{find_command_args, find_outcome, show_popup_text, FindOutcome};
use twinpane::horizontal_line::{HorizontalLine, LineStyle};
use twinpane::server::{copy_request_line, parse_server_request, server_reply, ServerRequest};

#[test]
fn horizontal_line() {
    let l = HorizontalLine::new("─", 81);
    assert_eq!(l.achar(), "─");
    assert_eq!(l.length(), 81);
    assert!(l.draws_on(10));
    assert!(!l.draws_on(0));
    assert_eq!(l.style(true, true), LineStyle::Highlight);
    assert_eq!(l.style(true, false), LineStyle::Primary);
    assert_eq!(l.style(false, true), LineStyle::Secondary);
}

#[test]
fn server_protocol() {
    assert_eq!(parse_server_request("server_stop\n"), ServerRequest::Stop);
    assert_eq!(
        parse_server_request("/a/x:/b/x:\n"),
        ServerRequest::Copy { source: String::from("/a/x"), target: String::from("/b/x") }
    );
    assert_eq!(
        parse_server_request("src:dst"),
        ServerRequest::Copy { source: String::from("src"), target: String::from("dst") }
    );
    let line = copy_request_line("/a/x", "/b/x");
    assert_eq!(line, "/a/x:/b/x:\n");
    assert_eq!(
        parse_server_request(&line),
        ServerRequest::Copy { source: String::from("/a/x"), target: String::from("/b/x") }
    );
    assert_eq!(server_reply("/a/x", &None), "Copying finished: /a/x!\n");
    assert_eq!(
        server_reply("/a/x", &Some(Cp_error::CP_COULDNOT_START)),
        "Copying finished with error: Could not start cp process!\n"
    );
}

#[test]
fn find_dialog() {
    let args = find_command_args("1.txt", "/home");
    assert_eq!(args, vec![String::from("--glob"), String::from("1.txt"), String::from("/home")]);
    assert_eq!(find_outcome(String::from("bad glob"), "x"), FindOutcome::Errors(String::from("bad glob")));
    assert_eq!(
        find_outcome(String::new(), "/home/1.txt\n/home/a/1.txt\n"),
        FindOutcome::Results(vec![String::from("/home/1.txt"), String::from("/home/a/1.txt")])
    );
    assert_eq!(show_popup_text(""), None);
    assert_eq!(show_popup_text("Bob"), Some(String::from("Hello Bob!")));
}

#[test]
fn plain_types() {
    let u = UpdateInfo { table_view_name: String::from("LeftPanel_tableview"), path: String::from("/tmp") };
    assert_eq!(u.clone(), u);
    assert_ne!(ExistingPathDilemma::Skip(true), ExistingPathDilemma::Skip(false));
}
