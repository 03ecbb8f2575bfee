//! The line protocol between the copy client and the copy server: the client sends
//! "source:target:\n", the server answers with the outcome; "server_stop\n" ends it.

use vstd::prelude::*;
use crate::cp_types::{Cp_error, cp_error_message};
use crate::text::{chars_of, push_all, split_fields, split_fields_chars, string_of, views};

verus! {

/// What the server was asked.
#[derive(Clone, Debug, PartialEq, Eq)]
pub enum ServerRequest {
    Stop,
    Copy { source: String, target: String },
}

pub open spec fn stop_line() -> Seq<char> {
    "server_stop\n"@
}

/// A received line is a request the server can serve: the stop line, or one with a ':'
/// that separates source and target.
pub open spec fn servable(line: Seq<char>) -> bool {
    line == stop_line() || split_fields(line, ':').len() >= 2
}

/// The request for the line: stop, or a copy of the first ':'-separated field to the
/// second.
pub open spec fn request_of(line: Seq<char>) -> (Option<(Seq<char>, Seq<char>)>) {
    if line == stop_line() {
        None
    } else {
        Some((split_fields(line, ':')[0], split_fields(line, ':')[1]))
    }
}

/// The line the client sends to copy `source` to `target`.
pub open spec fn request_line(source: Seq<char>, target: Seq<char>) -> Seq<char> {
    source + ":"@ + target + ":\n"@
}

/// The server's answer for a copy of `source`, with its error if it failed.
pub open spec fn reply_text(source: Seq<char>, error: Option<Cp_error>) -> Seq<char> {
    match error {
        Some(e) => "Copying finished with error: "@ + cp_error_message(e) + "!\n"@,
        None => "Copying finished: "@ + source + "!\n"@,
    }
}

impl ServerRequest {
    pub open spec fn view(&self) -> Option<(Seq<char>, Seq<char>)> {
        match self {
            ServerRequest::Stop => None,
            ServerRequest::Copy { source, target } => Some((source@, target@)),
        }
    }
}

fn is_stop_line(cs: &Vec<char>) -> (b: bool)
    ensures
        b == (cs@ == stop_line()),
{
    let expected = chars_of("server_stop\n");
    if cs.len() != expected.len() {
        return false;
    }
    let mut i: usize = 0;
    while i < cs.len()
        invariant
            cs@.len() == expected@.len(),
            expected@ == stop_line(),
            i <= cs.len(),
            forall|j: int| 0 <= j < i ==> cs@[j] == expected@[j],
        decreases cs.len() - i,
    {
        if cs[i] != expected[i] {
            return false;
        }
        i = i + 1;
    }
    assert(cs@ == expected@);
    true
}

/// Reads a line received by the server.
pub fn parse_server_request(line: &str) -> (req: ServerRequest)
    requires
        servable(line@),
    ensures
        req@ == request_of(line@),
{
    let cs = chars_of(line);
    if is_stop_line(&cs) {
        ServerRequest::Stop
    } else {
        let fields = split_fields_chars(&cs, ':');
        assert(views(fields@)[0] == fields@[0]@);
        assert(views(fields@)[1] == fields@[1]@);
        let source = string_of(&fields[0]);
        let target = string_of(&fields[1]);
        ServerRequest::Copy { source, target }
    }
}

/// The line the client sends: source, ':', target, ':', newline.
pub fn copy_request_line(source: &str, target: &str) -> (line: String)
    ensures
        line@ == request_line(source@, target@),
{
    let mut line = String::from_str(source);
    push_all(&mut line, ":");
    push_all(&mut line, target);
    push_all(&mut line, ":\n");
    line
}

/// The server's answer after copying `source`.
pub fn server_reply(source: &str, error: &Option<Cp_error>) -> (reply: String)
    ensures
        reply@ == reply_text(source@, *error),
{
    match error {
        Some(e) => {
            let mut r = String::from_str("Copying finished with error: ");
            let m = e.message();
            push_all(&mut r, m.as_str());
            push_all(&mut r, "!\n");
            r
        },
        None => {
            let mut r = String::from_str("Copying finished: ");
            push_all(&mut r, source);
            push_all(&mut r, "!\n");
            r
        },
    }
}

/// What the client sends is understood by the server as the same copy, for source and
/// target paths without ':'.
pub proof fn lemma_request_roundtrip(source: Seq<char>, target: Seq<char>)
    requires
        forall|i: int| 0 <= i < source.len() ==> source[i] != ':',
        forall|i: int| 0 <= i < target.len() ==> target[i] != ':',
    ensures
        servable(request_line(source, target)),
        request_of(request_line(source, target)) == Some((source, target)),
{
    reveal_strlit(":");
    reveal_strlit(":\n");
    reveal_strlit("server_stop\n");
    let nl: Seq<char> = seq!['\n'];
    let line = request_line(source, target);
    assert(line == source + seq![':'] + (target + seq![':'] + nl));
    crate::text::lemma_split_fields_concat(source, ':', target + seq![':'] + nl);
    crate::text::lemma_split_fields_concat(target, ':', nl);
    crate::text::lemma_split_fields_single(source, ':');
    crate::text::lemma_split_fields_single(target, ':');
    crate::text::lemma_split_fields_single(nl, ':');
    let fs = split_fields(line, ':');
    assert(fs == seq![source] + (seq![target] + seq![nl]));
    assert(fs[0] == source);
    assert(fs[1] == target);
    assert(line[source.len() as int] == ':');
    assert(stop_line().len() == 12);
    if line == stop_line() {
        assert(forall|i: int| 0 <= i < 12 ==> stop_line()[i] != ':');
        assert(false);
    }
}

} // verus!
