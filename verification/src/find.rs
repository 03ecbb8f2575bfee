//! The find dialog: the `fd` command it runs and what it shows of the result.

use vstd::prelude::*;
use crate::tables::{content_lines, text_lines};
use crate::text::push_all;

verus! {

/// What the find dialog shows after running `fd`.
#[derive(Clone, Debug, PartialEq, Eq)]
pub enum FindOutcome {
    /// `fd` wrote to standard error: its text is shown as the errors.
    Errors(String),
    /// The found paths, one per output line.
    Results(Vec<String>),
}

/// The arguments `fd` is run with: a glob for the file name, then the directory to search.
pub fn find_command_args(file_name: &str, starting_dir: &str) -> (args: Vec<String>)
    ensures
        args@.len() == 3,
        args@[0]@ == "--glob"@,
        args@[1]@ == file_name@,
        args@[2]@ == starting_dir@,
{
    let mut args: Vec<String> = Vec::new();
    args.push(String::from_str("--glob"));
    args.push(String::from_str(file_name));
    args.push(String::from_str(starting_dir));
    args
}

/// The result of a search: the errors when `fd` reported any, otherwise the lines of its
/// output.
pub fn find_outcome(std_err: String, std_out: &str) -> (o: FindOutcome)
    ensures
        std_err@.len() != 0 ==> (o matches FindOutcome::Errors(e) && e@ == std_err@),
        std_err@.len() == 0 ==> (o matches FindOutcome::Results(lines) && lines@.len() == text_lines(std_out@).len()
            && forall|i: int| 0 <= i < lines@.len() ==> #[trigger] lines@[i]@ == text_lines(std_out@)[i]),
{
    if !std_err.as_str().is_empty() {
        FindOutcome::Errors(std_err)
    } else {
        FindOutcome::Results(content_lines(std_out))
    }
}

/// What submitting a name in the find dialog shows: `None` asks for a name (the name was
/// empty), otherwise the greeting "Hello <name>!".
pub fn show_popup_text(name: &str) -> (t: Option<String>)
    ensures
        name@.len() == 0 ==> t is None,
        name@.len() != 0 ==> (t matches Some(g) && g@ == "Hello "@ + name@ + "!"@),
{
    if name.is_empty() {
        None
    } else {
        let mut g = String::from_str("Hello ");
        push_all(&mut g, name);
        push_all(&mut g, "!");
        Some(g)
    }
}

} // verus!
