//! Moving a directory panel: submitting ".." goes to the parent directory, submitting
//! any other entry goes into it (when it is a directory).

use vstd::prelude::*;
use crate::paths::{is_up_dir, join_path, joined, path_is_up_dir, pop_path, popped};
use crate::text::{chars_of, string_of};

verus! {

/// Where submitting an entry moves the panel.
#[derive(Clone, Copy, Debug, PartialEq, Eq, Structural)]
pub enum Traverse {
    /// To the parent directory.
    Up,
    /// Into the submitted entry.
    Down,
}

/// Submitting the entry whose path equals ".." (component by component) goes up, any other
/// goes down.
pub fn traverse_direction(selected_item: &str) -> (t: Traverse)
    ensures
        t == (if is_up_dir(selected_item@) { Traverse::Up } else { Traverse::Down }),
{
    let cs = chars_of(selected_item);
    if path_is_up_dir(&cs) {
        Traverse::Up
    } else {
        Traverse::Down
    }
}

/// The directory above `current_path` (`PathBuf::pop`); the path itself when it has no
/// parent. The panel moves there when it is a directory.
pub fn traverse_up_target(current_path: &str) -> (p: String)
    ensures
        p@ == popped(current_path@),
{
    let cs = chars_of(current_path);
    let r = pop_path(&cs);
    string_of(&r)
}

/// The path of the submitted entry seen from `current_path` (`PathBuf::join`). The panel
/// moves there when it is a directory.
pub fn traverse_down_target(current_path: &str, selected_item: &str) -> (p: String)
    ensures
        p@ == joined(current_path@, selected_item@),
{
    let base = chars_of(current_path);
    let item = chars_of(selected_item);
    let r = join_path(&base, &item);
    string_of(&r)
}

} // verus!
