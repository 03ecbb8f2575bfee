//! Core logic of a two-panel terminal file manager: size and text formatting,
//! path handling, the table rows of the panels, the quick-cd path hints and
//! the decisions taken while copying files.

pub mod text;
pub mod horizontal_line;
pub mod sizes;
pub mod quick_cd;
pub mod paths;
pub mod tables;
pub mod panel;
pub mod process;
pub mod cp_utils;
pub mod server;
pub mod find;
pub mod cp_types;
pub mod copy_policy;
