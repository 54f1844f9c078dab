//! A password store whose entries are files encrypted to the recipients that
//! the nearest `.gpg-id` marker names. The library decides; the program around
//! it reads, writes, encrypts and asks.

pub mod bounds;
pub mod bulk;
pub mod content;
pub mod error;
pub mod generate;
pub mod git;
pub mod names;
pub mod order;
pub mod prompt;
pub mod protocol;
pub mod recipients;
pub mod search;
pub mod store;
pub mod temp;
pub mod text;
pub mod transfer;
pub mod tree;
pub mod workspace;

pub use bulk::{files_below, find_recursion, get_pass_files_recursively, is_still_used};
pub use content::{get_line, remove_first_line, replace_first_line};
pub use error::Error;
pub use generate::{generate_from, generate_password, generate_with, get_alphabet};
pub use names::{
    get_dir_name, get_dir_path, get_marker_paths, get_pass_file, get_pass_path, is_valid_name,
};
pub use prompt::{check_retyped, yesno};
pub use protocol::{check_uninitialized_store, remove, Event, Pending, Report, Request, Step};
pub use recipients::{get_recipients, parse_recipients};
pub use search::{
    display_matches, filter_matches, filter_with, list_lines, run_tree_cmd, show_line,
};
pub use temp::{create_temp_file, how_i_invoked, secure_tempdir, TempStorage};
pub use text::lines;
pub use transfer::{copy_move, BulkPending, BulkStep, CopyMove};
pub use workspace::PassFile;
