use vstd::prelude::*;

use crate::cli::{dir_path, normalize_dir};

verus! {

/// The settings of one site: where its tree lives locally and on the server,
/// the editor for new posts, and the heading under which the homepage lists
/// its latest posts.
pub struct Config {
    pub local_dir: String,
    pub remote_dir: String,
    pub editor: String,
    pub index_heading: String,
}

impl Config {
    /// Settings whose two roots end in exactly one `/`.
    pub fn new(local_dir: &str, remote_dir: &str, editor: &str, index_heading: &str) -> (r: Config)
        ensures
            r.local_dir@ == dir_path(local_dir@),
            r.remote_dir@ == dir_path(remote_dir@),
            r.editor@ == editor@,
            r.index_heading@ == index_heading@,
    {
        Config {
            local_dir: normalize_dir(local_dir),
            remote_dir: normalize_dir(remote_dir),
            editor: String::from_str(editor),
            index_heading: String::from_str(index_heading),
        }
    }
}

/// The editor to open posts with: the configured one, or `nano` where the
/// settings could not be read.
pub fn editor_or_default(configured: Option<&str>) -> (r: String)
    ensures
        configured matches Some(e) ==> r@ == e@,
        configured is None ==> r@ == "nano"@,
{
    match configured {
        Some(e) => String::from_str(e),
        None => String::from_str("nano"),
    }
}

} // verus!
