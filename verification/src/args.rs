//! The command line: its shape and the validation of the paths it names.

use vstd::prelude::*;
use crate::paths::{parent, parent_of};
use crate::server_config::ServerRunConfig;
use crate::text::{cat, chars_of, own, path_debug, path_debug_text, string_of};

verus! {

/// What the program is asked to do.
pub enum StartKind {
    /// Pack the folder `input` into the executable `output`.
    Build { input: String, output: String, gzip: bool, force: bool },
    /// Serve a packed site as the configuration says.
    Serve { config: ServerRunConfig },
}

/// The whole command line.
pub struct Args {
    pub start: StartKind,
    pub verbose: bool,
}

/// The verdict on an input folder `s`, given whether it exists and whether it
/// is a directory: accepted when both hold.
pub open spec fn input_verdict(s: Seq<char>, exists: bool, is_dir: bool) -> Result<Seq<char>, Seq<char>> {
    if exists {
        if !is_dir {
            Err("Input must be a directory: "@ + s)
        } else {
            Ok(s)
        }
    } else {
        Err("Input does not exist: "@ + s)
    }
}

/// The verdict on an output file `s`, given whether it exists, whether it is
/// a directory and whether its parent folder exists.
pub open spec fn output_verdict(s: Seq<char>, exists: bool, is_dir: bool, parent_exists: bool) -> Result<Seq<char>, Seq<char>> {
    if exists && is_dir {
        Err("Output must be a file: "@ + s)
    } else if !parent_exists {
        Err("Output parent directory does not exist: "@ + path_debug(parent_of(s)->0))
    } else {
        Ok(s)
    }
}

/// Checks the folder to pack. `exists` and `is_dir` say what the file system
/// holds at `s`.
pub fn validate_input(s: &str, exists: bool, is_dir: bool) -> (r: Result<String, String>)
    ensures
        match (r, input_verdict(s@, exists, is_dir)) {
            (Ok(p), Ok(q)) => p@ == q,
            (Err(e), Err(f)) => e@ == f,
            _ => false,
        },
{
    if exists {
        if !is_dir {
            return Err(cat("Input must be a directory: ", s));
        }
        Ok(own(s))
    } else {
        Err(cat("Input does not exist: ", s))
    }
}

/// The folder that must exist for the output file `s` to be written: its
/// parent, or the current folder `.` for a bare file name, whose parent is
/// empty; `None` when `s` has no parent (it is empty or a root).
pub open spec fn folder_to_check(s: Seq<char>) -> Option<Seq<char>> {
    match parent_of(s) {
        Some(p) => if p.len() == 0 { Some("."@) } else { Some(p) },
        None => None,
    }
}

/// The folder whose existence decides whether the output file `s` can be
/// written (see `folder_to_check`).
pub fn output_parent(s: &str) -> (r: Option<String>)
    ensures
        match (r, folder_to_check(s@)) {
            (Some(p), Some(q)) => p@ == q,
            (None, None) => true,
            _ => false,
        },
{
    match parent(&chars_of(s)) {
        Some(p) => {
            if p.len() == 0 {
                Some(own("."))
            } else {
                Some(string_of(p.as_slice()))
            }
        },
        None => None,
    }
}

/// Checks the output file. `exists` and `is_dir` say what the file system
/// holds at `s`, `parent_exists` whether the folder `output_parent(s)` exists
/// (it is not consulted when `s` is an existing directory). A path with no
/// parent is left out unless it is an existing directory: reading its parent
/// would fail.
pub fn validate_output(s: &str, exists: bool, is_dir: bool, parent_exists: bool) -> (r: Result<String, String>)
    requires
        (exists && is_dir) || parent_of(s@) is Some,
    ensures
        match (r, output_verdict(s@, exists, is_dir, parent_exists)) {
            (Ok(p), Ok(q)) => p@ == q,
            (Err(e), Err(f)) => e@ == f,
            _ => false,
        },
{
    if exists {
        if is_dir {
            return Err(cat("Output must be a file: ", s));
        }
    }
    if !parent_exists {
        let p = match parent(&chars_of(s)) {
            Some(p) => string_of(p.as_slice()),
            None => String::new(),
        };
        let shown = path_debug_text(p.as_str());
        return Err(cat("Output parent directory does not exist: ", shown.as_str()));
    }
    Ok(own(s))
}

} // verus!
