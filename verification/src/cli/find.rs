//! Arguments of the `find` subcommand.

use vstd::prelude::*;

use super::text_is;

verus! {

/// Searches through text, files and symbols.
pub struct FindArgs {
    pub command: FindCommand,
}

pub enum FindCommand {
    Text {
        pattern: String,
        directory: Option<String>,
        workspace: Option<String>,
    },
    Files {
        query: String,
        directory: Option<String>,
        dirs: Option<bool>,
        /// At most this many results; a positive count when given.
        limit: Option<u64>,
        type_: Option<String>,
        workspace: Option<String>,
    },
    Symbols {
        query: String,
        directory: Option<String>,
        workspace: Option<String>,
    },
}

impl FindCommand {
    /// A file search's limit, when given, is a positive count, as the command
    /// line only accepts.
    pub open spec fn limit_is_positive(&self) -> bool {
        match self {
            FindCommand::Files { limit, .. } => match limit {
                Some(l) => *l > 0,
                None => true,
            },
            _ => true,
        }
    }
}

/// The limit of a file search as the request carries it: a positive count, or
/// none. A zero, which the command line never gives, carries no limit.
pub fn files_limit(limit: Option<u64>) -> (r: Option<u64>)
    ensures
        r == match limit {
            Some(l) => if l > 0 { Some(l) } else { None::<u64> },
            None => None::<u64>,
        },
{
    match limit {
        Some(l) => if l > 0 { Some(l) } else { None },
        None => None,
    }
}

/// Whether a file search also returns directories.
#[derive(Debug, PartialEq, Eq, Structural, Clone, Copy)]
pub enum FilesDirs {
    True,
    False,
}

/// What kind of entry a file search returns.
#[derive(Debug, PartialEq, Eq, Structural, Clone, Copy)]
pub enum FilesType {
    File,
    Directory,
}

/// The `--dirs` option as the request states it.
pub fn files_dirs(dirs: Option<bool>) -> (r: Option<FilesDirs>)
    ensures
        r == match dirs {
            Some(true) => Some(FilesDirs::True),
            Some(false) => Some(FilesDirs::False),
            None => None::<FilesDirs>,
        },
{
    match dirs {
        Some(d) => if d {
            Some(FilesDirs::True)
        } else {
            Some(FilesDirs::False)
        },
        None => None,
    }
}

/// The `--type` option as the request states it: `directory` asks for
/// directories, and any other text for files.
pub fn files_type(type_: &Option<String>) -> (r: Option<FilesType>)
    ensures
        r == match type_ {
            Some(t) => Some(if t@ == "directory"@ { FilesType::Directory } else { FilesType::File }),
            None => None::<FilesType>,
        },
{
    proof {
        reveal_strlit("file");
        reveal_strlit("directory");
        assert("file"@.len() != "directory"@.len());
    }
    match type_ {
        Some(t) => {
            if text_is(t.as_str(), "file") {
                Some(FilesType::File)
            } else if text_is(t.as_str(), "directory") {
                Some(FilesType::Directory)
            } else {
                Some(FilesType::File)
            }
        },
        None => None,
    }
}

} // verus!
