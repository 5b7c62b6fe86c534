//! Which files a command works on: how its arguments are read, and what
//! is to be done for each of them.

use vstd::prelude::*;

verus! {

/// Why a file could not be had.
#[derive(Debug, Clone, PartialEq, Eq)]
pub enum Error {
    /// There is neither a file nor a directory at the path.
    FileNotFound(String),
    /// The search below a directory failed.
    SearchFailed(String),
}

/// Input source for TOML files.
///
/// Standard input or file paths. Contains a list of files that match the glob pattern.
#[derive(Debug)]
pub enum FileSearch {
    Stdin,
    Files(Vec<Result<String, Error>>),
}

#[derive(Debug, Clone, Copy, PartialEq, Eq, Structural)]
pub enum FileInputType {
    Stdin,
    Project,
    Files,
}

impl FileInputType {
    /// What the arguments ask for: the project if there are none, the
    /// standard input if the only one is `-`, and files otherwise.
    pub open spec fn of(files: Seq<String>) -> FileInputType {
        if files.len() == 0 {
            FileInputType::Project
        } else if files.len() == 1 && files[0]@ == "-"@ {
            FileInputType::Stdin
        } else {
            FileInputType::Files
        }
    }

    /// Reads the arguments.
    #[must_use]
    pub fn from_files(files: &[String]) -> (r: Self)
        ensures
            r == Self::of(files@),
    {
        if files.len() == 0 {
            Self::Project
        } else if files.len() == 1 && crate::strings::str_eq(files[0].as_str(), "-") {
            Self::Stdin
        } else {
            Self::Files
        }
    }
}

/// What is to be done for one argument that names files.
#[derive(Debug, Clone, Copy, PartialEq, Eq, Structural)]
pub enum FileInputPlan {
    /// Search the root for what matches the argument as a pattern.
    SearchPattern,
    /// Take the file at the path.
    TakeFile,
    /// Search the directory at the path with the configured patterns.
    SearchDirectory,
    /// Report that nothing is at the path.
    ReportMissing,
}

impl FileInputPlan {
    /// Decides what to do for the argument `file_path`, given whether a
    /// file and whether a directory is at that path. A pattern is
    /// searched for, whatever is at the path.
    #[must_use]
    pub fn decide(file_path: &str, is_file: bool, is_dir: bool) -> (r: Self)
        ensures
            r == (if has_glob_character(file_path@) {
                FileInputPlan::SearchPattern
            } else if is_file {
                FileInputPlan::TakeFile
            } else if is_dir {
                FileInputPlan::SearchDirectory
            } else {
                FileInputPlan::ReportMissing
            }),
    {
        if is_glob_pattern(file_path) {
            Self::SearchPattern
        } else if is_file {
            Self::TakeFile
        } else if is_dir {
            Self::SearchDirectory
        } else {
            Self::ReportMissing
        }
    }
}

impl FileSearch {
    /// Number of inputs: the standard input counts as one.
    #[must_use]
    pub fn len(&self) -> (r: usize)
        ensures
            r == (match self {
                FileSearch::Stdin => 1,
                FileSearch::Files(files) => files.len(),
            }),
    {
        match self {
            Self::Stdin => 1,
            Self::Files(files) => files.len(),
        }
    }

    #[must_use]
    pub fn is_empty(&self) -> (r: bool)
        ensures
            r == (match self {
                FileSearch::Stdin => false,
                FileSearch::Files(files) => files.len() == 0,
            }),
    {
        match self {
            Self::Stdin => false,
            Self::Files(files) => files.len() == 0,
        }
    }

    /// What a search handed back, as inputs: the paths that were found,
    /// or the one failure.
    #[must_use]
    pub fn matched_paths(found: Result<Vec<String>, Error>) -> (r: Vec<Result<String, Error>>)
        ensures
            match found {
                Ok(paths) => r.len() == paths.len() && forall|i: int|
                    0 <= i < paths.len() ==> r[i] == Ok::<String, Error>(paths[i]),
                Err(error) => r@ == seq![Err::<String, Error>(error)],
            },
    {
        match found {
            Ok(paths) => {
                let mut out: Vec<Result<String, Error>> = Vec::new();
                let mut i: usize = 0;
                while i < paths.len()
                    invariant
                        i <= paths.len(),
                        out.len() == i,
                        forall|j: int| 0 <= j < i ==> out[j] == Ok::<String, Error>(paths[j]),
                    decreases paths.len() - i,
                {
                    out.push(Ok(paths[i].clone()));
                    i += 1;
                }
                out
            },
            Err(err) => {
                let mut out: Vec<Result<String, Error>> = Vec::new();
                out.push(Err(err));
                out
            },
        }
    }
}

/// Whether one of the characters `*`, `?`, `[` and `]` is in `path`.
pub open spec fn has_glob_character(path: Seq<char>) -> bool {
    exists|i: int|
        0 <= i < path.len() && (#[trigger] path[i] == '*' || path[i] == '?' || path[i] == '['
            || path[i] == ']')
}

/// Whether `path_str` is a pattern rather than a path.
pub fn is_glob_pattern(path_str: &str) -> (r: bool)
    ensures
        r == has_glob_character(path_str@),
{
    let chars = crate::strings::chars_of(path_str);
    let n: usize = chars.len();
    let mut i: usize = 0;
    while i < n
        invariant
            chars@ == path_str@,
            n == path_str@.len(),
            i <= n,
            forall|j: int|
                0 <= j < i ==> !(#[trigger] path_str@[j] == '*' || path_str@[j] == '?'
                    || path_str@[j] == '[' || path_str@[j] == ']'),
        decreases n - i,
    {
        let c = chars[i];
        if c == '*' || c == '?' || c == '[' || c == ']' {
            return true;
        }
        i += 1;
    }
    false
}

} // verus!
