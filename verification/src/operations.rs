//! The file-tree side of the assistant: the entries of a workspace listing,
//! which paths a listing shows, which entries are read, and how the model's
//! choice of files is cut out of its answer and turned into files to read.
//!
//! Walking directories and reading files stay with the caller.

use vstd::prelude::*;
use crate::paths::file_name_spec;
use crate::text::{
    contains, contains_str, find, find_char, from_chars, lemma_find_from, lemma_rfind_upto,
    replace_all, replace_chars, rfind, rfind_char, slice_chars, to_chars, extend_str,
};

verus! {

/// The kind of a listed entry.
pub enum EntryType {
    File,
    Directory,
}

/// One entry of a workspace listing.
pub struct FileEntry {
    pub path: String,
    pub depth: usize,
    pub entry_type: EntryType,
}

/// A file read for the model: its name and content.
pub struct FileContent {
    pub name: String,
    pub content: String,
}

/// Why reading a file failed.
pub enum FileError {
    Io(std::io::Error),
    InvalidPath(String),
}

impl From<std::io::Error> for FileError {
    fn from(e: std::io::Error) -> (r: Self) {
        FileError::Io(e)
    }
}

impl vstd::std_specs::convert::FromSpecImpl<std::io::Error> for FileError {
    open spec fn obeys_from_spec() -> bool {
        true
    }

    open spec fn from_spec(v: std::io::Error) -> Self {
        FileError::Io(v)
    }
}

/// How `std::io::Error` displays. Nothing is stated of the text: it comes
/// from the operating system.
#[verifier::external_body]
fn io_error_text(e: &std::io::Error) -> String {
    e.to_string()
}

impl FileError {
    /// How the error reads: `IO error: ` and the I/O error's text, or
    /// `Invalid path: ` and the path.
    pub fn describe(&self) -> (r: String)
        ensures
            self matches FileError::InvalidPath(p) ==> r@ == "Invalid path: "@ + p@,
            self matches FileError::Io(_) ==> r@.len() >= "IO error: "@.len() && r@.subrange(
                0,
                "IO error: "@.len() as int,
            ) == "IO error: "@,
    {
        let mut t: Vec<char> = Vec::new();
        match self {
            FileError::Io(e) => {
                extend_str(&mut t, "IO error: ");
                let ghost head = t@;
                let m = io_error_text(e);
                extend_str(&mut t, m.as_str());
                assert(t@.subrange(0, head.len() as int) =~= head);
            },
            FileError::InvalidPath(p) => {
                extend_str(&mut t, "Invalid path: ");
                extend_str(&mut t, p.as_str());
            },
        }
        from_chars(&t)
    }
}

// ───────────────────────── listings ─────────────────────────

/// A walked path is listed unless it mentions `.git`, `target` or the
/// command log.
pub open spec fn listed_path(path: Seq<char>) -> bool {
    !contains(path, ".git"@) && !contains(path, "target"@) && !contains(path, "cmd_outputs.txt"@)
}

/// Tests `listed_path`.
pub fn is_listed_path(path: &str) -> (b: bool)
    ensures
        b == listed_path(path@),
{
    let p = to_chars(path);
    !contains_str(&p, ".git") && !contains_str(&p, "target") && !contains_str(&p, "cmd_outputs.txt")
}

/// The paths of the file entries among `entries`, in order.
pub open spec fn file_paths(entries: Seq<FileEntry>) -> Seq<Seq<char>>
    decreases entries.len(),
{
    if entries.len() == 0 {
        Seq::empty()
    } else {
        let prev = file_paths(entries.drop_last());
        match entries.last().entry_type {
            EntryType::File => prev.push(entries.last().path@),
            EntryType::Directory => prev,
        }
    }
}

/// The paths `read_files` reads: those of the file entries, in order
/// (directories are skipped).
pub fn read_files(entries: &[FileEntry]) -> (r: Vec<String>)
    ensures
        r@.map_values(|s: String| s@) == file_paths(entries@),
{
    let mut r: Vec<String> = Vec::new();
    let n = entries.len();
    for i in 0..n
        invariant
            n == entries@.len(),
            r@.map_values(|s: String| s@) == file_paths(entries@.take(i as int)),
    {
        assert(entries@.take(i + 1).drop_last() =~= entries@.take(i as int));
        let ghost before = r@.map_values(|s: String| s@);
        match entries[i].entry_type {
            EntryType::File => {
                r.push(entries[i].path.clone());
                assert(r@.map_values(|s: String| s@) =~= before.push(entries@[i as int].path@));
            },
            EntryType::Directory => {},
        }
    }
    assert(entries@.take(n as int) =~= entries@);
    r
}

// ───────────────────────── the model's choice of files ─────────────────────────

/// Why no array could be cut out of an answer.
pub enum SliceError {
    NoArray,
    NoClosing,
}

impl SliceError {
    /// The error's message.
    pub fn message(&self) -> (r: &'static str)
        ensures
            r@ == match self {
                SliceError::NoArray => "No JSON array found in response"@,
                SliceError::NoClosing => "No closing bracket found in response"@,
            },
    {
        match self {
            SliceError::NoArray => "No JSON array found in response",
            SliceError::NoClosing => "No closing bracket found in response",
        }
    }
}

/// The span from the first `[` to the last `]` of an answer.
pub open spec fn array_span(answer: Seq<char>) -> Result<Seq<char>, SliceError> {
    match find(answer, seq!['[']) {
        None => Err(SliceError::NoArray),
        Some(start) => match rfind(answer, seq![']']) {
            None => Err(SliceError::NoClosing),
            Some(end) => Ok(answer.subrange(start as int, (end + 1) as int)),
        },
    }
}

/// The span can be cut: the last `]` is not before the first `[` by more
/// than one position (a byte slice would panic there).
pub open spec fn span_cuttable(answer: Seq<char>) -> bool {
    match (find(answer, seq!['[']), rfind(answer, seq![']'])) {
        (Some(start), Some(end)) => start <= end + 1,
        _ => true,
    }
}

/// Cuts the span from the first `[` to the last `]` out of an answer.
pub fn json_array_slice(answer: &str) -> (r: Result<String, SliceError>)
    requires
        span_cuttable(answer@),
    ensures
        match (r, array_span(answer@)) {
            (Ok(s), Ok(t)) => s@ == t,
            (Err(SliceError::NoArray), Err(SliceError::NoArray)) => true,
            (Err(SliceError::NoClosing), Err(SliceError::NoClosing)) => true,
            _ => false,
        },
{
    let a = to_chars(answer);
    let start = match find_char(&a, '[') {
        None => return Err(SliceError::NoArray),
        Some(s) => s,
    };
    let end = match rfind_char(&a, ']') {
        None => return Err(SliceError::NoClosing),
        Some(e) => e,
    };
    proof {
        lemma_rfind_upto(a@, seq![']'], a@.len() - 1);
    }
    let total = a.len();
    assert(end + 1 <= total);
    let s = slice_chars(&a, start, end + 1);
    Ok(from_chars(&s))
}

/// A listed path with Windows separators turned into `/`.
pub open spec fn with_forward_slashes(path: Seq<char>) -> Seq<char> {
    replace_all(path, "\\"@, "/"@)
}

/// The file an entry of the model's choice stands for: its path with forward
/// slashes and its file name; `None` for a directory.
pub fn file_to_read(entry: &FileEntry) -> (r: Option<(String, String)>)
    ensures
        entry.entry_type is Directory <==> r is None,
        r matches Some(p) ==> p.0@ == with_forward_slashes(entry.path@) && p.1@ == file_name_spec(
            with_forward_slashes(entry.path@),
        ),
{
    match entry.entry_type {
        EntryType::Directory => None,
        EntryType::File => {
            proof {
                reveal_strlit("\\");
            }
            let p = to_chars(entry.path.as_str());
            let n = replace_chars(&p, "\\", "/");
            let path = from_chars(&n);
            let name = crate::paths::file_name(path.as_str());
            Some((path, name))
        },
    }
}

} // verus!
