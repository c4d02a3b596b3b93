//! Writing the files the model asks for: the write requests, where each file
//! goes, how its content is unescaped, what each operation does to a file's
//! text, and the scan for a JSON array of requests in a model's answer.
//!
//! The file system stays with the caller: it carries out the `WriteAction`s
//! planned here and parses each candidate array.

use vstd::prelude::*;
use vstd::string::*;
use crate::paths::{is_rooted, normalize, path_join};
use crate::text::{
    byte_prefix, byte_prefix_chars, chars_eq_str, extend_chars, extend_str, find_char,
    find_chars_from, find_from, from_chars, join, join_chars, lemma_find_from, lines,
    replace_all, replace_chars, rfind, rfind_char, rfind_upto, lemma_rfind_upto, slice_chars,
    split_lines, to_chars, views, contains, contains_str, occurs_at,
};

verus! {

/// `std::io::Error`, carried through the library without looking inside.
#[verifier::external_type_specification]
#[verifier::external_body]
pub struct ExIoError(std::io::Error);

// ───────────────────────── requests and errors ─────────────────────────

/// One file operation requested by the model.
pub struct FileWriteRequest {
    pub path: String,
    pub content: Option<String>,
    /// "overwrite" (the default), "append", "patch" or "insert_at".
    pub op: String,
    pub search: Option<String>,
    pub replace: Option<String>,
    pub line: Option<usize>,
}

/// The operation of a request that names none.
pub fn default_op() -> (r: String)
    ensures
        r@ == "overwrite"@,
{
    "overwrite".to_owned()
}

/// Why a file operation failed.
pub enum FileError {
    IoError(std::io::Error),
    ParseError(String),
}

impl From<std::io::Error> for FileError {
    fn from(e: std::io::Error) -> (r: Self) {
        FileError::IoError(e)
    }
}

impl vstd::std_specs::convert::FromSpecImpl<std::io::Error> for FileError {
    open spec fn obeys_from_spec() -> bool {
        true
    }

    open spec fn from_spec(v: std::io::Error) -> Self {
        FileError::IoError(v)
    }
}

// ───────────────────────── where a file goes ─────────────────────────

/// A requested path resolved against the base directory: an absolute path
/// as given, else joined to the base and normalised.
pub open spec fn safe_path_spec(base: Seq<char>, untrusted: Seq<char>) -> Seq<char> {
    if is_rooted(untrusted) {
        untrusted
    } else {
        normalize(path_join(base, untrusted))
    }
}

/// Resolves a requested path against the base directory (see
/// `safe_path_spec`); it always succeeds.
pub fn safe_path(base: &str, untrusted: &str) -> (r: Result<String, FileError>)
    ensures
        r matches Ok(p) && p@ == safe_path_spec(base@, untrusted@),
{
    let u = to_chars(untrusted);
    if crate::paths::is_absolute(&u) {
        return Ok(from_chars(&u));
    }
    let b = to_chars(base);
    let joined = crate::paths::join_path(&b, &u);
    let n = crate::paths::normalize_chars(&joined);
    Ok(from_chars(&n))
}

// ───────────────────────── content ─────────────────────────

/// The stand-in for an escaped backslash while other escapes are undone.
pub const BACKSLASH_MARK: &'static str = "\u{0}BACKSLASH\u{0}";

/// Content with doubly-encoded escapes undone: `\\` is kept aside, then
/// `\n`, `\t`, `\r`, `\"` and `\'` become the characters they stand for, and
/// the kept `\\` become single backslashes.
pub open spec fn unescape_spec(c: Seq<char>) -> Seq<char> {
    let a = replace_all(c, "\\\\"@, BACKSLASH_MARK@);
    let b = replace_all(a, "\\n"@, "\n"@);
    let d = replace_all(b, "\\t"@, "\t"@);
    let e = replace_all(d, "\\r"@, "\r"@);
    let f = replace_all(e, "\\\""@, "\""@);
    let g = replace_all(f, "\\'"@, "'"@);
    replace_all(g, BACKSLASH_MARK@, "\\"@)
}

/// Undoes doubly-encoded escapes (see `unescape_spec`).
pub fn unescape_content(content: &str) -> (r: String)
    ensures
        r@ == unescape_spec(content@),
{
    proof {
        reveal_strlit("\\\\");
        reveal_strlit("\\n");
        reveal_strlit("\\t");
        reveal_strlit("\\r");
        reveal_strlit("\\\"");
        reveal_strlit("\\'");
        reveal_strlit("\u{0}BACKSLASH\u{0}");
    }
    let c = to_chars(content);
    let a = replace_chars(&c, "\\\\", BACKSLASH_MARK);
    let b = replace_chars(&a, "\\n", "\n");
    let d = replace_chars(&b, "\\t", "\t");
    let e = replace_chars(&d, "\\r", "\r");
    let f = replace_chars(&e, "\\\"", "\"");
    let g = replace_chars(&f, "\\'", "'");
    let h = replace_chars(&g, BACKSLASH_MARK, "\\");
    from_chars(&h)
}

proof fn lemma_absent_pattern(s: Seq<char>, p: Seq<char>, r: Seq<char>)
    requires
        p.len() > 0,
        forall|i: int| 0 <= i < s.len() ==> s[i] != p[0],
    ensures
        replace_all(s, p, r) == s,
{
    crate::text::lemma_find_from(s, p, 0);
    if let Some(i) = crate::text::find(s, p) {
        assert(s.subrange(i as int, (i + p.len()) as int)[0] == s[i as int]);
    }
}

/// Content without backslashes (and without NUL characters) is written as
/// it is: unescaping leaves it unchanged.
pub proof fn law_plain_content_unchanged(c: Seq<char>)
    requires
        forall|i: int| 0 <= i < c.len() ==> c[i] != '\\' && c[i] != '\u{0}',
    ensures
        unescape_spec(c) == c,
{
    reveal_strlit("\\\\");
    reveal_strlit("\\n");
    reveal_strlit("\\t");
    reveal_strlit("\\r");
    reveal_strlit("\\\"");
    reveal_strlit("\\'");
    reveal_strlit("\u{0}BACKSLASH\u{0}");
    lemma_absent_pattern(c, "\\\\"@, BACKSLASH_MARK@);
    lemma_absent_pattern(c, "\\n"@, "\n"@);
    lemma_absent_pattern(c, "\\t"@, "\t"@);
    lemma_absent_pattern(c, "\\r"@, "\r"@);
    lemma_absent_pattern(c, "\\\""@, "\""@);
    lemma_absent_pattern(c, "\\'"@, "'"@);
    lemma_absent_pattern(c, BACKSLASH_MARK@, "\\"@);
}

/// No character of `s` is a backslash or a NUL.
pub open spec fn plain_text(s: Seq<char>) -> bool {
    forall|i: int| 0 <= i < s.len() ==> s[i] != '\\' && s[i] != '\u{0}'
}

proof fn lemma_no_occurrence(s: Seq<char>, p: Seq<char>, r: Seq<char>)
    requires
        p.len() > 0,
        forall|i: int| !occurs_at(s, p, i),
    ensures
        replace_all(s, p, r) == s,
{
    lemma_find_from(s, p, 0);
}

proof fn lemma_replace_once(a: Seq<char>, p: Seq<char>, r: Seq<char>, b: Seq<char>)
    requires
        p.len() > 0,
        forall|i: int| 0 <= i < a.len() ==> a[i] != p[0],
        forall|i: int| 0 <= i < b.len() ==> b[i] != p[0],
    ensures
        replace_all(a + p + b, p, r) == a + r + b,
{
    let s = a + p + b;
    lemma_find_from(s, p, 0);
    assert(s.subrange(a.len() as int, (a.len() + p.len()) as int) =~= p);
    assert(occurs_at(s, p, a.len() as int));
    if let Some(i) = crate::text::find(s, p) {
        if i < a.len() {
            assert(s.subrange(i as int, (i + p.len()) as int)[0] == s[i as int]);
            assert(s[i as int] == a[i as int]);
        }
        assert(i == a.len());
        assert(s.take(i as int) =~= a);
        assert(s.skip((i + p.len()) as int) =~= b);
        lemma_absent_pattern(b, p, r);
    }
}

proof fn lemma_other_escape_kept(a: Seq<char>, b: Seq<char>, e: char, q: Seq<char>, r: Seq<char>)
    requires
        plain_text(a),
        plain_text(b),
        e != '\\',
        q.len() == 2,
        q[0] == '\\',
        q[1] != e,
    ensures
        replace_all(a + seq!['\\', e] + b, q, r) == a + seq!['\\', e] + b,
{
    let s = a + seq!['\\', e] + b;
    assert forall|i: int| !occurs_at(s, q, i) by {
        if occurs_at(s, q, i) {
            assert(s.subrange(i, i + 2)[0] == s[i]);
            assert(s.subrange(i, i + 2)[1] == s[i + 1]);
            if i < a.len() {
                assert(s[i] == a[i]);
            } else if i > a.len() + 1 {
                assert(s[i] == b[i - a.len() - 2]);
            } else if i == a.len() + 1 {
                assert(s[i] == e);
            } else {
                assert(s[i + 1] == e);
            }
        }
    }
    lemma_no_occurrence(s, q, r);
}

proof fn lemma_letter_escape(a: Seq<char>, b: Seq<char>, e: char, d: char)
    requires
        plain_text(a),
        plain_text(b),
        (e == 'n' && d == '\n') || (e == 't' && d == '\t') || (e == 'r' && d == '\r') || (e
            == '"' && d == '"') || (e == '\'' && d == '\''),
    ensures
        unescape_spec(a + seq!['\\', e] + b) == a + seq![d] + b,
{
    reveal_strlit("\\\\");
    reveal_strlit("\\n");
    reveal_strlit("\\t");
    reveal_strlit("\\r");
    reveal_strlit("\\\"");
    reveal_strlit("\\'");
    reveal_strlit("\n");
    reveal_strlit("\t");
    reveal_strlit("\r");
    reveal_strlit("\"");
    reveal_strlit("'");
    reveal_strlit("\\");
    reveal_strlit("\u{0}BACKSLASH\u{0}");
    let s0 = a + seq!['\\', e] + b;
    let t = a + seq![d] + b;
    assert forall|i: int| 0 <= i < t.len() implies t[i] != '\\' && t[i] != '\u{0}' by {
        if i < a.len() {
            assert(t[i] == a[i]);
        } else if i > a.len() {
            assert(t[i] == b[i - a.len() - 1]);
        }
    }
    let m = BACKSLASH_MARK@;
    let s1 = replace_all(s0, "\\\\"@, m);
    lemma_other_escape_kept(a, b, e, "\\\\"@, m);
    let s2 = replace_all(s1, "\\n"@, "\n"@);
    if e == 'n' {
        assert("\\n"@ =~= seq!['\\', e]);
        assert("\n"@ =~= seq![d]);
        lemma_replace_once(a, "\\n"@, "\n"@, b);
    } else {
        lemma_other_escape_kept(a, b, e, "\\n"@, "\n"@);
    }
    let s3 = replace_all(s2, "\\t"@, "\t"@);
    if e == 't' {
        assert("\\t"@ =~= seq!['\\', e]);
        assert("\t"@ =~= seq![d]);
        lemma_replace_once(a, "\\t"@, "\t"@, b);
    } else if e == 'n' {
        lemma_absent_pattern(t, "\\t"@, "\t"@);
    } else {
        lemma_other_escape_kept(a, b, e, "\\t"@, "\t"@);
    }
    let s4 = replace_all(s3, "\\r"@, "\r"@);
    if e == 'r' {
        assert("\\r"@ =~= seq!['\\', e]);
        assert("\r"@ =~= seq![d]);
        lemma_replace_once(a, "\\r"@, "\r"@, b);
    } else if e == 'n' || e == 't' {
        lemma_absent_pattern(t, "\\r"@, "\r"@);
    } else {
        lemma_other_escape_kept(a, b, e, "\\r"@, "\r"@);
    }
    let s5 = replace_all(s4, "\\\""@, "\""@);
    if e == '"' {
        assert("\\\""@ =~= seq!['\\', e]);
        assert("\""@ =~= seq![d]);
        lemma_replace_once(a, "\\\""@, "\""@, b);
    } else if e == 'n' || e == 't' || e == 'r' {
        lemma_absent_pattern(t, "\\\""@, "\""@);
    } else {
        lemma_other_escape_kept(a, b, e, "\\\""@, "\""@);
    }
    let s6 = replace_all(s5, "\\'"@, "'"@);
    if e == '\'' {
        assert("\\'"@ =~= seq!['\\', e]);
        assert("'"@ =~= seq![d]);
        lemma_replace_once(a, "\\'"@, "'"@, b);
    } else {
        lemma_absent_pattern(t, "\\'"@, "'"@);
    }
    assert(s6 == t);
    lemma_absent_pattern(t, m, "\\"@);
}

proof fn lemma_backslash_escape(a: Seq<char>, b: Seq<char>)
    requires
        plain_text(a),
        plain_text(b),
    ensures
        unescape_spec(a + "\\\\"@ + b) == a + "\\"@ + b,
{
    reveal_strlit("\\\\");
    reveal_strlit("\\n");
    reveal_strlit("\\t");
    reveal_strlit("\\r");
    reveal_strlit("\\\"");
    reveal_strlit("\\'");
    reveal_strlit("\\");
    reveal_strlit("\u{0}BACKSLASH\u{0}");
    let m = BACKSLASH_MARK@;
    lemma_replace_once(a, "\\\\"@, m, b);
    let u = a + m + b;
    assert forall|i: int| 0 <= i < u.len() implies u[i] != '\\' by {
        if i < a.len() {
            assert(u[i] == a[i]);
        } else if i >= a.len() + m.len() {
            assert(u[i] == b[i - a.len() - m.len()]);
        } else {
            assert(u[i] == m[i - a.len()]);
        }
    }
    lemma_absent_pattern(u, "\\n"@, "\n"@);
    lemma_absent_pattern(u, "\\t"@, "\t"@);
    lemma_absent_pattern(u, "\\r"@, "\r"@);
    lemma_absent_pattern(u, "\\\""@, "\""@);
    lemma_absent_pattern(u, "\\'"@, "'"@);
    lemma_replace_once(a, m, "\\"@, b);
}

/// Each escape in otherwise plain content is undone: content made of plain
/// text, one of the escapes `\n`, `\t`, `\r`, `\"`, `\'` or `\\` (a backslash
/// and a character), and plain text again is written with the escape
/// replaced by the single character it stands for.
pub proof fn law_escape_undone(a: Seq<char>, b: Seq<char>)
    requires
        plain_text(a),
        plain_text(b),
    ensures
        unescape_spec(a + "\\n"@ + b) == a + "\n"@ + b,
        unescape_spec(a + "\\t"@ + b) == a + "\t"@ + b,
        unescape_spec(a + "\\r"@ + b) == a + "\r"@ + b,
        unescape_spec(a + "\\\""@ + b) == a + "\""@ + b,
        unescape_spec(a + "\\'"@ + b) == a + "'"@ + b,
        unescape_spec(a + "\\\\"@ + b) == a + "\\"@ + b,
{
    reveal_strlit("\\n");
    reveal_strlit("\\t");
    reveal_strlit("\\r");
    reveal_strlit("\\\"");
    reveal_strlit("\\'");
    reveal_strlit("\n");
    reveal_strlit("\t");
    reveal_strlit("\r");
    reveal_strlit("\"");
    reveal_strlit("'");
    assert("\\n"@ =~= seq!['\\', 'n']);
    assert("\\t"@ =~= seq!['\\', 't']);
    assert("\\r"@ =~= seq!['\\', 'r']);
    assert("\\\""@ =~= seq!['\\', '"']);
    assert("\\'"@ =~= seq!['\\', '\'']);
    assert("\n"@ =~= seq!['\n']);
    assert("\t"@ =~= seq!['\t']);
    assert("\r"@ =~= seq!['\r']);
    assert("\""@ =~= seq!['"']);
    assert("'"@ =~= seq!['\'']);
    lemma_letter_escape(a, b, 'n', '\n');
    lemma_letter_escape(a, b, 't', '\t');
    lemma_letter_escape(a, b, 'r', '\r');
    lemma_letter_escape(a, b, '"', '"');
    lemma_letter_escape(a, b, '\'', '\'');
    lemma_backslash_escape(a, b);
}

// ───────────────────────── operations ─────────────────────────

/// What to do to a file.
pub enum WriteAction {
    /// Append `text` (creating the file).
    Append { path: String, text: String },
    /// Replace `search` by `replace` in the file.
    Patch { path: String, search: String, replace: String },
    /// Insert `text` as a line at `line` (1-based) of the file.
    InsertAt { path: String, line: usize, text: String },
    /// Write `text` as the whole file.
    Overwrite { path: String, text: String },
}

/// The error of a patch without both `search` and `replace`.
pub const PATCH_FIELDS_MISSING: &'static str = "Patch operation requires 'search' and 'replace' fields.";

/// The error of an insertion without a `line`.
pub const LINE_FIELD_MISSING: &'static str = "Insert_at operation requires 'line' field.";

/// The unescaped content of a request (empty without content).
pub open spec fn request_text(req: FileWriteRequest) -> Seq<char> {
    match req.content {
        Some(c) => unescape_spec(c@),
        None => Seq::empty(),
    }
}

/// Plans the write a request asks for, under `base`.
pub fn plan_write(base: &str, req: &FileWriteRequest) -> (r: Result<WriteAction, FileError>)
    ensures
        req.op@ == "append"@ ==> (r matches Ok(WriteAction::Append { path, text }) && path@
            == safe_path_spec(base@, req.path@) && text@ == request_text(*req)),
        req.op@ == "patch"@ ==> match (req.search, req.replace) {
            (Some(s), Some(p)) => r matches Ok(WriteAction::Patch { path, search, replace }) && path@
                == safe_path_spec(base@, req.path@) && search == s && replace == p,
            _ => r matches Err(FileError::ParseError(m)) && m@ == PATCH_FIELDS_MISSING@,
        },
        req.op@ == "insert_at"@ ==> match req.line {
            Some(n) => r matches Ok(WriteAction::InsertAt { path, line, text }) && path@
                == safe_path_spec(base@, req.path@) && line == n && text@ == request_text(*req),
            None => r matches Err(FileError::ParseError(m)) && m@ == LINE_FIELD_MISSING@,
        },
        (req.op@ != "append"@ && req.op@ != "patch"@ && req.op@ != "insert_at"@) ==> (r matches Ok(
            WriteAction::Overwrite { path, text },
        ) && path@ == safe_path_spec(base@, req.path@) && text@ == request_text(*req)),
{
    proof {
        reveal_strlit("append");
        reveal_strlit("patch");
        reveal_strlit("insert_at");
        assert("append"@[0] == 'a' && "patch"@[0] == 'p' && "insert_at"@[0] == 'i');
    }
    let path = match safe_path(base, req.path.as_str()) {
        Ok(p) => p,
        Err(e) => return Err(e),
    };
    let text = match &req.content {
        Some(c) => unescape_content(c.as_str()),
        None => String::new(),
    };
    let op = to_chars(req.op.as_str());
    if chars_eq_str(&op, "append") {
        Ok(WriteAction::Append { path, text })
    } else if chars_eq_str(&op, "patch") {
        match (&req.search, &req.replace) {
            (Some(s), Some(p)) => Ok(WriteAction::Patch { path, search: s.clone(), replace: p.clone() }),
            _ => Err(FileError::ParseError(PATCH_FIELDS_MISSING.to_owned())),
        }
    } else if chars_eq_str(&op, "insert_at") {
        match req.line {
            Some(n) => Ok(WriteAction::InsertAt { path, line: n, text }),
            None => Err(FileError::ParseError(LINE_FIELD_MISSING.to_owned())),
        }
    } else {
        Ok(WriteAction::Overwrite { path, text })
    }
}

/// The file's lines with `text` inserted as line `line` (1-based; 0 counts as
/// 1), or appended when `line` is past the last line; joined with `\n`.
pub open spec fn inserted_text(content: Seq<char>, line: nat, text: Seq<char>) -> Seq<char> {
    let ls = lines(content);
    join(
        if line <= ls.len() {
            ls.insert(if line == 0 { 0 } else { line - 1 }, text)
        } else {
            ls.push(text)
        },
        "\n"@,
    )
}

/// Inserts `text` as a line of `content` (see `inserted_text`).
pub fn insert_line(content: &str, line: usize, text: &str) -> (r: String)
    ensures
        r@ == inserted_text(content@, line as nat, text@),
{
    let c = to_chars(content);
    let mut ls = split_lines(&c);
    let t = to_chars(text);
    let ghost before = views(ls@);
    if line <= ls.len() {
        let at = if line == 0 { 0 } else { line - 1 };
        ls.insert(at, t);
        assert(views(ls@) =~= before.insert(at as int, text@));
    } else {
        ls.push(t);
        assert(views(ls@) =~= before.push(text@));
    }
    let nl = to_chars("\n");
    let j = join_chars(&ls, &nl);
    from_chars(&j)
}

/// A patched file: every occurrence of a non-empty `search` replaced; `None`
/// when `search` is empty or does not occur.
pub open spec fn patched_text(content: Seq<char>, search: Seq<char>, replace: Seq<char>) -> Option<
    Seq<char>,
> {
    if search.len() == 0 || !contains(content, search) {
        None
    } else {
        Some(replace_all(content, search, replace))
    }
}

/// Applies a patch to a file's text (see `patched_text`): every occurrence
/// of the search text is replaced, not only the first.
pub fn patch_content(content: &str, search: &str, replace: &str) -> (r: Option<String>)
    ensures
        r matches Some(s) ==> patched_text(content@, search@, replace@) == Some(s@),
        r is None <==> patched_text(content@, search@, replace@) is None,
{
    let c = to_chars(content);
    if search.is_empty() || !contains_str(&c, search) {
        return None;
    }
    let out = replace_chars(&c, search, replace);
    Some(from_chars(&out))
}

// ───────────────────────── finding the array of requests ─────────────────────────

/// The error when the answer has no `]`.
pub const NO_CLOSING_BRACKET: &'static str = "No closing ']' found in AI response.";

/// The error when the array found is empty.
pub const EMPTY_FILE_LIST: &'static str = "AI returned an empty file list.";

/// The error when no candidate array was tried.
pub const NO_ARRAY_FOUND: &'static str = "No valid JSON array found in AI response.";

/// The scan for a JSON array of requests: each `[` before the answer's last
/// `]` starts a candidate that runs to that `]`, tried left to right.
pub struct ArrayScan {
    pub chars: Vec<char>,
    /// Position of the last `]`.
    pub end: usize,
    /// Where the search for the next `[` resumes.
    pub next: usize,
}

impl ArrayScan {
    /// The scan's invariant: `end` is the position of the last `]`.
    pub open spec fn wf(&self) -> bool {
        rfind(self.chars@, seq![']']) == Some(self.end as nat)
    }

    /// Starts the scan of an answer; the error when it has no `]`.
    pub fn start(answer: &str) -> (r: Result<ArrayScan, String>)
        ensures
            r matches Ok(s) ==> s.wf() && s.chars@ == answer@ && s.next == 0,
            r is Err <==> rfind(answer@, seq![']']) is None,
            r matches Err(m) ==> m@ == NO_CLOSING_BRACKET@,
    {
        let chars = to_chars(answer);
        match rfind_char(&chars, ']') {
            Some(end) => Ok(ArrayScan { chars, end, next: 0 }),
            None => Err(NO_CLOSING_BRACKET.to_owned()),
        }
    }

    /// The next candidate: from the first `[` at or after `next` and before
    /// the last `]`, up to and including that `]`; the search then resumes
    /// after this `[`. `None` when there is no such `[`.
    pub fn next_candidate(&mut self) -> (r: Option<String>)
        requires
            old(self).wf(),
        ensures
            final(self).wf(),
            final(self).chars == old(self).chars,
            final(self).end == old(self).end,
            r is Some <==> (old(self).next < old(self).end && (find_from(
                old(self).chars@,
                seq!['['],
                old(self).next as nat,
            ) matches Some(i) && i < old(self).end)),
            r matches Some(c) ==> {
                let i = find_from(old(self).chars@, seq!['['], old(self).next as nat)->0;
                &&& c@ == old(self).chars@.subrange(i as int, old(self).end + 1)
                &&& final(self).next == i + 1
            },
    {
        proof {
            lemma_rfind_upto(self.chars@, seq![']'], self.chars@.len() - 1);
        }
        let total = self.chars.len();
        assert(self.end + 1 <= total);
        if self.next >= self.end {
            return None;
        }
        let mut open: Vec<char> = Vec::new();
        open.push('[');
        assert(open@ =~= seq!['[']);
        match find_chars_from(&self.chars, &open, self.next) {
            Some(i) => {
                proof {
                    lemma_find_from(self.chars@, seq!['['], self.next as nat);
                }
                if i < self.end {
                    let c = slice_chars(&self.chars, i, self.end + 1);
                    self.next = i + 1;
                    Some(from_chars(&c))
                } else {
                    None
                }
            },
            None => None,
        }
    }
}

/// The error reported when no candidate parsed: the last parse error with
/// the answer's first 500 bytes (cut back to a character boundary), or the
/// note that no array was found.
pub open spec fn scan_error_spec(answer: Seq<char>, last_error: Option<Seq<char>>) -> Seq<char> {
    match last_error {
        None => NO_ARRAY_FOUND@,
        Some(e) => "JSON Parse Error: "@ + e + ". Input snippet: "@ + byte_prefix(answer, 500),
    }
}

/// The error reported when no candidate parsed (see `scan_error_spec`).
pub fn scan_error(answer: &str, last_error: Option<&str>) -> (r: String)
    ensures
        r@ == scan_error_spec(answer@, match last_error {
            Some(e) => Some(e@),
            None => None,
        }),
{
    match last_error {
        None => NO_ARRAY_FOUND.to_owned(),
        Some(e) => {
            let a = to_chars(answer);
            let snippet = byte_prefix_chars(&a, 500);
            let mut t: Vec<char> = Vec::new();
            extend_str(&mut t, "JSON Parse Error: ");
            extend_str(&mut t, e);
            extend_str(&mut t, ". Input snippet: ");
            extend_chars(&mut t, &snippet);
            from_chars(&t)
        },
    }
}

/// The requests of the first candidate that parsed, to be carried out in
/// order; an empty list is an error.
pub fn accepted_requests(reqs: Vec<FileWriteRequest>) -> (r: Result<Vec<FileWriteRequest>, FileError>)
    ensures
        reqs@.len() == 0 ==> (r matches Err(FileError::ParseError(m)) && m@ == EMPTY_FILE_LIST@),
        reqs@.len() > 0 ==> (r matches Ok(v) && v@ == reqs@),
{
    if reqs.len() == 0 {
        Err(FileError::ParseError(EMPTY_FILE_LIST.to_owned()))
    } else {
        Ok(reqs)
    }
}

} // verus!
