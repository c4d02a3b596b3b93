//! Character-level text utilities shared by the rest of the library.
//!
//! Strings are handled as sequences of `char`s: the spec functions here state
//! what trimming, searching, line splitting, joining and decimal formatting
//! mean, and the executable functions compute them on `Vec<char>`.

use vstd::prelude::*;
use vstd::string::*;
use vstd::utf8::{decode_utf8, valid_utf8};

verus! {

// ───────────────────────── specifications ─────────────────────────

/// Unicode `White_Space`, the set `char::is_whitespace` tests.
pub open spec fn is_ws(c: char) -> bool {
    let u = c as u32;
    ||| 0x09 <= u <= 0x0D
    ||| u == 0x20
    ||| u == 0x85
    ||| u == 0xA0
    ||| u == 0x1680
    ||| 0x2000 <= u <= 0x200A
    ||| u == 0x2028
    ||| u == 0x2029
    ||| u == 0x202F
    ||| u == 0x205F
    ||| u == 0x3000
}

/// `s` with its leading whitespace removed.
pub open spec fn trim_start(s: Seq<char>) -> Seq<char>
    decreases s.len(),
{
    if s.len() > 0 && is_ws(s[0]) {
        trim_start(s.drop_first())
    } else {
        s
    }
}

/// `s` with its trailing whitespace removed.
pub open spec fn trim_end(s: Seq<char>) -> Seq<char>
    decreases s.len(),
{
    if s.len() > 0 && is_ws(s.last()) {
        trim_end(s.drop_last())
    } else {
        s
    }
}

/// `s` with whitespace removed at both ends.
pub open spec fn trim(s: Seq<char>) -> Seq<char> {
    trim_end(trim_start(s))
}

/// `p` is a prefix of `s`.
pub open spec fn starts_with(s: Seq<char>, p: Seq<char>) -> bool {
    p.len() <= s.len() && s.subrange(0, p.len() as int) == p
}

/// `p` is a suffix of `s`.
pub open spec fn ends_with(s: Seq<char>, p: Seq<char>) -> bool {
    p.len() <= s.len() && s.subrange(s.len() - p.len(), s.len() as int) == p
}

/// `p` occurs in `s` starting at position `i`.
pub open spec fn occurs_at(s: Seq<char>, p: Seq<char>, i: int) -> bool {
    0 <= i && i + p.len() <= s.len() && s.subrange(i, i + p.len()) == p
}

/// The first position at or after `from` where `p` occurs in `s`.
pub open spec fn find_from(s: Seq<char>, p: Seq<char>, from: nat) -> Option<nat>
    decreases s.len() - from,
{
    if from + p.len() > s.len() {
        None
    } else if s.subrange(from as int, (from + p.len()) as int) == p {
        Some(from)
    } else {
        proof {
            if p.len() == 0 {
                assert(s.subrange(from as int, from as int) =~= p);
            }
        }
        find_from(s, p, from + 1)
    }
}

/// `find_from` returns the first occurrence at or after `from`, if any.
pub proof fn lemma_find_from(s: Seq<char>, p: Seq<char>, from: nat)
    ensures
        find_from(s, p, from) matches Some(i) ==> {
            &&& from <= i
            &&& occurs_at(s, p, i as int)
            &&& forall|j: int| from <= j < i ==> !occurs_at(s, p, j)
        },
        find_from(s, p, from) is None ==> forall|j: int| from <= j ==> !occurs_at(s, p, j),
    decreases s.len() - from,
{
    if from + p.len() > s.len() {
    } else if s.subrange(from as int, (from + p.len()) as int) == p {
    } else {
        if p.len() == 0 {
            assert(s.subrange(from as int, from as int) =~= p);
        }
        lemma_find_from(s, p, from + 1);
    }
}

/// The first position where `p` occurs in `s`.
pub open spec fn find(s: Seq<char>, p: Seq<char>) -> Option<nat> {
    find_from(s, p, 0)
}

/// `p` occurs somewhere in `s`.
pub open spec fn contains(s: Seq<char>, p: Seq<char>) -> bool {
    find(s, p) is Some
}

/// A one-character pattern occurs in `s` exactly when some character of `s`
/// is that character.
pub proof fn lemma_contains_char(s: Seq<char>, c: char)
    ensures
        contains(s, seq![c]) <==> exists|i: int| 0 <= i < s.len() && s[i] == c,
{
    lemma_find_from(s, seq![c], 0);
    if let Some(i) = find(s, seq![c]) {
        assert(s.subrange(i as int, (i + 1) as int)[0] == s[i as int]);
    } else {
        assert forall|i: int| 0 <= i < s.len() implies s[i] != c by {
            if s[i] == c {
                assert(s.subrange(i, i + 1) =~= seq![c]);
                assert(occurs_at(s, seq![c], i));
            }
        }
    }
}

/// The last position at or before `i` where `p` occurs in `s`.
pub open spec fn rfind_upto(s: Seq<char>, p: Seq<char>, i: int) -> Option<nat>
    decreases i + 1,
{
    if i < 0 {
        None
    } else if occurs_at(s, p, i) {
        Some(i as nat)
    } else {
        rfind_upto(s, p, i - 1)
    }
}

/// `rfind_upto` returns the last occurrence at or before `i`, if any.
pub proof fn lemma_rfind_upto(s: Seq<char>, p: Seq<char>, i: int)
    ensures
        rfind_upto(s, p, i) matches Some(j) ==> {
            &&& j <= i
            &&& occurs_at(s, p, j as int)
            &&& forall|k: int| j < k <= i ==> !occurs_at(s, p, k)
        },
        rfind_upto(s, p, i) is None ==> forall|k: int| 0 <= k <= i ==> !occurs_at(s, p, k),
    decreases i + 1,
{
    if i >= 0 && !occurs_at(s, p, i) {
        lemma_rfind_upto(s, p, i - 1);
    }
}

/// The last position where `p` occurs in `s`.
pub open spec fn rfind(s: Seq<char>, p: Seq<char>) -> Option<nat> {
    rfind_upto(s, p, s.len() - p.len())
}

/// A line without its `'\r'` when it ended in `"\r\n"`.
pub open spec fn strip_cr(l: Seq<char>) -> Seq<char> {
    if l.len() > 0 && l.last() == '\r' {
        l.drop_last()
    } else {
        l
    }
}

/// The lines of `s`, as `str::lines` yields them: split at `'\n'`, a
/// `'\r'` right before the `'\n'` dropped, no empty line after a final `'\n'`.
pub open spec fn lines(s: Seq<char>) -> Seq<Seq<char>>
    decreases s.len(),
{
    if s.len() == 0 {
        Seq::empty()
    } else {
        match find(s, seq!['\n']) {
            None => seq![s],
            Some(i) => {
                proof {
                    lemma_find_from(s, seq!['\n'], 0);
                }
                seq![strip_cr(s.subrange(0, i as int))] + lines(s.skip((i + 1) as int))
            },
        }
    }
}

/// `s` holds no line break.
pub open spec fn one_line(s: Seq<char>) -> bool {
    forall|i: int| 0 <= i < s.len() ==> s[i] != '\n'
}

proof fn lemma_newline_at(s: Seq<char>, j: int)
    requires
        0 <= j < s.len(),
    ensures
        occurs_at(s, seq!['\n'], j) <==> s[j] == '\n',
{
    if s[j] == '\n' {
        assert(s.subrange(j, j + 1) =~= seq!['\n']);
    }
    if occurs_at(s, seq!['\n'], j) {
        assert(s.subrange(j, j + 1)[0] == s[j]);
    }
}

proof fn lemma_no_newline(s: Seq<char>)
    requires
        one_line(s),
    ensures
        find(s, seq!['\n']) is None,
{
    lemma_find_from(s, seq!['\n'], 0);
    if let Some(k) = find(s, seq!['\n']) {
        lemma_newline_at(s, k as int);
    }
}

/// The lines of a text with one line break in it: the (carriage-return
/// stripped) first part, then the lines of the rest.
pub proof fn lemma_lines_cons(a: Seq<char>, b: Seq<char>)
    requires
        one_line(a),
    ensures
        lines(a + seq!['\n'] + b) == seq![strip_cr(a)] + lines(b),
{
    let s = a + seq!['\n'] + b;
    lemma_find_from(s, seq!['\n'], 0);
    lemma_newline_at(s, a.len() as int);
    match find(s, seq!['\n']) {
        Some(k) => {
            lemma_newline_at(s, k as int);
            assert(k == a.len());
        },
        None => {},
    }
    assert(s.subrange(0, a.len() as int) =~= a);
    assert(s.skip((a.len() + 1) as int) =~= b);
}

/// A text without a line break is one line, or none when empty.
pub proof fn lemma_lines_single(a: Seq<char>)
    requires
        one_line(a),
    ensures
        lines(a) == if a.len() == 0 {
            Seq::<Seq<char>>::empty()
        } else {
            seq![a]
        },
{
    lemma_no_newline(a);
}

/// No line of a text holds a line break.
pub proof fn lemma_lines_one_line(s: Seq<char>)
    ensures
        forall|i: int| 0 <= i < lines(s).len() ==> one_line(#[trigger] lines(s)[i]),
    decreases s.len(),
{
    if s.len() > 0 {
        lemma_find_from(s, seq!['\n'], 0);
        match find(s, seq!['\n']) {
            None => {
                assert forall|j: int| 0 <= j < s.len() implies s[j] != '\n' by {
                    lemma_newline_at(s, j);
                }
            },
            Some(k) => {
                lemma_lines_one_line(s.skip((k + 1) as int));
                let head = strip_cr(s.subrange(0, k as int));
                assert forall|j: int| 0 <= j < head.len() implies head[j] != '\n' by {
                    lemma_newline_at(s, j);
                }
                assert forall|i: int| 0 <= i < lines(s).len() implies one_line(
                    #[trigger] lines(s)[i],
                ) by {
                    if i > 0 {
                        assert(lines(s)[i] == lines(s.skip((k + 1) as int))[i - 1]);
                    }
                }
            },
        }
    }
}

/// A join of two or more parts starts with the first part and a separator.
pub proof fn lemma_join_front(xs: Seq<Seq<char>>, sep: Seq<char>)
    requires
        xs.len() >= 2,
    ensures
        join(xs, sep) == xs[0] + sep + join(xs.drop_first(), sep),
    decreases xs.len(),
{
    if xs.len() == 2 {
        assert(xs.drop_last() =~= seq![xs[0]]);
        assert(xs.drop_first() =~= seq![xs[1]]);
        assert(join(seq![xs[0]], sep) == xs[0]);
        assert(join(seq![xs[1]], sep) == xs[1]);
        assert(join(xs, sep) == join(xs.drop_last(), sep) + sep + xs.last());
    } else {
        let d = xs.drop_last();
        let f = xs.drop_first();
        lemma_join_front(d, sep);
        assert(d.drop_first() =~= f.drop_last());
        assert(f.last() == xs.last());
        assert(d[0] == xs[0]);
        assert(join(xs, sep) == join(d, sep) + sep + xs.last());
        assert(join(f, sep) == join(f.drop_last(), sep) + sep + f.last());
        assert(join(d, sep) == d[0] + sep + join(d.drop_first(), sep));
        assert(xs[0] + sep + join(f, sep) =~= xs[0] + sep + join(d.drop_first(), sep) + sep
            + xs.last());
    }
}

/// Every line of the parts joined with line breaks is one of the parts,
/// possibly without its last character.
pub proof fn lemma_lines_of_join(xs: Seq<Seq<char>>)
    requires
        forall|i: int| 0 <= i < xs.len() ==> one_line(#[trigger] xs[i]),
    ensures
        forall|k: int|
            0 <= k < lines(join(xs, seq!['\n'])).len() ==> exists|i: int|
                0 <= i < xs.len() && (#[trigger] lines(join(xs, seq!['\n']))[k] == xs[i] || (xs[i].len()
                    > 0 && lines(join(xs, seq!['\n']))[k] == xs[i].drop_last())),
    decreases xs.len(),
{
    if xs.len() == 0 {
        assert(lines(Seq::<char>::empty()).len() == 0);
    } else if xs.len() == 1 {
        assert(one_line(xs[0]));
        lemma_lines_single(xs[0]);
        assert forall|k: int| 0 <= k < lines(join(xs, seq!['\n'])).len() implies exists|i: int|
            0 <= i < xs.len() && (#[trigger] lines(join(xs, seq!['\n']))[k] == xs[i] || (
            xs[i].len() > 0 && lines(join(xs, seq!['\n']))[k] == xs[i].drop_last())) by {
            assert(lines(join(xs, seq!['\n']))[k] == xs[0]);
        }
    } else {
        let rest = xs.drop_first();
        assert forall|i: int| 0 <= i < rest.len() implies one_line(#[trigger] rest[i]) by {
            assert(rest[i] == xs[i + 1]);
        }
        lemma_lines_of_join(rest);
        lemma_join_front(xs, seq!['\n']);
        assert(one_line(xs[0]));
        lemma_lines_cons(xs[0], join(rest, seq!['\n']));
        let ls = lines(join(xs, seq!['\n']));
        assert forall|k: int| 0 <= k < ls.len() implies exists|i: int|
            0 <= i < xs.len() && (#[trigger] ls[k] == xs[i] || (xs[i].len() > 0 && ls[k]
                == xs[i].drop_last())) by {
            if k == 0 {
                assert(ls[0] == strip_cr(xs[0]));
                assert(ls[0] == xs[0] || (xs[0].len() > 0 && ls[0] == xs[0].drop_last()));
            } else {
                let tail = lines(join(rest, seq!['\n']));
                assert(ls[k] == tail[k - 1]);
                let i = choose|i: int|
                    0 <= i < rest.len() && (#[trigger] tail[k - 1] == rest[i] || (rest[i].len() > 0
                        && tail[k - 1] == rest[i].drop_last()));
                assert(rest[i] == xs[i + 1]);
            }
        }
    }
}

/// The character sequences held by strings.
pub open spec fn string_views(v: Seq<String>) -> Seq<Seq<char>> {
    v.map_values(|s: String| s@)
}

/// The character sequences held by a vector of character vectors.
pub open spec fn views(v: Seq<Vec<char>>) -> Seq<Seq<char>> {
    v.map_values(|x: Vec<char>| x@)
}

/// The parts joined with `sep` between consecutive parts.
pub open spec fn join(parts: Seq<Seq<char>>, sep: Seq<char>) -> Seq<char>
    decreases parts.len(),
{
    if parts.len() == 0 {
        Seq::empty()
    } else if parts.len() == 1 {
        parts[0]
    } else {
        join(parts.drop_last(), sep) + sep + parts.last()
    }
}

/// The decimal digit for `d < 10`.
pub open spec fn digit(d: nat) -> char {
    (('0' as u32) + d) as char
}

/// Decimal representation of `n`, without sign or leading zeros.
pub open spec fn decimal(n: nat) -> Seq<char>
    decreases n,
{
    if n < 10 {
        seq![digit(n)]
    } else {
        decimal(n / 10).push(digit(n % 10))
    }
}

/// Decimal representation with at least two digits (`{:02}`).
pub open spec fn decimal2(n: nat) -> Seq<char> {
    if n < 10 {
        seq!['0', digit(n)]
    } else {
        decimal(n)
    }
}

/// Number of bytes of the UTF-8 encoding of `c`.
pub open spec fn utf8_width(c: char) -> nat {
    let u = c as u32;
    if u < 0x80 {
        1
    } else if u < 0x800 {
        2
    } else if u < 0x10000 {
        3
    } else {
        4
    }
}

/// Number of bytes of the UTF-8 encoding of `s`.
pub open spec fn utf8_len(s: Seq<char>) -> nat
    decreases s.len(),
{
    if s.len() == 0 {
        0
    } else {
        utf8_len(s.drop_last()) + utf8_width(s.last())
    }
}

/// ASCII lower-casing of one character.
pub open spec fn ascii_lower(c: char) -> char {
    if 'A' <= c <= 'Z' {
        ((c as u32) + 32) as char
    } else {
        c
    }
}

/// `a` and `b` are equal ignoring ASCII case.
pub open spec fn eq_ignore_ascii_case(a: Seq<char>, b: Seq<char>) -> bool {
    a.len() == b.len() && forall|i: int| 0 <= i < a.len() ==> ascii_lower(#[trigger] a[i]) == ascii_lower(b[i])
}

/// Name for what `str::to_lowercase` returns: full Unicode lower-casing.
pub uninterp spec fn lowercase(s: Seq<char>) -> Seq<char>;

// ───────────────────────── trusted std items ─────────────────────────

/// Name for what `String::from_utf8_lossy` returns on the given bytes.
pub uninterp spec fn utf8_lossy(bytes: Seq<u8>) -> Seq<char>;

/// `String::from_utf8_lossy`: the result is named by `utf8_lossy`; on valid
/// UTF-8 it is the decoded text. How invalid sequences are replaced is not
/// stated.
#[verifier::external_body]
pub(crate) fn decode_lossy(bytes: &[u8]) -> (r: String)
    ensures
        r@ == utf8_lossy(bytes@),
        valid_utf8(bytes@) ==> r@ == decode_utf8(bytes@),
{
    String::from_utf8_lossy(bytes).into_owned()
}


/// `String::push`: the string afterwards is the old one with `c` appended.
#[verifier::external_body]
pub(crate) fn push_char(s: &mut String, c: char)
    ensures
        final(s)@ == old(s)@.push(c),
{
    s.push(c);
}

/// `str::to_lowercase`: the result is the Unicode lower-casing of `s`,
/// named by `lowercase`; which characters change is not stated here.
#[verifier::external_body]
pub(crate) fn to_lowercase(s: &str) -> (r: String)
    ensures
        r@ == lowercase(s@),
{
    s.to_lowercase()
}

// ───────────────────────── conversions ─────────────────────────

/// Converts a string slice into the vector of its characters.
pub fn to_chars(s: &str) -> (v: Vec<char>)
    ensures
        v@ == s@,
{
    let mut v: Vec<char> = Vec::new();
    for c in it: s.chars()
        invariant
            v@ == it.seq().take(it.index() as int),
            it.seq() == s@,
    {
        v.push(c);
    }
    v
}

/// Builds a `String` from characters.
pub fn from_chars(v: &Vec<char>) -> (s: String)
    ensures
        s@ == v@,
{
    let mut s = String::new();
    let n = v.len();
    for i in 0..n
        invariant
            n == v@.len(),
            s@ == v@.take(i as int),
    {
        push_char(&mut s, v[i]);
        assert(v@.take(i + 1) == v@.take(i as int).push(v@[i as int]));
    }
    assert(v@.take(n as int) == v@);
    s
}

/// Appends all characters of `src` to `dst`.
pub fn extend_chars(dst: &mut Vec<char>, src: &Vec<char>)
    ensures
        final(dst)@ == old(dst)@ + src@,
{
    let n = src.len();
    let ghost d0 = dst@;
    for i in 0..n
        invariant
            n == src@.len(),
            dst@ == d0 + src@.take(i as int),
    {
        dst.push(src[i]);
        assert(src@.take(i + 1) == src@.take(i as int).push(src@[i as int]));
    }
    assert(src@.take(n as int) == src@);
}

/// Appends the characters of a string slice to `dst`.
pub fn extend_str(dst: &mut Vec<char>, src: &str)
    ensures
        final(dst)@ == old(dst)@ + src@,
{
    let v = to_chars(src);
    extend_chars(dst, &v);
}

/// The characters `v[lo..hi]`.
pub fn slice_chars(v: &Vec<char>, lo: usize, hi: usize) -> (r: Vec<char>)
    requires
        lo <= hi <= v@.len(),
    ensures
        r@ == v@.subrange(lo as int, hi as int),
{
    let mut r: Vec<char> = Vec::new();
    let mut i = lo;
    while i < hi
        invariant
            lo <= i <= hi <= v@.len(),
            r@ == v@.subrange(lo as int, i as int),
        decreases hi - i,
    {
        r.push(v[i]);
        assert(v@.subrange(lo as int, i + 1) == v@.subrange(lo as int, i as int).push(v@[i as int]));
        i += 1;
    }
    r
}

// ───────────────────────── predicates ─────────────────────────

/// Tests `is_ws`.
pub fn is_whitespace(c: char) -> (b: bool)
    ensures
        b == is_ws(c),
{
    let u = c as u32;
    (0x09 <= u && u <= 0x0D) || u == 0x20 || u == 0x85 || u == 0xA0 || u == 0x1680 || (0x2000
        <= u && u <= 0x200A) || u == 0x2028 || u == 0x2029 || u == 0x202F || u == 0x205F || u
        == 0x3000
}

/// Tests whether `p` occurs in `s` at position `i`.
pub fn matches_at(s: &Vec<char>, p: &Vec<char>, i: usize) -> (b: bool)
    ensures
        b == occurs_at(s@, p@, i as int),
{
    if i > s.len() || p.len() > s.len() - i {
        return false;
    }
    let n = p.len();
    let mut j: usize = 0;
    while j < n
        invariant
            n == p@.len(),
            i + n <= s.len(),
            j <= n,
            forall|k: int| 0 <= k < j ==> s@[i + k] == p@[k],
        decreases n - j,
    {
        if s[i + j] != p[j] {
            assert(s@.subrange(i as int, i + n)[j as int] != p@[j as int]);
            return false;
        }
        j += 1;
    }
    assert(s@.subrange(i as int, i + n) =~= p@);
    true
}

/// Tests whether `s` starts with `p`.
pub fn has_prefix(s: &Vec<char>, p: &Vec<char>) -> (b: bool)
    ensures
        b == starts_with(s@, p@),
{
    matches_at(s, p, 0)
}

/// Tests whether `s` ends with `p`.
pub fn has_suffix(s: &Vec<char>, p: &Vec<char>) -> (b: bool)
    ensures
        b == ends_with(s@, p@),
{
    if p.len() > s.len() {
        false
    } else {
        matches_at(s, p, s.len() - p.len())
    }
}

/// Tests whether `s` starts with the string slice `p`.
pub fn has_prefix_str(s: &Vec<char>, p: &str) -> (b: bool)
    ensures
        b == starts_with(s@, p@),
{
    let pv = to_chars(p);
    has_prefix(s, &pv)
}

/// Tests whether `s` ends with the string slice `p`.
pub fn has_suffix_str(s: &Vec<char>, p: &str) -> (b: bool)
    ensures
        b == ends_with(s@, p@),
{
    let pv = to_chars(p);
    has_suffix(s, &pv)
}

/// Tests two character sequences for equality.
pub fn chars_eq(a: &Vec<char>, b: &Vec<char>) -> (r: bool)
    ensures
        r == (a@ == b@),
{
    if a.len() != b.len() {
        return false;
    }
    let r = matches_at(a, b, 0);
    assert(a@.subrange(0, b@.len() as int) =~= a@);
    r
}

/// Tests whether `a` equals the string slice `b`.
pub fn chars_eq_str(a: &Vec<char>, b: &str) -> (r: bool)
    ensures
        r == (a@ == b@),
{
    let bv = to_chars(b);
    chars_eq(a, &bv)
}

// ───────────────────────── searching ─────────────────────────

/// First position at or after `from` where `p` occurs in `s`.
pub fn find_chars_from(s: &Vec<char>, p: &Vec<char>, from: usize) -> (r: Option<usize>)
    ensures
        r matches Some(i) ==> find_from(s@, p@, from as nat) == Some(i as nat),
        r is None ==> find_from(s@, p@, from as nat) is None,
    decreases s@.len() - from,
{
    if from > s.len() || p.len() > s.len() - from {
        return None;
    }
    if matches_at(s, p, from) {
        Some(from)
    } else {
        assert(from < s.len()) by {
            if from == s.len() {
                assert(s@.subrange(from as int, from as int) =~= p@);
            }
        }
        find_chars_from(s, p, from + 1)
    }
}

/// First position where `p` occurs in `s`.
pub fn find_chars(s: &Vec<char>, p: &Vec<char>) -> (r: Option<usize>)
    ensures
        r matches Some(i) ==> find(s@, p@) == Some(i as nat),
        r is None ==> find(s@, p@) is None,
{
    find_chars_from(s, p, 0)
}

/// First position where the string slice `p` occurs in `s`.
pub fn find_str(s: &Vec<char>, p: &str) -> (r: Option<usize>)
    ensures
        r matches Some(i) ==> find(s@, p@) == Some(i as nat),
        r is None ==> find(s@, p@) is None,
{
    let pv = to_chars(p);
    find_chars(s, &pv)
}

/// Tests whether the string slice `p` occurs in `s`.
pub fn contains_str(s: &Vec<char>, p: &str) -> (b: bool)
    ensures
        b == contains(s@, p@),
{
    find_str(s, p).is_some()
}

/// First position of the character `c` in `s`.
pub fn find_char(s: &Vec<char>, c: char) -> (r: Option<usize>)
    ensures
        r matches Some(i) ==> find(s@, seq![c]) == Some(i as nat),
        r is None ==> find(s@, seq![c]) is None,
{
    let mut p: Vec<char> = Vec::new();
    p.push(c);
    assert(p@ =~= seq![c]);
    find_chars(s, &p)
}

/// Last position where `p` occurs in `s`.
pub fn rfind_chars(s: &Vec<char>, p: &Vec<char>) -> (r: Option<usize>)
    ensures
        r matches Some(i) ==> rfind(s@, p@) == Some(i as nat),
        r is None ==> rfind(s@, p@) is None,
{
    if p.len() > s.len() {
        assert(rfind_upto(s@, p@, s@.len() - p@.len()) is None);
        return None;
    }
    let mut i: usize = s.len() - p.len();
    loop
        invariant
            p@.len() <= s@.len(),
            i <= s@.len() - p@.len(),
            rfind(s@, p@) == rfind_upto(s@, p@, i as int),
        decreases i,
    {
        if matches_at(s, p, i) {
            return Some(i);
        }
        if i == 0 {
            assert(rfind_upto(s@, p@, -1) is None);
            return None;
        }
        i -= 1;
    }
}

/// Last position of the character `c` in `s`.
pub fn rfind_char(s: &Vec<char>, c: char) -> (r: Option<usize>)
    ensures
        r matches Some(i) ==> rfind(s@, seq![c]) == Some(i as nat),
        r is None ==> rfind(s@, seq![c]) is None,
{
    let mut p: Vec<char> = Vec::new();
    p.push(c);
    assert(p@ =~= seq![c]);
    rfind_chars(s, &p)
}

// ───────────────────────── trimming ─────────────────────────

proof fn lemma_trim_start_skip(s: Seq<char>, i: int)
    requires
        0 <= i < s.len(),
        is_ws(s[i]),
    ensures
        trim_start(s.skip(i)) == trim_start(s.skip(i + 1)),
{
    assert(s.skip(i).drop_first() =~= s.skip(i + 1));
}

proof fn lemma_trim_end_take(s: Seq<char>, j: int)
    requires
        0 < j <= s.len(),
        is_ws(s[j - 1]),
    ensures
        trim_end(s.take(j)) == trim_end(s.take(j - 1)),
{
    assert(s.take(j).drop_last() =~= s.take(j - 1));
}

/// Position of the first non-whitespace character (or the length).
pub fn trim_start_index(s: &Vec<char>) -> (i: usize)
    ensures
        i <= s@.len(),
        trim_start(s@) == s@.skip(i as int),
{
    let mut i: usize = 0;
    assert(s@.skip(0) =~= s@);
    while i < s.len() && is_whitespace(s[i])
        invariant
            i <= s@.len(),
            trim_start(s@) == trim_start(s@.skip(i as int)),
        decreases s@.len() - i,
    {
        proof {
            lemma_trim_start_skip(s@, i as int);
        }
        i += 1;
    }
    i
}

/// `s` without leading whitespace.
pub fn trim_start_chars(s: &Vec<char>) -> (r: Vec<char>)
    ensures
        r@ == trim_start(s@),
{
    let i = trim_start_index(s);
    let r = slice_chars(s, i, s.len());
    assert(r@ =~= s@.skip(i as int));
    r
}

/// `s` without trailing whitespace.
pub fn trim_end_chars(s: &Vec<char>) -> (r: Vec<char>)
    ensures
        r@ == trim_end(s@),
{
    let mut j: usize = s.len();
    assert(s@.take(s@.len() as int) =~= s@);
    while j > 0 && is_whitespace(s[j - 1])
        invariant
            j <= s@.len(),
            trim_end(s@) == trim_end(s@.take(j as int)),
        decreases j,
    {
        proof {
            lemma_trim_end_take(s@, j as int);
        }
        j -= 1;
    }
    let r = slice_chars(s, 0, j);
    assert(r@ =~= s@.take(j as int));
    r
}

/// `s` without whitespace at either end.
pub fn trim_chars(s: &Vec<char>) -> (r: Vec<char>)
    ensures
        r@ == trim(s@),
{
    let a = trim_start_chars(s);
    trim_end_chars(&a)
}

// ───────────────────────── lines and joining ─────────────────────────

/// `l` without a final `'\r'`.
pub fn strip_cr_chars(l: Vec<char>) -> (r: Vec<char>)
    ensures
        r@ == strip_cr(l@),
{
    let mut l = l;
    if l.len() > 0 && l[l.len() - 1] == '\r' {
        l.pop();
    }
    l
}

/// The lines of `s` (see `lines`).
pub fn split_lines(s: &Vec<char>) -> (r: Vec<Vec<char>>)
    ensures
        views(r@) == lines(s@),
{
    let mut r: Vec<Vec<char>> = Vec::new();
    let mut pos: usize = 0;
    assert(s@.skip(0) =~= s@);
    while pos < s.len()
        invariant
            pos <= s@.len(),
            lines(s@) == views(r@) + lines(s@.skip(pos as int)),
        decreases s@.len() - pos,
    {
        let ghost rest = s@.skip(pos as int);
        let rest_v = slice_chars(s, pos, s.len());
        assert(rest_v@ =~= rest);
        match find_char(&rest_v, '\n') {
            None => {
                let ghost old_r = views(r@);
                r.push(rest_v);
                assert(views(r@) =~= old_r.push(rest));
                assert(s@.skip(s@.len() as int) =~= Seq::<char>::empty());
                assert(lines(rest) == seq![rest]);
                assert(old_r + seq![rest] =~= old_r.push(rest));
                pos = s.len();
            },
            Some(i) => {
                proof {
                    lemma_find_from(rest, seq!['\n'], 0);
                }
                let ghost old_r = views(r@);
                let line = slice_chars(&rest_v, 0, i);
                let line = strip_cr_chars(line);
                r.push(line);
                assert(views(r@) =~= old_r.push(strip_cr(rest.subrange(0, i as int))));
                assert(rest.skip(i + 1) =~= s@.skip(pos + i + 1));
                assert(lines(rest) == seq![strip_cr(rest.subrange(0, i as int))] + lines(
                    rest.skip(i + 1),
                ));
                assert(old_r + lines(rest) =~= old_r.push(strip_cr(rest.subrange(0, i as int)))
                    + lines(rest.skip(i + 1)));
                pos = pos + i + 1;
            },
        }
    }
    assert(s@.skip(pos as int) =~= Seq::<char>::empty());
    assert(lines(Seq::<char>::empty()) =~= Seq::<Seq<char>>::empty());
    assert(views(r@) + Seq::<Seq<char>>::empty() =~= views(r@));
    r
}

/// The parts joined with `sep` between consecutive parts.
pub fn join_chars(parts: &Vec<Vec<char>>, sep: &Vec<char>) -> (r: Vec<char>)
    ensures
        r@ == join(views(parts@), sep@),
{
    let mut r: Vec<char> = Vec::new();
    let n = parts.len();
    let ghost pv = views(parts@);
    for i in 0..n
        invariant
            n == parts@.len(),
            pv == views(parts@),
            r@ == join(pv.take(i as int), sep@),
    {
        let ghost prev = pv.take(i as int);
        assert(pv.take(i + 1).drop_last() =~= prev);
        assert(pv.take(i + 1).last() == parts[i as int]@);
        if i > 0 {
            extend_chars(&mut r, sep);
        } else {
            assert(pv.take(1) =~= seq![parts[0]@]);
        }
        extend_chars(&mut r, &parts[i]);
    }
    assert(pv.take(n as int) =~= pv);
    r
}

// ───────────────────────── numbers ─────────────────────────

proof fn lemma_decimal_nonempty(n: nat)
    ensures
        decimal(n).len() >= 1,
    decreases n,
{
    if n >= 10 {
        lemma_decimal_nonempty(n / 10);
    }
}

/// Every character of a decimal representation is an ASCII digit, its last
/// digit is that of `n % 10`, and it is a single digit exactly below ten.
pub proof fn lemma_decimal_digits(n: nat)
    ensures
        decimal(n).len() >= 1,
        forall|i: int| 0 <= i < decimal(n).len() ==> '0' <= #[trigger] decimal(n)[i] <= '9',
        decimal(n).last() == digit(n % 10),
        decimal(n).len() == 1 <==> n < 10,
    decreases n,
{
    if n >= 10 {
        lemma_decimal_digits(n / 10);
        assert forall|i: int| 0 <= i < decimal(n).len() implies '0' <= #[trigger] decimal(n)[i]
            <= '9' by {
            if i < decimal(n / 10).len() {
                assert(decimal(n)[i] == decimal(n / 10)[i]);
            }
        }
    }
}

/// The digit of `d < 10` is `'0'` only for zero.
pub proof fn lemma_digit_zero(d: nat)
    requires
        d < 10,
    ensures
        '0' <= digit(d) <= '9',
        digit(d) == '0' <==> d == 0,
{
}

/// Decimal representation of `n`.
pub fn decimal_chars(n: u64) -> (r: Vec<char>)
    ensures
        r@ == decimal(n as nat),
    decreases n,
{
    if n < 10 {
        let mut r: Vec<char> = Vec::new();
        let c = char_from_digit(n as u32);
        r.push(c);
        assert(r@ =~= seq![digit(n as nat)]);
        r
    } else {
        let mut r = decimal_chars(n / 10);
        let c = char_from_digit((n % 10) as u32);
        r.push(c);
        r
    }
}

/// The digit character for `d < 10`.
pub fn char_from_digit(d: u32) -> (c: char)
    requires
        d < 10,
    ensures
        c == digit(d as nat),
{
    if d == 0 { '0' }
    else if d == 1 { '1' }
    else if d == 2 { '2' }
    else if d == 3 { '3' }
    else if d == 4 { '4' }
    else if d == 5 { '5' }
    else if d == 6 { '6' }
    else if d == 7 { '7' }
    else if d == 8 { '8' }
    else { '9' }
}

/// Decimal representation with at least two digits.
pub fn decimal2_chars(n: u64) -> (r: Vec<char>)
    ensures
        r@ == decimal2(n as nat),
{
    if n < 10 {
        let mut r: Vec<char> = Vec::new();
        r.push('0');
        r.push(char_from_digit(n as u32));
        assert(r@ =~= seq!['0', digit(n as nat)]);
        r
    } else {
        decimal_chars(n)
    }
}

// ───────────────────────── case ─────────────────────────

/// ASCII lower-casing of one character.
pub fn ascii_lower_char(c: char) -> (r: char)
    ensures
        r == ascii_lower(c),
{
    if 'A' <= c && c <= 'Z' {
        let u = (c as u32) + 32;
        assert(0x61 <= u <= 0x7A);
        char_from_u32_ascii(u)
    } else {
        c
    }
}

/// The character of an ASCII code point.
fn char_from_u32_ascii(u: u32) -> (c: char)
    requires
        u < 0x80,
    ensures
        c as u32 == u,
{
    let b = u as u8;
    let c = b as char;
    c
}

/// Tests `eq_ignore_ascii_case`.
pub fn chars_eq_ignore_ascii_case(a: &Vec<char>, b: &Vec<char>) -> (r: bool)
    ensures
        r == eq_ignore_ascii_case(a@, b@),
{
    if a.len() != b.len() {
        return false;
    }
    let n = a.len();
    for i in 0..n
        invariant
            n == a@.len(),
            n == b@.len(),
            forall|k: int| 0 <= k < i ==> ascii_lower(#[trigger] a@[k]) == ascii_lower(b@[k]),
    {
        if ascii_lower_char(a[i]) != ascii_lower_char(b[i]) {
            return false;
        }
    }
    true
}


// ───────────────────────── repeated prefixes and suffixes ─────────────────────────

/// `s` with every leading repetition of a non-empty `p` removed.
pub open spec fn strip_prefixes(s: Seq<char>, p: Seq<char>) -> Seq<char>
    decreases s.len(),
{
    if p.len() > 0 && starts_with(s, p) {
        strip_prefixes(s.skip(p.len() as int), p)
    } else {
        s
    }
}

/// `s` with every trailing repetition of a non-empty `p` removed.
pub open spec fn strip_suffixes(s: Seq<char>, p: Seq<char>) -> Seq<char>
    decreases s.len(),
{
    if p.len() > 0 && ends_with(s, p) {
        strip_suffixes(s.take(s.len() - p.len()), p)
    } else {
        s
    }
}

/// `s` without leading repetitions of `p` (`trim_start_matches`).
pub fn strip_prefixes_chars(s: &Vec<char>, p: &str) -> (r: Vec<char>)
    ensures
        r@ == strip_prefixes(s@, p@),
{
    let pv = to_chars(p);
    if pv.len() == 0 {
        return slice_chars(s, 0, s.len());
    }
    let mut i: usize = 0;
    assert(s@.skip(0) =~= s@);
    loop
        invariant
            pv@ == p@,
            pv@.len() > 0,
            i <= s@.len(),
            strip_prefixes(s@, p@) == strip_prefixes(s@.skip(i as int), p@),
        decreases s@.len() - i,
    {
        let rest = slice_chars(s, i, s.len());
        assert(rest@ =~= s@.skip(i as int));
        if has_prefix(&rest, &pv) {
            assert(s@.skip(i as int).skip(pv@.len() as int) =~= s@.skip(i + pv@.len()));
            i = i + pv.len();
        } else {
            return rest;
        }
    }
}

/// `s` without trailing repetitions of `p` (`trim_end_matches`).
pub fn strip_suffixes_chars(s: &Vec<char>, p: &str) -> (r: Vec<char>)
    ensures
        r@ == strip_suffixes(s@, p@),
{
    let pv = to_chars(p);
    if pv.len() == 0 {
        return slice_chars(s, 0, s.len());
    }
    let mut j: usize = s.len();
    assert(s@.take(s@.len() as int) =~= s@);
    loop
        invariant
            pv@ == p@,
            pv@.len() > 0,
            j <= s@.len(),
            strip_suffixes(s@, p@) == strip_suffixes(s@.take(j as int), p@),
        decreases j,
    {
        let head = slice_chars(s, 0, j);
        assert(head@ =~= s@.take(j as int));
        if has_suffix(&head, &pv) {
            assert(s@.take(j as int).take(j - pv@.len()) =~= s@.take(j - pv@.len()));
            j = j - pv.len();
        } else {
            return head;
        }
    }
}


// ───────────────────────── fenced replies ─────────────────────────

/// A reply without the code fence a model may wrap JSON in: backticks
/// stripped from both ends, then a leading `json` tag, then whitespace.
pub open spec fn unfence(s: Seq<char>) -> Seq<char> {
    trim(strip_prefixes(strip_suffixes(strip_prefixes(s, "`"@), "`"@), "json"@))
}

/// `s.trim_matches('`').trim_start_matches("json").trim()`.
pub fn unfence_chars(s: &Vec<char>) -> (r: Vec<char>)
    ensures
        r@ == unfence(s@),
{
    let a = strip_prefixes_chars(s, "`");
    let b = strip_suffixes_chars(&a, "`");
    let c = strip_prefixes_chars(&b, "json");
    trim_chars(&c)
}

/// A model's reply made ready for a JSON parser: trimmed, then unfenced.
pub fn clean_json_reply(raw: &str) -> (r: String)
    ensures
        r@ == unfence(trim(raw@)),
{
    let v = to_chars(raw);
    let t = trim_chars(&v);
    let u = unfence_chars(&t);
    from_chars(&u)
}


// ───────────────────────── splitting on a character ─────────────────────────

/// The pieces of `s` between occurrences of `c`, empty pieces included, as
/// `str::split` with a character yields them (one empty piece for `""`).
pub open spec fn split_on(s: Seq<char>, c: char) -> Seq<Seq<char>>
    decreases s.len(),
{
    match find(s, seq![c]) {
        None => seq![s],
        Some(i) => {
            proof {
                lemma_find_from(s, seq![c], 0);
            }
            seq![s.take(i as int)] + split_on(s.skip((i + 1) as int), c)
        },
    }
}

/// The pieces of `s` between occurrences of `c` (see `split_on`).
pub fn split_char(s: &Vec<char>, c: char) -> (r: Vec<Vec<char>>)
    ensures
        views(r@) == split_on(s@, c),
{
    let mut r: Vec<Vec<char>> = Vec::new();
    let mut pos: usize = 0;
    assert(s@.skip(0) =~= s@);
    loop
        invariant
            pos <= s@.len(),
            split_on(s@, c) == views(r@) + split_on(s@.skip(pos as int), c),
        decreases s@.len() - pos,
    {
        let ghost rest = s@.skip(pos as int);
        let rest_v = slice_chars(s, pos, s.len());
        assert(rest_v@ =~= rest);
        let ghost old_r = views(r@);
        match find_char(&rest_v, c) {
            None => {
                r.push(rest_v);
                assert(views(r@) =~= old_r.push(rest));
                assert(old_r + seq![rest] =~= old_r.push(rest));
                return r;
            },
            Some(i) => {
                proof {
                    lemma_find_from(rest, seq![c], 0);
                }
                let piece = slice_chars(&rest_v, 0, i);
                r.push(piece);
                assert(views(r@) =~= old_r.push(rest.take(i as int)));
                assert(rest.skip(i + 1) =~= s@.skip(pos + i + 1));
                assert(old_r + split_on(rest, c) =~= old_r.push(rest.take(i as int)) + split_on(
                    rest.skip(i + 1),
                    c,
                ));
                pos = pos + i + 1;
            },
        }
    }
}


/// A reply without the Markdown code fence a model may wrap it in: trimmed,
/// leading "```json" and "```" fences and trailing "```" fences removed, then
/// trimmed again.
pub open spec fn unfence_code(s: Seq<char>) -> Seq<char> {
    trim(strip_suffixes(strip_prefixes(strip_prefixes(trim(s), "```json"@), "```"@), "```"@))
}

/// Removes the Markdown code fence around a reply (see `unfence_code`).
pub fn strip_code_fences(raw: &str) -> (r: String)
    ensures
        r@ == unfence_code(raw@),
{
    let v = to_chars(raw);
    let a = trim_chars(&v);
    let b = strip_prefixes_chars(&a, "```json");
    let c = strip_prefixes_chars(&b, "```");
    let d = strip_suffixes_chars(&c, "```");
    let e = trim_chars(&d);
    from_chars(&e)
}


// ───────────────────────── replacing ─────────────────────────

/// `s` with every occurrence of a non-empty `p` replaced by `r`, scanning
/// left to right without overlaps, as `str::replace` does.
pub open spec fn replace_all(s: Seq<char>, p: Seq<char>, r: Seq<char>) -> Seq<char>
    decreases s.len(),
{
    if p.len() == 0 {
        s
    } else {
        match find(s, p) {
            None => s,
            Some(i) => {
                proof {
                    lemma_find_from(s, p, 0);
                }
                s.take(i as int) + r + replace_all(s.skip((i + p.len()) as int), p, r)
            },
        }
    }
}

/// Replaces every occurrence of `p` in `s` by `r` (see `replace_all`).
pub fn replace_chars(s: &Vec<char>, p: &str, r: &str) -> (out: Vec<char>)
    requires
        p@.len() > 0,
    ensures
        out@ == replace_all(s@, p@, r@),
{
    let pv = to_chars(p);
    let plen = pv.len();
    let total = s.len();
    let mut out: Vec<char> = Vec::new();
    let mut pos: usize = 0;
    assert(s@.skip(0) =~= s@);
    loop
        invariant
            pv@ == p@,
            plen == p@.len(),
            plen > 0,
            total == s@.len(),
            pos <= total,
            replace_all(s@, p@, r@) == out@ + replace_all(s@.skip(pos as int), p@, r@),
        decreases total - pos,
    {
        let rest = slice_chars(s, pos, total);
        assert(rest@ =~= s@.skip(pos as int));
        match find_chars(&rest, &pv) {
            None => {
                let ghost before = out@;
                extend_chars(&mut out, &rest);
                return out;
            },
            Some(i) => {
                proof {
                    lemma_find_from(rest@, p@, 0);
                }
                let ghost before = out@;
                let head = slice_chars(&rest, 0, i);
                extend_chars(&mut out, &head);
                extend_str(&mut out, r);
                assert(head@ =~= rest@.take(i as int));
                assert(rest@.skip(i + p@.len()) =~= s@.skip(pos + i + plen));
                assert(before + replace_all(rest@, p@, r@) =~= out@ + replace_all(
                    rest@.skip(i + p@.len()),
                    p@,
                    r@,
                ));
                pos = pos + i + plen;
            },
        }
    }
}

/// The number of bytes of the UTF-8 encoding of `c`.
pub fn char_utf8_width(c: char) -> (w: usize)
    ensures
        w == utf8_width(c),
{
    let u = c as u32;
    if u < 0x80 {
        1
    } else if u < 0x800 {
        2
    } else if u < 0x10000 {
        3
    } else {
        4
    }
}

/// The longest prefix of `s` whose UTF-8 encoding has at most `k` bytes: a
/// cut that would fall inside a character is moved back to that
/// character's start.
pub open spec fn byte_prefix(s: Seq<char>, k: nat) -> Seq<char>
    decreases s.len(),
{
    if k == 0 || s.len() == 0 {
        Seq::empty()
    } else if utf8_width(s[0]) <= k {
        seq![s[0]] + byte_prefix(s.drop_first(), (k - utf8_width(s[0])) as nat)
    } else {
        Seq::empty()
    }
}

/// The longest prefix of `s` within `k` bytes (see `byte_prefix`).
pub fn byte_prefix_chars(s: &Vec<char>, k: usize) -> (r: Vec<char>)
    ensures
        r@ == byte_prefix(s@, k as nat),
{
    let n = s.len();
    let mut i: usize = 0;
    let mut left: usize = k;
    assert(s@.skip(0) =~= s@);
    assert(s@.take(0) =~= Seq::<char>::empty());
    while i < n && left > 0
        invariant
            n == s@.len(),
            i <= n,
            left <= k,
            byte_prefix(s@, k as nat) == s@.take(i as int) + byte_prefix(s@.skip(i as int), left as nat),
        decreases n - i,
    {
        let w = char_utf8_width(s[i]);
        assert(s@.skip(i as int)[0] == s@[i as int]);
        assert(s@.skip(i as int).drop_first() =~= s@.skip(i + 1));
        if w > left {
            assert(s@.take(i as int) + Seq::<char>::empty() =~= s@.take(i as int));
            return slice_chars(s, 0, i);
        }
        assert(s@.take(i + 1) =~= s@.take(i as int) + seq![s@[i as int]]);
        proof {
            let tail = byte_prefix(s@.skip(i + 1), (left - w) as nat);
            assert(s@.take(i as int) + (seq![s@[i as int]] + tail) =~= s@.take(i + 1) + tail);
        }
        left = left - w;
        i = i + 1;
    }
    proof {
        if i < n {
            assert(left == 0);
        } else {
            assert(s@.skip(i as int) =~= Seq::<char>::empty());
        }
        assert(s@.take(i as int) + Seq::<char>::empty() =~= s@.take(i as int));
    }
    slice_chars(s, 0, i)
}

} // verus!
