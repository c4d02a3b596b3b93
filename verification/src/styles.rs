//! Terminal rendering of the model's Markdown answers: how each line of an
//! answer is classified (code fences, headings, lists, rules), how inline
//! code and bold spans are found, and how they are painted.
//!
//! Printing stays with the caller; painting goes through `colored`, which
//! decides from the environment whether to emit colour codes.

use vstd::prelude::*;
use vstd::string::*;
use crate::brain::is_digit;
use crate::text::{
    extend_chars, extend_str, find, find_char, find_chars, from_chars, has_prefix_str,
    lemma_find_from, lines, replace_all, slice_chars, split_lines, starts_with, strip_prefixes,
    strip_prefixes_chars, to_chars, trim, trim_chars, views, chars_eq_str,
};

verus! {

// ───────────────────────── painting ─────────────────────────

/// The escape sequence that ends a painted span.
pub const RESET: &'static str = "\u{1b}[0m";

/// The style `on_bright_black().yellow()` opens with.
pub const CODE_STYLE: &'static str = "\u{1b}[100;33m";

/// The style `bold().white()` opens with.
pub const BOLD_STYLE: &'static str = "\u{1b}[1;37m";

/// `text` painted in `style`: the style, the text with the style reopened
/// after every reset inside it, and a reset.
pub open spec fn painted(text: Seq<char>, style: Seq<char>) -> Seq<char> {
    style + replace_all(text, RESET@, RESET@ + style) + RESET@
}

/// `text.on_bright_black().yellow()` from `colored`, displayed: the text
/// painted, or the text as it is when `colored` does not colour (which the
/// environment decides).
#[verifier::external_body]
fn paint_code(text: &str) -> (r: String)
    ensures
        r@ == text@ || r@ == painted(text@, CODE_STYLE@),
{
    colored::Colorize::yellow(colored::Colorize::on_bright_black(text)).to_string()
}

/// `text.bold().white()` from `colored`, displayed: the text painted, or the
/// text as it is when `colored` does not colour.
#[verifier::external_body]
fn paint_bold(text: &str) -> (r: String)
    ensures
        r@ == text@ || r@ == painted(text@, BOLD_STYLE@),
{
    colored::Colorize::white(colored::Colorize::bold(text)).to_string()
}

// ───────────────────────── inline spans ─────────────────────────

/// A piece of a line as inline styling sees it.
pub enum Span {
    /// Plain text.
    Text(String),
    /// Text between backticks.
    Code(String),
    /// Text between `**` pairs.
    Bold(String),
}

/// A span with its text as characters.
pub enum SpanView {
    Text(Seq<char>),
    Code(Seq<char>),
    Bold(Seq<char>),
}

/// The view of a span.
pub open spec fn span_view(s: Span) -> SpanView {
    match s {
        Span::Text(t) => SpanView::Text(t@),
        Span::Code(t) => SpanView::Code(t@),
        Span::Bold(t) => SpanView::Bold(t@),
    }
}

/// The views of spans.
pub open spec fn span_views(v: Seq<Span>) -> Seq<SpanView> {
    v.map_values(|s: Span| span_view(s))
}

/// Where the scan of a line is: in plain text, in code, or in bold text.
pub enum ScanMode {
    InText,
    InCode,
    InBold,
}

/// A `**` pair starts at position `i` of `s`.
pub open spec fn pair_at(s: Seq<char>, i: int) -> bool {
    0 <= i && i + 1 < s.len() && s[i] == '*' && s[i + 1] == '*'
}

/// The spans found so far with the plain text read since the last span.
pub open spec fn flushed(out: Seq<SpanView>, text: Seq<char>) -> Seq<SpanView> {
    if text.len() == 0 {
        out
    } else {
        out.push(SpanView::Text(text))
    }
}

/// The spans found so far, with the one still open at the end of the line.
pub open spec fn closed(mode: ScanMode, acc: Seq<char>, out: Seq<SpanView>) -> Seq<SpanView> {
    match mode {
        ScanMode::InText => flushed(out, acc),
        ScanMode::InCode => out.push(SpanView::Code(acc)),
        ScanMode::InBold => out.push(SpanView::Bold(acc)),
    }
}

/// Scans a line from position `i` in `mode`, with `acc` read into the open
/// span and `out` found so far. In text, a backtick opens code and `**`
/// opens bold; in code, a backtick closes it; in bold, `**` closes it; any
/// other character joins the text or span being read. A span still open at
/// the end of the line is closed there.
pub open spec fn scan(
    s: Seq<char>,
    i: int,
    mode: ScanMode,
    acc: Seq<char>,
    out: Seq<SpanView>,
) -> Seq<SpanView>
    decreases s.len() - i,
{
    if i < 0 || i >= s.len() {
        closed(mode, acc, out)
    } else {
        let c = s[i];
        match mode {
            ScanMode::InText => if c == '`' {
                scan(s, i + 1, ScanMode::InCode, Seq::empty(), flushed(out, acc))
            } else if pair_at(s, i) {
                scan(s, i + 2, ScanMode::InBold, Seq::empty(), flushed(out, acc))
            } else {
                scan(s, i + 1, ScanMode::InText, acc.push(c), out)
            },
            ScanMode::InCode => if c == '`' {
                scan(s, i + 1, ScanMode::InText, Seq::empty(), out.push(SpanView::Code(acc)))
            } else {
                scan(s, i + 1, ScanMode::InCode, acc.push(c), out)
            },
            ScanMode::InBold => if pair_at(s, i) {
                scan(s, i + 2, ScanMode::InText, Seq::empty(), out.push(SpanView::Bold(acc)))
            } else {
                scan(s, i + 1, ScanMode::InBold, acc.push(c), out)
            },
        }
    }
}

/// The spans of a line (see `scan`).
pub open spec fn spans(s: Seq<char>) -> Seq<SpanView> {
    scan(s, 0, ScanMode::InText, Seq::empty(), Seq::empty())
}

/// Appends the pending plain text as a span, if there is any.
fn flush(out: &mut Vec<Span>, text: &Vec<char>)
    ensures
        span_views(final(out)@) == flushed(span_views(old(out)@), text@),
{
    if text.len() > 0 {
        let ghost before = span_views(out@);
        out.push(Span::Text(from_chars(text)));
        assert(span_views(out@) =~= before.push(SpanView::Text(text@)));
    }
}

/// Splits a line into spans (see `spans`).
pub fn inline_spans(text: &Vec<char>) -> (r: Vec<Span>)
    ensures
        span_views(r@) == spans(text@),
{
    let mut out: Vec<Span> = Vec::new();
    let n = text.len();
    let mut i: usize = 0;
    let mut mode = ScanMode::InText;
    let mut acc: Vec<char> = Vec::new();
    assert(span_views(out@) =~= Seq::<SpanView>::empty());
    assert(acc@ =~= Seq::<char>::empty());
    while i < n
        invariant
            n == text@.len(),
            i <= n,
            spans(text@) == scan(text@, i as int, mode, acc@, span_views(out@)),
        decreases n - i,
    {
        let c = text[i];
        let pair = c == '*' && i + 1 < n && text[i + 1] == '*';
        assert(pair == pair_at(text@, i as int));
        let ghost before = span_views(out@);
        match mode {
            ScanMode::InText => {
                if c == '`' {
                    flush(&mut out, &acc);
                    mode = ScanMode::InCode;
                    acc = Vec::new();
                    assert(acc@ =~= Seq::<char>::empty());
                    i = i + 1;
                } else if pair {
                    flush(&mut out, &acc);
                    mode = ScanMode::InBold;
                    acc = Vec::new();
                    assert(acc@ =~= Seq::<char>::empty());
                    i = i + 2;
                } else {
                    acc.push(c);
                    i = i + 1;
                }
            },
            ScanMode::InCode => {
                if c == '`' {
                    let done = from_chars(&acc);
                    out.push(Span::Code(done));
                    assert(span_views(out@) =~= before.push(SpanView::Code(acc@)));
                    mode = ScanMode::InText;
                    acc = Vec::new();
                    assert(acc@ =~= Seq::<char>::empty());
                    i = i + 1;
                } else {
                    acc.push(c);
                    i = i + 1;
                }
            },
            ScanMode::InBold => {
                if pair {
                    let done = from_chars(&acc);
                    out.push(Span::Bold(done));
                    assert(span_views(out@) =~= before.push(SpanView::Bold(acc@)));
                    mode = ScanMode::InText;
                    acc = Vec::new();
                    assert(acc@ =~= Seq::<char>::empty());
                    i = i + 2;
                } else {
                    acc.push(c);
                    i = i + 1;
                }
            },
        }
    }
    let ghost before = span_views(out@);
    match mode {
        ScanMode::InText => {
            flush(&mut out, &acc);
        },
        ScanMode::InCode => {
            let done = from_chars(&acc);
            out.push(Span::Code(done));
            assert(span_views(out@) =~= before.push(SpanView::Code(acc@)));
        },
        ScanMode::InBold => {
            let done = from_chars(&acc);
            out.push(Span::Bold(done));
            assert(span_views(out@) =~= before.push(SpanView::Bold(acc@)));
        },
    }
    out
}

/// How a span is shown; `colour` says whether `colored` painted it.
pub open spec fn span_text(s: SpanView, colour: bool) -> Seq<char> {
    match s {
        SpanView::Text(t) => t,
        SpanView::Code(t) => if colour {
            painted(t, CODE_STYLE@)
        } else {
            t
        },
        SpanView::Bold(t) => if colour {
            painted(t, BOLD_STYLE@)
        } else {
            t
        },
    }
}

/// The first `n` spans shown, `colour[i]` telling whether span `i` was
/// painted.
pub open spec fn rendered(s: Seq<SpanView>, colour: Seq<bool>, n: nat) -> Seq<char>
    decreases n,
{
    if n == 0 {
        Seq::empty()
    } else {
        rendered(s, colour, (n - 1) as nat) + span_text(s[n - 1], colour[n - 1])
    }
}

/// A line with its inline code and bold spans painted (each as `colored`
/// decides) and every other character as it is.
pub fn style_inline(text: &str) -> (r: String)
    ensures
        exists|colour: Seq<bool>|
            colour.len() == spans(text@).len() && r@ == #[trigger] rendered(
                spans(text@),
                colour,
                spans(text@).len(),
            ),
{
    let t = to_chars(text);
    let sp = inline_spans(&t);
    let ghost sv = span_views(sp@);
    let ghost mut colour: Seq<bool> = Seq::empty();
    let mut out: Vec<char> = Vec::new();
    let n = sp.len();
    for i in 0..n
        invariant
            n == sp@.len(),
            sv == span_views(sp@),
            colour.len() == i,
            out@ == rendered(sv, colour, i as nat),
    {
        let ghost before = out@;
        let ghost colour_old = colour;
        assert(sv[i as int] == span_view(sp@[i as int]));
        match &sp[i] {
            Span::Text(c) => {
                extend_str(&mut out, c.as_str());
                proof {
                    colour = colour.push(false);
                }
                assert(out@ =~= before + span_text(sv[i as int], colour[i as int]));
            },
            Span::Code(c) => {
                let p = paint_code(c.as_str());
                extend_str(&mut out, p.as_str());
                proof {
                    colour = colour.push(p@ != c@);
                }
                assert(out@ =~= before + span_text(sv[i as int], colour[i as int]));
            },
            Span::Bold(c) => {
                let p = paint_bold(c.as_str());
                extend_str(&mut out, p.as_str());
                proof {
                    colour = colour.push(p@ != c@);
                }
                assert(out@ =~= before + span_text(sv[i as int], colour[i as int]));
            },
        }
        assert(rendered(sv, colour, (i + 1) as nat) == rendered(sv, colour.drop_last(), i as nat)
            + span_text(sv[i as int], colour[i as int])) by {
            assert(colour.drop_last() =~= colour.take(i as int));
            lemma_rendered_prefix(sv, colour, colour.drop_last(), i as nat);
        }
        assert(colour.drop_last() =~= colour_old);
    }
    assert(rendered(spans(text@), colour, spans(text@).len()) == out@);
    from_chars(&out)
}

/// Rendering the first `n` spans looks only at the first `n` colour flags.
proof fn lemma_rendered_prefix(s: Seq<SpanView>, a: Seq<bool>, b: Seq<bool>, n: nat)
    requires
        n <= a.len(),
        n <= b.len(),
        forall|i: int| 0 <= i < n ==> a[i] == b[i],
    ensures
        rendered(s, a, n) == rendered(s, b, n),
    decreases n,
{
    if n > 0 {
        lemma_rendered_prefix(s, a, b, (n - 1) as nat);
    }
}


// ───────────────────────── numbered items ─────────────────────────

/// The number of ASCII digits `s` starts with.
pub open spec fn digit_run(s: Seq<char>) -> nat
    decreases s.len(),
{
    if s.len() > 0 && is_digit(s[0]) {
        1 + digit_run(s.drop_first())
    } else {
        0
    }
}

/// The text of a numbered list item (`12. text`): what follows the digits,
/// the dot and the space; `None` for any other line.
pub open spec fn numbered_item(line: Seq<char>) -> Option<Seq<char>> {
    let i = digit_run(line);
    if i > 0 && i + 1 < line.len() && line[i as int] == '.' && line[(i + 1) as int] == ' ' {
        Some(line.skip((i + 2) as int))
    } else {
        None
    }
}

proof fn lemma_digit_run(s: Seq<char>, i: int)
    requires
        0 <= i <= s.len(),
        forall|k: int| 0 <= k < i ==> is_digit(#[trigger] s[k]),
    ensures
        digit_run(s) == i + digit_run(s.skip(i)),
    decreases i,
{
    if i > 0 {
        assert(s.skip(1).skip(i - 1) =~= s.skip(i));
        lemma_digit_run(s.skip(1), i - 1);
        assert(s.skip(1) =~= s.drop_first());
    } else {
        assert(s.skip(0) =~= s);
    }
}

/// The text of a numbered list item (see `numbered_item`).
pub fn get_numbered_item(line: &str) -> (r: Option<&str>)
    ensures
        r matches Some(t) ==> numbered_item(line@) == Some(t@),
        r is None <==> numbered_item(line@) is None,
{
    let v = to_chars(line);
    let n = v.len();
    let mut i: usize = 0;
    while i < n && '0' <= v[i] && v[i] <= '9'
        invariant
            n == v@.len(),
            i <= n,
            forall|k: int| 0 <= k < i ==> is_digit(#[trigger] v@[k]),
        decreases n - i,
    {
        i += 1;
    }
    proof {
        lemma_digit_run(v@, i as int);
        if i < n {
            assert(!is_digit(v@.skip(i as int)[0]));
        } else {
            assert(v@.skip(i as int).len() == 0);
        }
    }
    if i > 0 && n - i > 1 && v[i] == '.' && v[i + 1] == ' ' {
        let len = line.unicode_len();
        Some(line.substring_char(i + 2, len))
    } else {
        None
    }
}

// ───────────────────────── lines ─────────────────────────

/// How a line of an answer is shown.
pub enum StyledLine {
    /// A code fence opening a block in the language named (or `code`).
    FenceOpen(String),
    /// The fence closing a code block.
    FenceClose,
    /// A line inside a code block.
    Code(String),
    /// A heading of the level (1 to 3) with its text.
    Heading(u8, String),
    /// A bullet item's text.
    Bullet(String),
    /// A numbered item's text.
    Numbered(String),
    /// A horizontal rule.
    Rule,
    /// An empty line.
    Blank,
    /// Any other line.
    Text(String),
}

/// A styled line with its text as characters.
pub enum LineView {
    FenceOpen(Seq<char>),
    FenceClose,
    Code(Seq<char>),
    Heading(u8, Seq<char>),
    Bullet(Seq<char>),
    Numbered(Seq<char>),
    Rule,
    Blank,
    Text(Seq<char>),
}

/// The view of a styled line.
pub open spec fn line_view(l: StyledLine) -> LineView {
    match l {
        StyledLine::FenceOpen(t) => LineView::FenceOpen(t@),
        StyledLine::FenceClose => LineView::FenceClose,
        StyledLine::Code(t) => LineView::Code(t@),
        StyledLine::Heading(k, t) => LineView::Heading(k, t@),
        StyledLine::Bullet(t) => LineView::Bullet(t@),
        StyledLine::Numbered(t) => LineView::Numbered(t@),
        StyledLine::Rule => LineView::Rule,
        StyledLine::Blank => LineView::Blank,
        StyledLine::Text(t) => LineView::Text(t@),
    }
}

/// The views of styled lines.
pub open spec fn line_views(v: Seq<StyledLine>) -> Seq<LineView> {
    v.map_values(|l: StyledLine| line_view(l))
}

/// The language a fence names (`code` when it names none).
pub open spec fn fence_label(line: Seq<char>) -> Seq<char> {
    if strip_prefixes(line, "`"@).len() == 0 {
        "code"@
    } else {
        strip_prefixes(line, "`"@)
    }
}

/// How one line is shown outside a code block.
pub open spec fn outside_style(line: Seq<char>) -> LineView {
    if starts_with(line, "### "@) {
        LineView::Heading(3, trim(strip_prefixes(line, "#"@)))
    } else if starts_with(line, "## "@) {
        LineView::Heading(2, trim(strip_prefixes(line, "#"@)))
    } else if starts_with(line, "# "@) {
        LineView::Heading(1, trim(strip_prefixes(line, "#"@)))
    } else if starts_with(line, "- "@) || starts_with(line, "* "@) {
        LineView::Bullet(line.skip(2))
    } else if numbered_item(line) is Some {
        LineView::Numbered(numbered_item(line)->0)
    } else if trim(line) == "---"@ || trim(line) == "***"@ {
        LineView::Rule
    } else if trim(line).len() == 0 {
        LineView::Blank
    } else {
        LineView::Text(line)
    }
}

/// How the first `n` lines are shown, and whether line `n` starts inside a
/// code block: a line starting with three backticks opens a block (or closes
/// the open one); inside a block every other line is code.
pub open spec fn styled(ls: Seq<Seq<char>>, n: nat) -> (Seq<LineView>, bool)
    decreases n,
{
    if n == 0 {
        (Seq::empty(), false)
    } else {
        let prev = styled(ls, (n - 1) as nat);
        let l = ls[n - 1];
        if starts_with(l, "```"@) {
            if prev.1 {
                (prev.0.push(LineView::FenceClose), false)
            } else {
                (prev.0.push(LineView::FenceOpen(fence_label(l))), true)
            }
        } else if prev.1 {
            (prev.0.push(LineView::Code(l)), true)
        } else {
            (prev.0.push(outside_style(l)), false)
        }
    }
}

proof fn lemma_heading_text(line: Seq<char>, k: int)
    requires
        1 <= k <= 2,
        k < line.len(),
        forall|j: int| 0 <= j < k ==> line[j] == '#',
        line[k] == ' ',
    ensures
        trim(strip_prefixes(line, "#"@)) == trim(line.skip(k + 1)),
{
    reveal_strlit("#");
    let p = "#"@;
    assert(line.subrange(0, 1) =~= p);
    let r1 = line.skip(1);
    if k == 2 {
        assert(r1.subrange(0, 1) =~= p);
        assert(r1.skip(1) =~= line.skip(2));
    }
    let rest = line.skip(k);
    if starts_with(rest, p) {
        assert(rest.subrange(0, 1)[0] == rest[0]);
    }
    assert(strip_prefixes(rest, p) == rest);
    if k == 2 {
        assert(strip_prefixes(r1, p) == strip_prefixes(r1.skip(1), p));
    }
    assert(strip_prefixes(line, p) == strip_prefixes(r1, p));
    assert(strip_prefixes(line, p) == rest);
    assert(crate::text::is_ws(rest[0]));
    assert(rest.drop_first() =~= line.skip(k + 1));
    assert(crate::text::trim_start(rest) == crate::text::trim_start(line.skip(k + 1)));
}

/// A heading line is shown as a heading of its level with the text after
/// its marker, trimmed: a line starting with `# ` at level 1, and one
/// starting with `## ` (but not `### `) at level 2.
pub proof fn law_heading_levels(line: Seq<char>)
    ensures
        starts_with(line, "# "@) ==> outside_style(line) == LineView::Heading(
            1,
            trim(line.skip(2)),
        ),
        starts_with(line, "## "@) && !starts_with(line, "### "@) ==> outside_style(line)
            == LineView::Heading(2, trim(line.skip(3))),
{
    reveal_strlit("# ");
    reveal_strlit("## ");
    reveal_strlit("### ");
    if starts_with(line, "# "@) {
        assert(line.subrange(0, 2)[0] == line[0]);
        assert(line.subrange(0, 2)[1] == line[1]);
        if starts_with(line, "### "@) {
            assert(line.subrange(0, 4)[1] == line[1]);
        }
        if starts_with(line, "## "@) {
            assert(line.subrange(0, 3)[1] == line[1]);
        }
        lemma_heading_text(line, 1);
    }
    if starts_with(line, "## "@) && !starts_with(line, "### "@) {
        assert(line.subrange(0, 3)[0] == line[0]);
        assert(line.subrange(0, 3)[1] == line[1]);
        assert(line.subrange(0, 3)[2] == line[2]);
        lemma_heading_text(line, 2);
    }
}

proof fn lemma_styled_prefix(ls: Seq<Seq<char>>, n: nat, k: int)
    requires
        0 <= k < n <= ls.len(),
    ensures
        styled(ls, n).0.len() == n,
        styled(ls, n).0[k] == styled(ls, (k + 1) as nat).0[k],
    decreases n,
{
    lemma_styled_len(ls, n);
    if n > (k + 1) as nat {
        lemma_styled_len(ls, (n - 1) as nat);
        lemma_styled_prefix(ls, (n - 1) as nat, k);
    }
}

proof fn lemma_styled_len(ls: Seq<Seq<char>>, n: nat)
    ensures
        styled(ls, n).0.len() == n,
    decreases n,
{
    if n > 0 {
        lemma_styled_len(ls, (n - 1) as nat);
    }
}

/// In an answer's lines, a line outside any code block that starts with
/// `## ` (and not `### `) is shown as a level-2 heading of its text after the
/// marker, trimmed, and one that starts with `# ` as a level-1 heading.
pub proof fn law_answer_headings(ls: Seq<Seq<char>>, k: int)
    requires
        0 <= k < ls.len(),
        !styled(ls, k as nat).1,
    ensures
        starts_with(ls[k], "## "@) && !starts_with(ls[k], "### "@) ==> styled(
            ls,
            ls.len(),
        ).0[k] == LineView::Heading(2, trim(ls[k].skip(3))),
        starts_with(ls[k], "# "@) ==> styled(ls, ls.len()).0[k] == LineView::Heading(
            1,
            trim(ls[k].skip(2)),
        ),
{
    reveal_strlit("## ");
    reveal_strlit("# ");
    reveal_strlit("```");
    lemma_styled_prefix(ls, ls.len(), k);
    lemma_styled_len(ls, k as nat);
    law_heading_levels(ls[k]);
    if starts_with(ls[k], "```"@) {
        assert(ls[k].subrange(0, 3)[0] == ls[k][0]);
        assert(ls[k].subrange(0, 3)[1] == ls[k][1]);
        if starts_with(ls[k], "## "@) {
            assert(ls[k].subrange(0, 3)[0] == ls[k][0]);
        }
        if starts_with(ls[k], "# "@) {
            assert(ls[k].subrange(0, 2)[0] == ls[k][0]);
        }
    }
}

fn outside_line(l: &Vec<char>) -> (r: StyledLine)
    ensures
        line_view(r) == outside_style(l@),
{
    if has_prefix_str(l, "### ") {
        let t = strip_prefixes_chars(l, "#");
        StyledLine::Heading(3, from_chars(&trim_chars(&t)))
    } else if has_prefix_str(l, "## ") {
        let t = strip_prefixes_chars(l, "#");
        StyledLine::Heading(2, from_chars(&trim_chars(&t)))
    } else if has_prefix_str(l, "# ") {
        let t = strip_prefixes_chars(l, "#");
        StyledLine::Heading(1, from_chars(&trim_chars(&t)))
    } else if has_prefix_str(l, "- ") || has_prefix_str(l, "* ") {
        proof {
            reveal_strlit("- ");
            reveal_strlit("* ");
        }
        let rest = slice_chars(l, 2, l.len());
        assert(rest@ =~= l@.skip(2));
        StyledLine::Bullet(from_chars(&rest))
    } else {
        let s = from_chars(l);
        match get_numbered_item(s.as_str()) {
            Some(t) => StyledLine::Numbered(t.to_owned()),
            None => {
                let t = trim_chars(l);
                if chars_eq_str(&t, "---") || chars_eq_str(&t, "***") {
                    StyledLine::Rule
                } else if t.len() == 0 {
                    StyledLine::Blank
                } else {
                    StyledLine::Text(s)
                }
            },
        }
    }
}

/// Classifies the lines of an answer for display (see `styled`).
pub fn styled_lines(response: &str) -> (r: Vec<StyledLine>)
    ensures
        line_views(r@) == styled(lines(response@), lines(response@).len()).0,
{
    let v = to_chars(response);
    let ls = split_lines(&v);
    let ghost lv = views(ls@);
    let n = ls.len();
    let mut out: Vec<StyledLine> = Vec::new();
    let mut inside = false;
    for i in 0..n
        invariant
            n == ls@.len(),
            lv == views(ls@),
            line_views(out@) == styled(lv, i as nat).0,
            inside == styled(lv, i as nat).1,
    {
        let l = &ls[i];
        assert(lv[i as int] == l@);
        let ghost before = line_views(out@);
        let item = if has_prefix_str(l, "```") {
            if inside {
                inside = false;
                StyledLine::FenceClose
            } else {
                inside = true;
                let label = strip_prefixes_chars(l, "`");
                if label.len() == 0 {
                    StyledLine::FenceOpen("code".to_owned())
                } else {
                    StyledLine::FenceOpen(from_chars(&label))
                }
            }
        } else if inside {
            StyledLine::Code(from_chars(l))
        } else {
            outside_line(l)
        };
        out.push(item);
        assert(line_views(out@) =~= before.push(line_view(item)));
    }
    out
}

} // verus!
