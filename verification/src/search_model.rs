//! Keyword search over the indexed workspace paths: the prompts that ask the
//! model for keywords and for a validation of the matches, how a JSON array
//! of strings is read from a model's answer, and how paths are scored
//! against the keywords and ranked.
//!
//! Loading the path index and checking what each path is stay with the
//! caller.

use vstd::prelude::*;
use vstd::utf8::encode_utf8;
use crate::text::{
    contains, contains_str, extend_str, find, find_char, from_chars, lowercase, rfind,
    rfind_char, slice_chars, string_views, to_chars, to_lowercase, trim, trim_chars, unfence,
    unfence_chars, lemma_find_from, lemma_rfind_upto,
};

verus! {

// ───────────────────────── trusted outside calls ─────────────────────────

/// Name for what `serde_json::from_str::<Vec<String>>` gives for a text:
/// the strings of a JSON array of strings, or `None` when the text is not
/// one.
pub uninterp spec fn json_string_array(text: Seq<char>) -> Option<Seq<Seq<char>>>;

/// Name for the score `SkimMatcherV2::default().fuzzy_match` gives a choice
/// for a pattern (`None` when the pattern does not match).
pub uninterp spec fn skim_score(choice: Seq<char>, pattern: Seq<char>) -> Option<i64>;

/// Name for how `{:?}` displays a list of strings.
pub uninterp spec fn debug_list(items: Seq<Seq<char>>) -> Seq<char>;

/// `serde_json::from_str::<Vec<String>>`: the result is named by
/// `json_string_array`; the parse error itself is dropped.
#[verifier::external_body]
pub(crate) fn parse_string_array(text: &str) -> (r: Option<Vec<String>>)
    ensures
        r matches Some(v) ==> json_string_array(text@) == Some(string_views(v@)),
        r is None <==> json_string_array(text@) is None,
{
    serde_json::from_str::<Vec<String>>(text).ok()
}

/// `fuzzy_matcher::skim::SkimMatcherV2::default().fuzzy_match`: the score
/// is named by `skim_score`; an empty pattern scores 0.
#[verifier::external_body]
fn fuzzy_score(choice: &str, pattern: &str) -> (r: Option<i64>)
    ensures
        r == skim_score(choice@, pattern@),
        pattern@.len() == 0 ==> r == Some(0i64),
{
    fuzzy_matcher::FuzzyMatcher::fuzzy_match(
        &fuzzy_matcher::skim::SkimMatcherV2::default(),
        choice,
        pattern,
    )
}

/// `format!("{:?}", items)` on a list of strings: the text is named by
/// `debug_list`.
#[verifier::external_body]
fn debug_strings(items: &Vec<String>) -> (r: String)
    ensures
        r@ == debug_list(string_views(items@)),
{
    format!("{:?}", items)
}

// ───────────────────────── prompts ─────────────────────────

/// The keyword prompt, up to the request.
pub const KEYWORDS_HEAD: &'static str = "Return ONLY a JSON array of search keyword fragments to help our file ranking engine find the target path. Break the user's request '";

/// The keyword prompt after the request.
pub const KEYWORDS_TAIL: &'static str = "' down into independent atomic concepts (e.g., base names, module identifiers, component tags, specific dates/versions, or relevant file extensions). For example, 'auth controller python test' converts to [\"auth\", \"controller\", \"test\", \".py\"]; 'show title year 2 vol 2' converts to [\"show title\", \"year 2\", \"volume 2\", \"Y2\", \"Vol 2\", \"V2\"]. Provide ~15-25 variations/abbreviations of these identifying fragments. No markdown, no explanations, ONLY the JSON array.";

/// The validation prompt, up to the request.
pub const VALIDATION_HEAD: &'static str = "Here are potential file paths matching the user's request: '";

/// The validation prompt between the request and the paths.
pub const VALIDATION_MID: &'static str = "'. Validate which paths are the most accurate matches. Return ONLY a JSON array of the best matching file path strings. No markdown, no explanations, no wrappers. Paths: ";

/// The prompt asking the model for search keywords for a request.
pub fn keyword_prompt(query: &str) -> (r: String)
    ensures
        r@ == KEYWORDS_HEAD@ + query@ + KEYWORDS_TAIL@,
{
    let mut t: Vec<char> = Vec::new();
    extend_str(&mut t, KEYWORDS_HEAD);
    extend_str(&mut t, query);
    extend_str(&mut t, KEYWORDS_TAIL);
    from_chars(&t)
}

/// The prompt asking the model which of the top paths match the request;
/// the paths are listed as `{:?}` shows them.
pub fn validation_prompt(query: &str, paths: &Vec<String>) -> (r: String)
    ensures
        r@ == VALIDATION_HEAD@ + query@ + VALIDATION_MID@ + debug_list(string_views(paths@)),
{
    let listed = debug_strings(paths);
    let mut t: Vec<char> = Vec::new();
    extend_str(&mut t, VALIDATION_HEAD);
    extend_str(&mut t, query);
    extend_str(&mut t, VALIDATION_MID);
    extend_str(&mut t, listed.as_str());
    from_chars(&t)
}

// ───────────────────────── reading the model's arrays ─────────────────────────

/// The strings of the JSON array in a model's answer: the span from the
/// first `[` to the last `]` of the trimmed answer, unfenced and parsed;
/// empty when there is no such span or it does not parse.
pub open spec fn answer_strings(output: Seq<char>) -> Seq<Seq<char>> {
    let text = trim(output);
    match (find(text, seq!['[']), rfind(text, seq![']'])) {
        (Some(s), Some(e)) => if s < e {
            match json_string_array(unfence(text.subrange(s as int, (e + 1) as int))) {
                Some(v) => v,
                None => Seq::empty(),
            }
        } else {
            Seq::empty()
        },
        _ => Seq::empty(),
    }
}

/// Reads the JSON array of strings in a model's answer (see
/// `answer_strings`).
pub fn extract_json_array(output: &str) -> (r: Vec<String>)
    ensures
        string_views(r@) == answer_strings(output@),
{
    let o = to_chars(output);
    let text = trim_chars(&o);
    let empty: Vec<String> = Vec::new();
    assert(string_views(empty@) =~= Seq::<Seq<char>>::empty());
    let start = match find_char(&text, '[') {
        Some(s) => s,
        None => return empty,
    };
    let end = match rfind_char(&text, ']') {
        Some(e) => e,
        None => return empty,
    };
    if start >= end {
        return empty;
    }
    proof {
        lemma_rfind_upto(text@, seq![']'], text@.len() - 1);
    }
    let total = text.len();
    assert(end + 1 <= total);
    let slice = slice_chars(&text, start, end + 1);
    let cleaned = unfence_chars(&slice);
    let s = from_chars(&cleaned);
    match parse_string_array(s.as_str()) {
        Some(v) => v,
        None => empty,
    }
}

/// The strings of a JSON array of strings, `None` when the text is not one.
pub fn string_array(data: &str) -> (r: Option<Vec<String>>)
    ensures
        r matches Some(v) ==> json_string_array(data@) == Some(string_views(v@)),
        r is None <==> json_string_array(data@) is None,
{
    parse_string_array(data)
}

/// The indexed workspace paths of a `paths.json` text: its array of
/// strings, or none when it is not one.
pub fn indexed_paths(data: &str) -> (r: Vec<String>)
    ensures
        json_string_array(data@) matches Some(v) ==> string_views(r@) == v,
        json_string_array(data@) is None ==> r@.len() == 0,
{
    match parse_string_array(data) {
        Some(v) => v,
        None => Vec::new(),
    }
}

// ───────────────────────── scoring ─────────────────────────

/// What a keyword adds to a path's score: 1000 plus ten per byte of the
/// lower-cased keyword when the lower-cased path contains it, else the
/// fuzzy score of the lower-cased keyword against the path; `None` when
/// neither matches.
pub open spec fn term(path: Seq<char>, keyword: Seq<char>) -> Option<int> {
    let k = lowercase(keyword);
    if contains(lowercase(path), k) {
        Some((1000 + encode_utf8(k).len() * 10) as int)
    } else {
        match skim_score(path, k) {
            Some(s) => Some(s as int),
            None => None,
        }
    }
}

/// The sum of the first `n` keywords' contributions and how many matched.
pub open spec fn tally(path: Seq<char>, ks: Seq<Seq<char>>, n: nat) -> (int, nat)
    decreases n,
{
    if n == 0 {
        (0, 0)
    } else {
        let p = tally(path, ks, (n - 1) as nat);
        match term(path, ks[n - 1]) {
            Some(t) => (p.0 + t, p.1 + 1),
            None => p,
        }
    }
}

/// `x` fits in an `i64`.
pub open spec fn fits_i64(x: int) -> bool {
    i64::MIN <= x <= i64::MAX
}

/// Every contribution and every running sum over the first `n` keywords
/// fits in an `i64`.
pub open spec fn tally_fits(path: Seq<char>, ks: Seq<Seq<char>>, n: nat) -> bool
    decreases n,
{
    n == 0 || (tally_fits(path, ks, (n - 1) as nat) && match term(path, ks[n - 1]) {
        Some(t) => fits_i64(t) && fits_i64(tally(path, ks, (n - 1) as nat).0 + t),
        None => true,
    })
}

/// A path's score: the sum of the keywords' contributions times the number
/// of keywords that matched, when the sum is positive.
pub open spec fn path_score(path: Seq<char>, ks: Seq<Seq<char>>) -> Option<int> {
    let t = tally(path, ks, ks.len());
    if t.0 > 0 {
        Some(t.0 * t.1)
    } else {
        None
    }
}

/// The score of a path is computed in `i64` without overflow.
pub open spec fn score_fits(path: Seq<char>, ks: Seq<Seq<char>>) -> bool {
    &&& tally_fits(path, ks, ks.len())
    &&& path_score(path, ks) matches Some(v) ==> fits_i64(v)
}

proof fn lemma_tally_fits_prefix(path: Seq<char>, ks: Seq<Seq<char>>, m: nat, n: nat)
    requires
        m <= n,
        tally_fits(path, ks, n),
    ensures
        tally_fits(path, ks, m),
    decreases n,
{
    if m < n {
        lemma_tally_fits_prefix(path, ks, m, (n - 1) as nat);
    }
}

/// Scores a path against the keywords (see `path_score`): `Some(None)`
/// when the path does not score, and `None` when a sum or the product
/// leaves the `i64` range.
pub fn score_path(path: &str, keywords: &Vec<String>) -> (r: Option<Option<i64>>)
    ensures
        r is None <==> !score_fits(path@, string_views(keywords@)),
        r matches Some(s) ==> match s {
            Some(v) => path_score(path@, string_views(keywords@)) == Some(v as int),
            None => path_score(path@, string_views(keywords@)) is None,
        },
{
    let ghost ks = string_views(keywords@);
    let pl = to_lowercase(path);
    let plv = to_chars(pl.as_str());
    let n = keywords.len();
    let mut total: i64 = 0;
    let mut count: u64 = 0;
    for i in 0..n
        invariant
            n == keywords@.len(),
            ks == string_views(keywords@),
            plv@ == lowercase(path@),
            tally_fits(path@, ks, i as nat),
            total as int == tally(path@, ks, i as nat).0,
            count as nat == tally(path@, ks, i as nat).1,
            count <= i,
    {
        assert(ks[i as int] == keywords@[i as int]@);
        let kl = to_lowercase(keywords[i].as_str());
        let t: Option<i128> = if contains_str(&plv, kl.as_str()) {
            let len = kl.as_str().as_bytes().len();
            Some(1000 + (len as i128) * 10)
        } else {
            match fuzzy_score(path, kl.as_str()) {
                Some(s) => Some(s as i128),
                None => None,
            }
        };
        assert(t matches Some(v) ==> term(path@, ks[i as int]) == Some(v as int));
        assert(t is None ==> term(path@, ks[i as int]) is None);
        match t {
            Some(v) => {
                if v < i64::MIN as i128 || v > i64::MAX as i128 {
                    proof {
                        if tally_fits(path@, ks, ks.len()) {
                            lemma_tally_fits_prefix(path@, ks, (i + 1) as nat, ks.len());
                        }
                    }
                    return None;
                }
                let sum = total as i128 + v;
                if sum < i64::MIN as i128 || sum > i64::MAX as i128 {
                    proof {
                        if tally_fits(path@, ks, ks.len()) {
                            lemma_tally_fits_prefix(path@, ks, (i + 1) as nat, ks.len());
                        }
                    }
                    return None;
                }
                total = sum as i64;
                count = count + 1;
            },
            None => {},
        }
    }
    if total > 0 {
        assert(0 < total <= i64::MAX);
        assert(count <= u64::MAX);
        assert((total as int) * (count as int) <= (i64::MAX as int) * (u64::MAX as int)) by (nonlinear_arith)
            requires
                0 < total <= i64::MAX,
                count <= u64::MAX,
        ;
        assert((total as int) * (count as int) >= 0) by (nonlinear_arith)
            requires
                0 < total,
        ;
        let product = total as i128 * count as i128;
        if product < i64::MIN as i128 || product > i64::MAX as i128 {
            return None;
        }
        Some(Some(product as i64))
    } else {
        Some(None)
    }
}


// ───────────────────────── ranking ─────────────────────────

/// The paths among the first `n` that score, with their scores, in order
/// (a path whose score leaves the `i64` range is left out).
pub open spec fn scored(paths: Seq<Seq<char>>, ks: Seq<Seq<char>>, n: nat) -> Seq<(Seq<char>, int)>
    decreases n,
{
    if n == 0 {
        Seq::empty()
    } else {
        let prev = scored(paths, ks, (n - 1) as nat);
        let p = paths[n - 1];
        if score_fits(p, ks) && path_score(p, ks) is Some {
            prev.push((p, path_score(p, ks)->0))
        } else {
            prev
        }
    }
}

/// Where an item scoring `v` goes in a list ranked by descending score:
/// after every item scoring at least `v`.
pub open spec fn slot(ranked: Seq<(Seq<char>, int)>, v: int) -> nat
    decreases ranked.len(),
{
    if ranked.len() == 0 || ranked[0].1 < v {
        0
    } else {
        1 + slot(ranked.drop_first(), v)
    }
}

/// The items ranked by descending score, items of equal score in their
/// original order.
pub open spec fn ranked(items: Seq<(Seq<char>, int)>) -> Seq<(Seq<char>, int)>
    decreases items.len(),
{
    if items.len() == 0 {
        Seq::empty()
    } else {
        let r = ranked(items.drop_last());
        r.insert(slot(r, items.last().1) as int, items.last())
    }
}

/// The views of scored paths.
pub open spec fn score_views(v: Seq<(String, i64)>) -> Seq<(Seq<char>, int)> {
    v.map_values(|x: (String, i64)| (x.0@, x.1 as int))
}

proof fn lemma_slot_bound(r: Seq<(Seq<char>, int)>, v: int)
    ensures
        slot(r, v) <= r.len(),
    decreases r.len(),
{
    if r.len() > 0 && r[0].1 >= v {
        lemma_slot_bound(r.drop_first(), v);
    }
}

proof fn lemma_slot_step(r: Seq<(Seq<char>, int)>, v: int, j: int)
    requires
        0 <= j < r.len(),
        r[j].1 >= v,
        slot(r, v) == j + slot(r.skip(j), v),
    ensures
        slot(r, v) == j + 1 + slot(r.skip(j + 1), v),
{
    assert(r.skip(j).drop_first() =~= r.skip(j + 1));
}

/// Scores every path against the keywords and ranks those that score by
/// descending score (equal scores keep the paths' order).
pub fn fuzzy_search(keywords: &Vec<String>, paths: &Vec<String>) -> (r: Vec<(String, i64)>)
    ensures
        score_views(r@) == ranked(scored(string_views(paths@), string_views(keywords@), paths@.len())),
{
    let ghost ks = string_views(keywords@);
    let ghost ps = string_views(paths@);
    let mut out: Vec<(String, i64)> = Vec::new();
    let n = paths.len();
    assert(score_views(out@) =~= Seq::<(Seq<char>, int)>::empty());
    for i in 0..n
        invariant
            n == paths@.len(),
            ks == string_views(keywords@),
            ps == string_views(paths@),
            score_views(out@) == ranked(scored(ps, ks, i as nat)),
    {
        assert(ps[i as int] == paths@[i as int]@);
        match score_path(paths[i].as_str(), keywords) {
            Some(Some(v)) => {
                let ghost before = score_views(out@);
                let m = out.len();
                let mut j: usize = 0;
                assert(before.skip(0) =~= before);
                while j < m && out[j].1 >= v
                    invariant
                        m == out@.len(),
                        before == score_views(out@),
                        j <= m,
                        slot(before, v as int) == j + slot(before.skip(j as int), v as int),
                    decreases m - j,
                {
                    assert(before[j as int] == (out@[j as int].0@, out@[j as int].1 as int));
                    proof {
                        lemma_slot_step(before, v as int, j as int);
                    }
                    j += 1;
                }
                proof {
                    if j < m {
                        assert(before[j as int] == (out@[j as int].0@, out@[j as int].1 as int));
                        assert(before.skip(j as int)[0] == before[j as int]);
                    }
                }
                assert(slot(before, v as int) == j);
                let item = (paths[i].clone(), v);
                out.insert(j, item);
                assert(score_views(out@) =~= before.insert(j as int, (paths@[i as int]@, v as int)));
                assert(scored(ps, ks, (i + 1) as nat) == scored(ps, ks, i as nat).push(
                    (ps[i as int], v as int),
                ));
                assert(scored(ps, ks, (i + 1) as nat).drop_last() =~= scored(ps, ks, i as nat));
            },
            _ => {},
        }
    }
    out
}

/// The paths of the first `k` ranked items (all when there are fewer).
pub fn top_paths(matched: &Vec<(String, i64)>, k: usize) -> (r: Vec<String>)
    ensures
        string_views(r@) == score_views(matched@).take(
            if k <= matched@.len() { k as int } else { matched@.len() as int },
        ).map_values(|x: (Seq<char>, int)| x.0),
{
    let n = if k <= matched.len() { k } else { matched.len() };
    let ghost sv = score_views(matched@);
    let mut r: Vec<String> = Vec::new();
    for i in 0..n
        invariant
            n <= matched@.len(),
            sv == score_views(matched@),
            string_views(r@) == sv.take(i as int).map_values(|x: (Seq<char>, int)| x.0),
    {
        let ghost before = string_views(r@);
        r.push(matched[i].0.clone());
        assert(string_views(r@) =~= before.push(matched@[i as int].0@));
        assert(sv.take(i + 1).map_values(|x: (Seq<char>, int)| x.0) =~= sv.take(i as int).map_values(
            |x: (Seq<char>, int)| x.0,
        ).push(sv[i as int].0));
    }
    r
}

/// The paths a search returns: those the model validated, or, when it
/// validated none, the first five of the fuzzy matches.
pub fn chosen_paths(validated: Vec<String>, top: &Vec<String>) -> (r: Vec<String>)
    ensures
        validated@.len() > 0 ==> r@ == validated@,
        validated@.len() == 0 ==> string_views(r@) == string_views(top@).take(
            if top@.len() < 5 { top@.len() as int } else { 5 },
        ),
{
    if validated.len() > 0 {
        return validated;
    }
    let n = if top.len() < 5 { top.len() } else { 5 };
    let mut r: Vec<String> = Vec::new();
    for i in 0..n
        invariant
            n <= top@.len(),
            string_views(r@) == string_views(top@).take(i as int),
    {
        let ghost before = string_views(r@);
        r.push(top[i].clone());
        assert(string_views(r@) =~= before.push(top@[i as int]@));
        assert(string_views(top@).take(i + 1) =~= string_views(top@).take(i as int).push(
            top@[i as int]@,
        ));
    }
    r
}

/// The ranking is by descending score: no item is followed by one that
/// scores more.
pub proof fn law_ranking_descends(items: Seq<(Seq<char>, int)>)
    ensures
        forall|i: int, j: int|
            0 <= i < j < ranked(items).len() ==> ranked(items)[i].1 >= ranked(items)[j].1,
    decreases items.len(),
{
    if items.len() > 0 {
        let r = ranked(items.drop_last());
        law_ranking_descends(items.drop_last());
        let x = items.last();
        lemma_slot_bound(r, x.1);
        lemma_slot_split(r, x.1);
        let s = slot(r, x.1) as int;
        let out = r.insert(s, x);
        assert forall|i: int, j: int| 0 <= i < j < out.len() implies out[i].1 >= out[j].1 by {
            if j < s {
            } else if j == s {
                assert(r[i].1 >= x.1);
            } else if i < s {
                assert(r[i].1 >= r[j - 1].1);
            } else if i == s {
                assert(r[j - 1].1 < x.1 || j - 1 < s);
            } else {
                assert(r[i - 1].1 >= r[j - 1].1);
            }
        }
    }
}

/// Ranking neither drops nor adds anything: the ranked list holds exactly
/// the scored items, each as often as before.
pub proof fn law_ranking_keeps_items(items: Seq<(Seq<char>, int)>)
    ensures
        ranked(items).to_multiset() == items.to_multiset(),
    decreases items.len(),
{
    if items.len() > 0 {
        let prev = items.drop_last();
        law_ranking_keeps_items(prev);
        let r = ranked(prev);
        lemma_slot_bound(r, items.last().1);
        let x = items.last();
        vstd::seq_lib::to_multiset_insert(r, slot(r, x.1) as int, x);
        vstd::seq_lib::to_multiset_build(prev, x);
        assert(prev.push(x) =~= items);
        assert(ranked(items) == r.insert(slot(r, x.1) as int, x));
        assert(ranked(items).to_multiset() == r.to_multiset().insert(x));
        assert(items.to_multiset() == prev.to_multiset().insert(x));
    } else {
        assert(ranked(items) =~= items);
    }
}

proof fn lemma_filter_none(s: Seq<(Seq<char>, int)>, pred: spec_fn((Seq<char>, int)) -> bool)
    requires
        forall|i: int| 0 <= i < s.len() ==> !pred(#[trigger] s[i]),
    ensures
        s.filter(pred) == Seq::<(Seq<char>, int)>::empty(),
    decreases s.len(),
{
    if s.len() == 0 {
        s.lemma_filter_len(pred);
        assert(s.filter(pred) =~= Seq::<(Seq<char>, int)>::empty());
    } else {
        let p = s.drop_last();
        assert forall|i: int| 0 <= i < p.len() implies !pred(#[trigger] p[i]) by {
            assert(p[i] == s[i]);
        }
        lemma_filter_none(p, pred);
        p.lemma_filter_push(s.last(), pred);
        assert(p.push(s.last()) =~= s);
    }
}

/// Ranking is stable: for every score, the items with that score come out
/// in the order they went in.
pub proof fn law_ranking_stable(items: Seq<(Seq<char>, int)>, v: int)
    ensures
        ranked(items).filter(|x: (Seq<char>, int)| x.1 == v) == items.filter(
            |x: (Seq<char>, int)| x.1 == v,
        ),
    decreases items.len(),
{
    let pred = |x: (Seq<char>, int)| x.1 == v;
    if items.len() == 0 {
        assert(ranked(items) =~= items);
    } else {
        let prev = items.drop_last();
        let x = items.last();
        law_ranking_stable(prev, v);
        law_ranking_descends(prev);
        let r = ranked(prev);
        lemma_slot_bound(r, x.1);
        lemma_slot_split(r, x.1);
        let k = slot(r, x.1) as int;
        let a = r.take(k);
        let b = r.skip(k);
        let one = seq![x];
        assert(ranked(items) == r.insert(k, x));
        assert(r.insert(k, x) =~= a + one + b);
        assert(r =~= a + b);
        Seq::filter_distributes_over_add(a + one, b, pred);
        Seq::filter_distributes_over_add(a, one, pred);
        Seq::filter_distributes_over_add(a, b, pred);
        Seq::<(Seq<char>, int)>::empty().lemma_filter_push(x, pred);
        Seq::<(Seq<char>, int)>::empty().lemma_filter_len(pred);
        assert(Seq::<(Seq<char>, int)>::empty().push(x) =~= one);
        prev.lemma_filter_push(x, pred);
        assert(prev.push(x) =~= items);
        if v == x.1 {
            assert forall|i: int| 0 <= i < b.len() implies !pred(#[trigger] b[i]) by {
                assert(b[i] == r[k + i]);
                if i > 0 {
                    assert(r[k].1 >= r[k + i].1);
                }
            }
            lemma_filter_none(b, pred);
            assert(ranked(items).filter(pred) =~= a.filter(pred) + one.filter(pred));
            assert(r.filter(pred) =~= a.filter(pred));
        } else {
            assert(one.filter(pred) =~= Seq::<(Seq<char>, int)>::empty());
            assert(ranked(items).filter(pred) =~= a.filter(pred) + b.filter(pred));
        }
    }
}

/// Every item before an item's slot scores at least as much, and the item
/// at the slot (if any) scores less.
proof fn lemma_slot_split(r: Seq<(Seq<char>, int)>, v: int)
    ensures
        forall|i: int| 0 <= i < slot(r, v) ==> (#[trigger] r[i]).1 >= v,
        slot(r, v) < r.len() ==> r[slot(r, v) as int].1 < v,
    decreases r.len(),
{
    lemma_slot_bound(r, v);
    if r.len() > 0 && r[0].1 >= v {
        lemma_slot_split(r.drop_first(), v);
        assert forall|i: int| 0 <= i < slot(r, v) implies (#[trigger] r[i]).1 >= v by {
            if i > 0 {
                assert(r[i] == r.drop_first()[i - 1]);
            }
        }
        if slot(r, v) < r.len() {
            assert(r[slot(r, v) as int] == r.drop_first()[slot(r.drop_first(), v) as int]);
        }
    }
}

} // verus!
