//! Lexical path handling on `/`-separated paths: component splitting,
//! normalisation, joining, component-wise prefixes, and the working-directory
//! resolution that keeps multi-step tasks from regressing to a parent folder.
//!
//! Paths are read the POSIX way: only `/` separates components and only a
//! leading `/` makes a path absolute, so a Windows drive path such as
//! `C:\x` counts as relative and a `\` is an ordinary character.

use vstd::prelude::*;
use crate::text::{
    occurs_at, chars_eq, extend_chars, find, find_char, from_chars, join, join_chars, lemma_find_from,
    slice_chars, to_chars, trim, trim_chars, views,
};

verus! {

// ───────────────────────── specifications ─────────────────────────

/// The non-empty `/`-separated segments of `s`.
pub open spec fn segments(s: Seq<char>) -> Seq<Seq<char>>
    decreases s.len(),
{
    if s.len() == 0 {
        Seq::empty()
    } else {
        match find(s, seq!['/']) {
            None => seq![s],
            Some(i) => {
                proof {
                    lemma_find_from(s, seq!['/'], 0);
                }
                let head: Seq<Seq<char>> = if i == 0 {
                    Seq::empty()
                } else {
                    seq![s.subrange(0, i as int)]
                };
                head + segments(s.skip((i + 1) as int))
            },
        }
    }
}

/// The path is rooted (starts with `/`).
pub open spec fn is_rooted(s: Seq<char>) -> bool {
    s.len() > 0 && s[0] == '/'
}

/// The segment `.`.
pub open spec fn cur_dir() -> Seq<char> {
    seq!['.']
}

/// The segment `..`.
pub open spec fn parent_dir() -> Seq<char> {
    seq!['.', '.']
}

/// Pushes the segments onto `stack` the way a normalising walk over path
/// components does: `.` is skipped, `..` pops the last segment if any.
pub open spec fn fold_segments(stack: Seq<Seq<char>>, segs: Seq<Seq<char>>) -> Seq<Seq<char>>
    decreases segs.len(),
{
    if segs.len() == 0 {
        stack
    } else {
        let c = segs[0];
        let next = if c == cur_dir() {
            stack
        } else if c == parent_dir() {
            if stack.len() > 0 {
                stack.drop_last()
            } else {
                stack
            }
        } else {
            stack.push(c)
        };
        fold_segments(next, segs.drop_first())
    }
}

/// The lexically normalised path: root kept, `.` dropped, `..` resolved
/// against the preceding segment, separators collapsed.
pub open spec fn normalize(s: Seq<char>) -> Seq<char> {
    (if is_rooted(s) {
        seq!['/']
    } else {
        Seq::empty()
    }) + join(fold_segments(Seq::empty(), segments(s)), seq!['/'])
}

/// `rel` appended to `base` as `Path::join` does.
pub open spec fn path_join(base: Seq<char>, rel: Seq<char>) -> Seq<char> {
    if is_rooted(rel) {
        rel
    } else if base.len() == 0 {
        rel
    } else if base.last() == '/' {
        base + rel
    } else {
        base + seq!['/'] + rel
    }
}

/// Path components: a root marker, then the segments.
pub open spec fn components(s: Seq<char>) -> Seq<Seq<char>> {
    (if is_rooted(s) {
        seq![seq!['/']]
    } else {
        Seq::empty()
    }) + segments(s)
}

/// `prefix` is a component-wise prefix of `p` (`Path::starts_with`, on paths
/// without `.` segments).
pub open spec fn path_starts_with(p: Seq<char>, prefix: Seq<char>) -> bool {
    components(prefix).is_prefix_of(components(p))
}

// ───────────────────────── lemmas ─────────────────────────

proof fn lemma_fold_step(stack: Seq<Seq<char>>, segs: Seq<Seq<char>>, i: int)
    requires
        0 <= i < segs.len(),
    ensures
        fold_segments(stack, segs.skip(i)) == fold_segments(
            if segs[i] == cur_dir() {
                stack
            } else if segs[i] == parent_dir() {
                if stack.len() > 0 {
                    stack.drop_last()
                } else {
                    stack
                }
            } else {
                stack.push(segs[i])
            },
            segs.skip(i + 1),
        ),
{
    assert(segs.skip(i).drop_first() =~= segs.skip(i + 1));
}

/// A segment as `segments` yields it: non-empty and without `/`.
pub open spec fn plain_segment(x: Seq<char>) -> bool {
    x.len() > 0 && forall|i: int| 0 <= i < x.len() ==> x[i] != '/'
}

/// A plain segment that is neither `.` nor `..`.
pub open spec fn named_segment(x: Seq<char>) -> bool {
    plain_segment(x) && x != cur_dir() && x != parent_dir()
}

proof fn lemma_slash_at(s: Seq<char>, j: int)
    requires
        0 <= j < s.len(),
    ensures
        occurs_at(s, seq!['/'], j) <==> s[j] == '/',
{
    if s[j] == '/' {
        assert(s.subrange(j, j + 1) =~= seq!['/']);
    }
    if occurs_at(s, seq!['/'], j) {
        assert(s.subrange(j, j + 1)[0] == s[j]);
    }
}

proof fn lemma_first_slash(s: Seq<char>, i: int)
    requires
        0 <= i < s.len(),
        s[i] == '/',
        forall|j: int| 0 <= j < i ==> s[j] != '/',
    ensures
        find(s, seq!['/']) == Some(i as nat),
{
    lemma_find_from(s, seq!['/'], 0);
    lemma_slash_at(s, i);
    match find(s, seq!['/']) {
        Some(k) => {
            lemma_slash_at(s, k as int);
        },
        None => {},
    }
}

proof fn lemma_no_slash(s: Seq<char>)
    requires
        forall|j: int| 0 <= j < s.len() ==> s[j] != '/',
    ensures
        find(s, seq!['/']) is None,
{
    lemma_find_from(s, seq!['/'], 0);
    match find(s, seq!['/']) {
        Some(k) => {
            lemma_slash_at(s, k as int);
        },
        None => {},
    }
}

proof fn lemma_segments_plain(s: Seq<char>)
    ensures
        forall|i: int| 0 <= i < segments(s).len() ==> plain_segment(#[trigger] segments(s)[i]),
    decreases s.len(),
{
    if s.len() > 0 {
        lemma_find_from(s, seq!['/'], 0);
        match find(s, seq!['/']) {
            None => {
                assert forall|j: int| 0 <= j < s.len() implies s[j] != '/' by {
                    lemma_slash_at(s, j);
                }
            },
            Some(i) => {
                lemma_segments_plain(s.skip((i + 1) as int));
                let head = s.subrange(0, i as int);
                assert forall|j: int| 0 <= j < head.len() implies head[j] != '/' by {
                    lemma_slash_at(s, j);
                }
                let rest = segments(s.skip((i + 1) as int));
                if i == 0 {
                    assert(segments(s) =~= rest);
                } else {
                    assert forall|k: int| 0 <= k < segments(s).len() implies plain_segment(
                        #[trigger] segments(s)[k],
                    ) by {
                        if k > 0 {
                            assert(segments(s)[k] == rest[k - 1]);
                        }
                    }
                }
            },
        }
    }
}

proof fn lemma_segments_concat(a: Seq<char>, b: Seq<char>)
    ensures
        segments(a + seq!['/'] + b) == segments(a) + segments(b),
    decreases a.len(),
{
    let s = a + seq!['/'] + b;
    lemma_find_from(a, seq!['/'], 0);
    match find(a, seq!['/']) {
        None => {
            assert forall|j: int| 0 <= j < a.len() implies a[j] != '/' by {
                lemma_slash_at(a, j);
            }
            lemma_first_slash(s, a.len() as int);
            assert(s.skip((a.len() + 1) as int) =~= b);
            assert(s.subrange(0, a.len() as int) =~= a);
            if a.len() == 0 {
                assert(segments(a) =~= Seq::<Seq<char>>::empty());
                assert(segments(s) =~= segments(a) + segments(b));
            } else {
                assert(segments(a) == seq![a]);
            }
        },
        Some(i) => {
            lemma_slash_at(a, i as int);
            assert forall|j: int| 0 <= j < i implies s[j] != '/' by {
                lemma_slash_at(a, j);
            }
            lemma_first_slash(s, i as int);
            let a2 = a.skip((i + 1) as int);
            assert(s.skip((i + 1) as int) =~= a2 + seq!['/'] + b);
            assert(s.subrange(0, i as int) =~= a.subrange(0, i as int));
            lemma_segments_concat(a2, b);
            let head: Seq<Seq<char>> = if i == 0 {
                Seq::empty()
            } else {
                seq![a.subrange(0, i as int)]
            };
            assert(segments(s) == head + segments(a2 + seq!['/'] + b));
            assert(segments(a) == head + segments(a2));
            assert(head + (segments(a2) + segments(b)) =~= (head + segments(a2)) + segments(b));
        },
    }
}

proof fn lemma_join_shape(xs: Seq<Seq<char>>)
    requires
        xs.len() > 0,
        forall|i: int| 0 <= i < xs.len() ==> plain_segment(#[trigger] xs[i]),
    ensures
        join(xs, seq!['/']).len() > 0,
        join(xs, seq!['/'])[0] != '/',
    decreases xs.len(),
{
    if xs.len() > 1 {
        lemma_join_shape(xs.drop_last());
        let j = join(xs.drop_last(), seq!['/']);
        assert((j + seq!['/'] + xs.last())[0] == j[0]);
    }
}

proof fn lemma_segments_join(xs: Seq<Seq<char>>)
    requires
        forall|i: int| 0 <= i < xs.len() ==> plain_segment(#[trigger] xs[i]),
    ensures
        segments(join(xs, seq!['/'])) == xs,
    decreases xs.len(),
{
    if xs.len() == 0 {
        assert(segments(Seq::<char>::empty()) =~= xs);
    } else if xs.len() == 1 {
        let x = xs[0];
        assert(plain_segment(x));
        lemma_no_slash(x);
        assert(segments(x) =~= xs);
    } else {
        let init = xs.drop_last();
        let x = xs.last();
        assert(plain_segment(xs[xs.len() - 1]));
        lemma_segments_join(init);
        lemma_segments_concat(join(init, seq!['/']), x);
        lemma_no_slash(x);
        assert(segments(x) == seq![x]);
        assert(init + seq![x] =~= xs);
    }
}

proof fn lemma_fold_concat(st: Seq<Seq<char>>, xs: Seq<Seq<char>>, ys: Seq<Seq<char>>)
    ensures
        fold_segments(st, xs + ys) == fold_segments(fold_segments(st, xs), ys),
    decreases xs.len(),
{
    if xs.len() == 0 {
        assert(xs + ys =~= ys);
    } else {
        assert((xs + ys).drop_first() =~= xs.drop_first() + ys);
        assert((xs + ys)[0] == xs[0]);
        let c = xs[0];
        let next = if c == cur_dir() {
            st
        } else if c == parent_dir() {
            if st.len() > 0 {
                st.drop_last()
            } else {
                st
            }
        } else {
            st.push(c)
        };
        lemma_fold_concat(next, xs.drop_first(), ys);
    }
}

proof fn lemma_fold_named(st: Seq<Seq<char>>, xs: Seq<Seq<char>>)
    requires
        forall|i: int| 0 <= i < xs.len() ==> named_segment(#[trigger] xs[i]),
    ensures
        fold_segments(st, xs) == st + xs,
    decreases xs.len(),
{
    if xs.len() == 0 {
        assert(st + xs =~= st);
    } else {
        assert(named_segment(xs[0]));
        assert forall|i: int| 0 <= i < xs.drop_first().len() implies named_segment(
            #[trigger] xs.drop_first()[i],
        ) by {
            assert(xs.drop_first()[i] == xs[i + 1]);
        }
        lemma_fold_named(st.push(xs[0]), xs.drop_first());
        assert(st.push(xs[0]) + xs.drop_first() =~= st + xs);
    }
}

proof fn lemma_fold_stays_named(st: Seq<Seq<char>>, xs: Seq<Seq<char>>)
    requires
        forall|i: int| 0 <= i < st.len() ==> named_segment(#[trigger] st[i]),
        forall|i: int| 0 <= i < xs.len() ==> plain_segment(#[trigger] xs[i]),
    ensures
        forall|i: int|
            0 <= i < fold_segments(st, xs).len() ==> named_segment(
                #[trigger] fold_segments(st, xs)[i],
            ),
    decreases xs.len(),
{
    if xs.len() > 0 {
        let c = xs[0];
        assert(plain_segment(xs[0]));
        let next = if c == cur_dir() {
            st
        } else if c == parent_dir() {
            if st.len() > 0 {
                st.drop_last()
            } else {
                st
            }
        } else {
            st.push(c)
        };
        assert forall|i: int| 0 <= i < next.len() implies named_segment(#[trigger] next[i]) by {
            if c != cur_dir() && c != parent_dir() && i == st.len() {
            } else {
                assert(next[i] == st[i]);
            }
        }
        assert forall|i: int| 0 <= i < xs.drop_first().len() implies plain_segment(
            #[trigger] xs.drop_first()[i],
        ) by {
            assert(xs.drop_first()[i] == xs[i + 1]);
        }
        lemma_fold_stays_named(next, xs.drop_first());
        assert(fold_segments(st, xs) == fold_segments(next, xs.drop_first()));
    }
}

proof fn lemma_fold_without_parent(st: Seq<Seq<char>>, xs: Seq<Seq<char>>)
    requires
        forall|i: int| 0 <= i < xs.len() ==> #[trigger] xs[i] != parent_dir(),
    ensures
        fold_segments(st, xs) == st + fold_segments(Seq::empty(), xs),
    decreases xs.len(),
{
    if xs.len() == 0 {
        assert(st + Seq::<Seq<char>>::empty() =~= st);
    } else {
        let c = xs[0];
        assert(xs[0] != parent_dir());
        assert forall|i: int| 0 <= i < xs.drop_first().len() implies #[trigger] xs.drop_first()[i]
            != parent_dir() by {
            assert(xs.drop_first()[i] == xs[i + 1]);
        }
        if c == cur_dir() {
            lemma_fold_without_parent(st, xs.drop_first());
            lemma_fold_without_parent(Seq::empty(), xs.drop_first());
        } else {
            lemma_fold_without_parent(st.push(c), xs.drop_first());
            lemma_fold_without_parent(seq![c], xs.drop_first());
            assert(Seq::<Seq<char>>::empty().push(c) =~= seq![c]);
            assert(st.push(c) + fold_segments(Seq::empty(), xs.drop_first()) =~= st + (seq![c]
                + fold_segments(Seq::empty(), xs.drop_first())));
        }
    }
}

/// The segments and rootedness of a normalised path: its folded segments,
/// and rooted exactly when the path was.
proof fn lemma_normalized(d: Seq<char>)
    ensures
        segments(normalize(d)) == fold_segments(Seq::empty(), segments(d)),
        is_rooted(normalize(d)) == is_rooted(d),
        forall|i: int|
            0 <= i < fold_segments(Seq::empty(), segments(d)).len() ==> named_segment(
                #[trigger] fold_segments(Seq::empty(), segments(d))[i],
            ),
{
    let f = fold_segments(Seq::empty(), segments(d));
    lemma_segments_plain(d);
    lemma_fold_stays_named(Seq::empty(), segments(d));
    assert forall|i: int| 0 <= i < f.len() implies plain_segment(#[trigger] f[i]) by {
        assert(named_segment(f[i]));
    }
    lemma_segments_join(f);
    let j = join(f, seq!['/']);
    if f.len() > 0 {
        lemma_join_shape(f);
    }
    if is_rooted(d) {
        lemma_segments_concat(Seq::empty(), j);
        assert(Seq::<char>::empty() + seq!['/'] + j =~= seq!['/'] + j);
        assert(segments(Seq::<char>::empty()) =~= Seq::<Seq<char>>::empty());
        assert(Seq::<Seq<char>>::empty() + segments(j) =~= segments(j));
        assert((seq!['/'] + j)[0] == '/');
    } else {
        assert(Seq::<char>::empty() + j =~= j);
    }
}

/// Normalising a path twice gives the same path as normalising it once.
pub proof fn law_normalize_idempotent(p: Seq<char>)
    ensures
        normalize(normalize(p)) == normalize(p),
{
    lemma_normalized(p);
    let f = fold_segments(Seq::empty(), segments(p));
    lemma_fold_named(Seq::empty(), f);
    assert(Seq::<Seq<char>>::empty() + f =~= f);
}

/// A relative working directory asked for without `..` never leads out of
/// the default directory: the resolved directory is the (normalised)
/// default directory or lies inside it.
pub proof fn law_workdir_stays_inside(default_workdir: Seq<char>, requested: Seq<char>)
    requires
        !is_rooted(trim(requested)),
        forall|i: int|
            0 <= i < segments(trim(requested)).len() ==> #[trigger] segments(trim(requested))[i]
                != parent_dir(),
    ensures
        path_starts_with(resolved_workdir(default_workdir, Some(requested)), normalize(default_workdir)),
{
    let dn = normalize(default_workdir);
    let req = trim(requested);
    assert(components(dn).is_prefix_of(components(dn)));
    if req.len() == 0 || req == cur_dir() {
    } else {
        let req_norm = normalize(req);
        if path_starts_with(dn, req_norm) {
        } else if path_starts_with(req_norm, dn) {
        } else {
            let p = path_join(dn, req);
            let f = fold_segments(Seq::empty(), segments(default_workdir));
            lemma_normalized(default_workdir);
            lemma_segments_plain(req);
            if dn.len() == 0 {
                assert(!is_rooted(dn));
                assert(segments(dn) =~= Seq::<Seq<char>>::empty());
                assert(components(dn) =~= Seq::<Seq<char>>::empty());
            } else {
                if dn.last() == '/' {
                    let d2 = dn.drop_last();
                    assert(dn =~= d2 + seq!['/'] + Seq::<char>::empty());
                    lemma_segments_concat(d2, Seq::empty());
                    lemma_segments_concat(d2, req);
                    assert(p =~= d2 + seq!['/'] + req);
                    assert(segments(Seq::<char>::empty()) =~= Seq::<Seq<char>>::empty());
                    assert(segments(d2) + Seq::<Seq<char>>::empty() =~= segments(d2));
                } else {
                    lemma_segments_concat(dn, req);
                }
                assert(segments(p) == segments(dn) + segments(req));
                assert(p[0] == dn[0]);
                assert(is_rooted(p) == is_rooted(dn));
                lemma_fold_concat(Seq::empty(), segments(dn), segments(req));
                assert forall|i: int| 0 <= i < f.len() implies named_segment(#[trigger] f[i]) by {}
                lemma_fold_named(Seq::empty(), f);
                assert(Seq::<Seq<char>>::empty() + f =~= f);
                lemma_fold_without_parent(f, segments(req));
                let t = fold_segments(Seq::empty(), segments(req));
                let g = fold_segments(Seq::empty(), segments(p));
                assert(g == f + t);
                lemma_normalized(p);
                assert(segments(normalize(p)) == f + t);
                assert(components(dn) =~= (if is_rooted(dn) {
                    seq![seq!['/']]
                } else {
                    Seq::<Seq<char>>::empty()
                }) + f);
                assert(components(normalize(p)) =~= (if is_rooted(dn) {
                    seq![seq!['/']]
                } else {
                    Seq::<Seq<char>>::empty()
                }) + (f + t));
                assert(components(dn).is_prefix_of(components(normalize(p))));
            }
        }
    }
}

// ───────────────────────── executable ─────────────────────────

/// The non-empty `/`-separated segments of `s`.
pub fn split_segments(s: &Vec<char>) -> (r: Vec<Vec<char>>)
    ensures
        views(r@) == segments(s@),
{
    let mut r: Vec<Vec<char>> = Vec::new();
    let mut pos: usize = 0;
    assert(s@.skip(0) =~= s@);
    while pos < s.len()
        invariant
            pos <= s@.len(),
            segments(s@) == views(r@) + segments(s@.skip(pos as int)),
        decreases s@.len() - pos,
    {
        let ghost rest = s@.skip(pos as int);
        let rest_v = slice_chars(s, pos, s.len());
        assert(rest_v@ =~= rest);
        let ghost old_r = views(r@);
        match find_char(&rest_v, '/') {
            None => {
                r.push(rest_v);
                assert(views(r@) =~= old_r.push(rest));
                assert(s@.skip(s@.len() as int) =~= Seq::<char>::empty());
                assert(old_r + seq![rest] =~= old_r.push(rest));
                pos = s.len();
            },
            Some(i) => {
                proof {
                    lemma_find_from(rest, seq!['/'], 0);
                }
                assert(rest.skip(i + 1) =~= s@.skip(pos + i + 1));
                if i > 0 {
                    let seg = slice_chars(&rest_v, 0, i);
                    r.push(seg);
                    assert(views(r@) =~= old_r.push(rest.subrange(0, i as int)));
                    assert(old_r + (seq![rest.subrange(0, i as int)] + segments(rest.skip(i + 1)))
                        =~= old_r.push(rest.subrange(0, i as int)) + segments(rest.skip(i + 1)));
                } else {
                    assert(Seq::<Seq<char>>::empty() + segments(rest.skip(i + 1)) =~= segments(
                        rest.skip(i + 1),
                    ));
                }
                pos = pos + i + 1;
            },
        }
    }
    assert(s@.skip(pos as int) =~= Seq::<char>::empty());
    assert(views(r@) + Seq::<Seq<char>>::empty() =~= views(r@));
    r
}

/// Tests whether the segment is `.`.
fn is_cur_dir(c: &Vec<char>) -> (b: bool)
    ensures
        b == (c@ == cur_dir()),
{
    let r = c.len() == 1 && c[0] == '.';
    proof {
        if r {
            assert(c@ =~= cur_dir());
        }
    }
    r
}

/// Tests whether the segment is `..`.
fn is_parent_dir(c: &Vec<char>) -> (b: bool)
    ensures
        b == (c@ == parent_dir()),
{
    let r = c.len() == 2 && c[0] == '.' && c[1] == '.';
    proof {
        if r {
            assert(c@ =~= parent_dir());
        }
    }
    r
}

/// Lexically normalises a path (see `normalize`).
pub fn normalize_chars(p: &Vec<char>) -> (r: Vec<char>)
    ensures
        r@ == normalize(p@),
{
    let segs = split_segments(p);
    let mut stack: Vec<Vec<char>> = Vec::new();
    let n = segs.len();
    let ghost sv = views(segs@);
    assert(sv.skip(0) =~= sv);
    assert(views(stack@) =~= Seq::<Seq<char>>::empty());
    for i in 0..n
        invariant
            n == segs@.len(),
            sv == views(segs@),
            fold_segments(Seq::empty(), sv) == fold_segments(views(stack@), sv.skip(i as int)),
    {
        proof {
            lemma_fold_step(views(stack@), sv, i as int);
        }
        let ghost before = views(stack@);
        if is_cur_dir(&segs[i]) {
        } else if is_parent_dir(&segs[i]) {
            if stack.len() > 0 {
                stack.pop();
                assert(views(stack@) =~= before.drop_last());
            }
        } else {
            stack.push(slice_chars(&segs[i], 0, segs[i].len()));
            assert(segs@[i as int]@.subrange(0, segs@[i as int]@.len() as int) =~= sv[i as int]);
            assert(views(stack@) =~= before.push(sv[i as int]));
        }
    }
    assert(sv.skip(n as int) =~= Seq::<Seq<char>>::empty());
    let mut sep: Vec<char> = Vec::new();
    sep.push('/');
    assert(sep@ =~= seq!['/']);
    let body = join_chars(&stack, &sep);
    let mut r: Vec<char> = Vec::new();
    if p.len() > 0 && p[0] == '/' {
        r.push('/');
        assert(r@ =~= seq!['/']);
    } else {
        assert(r@ =~= Seq::<char>::empty());
    }
    extend_chars(&mut r, &body);
    r
}

/// Lexically normalises a path string.
pub fn normalize_path(p: &str) -> (r: String)
    ensures
        r@ == normalize(p@),
{
    let v = to_chars(p);
    let n = normalize_chars(&v);
    from_chars(&n)
}

/// Tests whether the path is rooted.
pub fn is_absolute(p: &Vec<char>) -> (b: bool)
    ensures
        b == is_rooted(p@),
{
    p.len() > 0 && p[0] == '/'
}

/// `rel` appended to `base` (see `path_join`).
pub fn join_path(base: &Vec<char>, rel: &Vec<char>) -> (r: Vec<char>)
    ensures
        r@ == path_join(base@, rel@),
{
    if is_absolute(rel) || base.len() == 0 {
        slice_chars(rel, 0, rel.len())
    } else {
        let mut r = slice_chars(base, 0, base.len());
        if base[base.len() - 1] != '/' {
            r.push('/');
        }
        extend_chars(&mut r, rel);
        r
    }
}

/// The components of a path (see `components`).
fn split_components(p: &Vec<char>) -> (r: Vec<Vec<char>>)
    ensures
        views(r@) == components(p@),
{
    let segs = split_segments(p);
    let mut r: Vec<Vec<char>> = Vec::new();
    if is_absolute(p) {
        let mut root: Vec<char> = Vec::new();
        root.push('/');
        r.push(root);
        assert(views(r@) =~= seq![seq!['/']]);
    } else {
        assert(views(r@) =~= Seq::<Seq<char>>::empty());
    }
    let n = segs.len();
    let ghost r0 = views(r@);
    for i in 0..n
        invariant
            n == segs@.len(),
            views(r@) == r0 + views(segs@).take(i as int),
    {
        let ghost before = views(r@);
        r.push(slice_chars(&segs[i], 0, segs[i].len()));
        assert(segs@[i as int]@.subrange(0, segs@[i as int]@.len() as int) =~= segs@[i as int]@);
        assert(views(r@) =~= before.push(segs@[i as int]@));
        assert(views(segs@).take(i + 1) =~= views(segs@).take(i as int).push(segs@[i as int]@));
    }
    assert(views(segs@).take(n as int) =~= views(segs@));
    r
}

/// Tests `path_starts_with`.
#[verifier::rlimit(30)]
pub fn has_path_prefix(p: &Vec<char>, prefix: &Vec<char>) -> (b: bool)
    ensures
        b == path_starts_with(p@, prefix@),
{
    let a = split_components(p);
    let c = split_components(prefix);
    if c.len() > a.len() {
        return false;
    }
    let n = c.len();
    for i in 0..n
        invariant
            n == c@.len(),
            n <= a@.len(),
            views(a@) == components(p@),
            views(c@) == components(prefix@),
            forall|k: int| 0 <= k < i ==> views(c@)[k] == views(a@)[k],
    {
        if !chars_eq(&c[i], &a[i]) {
            assert(views(c@)[i as int] != views(a@)[i as int]);
            assert(views(a@).subrange(0, n as int)[i as int] == views(a@)[i as int]);
            assert(!views(c@).is_prefix_of(views(a@))) by {
                if views(c@).is_prefix_of(views(a@)) {
                    assert(views(c@)[i as int] == views(a@).subrange(0, n as int)[i as int]);
                }
            }
            return false;
        }
    }
    assert(views(c@) =~= views(a@).subrange(0, n as int));
    true
}

/// The working directory a command plan runs in.
///
/// `default_workdir` is where the step would run; `requested` is the
/// `workdir` the model asked for, if any. An absolute request is used as is
/// (normalised). A relative request that is an ancestor of (or equal to) the
/// default is ignored, one already rooted under the default is used as is,
/// and any other is taken relative to the default.
pub open spec fn resolved_workdir(default_workdir: Seq<char>, requested: Option<Seq<char>>) -> Seq<char> {
    let default_norm = normalize(default_workdir);
    match requested {
        None => default_norm,
        Some(raw) => {
            let req = trim(raw);
            if req.len() == 0 || req == cur_dir() {
                default_norm
            } else if is_rooted(req) {
                normalize(req)
            } else {
                let req_norm = normalize(req);
                if path_starts_with(default_norm, req_norm) {
                    default_norm
                } else if path_starts_with(req_norm, default_norm) {
                    req_norm
                } else {
                    normalize(path_join(default_norm, req))
                }
            }
        },
    }
}

/// Resolves the working directory of a command plan (see `resolved_workdir`).
pub fn resolve_workdir(default_workdir: &str, requested: Option<&str>) -> (r: String)
    ensures
        r@ == resolved_workdir(default_workdir@, match requested {
            Some(s) => Some(s@),
            None => None,
        }),
{
    let dv = to_chars(default_workdir);
    let default_norm = normalize_chars(&dv);
    let result = match requested {
        None => default_norm,
        Some(raw) => {
            let rv = to_chars(raw);
            let req = trim_chars(&rv);
            if req.len() == 0 || (req.len() == 1 && req[0] == '.') {
                proof {
                    if req@.len() == 1 && req@[0] == '.' {
                        assert(req@ =~= cur_dir());
                    }
                }
                default_norm
            } else if is_absolute(&req) {
                assert(req@ != cur_dir());
                normalize_chars(&req)
            } else {
                assert(req@ != cur_dir()) by {
                    if req@ == cur_dir() {
                        assert(req@.len() == 1 && req@[0] == '.');
                    }
                }
                let req_norm = normalize_chars(&req);
                if has_path_prefix(&default_norm, &req_norm) {
                    default_norm
                } else if has_path_prefix(&req_norm, &default_norm) {
                    req_norm
                } else {
                    let joined = join_path(&default_norm, &req);
                    normalize_chars(&joined)
                }
            }
        },
    };
    from_chars(&result)
}

/// A file path from a command plan, taken relative to the working directory
/// unless it is absolute.
pub fn resolve_file_path(workdir: &str, path: &str) -> (r: String)
    ensures
        r@ == if is_rooted(path@) {
            path@
        } else {
            path_join(workdir@, path@)
        },
{
    let w = to_chars(workdir);
    let p = to_chars(path);
    if is_absolute(&p) {
        from_chars(&p)
    } else {
        let j = join_path(&w, &p);
        from_chars(&j)
    }
}


/// The last segment of a path that is not `.`.
pub open spec fn last_named(segs: Seq<Seq<char>>) -> Option<Seq<char>>
    decreases segs.len(),
{
    if segs.len() == 0 {
        None
    } else if segs.last() == cur_dir() {
        last_named(segs.drop_last())
    } else {
        Some(segs.last())
    }
}

/// The final component of a path (`Path::file_name`), empty when the path
/// has none or ends in `..`.
pub open spec fn file_name_spec(p: Seq<char>) -> Seq<char> {
    match last_named(segments(p)) {
        Some(s) => if s == parent_dir() {
            Seq::empty()
        } else {
            s
        },
        None => Seq::empty(),
    }
}

/// The final component of a path (see `file_name_spec`).
pub fn file_name(p: &str) -> (r: String)
    ensures
        r@ == file_name_spec(p@),
{
    let v = to_chars(p);
    let segs = split_segments(&v);
    let ghost sv = views(segs@);
    let mut k = segs.len();
    assert(sv.take(sv.len() as int) =~= sv);
    while k > 0
        invariant
            k <= segs@.len(),
            sv == views(segs@),
            sv == segments(p@),
            last_named(sv) == last_named(sv.take(k as int)),
        decreases k,
    {
        assert(sv.take(k as int).last() == segs@[k - 1]@);
        assert(sv.take(k as int).drop_last() =~= sv.take(k - 1));
        if !is_cur_dir(&segs[k - 1]) {
            let last = slice_chars(&segs[k - 1], 0, segs[k - 1].len());
            assert(last@ =~= segs@[k - 1]@);
            if is_parent_dir(&last) {
                return String::new();
            }
            return from_chars(&last);
        }
        k = k - 1;
    }
    String::new()
}

} // verus!
