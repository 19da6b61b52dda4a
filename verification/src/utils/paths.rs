//! Unix paths as text, with the component rules of `std::path::Path`:
//! `/` separates components, empty and `.` components are skipped except a
//! leading `.`, and `..` is always a component of its own.

use vstd::prelude::*;
use crate::utils::text::{copy_chars, extend_chars, split_char, split_on, views};

verus! {

/// Position just past the last component of `s[..e]`: trailing separators and
/// `.` components are skipped; a root `/` or a leading `.` stays.
pub open spec fn body_end(s: Seq<char>, e: int) -> int
    decreases e,
{
    if e <= 0 || e > s.len() {
        if e <= 0 {
            0
        } else {
            body_end(s, s.len() as int)
        }
    } else if s[e - 1] == '/' {
        if e == 1 {
            1
        } else {
            body_end(s, e - 1)
        }
    } else if s[e - 1] == '.' && (e == 1 || s[e - 2] == '/') {
        if e == 1 {
            1
        } else {
            body_end(s, e - 1)
        }
    } else {
        e
    }
}

/// Index of the last `/` in `s[..e]`, or -1.
pub open spec fn last_sep(s: Seq<char>, e: int) -> int
    decreases e,
{
    if e <= 0 || e > s.len() {
        -1
    } else if s[e - 1] == '/' {
        e - 1
    } else {
        last_sep(s, e - 1)
    }
}

/// End of the path's body (the text that its components span).
pub open spec fn path_end(s: Seq<char>) -> int {
    body_end(s, s.len() as int)
}

/// Start of the path's last component.
pub open spec fn last_start(s: Seq<char>) -> int {
    last_sep(s, path_end(s)) + 1
}

/// The text of the path's last component (empty when the path is empty or only a root).
pub open spec fn last_component(s: Seq<char>) -> Seq<char> {
    s.subrange(last_start(s), path_end(s))
}

/// The path has a last component.
pub open spec fn has_component(s: Seq<char>) -> bool {
    last_start(s) < path_end(s)
}

/// `Path::file_name`: the last component unless it is `.` or `..`.
pub open spec fn path_file_name(s: Seq<char>) -> Option<Seq<char>> {
    if has_component(s) && last_component(s) != seq!['.'] && last_component(s) != seq!['.', '.'] {
        Some(last_component(s))
    } else {
        None
    }
}

/// `Path::parent`: the path without its last component, `None` for an empty path or a root.
pub open spec fn path_parent(s: Seq<char>) -> Option<Seq<char>> {
    if has_component(s) {
        Some(s.subrange(0, body_end(s, last_start(s))))
    } else {
        None
    }
}

/// `Path::join`: an absolute `rel` replaces `base`; otherwise a `/` is put between
/// them unless `base` is empty or already ends with one.
pub open spec fn path_join(base: Seq<char>, rel: Seq<char>) -> Seq<char> {
    if rel.len() > 0 && rel[0] == '/' {
        rel
    } else if base.len() == 0 || base.last() == '/' {
        base + rel
    } else {
        base + seq!['/'] + rel
    }
}

proof fn lemma_body_end_bounds(s: Seq<char>, e: int)
    requires
        0 <= e <= s.len(),
    ensures
        0 <= body_end(s, e) <= e,
        e > 0 ==> body_end(s, e) > 0,
    decreases e,
{
    if e > 0 {
        if s[e - 1] == '/' || (s[e - 1] == '.' && (e == 1 || s[e - 2] == '/')) {
            if e > 1 {
                lemma_body_end_bounds(s, e - 1);
            }
        }
    }
}

proof fn lemma_last_sep_bounds(s: Seq<char>, e: int)
    requires
        0 <= e <= s.len(),
    ensures
        -1 <= last_sep(s, e) < e,
        last_sep(s, e) >= 0 ==> s[last_sep(s, e)] == '/',
        forall|k: int| last_sep(s, e) < k < e ==> s[k] != '/',
    decreases e,
{
    if e > 0 && s[e - 1] != '/' {
        lemma_last_sep_bounds(s, e - 1);
    }
}

/// `body_end` reads only the text before the end it is given.
pub proof fn lemma_body_end_prefix(a: Seq<char>, c: Seq<char>, e: int)
    requires
        0 <= e <= a.len(),
    ensures
        body_end(a + c, e) == body_end(a, e),
    decreases e,
{
    if e > 0 {
        assert((a + c)[e - 1] == a[e - 1]);
        if e > 1 {
            assert((a + c)[e - 2] == a[e - 2]);
            lemma_body_end_prefix(a, c, e - 1);
        }
    }
}

/// Stripping trailing separators and `.` components twice strips nothing more.
pub proof fn lemma_body_end_idempotent(s: Seq<char>, e: int)
    requires
        0 <= e <= s.len(),
    ensures
        body_end(s, body_end(s, e)) == body_end(s, e),
    decreases e,
{
    if e > 1 {
        if s[e - 1] == '/' || (s[e - 1] == '.' && s[e - 2] == '/') {
            lemma_body_end_idempotent(s, e - 1);
        }
    }
}

/// The last separator before `e` is the one before `b` when none lies between them.
pub proof fn lemma_last_sep_skip(s: Seq<char>, b: int, e: int)
    requires
        0 <= b <= e <= s.len(),
        forall|k: int| b <= k < e ==> s[k] != '/',
    ensures
        last_sep(s, e) == last_sep(s, b),
    decreases e,
{
    if e > b {
        lemma_last_sep_skip(s, b, e - 1);
    }
}

/// The last component of a path holds no separator, and the path's parent is a prefix
/// that ends where its own body ends.
pub proof fn lemma_last_component_parts(t: Seq<char>)
    requires
        has_component(t),
    ensures
        forall|k: int| 0 <= k < last_component(t).len() ==> last_component(t)[k] != '/',
        path_parent(t) matches Some(p) && body_end(p, p.len() as int) == p.len() && p == t.subrange(
            0,
            p.len() as int,
        ),
{
    lemma_body_end_bounds(t, t.len() as int);
    let e = path_end(t);
    lemma_last_sep_bounds(t, e);
    let ls = last_start(t);
    assert forall|k: int| 0 <= k < last_component(t).len() implies last_component(t)[k] != '/' by {
        assert(last_component(t)[k] == t[ls + k]);
    }
    lemma_body_end_bounds(t, ls);
    let y = body_end(t, ls);
    let p = t.subrange(0, y);
    assert(t =~= p + t.subrange(y, t.len() as int));
    lemma_body_end_prefix(p, t.subrange(y, t.len() as int), y);
    lemma_body_end_idempotent(t, ls);
}

/// Joining a directory whose body is whole with a leaf name that holds no separator and
/// does not end in `.` gives a path whose file name is the leaf and whose parent is the
/// directory.
pub proof fn lemma_join_leaf(p: Seq<char>, leaf: Seq<char>)
    requires
        leaf.len() > 0,
        forall|k: int| 0 <= k < leaf.len() ==> leaf[k] != '/',
        leaf.last() != '.',
        body_end(p, p.len() as int) == p.len(),
    ensures
        path_file_name(path_join(p, leaf)) == Some(leaf),
        path_parent(path_join(p, leaf)) == Some(p),
{
    let s = path_join(p, leaf);
    let b: int = if p.len() == 0 || p.last() == '/' { p.len() as int } else { p.len() as int + 1 };
    let head = s.subrange(0, b);
    if p.len() == 0 || p.last() == '/' {
        assert(s =~= p + leaf);
        assert(head =~= p);
    } else {
        assert(s =~= (p + seq!['/']) + leaf);
        assert(head =~= p + seq!['/']);
    }
    assert(s =~= head + leaf);
    assert(s[s.len() - 1] == leaf.last());
    assert(path_end(s) == s.len());
    assert forall|k: int| b <= k < s.len() implies s[k] != '/' by {
        assert(s[k] == leaf[k - b]);
    }
    lemma_last_sep_skip(s, b, s.len() as int);
    if b > 0 {
        assert(s[b - 1] == '/');
    }
    assert(last_start(s) == b);
    assert(last_component(s) =~= leaf);
    if leaf.len() == 1 {
        assert(leaf != seq!['.']);
    }
    if leaf.len() == 2 {
        assert(leaf[1] == leaf.last());
        assert(leaf != seq!['.', '.']);
    }
    lemma_body_end_prefix(head, leaf, b);
    if p.len() == 0 || p.last() == '/' {
        assert(body_end(s, b) == p.len());
    } else {
        assert(head[b - 1] == '/');
        assert(body_end(head, b) == body_end(head, b - 1));
        assert(head =~= p + seq!['/']);
        lemma_body_end_prefix(p, seq!['/'], p.len() as int);
        assert(body_end(s, b) == p.len());
    }
    assert(s.subrange(0, p.len() as int) =~= p);
}

/// `body_end(s, e)`, computed.
fn body_end_exec(s: &[char], e: usize) -> (r: usize)
    requires
        e <= s@.len(),
    ensures
        r as int == body_end(s@, e as int),
{
    let mut k: usize = e;
    while k > 0
        invariant
            k <= e <= s@.len(),
            body_end(s@, e as int) == body_end(s@, k as int),
        decreases k,
    {
        if s[k - 1] == '/' {
            if k == 1 {
                return 1;
            }
            k = k - 1;
        } else if s[k - 1] == '.' && (k == 1 || s[k - 2] == '/') {
            if k == 1 {
                return 1;
            }
            k = k - 1;
        } else {
            return k;
        }
    }
    0
}

/// `last_sep(s, e) + 1`, computed.
fn last_start_exec(s: &[char], e: usize) -> (r: usize)
    requires
        e <= s@.len(),
    ensures
        r as int == last_sep(s@, e as int) + 1,
{
    let mut k: usize = e;
    while k > 0
        invariant
            k <= e <= s@.len(),
            last_sep(s@, e as int) == last_sep(s@, k as int),
        decreases k,
    {
        if s[k - 1] == '/' {
            return k;
        }
        k = k - 1;
    }
    0
}

/// `Path::file_name` on a char sequence.
pub fn file_name(s: &[char]) -> (r: Option<Vec<char>>)
    ensures
        match r {
            Some(v) => path_file_name(s@) == Some(v@),
            None => path_file_name(s@) is None,
        },
{
    let e = body_end_exec(s, s.len());
    proof {
        lemma_body_end_bounds(s@, s@.len() as int);
    }
    let st = last_start_exec(s, e);
    proof {
        lemma_last_sep_bounds(s@, e as int);
    }
    if st >= e {
        return None;
    }
    let mut comp: Vec<char> = Vec::new();
    let mut k: usize = st;
    while k < e
        invariant
            st <= k <= e <= s@.len(),
            comp@ == s@.subrange(st as int, k as int),
        decreases e - k,
    {
        comp.push(s[k]);
        k = k + 1;
    }
    assert(comp@ == last_component(s@));
    let is_dot = comp.len() == 1 && comp[0] == '.';
    let is_dotdot = comp.len() == 2 && comp[0] == '.' && comp[1] == '.';
    if is_dot {
        assert(comp@ =~= seq!['.']);
    }
    if is_dotdot {
        assert(comp@ =~= seq!['.', '.']);
    }
    if is_dot || is_dotdot {
        None
    } else {
        Some(comp)
    }
}

/// `Path::parent` on a char sequence.
pub fn parent(s: &[char]) -> (r: Option<Vec<char>>)
    ensures
        match r {
            Some(v) => path_parent(s@) == Some(v@),
            None => path_parent(s@) is None,
        },
{
    let e = body_end_exec(s, s.len());
    proof {
        lemma_body_end_bounds(s@, s@.len() as int);
    }
    let st = last_start_exec(s, e);
    proof {
        lemma_last_sep_bounds(s@, e as int);
    }
    if st >= e {
        return None;
    }
    let pe = body_end_exec(s, st);
    proof {
        lemma_body_end_bounds(s@, st as int);
    }
    let mut out: Vec<char> = Vec::new();
    let mut k: usize = 0;
    while k < pe
        invariant
            k <= pe <= s@.len(),
            out@ == s@.subrange(0, k as int),
        decreases pe - k,
    {
        out.push(s[k]);
        k = k + 1;
    }
    Some(out)
}

/// `Path::join` on char sequences.
pub fn join(base: &[char], rel: &[char]) -> (r: Vec<char>)
    ensures
        r@ == path_join(base@, rel@),
{
    if rel.len() > 0 && rel[0] == '/' {
        return copy_chars(rel);
    }
    let mut out = copy_chars(base);
    if !(base.len() == 0 || base[base.len() - 1] == '/') {
        out.push('/');
    }
    extend_chars(&mut out, rel);
    out
}


/// The path begins with a root `/`.
pub open spec fn has_root(s: Seq<char>) -> bool {
    s.len() > 0 && s[0] == '/'
}

/// The path begins with a `.` component (a relative path starting with `.` then `/` or its end).
pub open spec fn has_cur_dir(s: Seq<char>) -> bool {
    !has_root(s) && s.len() > 0 && s[0] == '.' && (s.len() == 1 || s[1] == '/')
}

/// A separated segment that is a component: neither empty nor `.`.
pub open spec fn is_named_segment(seg: Seq<char>) -> bool {
    seg.len() > 0 && seg != seq!['.']
}

/// The components of a path as `Path::components` yields them, each by its text:
/// the root as `/`, a leading current directory as `.`, then every named segment.
pub open spec fn components(s: Seq<char>) -> Seq<Seq<char>> {
    (if has_root(s) {
        seq![seq!['/']]
    } else {
        seq![]
    }) + (if has_cur_dir(s) {
        seq![seq!['.']]
    } else {
        seq![]
    }) + split_on(s, '/').filter(|seg: Seq<char>| is_named_segment(seg))
}

/// `Path` equality: the same components.
pub open spec fn path_eq(a: Seq<char>, b: Seq<char>) -> bool {
    components(a) == components(b)
}

/// `Path::starts_with`: the components of `base` begin the components of `s`.
pub open spec fn path_starts_with(s: Seq<char>, base: Seq<char>) -> bool {
    components(base).len() <= components(s).len() && components(s).subrange(
        0,
        components(base).len() as int,
    ) == components(base)
}

proof fn lemma_filter_push(s: Seq<Seq<char>>, x: Seq<char>)
    ensures
        s.push(x).filter(|seg: Seq<char>| is_named_segment(seg)) == if is_named_segment(x) {
            s.filter(|seg: Seq<char>| is_named_segment(seg)).push(x)
        } else {
            s.filter(|seg: Seq<char>| is_named_segment(seg))
        },
{
    reveal(Seq::filter);
    assert(s.push(x).drop_last() =~= s);
}

fn is_named(seg: &Vec<char>) -> (r: bool)
    ensures
        r == is_named_segment(seg@),
{
    let dot = seg.len() == 1 && seg[0] == '.';
    if dot {
        assert(seg@ =~= seq!['.']);
    }
    seg.len() > 0 && !dot
}

/// `Path::components`, each component by its text.
pub fn path_components(s: &[char]) -> (r: Vec<Vec<char>>)
    ensures
        views(r@) == components(s@),
{
    let mut out: Vec<Vec<char>> = Vec::new();
    let root = s.len() > 0 && s[0] == '/';
    if root {
        let mut r: Vec<char> = Vec::new();
        r.push('/');
        out.push(r);
    }
    let cur = !root && s.len() > 0 && s[0] == '.' && (s.len() == 1 || s[1] == '/');
    if cur {
        let mut c: Vec<char> = Vec::new();
        c.push('.');
        out.push(c);
    }
    let ghost head = views(out@);
    assert(head =~= (if has_root(s@) {
        seq![seq!['/']]
    } else {
        seq![]
    }) + (if has_cur_dir(s@) {
        seq![seq!['.']]
    } else {
        seq![]
    }));
    let segs = split_char(s, '/');
    let mut i: usize = 0;
    assert(views(segs@).take(0).filter(|seg: Seq<char>| is_named_segment(seg)) =~= seq![]);
    assert(views(out@) =~= head + views(segs@).take(0).filter(|seg: Seq<char>| is_named_segment(seg)));
    while i < segs.len()
        invariant
            i <= segs@.len(),
            views(out@) == head + views(segs@).take(i as int).filter(
                |seg: Seq<char>| is_named_segment(seg),
            ),
        decreases segs@.len() - i,
    {
        proof {
            assert(views(segs@).take(i + 1) =~= views(segs@).take(i as int).push(segs@[i as int]@));
            lemma_filter_push(views(segs@).take(i as int), segs@[i as int]@);
        }
        if is_named(&segs[i]) {
            let ghost o = views(out@);
            out.push(copy_chars(segs[i].as_slice()));
            assert(views(out@) =~= o.push(segs@[i as int]@));
        }
        i = i + 1;
    }
    assert(views(segs@).take(segs@.len() as int) =~= views(segs@));
    out
}

fn comps_eq_prefix(a: &Vec<Vec<char>>, b: &Vec<Vec<char>>, n: usize) -> (r: bool)
    requires
        n <= a@.len(),
        n <= b@.len(),
    ensures
        r == (views(a@).take(n as int) == views(b@).take(n as int)),
{
    let mut i: usize = 0;
    while i < n
        invariant
            i <= n <= a@.len(),
            n <= b@.len(),
            forall|k: int| 0 <= k < i ==> a@[k]@ == b@[k]@,
        decreases n - i,
    {
        if !crate::utils::text::chars_eq(a[i].as_slice(), b[i].as_slice()) {
            assert(views(a@).take(n as int)[i as int] != views(b@).take(n as int)[i as int]);
            return false;
        }
        i = i + 1;
    }
    assert(views(a@).take(n as int) =~= views(b@).take(n as int));
    true
}

/// `Path` equality.
pub fn paths_equal(a: &[char], b: &[char]) -> (r: bool)
    ensures
        r == path_eq(a@, b@),
{
    let ca = path_components(a);
    let cb = path_components(b);
    if ca.len() != cb.len() {
        return false;
    }
    let r = comps_eq_prefix(&ca, &cb, ca.len());
    assert(views(ca@).take(ca@.len() as int) =~= views(ca@));
    assert(views(cb@).take(cb@.len() as int) =~= views(cb@));
    r
}

/// `Path::starts_with`.
pub fn starts_with_path(s: &[char], base: &[char]) -> (r: bool)
    ensures
        r == path_starts_with(s@, base@),
{
    let cs = path_components(s);
    let cb = path_components(base);
    if cb.len() > cs.len() {
        return false;
    }
    let r = comps_eq_prefix(&cs, &cb, cb.len());
    assert(views(cb@).take(cb@.len() as int) =~= views(cb@));
    assert(views(cs@).take(cb@.len() as int) =~= components(s@).subrange(0, cb@.len() as int));
    r
}

} // verus!
