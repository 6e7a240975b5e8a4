//! Helpers shared by the shelf items: letter cases and path arithmetic.
//!
//! Paths are strings with `/` as separator. Their components follow
//! `std::path::Path::components` on Unix: a leading `/` is the root, a leading
//! `.` is the current directory, `..` is the parent directory, and empty
//! pieces as well as inner `.` pieces are dropped. Each component is kept as
//! the string it stands for (`/`, `.`, `..`, or a plain name).
pub mod handlebars;
pub mod string;

use vstd::prelude::*;
use crate::text::{chars_eq, chars_of, is_ascii_char, is_ascii_text, is_white_space, is_whitespace, slice_chars, string_of};

verus! {

pub open spec fn root_dir() -> Seq<char> {
    seq!['/']
}

pub open spec fn cur_dir() -> Seq<char> {
    seq!['.']
}

pub open spec fn parent_dir() -> Seq<char> {
    seq!['.', '.']
}

/// A plain name component (neither the root nor `.` nor `..`).
pub open spec fn is_normal(c: Seq<char>) -> bool {
    c != root_dir() && c != cur_dir() && c != parent_dir()
}

pub open spec fn is_absolute(s: Seq<char>) -> bool {
    s.len() > 0 && s[0] == '/'
}

/// Left-to-right scan cutting `s` at every `/`.
pub open spec fn slash_scan(s: Seq<char>) -> (Seq<Seq<char>>, Seq<char>)
    decreases s.len(),
{
    if s.len() == 0 {
        (seq![], seq![])
    } else {
        let (done, cur) = slash_scan(s.drop_last());
        if s.last() == '/' {
            (done.push(cur), seq![])
        } else {
            (done, cur.push(s.last()))
        }
    }
}

/// The pieces of `s` between slashes, empty ones included (never empty itself).
pub open spec fn slash_pieces(s: Seq<char>) -> Seq<Seq<char>> {
    let (done, cur) = slash_scan(s);
    done.push(cur)
}

/// The pieces that stand for components after the first: empty pieces and
/// `.` are dropped.
pub open spec fn body_components(ps: Seq<Seq<char>>) -> Seq<Seq<char>>
    decreases ps.len(),
{
    if ps.len() == 0 {
        seq![]
    } else if ps.last().len() == 0 || ps.last() == cur_dir() {
        body_components(ps.drop_last())
    } else {
        body_components(ps.drop_last()).push(ps.last())
    }
}

/// The components of the path `s`.
pub open spec fn path_components(s: Seq<char>) -> Seq<Seq<char>> {
    let ps = slash_pieces(s);
    if is_absolute(s) {
        seq![root_dir()] + body_components(ps.drop_first())
    } else if ps[0] == cur_dir() {
        seq![cur_dir()] + body_components(ps.drop_first())
    } else {
        body_components(ps)
    }
}

/// `PathBuf::push` of `p` onto `buf`: an absolute `p` replaces `buf`;
/// otherwise a `/` is put between them when `buf` is non-empty and does not
/// already end with one.
pub open spec fn path_push(buf: Seq<char>, p: Seq<char>) -> Seq<char> {
    if is_absolute(p) {
        p
    } else if buf.len() > 0 && buf.last() != '/' {
        buf.push('/') + p
    } else {
        buf + p
    }
}

/// The path built by pushing each of `cs` in turn onto an empty path.
pub open spec fn collect_path(cs: Seq<Seq<char>>) -> Seq<char>
    decreases cs.len(),
{
    if cs.len() == 0 {
        seq![]
    } else {
        path_push(collect_path(cs.drop_last()), cs.last())
    }
}

/// `s` without leading white space.
pub open spec fn trim_start(s: Seq<char>) -> Seq<char>
    decreases s.len(),
{
    if s.len() > 0 && is_white_space(s[0]) {
        trim_start(s.drop_first())
    } else {
        s
    }
}

/// `s` without trailing white space.
pub open spec fn trim_end(s: Seq<char>) -> Seq<char>
    decreases s.len(),
{
    if s.len() > 0 && is_white_space(s.last()) {
        trim_end(s.drop_last())
    } else {
        s
    }
}

/// `str::trim`: leading and trailing white space removed.
pub open spec fn trim(s: Seq<char>) -> Seq<char> {
    trim_end(trim_start(s))
}

/// Naive normalization of components: `.` is dropped and `..` removes the
/// component before it (a `..` with nothing before it is dropped).
pub open spec fn normalize_components(cs: Seq<Seq<char>>) -> Seq<Seq<char>>
    decreases cs.len(),
{
    if cs.len() == 0 {
        seq![]
    } else {
        let prev = normalize_components(cs.drop_last());
        if cs.last() == cur_dir() {
            prev
        } else if cs.last() == parent_dir() {
            if prev.len() > 0 {
                prev.drop_last()
            } else {
                prev
            }
        } else {
            prev.push(cs.last())
        }
    }
}

/// The path `s` with `.` and `..` resolved without looking at the filesystem
/// and every component trimmed of surrounding white space.
pub open spec fn normalize_path(s: Seq<char>) -> Seq<char> {
    collect_path(normalize_components(path_components(s)).map_values(|c: Seq<char>| trim(c)))
}

/// One step of the relative-path walk over the components `d` of the
/// destination and `b` of the base, with `acc` the components gathered so far.
pub open spec fn relative_walk(d: Seq<Seq<char>>, b: Seq<Seq<char>>, acc: Seq<Seq<char>>) -> Option<
    Seq<Seq<char>>,
>
    decreases d.len() + b.len(),
{
    if d.len() == 0 && b.len() == 0 {
        Some(acc)
    } else if b.len() == 0 {
        Some(acc + d)
    } else if d.len() == 0 {
        relative_walk(d, b.drop_first(), acc.push(parent_dir()))
    } else if acc.len() == 0 && d[0] == b[0] {
        relative_walk(d.drop_first(), b.drop_first(), acc)
    } else if b[0] == cur_dir() {
        relative_walk(d.drop_first(), b.drop_first(), acc.push(d[0]))
    } else if b[0] == parent_dir() {
        None
    } else {
        Some(acc.push(parent_dir()) + Seq::new((b.len() - 1) as nat, |_i: int| parent_dir()) + d)
    }
}

/// The path leading from `base` to `dst`: `None` when no such path can be
/// told without the filesystem.
pub open spec fn relative_path_spec(dst: Seq<char>, base: Seq<char>) -> Option<Seq<char>> {
    if is_absolute(base) != is_absolute(dst) {
        if is_absolute(dst) {
            Some(dst)
        } else {
            None
        }
    } else {
        match relative_walk(path_components(dst), path_components(base), seq![]) {
            Some(cs) => Some(collect_path(cs)),
            None => None,
        }
    }
}

pub open spec fn vec_views(ws: Seq<Vec<char>>) -> Seq<Seq<char>> {
    ws.map_values(|w: Vec<char>| w@)
}

/// The pieces of `s` between slashes.
pub fn split_slashes(s: &Vec<char>) -> (ps: Vec<Vec<char>>)
    ensures
        vec_views(ps@) == slash_pieces(s@),
        ps.len() > 0,
{
    let mut done: Vec<Vec<char>> = Vec::new();
    let mut cur: Vec<char> = Vec::new();
    let mut i: usize = 0;
    while i < s.len()
        invariant
            i <= s.len(),
            (vec_views(done@), cur@) == slash_scan(s@.take(i as int)),
        decreases s.len() - i,
    {
        let c = s[i];
        assert(s@.take(i + 1).drop_last() =~= s@.take(i as int));
        assert(s@.take(i + 1).last() == c);
        if c == '/' {
            let ghost old_done = done@;
            done.push(cur);
            assert(vec_views(done@) =~= vec_views(old_done).push(cur@));
            cur = Vec::new();
        } else {
            cur.push(c);
        }
        i += 1;
    }
    assert(s@.take(s.len() as int) =~= s@);
    let ghost old_done = done@;
    done.push(cur);
    assert(vec_views(done@) =~= vec_views(old_done).push(cur@));
    done
}

fn parent_component() -> (r: Vec<char>)
    ensures
        r@ == parent_dir(),
{
    let mut r: Vec<char> = Vec::new();
    r.push('.');
    r.push('.');
    assert(r@ =~= parent_dir());
    r
}

fn single_component(c: char) -> (r: Vec<char>)
    ensures
        r@ == seq![c],
{
    let mut r: Vec<char> = Vec::new();
    r.push(c);
    assert(r@ =~= seq![c]);
    r
}

fn is_cur_dir(c: &Vec<char>) -> (r: bool)
    ensures
        r == (c@ == cur_dir()),
{
    if c.len() == 1 && c[0] == '.' {
        assert(c@ =~= cur_dir());
        true
    } else {
        false
    }
}

fn is_parent_dir(c: &Vec<char>) -> (r: bool)
    ensures
        r == (c@ == parent_dir()),
{
    if c.len() == 2 && c[0] == '.' && c[1] == '.' {
        assert(c@ =~= parent_dir());
        true
    } else {
        false
    }
}

fn is_root_dir(c: &Vec<char>) -> (r: bool)
    ensures
        r == (c@ == root_dir()),
{
    if c.len() == 1 && c[0] == '/' {
        assert(c@ =~= root_dir());
        true
    } else {
        false
    }
}

/// Whether `c` is a plain name component.
pub fn is_normal_component(c: &Vec<char>) -> (r: bool)
    ensures
        r == is_normal(c@),
{
    !is_root_dir(c) && !is_cur_dir(c) && !is_parent_dir(c)
}

/// The components of the path `s`.
pub fn components_of(s: &Vec<char>) -> (cs: Vec<Vec<char>>)
    ensures
        vec_views(cs@) == path_components(s@),
{
    let ps = split_slashes(s);
    let ghost pv = vec_views(ps@);
    let mut cs: Vec<Vec<char>> = Vec::new();
    let mut start: usize = 0;
    if s.len() > 0 && s[0] == '/' {
        cs.push(single_component('/'));
        assert(vec_views(cs@) =~= seq![root_dir()]);
        start = 1;
    } else if is_cur_dir(&ps[0]) {
        cs.push(single_component('.'));
        assert(vec_views(cs@) =~= seq![cur_dir()]);
        start = 1;
    } else {
        assert(vec_views(cs@) =~= seq![]);
    }
    let ghost head = vec_views(cs@);
    let ghost rest = if start == 1 { pv.drop_first() } else { pv };
    assert(head =~= (if is_absolute(s@) { seq![root_dir()] } else if pv[0] == cur_dir() { seq![cur_dir()] } else { seq![] }));
    let mut i: usize = start;
    while i < ps.len()
        invariant
            start <= i <= ps.len(),
            start == 0 || start == 1,
            pv == vec_views(ps@),
            rest == pv.subrange(start as int, pv.len() as int),
            vec_views(cs@) == head + body_components(rest.take(i - start)),
        decreases ps.len() - i,
    {
        let ghost t = rest.take(i + 1 - start);
        assert(t.drop_last() =~= rest.take(i - start));
        assert(t.last() == ps@[i as int]@);
        if ps[i].len() > 0 && !is_cur_dir(&ps[i]) {
            let ghost old_cs = cs@;
            let p = slice_chars(&ps[i], 0, ps[i].len());
            assert(p@ =~= ps@[i as int]@);
            cs.push(p);
            assert(vec_views(cs@) =~= vec_views(old_cs).push(t.last()));
        }
        i += 1;
    }
    assert(rest.take(ps.len() - start) =~= rest);
    assert(rest =~= (if is_absolute(s@) || pv[0] == cur_dir() { pv.drop_first() } else { pv }));
    cs
}

/// `PathBuf::push`.
pub fn push_path(buf: &mut Vec<char>, p: &Vec<char>)
    ensures
        final(buf)@ == path_push(old(buf)@, p@),
{
    if p.len() > 0 && p[0] == '/' {
        *buf = slice_chars(p, 0, p.len());
    } else {
        if buf.len() > 0 && buf[buf.len() - 1] != '/' {
            buf.push('/');
        }
        crate::text::append_chars(buf, p);
    }
}

/// Pushes each component in turn onto an empty path.
pub fn collect_components(cs: &Vec<Vec<char>>) -> (r: Vec<char>)
    ensures
        r@ == collect_path(vec_views(cs@)),
{
    let mut r: Vec<char> = Vec::new();
    let mut i: usize = 0;
    while i < cs.len()
        invariant
            i <= cs.len(),
            r@ == collect_path(vec_views(cs@).take(i as int)),
        decreases cs.len() - i,
    {
        let ghost t = vec_views(cs@).take(i + 1);
        assert(t.drop_last() =~= vec_views(cs@).take(i as int));
        assert(t.last() == cs@[i as int]@);
        push_path(&mut r, &cs[i]);
        i += 1;
    }
    assert(vec_views(cs@).take(cs.len() as int) =~= vec_views(cs@));
    r
}

/// `str::trim`.
pub fn trim_chars(s: &Vec<char>) -> (r: Vec<char>)
    ensures
        r@ == trim(s@),
{
    let mut lo: usize = 0;
    assert(s@.subrange(0, s.len() as int) =~= s@);
    while lo < s.len() && is_whitespace(s[lo])
        invariant
            lo <= s.len(),
            trim_start(s@) == trim_start(s@.subrange(lo as int, s.len() as int)),
        decreases s.len() - lo,
    {
        assert(s@.subrange(lo as int, s.len() as int).drop_first() =~= s@.subrange(lo + 1, s.len() as int));
        lo += 1;
    }
    let ghost ts = s@.subrange(lo as int, s.len() as int);
    assert(trim_start(ts) == ts);
    let mut hi: usize = s.len();
    while hi > lo && is_whitespace(s[hi - 1])
        invariant
            lo <= hi <= s.len(),
            trim_end(ts) == trim_end(s@.subrange(lo as int, hi as int)),
        decreases hi - lo,
    {
        assert(s@.subrange(lo as int, hi as int).drop_last() =~= s@.subrange(lo as int, hi - 1));
        hi -= 1;
    }
    slice_chars(s, lo, hi)
}

/// Resolves `.` and `..` components without looking at the filesystem.
pub fn normalize_components_of(cs: &Vec<Vec<char>>) -> (r: Vec<Vec<char>>)
    ensures
        vec_views(r@) == normalize_components(vec_views(cs@)),
{
    let mut r: Vec<Vec<char>> = Vec::new();
    let mut i: usize = 0;
    while i < cs.len()
        invariant
            i <= cs.len(),
            vec_views(r@) == normalize_components(vec_views(cs@).take(i as int)),
        decreases cs.len() - i,
    {
        let ghost t = vec_views(cs@).take(i + 1);
        assert(t.drop_last() =~= vec_views(cs@).take(i as int));
        assert(t.last() == cs@[i as int]@);
        let ghost old_r = r@;
        if is_cur_dir(&cs[i]) {
        } else if is_parent_dir(&cs[i]) {
            if r.len() > 0 {
                r.pop();
                assert(vec_views(r@) =~= vec_views(old_r).drop_last());
            }
        } else {
            let c = slice_chars(&cs[i], 0, cs[i].len());
            assert(c@ =~= cs@[i as int]@);
            r.push(c);
            assert(vec_views(r@) =~= vec_views(old_r).push(t.last()));
        }
        i += 1;
    }
    assert(vec_views(cs@).take(cs.len() as int) =~= vec_views(cs@));
    r
}

/// The path `s` with `.` and `..` resolved and its components trimmed.
pub fn normalize_path_chars(s: &Vec<char>) -> (r: Vec<char>)
    ensures
        r@ == normalize_path(s@),
{
    let cs = components_of(s);
    let n = normalize_components_of(&cs);
    let ghost nv = vec_views(n@);
    let mut trimmed: Vec<Vec<char>> = Vec::new();
    let mut i: usize = 0;
    while i < n.len()
        invariant
            i <= n.len(),
            nv == vec_views(n@),
            vec_views(trimmed@) == nv.take(i as int).map_values(|c: Seq<char>| trim(c)),
        decreases n.len() - i,
    {
        let t = trim_chars(&n[i]);
        let ghost old_t = trimmed@;
        trimmed.push(t);
        assert(vec_views(trimmed@) =~= vec_views(old_t).push(trim(nv[i as int])));
        assert(nv.take(i + 1).map_values(|c: Seq<char>| trim(c)) =~= nv.take(i as int).map_values(
            |c: Seq<char>| trim(c),
        ).push(trim(nv[i as int])));
        i += 1;
    }
    assert(nv.take(n.len() as int) =~= nv);
    collect_components(&trimmed)
}

/// The relative walk from the destination components `d` to the base
/// components `b`.
fn relative_components(d: &Vec<Vec<char>>, b: &Vec<Vec<char>>) -> (r: Option<Vec<Vec<char>>>)
    ensures
        match r {
            Some(cs) => relative_walk(vec_views(d@), vec_views(b@), seq![]) == Some(vec_views(cs@)),
            None => relative_walk(vec_views(d@), vec_views(b@), seq![]) is None,
        },
{
    let ghost dv = vec_views(d@);
    let ghost bv = vec_views(b@);
    let mut acc: Vec<Vec<char>> = Vec::new();
    let mut i: usize = 0;
    let mut j: usize = 0;
    assert(dv.skip(0) =~= dv);
    assert(bv.skip(0) =~= bv);
    assert(vec_views(acc@) =~= seq![]);
    loop
        invariant
            i <= d.len(),
            j <= b.len(),
            dv == vec_views(d@),
            bv == vec_views(b@),
            relative_walk(dv, bv, seq![]) == relative_walk(dv.skip(i as int), bv.skip(j as int), vec_views(acc@)),
        decreases d.len() + b.len() - i - j,
    {
        let ghost ds = dv.skip(i as int);
        let ghost bs = bv.skip(j as int);
        let ghost av = vec_views(acc@);
        if i == d.len() && j == b.len() {
            return Some(acc);
        }
        if j == b.len() {
            while i < d.len()
                invariant
                    i <= d.len(),
                    dv == vec_views(d@),
                    av + ds == vec_views(acc@) + dv.skip(i as int),
                decreases d.len() - i,
            {
                let ghost old_acc = acc@;
                let c = slice_chars(&d[i], 0, d[i].len());
                assert(c@ =~= dv[i as int]);
                acc.push(c);
                assert(vec_views(acc@) =~= vec_views(old_acc).push(dv[i as int]));
                assert(dv.skip(i as int) =~= seq![dv[i as int]] + dv.skip(i + 1));
                i += 1;
            }
            assert(dv.skip(d.len() as int) =~= Seq::<Seq<char>>::empty());
            assert(vec_views(acc@) =~= av + ds);
            return Some(acc);
        }
        assert(bs.drop_first() =~= bv.skip(j + 1));
        assert(bs[0] == b@[j as int]@);
        if i == d.len() {
            let ghost old_acc = acc@;
            acc.push(parent_component());
            assert(vec_views(acc@) =~= vec_views(old_acc).push(parent_dir()));
            j += 1;
        } else {
            assert(ds.drop_first() =~= dv.skip(i + 1));
            assert(ds[0] == d@[i as int]@);
            if acc.len() == 0 && chars_eq(&d[i], &b[j]) {
                i += 1;
                j += 1;
            } else if is_cur_dir(&b[j]) {
                let ghost old_acc = acc@;
                let c = slice_chars(&d[i], 0, d[i].len());
                assert(c@ =~= ds[0]);
                acc.push(c);
                assert(vec_views(acc@) =~= vec_views(old_acc).push(ds[0]));
                i += 1;
                j += 1;
            } else if is_parent_dir(&b[j]) {
                return None;
            } else {
                let ghost goal = av.push(parent_dir()) + Seq::new((bs.len() - 1) as nat, |_i: int| parent_dir()) + ds;
                let ghost raw0 = acc@;
                acc.push(parent_component());
                assert(vec_views(acc@) =~= vec_views(raw0).push(parent_dir()));
                assert(vec_views(acc@) =~= av.push(parent_dir()) + Seq::new(0, |_i: int| parent_dir()));
                j += 1;
                while j < b.len()
                    invariant
                        j <= b.len(),
                        vec_views(acc@) == av.push(parent_dir()) + Seq::new(
                            (j - (b.len() - bs.len()) - 1) as nat,
                            |_i: int| parent_dir(),
                        ),
                        bs.len() == b.len() - (b.len() - bs.len()),
                        b.len() - bs.len() < j,
                    decreases b.len() - j,
                {
                    let ghost old_acc = vec_views(acc@);
                    let ghost raw = acc@;
                    acc.push(parent_component());
                    assert(vec_views(acc@) =~= vec_views(raw).push(parent_dir()));
                    assert(vec_views(acc@) =~= av.push(parent_dir()) + Seq::new(
                        (j + 1 - (b.len() - bs.len()) - 1) as nat,
                        |_i: int| parent_dir(),
                    ));
                    j += 1;
                }
                let ghost mid = vec_views(acc@);
                assert(mid =~= av.push(parent_dir()) + Seq::new((bs.len() - 1) as nat, |_i: int| parent_dir()));
                while i < d.len()
                    invariant
                        i <= d.len(),
                        dv == vec_views(d@),
                        mid + ds == vec_views(acc@) + dv.skip(i as int),
                    decreases d.len() - i,
                {
                    let ghost old_acc = acc@;
                    let c = slice_chars(&d[i], 0, d[i].len());
                    assert(c@ =~= dv[i as int]);
                    acc.push(c);
                    assert(vec_views(acc@) =~= vec_views(old_acc).push(dv[i as int]));
                    assert(dv.skip(i as int) =~= seq![dv[i as int]] + dv.skip(i + 1));
                    i += 1;
                }
                assert(dv.skip(d.len() as int) =~= Seq::<Seq<char>>::empty());
                assert(vec_views(acc@) =~= goal);
                return Some(acc);
            }
        }
    }
}

/// Get the relative path from two paths similar to Python `os.path.relpath`.
///
/// This does not check whether the path exists in the filesystem. When only
/// `dst` is absolute it is returned as it is; when only `base` is absolute,
/// or `base` climbs out with a `..` where it differs from `dst`, there is no
/// answer.
pub fn relative_path_from(dst: &str, base: &str) -> (r: Option<String>)
    ensures
        match r {
            Some(p) => relative_path_spec(dst@, base@) == Some(p@),
            None => relative_path_spec(dst@, base@) is None,
        },
{
    let d = chars_of(dst);
    let b = chars_of(base);
    let d_abs = d.len() > 0 && d[0] == '/';
    let b_abs = b.len() > 0 && b[0] == '/';
    if b_abs != d_abs {
        if d_abs {
            return Some(string_of(&d));
        } else {
            return None;
        }
    }
    let dc = components_of(&d);
    let bc = components_of(&b);
    match relative_components(&dc, &bc) {
        Some(cs) => {
            let p = collect_components(&cs);
            Some(string_of(&p))
        },
        None => None,
    }
}

} // verus!

verus! {

// ---------------------------------------------------------------------------
// Laws of the path model
// ---------------------------------------------------------------------------

/// `n` copies of `..`.
pub open spec fn parents(n: nat) -> Seq<Seq<char>> {
    Seq::new(n, |_i: int| parent_dir())
}

/// The number of leading components `d` and `b` have in common.
pub open spec fn common_prefix_len(d: Seq<Seq<char>>, b: Seq<Seq<char>>) -> nat
    decreases d.len(),
{
    if d.len() > 0 && b.len() > 0 && d[0] == b[0] {
        1 + common_prefix_len(d.drop_first(), b.drop_first())
    } else {
        0
    }
}

proof fn lemma_walk_drain(b: Seq<Seq<char>>, acc: Seq<Seq<char>>)
    ensures
        relative_walk(seq![], b, acc) == Some(acc + parents(b.len())),
    decreases b.len(),
{
    if b.len() == 0 {
        assert(acc + parents(0) =~= acc);
    } else {
        lemma_walk_drain(b.drop_first(), acc.push(parent_dir()));
        assert(acc.push(parent_dir()) + parents((b.len() - 1) as nat) =~= acc + parents(b.len()));
    }
}

/// The walk from a path to itself gathers nothing.
pub proof fn lemma_walk_self(cs: Seq<Seq<char>>)
    ensures
        relative_walk(cs, cs, seq![]) == Some(Seq::<Seq<char>>::empty()),
    decreases cs.len(),
{
    if cs.len() > 0 {
        lemma_walk_self(cs.drop_first());
    }
}

/// The relative path from a path to itself is the empty path.
pub proof fn law_relative_path_to_itself(p: Seq<char>)
    ensures
        relative_path_spec(p, p) == Some(Seq::<char>::empty()),
{
    lemma_walk_self(path_components(p));
}

/// Components with no `.` and no `..` among them (plain names, and the root).
pub open spec fn without_dots(cs: Seq<Seq<char>>) -> bool {
    forall|i: int| 0 <= i < cs.len() ==> #[trigger] cs[i] != cur_dir() && cs[i] != parent_dir()
}

/// When the base has no `.` or `..` component (plain names, after a root for
/// an absolute path), the relative path climbs out of the part of the base
/// that is not shared with the destination (one `..` each) and then descends
/// into the rest of the destination.
pub proof fn law_relative_walk_plain_base(d: Seq<Seq<char>>, b: Seq<Seq<char>>)
    requires
        without_dots(b),
    ensures
        common_prefix_len(d, b) <= d.len(),
        common_prefix_len(d, b) <= b.len(),
        relative_walk(d, b, seq![]) == Some(
            parents((b.len() - common_prefix_len(d, b)) as nat) + d.skip(
                common_prefix_len(d, b) as int,
            ),
        ),
    decreases d.len() + b.len(),
{
    let k = common_prefix_len(d, b);
    let goal = parents((b.len() - k) as nat) + d.skip(k as int);
    if d.len() == 0 && b.len() == 0 {
        assert(goal =~= Seq::<Seq<char>>::empty());
    } else if b.len() == 0 {
        assert(k == 0);
        assert(goal =~= d);
        assert(Seq::<Seq<char>>::empty() + d =~= d);
        assert(relative_walk(d, b, seq![]) == Some(goal));
    } else if d.len() == 0 {
        assert(k == 0);
        assert(d =~= Seq::<Seq<char>>::empty());
        lemma_walk_drain(b.drop_first(), seq![parent_dir()]);
        assert(Seq::<Seq<char>>::empty().push(parent_dir()) =~= seq![parent_dir()]);
        assert(relative_walk(d, b, seq![]) == relative_walk(d, b.drop_first(), seq![parent_dir()]));
        assert(seq![parent_dir()] + parents((b.len() - 1) as nat) =~= goal);
        assert(relative_walk(d, b, seq![]) == Some(goal));
    } else if d[0] == b[0] {
        assert(relative_walk(d, b, seq![]) == relative_walk(d.drop_first(), b.drop_first(), seq![]));
        let k2 = common_prefix_len(d.drop_first(), b.drop_first());
        assert(k == 1 + k2);
        assert forall|i: int| 0 <= i < b.drop_first().len() implies #[trigger] b.drop_first()[i]
            != cur_dir() && b.drop_first()[i] != parent_dir() by {
            assert(b.drop_first()[i] == b[i + 1]);
        }
        law_relative_walk_plain_base(d.drop_first(), b.drop_first());
        assert(d.drop_first().skip(k2 as int) =~= d.skip(k as int));
        assert(b.drop_first().len() - k2 == b.len() - k);
        assert(relative_walk(d, b, seq![]) == Some(goal));
    } else {
        assert(b[0] != cur_dir() && b[0] != parent_dir());
        assert(k == 0);
        let e = Seq::<Seq<char>>::empty();
        assert(relative_walk(d, b, e) == Some(
            e.push(parent_dir()) + Seq::new((b.len() - 1) as nat, |_i: int| parent_dir()) + d,
        ));
        assert(e.push(parent_dir()) + Seq::new((b.len() - 1) as nat, |_i: int| parent_dir()) + d =~= goal);
        assert(relative_walk(d, b, seq![]) == Some(goal));
    }
}

/// One step of lexical normalization as `os.path.normpath` does it: `.` is
/// dropped; `..` removes the plain name before it, is dropped right after the
/// root, and is kept where nothing can be removed (a leading `..`).
pub open spec fn normpath_step(prev: Seq<Seq<char>>, c: Seq<char>) -> Seq<Seq<char>> {
    if c == cur_dir() {
        prev
    } else if c == parent_dir() {
        if prev.len() > 0 && prev.last() == root_dir() {
            prev
        } else if prev.len() > 0 && prev.last() != parent_dir() {
            prev.drop_last()
        } else {
            prev.push(c)
        }
    } else {
        prev.push(c)
    }
}

/// Lexical normalization of `cs` continued from the components `acc`.
pub open spec fn normpath_from(acc: Seq<Seq<char>>, cs: Seq<Seq<char>>) -> Seq<Seq<char>>
    decreases cs.len(),
{
    if cs.len() == 0 {
        acc
    } else {
        normpath_step(normpath_from(acc, cs.drop_last()), cs.last())
    }
}

/// The lexical normalization of a component list (`os.path.normpath`).
pub open spec fn normpath_components(cs: Seq<Seq<char>>) -> Seq<Seq<char>> {
    normpath_from(seq![], cs)
}

proof fn lemma_normpath_from_append(acc: Seq<Seq<char>>, x: Seq<Seq<char>>, y: Seq<Seq<char>>)
    ensures
        normpath_from(acc, x + y) == normpath_from(normpath_from(acc, x), y),
    decreases y.len(),
{
    if y.len() == 0 {
        assert(x + y =~= x);
    } else {
        lemma_normpath_from_append(acc, x, y.drop_last());
        assert((x + y).drop_last() =~= x + y.drop_last());
        assert((x + y).last() == y.last());
    }
}

/// Components without `.` and `..` normalize to themselves.
proof fn lemma_normpath_without_dots(acc: Seq<Seq<char>>, cs: Seq<Seq<char>>)
    requires
        without_dots(cs),
    ensures
        normpath_from(acc, cs) == acc + cs,
    decreases cs.len(),
{
    if cs.len() == 0 {
        assert(acc + cs =~= acc);
    } else {
        assert(without_dots(cs.drop_last())) by {
            assert forall|i: int| 0 <= i < cs.drop_last().len() implies #[trigger] cs.drop_last()[i]
                != cur_dir() && cs.drop_last()[i] != parent_dir() by {
                assert(cs.drop_last()[i] == cs[i]);
            }
        }
        lemma_normpath_without_dots(acc, cs.drop_last());
        assert(cs[cs.len() - 1] == cs.last());
        assert((acc + cs.drop_last()).push(cs.last()) =~= acc + cs);
    }
}

/// `m` times `..` removes the last `m` components, when they are plain names.
proof fn lemma_normpath_parents(acc: Seq<Seq<char>>, m: nat)
    requires
        m <= acc.len(),
        forall|i: int|
            acc.len() - m <= i < acc.len() ==> #[trigger] acc[i] != parent_dir() && acc[i]
                != root_dir(),
    ensures
        normpath_from(acc, parents(m)) == acc.take(acc.len() - m),
    decreases m,
{
    if m == 0 {
        assert(parents(0) =~= Seq::<Seq<char>>::empty());
        assert(acc.take(acc.len() as int) =~= acc);
    } else {
        lemma_normpath_parents(acc, (m - 1) as nat);
        assert(parents(m).drop_last() =~= parents((m - 1) as nat));
        assert(parents(m).last() == parent_dir());
        assert(parent_dir() != cur_dir());
        let t = acc.take(acc.len() - (m - 1));
        assert(t.last() == acc[acc.len() - m]);
        assert(t.drop_last() =~= acc.take(acc.len() - m));
    }
}

proof fn lemma_common_prefix(d: Seq<Seq<char>>, b: Seq<Seq<char>>)
    ensures
        common_prefix_len(d, b) <= d.len(),
        common_prefix_len(d, b) <= b.len(),
        d.take(common_prefix_len(d, b) as int) == b.take(common_prefix_len(d, b) as int),
    decreases d.len(),
{
    if d.len() > 0 && b.len() > 0 && d[0] == b[0] {
        lemma_common_prefix(d.drop_first(), b.drop_first());
        let k = common_prefix_len(d, b) as int;
        assert(d.take(k) =~= seq![d[0]] + d.drop_first().take(k - 1));
        assert(b.take(k) =~= seq![b[0]] + b.drop_first().take(k - 1));
    } else {
        assert(d.take(0) =~= b.take(0));
    }
}

/// The round trip for a base without `.` and `..`, whose root (if any) is in
/// front and shared with the destination.
proof fn lemma_round_trip_without_dots(d: Seq<Seq<char>>, b: Seq<Seq<char>>)
    requires
        without_dots(b),
        forall|i: int| 1 <= i < b.len() ==> #[trigger] b[i] != root_dir(),
        b.len() > 0 && b[0] == root_dir() ==> d.len() > 0 && d[0] == root_dir(),
    ensures
        relative_walk(d, b, seq![]) matches Some(r) && normpath_components(b + r)
            == normpath_components(d),
{
    law_relative_walk_plain_base(d, b);
    lemma_common_prefix(d, b);
    let k = common_prefix_len(d, b);
    let m = (b.len() - k) as nat;
    let rest = d.skip(k as int);
    let r = parents(m) + rest;
    let e = Seq::<Seq<char>>::empty();
    lemma_normpath_from_append(e, b, r);
    lemma_normpath_without_dots(e, b);
    assert(e + b =~= b);
    lemma_normpath_from_append(b, parents(m), rest);
    if b.len() > 0 && b[0] == root_dir() {
        assert(k >= 1);
    }
    assert forall|i: int| b.len() - m <= i < b.len() implies #[trigger] b[i] != parent_dir() && b[i]
        != root_dir() by {
        if i == 0 {
            assert(b[0] != root_dir());
        }
    }
    lemma_normpath_parents(b, m);
    assert(b.take(b.len() - m) == b.take(k as int));
    let p = d.take(k as int);
    assert(p + rest =~= d);
    lemma_normpath_from_append(e, p, rest);
    assert(without_dots(p)) by {
        assert forall|i: int| 0 <= i < p.len() implies #[trigger] p[i] != cur_dir() && p[i] != parent_dir() by {
            assert(p[i] == b.take(k as int)[i]);
            assert(b.take(k as int)[i] == b[i]);
        }
    }
    lemma_normpath_without_dots(e, p);
    assert(e + p =~= p);
}

/// Joining the base with the relative path leads back to the destination:
/// the components of the base followed by those of the relative path
/// normalize (as `os.path.normpath` does) to what the destination's
/// components normalize to. This holds when the base has no `..`, has `.`
/// and the root only in front, an absolute base goes with an absolute
/// destination, and a base starting with `.` goes with a destination starting
/// with `.` (from `./a` the walk to `b` gives `b/..`).
pub proof fn law_relative_walk_round_trip(d: Seq<Seq<char>>, b: Seq<Seq<char>>)
    requires
        forall|i: int| 0 <= i < b.len() ==> #[trigger] b[i] != parent_dir(),
        forall|i: int| 1 <= i < b.len() ==> #[trigger] b[i] != root_dir() && b[i] != cur_dir(),
        b.len() > 0 && b[0] == root_dir() ==> d.len() > 0 && d[0] == root_dir(),
        b.len() > 0 && b[0] == cur_dir() ==> d.len() > 0 && d[0] == cur_dir(),
    ensures
        relative_walk(d, b, seq![]) matches Some(r) && normpath_components(b + r)
            == normpath_components(d),
{
    if b.len() > 0 && b[0] == cur_dir() {
        let b2 = b.drop_first();
        let d2 = d.drop_first();
        assert(relative_walk(d, b, seq![]) == relative_walk(d2, b2, seq![]));
        assert(without_dots(b2)) by {
            assert forall|i: int| 0 <= i < b2.len() implies #[trigger] b2[i] != cur_dir() && b2[i]
                != parent_dir() by {
                assert(b2[i] == b[i + 1]);
            }
        }
        assert forall|i: int| 1 <= i < b2.len() implies #[trigger] b2[i] != root_dir() by {
            assert(b2[i] == b[i + 1]);
        }
        if b2.len() > 0 {
            assert(b2[0] == b[1]);
        }
        lemma_round_trip_without_dots(d2, b2);
        let r = relative_walk(d2, b2, seq![])->0;
        let e = Seq::<Seq<char>>::empty();
        assert(b + r =~= seq![cur_dir()] + (b2 + r));
        assert(d =~= seq![cur_dir()] + d2);
        lemma_normpath_from_append(e, seq![cur_dir()], b2 + r);
        lemma_normpath_from_append(e, seq![cur_dir()], d2);
        let one = seq![cur_dir()];
        assert(one.drop_last() =~= e);
        assert(one.last() == cur_dir());
        assert(normpath_from(e, one.drop_last()) == e);
        assert(normpath_from(e, one) == e);
    } else {
        assert(without_dots(b)) by {
            assert forall|i: int| 0 <= i < b.len() implies #[trigger] b[i] != cur_dir() && b[i]
                != parent_dir() by {
                if i == 0 {
                    assert(b[0] != cur_dir());
                }
            }
        }
        lemma_round_trip_without_dots(d, b);
    }
}

proof fn lemma_scan_no_slash(s: Seq<char>)
    ensures
        forall|i: int| 0 <= i < slash_scan(s).0.len() ==> !(#[trigger] slash_scan(s).0[i]).contains('/'),
        !slash_scan(s).1.contains('/'),
    decreases s.len(),
{
    if s.len() > 0 {
        lemma_scan_no_slash(s.drop_last());
        let (done, cur) = slash_scan(s.drop_last());
        let now = slash_scan(s);
        assert forall|i: int| 0 <= i < now.0.len() implies !(#[trigger] now.0[i]).contains('/') by {
            if i < done.len() {
                assert(now.0[i] == done[i]);
            }
        }
        if s.last() != '/' {
            assert(!now.1.contains('/')) by {
                if now.1.contains('/') {
                    let j = choose|j: int| 0 <= j < now.1.len() && now.1[j] == '/';
                    if j < cur.len() {
                        assert(cur[j] == '/');
                    }
                }
            }
        }
    }
}

proof fn lemma_body_shape(ps: Seq<Seq<char>>)
    requires
        forall|i: int| 0 <= i < ps.len() ==> !(#[trigger] ps[i]).contains('/'),
    ensures
        forall|i: int|
            0 <= i < body_components(ps).len() ==> #[trigger] body_components(ps)[i] != root_dir()
                && body_components(ps)[i] != cur_dir(),
    decreases ps.len(),
{
    if ps.len() > 0 {
        assert forall|i: int| 0 <= i < ps.drop_last().len() implies !(#[trigger] ps.drop_last()[i]).contains('/') by {
            assert(ps.drop_last()[i] == ps[i]);
        }
        lemma_body_shape(ps.drop_last());
        let prev = body_components(ps.drop_last());
        let now = body_components(ps);
        let l = ps.last();
        assert(!ps[ps.len() - 1].contains('/'));
        assert(l != root_dir()) by {
            if l == root_dir() {
                assert(l[0] == '/');
            }
        }
        assert forall|i: int| 0 <= i < now.len() implies #[trigger] now[i] != root_dir() && now[i] != cur_dir() by {
            if i < prev.len() {
                assert(now[i] == prev[i]);
            }
        }
    }
}

/// The root stands only in front of the components of an absolute path, and
/// `.` only in front.
proof fn lemma_path_components_shape(s: Seq<char>)
    ensures
        forall|i: int|
            1 <= i < path_components(s).len() ==> #[trigger] path_components(s)[i] != root_dir()
                && path_components(s)[i] != cur_dir(),
        path_components(s).len() > 0 && path_components(s)[0] == root_dir() ==> is_absolute(s),
        is_absolute(s) ==> path_components(s).len() > 0 && path_components(s)[0] == root_dir(),
{
    lemma_scan_no_slash(s);
    let ps = slash_pieces(s);
    let (done, cur) = slash_scan(s);
    assert forall|i: int| 0 <= i < ps.len() implies !(#[trigger] ps[i]).contains('/') by {
        if i < done.len() {
            assert(ps[i] == done[i]);
        }
    }
    assert forall|i: int| 0 <= i < ps.drop_first().len() implies !(#[trigger] ps.drop_first()[i]).contains('/') by {
        assert(ps.drop_first()[i] == ps[i + 1]);
    }
    let cs = path_components(s);
    if is_absolute(s) {
        lemma_body_shape(ps.drop_first());
        let body = body_components(ps.drop_first());
        assert forall|i: int| 1 <= i < cs.len() implies #[trigger] cs[i] != root_dir() && cs[i] != cur_dir() by {
            assert(cs[i] == body[i - 1]);
        }
    } else if ps[0] == cur_dir() {
        lemma_body_shape(ps.drop_first());
        let body = body_components(ps.drop_first());
        assert forall|i: int| 1 <= i < cs.len() implies #[trigger] cs[i] != root_dir() && cs[i] != cur_dir() by {
            assert(cs[i] == body[i - 1]);
        }
        assert(cs[0] == cur_dir());
        assert(cur_dir() != root_dir()) by {
            assert(cur_dir()[0] != root_dir()[0]);
        }
    } else {
        lemma_body_shape(ps);
    }
}

/// No white space and no upper-case ASCII letter in `s`.
pub open spec fn without_caps_or_space(s: Seq<char>) -> bool {
    forall|i: int| 0 <= i < s.len() ==> !is_white_space(#[trigger] s[i]) && !('A' <= s[i] && s[i] <= 'Z')
}

proof fn lemma_concat_without_caps_or_space(a: Seq<char>, b: Seq<char>)
    requires
        without_caps_or_space(a),
        without_caps_or_space(b),
    ensures
        without_caps_or_space(a + b),
        without_caps_or_space(a.push('/')),
{
    assert forall|i: int| 0 <= i < (a + b).len() implies !is_white_space(#[trigger] (a + b)[i]) && !('A'
        <= (a + b)[i] && (a + b)[i] <= 'Z') by {
        if i < a.len() {
            assert((a + b)[i] == a[i]);
        } else {
            assert((a + b)[i] == b[i - a.len()]);
        }
    }
    assert forall|i: int| 0 <= i < a.push('/').len() implies !is_white_space(#[trigger] a.push('/')[i])
        && !('A' <= a.push('/')[i] && a.push('/')[i] <= 'Z') by {
        if i < a.len() {
            assert(a.push('/')[i] == a[i]);
        }
    }
}

/// A path built from components without white space or upper-case ASCII
/// letters has none either.
pub proof fn lemma_collect_without_caps_or_space(cs: Seq<Seq<char>>)
    requires
        forall|i: int| 0 <= i < cs.len() ==> without_caps_or_space(#[trigger] cs[i]),
    ensures
        without_caps_or_space(collect_path(cs)),
    decreases cs.len(),
{
    if cs.len() > 0 {
        let rest = cs.drop_last();
        assert forall|i: int| 0 <= i < rest.len() implies without_caps_or_space(#[trigger] rest[i]) by {
            assert(rest[i] == cs[i]);
        }
        lemma_collect_without_caps_or_space(rest);
        let buf = collect_path(rest);
        assert(without_caps_or_space(cs[cs.len() - 1]));
        lemma_concat_without_caps_or_space(buf, cs.last());
        lemma_concat_without_caps_or_space(buf.push('/'), cs.last());
    }
}

proof fn lemma_scan_ascii(s: Seq<char>)
    requires
        is_ascii_text(s),
    ensures
        forall|i: int| 0 <= i < slash_scan(s).0.len() ==> is_ascii_text(#[trigger] slash_scan(s).0[i]),
        is_ascii_text(slash_scan(s).1),
    decreases s.len(),
{
    if s.len() > 0 {
        assert(is_ascii_text(s.drop_last())) by {
            assert forall|i: int| 0 <= i < s.drop_last().len() implies is_ascii_char(#[trigger] s.drop_last()[i]) by {
                assert(s.drop_last()[i] == s[i]);
            }
        }
        lemma_scan_ascii(s.drop_last());
        let (done, cur) = slash_scan(s.drop_last());
        let now = slash_scan(s);
        assert forall|i: int| 0 <= i < now.0.len() implies is_ascii_text(#[trigger] now.0[i]) by {
            if i < done.len() {
                assert(now.0[i] == done[i]);
            }
        }
        if s.last() != '/' {
            assert(is_ascii_char(s[s.len() - 1]));
            assert forall|k: int| 0 <= k < now.1.len() implies is_ascii_char(#[trigger] now.1[k]) by {
                if k < cur.len() {
                    assert(now.1[k] == cur[k]);
                }
            }
        }
    }
}

proof fn lemma_body_ascii(ps: Seq<Seq<char>>)
    requires
        forall|i: int| 0 <= i < ps.len() ==> is_ascii_text(#[trigger] ps[i]),
    ensures
        forall|i: int| 0 <= i < body_components(ps).len() ==> is_ascii_text(#[trigger] body_components(ps)[i]),
    decreases ps.len(),
{
    if ps.len() > 0 {
        assert forall|i: int| 0 <= i < ps.drop_last().len() implies is_ascii_text(#[trigger] ps.drop_last()[i]) by {
            assert(ps.drop_last()[i] == ps[i]);
        }
        lemma_body_ascii(ps.drop_last());
        let prev = body_components(ps.drop_last());
        let now = body_components(ps);
        assert(is_ascii_text(ps[ps.len() - 1]));
        assert forall|i: int| 0 <= i < now.len() implies is_ascii_text(#[trigger] now[i]) by {
            if i < prev.len() {
                assert(now[i] == prev[i]);
            }
        }
    }
}

/// The components of ASCII text are ASCII.
pub proof fn lemma_path_components_ascii(s: Seq<char>)
    requires
        is_ascii_text(s),
    ensures
        forall|i: int| 0 <= i < path_components(s).len() ==> is_ascii_text(#[trigger] path_components(s)[i]),
{
    lemma_scan_ascii(s);
    let ps = slash_pieces(s);
    let (done, cur) = slash_scan(s);
    assert forall|i: int| 0 <= i < ps.len() implies is_ascii_text(#[trigger] ps[i]) by {
        if i < done.len() {
            assert(ps[i] == done[i]);
        }
    }
    assert forall|i: int| 0 <= i < ps.drop_first().len() implies is_ascii_text(#[trigger] ps.drop_first()[i]) by {
        assert(ps.drop_first()[i] == ps[i + 1]);
    }
    let cs = path_components(s);
    if is_absolute(s) {
        lemma_body_ascii(ps.drop_first());
        let body = body_components(ps.drop_first());
        assert forall|i: int| 0 <= i < cs.len() implies is_ascii_text(#[trigger] cs[i]) by {
            if i == 0 {
                assert(cs[0] == root_dir());
                assert(is_ascii_char(root_dir()[0]));
            } else {
                assert(cs[i] == body[i - 1]);
            }
        }
    } else if ps[0] == cur_dir() {
        lemma_body_ascii(ps.drop_first());
        let body = body_components(ps.drop_first());
        assert forall|i: int| 0 <= i < cs.len() implies is_ascii_text(#[trigger] cs[i]) by {
            if i == 0 {
                assert(cs[0] == cur_dir());
                assert(is_ascii_char(cur_dir()[0]));
            } else {
                assert(cs[i] == body[i - 1]);
            }
        }
    } else {
        lemma_body_ascii(ps);
    }
}

/// Joining the base with the relative path leads back to the destination
/// (`os.path.normpath(os.path.join(base, relpath(dst, base))) ==
/// os.path.normpath(dst)`, over components): for paths both relative or both
/// absolute, when the base has no `..` component and a base starting with
/// `.` goes with a destination starting with `.`.
pub proof fn law_relative_path_round_trip(dst: Seq<char>, base: Seq<char>)
    requires
        is_absolute(dst) == is_absolute(base),
        forall|i: int|
            0 <= i < path_components(base).len() ==> #[trigger] path_components(base)[i]
                != parent_dir(),
        path_components(base).len() > 0 && path_components(base)[0] == cur_dir() ==> path_components(
            dst,
        ).len() > 0 && path_components(dst)[0] == cur_dir(),
    ensures
        relative_walk(path_components(dst), path_components(base), seq![]) matches Some(r)
            && relative_path_spec(dst, base) == Some(collect_path(r)) && normpath_components(
            path_components(base) + r,
        ) == normpath_components(path_components(dst)),
{
    lemma_path_components_shape(base);
    lemma_path_components_shape(dst);
    law_relative_walk_round_trip(path_components(dst), path_components(base));
}

/// Between an absolute and a relative path: from a relative base, the way to
/// an absolute destination is the destination itself; from an absolute base,
/// no way to a relative destination can be told.
pub proof fn law_relative_path_mixed(dst: Seq<char>, base: Seq<char>)
    requires
        is_absolute(dst) != is_absolute(base),
    ensures
        is_absolute(dst) ==> relative_path_spec(dst, base) == Some(dst),
        !is_absolute(dst) ==> relative_path_spec(dst, base) is None,
{
}

proof fn lemma_body_of_single_empty()
    ensures
        body_components(seq![Seq::<char>::empty()]) == Seq::<Seq<char>>::empty(),
{
    let e = Seq::<Seq<char>>::empty();
    let one = seq![Seq::<char>::empty()];
    assert(one.drop_last() =~= e);
    assert(one.last() == Seq::<char>::empty());
    assert(body_components(e) == e);
    assert(body_components(one) == body_components(one.drop_last()));
}

/// A component list that printing and parsing give back unchanged: a root
/// only in front, every other member a plain non-empty name without `/`.
pub open spec fn clean_components(cs: Seq<Seq<char>>) -> bool {
    forall|i: int|
        0 <= i < cs.len() ==> {
            ||| (i == 0 && #[trigger] cs[i] == root_dir())
            ||| (cs[i].len() > 0 && is_normal(cs[i]) && !cs[i].contains('/'))
        }
}

proof fn lemma_scan_plain_suffix(x: Seq<char>, c: Seq<char>)
    requires
        !c.contains('/'),
    ensures
        slash_scan(x + c) == (slash_scan(x).0, slash_scan(x).1 + c),
    decreases c.len(),
{
    if c.len() == 0 {
        assert(x + c =~= x);
        assert(slash_scan(x).1 + c =~= slash_scan(x).1);
    } else {
        let c2 = c.drop_last();
        assert(!c2.contains('/')) by {
            if c2.contains('/') {
                let j = choose|j: int| 0 <= j < c2.len() && c2[j] == '/';
                assert(c[j] == '/');
            }
        }
        lemma_scan_plain_suffix(x, c2);
        assert((x + c).drop_last() =~= x + c2);
        assert((x + c).last() == c.last());
        assert(c.last() != '/') by {
            assert(c[c.len() - 1] == c.last());
        }
        assert(slash_scan(x).1 + c2.push(c.last()) =~= slash_scan(x).1 + c);
        assert(c2.push(c.last()) =~= c);
    }
}

proof fn lemma_body_components_plain(cs: Seq<Seq<char>>)
    requires
        forall|i: int| 0 <= i < cs.len() ==> (#[trigger] cs[i]).len() > 0 && cs[i] != cur_dir(),
    ensures
        body_components(cs) == cs,
    decreases cs.len(),
{
    if cs.len() > 0 {
        assert forall|i: int| 0 <= i < cs.drop_last().len() implies (#[trigger] cs.drop_last()[i]).len() > 0
            && cs.drop_last()[i] != cur_dir() by {
            assert(cs.drop_last()[i] == cs[i]);
        }
        lemma_body_components_plain(cs.drop_last());
        assert(cs[cs.len() - 1] == cs.last());
        assert(cs.drop_last().push(cs.last()) =~= cs);
    }
}

/// The slash pieces of a printed clean component list: without a root they
/// are the components themselves; with one, an empty piece stands for it.
proof fn lemma_pieces_of_collected(cs: Seq<Seq<char>>)
    requires
        clean_components(cs),
        cs.len() > 0,
    ensures
        cs[0] == root_dir() ==> slash_pieces(collect_path(cs)) == seq![Seq::<char>::empty()] + (
        if cs.len() == 1 {
            seq![Seq::<char>::empty()]
        } else {
            cs.drop_first()
        }),
        cs[0] != root_dir() ==> slash_pieces(collect_path(cs)) == cs,
        collect_path(cs).len() > 0,
        collect_path(cs).last() == '/' <==> cs.len() == 1 && cs[0] == root_dir(),
    decreases cs.len(),
{
    let pre = cs.drop_last();
    let c = cs.last();
    assert(cs[cs.len() - 1] == c);
    if cs.len() == 1 {
        let x = collect_path(cs);
        assert(collect_path(pre) =~= Seq::<char>::empty());
        if c == root_dir() {
            assert(x =~= seq!['/']);
            assert(seq!['/'].drop_last() =~= Seq::<char>::empty());
            assert(slash_scan(Seq::<char>::empty()) == (Seq::<Seq<char>>::empty(), Seq::<char>::empty()));
            assert(Seq::<Seq<char>>::empty().push(Seq::<char>::empty()) =~= seq![Seq::<char>::empty()]);
            assert(x.last() == '/');
            let e = Seq::<char>::empty();
            assert(x.drop_last() =~= e);
            assert(slash_scan(e) == (Seq::<Seq<char>>::empty(), e));
            assert(slash_scan(x).0 == Seq::<Seq<char>>::empty().push(e));
            assert(slash_scan(x).0 =~= seq![e]);
            assert(slash_scan(x).1 =~= e);
            assert(slash_pieces(x) =~= seq![Seq::<char>::empty()] + seq![Seq::<char>::empty()]);
        } else {
            assert(!is_absolute(c)) by {
                if c.len() > 0 && c[0] == '/' {
                    assert(c.contains('/'));
                }
            }
            assert(x =~= c);
            lemma_scan_plain_suffix(Seq::<char>::empty(), c);
            assert(Seq::<char>::empty() + c =~= c);
            assert(slash_pieces(x) =~= seq![c]);
            assert(seq![c] =~= cs);
            assert(c.last() != '/') by {
                assert(c[c.len() - 1] == c.last());
            }
        }
    } else {
        assert(clean_components(pre)) by {
            assert forall|i: int| 0 <= i < pre.len() implies {
                ||| (i == 0 && #[trigger] pre[i] == root_dir())
                ||| (pre[i].len() > 0 && is_normal(pre[i]) && !pre[i].contains('/'))
            } by {
                assert(pre[i] == cs[i]);
            }
        }
        lemma_pieces_of_collected(pre);
        let x = collect_path(pre);
        assert(c.len() > 0 && is_normal(c) && !c.contains('/')) by {
            assert(cs[cs.len() - 1] == c);
        }
        assert(!is_absolute(c)) by {
            if c.len() > 0 && c[0] == '/' {
                assert(c.contains('/'));
            }
        }
        assert(c.last() != '/') by {
            assert(c[c.len() - 1] == c.last());
        }
        lemma_scan_plain_suffix(x.push('/'), c);
        assert(x.push('/').drop_last() =~= x);
        assert(slash_scan(x.push('/')) == (slash_pieces(x), Seq::<char>::empty()));
        assert(Seq::<char>::empty() + c =~= c);
        if x.last() == '/' {
            // The prefix is the root alone.
            assert(collect_path(cs) == x + c);
            let sc = slash_scan(x);
            assert(pre.len() == 1 && pre[0] == root_dir());
            assert(slash_pieces(x) == sc.0.push(sc.1));
            assert(slash_pieces(x) =~= seq![Seq::<char>::empty(), Seq::<char>::empty()]);
            assert(sc.0 =~= slash_pieces(x).drop_last());
            assert(sc.1 == slash_pieces(x).last());
            assert(sc.0 =~= seq![Seq::<char>::empty()]);
            assert(slash_scan(x) == (seq![Seq::<char>::empty()], Seq::<char>::empty()));
            lemma_scan_plain_suffix(x, c);
            assert(slash_pieces(collect_path(cs)) =~= seq![Seq::<char>::empty()] + seq![c]);
            assert(cs.drop_first() =~= seq![c]);
        } else {
            assert(collect_path(cs) == x.push('/') + c);
            assert(slash_pieces(collect_path(cs)) == slash_pieces(x).push(c));
            if cs[0] == root_dir() {
                assert(pre.drop_first().push(c) =~= cs.drop_first());
                assert(seq![Seq::<char>::empty()] + pre.drop_first() + seq![c] =~= seq![Seq::<char>::empty()]
                    + cs.drop_first());
                assert(slash_pieces(x) == seq![Seq::<char>::empty()] + pre.drop_first());
                assert(slash_pieces(x).push(c) =~= seq![Seq::<char>::empty()] + cs.drop_first());
            } else {
                assert(pre.push(c) =~= cs);
            }
        }
        assert((x.push('/') + c).last() == c.last());
        assert((x + c).last() == c.last());
    }
}

/// Printing a clean component list and parsing it back gives the list.
pub proof fn law_components_of_collected(cs: Seq<Seq<char>>)
    requires
        clean_components(cs),
    ensures
        path_components(collect_path(cs)) == cs,
{
    if cs.len() == 0 {
        let x = collect_path(cs);
        assert(x =~= Seq::<char>::empty());
        assert(slash_pieces(x) =~= seq![Seq::<char>::empty()]);
        lemma_body_of_single_empty();
        assert(Seq::<char>::empty() != cur_dir()) by {
            assert(cur_dir().len() == 1);
        }
    } else {
        lemma_pieces_of_collected(cs);
        let x = collect_path(cs);
        if cs[0] == root_dir() {
            assert(is_absolute(x)) by {
                assert(slash_pieces(x)[0].len() == 0);
                lemma_first_piece_empty_means_root(x);
            }
            let rest = slash_pieces(x).drop_first();
            if cs.len() == 1 {
                assert(rest =~= seq![Seq::<char>::empty()]);
                lemma_body_of_single_empty();
                assert(seq![root_dir()] + Seq::<Seq<char>>::empty() =~= cs);
            } else {
                assert(rest =~= cs.drop_first());
                assert forall|i: int| 0 <= i < cs.drop_first().len() implies (#[trigger] cs.drop_first()[i]).len()
                    > 0 && cs.drop_first()[i] != cur_dir() by {
                    assert(cs.drop_first()[i] == cs[i + 1]);
                }
                lemma_body_components_plain(cs.drop_first());
                assert(seq![root_dir()] + cs.drop_first() =~= cs);
            }
        } else {
            assert(slash_pieces(x) == cs);
            assert(cs[0].len() > 0 && !cs[0].contains('/'));
            assert(!is_absolute(x)) by {
                if is_absolute(x) {
                    lemma_root_means_first_piece_empty(x);
                }
            }
            assert(cs[0] != cur_dir());
            lemma_body_components_plain(cs);
        }
    }
}

proof fn lemma_scan_first(s: Seq<char>)
    ensures
        (s.len() > 0 && s[0] == '/') ==> (slash_scan(s).0.len() > 0 && slash_scan(s).0[0].len() == 0),
        slash_scan(s).0.len() == 0 ==> slash_scan(s).1 == s,
        (slash_scan(s).0.len() > 0 && slash_scan(s).0[0].len() == 0) ==> (s.len() > 0 && s[0] == '/'),
    decreases s.len(),
{
    if s.len() > 0 {
        lemma_scan_first(s.drop_last());
        let d = slash_scan(s.drop_last()).0;
        let c = slash_scan(s.drop_last()).1;
        if d.len() == 0 {
            assert(c == s.drop_last());
            if s.last() == '/' {
                assert(slash_scan(s).0 == d.push(c));
                assert(slash_scan(s).0[0] == c);
                if s.len() > 1 {
                    assert(s[0] == s.drop_last()[0]);
                } else {
                    assert(s[0] == s.last());
                }
            } else {
                assert(slash_scan(s).0 == d);
                assert(c.push(s.last()) =~= s);
            }
        } else {
            assert(s[0] == s.drop_last()[0]);
            assert(s.drop_last().len() > 0);
            if s.last() == '/' {
                assert(slash_scan(s).0 == d.push(c));
                assert(slash_scan(s).0[0] == d[0]);
            } else {
                assert(slash_scan(s).0 == d);
            }
        }
    }
}

proof fn lemma_first_piece_empty_means_root(s: Seq<char>)
    requires
        slash_pieces(s)[0].len() == 0,
        s.len() > 0,
    ensures
        is_absolute(s),
{
    lemma_scan_first(s);
    if slash_scan(s).0.len() == 0 {
        assert(slash_pieces(s)[0] == slash_scan(s).1);
    } else {
        assert(slash_pieces(s)[0] == slash_scan(s).0[0]);
    }
}

proof fn lemma_root_means_first_piece_empty(s: Seq<char>)
    requires
        is_absolute(s),
    ensures
        slash_pieces(s)[0].len() == 0,
{
    lemma_scan_first(s);
    assert(slash_pieces(s)[0] == slash_scan(s).0[0]);
}

} // verus!

verus! {

proof fn lemma_trim_start_shape(s: Seq<char>)
    ensures
        trim_start(s).len() <= s.len(),
        trim_start(s) == s.skip(s.len() - trim_start(s).len()),
        trim_start(s).len() == 0 || !is_white_space(trim_start(s)[0]),
    decreases s.len(),
{
    if s.len() > 0 && is_white_space(s[0]) {
        lemma_trim_start_shape(s.drop_first());
        assert(s.drop_first().skip(s.drop_first().len() - trim_start(s.drop_first()).len())
            =~= s.skip(s.len() - trim_start(s).len()));
    } else {
        assert(s.skip(0) =~= s);
    }
}

proof fn lemma_trim_end_shape(s: Seq<char>)
    ensures
        trim_end(s).len() <= s.len(),
        trim_end(s) == s.take(trim_end(s).len() as int),
        trim_end(s).len() == 0 || !is_white_space(trim_end(s).last()),
    decreases s.len(),
{
    if s.len() > 0 && is_white_space(s.last()) {
        lemma_trim_end_shape(s.drop_last());
        assert(s.drop_last().take(trim_end(s.drop_last()).len() as int) =~= s.take(
            trim_end(s).len() as int,
        ));
    } else {
        assert(s.take(s.len() as int) =~= s);
    }
}

/// Trimming twice is trimming once.
pub proof fn lemma_trim_idempotent(s: Seq<char>)
    ensures
        trim(trim(s)) == trim(s),
{
    let u = trim_start(s);
    let t = trim_end(u);
    lemma_trim_start_shape(s);
    lemma_trim_end_shape(u);
    if t.len() > 0 {
        assert(t[0] == u[0]);
        assert(trim_start(t) == t);
    } else {
        assert(trim_start(t) == t);
    }
    assert(trim_end(t) == t);
}

/// Normalization leaves a list without `.` and `..` as it is.
pub proof fn lemma_normalize_plain(cs: Seq<Seq<char>>)
    requires
        forall|i: int| 0 <= i < cs.len() ==> #[trigger] cs[i] != cur_dir() && cs[i] != parent_dir(),
    ensures
        normalize_components(cs) == cs,
    decreases cs.len(),
{
    if cs.len() > 0 {
        assert forall|i: int| 0 <= i < cs.drop_last().len() implies #[trigger] cs.drop_last()[i] != cur_dir()
            && cs.drop_last()[i] != parent_dir() by {
            assert(cs.drop_last()[i] == cs[i]);
        }
        lemma_normalize_plain(cs.drop_last());
        assert(cs[cs.len() - 1] == cs.last());
        assert(cs.drop_last().push(cs.last()) =~= cs);
    }
}

/// The components a path is normalized to (before they are printed).
pub open spec fn normalized_components(s: Seq<char>) -> Seq<Seq<char>> {
    normalize_components(path_components(s)).map_values(|c: Seq<char>| trim(c))
}

/// A printed clean list of trimmed components is already normalized.
pub proof fn lemma_normalize_collected(ds: Seq<Seq<char>>)
    requires
        clean_components(ds),
        forall|i: int| 0 <= i < ds.len() ==> trim(#[trigger] ds[i]) == ds[i],
    ensures
        normalize_path(collect_path(ds)) == collect_path(ds),
        normalized_components(collect_path(ds)) == ds,
{
    law_components_of_collected(ds);
    assert forall|i: int| 0 <= i < ds.len() implies #[trigger] ds[i] != cur_dir() && ds[i] != parent_dir() by {
        assert(root_dir() != cur_dir() && root_dir() != parent_dir()) by {
            assert(root_dir()[0] != cur_dir()[0]);
            assert(root_dir().len() != parent_dir().len());
        }
    }
    lemma_normalize_plain(ds);
    assert(ds.map_values(|c: Seq<char>| trim(c)) =~= ds);
}

/// Normalizing a normalized path changes nothing, when the components it is
/// normalized to are clean (plain, non-empty names, the root only in front).
pub proof fn law_normalize_idempotent(s: Seq<char>)
    requires
        clean_components(normalized_components(s)),
    ensures
        normalize_path(normalize_path(s)) == normalize_path(s),
        normalized_components(normalize_path(s)) == normalized_components(s),
{
    let cs = normalized_components(s);
    assert forall|i: int| 0 <= i < cs.len() implies trim(#[trigger] cs[i]) == cs[i] by {
        lemma_trim_idempotent(normalize_components(path_components(s))[i]);
    }
    lemma_normalize_collected(cs);
}

} // verus!

verus! {

/// The program and the arguments of a shell command line: its white-space
/// separated words, the first being the program. The line must hold a word.
pub fn str_as_cmd(string: &str) -> (r: (String, Vec<String>))
    requires
        crate::helpers::string::words_by(string@, false).len() > 0,
    ensures
        r.0@ == crate::helpers::string::words_by(string@, false)[0],
        crate::helpers::string::string_views(r.1@) == crate::helpers::string::words_by(
            string@,
            false,
        ).drop_first(),
{
    let words = crate::helpers::string::split_words(&chars_of(string), false);
    let ghost wv = crate::helpers::vec_views(words@);
    let program = string_of(&words[0]);
    let mut args: Vec<String> = Vec::new();
    let mut i: usize = 1;
    while i < words.len()
        invariant
            1 <= i <= words.len(),
            wv == crate::helpers::vec_views(words@),
            crate::helpers::string::string_views(args@) == wv.subrange(1, i as int),
        decreases words.len() - i,
    {
        let ghost old_args = args@;
        let a = string_of(&words[i]);
        args.push(a);
        assert(crate::helpers::string::string_views(args@) =~= crate::helpers::string::string_views(
            old_args,
        ).push(wv[i as int]));
        assert(wv.subrange(1, i + 1) =~= wv.subrange(1, i as int).push(wv[i as int]));
        i += 1;
    }
    assert(wv.subrange(1, words.len() as int) =~= wv.drop_first());
    (program, args)
}

/// The items of `items` whose flag at the same position equals `keep`, in
/// their order.
pub open spec fn kept<T>(items: Seq<T>, flags: Seq<bool>, keep: bool) -> Seq<T>
    decreases items.len(),
{
    if items.len() == 0 {
        Seq::empty()
    } else {
        let before = kept(items.drop_last(), flags, keep);
        if flags[items.len() - 1] == keep {
            before.push(items.last())
        } else {
            before
        }
    }
}

/// `kept` reads only the flags at the positions of the items.
pub proof fn lemma_kept_prefix_flags<T>(items: Seq<T>, flags: Seq<bool>, keep: bool)
    requires
        items.len() <= flags.len(),
    ensures
        kept(items, flags.take(items.len() as int), keep) == kept(items, flags, keep),
    decreases items.len(),
{
    if items.len() > 0 {
        let rest = items.drop_last();
        lemma_kept_prefix_flags(rest, flags, keep);
        lemma_kept_prefix_flags(rest, flags.take(items.len() as int), keep);
        assert(flags.take(items.len() as int).take(rest.len() as int) =~= flags.take(
            rest.len() as int,
        ));
    }
}

/// The items of a vector in the order they come, as a sequence of values.
pub open spec fn derefs<T>(s: Seq<&T>) -> Seq<T> {
    s.map_values(|x: &T| *x)
}

/// The items of `items` whose flag at the same position is set, in their
/// order.
pub fn select<'a, T>(items: &'a Vec<T>, flags: &Vec<bool>) -> (r: Vec<&'a T>)
    requires
        flags@.len() == items@.len(),
    ensures
        derefs(r@) == kept(items@, flags@, true),
{
    let mut r: Vec<&'a T> = Vec::new();
    let mut i: usize = 0;
    while i < items.len()
        invariant
            i <= items@.len(),
            flags@.len() == items@.len(),
            derefs(r@) == kept(items@.take(i as int), flags@, true),
        decreases items@.len() - i,
    {
        proof {
            assert(items@.take(i + 1).drop_last() =~= items@.take(i as int));
        }
        if flags[i] {
            r.push(&items[i]);
            proof {
                assert(derefs(r@) =~= derefs(r@.drop_last()).push(items@[i as int]));
            }
        }
        i += 1;
    }
    proof {
        assert(items@.take(items@.len() as int) =~= items@);
    }
    r
}

} // verus!
