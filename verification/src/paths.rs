//! File paths as texts with `/` between components.
//!
//! The meaning of a path does not change with repeated separators, with a
//! separator at its end, or with a `.` after its first component; the functions
//! here see through those.

use vstd::prelude::*;
use vstd::string::*;
use crate::text::{chars_before, chars_eq, chars_of, slice_chars, str_eq, string_of};
use crate::text;

verus! {

/// Where the first component of `p` after a root or a leading `.` may begin.
pub open spec fn body_start(p: Seq<char>) -> int {
    if p.len() > 0 && p[0] == '/' {
        1
    } else if p.len() > 0 && p[0] == '.' && (p.len() == 1 || p[1] == '/') {
        1
    } else {
        0
    }
}

/// The run of characters `p[j..i]` as a component, unless it is empty or `.`.
pub open spec fn run(p: Seq<char>, j: int, i: int) -> Seq<(int, int)> {
    if i > j && !(i == j + 1 && p[j] == '.') {
        seq![(j, i)]
    } else {
        Seq::empty()
    }
}

/// The components of `p` from position `i` on, where `j` is the beginning of the
/// run that `i` stands in.
pub open spec fn runs(p: Seq<char>, j: int, i: int) -> Seq<(int, int)>
    decreases p.len() - i,
{
    if i >= p.len() {
        run(p, j, i)
    } else if p[i] == '/' {
        run(p, j, i) + runs(p, i + 1, i + 1)
    } else {
        runs(p, j, i + 1)
    }
}

/// The components of `p` after its root or leading `.`, as ranges of positions.
pub open spec fn spans(p: Seq<char>) -> Seq<(int, int)> {
    runs(p, body_start(p), body_start(p))
}

/// The text of component `k` of `p`.
pub open spec fn component(p: Seq<char>, k: int) -> Seq<char> {
    p.subrange(spans(p)[k].0, spans(p)[k].1)
}

/// The components of `p` after its root or leading `.`.
pub open spec fn components(p: Seq<char>) -> Seq<Seq<char>> {
    Seq::new(spans(p).len(), |k: int| component(p, k))
}

/// Whether `p` begins at the root.
pub open spec fn is_rooted(p: Seq<char>) -> bool {
    p.len() > 0 && p[0] == '/'
}

/// The part of `p` that ends with component `k`; for `k < 0` its root or leading
/// `.` alone.
pub open spec fn up_to(p: Seq<char>, k: int) -> Seq<char> {
    if k < 0 {
        p.take(body_start(p))
    } else {
        p.take(spans(p)[k].1)
    }
}

/// The path without its last component; nothing for a root or an empty path.
pub open spec fn parent_of(p: Seq<char>) -> Option<Seq<char>> {
    let n = spans(p).len();
    if n > 0 {
        Some(up_to(p, n - 2))
    } else if body_start(p) == 1 && p[0] == '.' {
        Some(Seq::empty())
    } else {
        None
    }
}

/// The last component of a path, unless it is `..`.
pub open spec fn file_name_of(p: Seq<char>) -> Option<Seq<char>> {
    let n = spans(p).len();
    if n > 0 && component(p, n - 1) != seq!['.', '.'] {
        Some(component(p, n - 1))
    } else {
        None
    }
}

/// How many characters of a file name stand before its extension: those before
/// its last dot, or all of them where there is none or it stands first.
pub open spec fn stem_len(name: Seq<char>) -> int
    decreases name.len(),
{
    stem_len_from(name, name.len() as int)
}

/// As `stem_len`, for a name whose last dot stands before position `i`.
pub open spec fn stem_len_from(name: Seq<char>, i: int) -> int
    decreases i,
{
    if i <= 1 {
        name.len() as int
    } else if name[i - 1] == '.' {
        i - 1
    } else {
        stem_len_from(name, i - 1)
    }
}

/// The file name without its extension.
pub open spec fn file_stem_of(p: Seq<char>) -> Option<Seq<char>> {
    match file_name_of(p) {
        Some(name) => Some(name.take(stem_len(name))),
        None => None,
    }
}

/// What follows the last dot of the file name, unless that dot stands first.
pub open spec fn extension_of(p: Seq<char>) -> Option<Seq<char>> {
    match file_name_of(p) {
        Some(name) => if stem_len(name) < name.len() {
            Some(name.skip(stem_len(name) + 1))
        } else {
            None
        },
        None => None,
    }
}

/// The path with the extension of its file name replaced by `ext`, or added.
pub open spec fn with_extension_of(p: Seq<char>, ext: Seq<char>) -> Seq<char> {
    match file_name_of(p) {
        Some(name) => p.take(spans(p).last().0 + stem_len(name)) + seq!['.'] + ext,
        None => p,
    }
}

/// `rel` seen from `base`.
pub open spec fn join_of(base: Seq<char>, rel: Seq<char>) -> Seq<char> {
    if is_rooted(rel) {
        rel
    } else if base.len() > 0 && base.last() != '/' {
        base + seq!['/'] + rel
    } else {
        base + rel
    }
}

/// Whether `p` is rooted as `base` is, starts with a `.` where `base` does, and
/// begins with the components of `base`.
pub open spec fn is_under(p: Seq<char>, base: Seq<char>) -> bool {
    &&& components(base).len() <= components(p).len()
    &&& components(p).take(components(base).len() as int) == components(base)
    &&& p.take(body_start(p)) == base.take(body_start(base)) || (components(base).len() == 0
        && body_start(base) == 0)
}

/// What is left of `p` after the components of `base`.
pub open spec fn relative_to(p: Seq<char>, base: Seq<char>) -> Option<Seq<char>> {
    let n = spans(p).len() as int;
    let k = spans(base).len() as int;
    if !is_under(p, base) {
        None
    } else if k == 0 && body_start(base) == 0 {
        Some(up_to(p, n - 1))
    } else if k < n {
        Some(p.subrange(spans(p)[k].0, spans(p)[n - 1].1))
    } else {
        Some(Seq::empty())
    }
}

proof fn lemma_runs_bounds(p: Seq<char>, j: int, i: int)
    requires
        0 <= j <= i <= p.len(),
    ensures
        forall|k: int|
            0 <= k < runs(p, j, i).len() ==> j <= (#[trigger] runs(p, j, i)[k]).0 < runs(p, j, i)[k].1
                <= p.len(),
        forall|k: int, l: int|
            0 <= k < l < runs(p, j, i).len() ==> (#[trigger] runs(p, j, i)[k]).1 < (
            #[trigger] runs(p, j, i)[l]).0,
    decreases p.len() - i,
{
    if i < p.len() {
        if p[i] == '/' {
            lemma_runs_bounds(p, i + 1, i + 1);
            let head = run(p, j, i);
            let rest = runs(p, i + 1, i + 1);
            let all = runs(p, j, i);
            assert(all == head + rest);
            assert forall|k: int| 0 <= k < all.len() implies j <= (#[trigger] all[k]).0 < all[k].1
                <= p.len() by {
                if k >= head.len() {
                    assert(all[k] == rest[k - head.len()]);
                }
            }
            assert forall|k: int, l: int| 0 <= k < l < all.len() implies (#[trigger] all[k]).1 < (
            #[trigger] all[l]).0 by {
                assert(all[l] == rest[l - head.len()]);
                if k >= head.len() {
                    assert(all[k] == rest[k - head.len()]);
                }
            }
        } else {
            lemma_runs_bounds(p, j, i + 1);
            assert(runs(p, j, i) == runs(p, j, i + 1));
        }
    } else {
        assert(runs(p, j, i) == run(p, j, i));
        assert(run(p, j, i).len() <= 1);
    }
}

/// The component ranges of a path lie in it, in order and apart.
pub proof fn lemma_spans_bounds(p: Seq<char>)
    ensures
        0 <= body_start(p) <= p.len(),
        forall|k: int|
            0 <= k < spans(p).len() ==> body_start(p) <= (#[trigger] spans(p)[k]).0 < spans(p)[k].1
                <= p.len(),
        forall|k: int, l: int|
            0 <= k < l < spans(p).len() ==> (#[trigger] spans(p)[k]).1 < (#[trigger] spans(p)[l]).0,
{
    lemma_runs_bounds(p, body_start(p), body_start(p));
}

pub open spec fn as_ints(v: Seq<(usize, usize)>) -> Seq<(int, int)> {
    Seq::new(v.len(), |k: int| (v[k].0 as int, v[k].1 as int))
}

fn body_start_exec(v: &Vec<char>) -> (r: usize)
    ensures
        r == body_start(v@),
{
    if v.len() > 0 && v[0] == '/' {
        1
    } else if v.len() > 0 && v[0] == '.' && (v.len() == 1 || v[1] == '/') {
        1
    } else {
        0
    }
}

fn spans_exec(v: &Vec<char>) -> (r: Vec<(usize, usize)>)
    ensures
        as_ints(r@) == spans(v@),
{
    let start = body_start_exec(v);
    let mut out: Vec<(usize, usize)> = Vec::new();
    let mut j: usize = start;
    let mut i: usize = start;
    proof {
        lemma_spans_bounds(v@);
        assert(as_ints(out@) + runs(v@, j as int, i as int) =~= spans(v@));
    }
    while i < v.len()
        invariant
            j <= i <= v@.len(),
            as_ints(out@) + runs(v@, j as int, i as int) == spans(v@),
        decreases v@.len() - i,
    {
        if v[i] == '/' {
            let ghost o0 = out@;
            if i > j && !(i == j + 1 && v[j] == '.') {
                out.push((j, i));
            }
            assert(as_ints(out@) =~= as_ints(o0) + run(v@, j as int, i as int));
            assert(as_ints(out@) + runs(v@, i + 1, i + 1) =~= as_ints(o0) + (run(
                v@,
                j as int,
                i as int,
            ) + runs(v@, i + 1, i + 1)));
            j = i + 1;
        }
        i += 1;
    }
    let ghost o0 = out@;
    if i > j && !(i == j + 1 && v[j] == '.') {
        out.push((j, i));
    }
    assert(as_ints(out@) =~= as_ints(o0) + run(v@, j as int, i as int));
    out
}

/// Whether `name` is one of the components of a path.
pub fn has_component(p: &str, name: &str) -> (r: bool)
    ensures
        r == components(p@).contains(name@),
{
    let v = chars_of(p);
    let s = spans_exec(&v);
    let ghost all = components(p@);
    proof {
        lemma_spans_bounds(p@);
        assert(as_ints(s@).len() == s@.len());
    }
    let mut k: usize = 0;
    while k < s.len()
        invariant
            k <= s@.len(),
            v@ == p@,
            all == components(p@),
            as_ints(s@) == spans(p@),
            s@.len() == spans(p@).len(),
            forall|m: int| 0 <= m < k ==> #[trigger] all[m] != name@,
        decreases s@.len() - k,
    {
        proof {
            lemma_spans_bounds(p@);
            assert(as_ints(s@)[k as int] == spans(p@)[k as int]);
        }
        let (a, b) = s[k];
        let part = string_of(&v, a, b);
        assert(part@ == all[k as int]);
        if str_eq(part.as_str(), name) {
            assert(all.contains(name@));
            return true;
        }
        k += 1;
    }
    false
}

/// `Path::join`.
pub fn join_path(base: &str, rel: &str) -> (r: String)
    ensures
        r@ == join_of(base@, rel@),
{
    let b = chars_of(base);
    let v = chars_of(rel);
    if v.len() > 0 && v[0] == '/' {
        return rel.to_owned();
    }
    let mut out = base.to_owned();
    if b.len() > 0 && b[b.len() - 1] != '/' {
        out.push('/');
        assert(out@ =~= base@ + seq!['/']);
    }
    out.append(rel);
    out
}

/// `Path::parent`.
pub fn parent(p: &str) -> (r: Option<String>)
    ensures
        match r {
            Some(t) => parent_of(p@) == Some(t@),
            None => parent_of(p@) is None,
        },
{
    let v = chars_of(p);
    let s = spans_exec(&v);
    proof {
        lemma_spans_bounds(p@);
        assert(as_ints(s@).len() == s@.len());
    }
    if s.len() > 0 {
        let end = if s.len() > 1 {
            assert(as_ints(s@)[s@.len() - 2] == spans(p@)[s@.len() - 2]);
            s[s.len() - 2].1
        } else {
            body_start_exec(&v)
        };
        let t = string_of(&v, 0, end);
        assert(v@.subrange(0, end as int) == v@.take(end as int));
        Some(t)
    } else if v.len() > 0 && v[0] == '.' && body_start_exec(&v) == 1 {
        let t = String::new();
        Some(t)
    } else {
        None
    }
}

/// The positions of the file name of a path.
fn file_name_span(v: &Vec<char>) -> (r: Option<(usize, usize)>)
    ensures
        match r {
            Some(s) => {
                &&& s.0 < s.1 <= v@.len()
                &&& spans(v@).len() > 0
                &&& spans(v@).last() == (s.0 as int, s.1 as int)
                &&& file_name_of(v@) == Some(v@.subrange(s.0 as int, s.1 as int))
            },
            None => file_name_of(v@) is None,
        },
{
    let s = spans_exec(v);
    proof {
        lemma_spans_bounds(v@);
        assert(as_ints(s@).len() == s@.len());
    }
    if s.len() == 0 {
        return None;
    }
    let last = s[s.len() - 1];
    assert(as_ints(s@)[s@.len() - 1] == spans(v@)[s@.len() - 1]);
    let ghost name = v@.subrange(last.0 as int, last.1 as int);
    assert(component(v@, s@.len() - 1) == name);
    if last.1 - last.0 == 2 && v[last.0] == '.' && v[last.0 + 1] == '.' {
        assert(name =~= seq!['.', '.']);
        None
    } else {
        proof {
            if name == seq!['.', '.'] {
                assert(name.len() == 2);
                assert(name[0] == '.' && name[1] == '.');
            }
        }
        Some(last)
    }
}

/// `Path::file_name`.
pub fn file_name(p: &str) -> (r: Option<String>)
    ensures
        match r {
            Some(t) => file_name_of(p@) == Some(t@),
            None => file_name_of(p@) is None,
        },
{
    let v = chars_of(p);
    match file_name_span(&v) {
        Some(s) => Some(string_of(&v, s.0, s.1)),
        None => None,
    }
}

/// The position at which the extension of the name `v[from..to]` is cut off.
fn stem_end(v: &Vec<char>, from: usize, to: usize) -> (r: usize)
    requires
        from < to <= v@.len(),
    ensures
        from < r <= to,
        r - from == stem_len(v@.subrange(from as int, to as int)),
        r < to ==> v@[r as int] == '.',
{
    let ghost name = v@.subrange(from as int, to as int);
    let mut i: usize = to;
    while i > from + 1
        invariant
            from < i <= to <= v@.len(),
            name == v@.subrange(from as int, to as int),
            stem_len(name) == stem_len_from(name, i - from),
        decreases i,
    {
        assert(name[i - from - 1] == v@[i - 1]);
        if v[i - 1] == '.' {
            return i - 1;
        }
        i -= 1;
    }
    to
}

/// `Path::file_stem`.
pub fn file_stem(p: &str) -> (r: Option<String>)
    ensures
        match r {
            Some(t) => file_stem_of(p@) == Some(t@),
            None => file_stem_of(p@) is None,
        },
{
    let v = chars_of(p);
    match file_name_span(&v) {
        Some(s) => {
            let e = stem_end(&v, s.0, s.1);
            let t = string_of(&v, s.0, e);
            assert(v@.subrange(s.0 as int, s.1 as int).take(e - s.0) == v@.subrange(
                s.0 as int,
                e as int,
            ));
            Some(t)
        },
        None => None,
    }
}

/// `Path::extension`.
pub fn extension(p: &str) -> (r: Option<String>)
    ensures
        match r {
            Some(t) => extension_of(p@) == Some(t@),
            None => extension_of(p@) is None,
        },
{
    let v = chars_of(p);
    match file_name_span(&v) {
        Some(s) => {
            let e = stem_end(&v, s.0, s.1);
            if e < s.1 {
                let t = string_of(&v, e + 1, s.1);
                assert(v@.subrange(s.0 as int, s.1 as int).skip(e - s.0 + 1) == v@.subrange(
                    e + 1,
                    s.1 as int,
                ));
                Some(t)
            } else {
                None
            }
        },
        None => None,
    }
}

/// Whether the extension of `p` is `ext`.
pub fn has_extension(p: &str, ext: &str) -> (r: bool)
    ensures
        r == (extension_of(p@) == Some(ext@)),
{
    match extension(p) {
        Some(e) => str_eq(e.as_str(), ext),
        None => false,
    }
}

/// `Path::with_extension`, for an extension that is not empty.
pub fn with_extension(p: &str, ext: &str) -> (r: String)
    ensures
        r@ == with_extension_of(p@, ext@),
{
    let v = chars_of(p);
    match file_name_span(&v) {
        Some(s) => {
            let e = stem_end(&v, s.0, s.1);
            let mut out = string_of(&v, 0, e);
            assert(v@.subrange(0, e as int) == v@.take(e as int));
            let ghost o0 = out@;
            out.push('.');
            assert(out@ =~= o0 + seq!['.']);
            out.append(ext);
            out
        },
        None => p.to_owned(),
    }
}

/// `Path::strip_prefix`.
pub fn strip_base(p: &str, base: &str) -> (r: Option<String>)
    ensures
        match r {
            Some(t) => relative_to(p@, base@) == Some(t@),
            None => relative_to(p@, base@) is None,
        },
{
    let v = chars_of(p);
    let w = chars_of(base);
    let vs = spans_exec(&v);
    let ws = spans_exec(&w);
    let vb = body_start_exec(&v);
    let wb = body_start_exec(&w);
    proof {
        lemma_spans_bounds(p@);
        lemma_spans_bounds(base@);
        assert(as_ints(vs@).len() == vs@.len());
        assert(as_ints(ws@).len() == ws@.len());
        assert(components(p@).len() == vs@.len());
        assert(components(base@).len() == ws@.len());
        assert forall|k: int| 0 <= k < vs@.len() implies #[trigger] components(p@)[k] == v@.subrange(
            vs@[k].0 as int,
            vs@[k].1 as int,
        ) by {
            assert(as_ints(vs@)[k] == spans(p@)[k]);
        }
        assert forall|k: int| 0 <= k < ws@.len() implies #[trigger] components(base@)[k]
            == w@.subrange(ws@[k].0 as int, ws@[k].1 as int) by {
            assert(as_ints(ws@)[k] == spans(base@)[k]);
        }
    }
    let trivial = ws.len() == 0 && wb == 0;
    if !trivial {
        if ws.len() > vs.len() {
            return None;
        }
        if vb != wb {
            assert(p@.take(vb as int).len() != base@.take(wb as int).len());
            return None;
        }
        if vb == 1 && v[0] != w[0] {
            assert(p@.take(1)[0] != base@.take(1)[0]);
            return None;
        }
        assert(p@.take(vb as int) =~= base@.take(wb as int));
        let mut k: usize = 0;
        while k < ws.len()
            invariant
                k <= ws@.len() <= vs@.len(),
                as_ints(vs@) == spans(v@),
                as_ints(ws@) == spans(w@),
                v@ == p@,
                w@ == base@,
                components(p@).len() == vs@.len(),
                components(base@).len() == ws@.len(),
                forall|m: int|
                    0 <= m < vs@.len() ==> #[trigger] components(p@)[m] == v@.subrange(
                        vs@[m].0 as int,
                        vs@[m].1 as int,
                    ),
                forall|m: int|
                    0 <= m < ws@.len() ==> #[trigger] components(base@)[m] == w@.subrange(
                        ws@[m].0 as int,
                        ws@[m].1 as int,
                    ),
                forall|m: int| 0 <= m < k ==> components(p@)[m] == components(base@)[m],
            decreases ws@.len() - k,
        {
            let a = vs[k];
            let b = ws[k];
            proof {
                lemma_spans_bounds(p@);
                lemma_spans_bounds(base@);
                assert(as_ints(vs@)[k as int] == spans(p@)[k as int]);
                assert(as_ints(ws@)[k as int] == spans(base@)[k as int]);
            }
            if !chars_eq(&slice_chars(&v, a.0, a.1), &slice_chars(&w, b.0, b.1)) {
                assert(components(p@).take(ws@.len() as int)[k as int] != components(base@)[k as int]);
                return None;
            }
            k += 1;
        }
        assert(components(p@).take(ws@.len() as int) =~= components(base@));
        if ws.len() < vs.len() {
            let a = vs[ws.len()].0;
            let b = vs[vs.len() - 1].1;
            proof {
                assert(as_ints(vs@)[ws@.len() as int] == spans(p@)[ws@.len() as int]);
                assert(as_ints(vs@)[vs@.len() - 1] == spans(p@)[vs@.len() - 1]);
                if ws@.len() < vs@.len() - 1 {
                    assert(spans(p@)[ws@.len() as int].1 < spans(p@)[vs@.len() - 1].0);
                }
            }
            return Some(string_of(&v, a, b));
        }
        let t = String::new();
        return Some(t);
    }
    assert(components(p@).take(0) =~= components(base@));
    let end = if vs.len() > 0 {
        assert(as_ints(vs@)[vs@.len() - 1] == spans(p@)[vs@.len() - 1]);
        vs[vs.len() - 1].1
    } else {
        vb
    };
    let t = string_of(&v, 0, end);
    assert(v@.subrange(0, end as int) == v@.take(end as int));
    Some(t)
}

/// `Path::is_absolute`.
pub fn is_absolute(p: &str) -> (r: bool)
    ensures
        r == is_rooted(p@),
{
    let v = chars_of(p);
    v.len() > 0 && v[0] == '/'
}

/// A component as a text by which components sort: a root first, then a leading
/// `.`, then `..`, then names.
pub open spec fn component_rank(c: Seq<char>) -> Seq<char> {
    if c == seq!['.', '.'] {
        seq!['\u{2}']
    } else {
        seq!['\u{3}'] + c
    }
}

/// The root or leading `.` of a path, as a text by which components sort.
pub open spec fn lead_rank(p: Seq<char>) -> Seq<Seq<char>> {
    if body_start(p) == 0 {
        Seq::empty()
    } else if p[0] == '/' {
        seq![seq!['\u{0}']]
    } else {
        seq![seq!['\u{1}']]
    }
}

/// All components of a path, as texts by which they sort.
pub open spec fn sort_texts(p: Seq<char>) -> Seq<Seq<char>> {
    lead_rank(p) + Seq::new(spans(p).len(), |k: int| component_rank(component(p, k)))
}

/// Lexicographic order of sequences of texts.
pub open spec fn list_lt(a: Seq<Seq<char>>, b: Seq<Seq<char>>) -> bool
    decreases a.len(),
{
    if b.len() == 0 {
        false
    } else if a.len() == 0 {
        true
    } else if a[0] != b[0] {
        text::text_lt(a[0], b[0])
    } else {
        list_lt(a.drop_first(), b.drop_first())
    }
}

/// The order of paths: component by component.
pub open spec fn path_lt(a: Seq<char>, b: Seq<char>) -> bool {
    list_lt(sort_texts(a), sort_texts(b))
}

pub proof fn lemma_list_lt_asymmetric(a: Seq<Seq<char>>, b: Seq<Seq<char>>)
    requires
        list_lt(a, b),
    ensures
        !list_lt(b, a),
    decreases a.len(),
{
    if a.len() > 0 && b.len() > 0 {
        if a[0] != b[0] {
            text::lemma_text_lt_asymmetric(a[0], b[0]);
        } else {
            lemma_list_lt_asymmetric(a.drop_first(), b.drop_first());
        }
    }
}

pub proof fn lemma_list_not_lt_transitive(
    a: Seq<Seq<char>>,
    b: Seq<Seq<char>>,
    c: Seq<Seq<char>>,
)
    requires
        !list_lt(a, b),
        !list_lt(b, c),
    ensures
        !list_lt(a, c),
    decreases a.len(),
{
    if a.len() > 0 && b.len() > 0 && c.len() > 0 {
        if a[0] == b[0] && b[0] == c[0] {
            lemma_list_not_lt_transitive(a.drop_first(), b.drop_first(), c.drop_first());
        } else {
            text::lemma_text_lt_irreflexive(a[0]);
            text::lemma_text_lt_irreflexive(b[0]);
            text::lemma_text_lt_total(a[0], b[0]);
            text::lemma_text_lt_total(b[0], c[0]);
            text::lemma_text_not_lt_transitive(a[0], b[0], c[0]);
            if a[0] == c[0] {
                if text::text_lt(b[0], a[0]) {
                    text::lemma_text_lt_asymmetric(b[0], a[0]);
                }
            }
        }
    }
}

/// A path, prepared for comparing.
pub struct PathKey {
    pub parts: Vec<Vec<char>>,
}

pub open spec fn part_views(v: Seq<Vec<char>>) -> Seq<Seq<char>> {
    Seq::new(v.len(), |i: int| v[i]@)
}

impl View for PathKey {
    type V = Seq<Seq<char>>;

    open spec fn view(&self) -> Seq<Seq<char>> {
        part_views(self.parts@)
    }
}

/// The components of a path, prepared for comparing.
pub fn path_key(p: &str) -> (r: PathKey)
    ensures
        r@ == sort_texts(p@),
{
    let v = chars_of(p);
    let s = spans_exec(&v);
    let mut parts: Vec<Vec<char>> = Vec::new();
    if body_start_exec(&v) == 1 {
        let mut lead: Vec<char> = Vec::new();
        if v[0] == '/' {
            lead.push('\u{0}');
        } else {
            lead.push('\u{1}');
        }
        assert(lead@ =~= lead_rank(p@)[0]);
        parts.push(lead);
    }
    assert(part_views(parts@) =~= lead_rank(p@));
    proof {
        lemma_spans_bounds(p@);
        assert(as_ints(s@).len() == s@.len());
    }
    let ghost lead = lead_rank(p@);
    let ghost ranks = Seq::new(spans(p@).len(), |k: int| component_rank(component(p@, k)));
    let mut k: usize = 0;
    while k < s.len()
        invariant
            k <= s@.len(),
            v@ == p@,
            as_ints(s@) == spans(p@),
            s@.len() == spans(p@).len(),
            ranks == Seq::new(spans(p@).len(), |k: int| component_rank(component(p@, k))),
            part_views(parts@) == lead + ranks.take(k as int),
        decreases s@.len() - k,
    {
        proof {
            lemma_spans_bounds(p@);
            assert(as_ints(s@)[k as int] == spans(p@)[k as int]);
        }
        let (a, b) = s[k];
        let ghost c = component(p@, k as int);
        assert(c == p@.subrange(a as int, b as int));
        let mut part: Vec<char> = Vec::new();
        if b - a == 2 && v[a] == '.' && v[a + 1] == '.' {
            part.push('\u{2}');
            assert(c =~= seq!['.', '.']);
            assert(part@ =~= component_rank(c));
        } else {
            proof {
                if c == seq!['.', '.'] {
                    assert(c.len() == 2);
                    assert(c[0] == '.' && c[1] == '.');
                }
            }
            part.push('\u{3}');
            let mut i: usize = a;
            while i < b
                invariant
                    a <= i <= b <= v@.len(),
                    v@ == p@,
                    part@ == seq!['\u{3}'] + p@.subrange(a as int, i as int),
                decreases b - i,
            {
                part.push(v[i]);
                i += 1;
                assert(part@ =~= seq!['\u{3}'] + p@.subrange(a as int, i as int));
            }
            assert(part@ =~= component_rank(c));
        }
        let ghost before = parts@;
        parts.push(part);
        assert(part_views(parts@) =~= part_views(before).push(component_rank(c)));
        assert(ranks.take(k + 1) =~= ranks.take(k as int).push(ranks[k as int]));
        assert((lead + ranks.take(k as int)).push(ranks[k as int]) =~= lead + ranks.take(k + 1));
        k += 1;
    }
    assert(ranks.take(ranks.len() as int) =~= ranks);
    PathKey { parts }
}

impl PathKey {
    /// Whether this path comes before `other`.
    pub fn comes_before(&self, other: &PathKey) -> (r: bool)
        ensures
            r == list_lt(self@, other@),
    {
        let mut i: usize = 0;
        assert(self@.skip(0) == self@);
        assert(other@.skip(0) == other@);
        loop
            invariant
                i <= self.parts@.len(),
                i <= other.parts@.len(),
                list_lt(self@, other@) == list_lt(self@.skip(i as int), other@.skip(i as int)),
            decreases self.parts@.len() - i,
        {
            if i == other.parts.len() {
                return false;
            }
            if i == self.parts.len() {
                return true;
            }
            assert(self@.skip(i as int)[0] == self.parts@[i as int]@);
            assert(other@.skip(i as int)[0] == other.parts@[i as int]@);
            if !chars_eq(&self.parts[i], &other.parts[i]) {
                return chars_before(&self.parts[i], &other.parts[i]);
            }
            assert(self@.skip(i as int).drop_first() == self@.skip(i + 1));
            assert(other@.skip(i as int).drop_first() == other@.skip(i + 1));
            i += 1;
        }
    }
}

/// The ranges, each moved by `by`.
spec fn moved(v: Seq<(int, int)>, by: int) -> Seq<(int, int)> {
    Seq::new(v.len(), |k: int| (v[k].0 + by, v[k].1 + by))
}

proof fn lemma_runs_moved(p: Seq<char>, b: Seq<char>, by: int, j: int, i: int)
    requires
        0 <= by <= p.len(),
        p.skip(by) == b,
        0 <= j <= i <= b.len(),
    ensures
        runs(p, by + j, by + i) == moved(runs(b, j, i), by),
    decreases b.len() - i,
{
    assert(forall|k: int| 0 <= k < b.len() ==> #[trigger] p.skip(by)[k] == p[by + k]);
    if j < b.len() {
        assert(b[j] == p[by + j]);
    }
    assert(run(p, by + j, by + i) =~= moved(run(b, j, i), by));
    if i < b.len() {
        assert(b[i] == p[by + i]);
        if b[i] == '/' {
            lemma_runs_moved(p, b, by, i + 1, i + 1);
            assert(moved(run(b, j, i) + runs(b, i + 1, i + 1), by) =~= moved(run(b, j, i), by)
                + moved(runs(b, i + 1, i + 1), by));
        } else {
            lemma_runs_moved(p, b, by, j, i + 1);
        }
    }
}

proof fn lemma_runs_joined(a: Seq<char>, b: Seq<char>, j: int, i: int)
    requires
        0 <= j <= i <= a.len(),
    ensures
        runs(a + seq!['/'] + b, j, i) == runs(a, j, i) + moved(runs(b, 0, 0), a.len() as int + 1),
    decreases a.len() - i,
{
    let p = a + seq!['/'] + b;
    assert(run(p, j, i) =~= run(a, j, i));
    if i == a.len() {
        assert(p[i] == '/');
        assert(p.skip(a.len() as int + 1) =~= b);
        lemma_runs_moved(p, b, a.len() as int + 1, 0, 0);
    } else {
        assert(p[i] == a[i]);
        if a[i] == '/' {
            lemma_runs_joined(a, b, i + 1, i + 1);
            assert(run(a, j, i) + (runs(a, i + 1, i + 1) + moved(
                runs(b, 0, 0),
                a.len() as int + 1,
            )) =~= (run(a, j, i) + runs(a, i + 1, i + 1)) + moved(
                runs(b, 0, 0),
                a.len() as int + 1,
            ));
        } else {
            lemma_runs_joined(a, b, j, i + 1);
        }
    }
}

proof fn lemma_runs_from_the_start(b: Seq<char>)
    requires
        !is_rooted(b),
    ensures
        spans(b) == runs(b, 0, 0),
{
    if body_start(b) == 1 {
        reveal_with_fuel(runs, 3);
        assert(run(b, 0, 1) =~= Seq::<(int, int)>::empty());
        if b.len() > 1 {
            assert(run(b, 1, 1) =~= Seq::<(int, int)>::empty());
            assert(run(b, 0, 1) + runs(b, 2, 2) =~= runs(b, 2, 2));
            assert(run(b, 1, 1) + runs(b, 2, 2) =~= runs(b, 2, 2));
        }
    }
}

/// The components of a path that is seen from another one stand behind the components of
/// that one, at the end of the joined text.
proof fn lemma_spans_joined(base: Seq<char>, rel: Seq<char>)
    requires
        !is_rooted(rel),
    ensures
        ({
            let p = join_of(base, rel);
            &&& p.len() >= rel.len()
            &&& p.skip(p.len() - rel.len()) == rel
            &&& spans(p) == spans(base) + moved(spans(rel), p.len() - rel.len())
            &&& base.len() > 0 ==> body_start(p) == body_start(base)
        }),
{
    let p = join_of(base, rel);
    lemma_runs_from_the_start(rel);
    assert(p.skip(p.len() - rel.len()) =~= rel);
    if base.len() == 0 {
        assert(p =~= rel);
        assert(spans(base) =~= Seq::<(int, int)>::empty());
        assert(spans(base) + moved(spans(rel), 0) =~= spans(rel));
    } else if base.last() != '/' {
        assert(p == base + seq!['/'] + rel);
        lemma_runs_joined(base, rel, body_start(base), body_start(base));
    } else {
        let a = base.drop_last();
        assert(p =~= a + seq!['/'] + rel);
        if a.len() == 0 {
            assert(base.len() == 1 && base[0] == '/');
            lemma_runs_moved(p, rel, 1, 0, 0);
            assert(spans(base) =~= Seq::<(int, int)>::empty());
            assert(spans(base) + moved(spans(rel), 1) =~= moved(spans(rel), 1));
        } else {
            let none = Seq::<char>::empty();
            assert(base =~= a + seq!['/'] + none);
            lemma_runs_joined(a, none, body_start(a), body_start(a));
            lemma_runs_joined(a, rel, body_start(a), body_start(a));
            assert(moved(runs(none, 0, 0), a.len() as int + 1) =~= Seq::<(int, int)>::empty());
            assert(runs(a, body_start(a), body_start(a)) + Seq::<(int, int)>::empty() =~= runs(
                a,
                body_start(a),
                body_start(a),
            ));
        }
    }
}

/// A path seen from another one lies where both say: it goes through the components of the
/// base and then through its own, and begins at the root where the base does. A path that
/// itself begins at the root stays what it is.
pub proof fn law_joined_path_goes_through_both(base: Seq<char>, rel: Seq<char>)
    ensures
        is_rooted(rel) ==> join_of(base, rel) == rel,
        !is_rooted(rel) ==> components(join_of(base, rel)) == components(base) + components(rel),
        !is_rooted(rel) ==> is_rooted(join_of(base, rel)) == is_rooted(base),
{
    if !is_rooted(rel) {
        let p = join_of(base, rel);
        let by = p.len() - rel.len();
        lemma_spans_joined(base, rel);
        lemma_spans_bounds(base);
        lemma_spans_bounds(rel);
        lemma_spans_bounds(p);
        let n = spans(base).len() as int;
        assert forall|k: int| 0 <= k < components(p).len() implies components(p)[k] == (components(
            base,
        ) + components(rel))[k] by {
            if k < n {
                assert(spans(p)[k] == spans(base)[k]);
                assert(component(p, k) =~= component(base, k));
            } else {
                assert(spans(p)[k] == moved(spans(rel), by)[k - n]);
                assert(forall|m: int| 0 <= m < rel.len() ==> #[trigger] p.skip(by)[m] == p[by + m]);
                assert(component(p, k) =~= component(rel, k - n));
            }
        }
        assert(components(p) =~= components(base) + components(rel));
    }
}

/// Whether a text can be one component of a path: it is not empty, holds no separator, and
/// is neither the directory itself nor the one above it.
pub open spec fn is_component(name: Seq<char>) -> bool {
    name.len() > 0 && !name.contains('/') && name != seq!['.'] && name != seq!['.', '.']
}

/// Whether a path ends with a component, or has none at all: `/`, `.` and the empty path.
pub open spec fn is_tidy(p: Seq<char>) -> bool {
    ||| p.len() == 0
    ||| p == seq!['/']
    ||| p == seq!['.']
    ||| p.last() != '/' && !(p.last() == '.' && p.len() > 1 && p[p.len() - 2] == '/')
}

proof fn lemma_runs_to_the_end(p: Seq<char>, j: int, i: int)
    requires
        0 <= j <= i <= p.len(),
        p.len() > 0,
        p.last() != '/',
        !(p.last() == '.' && p.len() > 1 && p[p.len() - 2] == '/'),
        j == 0 || p[j - 1] == '/',
        i == p.len() ==> j < i,
        !(j == 0 && p == seq!['.']),
        forall|k: int| j <= k < i ==> p[k] != '/',
    ensures
        runs(p, j, i).len() > 0,
        runs(p, j, i).last().1 == p.len(),
    decreases p.len() - i,
{
    if i < p.len() {
        if p[i] == '/' {
            lemma_runs_to_the_end(p, i + 1, i + 1);
        } else {
            lemma_runs_to_the_end(p, j, i + 1);
        }
    } else {
        if i == j + 1 && p[j] == '.' {
            if j == 0 {
                assert(p =~= seq!['.']);
            }
        }
    }
}

proof fn lemma_tidy_ends_with_component(p: Seq<char>)
    requires
        is_tidy(p),
        spans(p).len() > 0,
    ensures
        spans(p).last().1 == p.len(),
{
    lemma_spans_bounds(p);
    if p == seq!['/'] || p == seq!['.'] {
        assert(spans(p) =~= Seq::<(int, int)>::empty());
    } else {
        if body_start(p) == 1 && p[0] == '.' {
            lemma_runs_from_the_start(p);
            lemma_runs_to_the_end(p, 0, 0);
        } else if body_start(p) == 1 {
            assert(p.len() > 1) by {
                if p.len() == 1 {
                    assert(p =~= seq!['/']);
                }
            }
            lemma_runs_to_the_end(p, 1, 1);
        } else {
            lemma_runs_to_the_end(p, 0, 0);
        }
    }
}

proof fn lemma_spans_of_component(name: Seq<char>)
    requires
        is_component(name),
    ensures
        !is_rooted(name),
        spans(name) == seq![(0int, name.len() as int)],
{
    assert(name.contains(name[0]));
    lemma_runs_from_the_start(name);
    lemma_runs_without_separator(name, 0);
    if name.len() == 1 && name[0] == '.' {
        assert(name =~= seq!['.']);
    }
    assert(spans(name) =~= seq![(0int, name.len() as int)]);
}

proof fn lemma_runs_without_separator(name: Seq<char>, i: int)
    requires
        !name.contains('/'),
        0 <= i <= name.len(),
    ensures
        runs(name, 0, i) == run(name, 0, name.len() as int),
    decreases name.len() - i,
{
    if i < name.len() {
        assert(name.contains(name[i]));
        lemma_runs_without_separator(name, i + 1);
    }
}

/// A name seen from a directory is the file name of the joined path, and the directory is
/// the parent of it.
pub proof fn law_parent_and_file_name_of_a_joined_path(dir: Seq<char>, name: Seq<char>)
    requires
        is_component(name),
        is_tidy(dir),
    ensures
        parent_of(join_of(dir, name)) == Some(dir),
        file_name_of(join_of(dir, name)) == Some(name),
{
    let p = join_of(dir, name);
    let by = p.len() - name.len();
    lemma_spans_of_component(name);
    lemma_spans_joined(dir, name);
    lemma_spans_bounds(dir);
    lemma_spans_bounds(p);
    let n = spans(dir).len() as int;
    assert(spans(p).len() == n + 1);
    assert(spans(p).last() == (by, p.len() as int));
    assert(component(p, n) =~= name);
    if n > 0 {
        lemma_tidy_ends_with_component(dir);
        assert(spans(p)[n - 1] == spans(dir)[n - 1]);
        assert(p.take(dir.len() as int) =~= dir);
    } else {
        if dir.len() == 0 {
            assert(p =~= name);
            assert(body_start(name) == 0) by {
                if name[0] == '.' {
                    assert(name.len() > 1 ==> name.contains(name[1]));
                    if name.len() == 1 {
                        assert(name =~= seq!['.']);
                    }
                }
            }
            assert(p.take(0) =~= dir);
        } else {
            if dir != seq!['/'] && dir != seq!['.'] {
                lemma_no_components(dir);
            }
            assert(p.take(1) =~= dir);
        }
    }
}

proof fn lemma_no_components(p: Seq<char>)
    requires
        is_tidy(p),
        p.len() > 0,
        p != seq!['/'],
        p != seq!['.'],
    ensures
        spans(p).len() > 0,
{
    if body_start(p) == 1 && p[0] == '/' {
        assert(p.len() > 1) by {
            if p.len() == 1 {
                assert(p =~= seq!['/']);
            }
        }
        lemma_runs_to_the_end(p, 1, 1);
    } else {
        lemma_runs_from_the_start(p);
        lemma_runs_to_the_end(p, 0, 0);
    }
}

/// What is seen from a directory is what is left of the joined path below that directory.
pub proof fn law_joined_path_is_below_its_base(base: Seq<char>, rel: Seq<char>)
    requires
        !is_rooted(rel),
        is_tidy(rel),
        rel.len() > 0,
        body_start(rel) == 0,
    ensures
        is_under(join_of(base, rel), base),
        relative_to(join_of(base, rel), base) == Some(rel),
{
    let p = join_of(base, rel);
    let by = p.len() - rel.len();
    law_joined_path_goes_through_both(base, rel);
    lemma_spans_joined(base, rel);
    lemma_no_components(rel);
    lemma_tidy_ends_with_component(rel);
    lemma_spans_bounds(rel);
    lemma_spans_bounds(base);
    lemma_spans_bounds(p);
    let k = spans(base).len() as int;
    assert(components(p).take(k) =~= components(base));
    lemma_first_run(rel, 0);
    assert(spans(p)[k] == moved(spans(rel), by)[0]);
    assert(spans(p).last() == moved(spans(rel), by).last());
    if base.len() > 0 {
        assert(p.take(body_start(p)) =~= base.take(body_start(base)));
    }
    assert(p.subrange(by, p.len() as int) =~= rel);
    if k == 0 && body_start(base) == 0 {
        if base.len() > 0 {
            lemma_first_run(base, 0);
        }
        assert(p.take(p.len() as int) =~= rel);
    }
}

proof fn lemma_first_run(p: Seq<char>, i: int)
    requires
        0 <= i <= p.len(),
        p.len() > 0,
        body_start(p) == 0,
        forall|k: int| 0 <= k < i ==> p[k] != '/',
        i == 0 ==> p[0] != '/',
    ensures
        runs(p, 0, i).len() > 0,
        runs(p, 0, i)[0].0 == 0,
    decreases p.len() - i,
{
    if i < p.len() && p[i] != '/' {
        lemma_first_run(p, i + 1);
    }
}

proof fn lemma_last_dot(name: Seq<char>, n: int, i: int)
    requires
        0 < n <= i - 1,
        i <= name.len(),
        name[n] == '.',
        forall|k: int| n < k < name.len() ==> name[k] != '.',
    ensures
        stem_len_from(name, i) == n,
    decreases i,
{
    if i - 1 > n {
        lemma_last_dot(name, n, i - 1);
    }
}

/// A stem, a dot and an extension make one component.
pub proof fn lemma_named(stem: Seq<char>, ext: Seq<char>)
    requires
        is_component(stem),
        !ext.contains('/'),
    ensures
        is_component(stem + seq!['.'] + ext),
        (stem + seq!['.'] + ext)[0] == stem[0],
        stem[0] != '/',
{
    let name = stem + seq!['.'] + ext;
    assert forall|k: int| 0 <= k < name.len() implies name[k] != '/' by {
        if k < stem.len() {
            assert(stem.contains(stem[k]));
        } else if k > stem.len() {
            assert(ext.contains(ext[k - stem.len() - 1]));
        }
    }
    assert(stem.contains(stem[0]));
    assert(name.len() >= 2);
    if name == seq!['.', '.'] {
        assert(name[0] == '.');
        assert(stem =~= seq!['.']);
    }
}

proof fn lemma_named_stem(stem: Seq<char>, ext: Seq<char>)
    requires
        stem.len() > 0,
        !ext.contains('.'),
    ensures
        stem_len(stem + seq!['.'] + ext) == stem.len(),
{
    let name = stem + seq!['.'] + ext;
    assert forall|k: int| stem.len() < k < name.len() implies name[k] != '.' by {
        assert(ext.contains(ext[k - stem.len() - 1]));
    }
    lemma_last_dot(name, stem.len() as int, name.len() as int);
}

/// A file that is named by a stem, a dot and an extension without a dot has that stem and
/// that extension, and with another extension it stands beside itself under the same stem.
pub proof fn law_stem_and_extension(
    dir: Seq<char>,
    stem: Seq<char>,
    ext: Seq<char>,
    other: Seq<char>,
)
    requires
        is_component(stem),
        !ext.contains('/'),
        !ext.contains('.'),
        is_tidy(dir),
    ensures
        file_stem_of(join_of(dir, stem + seq!['.'] + ext)) == Some(stem),
        extension_of(join_of(dir, stem + seq!['.'] + ext)) == Some(ext),
        with_extension_of(join_of(dir, stem + seq!['.'] + ext), other) == join_of(
            dir,
            stem + seq!['.'] + other,
        ),
{
    let name = stem + seq!['.'] + ext;
    lemma_named(stem, ext);
    lemma_named_stem(stem, ext);
    law_parent_and_file_name_of_a_joined_path(dir, name);
    assert(name.take(stem.len() as int) =~= stem);
    assert(name.skip(stem.len() as int + 1) =~= ext);
    lemma_with_extension(dir, stem, ext, other);
}

proof fn lemma_with_extension(
    dir: Seq<char>,
    stem: Seq<char>,
    ext: Seq<char>,
    other: Seq<char>,
)
    requires
        is_component(stem),
        is_component(stem + seq!['.'] + ext),
        stem_len(stem + seq!['.'] + ext) == stem.len(),
        file_name_of(join_of(dir, stem + seq!['.'] + ext)) == Some(stem + seq!['.'] + ext),
    ensures
        with_extension_of(join_of(dir, stem + seq!['.'] + ext), other) == join_of(
            dir,
            stem + seq!['.'] + other,
        ),
{
    let name = stem + seq!['.'] + ext;
    let p = join_of(dir, name);
    lemma_spans_of_component(name);
    lemma_spans_joined(dir, name);
    let by = p.len() - name.len();
    assert(spans(p).last() == moved(spans(name), by).last());
    assert(stem.contains(stem[0]));
    let new = stem + seq!['.'] + other;
    assert(new[0] == stem[0]);
    assert(p.take(by + stem.len()) =~= p.take(by) + stem);
    assert(p.take(by + stem.len()) + seq!['.'] + other =~= p.take(by) + new);
    assert(join_of(dir, new) =~= p.take(by) + new);
}

/// Two different paths seen from one directory stay two.
pub proof fn law_joined_paths_are_apart(base: Seq<char>, a: Seq<char>, b: Seq<char>)
    requires
        !is_rooted(a),
        !is_rooted(b),
        a != b,
    ensures
        join_of(base, a) != join_of(base, b),
{
    let p = join_of(base, a);
    let q = join_of(base, b);
    let by: int = if base.len() > 0 && base.last() != '/' {
        base.len() as int + 1
    } else {
        base.len() as int
    };
    assert(p.skip(by) =~= a);
    assert(q.skip(by) =~= b);
}
/// A path with one more component ends with that component.
pub proof fn lemma_joined_is_tidy(dir: Seq<char>, name: Seq<char>)
    requires
        is_component(name),
    ensures
        is_tidy(join_of(dir, name)),
{
    let p = join_of(dir, name);
    assert(name.contains(name[0]) && name.contains(name.last()));
    assert(p.last() == name.last());
    if name.last() == '.' && p.len() > 1 && p[p.len() - 2] == '/' {
        if name.len() > 1 {
            assert(p[p.len() - 2] == name[name.len() - 2]);
            assert(name.contains(name[name.len() - 2]));
        } else {
            assert(name =~= seq!['.']);
        }
    }
}
/// Two paths sort alike exactly where they go through the same components from the same
/// start: the root, the current directory or nothing.
pub proof fn law_paths_that_sort_alike(a: Seq<char>, b: Seq<char>)
    ensures
        sort_texts(a) == sort_texts(b) <==> components(a) == components(b) && is_rooted(a)
            == is_rooted(b) && (body_start(a) == 0 <==> body_start(b) == 0),
{
    let (x, y) = (sort_texts(a), sort_texts(b));
    let (n, m) = (lead_rank(a).len() as int, lead_rank(b).len() as int);
    if x == y {
        lemma_lead_alike(a, b);
        assert(components(a).len() == components(b).len());
        assert forall|k: int| 0 <= k < components(a).len() implies components(a)[k] == components(
            b,
        )[k] by {
            assert(x[n + k] == component_rank(component(a, k)));
            assert(y[m + k] == component_rank(component(b, k)));
            lemma_component_rank(component(a, k), component(b, k));
        }
        assert(components(a) =~= components(b));
    }
    if components(a) == components(b) && is_rooted(a) == is_rooted(b) && (body_start(a) == 0
        <==> body_start(b) == 0) {
        assert forall|k: int| 0 <= k < components(a).len() implies component(a, k) == component(
            b,
            k,
        ) by {
            assert(components(a)[k] == components(b)[k]);
        }
        assert(lead_rank(a) =~= lead_rank(b));
        assert(x =~= y);
    }
}

proof fn lemma_component_rank(c: Seq<char>, d: Seq<char>)
    requires
        component_rank(c) == component_rank(d),
    ensures
        c == d,
{
    let (x, y) = (component_rank(c), component_rank(d));
    assert(x[0] == y[0]);
    if c != seq!['.', '.'] && d != seq!['.', '.'] {
        assert(x.skip(1) =~= c);
        assert(y.skip(1) =~= d);
    }
}

proof fn lemma_lead_alike(a: Seq<char>, b: Seq<char>)
    requires
        sort_texts(a) == sort_texts(b),
    ensures
        lead_rank(a) == lead_rank(b),
        is_rooted(a) == is_rooted(b),
        body_start(a) == 0 <==> body_start(b) == 0,
{
    let (x, y) = (sort_texts(a), sort_texts(b));
    if lead_rank(a).len() > 0 || lead_rank(b).len() > 0 {
        assert(x.len() > 0 && y.len() > 0);
        assert(x[0][0] == y[0][0]);
        if lead_rank(a).len() == 0 {
            assert(x[0] == component_rank(component(a, 0)));
            assert(y[0] == lead_rank(b)[0]);
        } else if lead_rank(b).len() == 0 {
            assert(y[0] == component_rank(component(b, 0)));
            assert(x[0] == lead_rank(a)[0]);
        } else {
            assert(x[0] == lead_rank(a)[0]);
            assert(y[0] == lead_rank(b)[0]);
            assert(lead_rank(a) =~= lead_rank(b));
        }
    }
}

proof fn lemma_list_order(a: Seq<Seq<char>>, b: Seq<Seq<char>>, k: int)
    requires
        0 <= k <= a.len(),
        k < b.len(),
        a.take(k) == b.take(k),
        k < a.len() ==> a[k] != b[k],
    ensures
        k == a.len() ==> list_lt(a, b),
        k < a.len() ==> (list_lt(a, b) <==> text::text_lt(a[k], b[k])),
    decreases k,
{
    if k > 0 {
        assert(a[0] == a.take(k)[0] && b[0] == b.take(k)[0]);
        assert(a.drop_first().take(k - 1) =~= a.take(k).drop_first());
        assert(b.drop_first().take(k - 1) =~= b.take(k).drop_first());
        lemma_list_order(a.drop_first(), b.drop_first(), k - 1);
    }
}

/// Paths sort by the first component in which they differ, and a path before what lies
/// below it.
pub proof fn law_order_of_paths(a: Seq<char>, b: Seq<char>, k: int)
    requires
        body_start(a) == 0,
        body_start(b) == 0,
        0 <= k <= components(a).len(),
        k < components(b).len(),
        components(a).take(k) == components(b).take(k),
        k < components(a).len() ==> components(a)[k] != components(b)[k],
    ensures
        k == components(a).len() ==> path_lt(a, b),
        k < components(a).len() && components(a)[k] == seq!['.', '.'] ==> path_lt(a, b),
        k < components(a).len() && components(b)[k] == seq!['.', '.'] ==> !path_lt(a, b),
        k < components(a).len() && components(a)[k] != seq!['.', '.'] && components(b)[k] != seq![
            '.',
            '.',
        ] ==> (path_lt(a, b) <==> text::text_lt(components(a)[k], components(b)[k])),
{
    let (x, y) = (sort_texts(a), sort_texts(b));
    assert forall|i: int| 0 <= i < k implies x[i] == y[i] by {
        assert(components(a).take(k)[i] == components(b).take(k)[i]);
        assert(components(a)[i] == component(a, i) && components(b)[i] == component(b, i));
    }
    assert(x.take(k) =~= y.take(k));
    if k < components(a).len() {
        let (c, d) = (components(a)[k], components(b)[k]);
        assert(c == component(a, k) && d == component(b, k));
        assert(x[k] == component_rank(c) && y[k] == component_rank(d));
        if x[k] == y[k] {
            lemma_component_rank(c, d);
        }
        if c != seq!['.', '.'] && d != seq!['.', '.'] {
            assert(component_rank(c).drop_first() =~= c);
            assert(component_rank(d).drop_first() =~= d);
        }
    }
    lemma_list_order(x, y, k);
}
} // verus!
