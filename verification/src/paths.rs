//! Paths of files, as Unix has them: bytes, with slashes between the parts.
use vstd::prelude::*;
use vstd::string::*;

use crate::text::{before_mark, lemma_before_mark, lemma_before_mark_unique, split_at_mark};

verus! {

/// The byte between the parts of a path.
pub const SLASH: u8 = 47;

/// The byte of a part that stands for the directory itself, and twice for the one above it.
pub const DOT: u8 = 46;

/// The path that is written as `text`.
pub open spec fn written(text: Seq<char>) -> Seq<u8> {
    vstd::utf8::encode_utf8(text)
}

/// The path that is written as `text`.
pub fn path_from(text: &str) -> (r: Vec<u8>)
    ensures
        r@ == written(text@),
{
    text.as_bytes_vec()
}

/// What a path that may be absent holds.
pub open spec fn opt_bytes(path: Option<Vec<u8>>) -> Option<Seq<u8>> {
    match path {
        Some(p) => Some(p@),
        None => None,
    }
}

/// `name` as an entry of the directory `dir`, or `name` itself where it starts at the root.
pub open spec fn path_join(dir: Seq<u8>, name: Seq<u8>) -> Seq<u8> {
    if absolute(name) {
        name
    } else if dir.len() == 0 || dir.last() == SLASH {
        dir + name
    } else {
        dir.push(SLASH) + name
    }
}

fn copy_range(bytes: &Vec<u8>, from: usize, to: usize) -> (r: Vec<u8>)
    requires
        from <= to <= bytes@.len(),
    ensures
        r@ == bytes@.subrange(from as int, to as int),
{
    let mut out: Vec<u8> = Vec::new();
    let mut i: usize = from;
    while i < to
        invariant
            from <= i <= to <= bytes@.len(),
            out@ == bytes@.subrange(from as int, i as int),
        decreases to - i,
    {
        out.push(bytes[i]);
        assert(out@ =~= bytes@.subrange(from as int, i + 1));
        i += 1;
    }
    out
}

/// A second `Vec` of the same bytes.
pub fn copy_bytes(bytes: &Vec<u8>) -> (r: Vec<u8>)
    ensures
        r@ == bytes@,
{
    let r: Vec<u8> = copy_range(bytes, 0, bytes.len());
    assert(r@ =~= bytes@);
    r
}

/// Whether `a` and `b` hold the same bytes.
pub fn same_bytes(a: &Vec<u8>, b: &Vec<u8>) -> (r: bool)
    ensures
        r == (a@ == b@),
{
    if a.len() != b.len() {
        return false;
    }
    let mut i: usize = 0;
    while i < a.len()
        invariant
            i <= a@.len(),
            a@.len() == b@.len(),
            forall|j: int| 0 <= j < i ==> a@[j] == b@[j],
        decreases a@.len() - i,
    {
        if a[i] != b[i] {
            return false;
        }
        i += 1;
    }
    assert(a@ =~= b@);
    true
}

/// Joins `name` to the directory `dir`.
pub fn join_path(dir: &Vec<u8>, name: &Vec<u8>) -> (r: Vec<u8>)
    ensures
        r@ == path_join(dir@, name@),
{
    if name.len() > 0 && name[0] == SLASH {
        return copy_bytes(name);
    }
    let mut out: Vec<u8> = copy_bytes(dir);
    if out.len() > 0 && out[out.len() - 1] != SLASH {
        out.push(SLASH);
    }
    let mut more: Vec<u8> = copy_bytes(name);
    out.append(&mut more);
    out
}

// ---------------------------------------------------------------- parts

/// Whether a part between slashes names something: it is not empty, nor a single dot.
pub open spec fn names_something(part: Seq<u8>) -> bool {
    part.len() > 0 && part != seq![DOT]
}

/// The parts of `path` that name something.
pub open spec fn named_parts(path: Seq<u8>) -> Seq<Seq<u8>>
    decreases path.len(),
{
    let first = before_mark(path, SLASH);
    let own = if names_something(first) {
        seq![first]
    } else {
        Seq::empty()
    };
    match split_at_mark(path, SLASH) {
        Some((_, rest)) => {
            proof {
                lemma_before_mark(path, SLASH);
            }
            own + named_parts(rest)
        },
        None => own,
    }
}

/// Whether `path` starts at the root.
pub open spec fn absolute(path: Seq<u8>) -> bool {
    path.len() > 0 && path[0] == SLASH
}

/// Whether `path` starts with a part that is a single dot.
pub open spec fn starts_here(path: Seq<u8>) -> bool {
    before_mark(path, SLASH) == seq![DOT]
}

/// Whether two paths have the same parts. Doubled and trailing slashes do not count, nor do parts
/// that are a single dot, unless the path starts with one.
pub open spec fn same_path(a: Seq<u8>, b: Seq<u8>) -> bool {
    &&& absolute(a) == absolute(b)
    &&& starts_here(a) == starts_here(b)
    &&& named_parts(a) == named_parts(b)
}

/// The parts of a path that ends with a slash are followed by the parts of what comes behind it.
pub(crate) proof fn lemma_parts_concat(a: Seq<u8>, b: Seq<u8>)
    requires
        a.len() == 0 || a.last() == SLASH,
    ensures
        named_parts(a + b) == named_parts(a) + named_parts(b),
        a.len() > 0 ==> before_mark(a + b, SLASH) == before_mark(a, SLASH),
    decreases a.len(),
{
    if a.len() == 0 {
        assert(a + b =~= b);
        assert(named_parts(a) =~= Seq::<Seq<u8>>::empty());
        assert(named_parts(a) + named_parts(b) =~= named_parts(b));
    } else {
        lemma_before_mark(a, SLASH);
        assert(a.contains(SLASH)) by {
            assert(a[a.len() - 1] == SLASH);
        }
        let n = before_mark(a, SLASH).len() as int;
        let both = a + b;
        assert(both[n] == SLASH);
        assert(both.contains(SLASH));
        assert forall|i: int| 0 <= i < n implies both[i] != SLASH by {
            assert(before_mark(a, SLASH)[i] == a[i]);
            assert(before_mark(a, SLASH).contains(a[i]));
        }
        lemma_before_mark_unique(both, SLASH, n);
        assert(both.take(n) =~= a.take(n));
        let rest = a.skip(n + 1);
        assert(both.skip(n + 1) =~= rest + b);
        if rest.len() > 0 {
            assert(rest.last() == a.last());
        }
        lemma_parts_concat(rest, b);
        assert(named_parts(both) =~= named_parts(a) + named_parts(b));
    }
}

/// The parts of a single part, with or without a slash behind it.
pub(crate) proof fn lemma_parts_single(part: Seq<u8>)
    requires
        forall|i: int| 0 <= i < part.len() ==> part[i] != SLASH,
    ensures
        named_parts(part) == (if names_something(part) {
            seq![part]
        } else {
            Seq::empty()
        }),
        named_parts(part.push(SLASH)) == named_parts(part),
{
    let n = part.len() as int;
    lemma_before_mark_unique(part, SLASH, n);
    assert(part.take(n) =~= part);
    assert(!part.contains(SLASH));
    let more = part.push(SLASH);
    lemma_before_mark_unique(more, SLASH, n);
    assert(more.take(n) =~= part);
    assert(more[n] == SLASH);
    assert(more.contains(SLASH));
    assert(more.skip(n + 1) =~= Seq::<u8>::empty());
    let none = Seq::<u8>::empty();
    assert(named_parts(none) =~= Seq::<Seq<u8>>::empty());
    assert(named_parts(more) =~= named_parts(part));
}

/// What a list of parts holds.
pub open spec fn parts_view(parts: Seq<Vec<u8>>) -> Seq<Seq<u8>> {
    parts.map_values(|p: Vec<u8>| p@)
}

fn parts_of(path: &Vec<u8>) -> (r: Vec<Vec<u8>>)
    ensures
        parts_view(r@) == named_parts(path@),
{
    let mut out: Vec<Vec<u8>> = Vec::new();
    let mut from: usize = 0;
    proof {
        assert(path@.take(0) =~= Seq::empty());
        assert(parts_view(out@) =~= named_parts(path@.take(0)));
    }
    loop
        invariant_except_break
            from <= path@.len(),
            from > 0 ==> path@[from - 1] == SLASH,
            parts_view(out@) == named_parts(path@.take(from as int)),
        ensures
            parts_view(out@) == named_parts(path@),
        decreases path@.len() - from,
    {
        let to: usize = part_end(path, from);
        let part: Vec<u8> = copy_range(path, from, to);
        let names: bool = part.len() > 0 && !(part.len() == 1 && part[0] == DOT);
        proof {
            if part@.len() == 1 && part@[0] == DOT {
                assert(part@ =~= seq![DOT]);
            }
            assert(names == names_something(part@));
            lemma_step(path@, from as int, to as int);
        }
        let ghost was = out@;
        let ghost text = part@;
        if names {
            out.push(part);
            assert(parts_view(out@) =~= parts_view(was) + seq![text]);
        } else {
            assert(parts_view(was) + Seq::<Seq<u8>>::empty() =~= parts_view(was));
        }
        if to == path.len() {
            break;
        }
        from = to + 1;
    }
    out
}

/// Where the part that starts at `from` ends.
fn part_end(path: &Vec<u8>, from: usize) -> (r: usize)
    requires
        from <= path@.len(),
    ensures
        from <= r <= path@.len(),
        forall|i: int| from <= i < r ==> path@[i] != SLASH,
        r < path@.len() ==> path@[r as int] == SLASH,
{
    let mut to: usize = from;
    while to < path.len() && path[to] != SLASH
        invariant
            from <= to <= path@.len(),
            forall|i: int| from <= i < to ==> path@[i] != SLASH,
        decreases path@.len() - to,
    {
        to += 1;
    }
    to
}

/// What one more part adds.
proof fn lemma_step(path: Seq<u8>, from: int, to: int)
    requires
        0 <= from <= to <= path.len(),
        from > 0 ==> path[from - 1] == SLASH,
        forall|i: int| from <= i < to ==> path[i] != SLASH,
        to < path.len() ==> path[to] == SLASH,
    ensures
        ({
            let part = path.subrange(from, to);
            let own = if names_something(part) {
                seq![part]
            } else {
                Seq::empty()
            };
            &&& to == path.len() ==> named_parts(path) == named_parts(path.take(from)) + own
            &&& to < path.len() ==> named_parts(path.take(to + 1)) == named_parts(path.take(from))
                + own
        }),
{
    let part = path.subrange(from, to);
    let before = path.take(from);
    lemma_parts_single(part);
    if to == path.len() {
        assert(path =~= before + part);
        lemma_parts_concat(before, part);
    } else {
        assert(path.take(to + 1) =~= before + part.push(SLASH));
        lemma_parts_concat(before, part.push(SLASH));
    }
}

fn starts_at_root(path: &Vec<u8>) -> (r: bool)
    ensures
        r == absolute(path@),
{
    path.len() > 0 && path[0] == SLASH
}

fn starts_with_dot(path: &Vec<u8>) -> (r: bool)
    ensures
        r == starts_here(path@),
{
    let to: usize = part_end(path, 0);
    proof {
        lemma_before_mark_unique(path@, SLASH, to as int);
        if to == 1 && path@[0] == DOT {
            assert(path@.take(1) =~= seq![DOT]);
        }
        if path@.take(to as int) == seq![DOT] {
            assert(path@.take(to as int)[0] == DOT);
        }
    }
    to == 1 && path[0] == DOT
}

/// Whether two paths have the same parts.
pub fn paths_equal(a: &Vec<u8>, b: &Vec<u8>) -> (r: bool)
    ensures
        r == same_path(a@, b@),
{
    if starts_at_root(a) != starts_at_root(b) || starts_with_dot(a) != starts_with_dot(b) {
        return false;
    }
    let xs: Vec<Vec<u8>> = parts_of(a);
    let ys: Vec<Vec<u8>> = parts_of(b);
    assert(parts_view(xs@).len() == xs@.len() && parts_view(ys@).len() == ys@.len());
    if xs.len() != ys.len() {
        return false;
    }
    let mut i: usize = 0;
    while i < xs.len()
        invariant
            i <= xs@.len(),
            xs@.len() == ys@.len(),
            parts_view(xs@) == named_parts(a@),
            parts_view(ys@) == named_parts(b@),
            forall|j: int| 0 <= j < i ==> parts_view(xs@)[j] == parts_view(ys@)[j],
        decreases xs@.len() - i,
    {
        if !same_bytes(&xs[i], &ys[i]) {
            assert(parts_view(xs@)[i as int] != parts_view(ys@)[i as int]);
            return false;
        }
        i += 1;
    }
    assert(parts_view(xs@) =~= parts_view(ys@));
    true
}

// ---------------------------------------------------------------- the last part

/// The name of the file at `path`: its last part, unless that stands for the directory above.
pub open spec fn file_name(path: Seq<u8>) -> Option<Seq<u8>> {
    let parts = named_parts(path);
    if parts.len() > 0 && parts.last() != seq![DOT, DOT] {
        Some(parts.last())
    } else {
        None
    }
}

/// Whether `path` is in some directory: it has a part, be it a single dot at the start.
pub open spec fn has_parent(path: Seq<u8>) -> bool {
    named_parts(path).len() > 0 || starts_here(path)
}

/// Whether `dir` is the directory that the last part of `path` is in.
pub open spec fn is_dir_of(dir: Seq<u8>, path: Seq<u8>) -> bool {
    &&& absolute(dir) == absolute(path)
    &&& starts_here(dir) == starts_here(path)
    &&& named_parts(dir) == named_parts(path).drop_last()
}

/// Divides `path` before its last part that names something. `None` where there is no such part.
fn split_last(path: &Vec<u8>) -> (r: Option<(Vec<u8>, Vec<u8>)>)
    ensures
        match r {
            Some((dir, name)) => {
                &&& named_parts(path@).len() > 0
                &&& name@ == named_parts(path@).last()
                &&& is_dir_of(dir@, path@)
            },
            None => named_parts(path@).len() == 0,
        },
{
    let mut last: Option<(usize, usize)> = None;
    let mut from: usize = 0;
    proof {
        assert(path@.take(0) =~= Seq::empty());
        assert(named_parts(path@.take(0)) =~= Seq::<Seq<u8>>::empty());
    }
    loop
        invariant_except_break
            from <= path@.len(),
            from > 0 ==> path@[from - 1] == SLASH,
            last_part(path@, last, named_parts(path@.take(from as int))),
        ensures
            last_part(path@, last, named_parts(path@)),
        decreases path@.len() - from,
    {
        let to: usize = part_end(path, from);
        let names: bool = to > from && !(to - from == 1 && path[from] == DOT);
        proof {
            let part = path@.subrange(from as int, to as int);
            if part.len() == 1 && part[0] == DOT {
                assert(part =~= seq![DOT]);
            }
            assert(names == names_something(part));
            lemma_step(path@, from as int, to as int);
            let before = named_parts(path@.take(from as int));
            assert(before + seq![part] =~= before.push(part));
            assert(before + Seq::<Seq<u8>>::empty() =~= before);
        }
        if names {
            last = Some((from, to));
        }
        if to == path.len() {
            break;
        }
        from = to + 1;
    }
    match last {
        Some((from, to)) => {
            let dir: Vec<u8> = copy_range(path, 0, from);
            let name: Vec<u8> = copy_range(path, from, to);
            proof {
                assert(dir@ =~= path@.take(from as int));
                let tail = path@.skip(from as int);
                assert(path@ =~= dir@ + tail);
                lemma_parts_concat(dir@, tail);
                assert(named_parts(path@).drop_last() =~= named_parts(dir@));
                if from == 0 {
                    assert(dir@ =~= Seq::empty());
                    assert(path@[0] == name@[0]);
                    lemma_before_mark(path@, SLASH);
                    lemma_first_part(path@, to as int);
                }
            }
            Some((dir, name))
        },
        None => None,
    }
}

/// Whether `last` is where the last of `parts` stands in `path`.
spec fn last_part(path: Seq<u8>, last: Option<(usize, usize)>, parts: Seq<Seq<u8>>) -> bool {
    match last {
        Some((from, to)) => {
            &&& from < to <= path.len()
            &&& from > 0 ==> path[from - 1] == SLASH
            &&& forall|i: int| from <= i < to ==> path[i] != SLASH
            &&& to < path.len() ==> path[to as int] == SLASH
            &&& names_something(path.subrange(from as int, to as int))
            &&& parts == named_parts(path.take(from as int)).push(
                path.subrange(from as int, to as int),
            )
        },
        None => parts.len() == 0,
    }
}

proof fn lemma_first_part(path: Seq<u8>, to: int)
    requires
        0 <= to <= path.len(),
        forall|i: int| 0 <= i < to ==> path[i] != SLASH,
        to < path.len() ==> path[to] == SLASH,
    ensures
        before_mark(path, SLASH) == path.subrange(0, to),
{
    lemma_before_mark_unique(path, SLASH, to);
    assert(path.take(to) =~= path.subrange(0, to));
}

/// The name of the file at `path`.
pub fn file_name_of(path: &Vec<u8>) -> (r: Option<Vec<u8>>)
    ensures
        match r {
            Some(name) => file_name(path@) == Some(name@),
            None => file_name(path@) is None,
        },
{
    match split_last(path) {
        Some((_, name)) => {
            proof {
                if name@.len() == 2 && name@[0] == DOT && name@[1] == DOT {
                    assert(name@ =~= seq![DOT, DOT]);
                }
            }
            if name.len() == 2 && name[0] == DOT && name[1] == DOT {
                None
            } else {
                Some(name)
            }
        },
        None => None,
    }
}

/// Whether `r` is what `path` tells of a file: the directory that it is in and its name there, or
/// what is missing.
pub open spec fn tells(path: Seq<u8>, r: Result<(Vec<u8>, Vec<u8>), String>) -> bool {
    match r {
        Ok((dir, name)) => is_dir_of(dir@, path) && file_name(path) == Some(name@),
        Err(message) => file_name(path) is None && message@ == if has_parent(path) {
            "Config path has no file name"@
        } else {
            "Config path has no parent directory"@
        },
    }
}

/// The directory that the file at `path` is in, as far as `path` tells, and the name of the file
/// there. Fails with what is missing: `/` is in no directory, and `..` names no file.
pub fn dir_and_name(path: &Vec<u8>) -> (r: Result<(Vec<u8>, Vec<u8>), String>)
    ensures
        match r {
            Ok((dir, name)) => is_dir_of(dir@, path@) && file_name(path@) == Some(name@),
            Err(message) => file_name(path@) is None && message@ == if has_parent(path@) {
                "Config path has no file name"@
            } else {
                "Config path has no parent directory"@
            },
        },
        tells(path@, r),
{
    match split_last(path) {
        Some((dir, _)) => match file_name_of(path) {
            Some(name) => Ok((dir, name)),
            None => Err("Config path has no file name".to_owned()),
        },
        None => if starts_with_dot(path) {
            Err("Config path has no file name".to_owned())
        } else {
            Err("Config path has no parent directory".to_owned())
        },
    }
}

} // verus!
