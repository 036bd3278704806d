//! What holds of the operations on text and on paths.
use vstd::prelude::*;
use vstd::string::*;

use crate::paths::{absolute, file_name, lemma_parts_concat, lemma_parts_single, named_parts};
use crate::paths::{path_join, same_path, starts_here, tells, written};
use crate::text::{ascii_lower, before_mark, decimal, joined, lemma_before_mark};
use crate::text::{lemma_before_mark_unique, same_ignoring_ascii_case, split_at_mark, trimmed};
use crate::text::{texts, trimmed_end, trimmed_start, white_space};

verus! {

// ---------------------------------------------------------------- trimming and splitting

/// White space is what Unicode calls so: tab to carriage return, space, next line, no-break space,
/// Ogham space, the spaces from 2000 to 200A, the line and the paragraph separator, the narrow
/// no-break space, the mathematical space and the ideographic space.
pub proof fn law_white_space(c: char)
    ensures
        ({
            let code = c as int;
            white_space(c) <==> (9 <= code <= 13 || code == 0x20 || code == 0x85 || code == 0xa0
                || code == 0x1680 || 0x2000 <= code <= 0x200a || code == 0x2028 || code == 0x2029
                || code == 0x202f || code == 0x205f || code == 0x3000)
        }),
{
}

proof fn lemma_trimmed_start(text: Seq<char>) -> (n: int)
    ensures
        0 <= n <= text.len(),
        trimmed_start(text) == text.skip(n),
        forall|i: int| 0 <= i < n ==> white_space(#[trigger] text[i]),
        n < text.len() ==> !white_space(text[n]),
    decreases text.len(),
{
    if text.len() > 0 && white_space(text[0]) {
        let m = lemma_trimmed_start(text.drop_first());
        assert(text.drop_first().skip(m) =~= text.skip(m + 1));
        assert forall|i: int| 0 <= i < m + 1 implies white_space(#[trigger] text[i]) by {
            if i > 0 {
                assert(text.drop_first()[i - 1] == text[i]);
            }
        }
        m + 1
    } else {
        assert(text.skip(0) =~= text);
        0
    }
}

proof fn lemma_trimmed_end(text: Seq<char>) -> (n: int)
    ensures
        0 <= n <= text.len(),
        trimmed_end(text) == text.take(n),
        forall|i: int| n <= i < text.len() ==> white_space(#[trigger] text[i]),
        n > 0 ==> !white_space(text[n - 1]),
    decreases text.len(),
{
    if text.len() > 0 && white_space(text.last()) {
        let m = lemma_trimmed_end(text.drop_last());
        assert(text.drop_last().take(m) =~= text.take(m));
        assert forall|i: int| m <= i < text.len() implies white_space(#[trigger] text[i]) by {
            if i < text.len() - 1 {
                assert(text.drop_last()[i] == text[i]);
            }
        }
        m
    } else {
        assert(text.take(text.len() as int) =~= text);
        text.len() as int
    }
}

/// Trimming cuts off white space at both ends and nothing else: what is left has none at its ends.
pub proof fn law_trim(text: Seq<char>) -> (cut: (int, int))
    ensures
        0 <= cut.0 <= cut.1 <= text.len(),
        trimmed(text) == text.subrange(cut.0, cut.1),
        forall|i: int|
            0 <= i < cut.0 || cut.1 <= i < text.len() ==> white_space(#[trigger] text[i]),
        trimmed(text).len() > 0 ==> !white_space(trimmed(text)[0]) && !white_space(
            trimmed(text).last(),
        ),
{
    let from = lemma_trimmed_start(text);
    let rest = text.skip(from);
    let n = lemma_trimmed_end(rest);
    assert(rest.take(n) =~= text.subrange(from, from + n));
    assert forall|i: int| from + n <= i < text.len() implies white_space(#[trigger] text[i]) by {
        assert(rest[i - from] == text[i]);
    }
    if n > 0 {
        assert(rest[0] == text[from]);
    }
    (from, from + n)
}

/// A text is divided at its first mark, and only if it has one: the two parts with the mark between
/// them are the text.
pub proof fn law_split<T>(text: Seq<T>, mark: T)
    ensures
        match split_at_mark(text, mark) {
            Some((before, after)) => text == before.push(mark) + after && !before.contains(mark),
            None => !text.contains(mark),
        },
        !text.contains(mark) ==> before_mark(text, mark) == text,
        forall|rest: Seq<T>| !text.contains(mark) ==> #[trigger]
            before_mark(text.push(mark) + rest, mark) == text,
{
    lemma_before_mark(text, mark);
    let n = before_mark(text, mark).len() as int;
    if text.contains(mark) {
        assert(text =~= text.take(n).push(mark) + text.skip(n + 1));
    } else {
        if n < text.len() {
            assert(text[n] == mark);
        }
        assert(text.take(n) =~= text);
        assert forall|rest: Seq<T>| #[trigger]
            before_mark(text.push(mark) + rest, mark) == text by {
            let long = text.push(mark) + rest;
            assert forall|i: int| 0 <= i < text.len() implies long[i] != mark by {
                assert(text.contains(text[i]));
            }
            lemma_before_mark_unique(long, mark, text.len() as int);
            assert(long.take(text.len() as int) =~= text);
        }
    }
}

/// A list that is joined starts with its first part, and goes on, after a separator, with the rest
/// of the list joined.
pub proof fn law_join(first: Seq<char>, rest: Seq<Seq<char>>, separator: Seq<char>)
    ensures
        joined(Seq::<Seq<char>>::empty(), separator) == Seq::<char>::empty(),
        rest.len() == 0 ==> joined(seq![first] + rest, separator) == first,
        rest.len() > 0 ==> joined(seq![first] + rest, separator) == first + separator + joined(
            rest,
            separator,
        ),
    decreases rest.len(),
{
    let all = seq![first] + rest;
    if rest.len() > 0 {
        let fewer = rest.drop_last();
        law_join(first, fewer, separator);
        assert(all.drop_last() =~= seq![first] + fewer);
        assert(all.last() == rest.last());
        if fewer.len() == 0 {
            assert(rest[0] == rest.last());
            assert(joined(all, separator) =~= first + separator + rest[0]);
        } else {
            assert(joined(all, separator) =~= first + separator + joined(rest, separator));
        }
    } else {
        assert(all[0] == first);
    }
}

/// The texts of a list are those of its strings, in their order.
pub proof fn law_texts(parts: Seq<String>, i: int)
    requires
        0 <= i < parts.len(),
    ensures
        texts(parts).len() == parts.len(),
        texts(parts)[i] == parts[i]@,
{
}

// ---------------------------------------------------------------- numbers and letters

/// The number that decimal digits stand for.
pub open spec fn number(digits: Seq<char>) -> int
    decreases digits.len(),
{
    if digits.len() == 0 {
        0
    } else {
        number(digits.drop_last()) * 10 + (digits.last() as int - '0' as int)
    }
}

/// A number is written with decimal digits that read as that number, and without a zero in front.
pub proof fn law_decimal(n: nat)
    ensures
        number(decimal(n)) == n,
        decimal(n).len() > 0,
        forall|i: int| 0 <= i < decimal(n).len() ==> '0' <= #[trigger] decimal(n)[i] <= '9',
        decimal(n).len() > 1 ==> decimal(n)[0] != '0',
        n > 0 ==> decimal(n)[0] != '0',
    decreases n,
{
    let digits = decimal(n);
    reveal_with_fuel(number, 2);
    if n < 10 {
        assert(digits.drop_last() =~= Seq::<char>::empty());
    } else {
        law_decimal(n / 10);
        assert(digits.drop_last() =~= decimal(n / 10));
        assert(digits[0] == decimal(n / 10)[0]);
        assert forall|i: int| 0 <= i < digits.len() implies '0' <= #[trigger] digits[i] <= '9' by {
            if i < digits.len() - 1 {
                assert(digits[i] == decimal(n / 10)[i]);
            }
        }
    }
}

/// Two numbers are never written alike.
pub proof fn law_numbers_are_told_apart(a: nat, b: nat)
    requires
        decimal(a) == decimal(b),
    ensures
        a == b,
{
    law_decimal(a);
    law_decimal(b);
}

/// Two texts are the same but for capitals if they are equally long and differ at most between a
/// capital of the ASCII alphabet and its small letter, which stands 32 places behind it.
pub proof fn law_capitals(a: Seq<char>, b: Seq<char>)
    ensures
        same_ignoring_ascii_case(a, b) <==> a.len() == b.len() && forall|i: int|
            0 <= i < a.len() ==> {
                ||| #[trigger] a[i] == b[i]
                ||| 'A' <= a[i] <= 'Z' && b[i] as int == a[i] as int + 32
                ||| 'A' <= b[i] <= 'Z' && a[i] as int == b[i] as int + 32
            },
{
    let la = a.map_values(|c: char| ascii_lower(c));
    let lb = b.map_values(|c: char| ascii_lower(c));
    if la == lb {
        assert(la.len() == lb.len());
        assert forall|i: int| 0 <= i < a.len() implies {
            ||| #[trigger] a[i] == b[i]
            ||| 'A' <= a[i] <= 'Z' && b[i] as int == a[i] as int + 32
            ||| 'A' <= b[i] <= 'Z' && a[i] as int == b[i] as int + 32
        } by {
            assert(la[i] == lb[i]);
        }
    }
    if a.len() == b.len() && forall|i: int|
        0 <= i < a.len() ==> {
            ||| #[trigger] a[i] == b[i]
            ||| 'A' <= a[i] <= 'Z' && b[i] as int == a[i] as int + 32
            ||| 'A' <= b[i] <= 'Z' && a[i] as int == b[i] as int + 32
        } {
        assert forall|i: int| 0 <= i < la.len() implies la[i] == lb[i] by {
            assert(a[i] == a[i]);
        }
        assert(la =~= lb);
    }
}

// ---------------------------------------------------------------- paths

/// Texts that differ are different paths.
pub proof fn law_written_is_one_to_one(a: Seq<char>, b: Seq<char>)
    requires
        written(a) == written(b),
    ensures
        a == b,
{
    vstd::utf8::encode_utf8_decode_utf8(a);
    vstd::utf8::encode_utf8_decode_utf8(b);
}

proof fn lemma_parts_slash(path: Seq<u8>)
    ensures
        named_parts(path.push(47u8)) == named_parts(path),
        path.len() > 0 ==> before_mark(path.push(47u8), 47u8) == before_mark(path, 47u8),
    decreases path.len(),
{
    let more = path.push(47u8);
    lemma_before_mark(path, 47u8);
    let n = before_mark(path, 47u8).len() as int;
    assert forall|i: int| 0 <= i < n implies path[i] != 47u8 by {
        assert(before_mark(path, 47u8)[i] == path[i]);
        assert(before_mark(path, 47u8).contains(path[i]));
    }
    if path.contains(47u8) {
        assert(more[n] == 47u8);
        assert(more.contains(47u8));
        lemma_before_mark_unique(more, 47u8, n);
        assert(more.take(n) =~= path.take(n));
        let rest = path.skip(n + 1);
        assert(more.skip(n + 1) =~= rest.push(47u8));
        lemma_parts_slash(rest);
    } else {
        if n < path.len() {
            assert(path[n] == 47u8);
        }
        lemma_parts_single(path);
        lemma_before_mark_unique(more, 47u8, path.len() as int);
        assert(more.take(path.len() as int) =~= path.take(path.len() as int));
    }
}

/// An entry of a directory has the parts of the directory and then its own, and is absolute as the
/// directory is. An absolute path stays what it is in any directory.
pub proof fn law_join_path(dir: Seq<u8>, name: Seq<u8>)
    ensures
        absolute(name) ==> path_join(dir, name) == name,
        !absolute(name) ==> {
            &&& named_parts(path_join(dir, name)) == named_parts(dir) + named_parts(name)
            &&& absolute(path_join(dir, name)) == absolute(dir)
        },
        dir.len() == 0 ==> path_join(dir, name) == name,
        dir.len() > 0 && !absolute(name) ==> path_join(dir, name) == if dir.last() == 47u8 {
            dir + name
        } else {
            dir + seq![47u8] + name
        },
{
    if !absolute(name) {
        if dir.len() == 0 || dir.last() == 47u8 {
            lemma_parts_concat(dir, name);
            assert(dir.len() == 0 ==> dir + name =~= name);
        } else {
            lemma_parts_slash(dir);
            lemma_parts_concat(dir.push(47u8), name);
            assert(dir.push(47u8) + name =~= dir + seq![47u8] + name);
        }
    } else {
        assert(dir.len() == 0 ==> dir + name =~= name);
    }
}

/// The name of a file in a directory is the name that it was joined to the directory under.
pub proof fn law_file_name(dir: Seq<u8>, name: Seq<u8>)
    requires
        name.len() > 0,
        !name.contains(47u8),
        name != seq![46u8],
        name != seq![46u8, 46u8],
    ensures
        file_name(path_join(dir, name)) == Some(name),
{
    law_join_path(dir, name);
    assert forall|i: int| 0 <= i < name.len() implies name[i] != 47u8 by {
        assert(name.contains(name[i]));
    }
    lemma_parts_single(name);
    let parts = named_parts(path_join(dir, name));
    assert(parts.last() == name);
}

/// A file in a directory is found there again: what its path tells is the directory, but for the
/// way it is written, and the name. A path without a part, and one that ends with `..`, names no
/// file; `.` is in a directory all the same, and `/` is not.
pub proof fn law_dir_and_name(
    dir: Seq<u8>,
    name: Seq<u8>,
    r: Result<(Vec<u8>, Vec<u8>), String>,
    path: Seq<u8>,
    s: Result<(Vec<u8>, Vec<u8>), String>,
)
    requires
        name.len() > 0,
        !name.contains(47u8),
        name != seq![46u8],
        name != seq![46u8, 46u8],
        tells(path_join(dir, name), r),
        tells(path, s),
    ensures
        r matches Ok((d, n)) && same_path(d@, dir) && n@ == name,
        named_parts(path).len() == 0 ==> s is Err,
        named_parts(path).len() > 0 && named_parts(path).last() == seq![46u8, 46u8] ==> (
        s matches Err(message) && message@ == "Config path has no file name"@),
        named_parts(path).len() > 0 && named_parts(path).last() != seq![46u8, 46u8] ==> s is Ok,
        named_parts(path).len() == 0 && starts_here(path) ==> (s matches Err(message) && message@
            == "Config path has no file name"@),
        named_parts(path).len() == 0 && !starts_here(path) ==> (s matches Err(message) && message@
            == "Config path has no parent directory"@),
        path == seq![47u8] ==> (s matches Err(message) && message@
            == "Config path has no parent directory"@),
{
    law_file_name(dir, name);
    law_join_path(dir, name);
    let whole = path_join(dir, name);
    assert forall|i: int| 0 <= i < name.len() implies name[i] != 47u8 by {
        assert(name.contains(name[i]));
    }
    lemma_parts_single(name);
    assert(named_parts(whole).drop_last() =~= named_parts(dir));
    if dir.len() == 0 {
        lemma_before_mark_unique(name, 47u8, name.len() as int);
        assert(name.take(name.len() as int) =~= name);
    } else if dir.last() == 47u8 {
        lemma_parts_concat(dir, name);
    } else {
        lemma_parts_slash(dir);
        lemma_parts_concat(dir.push(47u8), name);
    }
    if path == seq![47u8] {
        assert(before_mark(path, 47u8).len() == 0);
        assert(path =~= Seq::<u8>::empty().push(47u8));
        lemma_parts_slash(Seq::<u8>::empty());
        lemma_parts_single(Seq::<u8>::empty());
    }
}

/// A path is made of the parts between its slashes, without those that are empty or a dot.
pub proof fn law_parts(part: Seq<u8>, a: Seq<u8>, b: Seq<u8>)
    requires
        !part.contains(47u8),
    ensures
        named_parts(part) == if part.len() == 0 || part == seq![46u8] {
            Seq::<Seq<u8>>::empty()
        } else {
            seq![part]
        },
        named_parts(a.push(47u8) + b) == named_parts(a) + named_parts(b),
        absolute(a) <==> a.len() > 0 && a[0] == 47u8,
{
    assert forall|i: int| 0 <= i < part.len() implies part[i] != 47u8 by {
        assert(part.contains(part[i]));
    }
    lemma_parts_single(part);
    lemma_parts_slash(a);
    lemma_parts_concat(a.push(47u8), b);
}

/// A dot in front is kept apart: `./a` is another path than `a`.
pub proof fn law_starts_here(path: Seq<u8>)
    ensures
        starts_here(path) <==> path.len() > 0 && path[0] == 46u8 && (path.len() == 1 || path[1]
            == 47u8),
        !absolute(path) && !starts_here(path) ==> !same_path(seq![46u8, 47u8] + path, path),
{
    lemma_before_mark(path, 47u8);
    let first = before_mark(path, 47u8);
    if path.len() > 0 && path[0] == 46u8 && (path.len() == 1 || path[1] == 47u8) {
        lemma_before_mark_unique(path, 47u8, 1);
        assert(path.take(1) =~= seq![46u8]);
    }
    if starts_here(path) {
        assert(first.len() == 1);
        assert(first[0] == path[0]);
        if path.len() > 1 {
            assert(path[1] == 47u8);
        }
    }
    let here = seq![46u8, 47u8] + path;
    lemma_before_mark_unique(here, 47u8, 1);
    assert(here.take(1) =~= seq![46u8]);
}

/// Paths are compared by their parts: a slash at the end makes no difference, another part does,
/// and the comparison is an equivalence.
pub proof fn law_same_path(a: Seq<u8>, b: Seq<u8>, c: Seq<u8>)
    ensures
        same_path(a, a),
        same_path(a, b) ==> same_path(b, a),
        same_path(a, b) && same_path(b, c) ==> same_path(a, c),
        a.len() > 0 ==> same_path(a, a.push(47u8)),
        same_path(a, b) ==> file_name(a) == file_name(b),
        same_path(a, b) ==> absolute(a) == absolute(b) && named_parts(a) == named_parts(b),
{
    lemma_parts_slash(a);
}

} // verus!
