//! Operations on text that the rest of the library is written with.
use vstd::prelude::*;
use vstd::string::*;

verus! {

/// `String::push`: the character is appended to the text.
pub assume_specification[ String::push ](text: &mut String, c: char)
    ensures
        final(text)@ == old(text)@.push(c),
;

/// The characters of `text`.
pub fn chars_of(text: &str) -> (r: Vec<char>)
    ensures
        r@ == text@,
{
    let mut out: Vec<char> = Vec::new();
    for c in it: text.chars()
        invariant
            out@ == it.seq().take(it.index() as int),
            it.seq() == text@,
    {
        out.push(c);
    }
    out
}

/// Whether two texts hold the same characters.
pub fn same_text(a: &str, b: &str) -> (r: bool)
    ensures
        r == (a@ == b@),
{
    a.to_owned() == b.to_owned()
}

/// `a` followed by `b`.
pub fn concat2(a: &str, b: &str) -> (r: String)
    ensures
        r@ == a@ + b@,
{
    let mut out: String = a.to_owned();
    out.append(b);
    out
}

/// `a`, `b` and `c`, one after the other.
pub fn concat3(a: &str, b: &str, c: &str) -> (r: String)
    ensures
        r@ == a@ + b@ + c@,
{
    let mut out: String = concat2(a, b);
    out.append(c);
    out
}

/// `a`, `b`, `c` and `d`, one after the other.
pub fn concat4(a: &str, b: &str, c: &str, d: &str) -> (r: String)
    ensures
        r@ == a@ + b@ + c@ + d@,
{
    let mut out: String = concat3(a, b, c);
    out.append(d);
    out
}

// ---------------------------------------------------------------- white space

/// The characters that Unicode calls white space.
pub open spec fn white_space(c: char) -> bool {
    ||| '\u{9}' <= c <= '\u{d}'
    ||| c == ' '
    ||| c == '\u{85}'
    ||| c == '\u{a0}'
    ||| c == '\u{1680}'
    ||| '\u{2000}' <= c <= '\u{200a}'
    ||| c == '\u{2028}'
    ||| c == '\u{2029}'
    ||| c == '\u{202f}'
    ||| c == '\u{205f}'
    ||| c == '\u{3000}'
}

/// Whether `c` is white space.
pub fn is_white_space(c: char) -> (r: bool)
    ensures
        r == white_space(c),
{
    ('\u{9}' <= c && c <= '\u{d}') || c == ' ' || c == '\u{85}' || c == '\u{a0}' || c == '\u{1680}'
        || ('\u{2000}' <= c && c <= '\u{200a}') || c == '\u{2028}' || c == '\u{2029}' || c
        == '\u{202f}' || c == '\u{205f}' || c == '\u{3000}'
}

/// `text` without the white space at its start.
pub open spec fn trimmed_start(text: Seq<char>) -> Seq<char>
    decreases text.len(),
{
    if text.len() > 0 && white_space(text[0]) {
        trimmed_start(text.drop_first())
    } else {
        text
    }
}

/// `text` without the white space at its end.
pub open spec fn trimmed_end(text: Seq<char>) -> Seq<char>
    decreases text.len(),
{
    if text.len() > 0 && white_space(text.last()) {
        trimmed_end(text.drop_last())
    } else {
        text
    }
}

/// `text` without the white space at its start and at its end.
pub open spec fn trimmed(text: Seq<char>) -> Seq<char> {
    trimmed_end(trimmed_start(text))
}

/// `text` without the white space at its start and at its end.
pub fn trim(text: &str) -> (r: &str)
    ensures
        r@ == trimmed(text@),
{
    let chars: Vec<char> = chars_of(text);
    let mut from: usize = 0;
    assert(text@.skip(0) =~= text@);
    while from < chars.len() && is_white_space(chars[from])
        invariant
            chars@ == text@,
            from <= chars@.len(),
            trimmed_start(text@) == trimmed_start(text@.skip(from as int)),
        decreases chars@.len() - from,
    {
        assert(text@.skip(from as int).drop_first() =~= text@.skip(from + 1));
        from += 1;
    }
    let mut to: usize = chars.len();
    assert(text@.subrange(from as int, to as int) =~= text@.skip(from as int));
    while from < to && is_white_space(chars[to - 1])
        invariant
            chars@ == text@,
            from <= to <= chars@.len(),
            trimmed(text@) == trimmed_end(text@.subrange(from as int, to as int)),
        decreases to,
    {
        assert(text@.subrange(from as int, to as int).drop_last() =~= text@.subrange(
            from as int,
            to - 1,
        ));
        to -= 1;
    }
    text.substring_char(from, to)
}

// ---------------------------------------------------------------- splitting

/// What stands in `text` before the first `mark`, or all of it where there is none.
pub open spec fn before_mark<T>(text: Seq<T>, mark: T) -> Seq<T>
    decreases text.len(),
{
    if text.len() == 0 || text[0] == mark {
        Seq::empty()
    } else {
        seq![text[0]] + before_mark(text.drop_first(), mark)
    }
}

/// What `before_mark` is: the prefix that ends where the first `mark` stands.
pub proof fn lemma_before_mark<T>(text: Seq<T>, mark: T)
    ensures
        before_mark(text, mark).len() <= text.len(),
        before_mark(text, mark) == text.take(before_mark(text, mark).len() as int),
        !before_mark(text, mark).contains(mark),
        before_mark(text, mark).len() < text.len() ==> text[before_mark(text, mark).len() as int]
            == mark,
        text.contains(mark) ==> before_mark(text, mark).len() < text.len(),
    decreases text.len(),
{
    let before = before_mark(text, mark);
    if text.len() == 0 || text[0] == mark {
        assert(text.take(0) =~= before);
    } else {
        let rest = text.drop_first();
        lemma_before_mark(rest, mark);
        let tail = before_mark(rest, mark);
        assert(text.take(before.len() as int) =~= before);
        assert forall|i: int| 0 <= i < before.len() implies before[i] != mark by {
            if i > 0 {
                assert(tail.contains(tail[i - 1]));
            }
        }
    }
    if before.len() == text.len() {
        assert(before =~= text);
    }
}

/// A prefix without `mark` that is the whole text, or is followed by `mark`, is `before_mark`.
pub proof fn lemma_before_mark_unique<T>(text: Seq<T>, mark: T, n: int)
    requires
        0 <= n <= text.len(),
        forall|i: int| 0 <= i < n ==> text[i] != mark,
        n < text.len() ==> text[n] == mark,
    ensures
        before_mark(text, mark) == text.take(n),
{
    lemma_before_mark(text, mark);
    let before = before_mark(text, mark);
    if before.len() < n {
        assert(text[before.len() as int] != mark);
    } else if before.len() > n {
        assert(before[n] == mark);
        assert(before.contains(mark));
    }
}

/// The place of the first `mark` in `text`, or its length where there is none.
fn find_mark(text: &str, mark: char) -> (r: (usize, usize))
    ensures
        r.0 <= r.1,
        r.1 == text@.len(),
        before_mark(text@, mark) == text@.take(r.0 as int),
        text@.contains(mark) <==> r.0 < r.1,
        r.0 < r.1 ==> text@[r.0 as int] == mark,
{
    let chars: Vec<char> = chars_of(text);
    let mut n: usize = 0;
    while n < chars.len() && chars[n] != mark
        invariant
            chars@ == text@,
            n <= chars@.len(),
            forall|i: int| 0 <= i < n ==> text@[i] != mark,
        decreases chars@.len() - n,
    {
        n += 1;
    }
    proof {
        lemma_before_mark_unique(text@, mark, n as int);
    }
    (n, chars.len())
}

/// The part of `text` before the first `mark`.
pub fn text_before(text: &str, mark: char) -> (r: &str)
    ensures
        r@ == before_mark(text@, mark),
{
    let (n, _) = find_mark(text, mark);
    text.substring_char(0, n)
}

/// `text` divided at its first `mark`, which is in neither part.
pub open spec fn split_at_mark<T>(text: Seq<T>, mark: T) -> Option<(Seq<T>, Seq<T>)> {
    if text.contains(mark) {
        let before = before_mark(text, mark);
        Some((before, text.skip(before.len() as int + 1)))
    } else {
        None
    }
}

/// Divides `text` at its first `mark`.
pub fn split_once<'a>(text: &'a str, mark: char) -> (r: Option<(&'a str, &'a str)>)
    ensures
        match r {
            Some((before, after)) => split_at_mark(text@, mark) == Some((before@, after@)),
            None => split_at_mark(text@, mark) is None,
        },
{
    let (n, len) = find_mark(text, mark);
    if n < len {
        let before = text.substring_char(0, n);
        let after = text.substring_char(n + 1, len);
        assert(after@ =~= text@.skip(n + 1));
        Some((before, after))
    } else {
        None
    }
}

// ---------------------------------------------------------------- joining

/// `parts` one after the other, with `separator` between each two.
pub open spec fn joined(parts: Seq<Seq<char>>, separator: Seq<char>) -> Seq<char>
    decreases parts.len(),
{
    if parts.len() == 0 {
        Seq::empty()
    } else if parts.len() == 1 {
        parts[0]
    } else {
        joined(parts.drop_last(), separator) + separator + parts.last()
    }
}

/// The texts of `parts`.
pub open spec fn texts(parts: Seq<String>) -> Seq<Seq<char>> {
    parts.map_values(|p: String| p@)
}

/// Joins `parts`, with `separator` between each two.
pub fn join(parts: &Vec<String>, separator: &str) -> (r: String)
    ensures
        r@ == joined(texts(parts@), separator@),
{
    let mut out: String = String::new();
    let mut i: usize = 0;
    assert(texts(parts@).take(0) =~= Seq::empty());
    while i < parts.len()
        invariant
            i <= parts@.len(),
            out@ == joined(texts(parts@).take(i as int), separator@),
        decreases parts@.len() - i,
    {
        proof {
            let next = texts(parts@).take(i + 1);
            assert(next.drop_last() =~= texts(parts@).take(i as int));
            assert(next.last() == parts@[i as int]@);
        }
        if i > 0 {
            out.append(separator);
        }
        out.append(parts[i].as_str());
        assert(out@ =~= joined(texts(parts@).take(i + 1), separator@));
        i += 1;
    }
    assert(texts(parts@).take(i as int) =~= texts(parts@));
    out
}

// ---------------------------------------------------------------- numbers

/// The digit that stands for `d`.
pub open spec fn digit(d: nat) -> char {
    (d + 0x30) as char
}

/// `n` in decimal, without leading zeros.
pub open spec fn decimal(n: nat) -> Seq<char>
    decreases n,
{
    if n < 10 {
        seq![digit(n)]
    } else {
        decimal(n / 10).push(digit(n % 10))
    }
}

fn push_decimal(out: &mut String, n: u64)
    ensures
        final(out)@ == old(out)@ + decimal(n as nat),
    decreases n,
{
    if n >= 10 {
        push_decimal(out, n / 10);
    }
    let d: u8 = (n % 10) as u8;
    let c: char = (d + 0x30u8) as char;
    out.push(c);
    assert(out@ =~= old(out)@ + decimal(n as nat));
}

/// Writes `n` in decimal.
pub fn decimal_text(n: u64) -> (r: String)
    ensures
        r@ == decimal(n as nat),
{
    let mut out: String = String::new();
    push_decimal(&mut out, n);
    assert(out@ =~= decimal(n as nat));
    out
}

// ---------------------------------------------------------------- letters

/// `c`, or the small letter where it is a capital of the ASCII alphabet.
pub open spec fn ascii_lower(c: char) -> char {
    if 'A' <= c <= 'Z' {
        (c as u32 + 0x20) as char
    } else {
        c
    }
}

/// Whether two texts are the same but for capitals of the ASCII alphabet.
pub open spec fn same_ignoring_ascii_case(a: Seq<char>, b: Seq<char>) -> bool {
    a.map_values(|c: char| ascii_lower(c)) == b.map_values(|c: char| ascii_lower(c))
}

fn to_ascii_lower(c: char) -> (r: char)
    ensures
        r == ascii_lower(c),
{
    if 'A' <= c && c <= 'Z' {
        let code: u8 = c as u8;
        (code + 0x20u8) as char
    } else {
        c
    }
}

/// Whether two texts are the same but for capitals of the ASCII alphabet.
pub fn eq_ignore_ascii_case(a: &str, b: &str) -> (r: bool)
    ensures
        r == same_ignoring_ascii_case(a@, b@),
{
    let xs: Vec<char> = chars_of(a);
    let ys: Vec<char> = chars_of(b);
    let ghost la = a@.map_values(|c: char| ascii_lower(c));
    let ghost lb = b@.map_values(|c: char| ascii_lower(c));
    if xs.len() != ys.len() {
        assert(la.len() != lb.len());
        return false;
    }
    let mut i: usize = 0;
    while i < xs.len()
        invariant
            i <= xs@.len(),
            xs@.len() == ys@.len(),
            xs@ == a@,
            ys@ == b@,
            la == a@.map_values(|c: char| ascii_lower(c)),
            lb == b@.map_values(|c: char| ascii_lower(c)),
            forall|j: int| 0 <= j < i ==> la[j] == lb[j],
        decreases xs@.len() - i,
    {
        if to_ascii_lower(xs[i]) != to_ascii_lower(ys[i]) {
            assert(la[i as int] != lb[i as int]);
            return false;
        }
        i += 1;
    }
    assert(la =~= lb);
    true
}

} // verus!
