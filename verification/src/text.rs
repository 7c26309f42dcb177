//! Text as sequences of characters: the parts of string handling that the
//! rest of the library is built on, each stated over `Seq<char>`.

use vstd::prelude::*;
use vstd::utf8::{decode_utf8, is_ascii_chars, valid_utf8};

verus! {

/// Appends one character. The standard `String::push`: the contents afterwards
/// are the contents before with `c` at the end.
pub assume_specification[ String::push ](s: &mut String, c: char)
    ensures
        final(s)@ == old(s)@.push(c),
;

/// The characters of `s`, in order.
pub fn chars_of(s: &str) -> (v: Vec<char>)
    ensures
        v@ == s@,
{
    let mut v: Vec<char> = Vec::new();
    for c in it: s.chars()
        invariant
            v@ == it.seq().take(it.index()),
            it.seq() == s@,
    {
        v.push(c);
    }
    v
}

/// The text made of the characters `from..to` of `v`.
pub fn string_of(v: &Vec<char>, from: usize, to: usize) -> (s: String)
    requires
        from <= to <= v@.len(),
    ensures
        s@ == v@.subrange(from as int, to as int),
{
    let mut s = String::new();
    let mut i: usize = from;
    while i < to
        invariant
            from <= i <= to <= v@.len(),
            s@ == v@.subrange(from as int, i as int),
        decreases to - i,
    {
        s.push(v[i]);
        i += 1;
    }
    s
}

/// The characters of every element, element by element.
pub open spec fn views(v: Seq<String>) -> Seq<Seq<char>> {
    Seq::new(v.len(), |i: int| v[i]@)
}

/// A text that may be absent, by its characters.
pub open spec fn view_opt(s: Option<String>) -> Option<Seq<char>> {
    match s {
        Some(t) => Some(t@),
        None => None,
    }
}

pub proof fn views_push(v: Seq<String>, s: String)
    ensures
        views(v.push(s)) == views(v).push(s@),
{
    assert(views(v.push(s)) =~= views(v).push(s@));
}

/// Whether two texts hold the same characters.
pub fn same_text(a: &str, b: &str) -> (r: bool)
    ensures
        r == (a@ == b@),
{
    a.to_owned() == b.to_owned()
}

/// A text of its own with the characters of `s`.
pub fn owned(s: &str) -> (r: String)
    ensures
        r@ == s@,
{
    s.to_owned()
}

// ---------------------------------------------------------------------------
// White space
// ---------------------------------------------------------------------------

/// The characters with the Unicode property `White_Space`.
pub open spec fn is_space(c: char) -> bool {
    ||| '\u{0009}' <= c <= '\u{000D}'
    ||| c == '\u{0020}'
    ||| c == '\u{0085}'
    ||| c == '\u{00A0}'
    ||| c == '\u{1680}'
    ||| '\u{2000}' <= c <= '\u{200A}'
    ||| c == '\u{2028}'
    ||| c == '\u{2029}'
    ||| c == '\u{202F}'
    ||| c == '\u{205F}'
    ||| c == '\u{3000}'
}

/// Whether `c` is white space.
pub fn space(c: char) -> (r: bool)
    ensures
        r == is_space(c),
{
    ('\u{0009}' <= c && c <= '\u{000D}') || c == '\u{0020}' || c == '\u{0085}' || c == '\u{00A0}'
        || c == '\u{1680}' || ('\u{2000}' <= c && c <= '\u{200A}') || c == '\u{2028}' || c
        == '\u{2029}' || c == '\u{202F}' || c == '\u{205F}' || c == '\u{3000}'
}

/// `s` without the white space it begins with.
pub open spec fn trimmed_start(s: Seq<char>) -> Seq<char>
    decreases s.len(),
{
    if s.len() > 0 && is_space(s[0]) {
        trimmed_start(s.drop_first())
    } else {
        s
    }
}

/// `s` without the white space it ends with.
pub open spec fn trimmed_end(s: Seq<char>) -> Seq<char>
    decreases s.len(),
{
    if s.len() > 0 && is_space(s.last()) {
        trimmed_end(s.drop_last())
    } else {
        s
    }
}

/// `s` without the white space around it.
pub open spec fn trimmed(s: Seq<char>) -> Seq<char> {
    trimmed_end(trimmed_start(s))
}

/// Removes the white space around `s`.
pub fn trim(s: &str) -> (r: String)
    ensures
        r@ == trimmed(s@),
{
    let v = chars_of(s);
    let n: usize = v.len();
    let mut from: usize = 0;
    assert(v@.skip(0) =~= v@);
    while from < n && space(v[from])
        invariant
            from <= n == v@.len(),
            trimmed_start(v@) == trimmed_start(v@.skip(from as int)),
        decreases n - from,
    {
        assert(v@.skip(from as int).drop_first() =~= v@.skip(from + 1));
        from += 1;
    }
    assert(trimmed_start(v@) == v@.skip(from as int));
    let mut to: usize = n;
    assert(v@.skip(from as int) =~= v@.subrange(from as int, n as int));
    while from < to && space(v[to - 1])
        invariant
            from <= to <= n == v@.len(),
            trimmed(v@) == trimmed_end(v@.subrange(from as int, to as int)),
        decreases to - from,
    {
        assert(v@.subrange(from as int, to as int).drop_last() =~= v@.subrange(
            from as int,
            to - 1,
        ));
        to -= 1;
    }
    string_of(&v, from, to)
}

/// `s` without the characters `c` it begins with.
pub open spec fn stripped_start(s: Seq<char>, c: char) -> Seq<char>
    decreases s.len(),
{
    if s.len() > 0 && s[0] == c {
        stripped_start(s.drop_first(), c)
    } else {
        s
    }
}

/// `s` without the characters `c` it ends with.
pub open spec fn stripped_end(s: Seq<char>, c: char) -> Seq<char>
    decreases s.len(),
{
    if s.len() > 0 && s.last() == c {
        stripped_end(s.drop_last(), c)
    } else {
        s
    }
}

/// `s` without the characters `c` around it.
pub open spec fn stripped(s: Seq<char>, c: char) -> Seq<char> {
    stripped_end(stripped_start(s, c), c)
}

/// Removes the characters `c` around `s`.
pub fn strip_char(s: &str, c: char) -> (r: String)
    ensures
        r@ == stripped(s@, c),
{
    let v = chars_of(s);
    let n: usize = v.len();
    let mut from: usize = 0;
    assert(v@.skip(0) =~= v@);
    while from < n && v[from] == c
        invariant
            from <= n == v@.len(),
            stripped_start(v@, c) == stripped_start(v@.skip(from as int), c),
        decreases n - from,
    {
        assert(v@.skip(from as int).drop_first() =~= v@.skip(from + 1));
        from += 1;
    }
    assert(stripped_start(v@, c) == v@.skip(from as int));
    let mut to: usize = n;
    assert(v@.skip(from as int) =~= v@.subrange(from as int, n as int));
    while from < to && v[to - 1] == c
        invariant
            from <= to <= n == v@.len(),
            stripped(v@, c) == stripped_end(v@.subrange(from as int, to as int), c),
        decreases to - from,
    {
        assert(v@.subrange(from as int, to as int).drop_last() =~= v@.subrange(
            from as int,
            to - 1,
        ));
        to -= 1;
    }
    string_of(&v, from, to)
}

/// How many characters of `s` come before its first white space.
pub open spec fn word_len(s: Seq<char>) -> nat
    decreases s.len(),
{
    if s.len() == 0 || is_space(s[0]) {
        0
    } else {
        1 + word_len(s.drop_first())
    }
}

pub proof fn word_len_bounded(s: Seq<char>)
    ensures
        word_len(s) <= s.len(),
    decreases s.len(),
{
    if s.len() > 0 && !is_space(s[0]) {
        word_len_bounded(s.drop_first());
    }
}

/// The longest runs of `s` that hold no white space, from left to right.
pub open spec fn words(s: Seq<char>) -> Seq<Seq<char>>
    decreases s.len(),
{
    if s.len() == 0 {
        Seq::empty()
    } else if is_space(s[0]) {
        words(s.drop_first())
    } else {
        let k = word_len(s);
        if 0 < k <= s.len() {
            seq![s.take(k as int)] + words(s.skip(k as int))
        } else {
            Seq::empty()
        }
    }
}

/// Splits `s` at its white space.
pub fn split_words(s: &str) -> (out: Vec<String>)
    ensures
        views(out@) == words(s@),
{
    let v = chars_of(s);
    let n: usize = v.len();
    let mut out: Vec<String> = Vec::new();
    let mut i: usize = 0;
    assert(v@.skip(0) =~= v@);
    assert(views(out@) =~= Seq::<Seq<char>>::empty());
    while i < n
        invariant
            i <= n == v@.len(),
            words(v@) == views(out@) + words(v@.skip(i as int)),
        decreases n - i,
    {
        let ghost rest = v@.skip(i as int);
        if space(v[i]) {
            assert(rest.drop_first() =~= v@.skip(i + 1));
            i += 1;
        } else {
            let start: usize = i;
            assert(v@.subrange(start as int, i as int) =~= Seq::<char>::empty());
            assert(v@.skip(i as int) == rest);
            while i < n && !space(v[i])
                invariant
                    start <= i <= n == v@.len(),
                    word_len(v@.skip(start as int)) == (i - start) + word_len(v@.skip(i as int)),
                decreases n - i,
            {
                assert(v@.skip(i as int).drop_first() =~= v@.skip(i + 1));
                i += 1;
            }
            let word = string_of(&v, start, i);
            assert(word_len(v@.skip(i as int)) == 0);
            assert(rest.take(i - start) =~= v@.subrange(start as int, i as int));
            assert(rest.skip(i - start) =~= v@.skip(i as int));
            proof {
                views_push(out@, word);
                let tail = words(v@.skip(i as int));
                assert(words(rest) == seq![word@] + tail);
                assert(views(out@) + (seq![word@] + tail) =~= views(out@).push(word@) + tail);
            }
            out.push(word);
        }
    }
    assert(v@.skip(n as int) =~= Seq::<char>::empty());
    assert(views(out@) + Seq::<Seq<char>>::empty() =~= views(out@));
    out
}

// ---------------------------------------------------------------------------
// Pieces and lines
// ---------------------------------------------------------------------------

/// Where `c` first stands in `s`; the length of `s` where it stands nowhere.
pub open spec fn position(s: Seq<char>, c: char) -> nat
    decreases s.len(),
{
    if s.len() == 0 || s[0] == c {
        0
    } else {
        1 + position(s.drop_first(), c)
    }
}

pub proof fn position_first(s: Seq<char>, c: char)
    ensures
        position(s, c) <= s.len(),
        position(s, c) < s.len() ==> s[position(s, c) as int] == c,
        forall|i: int| 0 <= i < position(s, c) ==> s[i] != c,
        position(s, c) < s.len() <==> s.contains(c),
    decreases s.len(),
{
    if s.len() > 0 && s[0] != c {
        let t = s.drop_first();
        position_first(t, c);
        assert forall|i: int| 0 <= i < position(s, c) implies s[i] != c by {
            if i > 0 {
                assert(s[i] == t[i - 1]);
            }
        }
        if s.contains(c) {
            let j = choose|j: int| 0 <= j < s.len() && s[j] == c;
            assert(t[j - 1] == c);
        }
    }
}

/// Where `c` first stands at or after `from`; the length where it stands nowhere.
pub fn find_from(v: &Vec<char>, from: usize, c: char) -> (k: usize)
    requires
        from <= v@.len(),
    ensures
        from <= k <= v@.len(),
        k - from == position(v@.skip(from as int), c),
{
    let mut k: usize = from;
    while k < v.len() && v[k] != c
        invariant
            from <= k <= v@.len(),
            position(v@.skip(from as int), c) == (k - from) + position(v@.skip(k as int), c),
        decreases v@.len() - k,
    {
        assert(v@.skip(k as int).drop_first() =~= v@.skip(k + 1));
        k += 1;
    }
    k
}

/// Whether `c` stands in `s`.
pub fn has_char(s: &str, c: char) -> (r: bool)
    ensures
        r == s@.contains(c),
{
    let v = chars_of(s);
    let k: usize = find_from(&v, 0, c);
    assert(v@.skip(0) =~= v@);
    proof {
        position_first(s@, c);
    }
    k < v.len()
}

/// The pieces of `s` between the places where `c` stands. There is always one
/// piece more than there are places.
pub open spec fn pieces(s: Seq<char>, c: char) -> Seq<Seq<char>>
    decreases s.len(),
{
    let k = position(s, c);
    if k >= s.len() {
        seq![s]
    } else {
        seq![s.take(k as int)] + pieces(s.skip((k + 1) as int), c)
    }
}

/// Splits `s` at every `c`.
pub fn split_at_char(s: &str, c: char) -> (out: Vec<String>)
    ensures
        views(out@) == pieces(s@, c),
{
    let v = chars_of(s);
    let mut out: Vec<String> = Vec::new();
    let mut i: usize = 0;
    assert(v@.skip(0) =~= v@);
    assert(views(out@) =~= Seq::<Seq<char>>::empty());
    loop
        invariant
            i <= v@.len(),
            v@ == s@,
            pieces(v@, c) == views(out@) + pieces(v@.skip(i as int), c),
        decreases v@.len() - i,
    {
        let k: usize = find_from(&v, i, c);
        let piece = string_of(&v, i, k);
        let ghost rest = v@.skip(i as int);
        proof {
            views_push(out@, piece);
        }
        if k >= v.len() {
            assert(rest =~= piece@);
            assert(views(out@) + seq![piece@] =~= views(out@).push(piece@));
            out.push(piece);
            return out;
        }
        assert(rest.take(k - i) =~= piece@);
        assert(rest.skip(k - i + 1) =~= v@.skip(k + 1));
        proof {
            let tail = pieces(v@.skip(k + 1), c);
            assert(views(out@) + (seq![piece@] + tail) =~= views(out@).push(piece@) + tail);
        }
        out.push(piece);
        i = k + 1;
    }
}

/// A line that ended in a line feed, without the carriage return that may stand
/// before it.
pub open spec fn without_return(s: Seq<char>) -> Seq<char> {
    if s.len() > 0 && s.last() == '\r' {
        s.drop_last()
    } else {
        s
    }
}

/// The lines of `s`. A line ends in a line feed, or in a carriage return and a
/// line feed; the last line may go without.
pub open spec fn lines(s: Seq<char>) -> Seq<Seq<char>>
    decreases s.len(),
{
    let k = position(s, '\n');
    if s.len() == 0 {
        Seq::empty()
    } else if k >= s.len() {
        seq![s]
    } else {
        seq![without_return(s.take(k as int))] + lines(s.skip((k + 1) as int))
    }
}

/// Splits `s` into its lines.
pub fn split_lines(s: &str) -> (out: Vec<String>)
    ensures
        views(out@) == lines(s@),
{
    let v = chars_of(s);
    let n: usize = v.len();
    let mut out: Vec<String> = Vec::new();
    let mut i: usize = 0;
    assert(v@.skip(0) =~= v@);
    assert(views(out@) =~= Seq::<Seq<char>>::empty());
    while i < n
        invariant
            i <= n == v@.len(),
            lines(v@) == views(out@) + lines(v@.skip(i as int)),
        decreases n - i,
    {
        let k: usize = find_from(&v, i, '\n');
        let ghost rest = v@.skip(i as int);
        let mut end: usize = k;
        if k < n && i < k && v[k - 1] == '\r' {
            end = k - 1;
        }
        let line = string_of(&v, i, end);
        proof {
            views_push(out@, line);
            let next = if k < n { k + 1 } else { n as int };
            let tail = lines(v@.skip(next));
            if k < n {
                assert(rest.take(k - i) =~= v@.subrange(i as int, k as int));
                assert(without_return(rest.take(k - i)) =~= line@);
                assert(rest.skip(k - i + 1) =~= v@.skip(k + 1));
            } else {
                assert(rest =~= line@);
                assert(v@.skip(n as int) =~= Seq::<char>::empty());
                assert(seq![line@] + tail =~= seq![line@]);
            }
            assert(lines(rest) == seq![line@] + tail);
            assert(views(out@) + (seq![line@] + tail) =~= views(out@).push(line@) + tail);
        }
        out.push(line);
        if k < n {
            i = k + 1;
        } else {
            i = n;
        }
    }
    assert(v@.skip(n as int) =~= Seq::<char>::empty());
    assert(views(out@) + Seq::<Seq<char>>::empty() =~= views(out@));
    out
}

// ---------------------------------------------------------------------------
// Searching
// ---------------------------------------------------------------------------

/// Whether `p` stands in `s` at `at`.
pub open spec fn stands_at(s: Seq<char>, p: Seq<char>, at: int) -> bool {
    0 <= at && at + p.len() <= s.len() && s.subrange(at, at + p.len()) == p
}

/// Whether `p` stands somewhere in `s`.
pub open spec fn contains_text(s: Seq<char>, p: Seq<char>) -> bool {
    exists|at: int| stands_at(s, p, at)
}

/// Whether `p` stands in `v` at `at`.
fn matches_at(v: &Vec<char>, p: &Vec<char>, at: usize) -> (r: bool)
    ensures
        r == stands_at(v@, p@, at as int),
{
    let n: usize = v.len();
    if p.len() > n || at > n - p.len() {
        return false;
    }
    let mut j: usize = 0;
    while j < p.len()
        invariant
            n == v@.len(),
            j <= p@.len(),
            at + p@.len() <= v@.len(),
            v@.subrange(at as int, at + j) == p@.take(j as int),
        decreases p@.len() - j,
    {
        if v[at + j] != p[j] {
            proof {
                assert(v@.subrange(at as int, at + p@.len())[j as int] == v@[at + j]);
            }
            return false;
        }
        assert(v@.subrange(at as int, at + j + 1) =~= v@.subrange(at as int, at + j).push(
            v@[at + j],
        ));
        assert(p@.take(j + 1) =~= p@.take(j as int).push(p@[j as int]));
        j += 1;
    }
    assert(p@.take(p@.len() as int) =~= p@);
    true
}

/// Whether `p` stands somewhere in `s`.
pub fn has_text(s: &str, p: &str) -> (r: bool)
    ensures
        r == contains_text(s@, p@),
{
    let v = chars_of(s);
    let q = chars_of(p);
    let mut at: usize = 0;
    while at <= v.len()
        invariant
            v@ == s@,
            q@ == p@,
            at <= v@.len() + 1,
            forall|i: int| 0 <= i < at ==> !stands_at(s@, p@, i),
        decreases v@.len() + 1 - at,
    {
        if matches_at(&v, &q, at) {
            return true;
        }
        if at == v.len() {
            return false;
        }
        at += 1;
    }
    false
}

/// Whether `s` begins with `p`.
pub open spec fn starts_with(s: Seq<char>, p: Seq<char>) -> bool {
    stands_at(s, p, 0)
}

/// What follows `p` in `s`, where `s` begins with `p`.
pub open spec fn after_prefix(s: Seq<char>, p: Seq<char>) -> Option<Seq<char>> {
    if starts_with(s, p) {
        Some(s.skip(p.len() as int))
    } else {
        None
    }
}

/// Whether `s` begins with `p`.
pub fn has_prefix(s: &str, p: &str) -> (r: bool)
    ensures
        r == starts_with(s@, p@),
{
    let v = chars_of(s);
    let q = chars_of(p);
    matches_at(&v, &q, 0)
}

/// What follows `p` in `s`, where `s` begins with `p`.
pub fn strip_prefix(s: &str, p: &str) -> (r: Option<String>)
    ensures
        view_opt(r) == after_prefix(s@, p@),
{
    let v = chars_of(s);
    let q = chars_of(p);
    if matches_at(&v, &q, 0) {
        let rest = string_of(&v, q.len(), v.len());
        assert(rest@ =~= s@.skip(p@.len() as int));
        Some(rest)
    } else {
        None
    }
}

// ---------------------------------------------------------------------------
// Putting text together
// ---------------------------------------------------------------------------

/// The elements of `parts` one after the other, with `sep` between neighbours.
pub open spec fn joined(parts: Seq<Seq<char>>, sep: Seq<char>) -> Seq<char>
    decreases parts.len(),
{
    if parts.len() == 0 {
        Seq::empty()
    } else if parts.len() == 1 {
        parts[0]
    } else {
        joined(parts.drop_last(), sep) + sep + parts.last()
    }
}

/// Joins `parts` with `sep` between neighbours.
pub fn join(parts: &Vec<String>, sep: &str) -> (r: String)
    ensures
        r@ == joined(views(parts@), sep@),
{
    let mut r = String::new();
    let mut i: usize = 0;
    assert(views(parts@).take(0) =~= Seq::<Seq<char>>::empty());
    while i < parts.len()
        invariant
            i <= parts@.len(),
            r@ == joined(views(parts@).take(i as int), sep@),
        decreases parts@.len() - i,
    {
        assert(views(parts@).take(i + 1).drop_last() =~= views(parts@).take(i as int));
        if i > 0 {
            r.append(sep);
        }
        r.append(parts[i].as_str());
        i += 1;
    }
    assert(views(parts@).take(parts@.len() as int) =~= views(parts@));
    r
}

/// `s` with every `c` replaced by `by`.
pub open spec fn replaced(s: Seq<char>, c: char, by: Seq<char>) -> Seq<char>
    decreases s.len(),
{
    if s.len() == 0 {
        Seq::empty()
    } else {
        replaced(s.drop_last(), c, by) + if s.last() == c {
            by
        } else {
            seq![s.last()]
        }
    }
}

/// Replaces every `c` of `s` by `by`.
pub fn replace(s: &str, c: char, by: &str) -> (r: String)
    ensures
        r@ == replaced(s@, c, by@),
{
    let v = chars_of(s);
    let mut r = String::new();
    let mut i: usize = 0;
    assert(v@.take(0) =~= Seq::<char>::empty());
    while i < v.len()
        invariant
            i <= v@.len(),
            v@ == s@,
            r@ == replaced(v@.take(i as int), c, by@),
        decreases v@.len() - i,
    {
        assert(v@.take(i + 1).drop_last() =~= v@.take(i as int));
        let ghost before = r@;
        if v[i] == c {
            r.append(by);
        } else {
            r.push(v[i]);
            assert(before.push(v@[i as int]) =~= before + seq![v@[i as int]]);
        }
        i += 1;
    }
    assert(v@.take(v@.len() as int) =~= v@);
    r
}

/// `a` and `b` one after the other.
pub fn concat2(a: &str, b: &str) -> (r: String)
    ensures
        r@ == a@ + b@,
{
    let mut r = owned(a);
    r.append(b);
    r
}

/// `a`, `b` and `c` one after the other.
pub fn concat3(a: &str, b: &str, c: &str) -> (r: String)
    ensures
        r@ == a@ + b@ + c@,
{
    let mut r = owned(a);
    r.append(b);
    r.append(c);
    r
}

/// The ASCII letters `A` to `Z` in lower case, every other character as it is.
pub open spec fn ascii_lower(c: char) -> char {
    if 'A' <= c <= 'Z' {
        (c as u32 + 32) as char
    } else {
        c
    }
}

/// Whether two texts are equal once their ASCII letters are in lower case.
pub open spec fn equal_ignoring_case(a: Seq<char>, b: Seq<char>) -> bool {
    a.len() == b.len() && forall|i: int|
        0 <= i < a.len() ==> ascii_lower(#[trigger] a[i]) == ascii_lower(b[i])
}

fn to_ascii_lower(c: char) -> (r: char)
    ensures
        r == ascii_lower(c),
{
    if 'A' <= c && c <= 'Z' {
        ((c as u8) + 32) as char
    } else {
        c
    }
}

/// Whether two texts are equal once their ASCII letters are in lower case.
pub fn same_ignoring_case(a: &str, b: &str) -> (r: bool)
    ensures
        r == equal_ignoring_case(a@, b@),
{
    let v = chars_of(a);
    let w = chars_of(b);
    if v.len() != w.len() {
        return false;
    }
    let mut i: usize = 0;
    while i < v.len()
        invariant
            i <= v@.len() == w@.len(),
            v@ == a@,
            w@ == b@,
            forall|j: int| 0 <= j < i ==> ascii_lower(#[trigger] v@[j]) == ascii_lower(w@[j]),
        decreases v@.len() - i,
    {
        if to_ascii_lower(v[i]) != to_ascii_lower(w[i]) {
            return false;
        }
        i += 1;
    }
    true
}

// ---------------------------------------------------------------------------
// From the standard library
// ---------------------------------------------------------------------------

/// The lower case of a text, as `str::to_lowercase` gives it.
pub uninterp spec fn lowercase(s: Seq<char>) -> Seq<char>;

/// Calls the standard `str::to_lowercase`. Its result follows the Unicode tables
/// and depends on the characters of `s` alone. Of a text that is all ASCII it is
/// the ASCII lower case; of other texts nothing is said but its name.
#[verifier::external_body]
pub(crate) fn to_lowercase(s: &str) -> (r: String)
    ensures
        r@ == lowercase(s@),
        is_ascii_chars(s@) ==> r@ == s@.map_values(|c: char| ascii_lower(c)),
{
    s.to_lowercase()
}

/// The text of a sequence of bytes, as `String::from_utf8_lossy` gives it.
pub uninterp spec fn utf8_lossy(bytes: Seq<u8>) -> Seq<char>;

/// Calls the standard `String::from_utf8_lossy`. Bytes that are valid UTF-8 give
/// the text that they encode; in others the standard library puts replacement
/// characters for what it cannot read, which the name stands for.
#[verifier::external_body]
pub(crate) fn from_utf8_lossy(bytes: &[u8]) -> (r: String)
    ensures
        r@ == utf8_lossy(bytes@),
        valid_utf8(bytes@) ==> r@ == decode_utf8(bytes@),
{
    String::from_utf8_lossy(bytes).into_owned()
}

// ---------------------------------------------------------------------------
// Laws
// ---------------------------------------------------------------------------

/// Whether `s` is nothing but white space.
pub open spec fn all_space(s: Seq<char>) -> bool {
    forall|i: int| 0 <= i < s.len() ==> is_space(#[trigger] s[i])
}

/// Whether no white space stands in `s`.
pub open spec fn no_space(s: Seq<char>) -> bool {
    forall|i: int| 0 <= i < s.len() ==> !is_space(#[trigger] s[i])
}

proof fn leading_space_goes(a: Seq<char>, s: Seq<char>)
    requires
        all_space(a),
        s.len() > 0 ==> !is_space(s[0]),
    ensures
        trimmed_start(a + s) == s,
    decreases a.len(),
{
    if a.len() > 0 {
        assert((a + s)[0] == a[0]);
        assert((a + s).drop_first() =~= a.drop_first() + s);
        leading_space_goes(a.drop_first(), s);
    } else {
        assert(a + s =~= s);
    }
}

proof fn trailing_space_goes(s: Seq<char>, b: Seq<char>)
    requires
        all_space(b),
        s.len() > 0 ==> !is_space(s.last()),
    ensures
        trimmed_end(s + b) == s,
    decreases b.len(),
{
    if b.len() > 0 {
        assert((s + b).last() == b.last());
        assert((s + b).drop_last() =~= s + b.drop_last());
        trailing_space_goes(s, b.drop_last());
    } else {
        assert(s + b =~= s);
    }
}

/// Trimming takes off the white space at both ends and keeps all that stands between,
/// white space there included.
pub proof fn trimming_takes_off_the_ends(a: Seq<char>, s: Seq<char>, b: Seq<char>)
    requires
        all_space(a),
        all_space(b),
        s.len() > 0 ==> !is_space(s.first()) && !is_space(s.last()),
    ensures
        trimmed(a + s + b) == s,
{
    if s.len() == 0 {
        assert(a + s + b =~= (a + b) + s);
        leading_space_goes(a + b, s);
        assert(trimmed_end(s) == s);
    } else {
        assert(a + s + b =~= a + (s + b));
        assert((s + b)[0] == s[0]);
        leading_space_goes(a, s + b);
        trailing_space_goes(s, b);
    }
}

proof fn leading_chars_go(a: Seq<char>, s: Seq<char>, c: char)
    requires
        forall|i: int| 0 <= i < a.len() ==> a[i] == c,
        s.len() > 0 ==> s[0] != c,
    ensures
        stripped_start(a + s, c) == s,
    decreases a.len(),
{
    if a.len() > 0 {
        assert((a + s)[0] == a[0]);
        assert((a + s).drop_first() =~= a.drop_first() + s);
        leading_chars_go(a.drop_first(), s, c);
    } else {
        assert(a + s =~= s);
    }
}

proof fn trailing_chars_go(s: Seq<char>, b: Seq<char>, c: char)
    requires
        forall|i: int| 0 <= i < b.len() ==> b[i] == c,
        s.len() > 0 ==> s.last() != c,
    ensures
        stripped_end(s + b, c) == s,
    decreases b.len(),
{
    if b.len() > 0 {
        assert((s + b).last() == b.last());
        assert((s + b).drop_last() =~= s + b.drop_last());
        trailing_chars_go(s, b.drop_last(), c);
    } else {
        assert(s + b =~= s);
    }
}

/// Stripping takes a character off both ends and keeps all that stands between.
pub proof fn stripping_takes_off_the_ends(a: Seq<char>, s: Seq<char>, b: Seq<char>, c: char)
    requires
        forall|i: int| 0 <= i < a.len() ==> a[i] == c,
        forall|i: int| 0 <= i < b.len() ==> b[i] == c,
        s.len() > 0 ==> s.first() != c && s.last() != c,
    ensures
        stripped(a + s + b, c) == s,
{
    if s.len() == 0 {
        assert(a + s + b =~= (a + b) + s);
        leading_chars_go(a + b, s, c);
        assert(stripped_end(s, c) == s);
    } else {
        assert(a + s + b =~= a + (s + b));
        assert((s + b)[0] == s[0]);
        leading_chars_go(a, s + b, c);
        trailing_chars_go(s, b, c);
    }
}

proof fn word_ends_at_space(w: Seq<char>, rest: Seq<char>)
    requires
        no_space(w),
        rest.len() == 0 || is_space(rest[0]),
    ensures
        word_len(w + rest) == w.len(),
    decreases w.len(),
{
    if w.len() > 0 {
        assert((w + rest)[0] == w[0]);
        assert((w + rest).drop_first() =~= w.drop_first() + rest);
        word_ends_at_space(w.drop_first(), rest);
    } else {
        assert(w + rest =~= rest);
    }
}

/// A text without white space that is not empty is one word.
pub proof fn one_word(w: Seq<char>)
    requires
        no_space(w),
        w.len() > 0,
    ensures
        words(w) == seq![w],
{
    word_ends_at_space(w, Seq::empty());
    assert(w + Seq::<char>::empty() =~= w);
    assert(w.take(w.len() as int) =~= w);
    assert(w.skip(w.len() as int) =~= Seq::<char>::empty());
    assert(words(w.skip(w.len() as int)) == Seq::<Seq<char>>::empty());
    assert(words(w) =~= seq![w]);
}

/// The words of two texts with white space between them are the words of the first and
/// then those of the second.
pub proof fn words_on_both_sides(a: Seq<char>, sep: char, b: Seq<char>)
    requires
        is_space(sep),
    ensures
        words(a + seq![sep] + b) == words(a) + words(b),
    decreases a.len(),
{
    let all = a + seq![sep] + b;
    if a.len() == 0 {
        assert(all.drop_first() =~= b);
        assert(words(a) + words(b) =~= words(b));
    } else if is_space(a[0]) {
        assert(all.drop_first() =~= a.drop_first() + seq![sep] + b);
        words_on_both_sides(a.drop_first(), sep, b);
    } else {
        let k = word_len(a) as int;
        word_len_bounded(a);
        let w = a.take(k);
        let rest = a.skip(k);
        word_stops(a);
        assert(all =~= w + (rest + seq![sep] + b));
        word_ends_at_space(w, rest + seq![sep] + b);
        assert(all.take(k) =~= w);
        assert(all.skip(k) =~= rest + seq![sep] + b);
        words_on_both_sides(rest, sep, b);
        assert(words(all) =~= seq![w] + words(rest) + words(b));
    }
}

proof fn word_stops(a: Seq<char>)
    requires
        a.len() > 0,
        !is_space(a[0]),
    ensures
        0 < word_len(a) <= a.len(),
        no_space(a.take(word_len(a) as int)),
        word_len(a) < a.len() ==> is_space(a[word_len(a) as int]),
    decreases a.len(),
{
    let tail = a.drop_first();
    let k = word_len(a) as int;
    if tail.len() > 0 && !is_space(tail[0]) {
        word_stops(tail);
        assert forall|i: int| 0 <= i < k implies !is_space(#[trigger] a.take(k)[i]) by {
            if i > 0 {
                assert(tail.take(k - 1)[i - 1] == a[i]);
            }
        }
    } else {
        assert(word_len(tail) == 0);
    }
}

/// Words that are joined with a space are found again, each as it was.
pub proof fn joined_words_are_found(ws: Seq<Seq<char>>)
    requires
        forall|i: int| 0 <= i < ws.len() ==> no_space(#[trigger] ws[i]) && ws[i].len() > 0,
    ensures
        words(joined(ws, " "@)) == ws,
    decreases ws.len(),
{
    reveal_strlit(" ");
    assert(" "@ =~= seq![' ']);
    if ws.len() == 0 {
        assert(words(joined(ws, " "@)) =~= ws);
    } else if ws.len() == 1 {
        one_word(ws[0]);
        assert(ws =~= seq![ws[0]]);
    } else {
        let front = ws.drop_last();
        joined_words_are_found(front);
        words_on_both_sides(joined(front, " "@), ' ', ws.last());
        one_word(ws.last());
        assert(front + seq![ws.last()] =~= ws);
    }
}

/// Every word is a run without white space, and is not empty.
pub proof fn words_are_words(s: Seq<char>, i: int)
    requires
        0 <= i < words(s).len(),
    ensures
        no_space(words(s)[i]),
        words(s)[i].len() > 0,
    decreases s.len(),
{
    if is_space(s[0]) {
        words_are_words(s.drop_first(), i);
    } else {
        word_stops(s);
        if i > 0 {
            words_are_words(s.skip(word_len(s) as int), i - 1);
        }
    }
}

/// A text in which `c` does not stand is one piece.
pub proof fn one_piece(s: Seq<char>, c: char)
    requires
        !s.contains(c),
    ensures
        pieces(s, c) == seq![s],
{
    position_first(s, c);
}

proof fn position_at_separator(a: Seq<char>, c: char, b: Seq<char>)
    requires
        !a.contains(c),
    ensures
        position(a + seq![c] + b, c) == a.len(),
{
    let all = a + seq![c] + b;
    position_first(all, c);
    let k = position(all, c) as int;
    assert(all[a.len() as int] == c);
    if k < a.len() {
        assert(all[k] == a[k]);
        assert(a.contains(a[k]));
    }
}

/// The first piece is what stands before the first `c`, and the pieces of what follows
/// come after it.
pub proof fn a_piece_ends_at_the_separator(a: Seq<char>, c: char, b: Seq<char>)
    requires
        !a.contains(c),
    ensures
        pieces(a + seq![c] + b, c) == seq![a] + pieces(b, c),
{
    let all = a + seq![c] + b;
    position_at_separator(a, c, b);
    assert(all.take(a.len() as int) =~= a);
    assert(all.skip((a.len() + 1) as int) =~= b);
}

/// A line is what stands before its line feed, all of it, and the lines of what follows
/// come after it. A text that is not empty and has no line feed is one line.
pub proof fn a_line_ends_at_the_line_feed(a: Seq<char>, b: Seq<char>)
    requires
        !a.contains('\n'),
    ensures
        (a.len() == 0 || a.last() != '\r') ==> lines(a + seq!['\n'] + b) == seq![a] + lines(b),
        lines(a + seq!['\r', '\n'] + b) == seq![a] + lines(b),
        a.len() > 0 ==> lines(a) == seq![a],
{
    let all = a + seq!['\n'] + b;
    position_at_separator(a, '\n', b);
    assert(all.take(a.len() as int) =~= a);
    assert(all.skip((a.len() + 1) as int) =~= b);
    let r = a + seq!['\r'];
    let long = a + seq!['\r', '\n'] + b;
    assert(long =~= r + seq!['\n'] + b);
    assert(!r.contains('\n')) by {
        if r.contains('\n') {
            let i = choose|i: int| 0 <= i < r.len() && r[i] == '\n';
            assert(a[i] == '\n');
        }
    }
    position_at_separator(r, '\n', b);
    assert(long.take(r.len() as int) =~= r);
    assert(long.skip((r.len() + 1) as int) =~= b);
    assert(r.drop_last() =~= a);
    position_first(a, '\n');
}

/// A text stands in another exactly where that is made of something before it, the text
/// itself, and something after it.
pub proof fn a_part_is_found_anywhere(s: Seq<char>, p: Seq<char>)
    ensures
        contains_text(s, p) <==> exists|a: Seq<char>, b: Seq<char>| s == #[trigger] (a + p + b),
{
    if contains_text(s, p) {
        let at = choose|at: int| stands_at(s, p, at);
        let a = s.take(at);
        let b = s.skip(at + p.len());
        assert(s =~= a + p + b);
    }
    if exists|a: Seq<char>, b: Seq<char>| s == #[trigger] (a + p + b) {
        let (a, b) = choose|a: Seq<char>, b: Seq<char>| s == #[trigger] (a + p + b);
        assert(s.subrange(a.len() as int, (a.len() + p.len()) as int) =~= p);
        assert(stands_at(s, p, a.len() as int));
    }
}

/// What follows a prefix is all the rest, and only what begins with the prefix has one.
pub proof fn the_rest_follows_the_prefix(s: Seq<char>, p: Seq<char>, v: Seq<char>)
    ensures
        after_prefix(p + v, p) == Some(v),
        after_prefix(s, p) matches Some(rest) ==> s == p + rest,
        starts_with(s, p) <==> after_prefix(s, p) is Some,
{
    assert((p + v).subrange(0, p.len() as int) =~= p);
    assert((p + v).skip(p.len() as int) =~= v);
    if starts_with(s, p) {
        assert(s =~= p + s.skip(p.len() as int));
    }
}

/// Replacing puts `by` for each `c`, and keeps every other character in its place.
pub proof fn replacing_touches_nothing_else(a: Seq<char>, c: char, b: Seq<char>, by: Seq<char>)
    ensures
        replaced(a + seq![c] + b, c, by) == replaced(a, c, by) + by + replaced(b, c, by),
        !a.contains(c) ==> replaced(a, c, by) == a,
    decreases b.len(), a.len(),
{
    if b.len() > 0 {
        replacing_touches_nothing_else(a, c, b.drop_last(), by);
        let all = a + seq![c] + b;
        assert(all.drop_last() =~= a + seq![c] + b.drop_last());
        assert(all.last() == b.last());
        let end = if b.last() == c {
            by
        } else {
            seq![b.last()]
        };
        assert(replaced(a, c, by) + by + replaced(b.drop_last(), c, by) + end =~= replaced(a, c, by) + by
            + (replaced(b.drop_last(), c, by) + end));
    } else {
        assert((a + seq![c] + b).drop_last() =~= a);
        assert((a + seq![c] + b).last() == c);
        assert(replaced(a, c, by) + by + replaced(b, c, by) =~= replaced(a, c, by) + by);
    }
    if !a.contains(c) {
        nothing_to_replace(a, c, by);
    }
}

proof fn nothing_to_replace(s: Seq<char>, c: char, by: Seq<char>)
    requires
        !s.contains(c),
    ensures
        replaced(s, c, by) == s,
    decreases s.len(),
{
    if s.len() > 0 {
        let front = s.drop_last();
        assert(s.contains(s[s.len() - 1]));
        assert forall|i: int| 0 <= i < front.len() implies front[i] != c by {
            assert(s.contains(s[i]));
        }
        nothing_to_replace(front, c, by);
        assert(front + seq![s.last()] =~= s);
    } else {
        assert(s =~= Seq::<char>::empty());
    }
}

/// Joining goes from left to right and keeps every part whole, with the separator
/// between neighbours and nowhere else.
pub proof fn joining_keeps_the_parts(parts: Seq<Seq<char>>, last: Seq<char>, sep: Seq<char>)
    ensures
        joined(seq![last], sep) == last,
        parts.len() > 0 ==> joined(parts.push(last), sep) == joined(parts, sep) + sep + last,
        joined(Seq::<Seq<char>>::empty(), sep) == Seq::<char>::empty(),
{
    assert(parts.push(last).drop_last() =~= parts);
}

/// Two texts are equal but for the case of ASCII letters exactly where each character
/// of the one is that of the other, or the two are the same letter in both cases.
pub proof fn case_is_all_that_may_differ(a: Seq<char>, b: Seq<char>)
    ensures
        equal_ignoring_case(a, b) <==> a.len() == b.len() && forall|i: int|
            0 <= i < a.len() ==> {
                ||| #[trigger] a[i] == b[i]
                ||| 'A' <= a[i] <= 'Z' && b[i] as int == a[i] as int + 32
                ||| 'A' <= b[i] <= 'Z' && a[i] as int == b[i] as int + 32
            },
{
    assert forall|c: char, d: char| #[trigger] ascii_lower(c) == #[trigger] ascii_lower(d) <==> {
        ||| c == d
        ||| 'A' <= c <= 'Z' && d as int == c as int + 32
        ||| 'A' <= d <= 'Z' && c as int == d as int + 32
    } by {}
    if equal_ignoring_case(a, b) {
        assert forall|i: int| 0 <= i < a.len() implies {
            ||| #[trigger] a[i] == b[i]
            ||| 'A' <= a[i] <= 'Z' && b[i] as int == a[i] as int + 32
            ||| 'A' <= b[i] <= 'Z' && a[i] as int == b[i] as int + 32
        } by {
            assert(ascii_lower(a[i]) == ascii_lower(b[i]));
        }
    }
}

} // verus!
