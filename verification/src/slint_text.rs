//! Text inside generated Slint sources.

use crate::text::chars_of;
use vstd::prelude::*;

verus! {

/// A character as it stands in a string literal. A line feed is escaped where
/// `newline` says so.
pub open spec fn escaped_char(c: char, newline: bool) -> Seq<char> {
    if c == '\\' {
        seq!['\\', '\\']
    } else if c == '"' {
        seq!['\\', '"']
    } else if c == '\n' && newline {
        seq!['\\', 'n']
    } else {
        seq![c]
    }
}

/// A text as it stands in a string literal.
pub open spec fn escaped(s: Seq<char>, newline: bool) -> Seq<char>
    decreases s.len(),
{
    if s.len() == 0 {
        Seq::empty()
    } else {
        escaped_char(s[0], newline) + escaped(s.drop_first(), newline)
    }
}

fn escape(s: &str, newline: bool) -> (r: String)
    ensures
        r@ == escaped(s@, newline),
{
    let v = chars_of(s);
    let mut r = String::new();
    let mut i: usize = 0;
    assert(v@.skip(0) =~= v@);
    assert(r@ + escaped(v@, newline) =~= escaped(v@, newline));
    while i < v.len()
        invariant
            i <= v@.len(),
            escaped(v@, newline) == r@ + escaped(v@.skip(i as int), newline),
        decreases v@.len() - i,
    {
        let ghost done = r@;
        let ghost rest = v@.skip(i as int);
        let c = v[i];
        if c == '\\' {
            r.push('\\');
            r.push('\\');
        } else if c == '"' {
            r.push('\\');
            r.push('"');
        } else if c == '\n' && newline {
            r.push('\\');
            r.push('n');
        } else {
            r.push(c);
        }
        assert(r@ =~= done + escaped_char(c, newline));
        assert(rest.drop_first() =~= v@.skip(i + 1));
        assert(done + (escaped_char(c, newline) + escaped(v@.skip(i + 1), newline)) =~= r@
            + escaped(v@.skip(i + 1), newline));
        i += 1;
    }
    assert(v@.skip(v@.len() as int) =~= Seq::<char>::empty());
    assert(r@ + Seq::<char>::empty() =~= r@);
    r
}

/// Escapes backslashes and quotes.
pub fn escape_slint_string(s: &str) -> (r: String)
    ensures
        r@ == escaped(s@, false),
{
    escape(s, false)
}

/// Escapes backslashes, quotes and line feeds.
pub fn escape_slint_lines(s: &str) -> (r: String)
    ensures
        r@ == escaped(s@, true),
{
    escape(s, true)
}

/// The text of a string literal that `t` begins with, after its opening quote, and
/// what follows the closing quote. Two characters of which the first is a backslash
/// stand for one.
pub open spec fn read_literal(t: Seq<char>) -> Option<(Seq<char>, Seq<char>)>
    decreases t.len(),
{
    if t.len() == 0 {
        None
    } else if t[0] == '"' {
        Some((Seq::empty(), t.drop_first()))
    } else if t[0] == '\\' {
        if t.len() < 2 {
            None
        } else {
            let c = if t[1] == 'n' {
                '\n'
            } else {
                t[1]
            };
            match read_literal(t.skip(2)) {
                Some((text, rest)) => Some((seq![c] + text, rest)),
                None => None,
            }
        }
    } else {
        match read_literal(t.drop_first()) {
            Some((text, rest)) => Some((seq![t[0]] + text, rest)),
            None => None,
        }
    }
}

/// An escaped text between quotes is read as a literal that holds the text itself
/// and ends where its closing quote stands.
pub proof fn an_escaped_text_reads_back(s: Seq<char>, newline: bool, rest: Seq<char>)
    ensures
        read_literal(escaped(s, newline) + seq!['"'] + rest) == Some((s, rest)),
    decreases s.len(),
{
    let t = escaped(s, newline) + seq!['"'] + rest;
    if s.len() == 0 {
        assert(t.drop_first() =~= rest);
        assert(s =~= Seq::<char>::empty());
    } else {
        let tail = s.drop_first();
        an_escaped_text_reads_back(tail, newline, rest);
        let head = escaped_char(s[0], newline);
        assert(t.skip(head.len() as int) =~= escaped(tail, newline) + seq!['"'] + rest);
        assert(t[0] == head[0]);
        if head.len() == 2 {
            assert(t[1] == head[1]);
        } else {
            assert(t.skip(1) =~= t.drop_first());
        }
        assert(seq![s[0]] + tail =~= s);
    }
}

/// A text is escaped character by character: a backslash stands before each backslash and
/// each quote, a line feed is written as two characters where that is asked for, and all
/// else is as it was.
pub proof fn escaping_is_done_character_by_character(a: Seq<char>, c: char, b: Seq<char>, newline: bool)
    ensures
        escaped(a + seq![c] + b, newline) == escaped(a, newline) + escaped(seq![c], newline) + escaped(b, newline),
        c == '\\' || c == '"' ==> escaped(seq![c], newline) == seq!['\\', c],
        c == '\n' && newline ==> escaped(seq![c], newline) == seq!['\\', 'n'],
        c == '\n' && !newline ==> escaped(seq![c], newline) == seq![c],
        c != '\\' && c != '"' && c != '\n' ==> escaped(seq![c], newline) == seq![c],
    decreases a.len(),
{
    let s = a + seq![c] + b;
    let one = seq![c];
    assert(one.drop_first() =~= Seq::<char>::empty());
    assert(escaped(Seq::<char>::empty(), newline) =~= Seq::<char>::empty());
    assert(escaped(one, newline) =~= escaped_char(c, newline));
    if a.len() == 0 {
        assert(s.drop_first() =~= b);
        assert(escaped(s, newline) =~= escaped(a, newline) + escaped(one, newline) + escaped(b, newline));
    } else {
        escaping_is_done_character_by_character(a.drop_first(), c, b, newline);
        assert(s.drop_first() =~= a.drop_first() + seq![c] + b);
        assert(escaped(s, newline) =~= escaped(a, newline) + escaped(one, newline) + escaped(b, newline));
    }
}

} // verus!
