//! Small operations on text that the rest of the crate is written over.

use vstd::prelude::*;

verus! {

/// The text of `rel` placed under the directory `root`.
pub open spec fn joined(root: Seq<char>, rel: Seq<char>) -> Seq<char> {
    root + seq!['/'] + rel
}

/// Joins a directory and a relative path with a single `/`.
pub fn join_path(root: &str, rel: &str) -> (out: String)
    ensures
        out@ == joined(root@, rel@),
{
    let mut out = String::from_str(root);
    proof {
        reveal_strlit("/");
        assert("/"@ =~= seq!['/']);
    }
    out.append("/");
    out.append(rel);
    out
}

/// The text of `rel` placed under the directory `root`, where the empty
/// root stands for the current directory: there the path is `rel` itself.
pub open spec fn placed(root: Seq<char>, rel: Seq<char>) -> Seq<char> {
    if root.len() == 0 {
        rel
    } else {
        joined(root, rel)
    }
}

/// Places a relative path under a directory, or leaves it as it is where
/// the directory is the current one, given as the empty text.
pub fn place_under(root: &str, rel: &str) -> (out: String)
    ensures
        out@ == placed(root@, rel@),
{
    if root.is_empty() {
        String::from_str(rel)
    } else {
        join_path(root, rel)
    }
}

/// Whether two pieces of text hold the same characters.
pub fn same_text(a: &str, b: &str) -> (same: bool)
    ensures
        same == (a@ == b@),
{
    let n: usize = a.unicode_len();
    if n != b.unicode_len() {
        return false;
    }
    let mut i: usize = 0;
    while i < n
        invariant
            i <= n,
            n == a@.len(),
            n == b@.len(),
            forall|k: int| 0 <= k < i ==> a@[k] == b@[k],
        decreases n - i,
    {
        if a.get_char(i) != b.get_char(i) {
            return false;
        }
        i = i + 1;
    }
    assert(a@ =~= b@);
    true
}

/// `s` without its last character, where that character is `c`.
pub open spec fn without_last(s: Seq<char>, c: char) -> Seq<char> {
    if s.len() > 0 && s.last() == c {
        s.drop_last()
    } else {
        s
    }
}

/// What a typed line says: the line without one line feed at its end and
/// then without one carriage return at its end.
pub open spec fn line_content(line: Seq<char>) -> Seq<char> {
    without_last(without_last(line, '\n'), '\r')
}

/// The characters of an optional string.
pub open spec fn opt_text(text: Option<String>) -> Option<Seq<char>> {
    match text {
        Some(text) => Some(text@),
        None => None,
    }
}

fn strip_last(s: &str, c: char) -> (out: &str)
    ensures
        out@ == without_last(s@, c),
{
    let n: usize = s.unicode_len();
    if n > 0 && s.get_char(n - 1) == c {
        s.substring_char(0, n - 1)
    } else {
        s
    }
}

/// Removes the line ending from a line read from the terminal.
pub fn trim_line_end(line: &str) -> (out: String)
    ensures
        out@ == line_content(line@),
{
    String::from_str(strip_last(strip_last(line, '\n'), '\r'))
}

/// The characters of a text, one by one.
pub fn chars_of(text: &str) -> (out: Vec<char>)
    ensures
        out@ == text@,
{
    let mut out: Vec<char> = Vec::new();
    for c in it: text.chars()
        invariant
            it.seq() == text@,
            out@ == text@.take(it.index() as int),
    {
        out.push(c);
        assert(text@.take(it.index() + 1) =~= text@.take(it.index() as int).push(c));
    }
    assert(text@.take(text@.len() as int) =~= text@);
    out
}

} // verus!
