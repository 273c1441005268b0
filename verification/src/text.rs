//! Views of text: a line is modelled as `Seq<char>`, a list of lines as
//! `Seq<Seq<char>>`.

use vstd::prelude::*;
use vstd::string::*;

verus! {

/// The lines held by a sequence of strings, each taken by its view.
pub open spec fn lines_of(v: Seq<String>) -> Seq<Seq<char>> {
    v.map_values(|s: String| s@)
}

/// Pushing a string onto a sequence pushes its view onto the lines.
pub proof fn lemma_lines_of_push(v: Seq<String>, s: String)
    ensures
        lines_of(v.push(s)) == lines_of(v).push(s@),
{
}

/// `prefix` followed by `text`, as one owned string.
pub fn labelled(prefix: &str, text: &str) -> (out: String)
    ensures
        out@ == prefix@ + text@,
{
    let mut out = String::from_str(prefix);
    out.append(text);
    out
}

/// An owned copy of every line, in order.
pub fn copy_lines(lines: &Vec<String>) -> (out: Vec<String>)
    ensures
        lines_of(out@) == lines_of(lines@),
{
    let mut out: Vec<String> = Vec::new();
    let mut i: usize = 0;
    while i < lines.len()
        invariant
            i <= lines.len(),
            out.len() == i,
            forall|j: int| 0 <= j < i ==> (#[trigger] out@[j])@ == lines@[j]@,
        decreases lines.len() - i,
    {
        out.push(lines[i].clone());
        i = i + 1;
    }
    out
}

} // verus!
