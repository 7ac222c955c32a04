use vstd::prelude::*;

use crate::lines::find_break;
use crate::lines::lemma_line_break_props;
use crate::lines::line_break_from;
use crate::lines::push_range;
use crate::text::string_of_chars;

verus! {

/// The end of the run of `c` starting at `i`: the first index at or after
/// `i` holding a different character, or the length.
pub open spec fn run_end_from(s: Seq<char>, i: int, c: char) -> int
    decreases s.len() - i,
{
    if i < 0 || i >= s.len() {
        s.len() as int
    } else if s[i] == c {
        run_end_from(s, i + 1, c)
    } else {
        i
    }
}

/// The indent unit derived from the text, scanning line starts from `i`:
/// the first line whose first character is a space or a tab yields the
/// maximal run of that character at its start; with no such line there is
/// no unit.
pub open spec fn derive_from(s: Seq<char>, i: int) -> Option<Seq<char>>
    decreases s.len() - i,
    via derive_from_decreases
{
    if i < 0 || i >= s.len() {
        None
    } else if s[i] == ' ' || s[i] == '\t' {
        Some(s.subrange(i, run_end_from(s, i, s[i])))
    } else {
        let j = line_break_from(s, i);
        if j >= s.len() {
            None
        } else {
            derive_from(s, j + 1)
        }
    }
}

#[via_fn]
proof fn derive_from_decreases(s: Seq<char>, i: int) {
    if 0 <= i < s.len() {
        lemma_line_break_props(s, i);
    }
}

/// The indent unit of the text given as its characters, if one can be read
/// off a line of it.
pub(crate) fn derive_indent_chars(v: &Vec<char>) -> (r: Option<String>)
    ensures
        match r {
            Some(s) => derive_from(v@, 0) == Some(s@),
            None => derive_from(v@, 0) is None,
        },
{
    let mut i: usize = 0;
    while i < v.len()
        invariant
            i <= v@.len(),
            derive_from(v@, 0) == derive_from(v@, i as int),
        decreases v@.len() - i,
    {
        let c = v[i];
        if c == ' ' || c == '\t' {
            let mut e = i;
            while e < v.len() && v[e] == c
                invariant
                    i <= e <= v@.len(),
                    run_end_from(v@, i as int, c) == run_end_from(v@, e as int, c),
                decreases v@.len() - e,
            {
                e = e + 1;
            }
            let mut unit: Vec<char> = Vec::new();
            push_range(&mut unit, v, i, e);
            proof {
                assert(unit@ =~= v@.subrange(i as int, e as int));
            }
            let s = string_of_chars(&unit);
            return Some(s);
        }
        let j = find_break(v, i);
        if j == v.len() {
            return None;
        }
        i = j + 1;
    }
    None
}

} // verus!
