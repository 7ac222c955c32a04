use vstd::prelude::*;

verus! {

/// The characters that count as blank in entry names: space, tab,
/// carriage return and line feed.
pub open spec fn is_blank_char(c: char) -> bool {
    c == ' ' || c == '\t' || c == '\r' || c == '\n'
}

/// A name is blank when every character of it is blank (so also when empty).
pub open spec fn spec_is_blank(s: Seq<char>) -> bool {
    forall|i: int| 0 <= i < s.len() ==> is_blank_char(s[i])
}

/// The characters of `s`, as a vector.
pub fn chars_vec(s: &str) -> (r: Vec<char>)
    ensures
        r@ == s@,
{
    let mut r: Vec<char> = Vec::new();
    for c in it: s.chars()
        invariant
            it.seq() == s@,
            r@ == it.seq().take(it.index() as int),
    {
        r.push(c);
    }
    proof {
        assert(r@ =~= s@);
    }
    r
}

/// Relies on String::push, which appends the given character to the
/// end of the string.
#[verifier::external_body]
fn push_char(s: &mut String, c: char)
    ensures
        final(s)@ == old(s)@.push(c),
{
    s.push(c);
}

/// A string holding exactly the characters of `v`.
pub fn string_of_chars(v: &Vec<char>) -> (r: String)
    ensures
        r@ == v@,
{
    let mut r = String::new();
    let mut i: usize = 0;
    while i < v.len()
        invariant
            i <= v.len(),
            r@ == v@.take(i as int),
        decreases v.len() - i,
    {
        push_char(&mut r, v[i]);
        proof {
            assert(v@.take(i + 1 as int) =~= v@.take(i as int).push(v@[i as int]));
        }
        i = i + 1;
    }
    proof {
        assert(v@.take(v@.len() as int) =~= v@);
    }
    r
}

/// Whether two string slices hold the same characters.
pub fn str_eq(a: &str, b: &str) -> (r: bool)
    ensures
        r == (a@ == b@),
{
    let va = chars_vec(a);
    let vb = chars_vec(b);
    if va.len() != vb.len() {
        return false;
    }
    let mut i: usize = 0;
    while i < va.len()
        invariant
            i <= va.len(),
            va@ == a@,
            vb@ == b@,
            va@.len() == vb@.len(),
            forall|j: int| 0 <= j < i ==> a@[j] == b@[j],
        decreases va.len() - i,
    {
        if va[i] != vb[i] {
            return false;
        }
        i = i + 1;
    }
    proof {
        assert(a@ =~= b@);
    }
    true
}

/// Whether the string consists only of blank characters (so also when empty).
pub fn is_blank(s: &String) -> (r: bool)
    ensures
        r == spec_is_blank(s@),
{
    let v = chars_vec(s.as_str());
    let mut i: usize = 0;
    while i < v.len()
        invariant
            i <= v.len(),
            v@ == s@,
            forall|j: int| 0 <= j < i ==> is_blank_char(s@[j]),
        decreases v.len() - i,
    {
        let c = v[i];
        if !(c == ' ' || c == '\t' || c == '\r' || c == '\n') {
            return false;
        }
        i = i + 1;
    }
    true
}

} // verus!
