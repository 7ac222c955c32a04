use vstd::prelude::*;

use crate::lines::push_range;
use crate::text::chars_vec;
use crate::text::string_of_chars;

verus! {

/// Whether the name ends with the manifest extension `.fsproj`.
pub open spec fn spec_is_manifest_name(s: Seq<char>) -> bool {
    s.len() >= 7 && s.skip(s.len() - 7) == ".fsproj"@
}

/// Whether the directory entry names a manifest file.
pub fn is_manifest_name(s: &String) -> (r: bool)
    ensures
        r == spec_is_manifest_name(s@),
{
    let v = chars_vec(s.as_str());
    let e = chars_vec(".fsproj");
    proof {
        reveal_strlit(".fsproj");
    }
    if v.len() < e.len() {
        return false;
    }
    let n = v.len();
    let off = n - e.len();
    let mut k: usize = 0;
    while k < e.len()
        invariant
            k <= e@.len(),
            n == v@.len(),
            v@ == s@,
            e@ == ".fsproj"@,
            e@.len() == 7,
            v@.len() >= e@.len(),
            off == v@.len() - e@.len(),
            forall|m: int| 0 <= m < k ==> v@[off + m] == e@[m],
        decreases e@.len() - k,
    {
        if v[off + k] != e[k] {
            proof {
                if spec_is_manifest_name(s@) {
                    assert(s@.skip(s@.len() - 7)[k as int] == s@[s@.len() - 7 + k]);
                }
            }
            return false;
        }
        k = k + 1;
    }
    proof {
        assert(s@.skip(s@.len() - 7) =~= e@);
    }
    true
}

/// The index of the first manifest name among `entries[i..]`, if any.
pub open spec fn first_manifest_from(entries: Seq<Seq<char>>, i: int) -> Option<int>
    decreases entries.len() - i,
{
    if i < 0 || i >= entries.len() {
        None
    } else if spec_is_manifest_name(entries[i]) {
        Some(i)
    } else {
        first_manifest_from(entries, i + 1)
    }
}

/// The first entry of the directory listing that names a manifest, if any.
pub fn find_manifest_entry(entries: &Vec<String>) -> (r: Option<usize>)
    ensures
        match r {
            Some(x) => first_manifest_from(entries.deep_view(), 0) == Some(x as int),
            None => first_manifest_from(entries.deep_view(), 0) is None,
        },
{
    let mut i: usize = 0;
    while i < entries.len()
        invariant
            i <= entries@.len(),
            first_manifest_from(entries.deep_view(), 0) == first_manifest_from(
                entries.deep_view(),
                i as int,
            ),
        decreases entries@.len() - i,
    {
        proof {
            assert(entries.deep_view()[i as int] == entries@[i as int]@);
        }
        if is_manifest_name(&entries[i]) {
            return Some(i);
        }
        i = i + 1;
    }
    None
}

/// What the upward search finds in the listings `ds[i..]` (one listing per
/// directory, the nearest first), within the depth bound: the first listing
/// that holds a manifest name, with the first such entry in it.
pub open spec fn search_from(ds: Seq<Seq<Seq<char>>>, max_depth: int, i: int) -> Option<(int, int)>
    decreases ds.len() - i,
{
    if i < 0 || i >= ds.len() || i >= max_depth {
        None
    } else {
        match first_manifest_from(ds[i], 0) {
            Some(e) => Some((i, e)),
            None => search_from(ds, max_depth, i + 1),
        }
    }
}

/// Finds the nearest manifest among the directory listings, walking away
/// from the start one listing at a time and inspecting at most `max_depth`
/// of them: the index of the first listing holding a manifest name, with
/// the index of the first such entry in it.
pub fn find_manifest_in_listings(listings: &Vec<Vec<String>>, max_depth: i32) -> (r: Option<
    (usize, usize),
>)
    ensures
        match r {
            Some(p) => search_from(listings.deep_view(), max_depth as int, 0) == Some(
                (p.0 as int, p.1 as int),
            ),
            None => search_from(listings.deep_view(), max_depth as int, 0) is None,
        },
{
    if max_depth <= 0 {
        return None;
    }
    let md = max_depth as usize;
    let mut i: usize = 0;
    while i < listings.len() && i < md
        invariant
            i <= listings@.len(),
            md == max_depth as int,
            0 < max_depth,
            search_from(listings.deep_view(), max_depth as int, 0) == search_from(
                listings.deep_view(),
                max_depth as int,
                i as int,
            ),
        decreases listings@.len() - i,
    {
        proof {
            assert(listings.deep_view()[i as int] == listings@[i as int].deep_view());
        }
        match find_manifest_entry(&listings[i]) {
            Some(e) => {
                return Some((i, e));
            },
            None => {},
        }
        i = i + 1;
    }
    None
}

/// Where the final path component of `s` begins and ends: the component is
/// what follows the last separator once trailing separators are trimmed.
pub open spec fn trim_end_seps(s: Seq<char>) -> Seq<char>
    decreases s.len(),
{
    if s.len() > 0 && s.last() == '/' {
        trim_end_seps(s.drop_last())
    } else {
        s
    }
}

/// The index just after the last separator of `s`, or zero with none.
pub open spec fn last_sep_end(s: Seq<char>) -> int
    decreases s.len(),
{
    if s.len() == 0 {
        0
    } else if s.last() == '/' {
        s.len() as int
    } else {
        last_sep_end(s.drop_last())
    }
}

/// The index of the last `.` of `s`, or minus one with none.
pub open spec fn last_dot_in(s: Seq<char>) -> int
    decreases s.len(),
{
    if s.len() == 0 {
        -1
    } else if s.last() == '.' {
        s.len() - 1
    } else {
        last_dot_in(s.drop_last())
    }
}

/// A component's stem: everything before its last `.`, except that a dot
/// only at the front (a hidden file) belongs to the stem.
pub open spec fn spec_stem_of_component(c: Seq<char>) -> Seq<char> {
    let d = last_dot_in(c);
    if d <= 0 {
        c
    } else {
        c.take(d)
    }
}

/// The stem of the path's final component: the component after the last
/// separator, trailing separators trimmed, with its extension removed.
/// There is none when the path is empty, all separators, or ends in the
/// current or parent directory.
pub open spec fn spec_file_stem(s: Seq<char>) -> Option<Seq<char>> {
    let t = trim_end_seps(s);
    if t.len() == 0 {
        None
    } else {
        let c = t.skip(last_sep_end(t));
        if c == "."@ || c == ".."@ {
            None
        } else {
            Some(spec_stem_of_component(c))
        }
    }
}

/// The bare name of the file the path points at: its final component with
/// the extension removed, when the path has a file-name component.
pub fn get_file_name(file_path: &str) -> (r: Option<String>)
    ensures
        match r {
            Some(s) => spec_file_stem(file_path@) == Some(s@),
            None => spec_file_stem(file_path@) is None,
        },
{
    let v = chars_vec(file_path);
    let mut e = v.len();
    proof {
        assert(v@.take(v@.len() as int) =~= v@);
    }
    while e > 0 && v[e - 1] == '/'
        invariant
            e <= v@.len(),
            v@ == file_path@,
            trim_end_seps(v@) == trim_end_seps(v@.take(e as int)),
        decreases e,
    {
        proof {
            assert(v@.take(e as int).drop_last() =~= v@.take((e - 1) as int));
        }
        e = e - 1;
    }
    proof {
        assert(v@.take(v@.len() as int) =~= v@);
        if e > 0 {
            assert(trim_end_seps(v@.take(e as int)) == v@.take(e as int));
        }
    }
    if e == 0 {
        return None;
    }
    let ghost t: Seq<char> = v@.take(e as int);
    let mut b = e;
    while b > 0 && v[b - 1] != '/'
        invariant
            b <= e <= v@.len(),
            v@ == file_path@,
            t == v@.take(e as int),
            last_sep_end(t) == last_sep_end(v@.take(b as int)),
        decreases b,
    {
        proof {
            assert(v@.take(b as int).drop_last() =~= v@.take((b - 1) as int));
        }
        b = b - 1;
    }
    proof {
        if b > 0 {
            assert(last_sep_end(v@.take(b as int)) == b);
        }
        assert(last_sep_end(t) == b);
    }
    let ghost comp: Seq<char> = t.skip(b as int);
    proof {
        assert(comp =~= v@.subrange(b as int, e as int));
        reveal_strlit(".");
        reveal_strlit("..");
    }
    if e - b == 1 && v[b] == '.' {
        proof {
            assert(comp =~= "."@);
        }
        return None;
    }
    if e - b == 2 && v[b] == '.' && v[b + 1] == '.' {
        proof {
            assert(comp =~= ".."@);
        }
        return None;
    }
    proof {
        assert(comp != "."@ && comp != ".."@) by {
            if comp == "."@ {
                assert(comp.len() == 1 && comp[0] == '.');
            }
            if comp == ".."@ {
                assert(comp.len() == 2 && comp[0] == '.' && comp[1] == '.');
            }
        }
    }
    let mut d = e;
    proof {
        assert(comp.take((e - b) as int) =~= comp);
    }
    while d > b && v[d - 1] != '.'
        invariant
            b <= d <= e <= v@.len(),
            v@ == file_path@,
            comp == v@.subrange(b as int, e as int),
            last_dot_in(comp) == last_dot_in(comp.take((d - b) as int)),
        decreases d,
    {
        proof {
            assert(comp.take((d - b) as int).drop_last() =~= comp.take((d - 1 - b) as int));
        }
        d = d - 1;
    }
    let stem_end = if d == b {
        // No dot: the whole component is the stem.
        e
    } else if d == b + 1 {
        // A dot only at the front: the whole component is the stem.
        e
    } else {
        d - 1
    };
    proof {
        if d == b {
            assert(last_dot_in(comp.take(0)) == -1);
        } else {
            assert(comp.take((d - b) as int).last() == v@[(d - 1) as int]);
            assert(last_dot_in(comp.take((d - b) as int)) == d - 1 - b);
        }
        assert(spec_stem_of_component(comp) =~= v@.subrange(b as int, stem_end as int));
    }
    let mut unit: Vec<char> = Vec::new();
    push_range(&mut unit, &v, b, stem_end);
    proof {
        assert(unit@ =~= v@.subrange(b as int, stem_end as int));
    }
    Some(string_of_chars(&unit))
}

} // verus!
