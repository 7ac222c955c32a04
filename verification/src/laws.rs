use vstd::prelude::*;

use crate::edit::lemma_first_compile_le;
use crate::edit::lemma_first_compile_range;
use crate::edit::lemma_first_eligible_found;
use crate::locate::first_manifest_from;
use crate::locate::search_from;
use crate::text::spec_is_blank;
use crate::tree::XmlElem;
use crate::tree::XmlNode;
use crate::tree::attr_value_from;
use crate::tree::compile_target;
use crate::tree::doc_targets;
use crate::tree::doc_targets_from;
use crate::tree::dot_split_from;
use crate::tree::first_compile_from;
use crate::tree::first_eligible_from;
use crate::tree::first_flaw_from;
use crate::tree::group_has_compile;
use crate::tree::group_targets_from;
use crate::tree::has_extension;
use crate::tree::is_compile_node;
use crate::tree::is_item_group;
use crate::tree::is_new_entry;
use crate::tree::keep_names_from;
use crate::tree::node_elem;
use crate::tree::non_compiles_from;
use crate::tree::stems_of;
use crate::tree::target_ok;
use crate::tree::target_stem;
use crate::tree::tree_edited;

verus! {

/// A name list with nothing blank in it is kept whole.
pub(crate) proof fn lemma_keep_all(ns: Seq<Seq<char>>, i: int)
    requires
        0 <= i <= ns.len(),
        forall|j: int| i <= j < ns.len() ==> !spec_is_blank(ns[j]),
    ensures
        keep_names_from(ns, i) == ns.skip(i),
    decreases ns.len() - i,
{
    if i < ns.len() {
        lemma_keep_all(ns, i + 1);
        assert(seq![ns[i]] + ns.skip(i + 1) =~= ns.skip(i));
    } else {
        assert(keep_names_from(ns, i) =~= ns.skip(i));
    }
}

/// Nothing blank survives the filter.
pub(crate) proof fn lemma_keep_nonblank(ns: Seq<Seq<char>>, i: int)
    requires
        0 <= i,
    ensures
        forall|m: int|
            0 <= m < keep_names_from(ns, i).len() ==> !spec_is_blank(keep_names_from(ns, i)[m]),
    decreases ns.len() - i,
{
    if i < ns.len() {
        lemma_keep_nonblank(ns, i + 1);
        assert forall|m: int|
            0 <= m < keep_names_from(ns, i).len() implies !spec_is_blank(
            keep_names_from(ns, i)[m],
        ) by {
            if spec_is_blank(ns[i]) {
                assert(keep_names_from(ns, i) == keep_names_from(ns, i + 1));
                assert(!spec_is_blank(keep_names_from(ns, i + 1)[m]));
            } else if m > 0 {
                assert(keep_names_from(ns, i)[m] == keep_names_from(ns, i + 1)[m - 1]);
                assert(!spec_is_blank(keep_names_from(ns, i + 1)[m - 1]));
            } else {
                assert(keep_names_from(ns, i)[0] == ns[i]);
            }
        }
    } else {
        assert(keep_names_from(ns, i).len() == 0);
    }
}

/// Filtering the blank names out twice is the same as doing it once.
pub proof fn lemma_keep_idempotent(ns: Seq<Seq<char>>)
    ensures
        keep_names_from(keep_names_from(ns, 0), 0) == keep_names_from(ns, 0),
{
    lemma_keep_nonblank(ns, 0);
    lemma_keep_all(keep_names_from(ns, 0), 0);
    assert(keep_names_from(ns, 0).skip(0) =~= keep_names_from(ns, 0));
}

/// Blank filtering: an edit with the names as given and an edit with the
/// blank names already dropped call for one and the same result.
pub proof fn lemma_blank_filtering(t: XmlElem, names: Seq<Seq<char>>, u: XmlElem)
    ensures
        tree_edited(t, names, u) == tree_edited(t, keep_names_from(names, 0), u),
{
    lemma_keep_idempotent(names);
}

/// Untouched regions: an edit keeps the root's fields, every child of the
/// root outside the rewritten group, the rewritten group's own name and
/// attributes, its children up to where the compile entries began, and its
/// remaining non-compile children in their old order.
pub proof fn lemma_untouched_regions(t: XmlElem, names: Seq<Seq<char>>, u: XmlElem)
    requires
        tree_edited(t, names, u),
        first_eligible_from(t.children@, 0) is Some,
    ensures
        u.prefix == t.prefix && u.namespace == t.namespace && u.namespaces == t.namespaces
            && u.name == t.name && u.attrs == t.attrs,
        u.children@.len() == t.children@.len(),
        forall|i: int|
            0 <= i < t.children@.len() && i != first_eligible_from(t.children@, 0)->0
                ==> u.children@[i] == t.children@[i],
        ({
            let g = first_eligible_from(t.children@, 0)->0;
            let og = node_elem(t.children@[g]);
            let ng = node_elem(u.children@[g]);
            let fc = first_compile_from(og.children@, 0);
            &&& ng.prefix == og.prefix && ng.namespace == og.namespace && ng.namespaces
                == og.namespaces && ng.name == og.name && ng.attrs == og.attrs
            &&& ng.children@.take(fc) == og.children@.take(fc)
            &&& ng.children@.skip(fc + keep_names_from(names, 0).len()) == non_compiles_from(
                og.children@,
                fc,
            )
        }),
{
}

/// Within the depth bound, a search that has not yet reached `nearest`
/// walks on to it.
proof fn lemma_search_reaches(ds: Seq<Seq<Seq<char>>>, max_depth: int, i: int, nearest: int)
    requires
        0 <= i <= nearest < ds.len(),
        first_manifest_from(ds[nearest], 0) is Some,
        forall|j: int| 0 <= j < nearest ==> first_manifest_from(ds[j], 0) is None,
    ensures
        max_depth <= nearest ==> search_from(ds, max_depth, i) is None,
        max_depth > nearest ==> search_from(ds, max_depth, i) == Some(
            (nearest, first_manifest_from(ds[nearest], 0)->0),
        ),
    decreases nearest - i,
{
    if i < nearest && i < max_depth {
        lemma_search_reaches(ds, max_depth, i + 1, nearest);
    }
}

/// Depth-bounded search: with the nearest manifest in the listing at index
/// `nearest` (and in none before it), a depth bound at or under that index
/// finds nothing, and a larger bound finds exactly that listing's first
/// manifest entry.
pub proof fn lemma_depth_bound(ds: Seq<Seq<Seq<char>>>, max_depth: int, nearest: int)
    requires
        0 <= nearest < ds.len(),
        first_manifest_from(ds[nearest], 0) is Some,
        forall|j: int| 0 <= j < nearest ==> first_manifest_from(ds[j], 0) is None,
    ensures
        max_depth <= nearest ==> search_from(ds, max_depth, 0) is None,
        max_depth > nearest ==> search_from(ds, max_depth, 0) == Some(
            (nearest, first_manifest_from(ds[nearest], 0)->0),
        ),
{
    lemma_search_reaches(ds, max_depth, 0, nearest);
}

/// No entry before the first compile entry is one.
proof fn lemma_first_compile_none_before(cs: Seq<XmlNode>, i: int)
    requires
        0 <= i <= cs.len(),
    ensures
        forall|j: int| i <= j < first_compile_from(cs, i) ==> !is_compile_node(cs[j]),
    decreases cs.len() - i,
{
    if i < cs.len() && !is_compile_node(cs[i]) {
        lemma_first_compile_none_before(cs, i + 1);
    }
}

/// Children that are not compile entries yield no targets.
proof fn lemma_targets_none(cs: Seq<XmlNode>, i: int)
    requires
        0 <= i,
        forall|j: int| i <= j < cs.len() ==> !is_compile_node(cs[j]),
    ensures
        group_targets_from(cs, i) == Seq::<Option<Seq<char>>>::empty(),
    decreases cs.len() - i,
{
    if i < cs.len() {
        lemma_targets_none(cs, i + 1);
    }
}

/// Skipping non-compile children changes no targets.
proof fn lemma_targets_skip_prefix(cs: Seq<XmlNode>, i: int, a: int)
    requires
        0 <= i <= a <= cs.len(),
        forall|j: int| i <= j < a ==> !is_compile_node(cs[j]),
    ensures
        group_targets_from(cs, i) == group_targets_from(cs, a),
    decreases a - i,
{
    if i < a {
        lemma_targets_skip_prefix(cs, i + 1, a);
    }
}

/// A run of compile entries followed only by other children yields exactly
/// their targets, in order.
proof fn lemma_targets_run(cs: Seq<XmlNode>, a: int, k: int)
    requires
        0 <= a,
        0 <= k,
        a + k <= cs.len(),
        forall|j: int| a <= j < a + k ==> is_compile_node(cs[j]),
        forall|j: int| a + k <= j < cs.len() ==> !is_compile_node(cs[j]),
    ensures
        group_targets_from(cs, a).len() == k,
        forall|m: int| 0 <= m < k ==> group_targets_from(cs, a)[m] == compile_target(cs[a + m]),
    decreases k,
{
    if k == 0 {
        lemma_targets_none(cs, a);
    } else {
        lemma_targets_run(cs, a + 1, k - 1);
        assert forall|m: int|
            0 <= m < k implies group_targets_from(cs, a)[m] == compile_target(cs[a + m]) by {
            if m == 0 {
                assert(group_targets_from(cs, a)[0] == compile_target(cs[a]));
            } else {
                assert(group_targets_from(cs, a)[m] == group_targets_from(cs, a + 1)[m - 1]);
            }
        }
    }
}

/// Every child the non-compile filter keeps is not a compile entry.
proof fn lemma_non_compiles_all(cs: Seq<XmlNode>, i: int)
    requires
        0 <= i,
    ensures
        forall|m: int|
            0 <= m < non_compiles_from(cs, i).len() ==> !is_compile_node(
                non_compiles_from(cs, i)[m],
            ),
    decreases cs.len() - i,
{
    if i < cs.len() {
        lemma_non_compiles_all(cs, i + 1);
        assert forall|m: int|
            0 <= m < non_compiles_from(cs, i).len() implies !is_compile_node(
            non_compiles_from(cs, i)[m],
        ) by {
            if is_compile_node(cs[i]) {
                assert(non_compiles_from(cs, i) == non_compiles_from(cs, i + 1));
                assert(!is_compile_node(non_compiles_from(cs, i + 1)[m]));
            } else if m > 0 {
                assert(non_compiles_from(cs, i)[m] == non_compiles_from(cs, i + 1)[m - 1]);
                assert(!is_compile_node(non_compiles_from(cs, i + 1)[m - 1]));
            } else {
                assert(non_compiles_from(cs, i)[0] == cs[i]);
            }
        }
    } else {
        assert(non_compiles_from(cs, i).len() == 0);
    }
}

/// With no group at or after `i` holding a compile entry, there are no
/// targets.
proof fn lemma_doc_targets_empty(cs: Seq<XmlNode>, i: int)
    requires
        0 <= i,
        forall|j: int|
            i <= j < cs.len() && is_item_group(cs[j]) ==> !group_has_compile(node_elem(cs[j])),
    ensures
        doc_targets_from(cs, i) == Seq::<Option<Seq<char>>>::empty(),
    decreases cs.len() - i,
{
    if i < cs.len() {
        lemma_doc_targets_empty(cs, i + 1);
        if is_item_group(cs[i]) {
            lemma_targets_none(node_elem(cs[i]).children@, 0);
            assert(group_targets_from(node_elem(cs[i]).children@, 0) + doc_targets_from(cs, i + 1)
                =~= Seq::<Option<Seq<char>>>::empty());
        }
    }
}

/// With compile entries only in the group at `g`, the document's targets
/// are exactly that group's targets.
proof fn lemma_doc_single_group(cs: Seq<XmlNode>, i: int, g: int)
    requires
        0 <= i <= g < cs.len(),
        is_item_group(cs[g]),
        forall|j: int|
            i <= j < cs.len() && j != g && is_item_group(cs[j]) ==> !group_has_compile(
                node_elem(cs[j]),
            ),
    ensures
        doc_targets_from(cs, i) == group_targets_from(node_elem(cs[g]).children@, 0),
    decreases g - i,
{
    if i == g {
        lemma_doc_targets_empty(cs, g + 1);
        assert(group_targets_from(node_elem(cs[g]).children@, 0) + doc_targets_from(cs, g + 1)
            =~= group_targets_from(node_elem(cs[g]).children@, 0));
    } else {
        lemma_doc_single_group(cs, i + 1, g);
        if is_item_group(cs[i]) {
            lemma_targets_none(node_elem(cs[i]).children@, 0);
            assert(group_targets_from(node_elem(cs[i]).children@, 0) + doc_targets_from(cs, i + 1)
                =~= doc_targets_from(cs, i + 1));
        }
    }
}

/// The first-dot index stays in range, nothing before it is a dot, and it
/// points at a dot whenever it is not the length.
proof fn lemma_dot_split_range(s: Seq<char>, i: int)
    requires
        0 <= i <= s.len(),
    ensures
        i <= dot_split_from(s, i) <= s.len(),
        forall|j: int| i <= j < dot_split_from(s, i) ==> s[j] != '.',
        dot_split_from(s, i) < s.len() ==> s[dot_split_from(s, i)] == '.',
    decreases s.len() - i,
{
    if i < s.len() && s[i] != '.' {
        lemma_dot_split_range(s, i + 1);
    }
}

/// When everything before `p` is dot-free and `p` (if within the text)
/// holds a dot, the first dot sits at `p`.
proof fn lemma_dot_split_from_at(s: Seq<char>, i: int, p: int)
    requires
        0 <= i <= p <= s.len(),
        forall|j: int| i <= j < p ==> s[j] != '.',
        p < s.len() ==> s[p] == '.',
    ensures
        dot_split_from(s, i) == if p < s.len() {
            p
        } else {
            s.len() as int
        },
    decreases p - i,
{
    if i < p {
        lemma_dot_split_from_at(s, i + 1, p);
    }
}

/// A stem never carries an extension of its own.
proof fn lemma_stem_dotfree(s: Seq<char>)
    ensures
        !has_extension(target_stem(s)),
{
    lemma_dot_split_range(s, 0);
    let st = target_stem(s);
    assert(forall|j: int| 0 <= j < st.len() ==> st[j] == s[j]);
    lemma_dot_split_from_at(st, 0, st.len() as int);
}

/// Targets that are all good leave no flaw to report.
proof fn lemma_flaw_none(ts: Seq<Option<Seq<char>>>, i: int)
    requires
        0 <= i,
        forall|j: int| i <= j < ts.len() ==> target_ok(ts[j]),
    ensures
        first_flaw_from(ts, i) is None,
    decreases ts.len() - i,
{
    if i < ts.len() {
        lemma_flaw_none(ts, i + 1);
    }
}

/// Round trip: writing names that are not blank and carry no dot into a
/// document whose compile entries all sit in its first eligible group,
/// then reading the result, yields exactly those names, in that order.
pub proof fn lemma_round_trip(t: XmlElem, names: Seq<Seq<char>>, u: XmlElem)
    requires
        tree_edited(t, names, u),
        first_eligible_from(t.children@, 0) is Some,
        forall|i: int| 0 <= i < names.len() ==> !spec_is_blank(names[i]),
        forall|i: int| 0 <= i < names.len() ==> !has_extension(names[i]),
        forall|j: int|
            0 <= j < t.children@.len() && j != first_eligible_from(t.children@, 0)->0
                && is_item_group(t.children@[j]) ==> !group_has_compile(node_elem(t.children@[j])),
    ensures
        first_flaw_from(doc_targets(u), 0) is None,
        stems_of(doc_targets(u)) == names,
{
    lemma_first_eligible_found(t.children@, 0);
    let g = first_eligible_from(t.children@, 0)->0;
    let og = node_elem(t.children@[g]);
    let ng = node_elem(u.children@[g]);
    let fc = first_compile_from(og.children@, 0);
    let kept = keep_names_from(names, 0);
    lemma_keep_all(names, 0);
    assert(names.skip(0) =~= names);
    lemma_first_compile_range(og.children@, 0);
    let w = choose|w: int| 0 <= w < og.children@.len() && is_compile_node(og.children@[w]);
    lemma_first_compile_le(og.children@, 0, w);
    lemma_first_compile_none_before(og.children@, 0);
    assert forall|j: int| 0 <= j < fc implies !is_compile_node(ng.children@[j]) by {
        assert(ng.children@.take(fc)[j] == ng.children@[j]);
        assert(og.children@.take(fc)[j] == og.children@[j]);
    }
    let nc = non_compiles_from(og.children@, fc);
    lemma_non_compiles_all(og.children@, fc);
    assert forall|j: int| fc <= j < fc + kept.len() implies is_compile_node(ng.children@[j]) by {
        assert(is_new_entry(ng.children@[j], kept[j - fc]));
    }
    assert forall|j: int|
        fc + kept.len() <= j < ng.children@.len() implies !is_compile_node(ng.children@[j]) by {
        assert(ng.children@.skip(fc + kept.len())[j - (fc + kept.len())] == ng.children@[j]);
        assert(nc[j - (fc + kept.len())] == ng.children@[j]);
    }
    lemma_targets_skip_prefix(ng.children@, 0, fc);
    lemma_targets_run(ng.children@, fc, kept.len() as int);
    assert forall|m: int|
        0 <= m < kept.len() implies compile_target(ng.children@[fc + m]) == Some(
        names[m] + ".fs"@,
    ) by {
        assert(is_new_entry(ng.children@[fc + m], kept[m]));
        let e = node_elem(ng.children@[fc + m]);
        assert(attr_value_from(e.attrs@, "Include"@, 0) == Some(e.attrs@[0].1@));
    }
    lemma_doc_single_group(u.children@, 0, g);
    let dt = doc_targets(u);
    assert(dt.len() == kept.len());
    proof_strlit_fs();
    assert forall|m: int| 0 <= m < dt.len() implies target_ok(dt[m]) by {
        assert(dt[m] == compile_target(ng.children@[fc + m]));
        assert(dt[m] == Some(names[m] + ".fs"@));
        let s = names[m] + ".fs"@;
        lemma_dot_split_range(names[m], 0);
        assert(forall|j: int| 0 <= j < names[m].len() ==> s[j] == names[m][j]);
        assert(s[names[m].len() as int] == '.');
        lemma_dot_split_from_at(s, 0, names[m].len() as int);
    }
    assert forall|m: int| 0 <= m < dt.len() implies target_stem(dt[m]->0) == names[m] by {
        assert(dt[m] == compile_target(ng.children@[fc + m]));
        assert(dt[m] == Some(names[m] + ".fs"@));
        let s = names[m] + ".fs"@;
        lemma_dot_split_range(names[m], 0);
        assert(forall|j: int| 0 <= j < names[m].len() ==> s[j] == names[m][j]);
        assert(s[names[m].len() as int] == '.');
        lemma_dot_split_from_at(s, 0, names[m].len() as int);
        assert(s.take(names[m].len() as int) =~= names[m]);
    }
    lemma_flaw_none(dt, 0);
    assert(stems_of(dt) =~= names);
}

/// The extension the writer appends begins with a dot and has three
/// characters.
proof fn proof_strlit_fs()
    ensures
        ".fs"@.len() == 3,
        ".fs"@[0] == '.',
{
    reveal_strlit(".fs");
}

/// With no eligible group anywhere, the document declares no targets.
proof fn lemma_no_eligible_no_targets(cs: Seq<XmlNode>, i: int)
    requires
        0 <= i,
        first_eligible_from(cs, i) is None,
    ensures
        doc_targets_from(cs, i) == Seq::<Option<Seq<char>>>::empty(),
    decreases cs.len() - i,
{
    if i < cs.len() {
        lemma_no_eligible_no_targets(cs, i + 1);
        if is_item_group(cs[i]) {
            lemma_targets_none(node_elem(cs[i]).children@, 0);
            assert(group_targets_from(node_elem(cs[i]).children@, 0) + doc_targets_from(cs, i + 1)
                =~= Seq::<Option<Seq<char>>>::empty());
        }
    }
}

/// A no-op edit: writing back exactly the names the document declares
/// gives a document declaring the same names, provided the declared names
/// read without a flaw, none of them is blank, and the compile entries all
/// sit in the first eligible group.
pub proof fn lemma_noop_edit(t: XmlElem, u: XmlElem)
    requires
        tree_edited(t, stems_of(doc_targets(t)), u),
        first_flaw_from(doc_targets(t), 0) is None,
        forall|m: int|
            0 <= m < doc_targets(t).len() ==> !spec_is_blank(stems_of(doc_targets(t))[m]),
        forall|j: int|
            0 <= j < t.children@.len() && Some(j) != first_eligible_from(t.children@, 0)
                && is_item_group(t.children@[j]) ==> !group_has_compile(node_elem(t.children@[j])),
    ensures
        first_flaw_from(doc_targets(u), 0) is None,
        stems_of(doc_targets(u)) == stems_of(doc_targets(t)),
{
    let names = stems_of(doc_targets(t));
    if first_eligible_from(t.children@, 0) is Some {
        assert forall|i: int| 0 <= i < names.len() implies !has_extension(names[i]) by {
            assert(names[i] == target_stem(doc_targets(t)[i]->0));
            lemma_stem_dotfree(doc_targets(t)[i]->0);
        }
        lemma_round_trip(t, names, u);
    } else {
        lemma_no_eligible_no_targets(t.children@, 0);
        assert(u == t);
    }
}


/// Order preservation: the compile entries an edit writes stand exactly in
/// the input's order once blank names are dropped, whatever that order is.
pub proof fn lemma_order_preservation(t: XmlElem, names: Seq<Seq<char>>, u: XmlElem)
    requires
        tree_edited(t, names, u),
        first_eligible_from(t.children@, 0) is Some,
    ensures
        ({
            let g = first_eligible_from(t.children@, 0)->0;
            let og = node_elem(t.children@[g]);
            let ng = node_elem(u.children@[g]);
            let fc = first_compile_from(og.children@, 0);
            let kept = keep_names_from(names, 0);
            forall|j: int| 0 <= j < kept.len() ==> is_new_entry(ng.children@[fc + j], kept[j])
        }),
{
}

} // verus!
