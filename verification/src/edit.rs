use vstd::prelude::*;
use vstd::string::StringExecFns;

use crate::text::is_blank;
use crate::text::str_eq;
use crate::tree::XmlElem;
use crate::tree::XmlNode;
use crate::tree::first_compile_from;
use crate::tree::first_eligible_from;
use crate::tree::group_edited;
use crate::tree::group_has_compile;
use crate::tree::is_compile_node;
use crate::tree::is_elem_named;
use crate::tree::is_eligible_group;
use crate::tree::is_new_entry;
use crate::tree::keep_names_from;
use crate::tree::node_elem;
use crate::tree::non_compiles_from;
use crate::tree::tree_edited;

verus! {

/// Whether the node is an element carrying the given name.
pub(crate) fn elem_named(n: &XmlNode, name: &str) -> (r: bool)
    ensures
        r == is_elem_named(*n, name@),
{
    match n {
        XmlNode::Element(e) => str_eq(e.name.as_str(), name),
        _ => false,
    }
}

/// Whether the group element holds at least one compile entry.
fn has_compile_child(e: &XmlElem) -> (r: bool)
    ensures
        r == group_has_compile(*e),
{
    let mut i: usize = 0;
    while i < e.children.len()
        invariant
            i <= e.children@.len(),
            forall|j: int| 0 <= j < i ==> !is_compile_node(e.children@[j]),
        decreases e.children@.len() - i,
    {
        if elem_named(&e.children[i], "Compile") {
            return true;
        }
        i = i + 1;
    }
    false
}

/// The index of the first eligible group child, if one exists.
fn find_first_eligible(cs: &Vec<XmlNode>) -> (r: Option<usize>)
    ensures
        match r {
            Some(g) => first_eligible_from(cs@, 0) == Some(g as int),
            None => first_eligible_from(cs@, 0) is None,
        },
{
    let mut i: usize = 0;
    while i < cs.len()
        invariant
            i <= cs@.len(),
            first_eligible_from(cs@, 0) == first_eligible_from(cs@, i as int),
        decreases cs@.len() - i,
    {
        if elem_named(&cs[i], "ItemGroup") {
            let hc = match &cs[i] {
                XmlNode::Element(e) => has_compile_child(e),
                _ => false,
            };
            if hc {
                return Some(i);
            }
        }
        i = i + 1;
    }
    None
}

/// The index of the first compile entry among the children, or their
/// number when there is none.
fn find_first_compile(cs: &Vec<XmlNode>) -> (r: usize)
    ensures
        r == first_compile_from(cs@, 0),
{
    let mut i: usize = 0;
    while i < cs.len()
        invariant
            i <= cs@.len(),
            first_compile_from(cs@, 0) == first_compile_from(cs@, i as int),
        decreases cs@.len() - i,
    {
        if elem_named(&cs[i], "Compile") {
            return i;
        }
        i = i + 1;
    }
    i
}

/// A fresh compile entry pointing at `name` with the fixed extension appended.
fn make_entry(name: &String) -> (r: XmlNode)
    ensures
        is_new_entry(r, name@),
{
    let mut value = name.clone();
    value.append(".fs");
    let mut attrs: Vec<(String, String)> = Vec::new();
    attrs.push((String::from_str("Include"), value));
    XmlNode::Element(
        XmlElem {
            prefix: None,
            namespace: None,
            namespaces: None,
            name: String::from_str("Compile"),
            attrs,
            children: Vec::new(),
        },
    )
}

/// If some entry at or after `w` is a compile entry, the first one is no
/// later than `w`.
pub(crate) proof fn lemma_first_compile_le(cs: Seq<XmlNode>, i: int, w: int)
    requires
        0 <= i <= w < cs.len(),
        is_compile_node(cs[w]),
    ensures
        first_compile_from(cs, i) <= w,
    decreases w - i,
{
    if i < w && !is_compile_node(cs[i]) {
        lemma_first_compile_le(cs, i + 1, w);
    }
}

/// The first-compile index stays within `[i, cs.len()]`.
pub(crate) proof fn lemma_first_compile_range(cs: Seq<XmlNode>, i: int)
    requires
        0 <= i <= cs.len(),
    ensures
        i <= first_compile_from(cs, i) <= cs.len(),
    decreases cs.len() - i,
{
    if i < cs.len() && !is_compile_node(cs[i]) {
        lemma_first_compile_range(cs, i + 1);
    }
}

/// A found first-eligible index is in range and eligible.
pub(crate) proof fn lemma_first_eligible_found(cs: Seq<XmlNode>, i: int)
    requires
        0 <= i,
        first_eligible_from(cs, i) is Some,
    ensures
        i <= first_eligible_from(cs, i)->0 < cs.len(),
        is_eligible_group(cs[first_eligible_from(cs, i)->0]),
    decreases cs.len() - i,
{
    if i < cs.len() && !is_eligible_group(cs[i]) {
        lemma_first_eligible_found(cs, i + 1);
    }
}

/// Rewrites one group that already holds compile entries: the children up
/// to the first compile entry stay, the new entries follow in input order
/// with blank names dropped, and the remaining non-compile children keep
/// their order behind them.
fn replace_in_group(g: XmlElem, names: &Vec<String>) -> (r: XmlElem)
    requires
        group_has_compile(g),
    ensures
        group_edited(g, names.deep_view(), r),
{
    let XmlElem { prefix, namespace, namespaces, name, attrs, children } = g;
    let ghost orig: Seq<XmlNode> = children@;
    let mut cs_rest = children;
    let total: usize = cs_rest.len();
    let fc = find_first_compile(&cs_rest);
    proof {
        let w = choose|w: int| 0 <= w < orig.len() && is_compile_node(orig[w]);
        lemma_first_compile_le(orig, 0, w);
        lemma_first_compile_range(orig, 0);
    }
    let mut out: Vec<XmlNode> = Vec::new();
    let mut k: usize = 0;
    while k < fc
        invariant
            k <= fc,
            fc == first_compile_from(orig, 0),
            fc <= orig.len(),
            cs_rest@ == orig.skip(k as int),
            out@ == orig.take(k as int),
        decreases fc - k,
    {
        let n = cs_rest.remove(0);
        proof {
            assert(n == orig[k as int]);
            assert(orig.skip(k as int).remove(0) =~= orig.skip((k + 1) as int));
            assert(orig.take(k as int).push(orig[k as int]) =~= orig.take((k + 1) as int));
        }
        out.push(n);
        k = k + 1;
    }
    let ghost ndv: Seq<Seq<char>> = names.deep_view();
    let ghost kept: Seq<Seq<char>> = keep_names_from(ndv, 0);
    let ghost mut done: Seq<Seq<char>> = Seq::empty();
    let mut j: usize = 0;
    while j < names.len()
        invariant
            j <= names@.len(),
            ndv == names.deep_view(),
            ndv.len() == names@.len(),
            kept == keep_names_from(ndv, 0),
            kept == done + keep_names_from(ndv, j as int),
            fc == first_compile_from(orig, 0),
            fc <= orig.len(),
            out@.len() == fc + done.len(),
            out@.take(fc as int) == orig.take(fc as int),
            forall|m: int| 0 <= m < done.len() ==> is_new_entry(out@[fc + m], done[m]),
            cs_rest@ == orig.skip(fc as int),
        decreases names@.len() - j,
    {
        proof {
            assert(ndv[j as int] == names@[j as int]@);
        }
        if !is_blank(&names[j]) {
            let entry = make_entry(&names[j]);
            out.push(entry);
            proof {
                done = done.push(ndv[j as int]);
                assert(keep_names_from(ndv, j as int) =~= seq![ndv[j as int]] + keep_names_from(
                    ndv,
                    (j + 1) as int,
                ));
                assert(kept =~= done + keep_names_from(ndv, (j + 1) as int));
                assert(out@.take(fc as int) =~= orig.take(fc as int));
            }
        }
        j = j + 1;
    }
    proof {
        assert(kept =~= done);
    }
    let ghost base: Seq<XmlNode> = out@;
    let ghost nc_full: Seq<XmlNode> = non_compiles_from(orig, fc as int);
    let ghost mut ncd: Seq<XmlNode> = Seq::empty();
    let mut k2: usize = fc;
    while cs_rest.len() > 0
        invariant
            fc <= k2 <= orig.len(),
            orig.len() == total as int,
            fc == first_compile_from(orig, 0),
            cs_rest@ == orig.skip(k2 as int),
            out@ == base + ncd,
            nc_full == ncd + non_compiles_from(orig, k2 as int),
        decreases cs_rest@.len(),
    {
        proof {
            assert(orig.skip(k2 as int).len() == orig.len() - k2);
        }
        let n = cs_rest.remove(0);
        let ghost gn: XmlNode = n;
        proof {
            assert(n == orig[k2 as int]);
            assert(orig.skip(k2 as int).remove(0) =~= orig.skip((k2 + 1) as int));
        }
        if !elem_named(&n, "Compile") {
            out.push(n);
            proof {
                ncd = ncd.push(gn);
                assert(non_compiles_from(orig, k2 as int) =~= seq![orig[k2 as int]]
                    + non_compiles_from(orig, (k2 + 1) as int));
                assert(nc_full =~= ncd + non_compiles_from(orig, (k2 + 1) as int));
                assert(out@ =~= base + ncd);
            }
        }
        k2 = k2 + 1;
    }
    proof {
        assert(orig.skip(k2 as int).len() == orig.len() - k2);
        assert(k2 == orig.len());
        assert(nc_full =~= ncd);
    }
    let result = XmlElem { prefix, namespace, namespaces, name, attrs, children: out };
    proof {
        assert(result.children@.take(fc as int) =~= base.take(fc as int));
        assert(base.take(fc as int) =~= orig.take(fc as int));
        assert(forall|m: int|
            0 <= m < kept.len() ==> result.children@[fc + m] == #[trigger] base[fc + m]);
        assert(result.children@.skip(fc + kept.len()) =~= ncd);
    }
    result
}

/// Replaces the compile entries of the first eligible group with entries
/// built from `names`; with no eligible group the document is unchanged.
pub fn with_compile_entries(root: XmlElem, names: &Vec<String>) -> (r: XmlElem)
    ensures
        tree_edited(root, names.deep_view(), r),
{
    let gi = find_first_eligible(&root.children);
    match gi {
        None => root,
        Some(g) => {
            proof {
                lemma_first_eligible_found(root.children@, 0);
            }
            let mut doc = root;
            let node = doc.children.remove(g);
            match node {
                XmlNode::Element(ge) => {
                    proof {
                        assert(group_has_compile(ge));
                    }
                    let ng = replace_in_group(ge, names);
                    doc.children.insert(g, XmlNode::Element(ng));
                    proof {
                        assert(doc.children@.len() == root.children@.len());
                        assert(forall|i: int|
                            0 <= i < root.children@.len() && i != g ==> doc.children@[i]
                                == root.children@[i]);
                        assert(node_elem(root.children@[g as int]) == ge);
                    }
                    doc
                },
                _ => {
                    proof {
                        assert(false);
                    }
                    doc
                },
            }
        },
    }
}

} // verus!
