use vstd::prelude::*;

use crate::text::spec_is_blank;

verus! {

/// One node of a parsed manifest document: an element, or one of the
/// other markup kinds, which edits carry through untouched.
#[derive(Debug)]
pub enum XmlNode {
    Element(XmlElem),
    Comment(String),
    CData(String),
    Text(String),
    Instruction(String, Option<String>),
}

/// An element of the manifest tree: a name, ordered attributes and
/// ordered children, plus the namespace data the document carried.
#[derive(Debug)]
pub struct XmlElem {
    pub prefix: Option<String>,
    pub namespace: Option<String>,
    pub namespaces: Option<Vec<(String, String)>>,
    pub name: String,
    pub attrs: Vec<(String, String)>,
    pub children: Vec<XmlNode>,
}

/// The element a node holds, meaningful only when the node is an element.
pub open spec fn node_elem(n: XmlNode) -> XmlElem {
    n->Element_0
}

/// Whether the node is an element with the given name.
pub open spec fn is_elem_named(n: XmlNode, name: Seq<char>) -> bool {
    n matches XmlNode::Element(e) && e.name@ == name
}

/// Whether the node is a top-level group element that may hold compile entries.
pub open spec fn is_item_group(n: XmlNode) -> bool {
    is_elem_named(n, "ItemGroup"@)
}

/// Whether the node is one compile entry.
pub open spec fn is_compile_node(n: XmlNode) -> bool {
    is_elem_named(n, "Compile"@)
}

/// The value of the first attribute named `key` among `attrs[i..]`.
pub open spec fn attr_value_from(attrs: Seq<(String, String)>, key: Seq<char>, i: int) -> Option<
    Seq<char>,
>
    decreases attrs.len() - i,
{
    if i < 0 || i >= attrs.len() {
        None
    } else if attrs[i].0@ == key {
        Some(attrs[i].1@)
    } else {
        attr_value_from(attrs, key, i + 1)
    }
}

/// The file the compile entry points at: its `Include` attribute, if any.
pub open spec fn compile_target(n: XmlNode) -> Option<Seq<char>> {
    attr_value_from(node_elem(n).attrs@, "Include"@, 0)
}

/// The targets of the compile entries among the group children `cs[i..]`,
/// in document order; `None` stands for an entry without a target.
pub open spec fn group_targets_from(cs: Seq<XmlNode>, i: int) -> Seq<Option<Seq<char>>>
    decreases cs.len() - i,
{
    if i < 0 || i >= cs.len() {
        Seq::empty()
    } else if is_compile_node(cs[i]) {
        seq![compile_target(cs[i])] + group_targets_from(cs, i + 1)
    } else {
        group_targets_from(cs, i + 1)
    }
}

/// The targets of all compile entries under the top-level groups among
/// `cs[i..]`, in document order.
pub open spec fn doc_targets_from(cs: Seq<XmlNode>, i: int) -> Seq<Option<Seq<char>>>
    decreases cs.len() - i,
{
    if i < 0 || i >= cs.len() {
        Seq::empty()
    } else if is_item_group(cs[i]) {
        group_targets_from(node_elem(cs[i]).children@, 0) + doc_targets_from(cs, i + 1)
    } else {
        doc_targets_from(cs, i + 1)
    }
}

/// The targets of all compile entries of the document, in document order.
pub open spec fn doc_targets(root: XmlElem) -> Seq<Option<Seq<char>>> {
    doc_targets_from(root.children@, 0)
}

/// The index of the first `.` in `s` at or after `i`, or the length if none.
pub open spec fn dot_split_from(s: Seq<char>, i: int) -> int
    decreases s.len() - i,
{
    if i < 0 || i >= s.len() {
        s.len() as int
    } else if s[i] == '.' {
        i
    } else {
        dot_split_from(s, i + 1)
    }
}

/// Whether the target value carries an extension (a `.` anywhere in it).
pub open spec fn has_extension(s: Seq<char>) -> bool {
    dot_split_from(s, 0) < s.len()
}

/// The target value with its extension stripped: everything before the first `.`.
pub open spec fn target_stem(s: Seq<char>) -> Seq<char> {
    s.take(dot_split_from(s, 0))
}

/// A target is good when it is present and carries an extension.
pub open spec fn target_ok(t: Option<Seq<char>>) -> bool {
    t is Some && has_extension(t->0)
}

/// The index of the first bad target among `ts[i..]`, if any.
pub open spec fn first_flaw_from(ts: Seq<Option<Seq<char>>>, i: int) -> Option<int>
    decreases ts.len() - i,
{
    if i < 0 || i >= ts.len() {
        None
    } else if !target_ok(ts[i]) {
        Some(i)
    } else {
        first_flaw_from(ts, i + 1)
    }
}

/// The stems of a flaw-free target list, in order.
pub open spec fn stems_of(ts: Seq<Option<Seq<char>>>) -> Seq<Seq<char>> {
    ts.map_values(|t: Option<Seq<char>>| target_stem(t->0))
}

/// Whether the group element holds at least one compile entry.
pub open spec fn group_has_compile(e: XmlElem) -> bool {
    exists|i: int| 0 <= i < e.children@.len() && is_compile_node(e.children@[i])
}

/// Whether the node is a group eligible for rewriting: a top-level group
/// element that already holds at least one compile entry.
pub open spec fn is_eligible_group(n: XmlNode) -> bool {
    is_item_group(n) && group_has_compile(node_elem(n))
}

/// The index of the first eligible group among `cs[i..]`, if any.
pub open spec fn first_eligible_from(cs: Seq<XmlNode>, i: int) -> Option<int>
    decreases cs.len() - i,
{
    if i < 0 || i >= cs.len() {
        None
    } else if is_eligible_group(cs[i]) {
        Some(i)
    } else {
        first_eligible_from(cs, i + 1)
    }
}

/// The index of the first compile entry among `cs[i..]`, or the length if none.
pub open spec fn first_compile_from(cs: Seq<XmlNode>, i: int) -> int
    decreases cs.len() - i,
{
    if i < 0 || i >= cs.len() {
        cs.len() as int
    } else if is_compile_node(cs[i]) {
        i
    } else {
        first_compile_from(cs, i + 1)
    }
}

/// The names of `ns[i..]` that are not blank, in order.
pub open spec fn keep_names_from(ns: Seq<Seq<char>>, i: int) -> Seq<Seq<char>>
    decreases ns.len() - i,
{
    if i < 0 || i >= ns.len() {
        Seq::empty()
    } else if spec_is_blank(ns[i]) {
        keep_names_from(ns, i + 1)
    } else {
        seq![ns[i]] + keep_names_from(ns, i + 1)
    }
}

/// The children among `cs[i..]` that are not compile entries, in order.
pub open spec fn non_compiles_from(cs: Seq<XmlNode>, i: int) -> Seq<XmlNode>
    decreases cs.len() - i,
{
    if i < 0 || i >= cs.len() {
        Seq::empty()
    } else if is_compile_node(cs[i]) {
        non_compiles_from(cs, i + 1)
    } else {
        seq![cs[i]] + non_compiles_from(cs, i + 1)
    }
}

/// What a freshly built compile entry for `name` looks like: a bare
/// element named `Compile` whose only attribute points at `name` with
/// the fixed extension appended.
pub open spec fn is_new_entry(n: XmlNode, name: Seq<char>) -> bool {
    &&& n matches XmlNode::Element(e)
    &&& e.prefix is None
    &&& e.namespace is None
    &&& e.namespaces is None
    &&& e.name@ == "Compile"@
    &&& e.attrs@.len() == 1
    &&& e.attrs@[0].0@ == "Include"@
    &&& e.attrs@[0].1@ == name + ".fs"@
    &&& e.children@.len() == 0
}

/// How an edited group relates to the group it came from: children before
/// the first compile entry are kept, the new entries stand where the old
/// ones began, in input order with blank names dropped, and the remaining
/// non-compile children follow in their old order.
pub open spec fn group_edited(old_g: XmlElem, names: Seq<Seq<char>>, new_g: XmlElem) -> bool {
    let fc = first_compile_from(old_g.children@, 0);
    let kept = keep_names_from(names, 0);
    &&& new_g.prefix == old_g.prefix
    &&& new_g.namespace == old_g.namespace
    &&& new_g.namespaces == old_g.namespaces
    &&& new_g.name == old_g.name
    &&& new_g.attrs == old_g.attrs
    &&& new_g.children@.len() == fc + kept.len() + non_compiles_from(old_g.children@, fc).len()
    &&& new_g.children@.take(fc) == old_g.children@.take(fc)
    &&& (forall|j: int| 0 <= j < kept.len() ==> is_new_entry(new_g.children@[fc + j], kept[j]))
    &&& new_g.children@.skip(fc + kept.len()) == non_compiles_from(old_g.children@, fc)
}

/// How the edited document relates to the one it came from: with no
/// eligible group the document is unchanged; otherwise exactly the first
/// eligible group is rewritten and every other child of the root is kept.
pub open spec fn tree_edited(old: XmlElem, names: Seq<Seq<char>>, new: XmlElem) -> bool {
    match first_eligible_from(old.children@, 0) {
        None => new == old,
        Some(g) => {
            &&& new.prefix == old.prefix
            &&& new.namespace == old.namespace
            &&& new.namespaces == old.namespaces
            &&& new.name == old.name
            &&& new.attrs == old.attrs
            &&& new.children@.len() == old.children@.len()
            &&& (forall|i: int|
                0 <= i < old.children@.len() && i != g ==> new.children@[i] == old.children@[i])
            &&& new.children@[g] is Element
            &&& group_edited(node_elem(old.children@[g]), names, node_elem(new.children@[g]))
        },
    }
}

} // verus!
