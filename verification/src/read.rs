use vstd::prelude::*;
use vstd::string::StrSliceExecFns;
use vstd::string::StringExecFns;

use crate::edit::elem_named;
use crate::error::Error;
use crate::text::chars_vec;
use crate::text::str_eq;
use crate::tree::XmlElem;
use crate::tree::XmlNode;
use crate::tree::attr_value_from;
use crate::tree::doc_targets;
use crate::tree::doc_targets_from;
use crate::tree::dot_split_from;
use crate::tree::first_flaw_from;
use crate::tree::group_targets_from;
use crate::tree::stems_of;
use crate::tree::target_stem;

verus! {

/// The message reported for a bad target: one the entry lacks, or one
/// without an extension.
pub open spec fn flaw_message(t: Option<Seq<char>>) -> Seq<char> {
    if t is None {
        "compile entry without a file attribute"@
    } else {
        "missing extension for "@ + t->0
    }
}

/// The value of the first attribute named `key`, if any.
fn attr_value(attrs: &Vec<(String, String)>, key: &str) -> (r: Option<String>)
    ensures
        match r {
            Some(v) => attr_value_from(attrs@, key@, 0) == Some(v@),
            None => attr_value_from(attrs@, key@, 0) is None,
        },
{
    let mut i: usize = 0;
    while i < attrs.len()
        invariant
            i <= attrs@.len(),
            attr_value_from(attrs@, key@, 0) == attr_value_from(attrs@, key@, i as int),
        decreases attrs@.len() - i,
    {
        if str_eq(attrs[i].0.as_str(), key) {
            return Some(attrs[i].1.clone());
        }
        i = i + 1;
    }
    None
}

/// The targets of all compile entries of the document, in document order,
/// as owned values.
fn collect_targets(root: &XmlElem) -> (r: Vec<Option<String>>)
    ensures
        r.deep_view() == doc_targets(*root),
{
    let mut out: Vec<Option<String>> = Vec::new();
    let mut i: usize = 0;
    while i < root.children.len()
        invariant
            i <= root.children@.len(),
            out.deep_view() + doc_targets_from(root.children@, i as int) == doc_targets(*root),
        decreases root.children@.len() - i,
    {
        if elem_named(&root.children[i], "ItemGroup") {
            match &root.children[i] {
                XmlNode::Element(e) => {
                    let mut j: usize = 0;
                    while j < e.children.len()
                        invariant
                            j <= e.children@.len(),
                            out.deep_view() + group_targets_from(e.children@, j as int)
                                + doc_targets_from(root.children@, i + 1 as int) == doc_targets(
                                *root,
                            ),
                        decreases e.children@.len() - j,
                    {
                        if elem_named(&e.children[j], "Compile") {
                            match &e.children[j] {
                                XmlNode::Element(ce) => {
                                    let ghost before: Seq<Option<Seq<char>>> = out.deep_view();
                                    let t = attr_value(&ce.attrs, "Include");
                                    out.push(t);
                                    proof {
                                        assert(out.deep_view() =~= before.push(t.deep_view()));
                                        assert(before.push(t.deep_view()) + group_targets_from(
                                            e.children@,
                                            j + 1 as int,
                                        ) =~= before + group_targets_from(e.children@, j as int));
                                    }
                                },
                                _ => {
                                    proof {
                                        assert(false);
                                    }
                                },
                            }
                        }
                        j = j + 1;
                    }
                },
                _ => {
                    proof {
                        assert(false);
                    }
                },
            }
        }
        i = i + 1;
    }
    proof {
        assert(out.deep_view() + doc_targets_from(root.children@, root.children@.len() as int)
            =~= out.deep_view());
    }
    out
}

/// Reads the compile entries the document declares: the target of every
/// compile entry under every top-level group, in document order, each
/// with its extension stripped. Fails on the first entry without a file
/// attribute or without an extension.
pub fn read_compile_entries(root: &XmlElem) -> (r: Result<Vec<String>, Error>)
    ensures
        ({
            let ts = doc_targets(*root);
            match r {
                Ok(names) => first_flaw_from(ts, 0) is None && names.deep_view() == stems_of(ts),
                Err(e) => {
                    &&& e matches Error::FileError(m)
                    &&& first_flaw_from(ts, 0) is Some
                    &&& m@ == flaw_message(ts[first_flaw_from(ts, 0)->0])
                },
            }
        }),
{
    let ts = collect_targets(root);
    let ghost tsv: Seq<Option<Seq<char>>> = ts.deep_view();
    let mut names: Vec<String> = Vec::new();
    let mut i: usize = 0;
    while i < ts.len()
        invariant
            i <= ts@.len(),
            tsv == ts.deep_view(),
            tsv.len() == ts@.len(),
            tsv == doc_targets(*root),
            first_flaw_from(tsv, 0) == first_flaw_from(tsv, i as int),
            names.deep_view() == stems_of(tsv.take(i as int)),
        decreases ts@.len() - i,
    {
        proof {
            assert(tsv[i as int] == ts@[i as int].deep_view());
        }
        match &ts[i] {
            Some(v) => {
                let vc = chars_vec(v.as_str());
                let mut d: usize = 0;
                while d < vc.len() && vc[d] != '.'
                    invariant
                        d <= vc@.len(),
                        vc@ == v@,
                        dot_split_from(v@, 0) == dot_split_from(v@, d as int),
                    decreases vc@.len() - d,
                {
                    d = d + 1;
                }
                if d == vc.len() {
                    let mut m = String::from_str("missing extension for ");
                    m.append(v.as_str());
                    return Err(Error::FileError(m));
                }
                let stem = v.as_str().substring_char(0, d).to_owned();
                names.push(stem);
                proof {
                    assert(stems_of(tsv.take(i + 1 as int)) =~= stems_of(
                        tsv.take(i as int),
                    ).push(target_stem(tsv[i as int]->0)));
                }
            },
            None => {
                return Err(
                    Error::FileError(String::from_str("compile entry without a file attribute")),
                );
            },
        }
        i = i + 1;
    }
    proof {
        assert(tsv.take(tsv.len() as int) =~= tsv);
    }
    Ok(names)
}

} // verus!
