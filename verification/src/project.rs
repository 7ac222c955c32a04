use vstd::prelude::*;
use vstd::string::StringExecFns;

use crate::edit::with_compile_entries;
use crate::error::Error;
use crate::indent::derive_from;
use crate::indent::derive_indent_chars;
use crate::lines::fix_chars;
use crate::lines::spec_fix;
use crate::read::flaw_message;
use crate::read::read_compile_entries;
use crate::text::chars_vec;
use crate::text::string_of_chars;
use crate::tree::XmlElem;
use crate::tree::doc_targets;
use crate::tree::first_flaw_from;
use crate::tree::stems_of;
use crate::tree::tree_edited;
use crate::xml_io::parse_content;
use crate::xml_io::parsed;
use crate::xml_io::render_tree;
use crate::xml_io::rendered;

verus! {

/// A manifest held in memory: its full text, and the indent unit to use
/// when re-serializing, when one is known.
#[derive(Debug, Clone)]
pub struct Project {
    pub content: String,
    pub indent_string: Option<String>,
}

/// A copy of an optional string, as a value.
fn clone_opt_string(o: &Option<String>) -> (r: Option<String>)
    ensures
        r == *o,
{
    match o {
        Some(s) => Some(s.clone()),
        None => None,
    }
}

impl Project {
    /// A manifest holding the given text, with no indent unit set.
    pub fn open(content: String) -> (r: Project)
        ensures
            r.content == content,
            r.indent_string is None,
    {
        Project { content, indent_string: None }
    }

    /// A manifest holding the given text, with the indent unit supplied.
    pub fn open_with_indent(content: String, indent_string: String) -> (r: Project)
        ensures
            r.content == content,
            r.indent_string == Some(indent_string),
    {
        Project { content, indent_string: Some(indent_string) }
    }

    /// Sets the indent unit used when re-serializing.
    pub fn set_indent_string(&mut self, indent_string: String)
        ensures
            final(self).content == old(self).content,
            final(self).indent_string == Some(indent_string),
    {
        self.indent_string = Some(indent_string);
    }

    /// The indent unit the serializer will use: the stored one, or two
    /// spaces by default.
    pub open spec fn spec_indent_unit(self) -> Seq<char> {
        match self.indent_string {
            Some(s) => s@,
            None => "  "@,
        }
    }

    /// The indent unit as a value.
    fn indent_unit(&self) -> (r: String)
        ensures
            r@ == self.spec_indent_unit(),
    {
        match &self.indent_string {
            Some(s) => s.clone(),
            None => String::from_str("  "),
        }
    }

    /// Derives the indent unit from the text: the first line beginning
    /// with a space or a tab gives the maximal run of that character at
    /// its start; nothing when no line begins with whitespace.
    pub fn derive_indent(&self) -> (r: Option<String>)
        ensures
            match r {
                Some(s) => derive_from(self.content@, 0) == Some(s@),
                None => derive_from(self.content@, 0) is None,
            },
    {
        let v = chars_vec(self.content.as_str());
        derive_indent_chars(&v)
    }

    /// Reconciles this manifest's text against the original's: the first
    /// line and the trailing-line-feed presence come from the original,
    /// everything else from this text; empty when either text is empty.
    /// The indent unit is kept.
    pub fn fix_start_and_end(&self, original: &Project) -> (r: Result<Project, Error>)
        ensures
            match r {
                Ok(p) => {
                    &&& p.content@ == spec_fix(self.content@, original.content@)
                    &&& p.indent_string == self.indent_string
                },
                Err(_) => false,
            },
    {
        let fresh = chars_vec(self.content.as_str());
        let orig = chars_vec(original.content.as_str());
        let fixed = fix_chars(&fresh, &orig);
        Ok(
            Project {
                content: string_of_chars(&fixed),
                indent_string: clone_opt_string(&self.indent_string),
            },
        )
    }

    /// Reads the ordered compile entries the manifest declares: every
    /// compile entry under every top-level group, in document order, each
    /// with its extension stripped. Fails when the text does not parse,
    /// and on the first entry without a file attribute or without an
    /// extension.
    pub fn get_files(&self) -> (r: Result<Vec<String>, Error>)
        ensures
            match r {
                Ok(names) => {
                    &&& parsed(self.content@) is Ok
                    &&& first_flaw_from(doc_targets(parsed(self.content@)->Ok_0), 0) is None
                    &&& names.deep_view() == stems_of(doc_targets(parsed(self.content@)->Ok_0))
                },
                Err(e) => match e {
                    Error::ParseError(m) => parsed(self.content@) is Err && m@
                        == "Failed to parse project: "@ + parsed(self.content@)->Err_0,
                    Error::FileError(m) => {
                        &&& parsed(self.content@) is Ok
                        &&& first_flaw_from(doc_targets(parsed(self.content@)->Ok_0), 0) is Some
                        &&& m@ == flaw_message(
                            doc_targets(parsed(self.content@)->Ok_0)[first_flaw_from(
                                doc_targets(parsed(self.content@)->Ok_0),
                                0,
                            )->0],
                        )
                    },
                    _ => false,
                },
            },
    {
        match parse_content(self.content.as_str()) {
            Ok(root) => read_compile_entries(&root),
            Err(m) => {
                let mut msg = String::from_str("Failed to parse project: ");
                msg.append(m.as_str());
                Err(Error::ParseError(msg))
            },
        }
    }

    /// Rewrites the compile entries: replaces the entries of the first
    /// eligible group with entries built from `file_names` (blank names
    /// dropped, input order kept; with no eligible group the structure is
    /// unchanged), re-serializes with the manifest's indent unit and a
    /// line-feed separator, and reconciles the result against this text.
    /// It succeeds exactly when the text parses and the serializer takes
    /// the edited tree. This manifest is never changed; a new one is
    /// returned.
    pub fn with_files(&self, file_names: &Vec<String>) -> (r: Result<Project, Error>)
        ensures
            match r {
                Ok(p) => {
                    &&& parsed(self.content@) is Ok
                    &&& p.indent_string == self.indent_string
                    &&& exists|t: XmlElem|
                        {
                            &&& #[trigger] tree_edited(
                                parsed(self.content@)->Ok_0,
                                file_names.deep_view(),
                                t,
                            )
                            &&& rendered(t, self.spec_indent_unit(), "\n"@) matches Some(s)
                            &&& p.content@ == spec_fix(s, self.content@)
                        }
                },
                Err(e) => match e {
                    Error::ParseError(m) => parsed(self.content@) is Err && m@
                        == "Failed to parse project: "@ + parsed(self.content@)->Err_0,
                    Error::FileError(_) => {
                        &&& parsed(self.content@) is Ok
                        &&& exists|t: XmlElem|
                            #[trigger] tree_edited(
                                parsed(self.content@)->Ok_0,
                                file_names.deep_view(),
                                t,
                            ) && rendered(t, self.spec_indent_unit(), "\n"@) is None
                    },
                    _ => false,
                },
            },
    {
        let root = match parse_content(self.content.as_str()) {
            Ok(root) => root,
            Err(m) => {
                let mut msg = String::from_str("Failed to parse project: ");
                msg.append(m.as_str());
                return Err(Error::ParseError(msg));
            },
        };
        let edited = with_compile_entries(root, file_names);
        let indent = self.indent_unit();
        let out = match render_tree(&edited, indent.as_str(), "\n") {
            Ok(s) => s,
            Err(m) => {
                proof {
                    assert(tree_edited(
                        parsed(self.content@)->Ok_0,
                        file_names.deep_view(),
                        edited,
                    ) && rendered(edited, self.spec_indent_unit(), "\n"@) is None);
                }
                return Err(Error::FileError(m));
            },
        };
        let fresh = Project { content: out, indent_string: clone_opt_string(&self.indent_string) };
        let fixed = fresh.fix_start_and_end(self);
        match fixed {
            Ok(p) => {
                proof {
                    assert({
                        &&& tree_edited(
                            parsed(self.content@)->Ok_0,
                            file_names.deep_view(),
                            edited,
                        )
                        &&& rendered(edited, self.spec_indent_unit(), "\n"@) matches Some(s)
                        &&& p.content@ == spec_fix(s, self.content@)
                    });
                }
                Ok(p)
            },
            Err(e) => Err(e),
        }
    }
}

} // verus!
