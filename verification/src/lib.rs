//! Tools for maintaining the ordered list of compile entries in an F#
//! project manifest (`.fsproj`): locating the nearest manifest above a
//! source file, reading the entry list, and rewriting it while keeping
//! the rest of the document's text as the author wrote it.

use vstd::prelude::*;

mod edit;
mod error;
mod indent;
mod laws;
mod lines;
mod locate;
mod project;
mod read;
mod text;
mod tree;
mod xml_io;

pub use edit::with_compile_entries;
pub use error::Error;
pub use laws::lemma_blank_filtering;
pub use laws::lemma_depth_bound;
pub use laws::lemma_keep_idempotent;
pub use laws::lemma_noop_edit;
pub use laws::lemma_order_preservation;
pub use laws::lemma_round_trip;
pub use laws::lemma_untouched_regions;
pub use locate::find_manifest_entry;
pub use locate::find_manifest_in_listings;
pub use locate::get_file_name;
pub use locate::is_manifest_name;
pub use project::Project;
pub use read::read_compile_entries;
pub use tree::XmlElem;
pub use tree::XmlNode;

verus! {

} // verus!
