//! Sections of the import editor.

use vstd::prelude::*;

verus! {

/// A collapsible section of an import report.
#[derive(Debug, Clone, Copy, PartialEq, Eq, Structural, Hash)]
pub enum ImportSection {
    Conflicts,
    Posts,
    Pages,
    Media,
    Taxonomy,
    Macros,
}

} // verus!
