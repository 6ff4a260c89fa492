//! What the file enumerator decides: which entries of a directory tree are
//! source files. Walking the tree itself is left to the caller.

use crate::text::str_eq;
use vstd::prelude::*;

verus! {

/// The file extension of the source files that are audited.
pub open spec fn source_extension() -> Seq<char> {
    "rs"@
}

/// Whether an entry is matched, given the extension of its file name: it is when
/// it has an extension and the extension is exactly `rs`. Nothing else about the
/// entry is looked at.
pub fn is_source_file(extension: Option<&str>) -> (matched: bool)
    ensures
        matched == (extension matches Some(e) && e@ == source_extension()),
{
    match extension {
        Some(e) => str_eq(e, "rs"),
        None => false,
    }
}

} // verus!
