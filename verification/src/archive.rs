//! Walking the members of a tar archive.
//!
//! The archive is parsed by the tar crate; the library models an archive
//! held in a byte buffer as the sequence of its members, in stored order,
//! each with its header path — when that path is valid text — and its byte
//! content.  Member selection against the configured name filters is the
//! library's own, verified logic.

use crate::errors::ScanError;
use crate::split::chars_eq;
use crate::text::chars_of;
use vstd::prelude::*;

verus! {

/// One member of a tar archive: its stored path, when that path is valid
/// text, and its byte content.
pub struct TarMember {
    /// The member's stored path; nothing when it is not valid text.
    pub name: Option<String>,
    /// The member's bytes.
    pub data: Vec<u8>,
}

impl View for TarMember {
    type V = (Option<Seq<char>>, Seq<u8>);

    open spec fn view(&self) -> Self::V {
        (self.name.deep_view(), self.data@)
    }
}

impl DeepView for TarMember {
    type V = (Option<Seq<char>>, Seq<u8>);

    open spec fn deep_view(&self) -> Self::V {
        self@
    }
}

/// The members of the tar archive held in `b` that precede any corruption —
/// their stored order, paths and contents — and whether the archive is
/// well-formed to its end.  Relied upon by [`tar_members`].
pub uninterp spec fn tar_members_of(b: Seq<u8>) -> (Seq<(Option<Seq<char>>, Seq<u8>)>, bool);

/// Relies on tar's Archive: the members of an archive held wholly in a byte
/// buffer, their stored order, their header paths and their contents depend
/// on the buffer alone; a corrupt archive yields the well-formed members
/// that precede the corruption, beside the error.
#[verifier::external_body]
pub fn tar_members(b: &Vec<u8>) -> (r: (Vec<TarMember>, Option<ScanError>))
    ensures
        r.0.deep_view() == tar_members_of(b@).0,
        r.1 is None <==> tar_members_of(b@).1,
        r.1 matches Some(e) ==> e == ScanError::Archive,
{
    let mut archive = tar::Archive::new(&b[..]);
    let mut out = Vec::new();
    let Ok(entries) = archive.entries() else { return (out, Some(ScanError::Archive)) };
    for entry in entries {
        let Ok(mut entry) = entry else { return (out, Some(ScanError::Archive)) };
        let name = std::str::from_utf8(&entry.header().path_bytes()).ok().map(|s| s.to_string());
        let mut data = Vec::new();
        if std::io::Read::read_to_end(&mut entry, &mut data).is_err() {
            return (out, Some(ScanError::Archive));
        }
        out.push(TarMember { name, data });
    }
    (out, None)
}

/// Whether a member takes part in the run: an empty filter list admits every
/// member, a non-empty one admits exactly the members whose path equals one
/// of its entries, and a member without a textual path is never admitted.
pub open spec fn member_selected(name: Option<Seq<char>>, filters: Seq<Seq<char>>) -> bool {
    match name {
        Some(n) => filters.len() == 0 || filters.contains(n),
        None => false,
    }
}

/// Whether `filters` holds a string with exactly the characters of `n`.
fn contains_name(filters: &Vec<String>, n: &Vec<char>) -> (r: bool)
    ensures
        r == filters.deep_view().contains(n@),
{
    let mut k: usize = 0;
    while k < filters.len()
        invariant
            0 <= k <= filters.len(),
            forall|m: int| 0 <= m < k ==> filters.deep_view()[m] != n@,
        decreases filters.len() - k,
    {
        let f = chars_of(filters[k].as_str());
        if chars_eq(&f, n) {
            assert(filters.deep_view()[k as int] == n@);
            return true;
        }
        k = k + 1;
    }
    assert(!filters.deep_view().contains(n@));
    false
}

/// Whether the member named `name` takes part in the run.
pub fn member_wanted(name: &Option<String>, filters: &Vec<String>) -> (r: bool)
    ensures
        r == member_selected(name.deep_view(), filters.deep_view()),
{
    match name {
        Some(n) => {
            if filters.len() == 0 {
                true
            } else {
                let nc = chars_of(n.as_str());
                contains_name(filters, &nc)
            }
        },
        None => false,
    }
}

} // verus!
