//! The conflict detector: would installing a candidate package collide with
//! an existing package (by id) or an existing filesystem entry (by path)?
//!
//! Id collisions are checked first: they are the more meaningful conflict —
//! the same logical package, possibly at a different path — and must be
//! surfaced even when the literal destination path differs.

use vstd::prelude::*;

verus! {

/// What an incoming package collides with, threaded unchanged through the
/// suspend/resume cycle so the resume step knows exactly what to remove.
pub enum ConflictIdentity {
    /// An existing package with the same id.
    ById(String),
    /// An existing filesystem entry at the destination path.
    ByPath(String),
}

/// The mathematical content of a `ConflictIdentity`.
pub enum ConflictV {
    ById(Seq<char>),
    ByPath(Seq<char>),
}

impl View for ConflictIdentity {
    type V = ConflictV;

    open spec fn view(&self) -> ConflictV {
        match self {
            ConflictIdentity::ById(id) => ConflictV::ById(id@),
            ConflictIdentity::ByPath(p) => ConflictV::ByPath(p@),
        }
    }
}

impl Clone for ConflictIdentity {
    fn clone(&self) -> (r: Self)
        ensures
            r@ == self@,
    {
        match self {
            ConflictIdentity::ById(id) => ConflictIdentity::ById(id.clone()),
            ConflictIdentity::ByPath(p) => ConflictIdentity::ByPath(p.clone()),
        }
    }
}

/// The conflict an install of `id` into `dest` meets: the id when the
/// registry already knows it, else the path when something already sits at
/// `dest`, else none.
pub open spec fn spec_check_conflict(
    id: Seq<char>,
    known: Seq<Seq<char>>,
    dest: Seq<char>,
    dest_exists: bool,
) -> Option<ConflictV> {
    if known.contains(id) {
        Some(ConflictV::ById(id))
    } else if dest_exists {
        Some(ConflictV::ByPath(dest))
    } else {
        None
    }
}

/// Detects a conflict for a candidate with the given id, against the
/// registry snapshot `known_ids` and the would-be destination `dest`, whose
/// occupancy the caller has checked on disk.
pub fn check_conflict(
    id: &String,
    known_ids: &Vec<String>,
    dest: &String,
    dest_exists: bool,
) -> (r: Option<ConflictIdentity>)
    ensures
        match r {
            Some(c) => spec_check_conflict(
                id@,
                crate::enabled::strs_view(known_ids@),
                dest@,
                dest_exists,
            ) == Some(c@),
            None => spec_check_conflict(
                id@,
                crate::enabled::strs_view(known_ids@),
                dest@,
                dest_exists,
            ) is None,
        },
{
    let ghost known = crate::enabled::strs_view(known_ids@);
    let mut k: usize = 0;
    while k < known_ids.len()
        invariant
            k <= known_ids.len(),
            known == crate::enabled::strs_view(known_ids@),
            forall|m: int| 0 <= m < k ==> known[m] != id@,
        decreases known_ids.len() - k,
    {
        if known_ids[k].eq(id) {
            proof {
                assert(known[k as int] == id@);
                assert(known.contains(id@));
            }
            return Some(ConflictIdentity::ById(id.clone()));
        }
        k = k + 1;
    }
    proof {
        assert(forall|m: int| 0 <= m < known.len() ==> known[m] != id@);
        assert(!known.contains(id@));
    }
    if dest_exists {
        Some(ConflictIdentity::ByPath(dest.clone()))
    } else {
        None
    }
}

} // verus!
