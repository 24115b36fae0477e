//! The ordered table of encodings of one logical texture.

use crate::formats::{Compression, FormatSet};
use vstd::prelude::*;

verus! {

/// One encoding of the texture: where the asset subsystem finds it, and what
/// the device must support to use it.
pub struct Candidate {
    pub path: String,
    pub required: FormatSet,
}

/// What a [`Candidate`] is to the specifications.
pub struct CandidateView {
    pub path: Seq<char>,
    pub required: Set<Compression>,
}

impl View for Candidate {
    type V = CandidateView;

    open spec fn view(&self) -> CandidateView {
        CandidateView { path: self.path@, required: self.required@ }
    }
}

impl Candidate {
    pub fn new(path: &str, required: FormatSet) -> (r: Candidate)
        ensures
            r@ == (CandidateView { path: path@, required: required@ }),
            r.required == required,
    {
        Candidate { path: path.to_owned(), required }
    }
}

/// The views of the candidates of `entries`, in order.
pub open spec fn views_of(entries: Seq<Candidate>) -> Seq<CandidateView> {
    Seq::new(entries.len(), |i: int| entries[i]@)
}

/// A fixed, ordered, non-empty list of candidates. A position in it is the
/// unit of "current selection".
pub struct CandidateTable {
    entries: Vec<Candidate>,
}

impl View for CandidateTable {
    type V = Seq<CandidateView>;

    closed spec fn view(&self) -> Seq<CandidateView> {
        views_of(self.entries@)
    }
}

impl CandidateTable {
    #[verifier::type_invariant]
    spec fn non_empty(self) -> bool {
        self.entries@.len() > 0
    }

    /// A table of the given candidates in the given order; `None` where
    /// there is none, since no position would be valid.
    pub fn new(entries: Vec<Candidate>) -> (r: Option<CandidateTable>)
        ensures
            entries@.len() == 0 <==> r is None,
            r matches Some(t) ==> t@ == views_of(entries@),
    {
        if entries.len() == 0 {
            None
        } else {
            Some(CandidateTable { entries })
        }
    }

    /// The four encodings of the Ryfjallet cubemap: an uncompressed PNG and
    /// one KTX2 container for each compression scheme.
    pub fn standard() -> (r: CandidateTable)
        ensures
            r@.len() == 4,
            r@[0] == (CandidateView {
                path: "textures/Ryfjallet_cubemap.png"@,
                required: Set::<Compression>::empty(),
            }),
            r@[1] == (CandidateView {
                path: "textures/Ryfjallet_cubemap_astc4x4.ktx2"@,
                required: set![Compression::AstcLdr],
            }),
            r@[2] == (CandidateView {
                path: "textures/Ryfjallet_cubemap_bc7.ktx2"@,
                required: set![Compression::Bc],
            }),
            r@[3] == (CandidateView {
                path: "textures/Ryfjallet_cubemap_etc2.ktx2"@,
                required: set![Compression::Etc2],
            }),
    {
        let mut entries: Vec<Candidate> = Vec::new();
        entries.push(Candidate::new("textures/Ryfjallet_cubemap.png", FormatSet::none()));
        entries.push(
            Candidate::new(
                "textures/Ryfjallet_cubemap_astc4x4.ktx2",
                FormatSet::single(Compression::AstcLdr),
            ),
        );
        entries.push(
            Candidate::new("textures/Ryfjallet_cubemap_bc7.ktx2", FormatSet::single(Compression::Bc)),
        );
        entries.push(
            Candidate::new(
                "textures/Ryfjallet_cubemap_etc2.ktx2",
                FormatSet::single(Compression::Etc2),
            ),
        );
        CandidateTable { entries }
    }

    /// The number of candidates, which is at least one.
    pub fn len(&self) -> (n: usize)
        ensures
            n == self@.len(),
            n > 0,
    {
        proof {
            use_type_invariant(self);
        }
        self.entries.len()
    }

    /// The candidate at position `i`.
    pub fn get(&self, i: usize) -> (c: &Candidate)
        requires
            i < self@.len(),
        ensures
            c@ == self@[i as int],
    {
        &self.entries[i]
    }

    /// The candidate at position `i`, if there is one.
    pub fn try_get(&self, i: usize) -> (c: Option<&Candidate>)
        ensures
            i < self@.len() <==> c is Some,
            c matches Some(found) ==> found@ == self@[i as int],
    {
        if i < self.entries.len() {
            Some(&self.entries[i])
        } else {
            None
        }
    }
}

} // verus!
