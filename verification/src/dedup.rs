//! The shared "last applied identifier" cell and its compare-and-set guard.

use vstd::prelude::*;

verus! {

/// Holds the identifier of the last wallpaper an update attempt advanced to,
/// or `None` right after process start. All update attempts, manual and
/// scheduled, consult the same cell; the caller serializes access with a lock
/// whose critical section is exactly one `try_advance` call.
pub struct WallpaperState {
    current: Option<Vec<u8>>,
}

impl View for WallpaperState {
    type V = Option<Seq<u8>>;

    closed spec fn view(&self) -> Option<Seq<u8>> {
        match self.current {
            Some(id) => Some(id@),
            None => None,
        }
    }
}

/// What one compare-and-set on the cell decides and leaves behind: a repeated
/// identifier is refused and the cell kept, a new one is written and accepted.
pub open spec fn try_advance_spec(state: Option<Seq<u8>>, candidate: Seq<u8>) -> (bool, Option<
    Seq<u8>,
>) {
    if state == Some(candidate) {
        (false, state)
    } else {
        (true, Some(candidate))
    }
}

impl WallpaperState {
    /// The cell as every process start sees it: no identifier applied yet, so
    /// the first attempt always advances.
    pub fn new() -> (s: Self)
        ensures
            s@ is None,
    {
        WallpaperState { current: None }
    }

    /// The dedup guard's single decision: refuse `candidate` if it is exactly
    /// the identifier already recorded, otherwise record it and tell the
    /// caller to proceed with download and apply. The cell moves to the new
    /// identifier before any download begins, so a concurrent attempt seeing
    /// the same candidate is refused immediately.
    pub fn try_advance(&mut self, candidate: &Vec<u8>) -> (advanced: bool)
        ensures
            (advanced, final(self)@) == try_advance_spec(old(self)@, candidate@),
    {
        let unchanged = match &self.current {
            Some(cur) => {
                let eq = cur == candidate;
                proof {
                    if eq {
                        assert(cur@ =~= candidate@);
                    } else {
                        assert(cur@ != candidate@) by {
                            if cur@ == candidate@ {
                                assert(cur.len() == candidate.len());
                                assert(forall|i: int|
                                    0 <= i < cur@.len() ==> cur@[i] == candidate@[i]);
                            }
                        }
                    }
                }
                eq
            },
            None => false,
        };
        if unchanged {
            false
        } else {
            self.current = Some(vstd::slice::slice_to_vec(candidate.as_slice()));
            true
        }
    }

    /// The identifier currently recorded, for inspection; `None` while no
    /// attempt has advanced the cell yet.
    pub fn last_identifier(&self) -> (r: Option<&Vec<u8>>)
        ensures
            match r {
                Some(id) => self@ == Some(id@),
                None => self@ is None,
            },
    {
        self.current.as_ref()
    }
}

/// Race resolution: two attempts that hold the same candidate are serialized
/// by the cell's lock into two `try_advance` calls in some order; both orders
/// are this same sequence, and exactly the first of the two advances. The
/// second is refused and leaves the cell as the first wrote it.
pub proof fn lemma_same_candidate_race(state: Option<Seq<u8>>, candidate: Seq<u8>)
    requires
        state != Some(candidate),
    ensures
        ({
            let (first_advanced, mid) = try_advance_spec(state, candidate);
            let (second_advanced, end) = try_advance_spec(mid, candidate);
            &&& first_advanced
            &&& !second_advanced
            &&& mid == Some(candidate)
            &&& end == mid
        }),
{
}

/// Once any `try_advance` with a candidate has run, the cell holds exactly
/// that candidate, whether the call advanced or was refused.
pub proof fn lemma_try_advance_records_candidate(state: Option<Seq<u8>>, candidate: Seq<u8>)
    ensures
        try_advance_spec(state, candidate).1 == Some(candidate),
{
}

} // verus!
