//! The run itself: the admission filter in front of the extractor, the set
//! of directories already inspected, the growing candidate collection, and
//! the final ranking verdict.
use vstd::prelude::*;
use crate::rank::{all_valid, expired_spec, is_best, is_expired, select_best, Candidate};
use crate::text::{chars_eq, contains_seq, lower_seq, to_lower, contains_lit, chars_of};
use crate::timestamp::Timestamp;

verus! {

/// What became of one discovered candidate root.
#[derive(Clone, Copy, PartialEq, Eq, Structural, Debug)]
pub enum Admission {
    /// Fresh and present: hand the directory to the extractor.
    Admitted,
    /// The raw path names a cloud-sync mirror; never scanned.
    RejectedCloudSync,
    /// The directory does not exist on disk.
    RejectedMissing,
    /// The directory was already inspected in this run.
    RejectedVisited,
}

/// The final verdict of a run.
pub enum Outcome {
    /// No candidate anywhere: terminal, no timestamp is ever looked at.
    NotFound,
    /// The most recent URL, with the freshness verdict on its timestamp.
    Found { url: Vec<char>, time: Timestamp, expired: bool },
}

/// The raw path points into a cloud-sync mirror (case-insensitive,
/// anywhere in the string).
pub open spec fn cloud_synced(raw: Seq<char>) -> bool {
    contains_seq(lower_seq(raw), "onedrive"@)
}

/// The key a root is deduplicated under: its canonical path when
/// canonicalization succeeded, else the raw string itself.
pub open spec fn dedup_key(raw: Seq<char>, canonical: Option<Seq<char>>) -> Seq<char> {
    match canonical {
        Some(c) => c,
        None => raw,
    }
}

/// The admission rule, in the order the run applies it: the cloud-sync
/// filter on the raw string, then existence on disk, then deduplication.
pub open spec fn screening_of(
    visited: Seq<Seq<char>>,
    raw: Seq<char>,
    canonical: Option<Seq<char>>,
    on_disk: bool,
) -> Admission {
    if cloud_synced(raw) {
        Admission::RejectedCloudSync
    } else if !on_disk {
        Admission::RejectedMissing
    } else if visited.contains(dedup_key(raw, canonical)) {
        Admission::RejectedVisited
    } else {
        Admission::Admitted
    }
}

/// Law: a root whose raw path names the cloud-sync mirror is rejected
/// whatever the rest of the state says, so it is never scanned.
pub proof fn lemma_cloud_sync_never_admitted(
    visited: Seq<Seq<char>>,
    raw: Seq<char>,
    canonical: Option<Seq<char>>,
    on_disk: bool,
)
    requires
        cloud_synced(raw),
    ensures
        screening_of(visited, raw, canonical, on_disk) == Admission::RejectedCloudSync,
{
}

/// Law: once a key has been admitted, no root with the same key is admitted
/// again while the visited set only grows, whatever raw spelling or
/// existence answer the second attempt carries.
pub proof fn lemma_admitted_only_once(
    v1: Seq<Seq<char>>,
    raw1: Seq<char>,
    c1: Option<Seq<char>>,
    d1: bool,
    v2: Seq<Seq<char>>,
    raw2: Seq<char>,
    c2: Option<Seq<char>>,
    d2: bool,
)
    requires
        screening_of(v1, raw1, c1, d1) == Admission::Admitted,
        dedup_key(raw1, c1) == dedup_key(raw2, c2),
        forall|k: Seq<char>| v1.push(dedup_key(raw1, c1)).contains(k) ==> #[trigger] v2.contains(
            k,
        ),
    ensures
        screening_of(v2, raw2, c2, d2) != Admission::Admitted,
{
    assert(v1.push(dedup_key(raw1, c1)).contains(dedup_key(raw1, c1))) by {
        assert(v1.push(dedup_key(raw1, c1)).last() == dedup_key(raw1, c1));
    }
    assert(v2.contains(dedup_key(raw2, c2)));
}

/// One discovery run: the directories already inspected and the candidates
/// collected so far.  Fresh at the start of each run.
pub struct Pipeline {
    visited: Vec<Vec<char>>,
    candidates: Vec<Candidate>,
}

impl Pipeline {
    /// The dedup keys of the directories inspected so far.
    pub closed spec fn visited_keys(self) -> Seq<Seq<char>> {
        Seq::new(self.visited@.len(), |i: int| self.visited@[i]@)
    }

    /// The candidates collected so far.
    pub closed spec fn cands(self) -> Seq<Candidate> {
        self.candidates@
    }

    pub closed spec fn wf(self) -> bool {
        all_valid(self.candidates@)
    }

    pub fn new() -> (r: Pipeline)
        ensures
            r.wf(),
            r.visited_keys() == Seq::<Seq<char>>::empty(),
            r.cands() == Seq::<Candidate>::empty(),
    {
        let r = Pipeline { visited: Vec::new(), candidates: Vec::new() };
        proof {
            assert(r.visited_keys() =~= Seq::<Seq<char>>::empty());
        }
        r
    }

    /// Applies the admission rule to one discovered root and records its key
    /// when it is admitted.  `canonical` is the canonicalized path when the
    /// caller could resolve one; `on_disk` answers whether the keyed path
    /// exists.
    #[verifier::loop_isolation(false)]
    pub fn screen_root(&mut self, raw: &[char], canonical: Option<&Vec<char>>, on_disk: bool) -> (r:
        Admission)
        requires
            old(self).wf(),
        ensures
            final(self).wf(),
            r == screening_of(
                old(self).visited_keys(),
                raw@,
                match canonical {
                    Some(c) => Some(c@),
                    None => None,
                },
                on_disk,
            ),
            final(self).cands() == old(self).cands(),
            r == Admission::Admitted ==> final(self).visited_keys() == old(
                self,
            ).visited_keys().push(
                dedup_key(
                    raw@,
                    match canonical {
                        Some(c) => Some(c@),
                        None => None,
                    },
                ),
            ),
            r != Admission::Admitted ==> final(self).visited_keys() == old(self).visited_keys(),
    {
        let lowered = to_lower(raw);
        let cloud_pat = chars_of("onedrive");
        if contains_lit(lowered.as_slice(), cloud_pat.as_slice()) {
            return Admission::RejectedCloudSync;
        }
        if !on_disk {
            return Admission::RejectedMissing;
        }
        let key: &[char] = match canonical {
            Some(c) => c.as_slice(),
            None => raw,
        };
        let mut i: usize = 0;
        while i < self.visited.len()
            invariant
                self == old(self),
                forall|j: int| 0 <= j < i ==> self.visited@[j]@ != key@,
                i <= self.visited@.len(),
            decreases self.visited@.len() - i,
        {
            if chars_eq(self.visited[i].as_slice(), key) {
                assert(self.visited_keys()[i as int] == key@);
                assert(self.visited_keys().contains(key@));
                return Admission::RejectedVisited;
            }
            i = i + 1;
        }
        assert(!self.visited_keys().contains(key@)) by {
            assert(forall|j: int|
                0 <= j < self.visited_keys().len() ==> #[trigger] self.visited_keys()[j]
                    != key@);
        }
        let owned: Vec<char> = vstd::slice::slice_to_vec(key);
        self.visited.push(owned);
        proof {
            assert(self.visited_keys() =~= old(self).visited_keys().push(key@));
        }
        Admission::Admitted
    }

    /// Adds one candidate produced by a finished file scan.
    pub fn add_candidate(&mut self, c: Candidate)
        requires
            old(self).wf(),
            c.time.valid(),
        ensures
            final(self).wf(),
            final(self).cands() == old(self).cands().push(c),
            final(self).visited_keys() == old(self).visited_keys(),
    {
        self.candidates.push(c);
    }

    /// Ranks what was collected: nothing at all, or the most recent URL
    /// with the freshness rule applied against `now`.
    pub fn conclude(&self, now: &Timestamp) -> (r: Outcome)
        requires
            self.wf(),
            now.valid(),
        ensures
            r is NotFound <==> self.cands().len() == 0,
            r matches Outcome::Found { url, time, expired } ==> expired == expired_spec(
                time,
                *now,
            ) && exists|i: int|
                is_best(self.cands(), i) && (#[trigger] self.cands()[i]).url@ == url@
                    && self.cands()[i].time == time,
    {
        match select_best(&self.candidates) {
            None => Outcome::NotFound,
            Some(i) => {
                let time = self.candidates[i].time;
                let expired = is_expired(&time, now);
                let url = vstd::slice::slice_to_vec(self.candidates[i].url.as_slice());
                proof {
                    let gi = i as int;
                    assert(is_best(self.cands(), gi) && (#[trigger] self.cands()[gi]).url@ == url@
                        && self.cands()[gi].time == time);
                }
                Outcome::Found { url, time, expired }
            },
        }
    }
}

} // verus!
