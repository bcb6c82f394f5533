//! Ranking of the extracted candidates and the freshness rule.
use vstd::prelude::*;
use crate::timestamp::Timestamp;

verus! {

/// One extracted occurrence: the URL, the moment it is believed to stem
/// from, and the log file it was read out of.
pub struct Candidate {
    pub url: Vec<char>,
    pub time: Timestamp,
    pub source: Vec<char>,
}

pub open spec fn all_valid(cs: Seq<Candidate>) -> bool {
    forall|i: int| 0 <= i < cs.len() ==> (#[trigger] cs[i]).time.valid()
}

/// `i` points at the winner: no candidate is more recent, and every earlier
/// candidate is strictly older, so ties keep the first-seen occurrence.
pub open spec fn is_best(cs: Seq<Candidate>, i: int) -> bool {
    &&& 0 <= i < cs.len()
    &&& forall|j: int|
        0 <= j < cs.len() ==> (#[trigger] cs[j]).time.secs_spec() <= cs[i].time.secs_spec()
    &&& forall|j: int| 0 <= j < i ==> (#[trigger] cs[j]).time.secs_spec() < cs[i].time.secs_spec()
}

/// Law: at most one index can win, so the selection contract pins the
/// result completely.
pub proof fn lemma_best_unique(cs: Seq<Candidate>, i: int, j: int)
    requires
        is_best(cs, i),
        is_best(cs, j),
    ensures
        i == j,
{
    if i < j {
        assert(cs[i].time.secs_spec() < cs[j].time.secs_spec());
        assert(cs[j].time.secs_spec() <= cs[i].time.secs_spec());
    }
    if j < i {
        assert(cs[j].time.secs_spec() < cs[i].time.secs_spec());
        assert(cs[i].time.secs_spec() <= cs[j].time.secs_spec());
    }
}

/// Picks the most recent candidate; on equal timestamps the one seen first.
pub fn select_best(cs: &Vec<Candidate>) -> (r: Option<usize>)
    requires
        all_valid(cs@),
    ensures
        r is Some <==> cs@.len() > 0,
        r matches Some(i) ==> is_best(cs@, i as int),
{
    if cs.len() == 0 {
        return None;
    }
    let mut best: usize = 0;
    let mut best_secs: u64 = cs[0].time.secs();
    let mut i: usize = 1;
    while i < cs.len()
        invariant
            all_valid(cs@),
            0 < cs@.len(),
            best < i <= cs@.len(),
            best_secs == cs@[best as int].time.secs_spec(),
            forall|j: int| 0 <= j < i ==> (#[trigger] cs@[j]).time.secs_spec() <= best_secs,
            forall|j: int| 0 <= j < best ==> (#[trigger] cs@[j]).time.secs_spec() < best_secs,
        decreases cs@.len() - i,
    {
        let s = cs[i].time.secs();
        if s > best_secs {
            best = i;
            best_secs = s;
        }
        i = i + 1;
    }
    Some(best)
}

/// The freshness threshold, in seconds: half an hour.
pub open spec fn expiry_limit_secs() -> int {
    1800
}

/// Expired means strictly more than the threshold has elapsed; exactly the
/// threshold is still fresh, and a timestamp in the future is fresh too.
pub open spec fn expired_spec(t: Timestamp, now: Timestamp) -> bool {
    now.secs_spec() - t.secs_spec() > expiry_limit_secs()
}

/// Applies the freshness rule to a selected timestamp.
pub fn is_expired(t: &Timestamp, now: &Timestamp) -> (r: bool)
    requires
        t.valid(),
        now.valid(),
    ensures
        r == expired_spec(*t, *now),
{
    let ts = t.secs();
    let ns = now.secs();
    ns > ts && ns - ts > 1800
}

} // verus!
