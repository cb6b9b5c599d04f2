//! Keeping the store small: what is dropped for its age, and what for its likeness.
use crate::json::{int_value, Json, JsonV};
use crate::skills::store::SkillPayload;
use crate::skills::verify::since;
use crate::text::same;
use vstd::prelude::*;

verus! {

/// How many points are looked at.
pub const SCROLL_LIMIT: u32 = 500;

/// A candidate is dropped for its age.
pub open spec fn is_old(created_at: Option<u64>, now: u64, retention_days: u32) -> bool {
    created_at matches Some(t) && since(t, now) > retention_days * 86400
}

/// Whether a candidate is dropped for its age. One without a time is kept.
pub fn is_stale(created_at: Option<u64>, now: u64, retention_days: u32) -> (r: bool)
    ensures
        r == is_old(created_at, now, retention_days),
        r == (created_at matches Some(t) && since(t, now) > retention_days * 86400),
{
    match created_at {
        Some(t) => {
            let age: u64 = if now >= t {
                now - t
            } else {
                0
            };
            age > retention_days as u64 * 86400
        },
        None => false,
    }
}

/// The rank of an entry's tier.
pub open spec fn rank(p: SkillPayload) -> int {
    if p.tier@ == "trusted"@ {
        3
    } else if p.tier@ == "verified"@ {
        2
    } else {
        1
    }
}

/// How much an entry is worth keeping: by tier, and then by when it was promoted or written.
pub open spec fn worth(p: SkillPayload) -> int {
    rank(p) * 10000000000 + stamp(p)
}

/// When an entry was promoted, or else written.
pub open spec fn stamp(p: SkillPayload) -> int {
    match p.verified_at {
        Some(t) => t as int,
        None => match p.created_at {
            Some(t) => t as int,
            None => 0,
        },
    }
}

/// How much an entry is worth keeping.
pub fn priority(p: &SkillPayload) -> (r: u64)
    requires
        worth(*p) <= u64::MAX,
    ensures
        r == worth(*p),
{
    let tier: u64 = if same(p.tier.as_str(), "trusted") {
        30000000000
    } else if same(p.tier.as_str(), "verified") {
        20000000000
    } else {
        10000000000
    };
    let at: u64 = match p.verified_at {
        Some(t) => t,
        None => match p.created_at {
            Some(t) => t,
            None => 0,
        },
    };
    tier + at
}

/// Tiers count for more than times, as long as times are seconds of this age; within a tier the
/// later time counts.
pub proof fn law_tier_comes_first(a: SkillPayload, b: SkillPayload)
    requires
        stamp(b) < 10000000000,
    ensures
        rank(a) > rank(b) ==> worth(a) > worth(b),
        rank(a) == rank(b) ==> (worth(a) > worth(b) <==> stamp(a) > stamp(b)),
{
}

// ---------------------------------------------------------------------------
// Likeness
// ---------------------------------------------------------------------------
/// An entry in the walk: its identifier, its worth, and which later entries it is like.
pub struct Entry {
    pub id: u64,
    pub worth: u64,
    pub like: Vec<bool>,
}

/// A walk over all pairs of entries, each with every later one.
pub struct Walk {
    pub entries: Vec<Entry>,
    pub deleted: Vec<u64>,
    pub i: usize,
    pub j: usize,
}

/// The entries are alike.
pub open spec fn alike(es: Seq<Entry>, i: int, j: int) -> bool {
    0 <= j < es[i].like@.len() && es[i].like@[j]
}

/// The next pair from `(i, j)` on: one that is alike, whose second entry was not deleted, and
/// whose first was not when its turn began.
pub open spec fn pair_from(es: Seq<Entry>, deleted: Seq<u64>, i: int, j: int) -> Option<(int, int)>
    decreases es.len() - i, es.len() - j,
{
    if i < 0 || i >= es.len() {
        None
    } else if (j == i + 1 && deleted.contains(es[i].id)) || j >= es.len() {
        pair_from(es, deleted, i + 1, i + 2)
    } else if deleted.contains(es[j].id) || !alike(es, i, j) {
        pair_from(es, deleted, i, j + 1)
    } else {
        Some((i, j))
    }
}

/// The entry of a pair that goes: the one that is worth less, and else the later one.
pub open spec fn loser(es: Seq<Entry>, i: int, j: int) -> u64 {
    if es[j].worth > es[i].worth {
        es[i].id
    } else {
        es[j].id
    }
}

fn has_id(v: &Vec<u64>, id: u64) -> (r: bool)
    ensures
        r == v@.contains(id),
{
    let n: usize = v.len();
    let mut k: usize = 0;
    while k < n
        invariant
            n == v@.len(),
            k <= n,
            forall|m: int| 0 <= m < k ==> v@[m] != id,
        decreases n - k,
    {
        if v[k] == id {
            assert(v@[k as int] == id);
            return true;
        }
        k += 1;
    }
    false
}

impl Walk {
    /// The walk can go on from where it is.
    pub open spec fn wf(self) -> bool {
        self.i <= self.entries@.len() && self.i < self.j <= self.entries@.len() + 1
            && self.entries@.len() < usize::MAX
    }

    /// A walk over the entries.
    pub fn new(entries: Vec<Entry>) -> (r: Walk)
        requires
            entries@.len() < usize::MAX,
        ensures
            r.entries == entries,
            r.deleted@.len() == 0,
            r.i == 0,
            r.j == 1,
            r.wf(),
    {
        Walk { entries, deleted: Vec::new(), i: 0, j: 1 }
    }

    /// The entry to delete next, if there is any.
    pub fn next(&mut self) -> (r: Option<u64>)
        requires
            old(self).wf(),
        ensures
            final(self).wf(),
            final(self).entries == old(self).entries,
            final(self).deleted == old(self).deleted,
            match pair_from(
                old(self).entries@,
                old(self).deleted@,
                old(self).i as int,
                old(self).j as int,
            ) {
                Some((i, j)) => {
                    &&& r == Some(loser(old(self).entries@, i, j))
                    &&& final(self).i == i
                    &&& final(self).j == j + 1
                    &&& 0 <= i < j < old(self).entries@.len()
                    &&& alike(old(self).entries@, i, j)
                },
                None => r is None,
            },
    {
        let n: usize = self.entries.len();
        let ghost es = self.entries@;
        let ghost ds = self.deleted@;
        while self.i < n
            invariant
                n == self.entries@.len(),
                self.wf(),
                es == self.entries@,
                ds == self.deleted@,
                self.entries == old(self).entries,
                self.deleted == old(self).deleted,
                pair_from(es, ds, old(self).i as int, old(self).j as int) == pair_from(
                    es,
                    ds,
                    self.i as int,
                    self.j as int,
                ),
            decreases n - self.i, n + 1 - self.j,
        {
            let i: usize = self.i;
            let j: usize = self.j;
            if (j == i + 1 && has_id(&self.deleted, self.entries[i].id)) || j >= n {
                self.i = i + 1;
                self.j = i + 2;
            } else if has_id(&self.deleted, self.entries[j].id) {
                self.j = j + 1;
            } else {
                let like = &self.entries[i].like;
                let is_like = j < like.len() && like[j];
                self.j = j + 1;
                if is_like {
                    return Some(
                        if self.entries[j].worth > self.entries[i].worth {
                            self.entries[i].id
                        } else {
                            self.entries[j].id
                        },
                    );
                }
            }
        }
        None
    }

    /// Notes that an entry was deleted.
    pub fn was_deleted(&mut self, id: u64)
        ensures
            final(self).deleted@ == old(self).deleted@.push(id),
            final(self).entries == old(self).entries,
            final(self).i == old(self).i,
            final(self).j == old(self).j,
    {
        self.deleted.push(id);
    }
}

/// Of two entries that are alike, the one that goes is worth no more than the other. The other
/// need not be in the store any more: an entry that loses to a later one still takes its turn
/// against the rest.
pub proof fn law_lesser_entry_goes(es: Seq<Entry>, i: int, j: int)
    requires
        0 <= i < j < es.len(),
        es[i].id != es[j].id,
    ensures
        loser(es, i, j) == es[i].id ==> es[j].worth > es[i].worth,
        loser(es, i, j) == es[j].id ==> es[i].worth >= es[j].worth,
        loser(es, i, j) == es[i].id || loser(es, i, j) == es[j].id,
{
}

/// The entry is the first of those that are worth the most.
pub open spec fn is_best(es: Seq<Entry>, m: int) -> bool {
    &&& 0 <= m < es.len()
    &&& forall|k: int| 0 <= k < es.len() ==> (#[trigger] es[k]).worth <= es[m].worth
    &&& forall|k: int| 0 <= k < m ==> (#[trigger] es[k]).worth < es[m].worth
}

proof fn lemma_pair_in_range(es: Seq<Entry>, deleted: Seq<u64>, i: int, j: int)
    requires
        0 <= i < j,
    ensures
        pair_from(es, deleted, i, j) matches Some((a, b)) ==> i <= a < b < es.len(),
    decreases es.len() - i, es.len() - j,
{
    if i < es.len() {
        if (j == i + 1 && deleted.contains(es[i].id)) || j >= es.len() {
            lemma_pair_in_range(es, deleted, i + 1, i + 2);
        } else if deleted.contains(es[j].id) || !alike(es, i, j) {
            lemma_pair_in_range(es, deleted, i, j + 1);
        }
    }
}

/// Whatever has gone so far, the first of the entries that are worth the most never goes: the
/// store that is left has it.
pub proof fn law_best_entry_stays(
    es: Seq<Entry>,
    deleted: Seq<u64>,
    i: int,
    j: int,
    best: int,
)
    requires
        0 <= i < j,
        is_best(es, best),
        forall|a: int, b: int|
            0 <= a < b < es.len() ==> (#[trigger] es[a]).id != (#[trigger] es[b]).id,
    ensures
        pair_from(es, deleted, i, j) matches Some((a, b)) ==> loser(es, a, b) != es[best].id,
{
    lemma_pair_in_range(es, deleted, i, j);
    if let Some((a, b)) = pair_from(es, deleted, i, j) {
        assert(es[a].worth <= es[best].worth && es[b].worth <= es[best].worth);
        if es[b].worth > es[a].worth {
            assert(a < best ==> es[a].id != es[best].id);
            assert(best < a ==> es[best].id != es[a].id);
        } else {
            assert(b < best ==> es[b].id != es[best].id);
            assert(best < b ==> es[best].id != es[b].id);
            assert(b == best ==> es[a].worth < es[best].worth);
        }
    }
}

/// The event of a round that dropped anything.
pub fn curated_event(dropped: u64, deduped: u64) -> (r: Json)
    ensures
        r@ == JsonV::Object(
            map!["dropped"@ => int_value(dropped), "deduped"@ => int_value(deduped)],
        ),
{
    Json::empty_object().with("dropped", Json::whole(dropped)).with(
        "deduped",
        Json::whole(deduped),
    )
}

} // verus!
