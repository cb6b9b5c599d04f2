//! The pace of searches.
//!
//! All searches share one budget, spent evenly. While both the client's searches and the
//! background's are active, each gets every other slot; where one is idle the other has the
//! whole budget. The background waits until the client has not searched for a while, and a
//! slot that it has reserved for later never holds a client up: where a client searches in the
//! meantime, the background gives its slot up.
use vstd::prelude::*;

verus! {

/// Milliseconds between any two searches.
pub const SEARCH_TOTAL_GAP: u64 = 2000;

/// Milliseconds between two searches of a lane that is held to its half.
pub const SEARCH_LANE_GAP: u64 = 4000;

/// Milliseconds for which a lane counts as active after its last search.
pub const SEARCH_FAIR_WINDOW: u64 = 4000;

/// Milliseconds that the background waits after a search of the client.
pub const SEARCH_BG_YIELD: u64 = 12000;

/// Whose search it is.
#[derive(Debug, Clone, Copy, PartialEq, Eq, Structural)]
pub enum SearchLane {
    /// A client's.
    User,
    /// A learning loop's.
    Background,
}

/// The latest slots that were granted, in milliseconds: to anyone, to a client, to the
/// background; and the latest in which the background searched.
#[derive(Debug, Clone, Copy)]
pub struct GateState {
    pub global_last: Option<u64>,
    pub user_last: Option<u64>,
    pub bg_last: Option<u64>,
    pub bg_ran: Option<u64>,
}

/// The later of two slots.
pub open spec fn latest(a: Option<u64>, b: Option<u64>) -> Option<u64> {
    match (a, b) {
        (Some(x), Some(y)) => if x < y {
            b
        } else {
            a
        },
        (Some(_), None) => a,
        _ => b,
    }
}

/// The slot, where it has come.
pub open spec fn come(slot: Option<u64>, now: u64) -> Option<u64> {
    match slot {
        Some(t) => if t <= now {
            slot
        } else {
            None
        },
        None => None,
    }
}

/// The time `gap` after `last`, and not before `now`.
pub open spec fn not_before(now: int, last: Option<u64>, gap: u64) -> int {
    match last {
        Some(t) => if t + gap > now {
            t + gap
        } else {
            now
        },
        None => now,
    }
}

impl GateState {
    /// Every time in it leaves room for the longest wait.
    pub open spec fn fits(self) -> bool {
        &&& self.global_last matches Some(t) ==> t + SEARCH_BG_YIELD <= u64::MAX
        &&& self.user_last matches Some(t) ==> t + SEARCH_BG_YIELD <= u64::MAX
        &&& self.bg_last matches Some(t) ==> t + SEARCH_BG_YIELD <= u64::MAX
        &&& self.bg_ran matches Some(t) ==> t + SEARCH_BG_YIELD <= u64::MAX
    }

    /// The latest slot is that of one of the lanes, and the background searched in none later
    /// than its latest.
    pub open spec fn wf(self) -> bool {
        &&& self.global_last == latest(self.user_last, self.bg_last)
        &&& latest(self.bg_ran, self.bg_last) == self.bg_last
    }

    /// The state as it would be if no slot of the background lay after `now`.
    pub open spec fn without_later(self, now: u64) -> GateState {
        let bg_ran = come(self.bg_ran, now);
        if come(self.bg_last, now) == self.bg_last {
            GateState { bg_ran, ..self }
        } else {
            GateState {
                global_last: latest(self.user_last, bg_ran),
                bg_last: bg_ran,
                bg_ran,
                ..self
            }
        }
    }

    /// What a lane goes by: a client does not heed slots that the background has reserved for
    /// later.
    pub open spec fn seen_by(self, lane: SearchLane, now: u64) -> GateState {
        match lane {
            SearchLane::User => self.without_later(now),
            SearchLane::Background => self,
        }
    }

    /// When the lane was granted a search last.
    pub open spec fn last(self, lane: SearchLane) -> Option<u64> {
        match lane {
            SearchLane::User => self.user_last,
            SearchLane::Background => self.bg_last,
        }
    }

    /// The lane searched lately, or is about to.
    pub open spec fn is_active(self, lane: SearchLane, now: u64) -> bool {
        self.last(lane) matches Some(t) && t + SEARCH_FAIR_WINDOW >= now
    }

    /// When the next search of the lane may run.
    pub open spec fn grant(self, lane: SearchLane, now: u64) -> int {
        let seen = self.seen_by(lane, now);
        let paced = not_before(now as int, seen.global_last, SEARCH_TOTAL_GAP);
        let shared = if seen.is_active(other(lane), now) {
            not_before(paced, seen.last(lane), SEARCH_LANE_GAP)
        } else {
            paced
        };
        if lane == SearchLane::Background {
            not_before(shared, self.user_last, SEARCH_BG_YIELD)
        } else {
            shared
        }
    }

    /// After a search of the lane was granted for a time.
    pub open spec fn granted(self, lane: SearchLane, at: u64) -> GateState {
        let global_last = latest(self.global_last, Some(at));
        match lane {
            SearchLane::User => GateState { global_last, user_last: Some(at), ..self },
            SearchLane::Background => GateState { global_last, bg_last: Some(at), ..self },
        }
    }

    /// A slot of the background that still stands: no client was granted one in the waiting
    /// time before it, or after it.
    pub open spec fn stands(self, slot: u64) -> bool {
        self.user_last matches Some(t) ==> t + SEARCH_BG_YIELD <= slot
    }
}

/// The other lane.
pub open spec fn other(lane: SearchLane) -> SearchLane {
    match lane {
        SearchLane::User => SearchLane::Background,
        SearchLane::Background => SearchLane::User,
    }
}

fn later(now: u64, last: Option<u64>, gap: u64) -> (r: u64)
    requires
        last matches Some(t) ==> t + gap <= u64::MAX,
    ensures
        r == not_before(now as int, last, gap),
{
    match last {
        Some(t) => if t + gap > now {
            t + gap
        } else {
            now
        },
        None => now,
    }
}

fn has_room(slot: Option<u64>) -> (r: bool)
    ensures
        r == (slot matches Some(t) ==> t + SEARCH_BG_YIELD <= u64::MAX),
{
    match slot {
        Some(t) => t <= u64::MAX - SEARCH_BG_YIELD,
        None => true,
    }
}

fn later_of(a: Option<u64>, b: Option<u64>) -> (r: Option<u64>)
    ensures
        r == latest(a, b),
{
    match (a, b) {
        (Some(x), Some(y)) => if x < y {
            b
        } else {
            a
        },
        (Some(_), None) => a,
        _ => b,
    }
}

fn if_come(slot: Option<u64>, now: u64) -> (r: Option<u64>)
    ensures
        r == come(slot, now),
{
    match slot {
        Some(t) => if t <= now {
            slot
        } else {
            None
        },
        None => None,
    }
}

impl GateState {
    fn view_of(&self, lane: SearchLane, now: u64) -> (r: GateState)
        ensures
            r == self.seen_by(lane, now),
    {
        match lane {
            SearchLane::User => {
                let bg_ran = if_come(self.bg_ran, now);
                let reserved = match self.bg_last {
                    Some(t) => t > now,
                    None => false,
                };
                if reserved {
                    GateState {
                        global_last: later_of(self.user_last, bg_ran),
                        user_last: self.user_last,
                        bg_last: bg_ran,
                        bg_ran,
                    }
                } else {
                    GateState {
                        global_last: self.global_last,
                        user_last: self.user_last,
                        bg_last: self.bg_last,
                        bg_ran,
                    }
                }
            },
            SearchLane::Background => *self,
        }
    }

    /// Before the first search.
    pub fn new() -> (r: GateState)
        ensures
            r.global_last is None,
            r.user_last is None,
            r.bg_last is None,
            r.bg_ran is None,
            r.fits(),
            r.wf(),
    {
        GateState { global_last: None, user_last: None, bg_last: None, bg_ran: None }
    }

    /// Whether every time in it leaves room for the longest wait.
    pub fn leaves_room(&self) -> (r: bool)
        ensures
            r == self.fits(),
    {
        has_room(self.global_last) && has_room(self.user_last) && has_room(self.bg_last)
            && has_room(self.bg_ran)
    }

    /// Reserves the next slot for a search of the lane: when it may run.
    pub fn search_gate(&mut self, lane: SearchLane, now: u64) -> (r: u64)
        requires
            old(self).fits(),
        ensures
            r == old(self).grant(lane, now),
            *final(self) == old(self).granted(lane, r),
            r + SEARCH_BG_YIELD <= u64::MAX ==> final(self).fits(),
            old(self).wf() ==> final(self).wf(),
    {
        let seen = self.view_of(lane, now);
        let mut grant: u64 = later(now, seen.global_last, SEARCH_TOTAL_GAP);
        let (my_last, other_last) = match lane {
            SearchLane::User => (seen.user_last, seen.bg_last),
            SearchLane::Background => (seen.bg_last, seen.user_last),
        };
        let other_active = match other_last {
            Some(t) => t + SEARCH_FAIR_WINDOW >= now,
            None => false,
        };
        if other_active {
            grant = later(grant, my_last, SEARCH_LANE_GAP);
        }
        if lane == SearchLane::Background {
            grant = later(grant, self.user_last, SEARCH_BG_YIELD);
        }
        self.global_last = later_of(self.global_last, Some(grant));
        match lane {
            SearchLane::User => {
                self.user_last = Some(grant);
            },
            SearchLane::Background => {
                self.bg_last = Some(grant);
            },
        }
        grant
    }

    /// Whether the background searches in its slot, now that it has come, which is then noted.
    /// It does not where the slot no longer stands: it has to ask for another one.
    pub fn takes_slot(&mut self, slot: u64) -> (r: bool)
        requires
            old(self).fits(),
        ensures
            r == old(self).stands(slot),
            *final(self) == (if r {
                GateState { bg_ran: latest(old(self).bg_ran, Some(slot)), ..*old(self) }
            } else {
                *old(self)
            }),
            slot + SEARCH_BG_YIELD <= u64::MAX ==> final(self).fits(),
    {
        let stands = match self.user_last {
            Some(t) => t + SEARCH_BG_YIELD <= slot,
            None => true,
        };
        if stands {
            self.bg_ran = later_of(self.bg_ran, Some(slot));
        }
        stands
    }
}

/// How long to wait until the granted time.
pub fn wait_for(grant: u64, now: u64) -> (r: u64)
    ensures
        r == (if grant > now {
            grant - now
        } else {
            0
        }),
{
    if grant > now {
        grant - now
    } else {
        0
    }
}

/// A slot that the background has reserved for later delays no client: a client is granted
/// what it would be if no slot of the background lay after now.
pub proof fn law_reserved_slots_delay_no_client(s: GateState, now: u64)
    ensures
        s.grant(SearchLane::User, now) == s.without_later(now).grant(SearchLane::User, now),
        s.without_later(now).bg_last matches Some(t) ==> t <= now,
        s.without_later(now).bg_ran matches Some(t) ==> t <= now,
        s.without_later(now).user_last == s.user_last,
{
}

/// Searches are spaced: none is granted for the past, nor sooner than the gap after a slot of
/// a client or one in which the background searched; and the background gets none sooner than
/// the gap after any slot that was granted.
pub proof fn law_searches_are_spaced(s: GateState, lane: SearchLane, now: u64)
    requires
        s.wf(),
    ensures
        s.grant(lane, now) >= now,
        s.user_last matches Some(t) ==> s.grant(lane, now) >= t + SEARCH_TOTAL_GAP,
        s.bg_ran matches Some(t) ==> t <= now ==> s.grant(lane, now) >= t + SEARCH_TOTAL_GAP,
        s.bg_last matches Some(t) ==> t <= now ==> s.grant(lane, now) >= t + SEARCH_TOTAL_GAP,
        lane is Background ==> (s.global_last matches Some(t) ==> s.grant(lane, now) >= t
            + SEARCH_TOTAL_GAP),
{
}

/// Where the background searches in a slot that it had reserved, no client was granted one
/// within the waiting time before it, and none that is granted from then on comes sooner than
/// the gap after it.
pub proof fn law_reserved_slots_are_given_up(s: GateState, slot: u64, now: u64)
    requires
        s.wf(),
        s.stands(slot),
        slot <= now,
        s.bg_ran matches Some(t) ==> t <= now,
        s.bg_last matches Some(t) && slot <= t,
    ensures
        s.user_last matches Some(t) ==> t + SEARCH_BG_YIELD <= slot,
        (GateState { bg_ran: latest(s.bg_ran, Some(slot)), ..s }).wf(),
        (GateState { bg_ran: latest(s.bg_ran, Some(slot)), ..s }).grant(SearchLane::User, now)
            >= slot + SEARCH_TOTAL_GAP,
{
}

/// While the other lane is active, a lane gets at most every other slot.
pub proof fn law_lanes_share(s: GateState, lane: SearchLane, now: u64)
    requires
        s.seen_by(lane, now).is_active(other(lane), now),
    ensures
        s.last(lane) matches Some(t) ==> s.grant(lane, now) >= t + SEARCH_LANE_GAP,
{
}

/// Nothing is wasted: where the other lane is idle, a search waits for the pace alone. To the
/// background, clients are idle once its waiting time after their last search is over.
pub proof fn law_idle_budget_is_used(s: GateState, lane: SearchLane, now: u64)
    requires
        match lane {
            SearchLane::User => !s.without_later(now).is_active(SearchLane::Background, now),
            SearchLane::Background => s.user_last matches Some(t) ==> t + SEARCH_BG_YIELD <= now,
        },
    ensures
        s.grant(lane, now) == not_before(
            now as int,
            s.seen_by(lane, now).global_last,
            SEARCH_TOTAL_GAP,
        ),
{
}

/// The background never searches within the waiting time after a client's last search.
pub proof fn law_background_yields(s: GateState, now: u64)
    ensures
        s.user_last matches Some(t) ==> s.grant(SearchLane::Background, now) >= t
            + SEARCH_BG_YIELD,
{
}

/// The gaps in milliseconds: two seconds after any search, four after one's own while the
/// other side searches too, and twelve for the background after a client's. A client whose
/// background is idle waits for two seconds after its own last search and no longer.
pub proof fn law_gaps_in_milliseconds(user: Option<u64>, bg: Option<u64>, now: u64)
    ensures
        ({
            let idle = GateState { global_last: user, user_last: user, bg_last: None, bg_ran: None };
            &&& user is None ==> idle.grant(SearchLane::User, now) == now
            &&& user matches Some(t) ==> {
                let next = if t + 2000 > now {
                    t + 2000
                } else {
                    now as int
                };
                &&& idle.grant(SearchLane::User, now) == next
                &&& idle.grant(SearchLane::Background, now) == if t + 12000 > now {
                    t + 12000
                } else {
                    now as int
                }
            }
        }),
        ({
            let both = GateState {
                global_last: latest(user, bg),
                user_last: user,
                bg_last: bg,
                bg_ran: bg,
            };
            user is Some && bg is Some && bg->0 <= now && bg->0 + 4000 >= now ==> both.grant(
                SearchLane::User,
                now,
            ) >= user->0 + 4000 && both.grant(SearchLane::User, now) >= bg->0 + 2000
        }),
        ({
            let alone = GateState { global_last: bg, user_last: None, bg_last: bg, bg_ran: None };
            bg matches Some(t) ==> alone.grant(SearchLane::Background, now) == if t + 2000 > now {
                t + 2000
            } else {
                now as int
            }
        }),
{
}

/// A grant is noted for its own lane, and as the latest of all where it is.
pub proof fn law_grants_are_noted(s: GateState, at: u64)
    ensures
        s.granted(SearchLane::User, at).user_last == Some(at),
        s.granted(SearchLane::User, at).bg_last == s.bg_last,
        s.granted(SearchLane::Background, at).bg_last == Some(at),
        s.granted(SearchLane::Background, at).user_last == s.user_last,
        s.granted(SearchLane::User, at).global_last matches Some(t) && t >= at && (
        s.global_last matches Some(g) ==> t >= g && (t == at || t == g)),
        s.granted(SearchLane::Background, at).global_last matches Some(t) && t >= at && (
        s.global_last matches Some(g) ==> t >= g && (t == at || t == g)),
        s.stands(at) <==> (s.user_last matches Some(t) ==> t + 12000 <= at),
{
}

} // verus!
