//! From a thinking budget to a reasoning effort.
use crate::numerals::{parse_u32, parse_unsigned};
use crate::strmap::StrMap;
use crate::text::{
    char_views, lemma_run_length, lemma_trim_inside, lower, lower_chars, one_of, opt_text, split,
    split_chars, split_once, split_once_chars, to_chars, to_text, trim, trim_chars,
};
use vstd::prelude::*;

verus! {

/// The largest thinking budget that is told apart.
pub const MAX_THINKING_BUDGET: u32 = 16384;

/// Maps a thinking budget to a reasoning effort: tiers for every model, and tiers for
/// models that have their own.
#[derive(Debug)]
pub struct EffortMap {
    global: Vec<(u32, String)>,
    overrides: StrMap<Vec<(u32, String)>>,
}

/// What a tier list is: the budgets up to which, and the efforts.
pub open spec fn tiers_view(v: Seq<(u32, String)>) -> Seq<(u32, Seq<char>)> {
    Seq::new(v.len(), |i: int| (v[i].0, v[i].1@))
}

/// What an effort map is.
pub struct EffortV {
    pub global: Seq<(u32, Seq<char>)>,
    pub overrides: Map<Seq<char>, Seq<(u32, Seq<char>)>>,
}

impl EffortMap {
    pub closed spec fn view(&self) -> EffortV {
        EffortV {
            global: tiers_view(self.global@),
            overrides: self.overrides@.map_values(|v: Vec<(u32, String)>| tiers_view(v@)),
        }
    }
}

/// The tier that `effort:budget` describes.
pub open spec fn tier_of(pair: Seq<char>) -> Option<(u32, Seq<char>)> {
    match split_once(trim(pair), ':') {
        Some((effort, budget)) => match parse_unsigned(trim(budget), u32::MAX as nat) {
            Some(n) => Some((n as u32, lower(trim(effort)))),
            None => None,
        },
        None => None,
    }
}

/// The tier in its place: behind those with a budget that is no larger.
pub open spec fn with_tier(tiers: Seq<(u32, Seq<char>)>, t: (u32, Seq<char>)) -> Seq<
    (u32, Seq<char>),
>
    decreases tiers.len(),
{
    if tiers.len() == 0 || tiers.last().0 <= t.0 {
        tiers.push(t)
    } else {
        with_tier(tiers.drop_last(), t).push(tiers.last())
    }
}

/// The tiers that some pairs describe, by budget; what describes none is passed over.
pub open spec fn tiers_of_pairs(pairs: Seq<Seq<char>>) -> Seq<(u32, Seq<char>)>
    decreases pairs.len(),
{
    if pairs.len() == 0 {
        seq![]
    } else {
        let head = tiers_of_pairs(pairs.drop_last());
        match tier_of(pairs.last()) {
            Some(t) => with_tier(head, t),
            None => head,
        }
    }
}

/// The tiers that a comma-separated list describes.
pub open spec fn tiers_of(spec_text: Seq<char>) -> Seq<(u32, Seq<char>)> {
    tiers_of_pairs(split(spec_text, one_of(seq![','])))
}

/// Budgets do not fall along the list.
pub open spec fn ascending(tiers: Seq<(u32, Seq<char>)>) -> bool {
    forall|i: int, j: int| 0 <= i <= j < tiers.len() ==> (#[trigger] tiers[i]).0 <= (#[trigger] tiers[j]).0
}

impl EffortV {
    /// No tiers at all.
    pub open spec fn nothing() -> EffortV {
        EffortV { global: seq![], overrides: Map::empty() }
    }

    /// After one more segment: `tiers` for every model, `model=tiers` for one.
    pub open spec fn with_segment(self, segment: Seq<char>) -> EffortV {
        match split_once(trim(segment), '=') {
            Some((model, tiers)) => if tiers_of(tiers).len() > 0 {
                EffortV { overrides: self.overrides.insert(trim(model), tiers_of(tiers)), ..self }
            } else {
                self
            },
            None => if trim(segment).len() > 0 && tiers_of(trim(segment)).len() > 0 {
                EffortV { global: tiers_of(trim(segment)), ..self }
            } else {
                self
            },
        }
    }

    /// After some more segments, in their order.
    pub open spec fn with_segments(self, segments: Seq<Seq<char>>) -> EffortV
        decreases segments.len(),
    {
        if segments.len() == 0 {
            self
        } else {
            self.with_segments(segments.drop_last()).with_segment(segments.last())
        }
    }

    /// The tiers for a model: its own, or those for every model.
    pub open spec fn tiers(self, model: Seq<char>) -> Seq<(u32, Seq<char>)> {
        if self.overrides.contains_key(model) && self.overrides[model].len() > 0 {
            self.overrides[model]
        } else {
            self.global
        }
    }
}

/// The first tier from `i` on whose budget is enough, or the last of all.
pub open spec fn tier_from(tiers: Seq<(u32, Seq<char>)>, budget: u32, i: int) -> int
    decreases tiers.len() - i,
{
    if i < 0 || i + 1 >= tiers.len() || budget <= tiers[i].0 {
        i
    } else {
        tier_from(tiers, budget, i + 1)
    }
}

/// The budget, as far as it is told apart.
pub open spec fn within_limit(budget: u32) -> u32 {
    if budget <= MAX_THINKING_BUDGET {
        budget
    } else {
        MAX_THINKING_BUDGET
    }
}

/// The effort that tiers give for a budget.
pub open spec fn effort_for(tiers: Seq<(u32, Seq<char>)>, budget: u32) -> Option<Seq<char>> {
    if tiers.len() == 0 {
        None
    } else {
        Some(tiers[tier_from(tiers, within_limit(budget), 0)].1)
    }
}

fn read_tier(pair: &[char]) -> (r: Option<(u32, String)>)
    ensures
        match tier_of(pair@) {
            Some(t) => r matches Some(x) && x.0 == t.0 && x.1@ == t.1,
            None => r is None,
        },
{
    let trimmed = trim_chars(pair);
    match split_once_chars(trimmed.as_slice(), ':') {
        Some((effort, budget)) => {
            let budget = to_text(trim_chars(budget.as_slice()).as_slice());
            match parse_u32(budget.as_str()) {
                Some(n) => {
                    let effort = lower_chars(trim_chars(effort.as_slice()).as_slice());
                    Some((n, to_text(effort.as_slice())))
                },
                None => None,
            }
        },
        None => None,
    }
}

fn place_tier(tiers: &mut Vec<(u32, String)>, t: (u32, String))
    ensures
        tiers_view(final(tiers)@) == with_tier(tiers_view(old(tiers)@), (t.0, t.1@)),
{
    let ghost all = tiers_view(tiers@);
    let ghost g = (t.0, t.1@);
    let n: usize = tiers.len();
    let mut i: usize = n;
    assert(all.take(n as int) =~= all);
    assert(with_tier(all.take(n as int), g) + all.skip(n as int) =~= with_tier(all, g));
    while i > 0 && tiers[i - 1].0 > t.0
        invariant
            i <= n,
            n == tiers@.len(),
            all == tiers_view(tiers@),
            g == (t.0, t.1@),
            with_tier(all, g) == with_tier(all.take(i as int), g) + all.skip(i as int),
        decreases i,
    {
        proof {
            let head = all.take(i as int);
            assert(head.last() == all[i - 1]);
            assert(head.drop_last() =~= all.take(i - 1));
            assert(with_tier(all.take(i - 1), g).push(all[i - 1]) + all.skip(i as int)
                =~= with_tier(all.take(i - 1), g) + all.skip(i - 1));
        }
        i -= 1;
    }
    proof {
        let head = all.take(i as int);
        if i > 0 {
            assert(head.last() == all[i - 1]);
        }
        assert(with_tier(head, g) == head.push(g));
        assert(head.push(g) + all.skip(i as int) =~= all.insert(i as int, g));
    }
    tiers.insert(i, t);
    assert(tiers_view(tiers@) =~= all.insert(i as int, g));
}

fn parse_tiers(list: &[char]) -> (r: Vec<(u32, String)>)
    ensures
        tiers_view(r@) == tiers_of(list@),
{
    let seps: [char; 1] = [','];
    assert(seps@ =~= seq![',']);
    let pairs = split_chars(list, seps.as_slice());
    let ghost all = char_views(pairs@);
    let mut tiers: Vec<(u32, String)> = Vec::new();
    let n: usize = pairs.len();
    let mut i: usize = 0;
    assert(tiers_view(tiers@) =~= tiers_of_pairs(all.take(0)));
    while i < n
        invariant
            n == pairs@.len(),
            i <= n,
            all == char_views(pairs@),
            tiers_view(tiers@) == tiers_of_pairs(all.take(i as int)),
        decreases n - i,
    {
        assert(all.take(i as int + 1).drop_last() =~= all.take(i as int));
        assert(all.take(i as int + 1).last() == pairs@[i as int]@);
        if let Some(t) = read_tier(pairs[i].as_slice()) {
            place_tier(&mut tiers, t);
        }
        i += 1;
    }
    assert(all.take(n as int) =~= all);
    tiers
}

impl Default for EffortMap {
    fn default() -> (r: Self)
        ensures
            r@ == EffortV::nothing(),
    {
        let r = EffortMap { global: Vec::new(), overrides: StrMap::new() };
        assert(r@.global =~= EffortV::nothing().global);
        assert(r@.overrides =~= EffortV::nothing().overrides);
        r
    }
}

impl EffortMap {
    fn take_segment(&mut self, segment: &[char])
        ensures
            final(self)@ == old(self)@.with_segment(segment@),
    {
        let segment = trim_chars(segment);
        if segment.len() == 0 {
            proof {
                lemma_no_split(segment@, '=');
            }
            return;
        }
        match split_once_chars(segment.as_slice(), '=') {
            Some((model, list)) => {
                let tiers = parse_tiers(list.as_slice());
                if tiers.len() > 0 {
                    let ghost before = self.overrides@;
                    let ghost view = tiers_view(tiers@);
                    let name = to_text(trim_chars(model.as_slice()).as_slice());
                    let ghost key = name@;
                    self.overrides.insert(name, tiers);
                    assert(self@.overrides =~= old(self)@.overrides.insert(key, view));
                }
            },
            None => {
                let tiers = parse_tiers(segment.as_slice());
                if tiers.len() > 0 {
                    self.global = tiers;
                }
            },
        }
    }

    /// Reads `low:2048,high:16384;some-model=low:512,high:16384`: a segment without `=` sets
    /// the tiers for every model, `model=tiers` those of one. Each tier is `effort:budget`.
    pub fn parse(text: &str) -> (r: EffortMap)
        ensures
            r@ == EffortV::nothing().with_segments(split(text@, one_of(seq![';']))),
    {
        let seps: [char; 1] = [';'];
        assert(seps@ =~= seq![';']);
        let cs = to_chars(text);
        let segments = split_chars(cs.as_slice(), seps.as_slice());
        let ghost all = char_views(segments@);
        let mut map = EffortMap::default();
        let n: usize = segments.len();
        let mut i: usize = 0;
        assert(all.take(0) =~= Seq::<Seq<char>>::empty());
        while i < n
            invariant
                n == segments@.len(),
                i <= n,
                all == char_views(segments@),
                map@ == EffortV::nothing().with_segments(all.take(i as int)),
            decreases n - i,
        {
            assert(all.take(i as int + 1).drop_last() =~= all.take(i as int));
            assert(all.take(i as int + 1).last() == segments@[i as int]@);
            map.take_segment(segments[i].as_slice());
            i += 1;
        }
        assert(all.take(n as int) =~= all);
        map
    }

    /// Whether there are no tiers at all.
    pub fn is_empty(&self) -> (r: bool)
        ensures
            r == (self@.global.len() == 0 && self@.overrides.dom() == Set::<Seq<char>>::empty()),
    {
        let r = self.global.len() == 0 && self.overrides.is_empty();
        proof {
            if self.overrides@.dom() =~= Set::<Seq<char>>::empty() {
                assert(self@.overrides.dom() =~= Set::<Seq<char>>::empty());
            }
        }
        r
    }

    /// The effort for a model and a thinking budget: that of the first tier whose budget is
    /// enough, or of the last one; none where no tiers apply.
    pub fn resolve(&self, model: &str, budget: u32) -> (r: Option<String>)
        ensures
            opt_text(r) == effort_for(self@.tiers(model@), budget),
    {
        let tiers = match self.overrides.get(model) {
            Some(own) => if own.len() > 0 {
                own
            } else {
                &self.global
            },
            None => &self.global,
        };
        let ghost view = tiers_view(tiers@);
        assert(view == self@.tiers(model@));
        let n: usize = tiers.len();
        if n == 0 {
            return None;
        }
        let limit: u32 = if budget <= MAX_THINKING_BUDGET {
            budget
        } else {
            MAX_THINKING_BUDGET
        };
        let mut i: usize = 0;
        while i + 1 < n && limit > tiers[i].0
            invariant
                n == tiers@.len(),
                n > 0,
                i < n,
                view == tiers_view(tiers@),
                limit == within_limit(budget),
                tier_from(view, limit, 0) == tier_from(view, limit, i as int),
            decreases n - i,
        {
            i += 1;
        }
        Some(tiers[i].1.clone())
    }
}

proof fn lemma_no_split(s: Seq<char>, c: char)
    requires
        s.len() == 0,
    ensures
        split_once(s, c) is None,
{
}

// ---------------------------------------------------------------------------
// What holds of every effort map
// ---------------------------------------------------------------------------
proof fn lemma_with_tier(tiers: Seq<(u32, Seq<char>)>, t: (u32, Seq<char>))
    requires
        ascending(tiers),
    ensures
        ascending(with_tier(tiers, t)),
        with_tier(tiers, t).len() == tiers.len() + 1,
        tiers.len() > 0 ==> with_tier(tiers, t).last().0 >= tiers.last().0,
        with_tier(tiers, t).last().0 >= t.0,
        with_tier(tiers, t).last().0 == t.0 || (tiers.len() > 0 && with_tier(tiers, t).last().0
            == tiers.last().0),
    decreases tiers.len(),
{
    if tiers.len() > 0 && tiers.last().0 > t.0 {
        let rest = tiers.drop_last();
        assert(ascending(rest)) by {
            assert forall|i: int, j: int| 0 <= i <= j < rest.len() implies (#[trigger] rest[i]).0
                <= (#[trigger] rest[j]).0 by {
                assert(tiers[i].0 <= tiers[j].0);
            }
        }
        lemma_with_tier(rest, t);
        let r = with_tier(rest, t).push(tiers.last());
        if rest.len() > 0 {
            assert(rest.last() == tiers[tiers.len() - 2]);
            assert(tiers[tiers.len() - 2].0 <= tiers[tiers.len() - 1].0);
        }
        assert forall|i: int, j: int| 0 <= i <= j < r.len() implies (#[trigger] r[i]).0 <= (
        #[trigger] r[j]).0 by {
            let w = with_tier(rest, t);
            if j < w.len() {
                assert(w[i].0 <= w[j].0);
            } else if i < w.len() {
                assert(w[i].0 <= w[w.len() - 1].0);
            }
        }
    } else {
        let r = tiers.push(t);
        assert forall|i: int, j: int| 0 <= i <= j < r.len() implies (#[trigger] r[i]).0 <= (
        #[trigger] r[j]).0 by {
            if j < tiers.len() {
                assert(tiers[i].0 <= tiers[j].0);
            } else if i < tiers.len() {
                assert(tiers[i].0 <= tiers[tiers.len() - 1].0);
            }
        }
    }
}

/// Tiers come by ascending budget, in whatever order they are written.
pub proof fn law_tiers_ascend(pairs: Seq<Seq<char>>)
    ensures
        ascending(tiers_of_pairs(pairs)),
    decreases pairs.len(),
{
    if pairs.len() > 0 {
        law_tiers_ascend(pairs.drop_last());
        if let Some(t) = tier_of(pairs.last()) {
            lemma_with_tier(tiers_of_pairs(pairs.drop_last()), t);
        }
    }
}

/// The tiers that pairs describe, in the order in which they are written.
pub open spec fn tiers_as_written(pairs: Seq<Seq<char>>) -> Seq<(u32, Seq<char>)>
    decreases pairs.len(),
{
    if pairs.len() == 0 {
        seq![]
    } else {
        let head = tiers_as_written(pairs.drop_last());
        match tier_of(pairs.last()) {
            Some(t) => head.push(t),
            None => head,
        }
    }
}

/// The test for a tier with the given budget.
pub open spec fn has_budget(budget: u32) -> spec_fn((u32, Seq<char>)) -> bool {
    |t: (u32, Seq<char>)| t.0 == budget
}

proof fn lemma_filter_push<A>(s: Seq<A>, a: A, p: spec_fn(A) -> bool)
    ensures
        s.push(a).filter(p) == (if p(a) {
            s.filter(p).push(a)
        } else {
            s.filter(p)
        }),
{
    reveal(Seq::filter);
    assert(s.push(a).drop_last() =~= s);
}

proof fn lemma_with_tier_filter(tiers: Seq<(u32, Seq<char>)>, t: (u32, Seq<char>), budget: u32)
    ensures
        with_tier(tiers, t).filter(has_budget(budget)) == tiers.push(t).filter(has_budget(budget)),
    decreases tiers.len(),
{
    let p = has_budget(budget);
    if tiers.len() > 0 && tiers.last().0 > t.0 {
        let rest = tiers.drop_last();
        lemma_with_tier_filter(rest, t, budget);
        lemma_filter_push(with_tier(rest, t), tiers.last(), p);
        lemma_filter_push(rest, t, p);
        lemma_filter_push(rest, tiers.last(), p);
        assert(rest.push(tiers.last()) =~= tiers);
        lemma_filter_push(tiers, t, p);
    }
}

/// Nothing is lost and nothing is added, and tiers with the same budget keep the order in
/// which they are written.
pub proof fn law_tiers_are_kept(pairs: Seq<Seq<char>>, budget: u32)
    ensures
        tiers_of_pairs(pairs).filter(has_budget(budget)) == tiers_as_written(pairs).filter(
            has_budget(budget),
        ),
    decreases pairs.len(),
{
    if pairs.len() > 0 {
        law_tiers_are_kept(pairs.drop_last(), budget);
        if let Some(t) = tier_of(pairs.last()) {
            let p = has_budget(budget);
            lemma_with_tier_filter(tiers_of_pairs(pairs.drop_last()), t, budget);
            lemma_filter_push(tiers_of_pairs(pairs.drop_last()), t, p);
            lemma_filter_push(tiers_as_written(pairs.drop_last()), t, p);
        }
    }
}

/// Each tier has a budget of its own.
pub open spec fn distinct_budgets(tiers: Seq<(u32, Seq<char>)>) -> bool {
    forall|i: int, j: int|
        0 <= i < j < tiers.len() ==> (#[trigger] tiers[i]).0 != (#[trigger] tiers[j]).0
}

proof fn lemma_same_items<A>(a: Seq<A>, b: Seq<A>)
    requires
        a.to_multiset() == b.to_multiset(),
    ensures
        a.len() == b.len(),
        forall|x: A| #[trigger] a.contains(x) ==> b.contains(x),
        forall|x: A| #[trigger] b.contains(x) ==> a.contains(x),
{
    broadcast use vstd::seq_lib::group_to_multiset_ensures;

    assert(a.len() == a.to_multiset().len() && b.len() == b.to_multiset().len());
    assert forall|x: A| #[trigger] a.contains(x) implies b.contains(x) by {
        assert(a.to_multiset().count(x) > 0);
        assert(b.to_multiset().count(x) > 0);
    }
    assert forall|x: A| #[trigger] b.contains(x) implies a.contains(x) by {
        assert(b.to_multiset().count(x) > 0);
        assert(a.to_multiset().count(x) > 0);
    }
}

proof fn lemma_with_tier_multiset(tiers: Seq<(u32, Seq<char>)>, t: (u32, Seq<char>))
    ensures
        with_tier(tiers, t).to_multiset() =~= tiers.to_multiset().insert(t),
    decreases tiers.len(),
{
    broadcast use vstd::seq_lib::group_to_multiset_ensures;

    if tiers.len() > 0 && tiers.last().0 > t.0 {
        let rest = tiers.drop_last();
        lemma_with_tier_multiset(rest, t);
        assert(rest.push(tiers.last()) =~= tiers);
    }
}

proof fn lemma_tiers_multiset(pairs: Seq<Seq<char>>)
    ensures
        tiers_of_pairs(pairs).to_multiset() =~= tiers_as_written(pairs).to_multiset(),
    decreases pairs.len(),
{
    broadcast use vstd::seq_lib::group_to_multiset_ensures;

    if pairs.len() > 0 {
        lemma_tiers_multiset(pairs.drop_last());
        if let Some(t) = tier_of(pairs.last()) {
            lemma_with_tier_multiset(tiers_of_pairs(pairs.drop_last()), t);
        }
    }
}

proof fn lemma_with_tier_distinct(tiers: Seq<(u32, Seq<char>)>, t: (u32, Seq<char>))
    requires
        distinct_budgets(tiers),
        forall|i: int| 0 <= i < tiers.len() ==> (#[trigger] tiers[i]).0 != t.0,
    ensures
        distinct_budgets(with_tier(tiers, t)),
{
    lemma_with_tier_place(tiers, t);
    let k = choose|k: int|
        0 <= k <= tiers.len() && with_tier(tiers, t) == #[trigger] tiers.insert(k, t);
    let r = tiers.insert(k, t);
    assert forall|i: int, j: int| 0 <= i < j < r.len() implies (#[trigger] r[i]).0 != (
    #[trigger] r[j]).0 by {
        let a = if i < k {
            i
        } else {
            i - 1
        };
        let b = if j < k {
            j
        } else {
            j - 1
        };
        if i == k {
            assert(r[j] == tiers[b]);
        } else if j == k {
            assert(r[i] == tiers[a]);
        } else {
            assert(r[i] == tiers[a] && r[j] == tiers[b]);
        }
    }
}

proof fn lemma_with_tier_place(tiers: Seq<(u32, Seq<char>)>, t: (u32, Seq<char>))
    ensures
        exists|k: int|
            0 <= k <= tiers.len() && with_tier(tiers, t) == #[trigger] tiers.insert(k, t),
    decreases tiers.len(),
{
    if tiers.len() > 0 && tiers.last().0 > t.0 {
        let rest = tiers.drop_last();
        lemma_with_tier_place(rest, t);
        let k = choose|k: int|
            0 <= k <= rest.len() && with_tier(rest, t) == #[trigger] rest.insert(k, t);
        assert(rest.insert(k, t).push(tiers.last()) =~= tiers.insert(k, t));
    } else {
        assert(tiers.push(t) =~= tiers.insert(tiers.len() as int, t));
    }
}

proof fn lemma_tiers_distinct(pairs: Seq<Seq<char>>)
    requires
        distinct_budgets(tiers_as_written(pairs)),
    ensures
        distinct_budgets(tiers_of_pairs(pairs)),
    decreases pairs.len(),
{
    broadcast use vstd::seq_lib::group_to_multiset_ensures;

    if pairs.len() > 0 {
        let rest = pairs.drop_last();
        let written = tiers_as_written(rest);
        let all = tiers_as_written(pairs);
        assert(distinct_budgets(written)) by {
            assert forall|i: int, j: int| 0 <= i < j < written.len() implies (
            #[trigger] written[i]).0 != (#[trigger] written[j]).0 by {
                assert(all[i] == written[i] && all[j] == written[j]);
            }
        }
        lemma_tiers_distinct(rest);
        if let Some(t) = tier_of(pairs.last()) {
            let sorted = tiers_of_pairs(rest);
            lemma_tiers_multiset(rest);
            lemma_same_items(sorted, written);
            assert forall|i: int| 0 <= i < sorted.len() implies (#[trigger] sorted[i]).0 != t.0 by {
                assert(sorted.contains(sorted[i]));
                assert(written.contains(sorted[i]));
                let j = choose|j: int| 0 <= j < written.len() && written[j] == sorted[i];
                assert(all[j] == written[j] && all[written.len() as int] == t);
            }
            lemma_with_tier_distinct(sorted, t);
        }
    }
}

proof fn lemma_ascending_unique(a: Seq<(u32, Seq<char>)>, b: Seq<(u32, Seq<char>)>)
    requires
        ascending(a),
        ascending(b),
        distinct_budgets(a),
        distinct_budgets(b),
        a.to_multiset() == b.to_multiset(),
    ensures
        a == b,
    decreases a.len(),
{
    broadcast use vstd::seq_lib::group_to_multiset_ensures;

    lemma_same_items(a, b);
    if a.len() > 0 {
        let (x, y) = (a.last(), b.last());
        let (c, d) = (a.drop_last(), b.drop_last());
        let n = a.len() as int;
        assert(a.contains(a[n - 1]) && b.contains(b[n - 1]));
        assert(b.contains(x) && a.contains(y));
        let i = choose|i: int| 0 <= i < b.len() && b[i] == x;
        let j = choose|j: int| 0 <= j < a.len() && a[j] == y;
        assert(b[i].0 <= b[n - 1].0 && a[j].0 <= a[n - 1].0);
        assert(x == y);
        assert(a =~= c.push(x) && b =~= d.push(y));
        assert(c.to_multiset() =~= a.to_multiset().remove(x));
        assert(d.to_multiset() =~= b.to_multiset().remove(y));
        assert forall|i: int, j: int| 0 <= i <= j < c.len() implies (#[trigger] c[i]).0 <= (
        #[trigger] c[j]).0 by {
            assert(c[i] == a[i] && c[j] == a[j]);
        }
        assert forall|i: int, j: int| 0 <= i <= j < d.len() implies (#[trigger] d[i]).0 <= (
        #[trigger] d[j]).0 by {
            assert(d[i] == b[i] && d[j] == b[j]);
        }
        assert forall|i: int, j: int| 0 <= i < j < c.len() implies (#[trigger] c[i]).0 != (
        #[trigger] c[j]).0 by {
            assert(c[i] == a[i] && c[j] == a[j]);
        }
        assert forall|i: int, j: int| 0 <= i < j < d.len() implies (#[trigger] d[i]).0 != (
        #[trigger] d[j]).0 by {
            assert(d[i] == b[i] && d[j] == b[j]);
        }
        lemma_ascending_unique(c, d);
    } else {
        assert(a =~= b);
    }
}

proof fn lemma_same_tiers(a: Seq<Seq<char>>, b: Seq<Seq<char>>)
    requires
        tiers_as_written(a).to_multiset() == tiers_as_written(b).to_multiset(),
        distinct_budgets(tiers_as_written(a)),
        distinct_budgets(tiers_as_written(b)),
    ensures
        tiers_of_pairs(a) == tiers_of_pairs(b),
{
    law_tiers_ascend(a);
    law_tiers_ascend(b);
    lemma_tiers_multiset(a);
    lemma_tiers_multiset(b);
    lemma_tiers_distinct(a);
    lemma_tiers_distinct(b);
    lemma_ascending_unique(tiers_of_pairs(a), tiers_of_pairs(b));
}

proof fn lemma_distinct_elsewhere(a: Seq<(u32, Seq<char>)>, b: Seq<(u32, Seq<char>)>)
    requires
        a.to_multiset() == b.to_multiset(),
        distinct_budgets(a),
    ensures
        distinct_budgets(b),
{
    broadcast use vstd::seq_lib::group_to_multiset_ensures;

    lemma_same_items(a, b);
    assert forall|i: int, j: int| 0 <= i < j < b.len() implies (#[trigger] b[i]).0 != (
    #[trigger] b[j]).0 by {
        assert(b.contains(b[i]) && b.contains(b[j]));
        assert(a.contains(b[i]) && a.contains(b[j]));
        let x = choose|x: int| 0 <= x < a.len() && a[x] == b[i];
        let y = choose|y: int| 0 <= y < a.len() && a[y] == b[j];
        if b[i].0 == b[j].0 {
            assert(x == y);
            lemma_twice(b, i, j);
            lemma_once(a, x);
        }
    }
}

proof fn lemma_twice(s: Seq<(u32, Seq<char>)>, i: int, j: int)
    requires
        0 <= i < j < s.len(),
        s[i] == s[j],
    ensures
        s.to_multiset().count(s[i]) >= 2,
{
    broadcast use vstd::seq_lib::group_to_multiset_ensures;

    let r = s.remove(j);
    assert(r[i] == s[i]);
    assert(r.contains(s[i]));
    assert(s =~= r.insert(j, s[j]));
    assert(s.to_multiset() =~= r.to_multiset().insert(s[j]));
}

proof fn lemma_once(s: Seq<(u32, Seq<char>)>, i: int)
    requires
        0 <= i < s.len(),
        distinct_budgets(s),
    ensures
        s.to_multiset().count(s[i]) == 1,
{
    broadcast use vstd::seq_lib::group_to_multiset_ensures;

    let r = s.remove(i);
    if r.contains(s[i]) {
        let k = choose|k: int| 0 <= k < r.len() && r[k] == s[i];
        if k < i {
            assert(s[k] == s[i]);
        } else {
            assert(s[k + 1] == s[i]);
        }
    }
    assert(s =~= r.insert(i, s[i]));
    assert(s.to_multiset() =~= r.to_multiset().insert(s[i]));
}

/// The order in which pairs are written does not matter where each budget occurs once: the
/// same pairs give the same tiers.
pub proof fn law_order_of_pairs_is_free(a: Seq<Seq<char>>, b: Seq<Seq<char>>)
    requires
        a.to_multiset() == b.to_multiset(),
        distinct_budgets(tiers_as_written(a)),
    ensures
        tiers_of_pairs(a) == tiers_of_pairs(b),
{
    lemma_written_multiset(a, b);
    lemma_distinct_elsewhere(tiers_as_written(a), tiers_as_written(b));
    lemma_same_tiers(a, b);
}

proof fn lemma_written_without(pairs: Seq<Seq<char>>, k: int)
    requires
        0 <= k < pairs.len(),
    ensures
        tiers_as_written(pairs).to_multiset() =~= (match tier_of(pairs[k]) {
            Some(t) => tiers_as_written(pairs.remove(k)).to_multiset().insert(t),
            None => tiers_as_written(pairs.remove(k)).to_multiset(),
        }),
    decreases pairs.len(),
{
    broadcast use vstd::seq_lib::group_to_multiset_ensures;

    let n = pairs.len() as int;
    if k == n - 1 {
        assert(pairs.remove(k) =~= pairs.drop_last());
    } else {
        lemma_written_without(pairs.drop_last(), k);
        assert(pairs.remove(k).drop_last() =~= pairs.drop_last().remove(k));
        assert(pairs.remove(k).last() == pairs.last());
        assert(pairs.drop_last()[k] == pairs[k]);
    }
}

proof fn lemma_written_multiset(a: Seq<Seq<char>>, b: Seq<Seq<char>>)
    requires
        a.to_multiset() == b.to_multiset(),
    ensures
        tiers_as_written(a).to_multiset() =~= tiers_as_written(b).to_multiset(),
    decreases a.len(),
{
    broadcast use vstd::seq_lib::group_to_multiset_ensures;

    lemma_same_items(a, b);
    if a.len() == 0 {
        assert(a =~= b);
    } else {
        let x = a.last();
        let c = a.drop_last();
        assert(a =~= c.push(x));
        assert(a.contains(a[a.len() - 1]));
        assert(b.contains(x));
        let k = choose|k: int| 0 <= k < b.len() && b[k] == x;
        let d = b.remove(k);
        assert(b =~= d.insert(k, x));
        assert(c.to_multiset() =~= a.to_multiset().remove(x));
        assert(d.to_multiset() =~= b.to_multiset().remove(x));
        lemma_written_multiset(c, d);
        lemma_written_without(b, k);
        assert(tiers_as_written(a) == (match tier_of(x) {
            Some(t) => tiers_as_written(c).push(t),
            None => tiers_as_written(c),
        }));
    }
}

/// The pairs that a text lists.
pub open spec fn pairs_of(text: Seq<char>) -> Seq<Seq<char>> {
    split(trim(text), one_of(seq![',']))
}

/// A text that only sets the tiers for every model.
pub open spec fn is_one_segment(text: Seq<char>) -> bool {
    !text.contains(';') && !text.contains('=')
}

proof fn lemma_one_segment(text: Seq<char>, model: Seq<char>)
    requires
        is_one_segment(text),
    ensures
        EffortV::nothing().with_segments(split(text, one_of(seq![';']))).tiers(model)
            == tiers_of_pairs(pairs_of(text)),
{
    let n = text.len() as int;
    let semi = one_of(seq![';']);
    assert forall|j: int| 0 <= j < n implies !semi(#[trigger] text[j]) by {
        assert(text.contains(text[j]));
    }
    lemma_run_length(text, semi, n);
    let segments = split(text, semi);
    assert(segments =~= seq![text]);
    assert(segments.drop_last() =~= Seq::<Seq<char>>::empty());
    assert(EffortV::nothing().with_segments(segments.drop_last()) == EffortV::nothing());
    let t = trim(text);
    let (a, b) = lemma_trim_inside(text);
    let equal = one_of(seq!['=']);
    assert forall|j: int| 0 <= j < t.len() implies !equal(#[trigger] t[j]) by {
        assert(t[j] == text[a + j]);
        assert(text.contains(text[a + j]));
    }
    lemma_run_length(t, equal, t.len() as int);
    assert(split_once(t, '=') is None);
    if t.len() == 0 {
        let comma = one_of(seq![',']);
        lemma_run_length(t, comma, 0);
        assert(split(t, comma) =~= seq![t]);
        assert(trim(t) =~= t);
        lemma_no_split(t, ':');
        assert(tier_of(t) is None);
        assert(seq![t].drop_last() =~= Seq::<Seq<char>>::empty());
        assert(tiers_of_pairs(seq![t].drop_last()) =~= Seq::<(u32, Seq<char>)>::empty());
        assert(tiers_of_pairs(seq![t]) =~= Seq::<(u32, Seq<char>)>::empty());
    }
    if tiers_of(t).len() == 0 {
        assert(tiers_of(t) =~= Seq::<(u32, Seq<char>)>::empty());
    }
}

/// Two texts that list the same pairs for every model, each budget once and in whatever
/// order, give every model the same effort for every budget.
pub proof fn law_order_of_tiers_is_free(
    s: Seq<char>,
    t: Seq<char>,
    model: Seq<char>,
    budget: u32,
)
    requires
        is_one_segment(s),
        is_one_segment(t),
        tiers_as_written(pairs_of(s)).to_multiset() == tiers_as_written(pairs_of(t)).to_multiset(),
        distinct_budgets(tiers_as_written(pairs_of(s))),
    ensures
        ({
            let a = EffortV::nothing().with_segments(split(s, one_of(seq![';'])));
            let b = EffortV::nothing().with_segments(split(t, one_of(seq![';'])));
            effort_for(a.tiers(model), budget) == effort_for(b.tiers(model), budget)
        }),
{
    lemma_one_segment(s, model);
    lemma_one_segment(t, model);
    lemma_distinct_elsewhere(tiers_as_written(pairs_of(s)), tiers_as_written(pairs_of(t)));
    lemma_same_tiers(pairs_of(s), pairs_of(t));
}

proof fn lemma_tier_from(tiers: Seq<(u32, Seq<char>)>, budget: u32, i: int)
    requires
        0 <= i < tiers.len(),
    ensures
        i <= tier_from(tiers, budget, i) < tiers.len(),
        forall|k: int| i <= k < tier_from(tiers, budget, i) ==> (#[trigger] tiers[k]).0 < budget,
        tier_from(tiers, budget, i) == tiers.len() - 1 || budget <= tiers[tier_from(
            tiers,
            budget,
            i,
        )].0,
    decreases tiers.len() - i,
{
    if !(i + 1 >= tiers.len() || budget <= tiers[i].0) {
        lemma_tier_from(tiers, budget, i + 1);
    }
}

/// A tier whose budget is enough is taken where there is one, and no earlier one would do;
/// where there is none, the last tier is taken.
pub proof fn law_first_sufficient_tier(tiers: Seq<(u32, Seq<char>)>, budget: u32)
    requires
        tiers.len() > 0,
    ensures
        ({
            let k = tier_from(tiers, within_limit(budget), 0);
            &&& 0 <= k < tiers.len()
            &&& effort_for(tiers, budget) == Some(tiers[k].1)
            &&& forall|j: int| 0 <= j < k ==> (#[trigger] tiers[j]).0 < within_limit(budget)
            &&& within_limit(budget) <= tiers[k].0 || k == tiers.len() - 1
        }),
{
    lemma_tier_from(tiers, within_limit(budget), 0);
}

/// A larger budget never gets an earlier tier.
pub proof fn law_more_budget_no_less_effort(
    tiers: Seq<(u32, Seq<char>)>,
    less: u32,
    more: u32,
)
    requires
        tiers.len() > 0,
        less <= more,
    ensures
        tier_from(tiers, within_limit(less), 0) <= tier_from(tiers, within_limit(more), 0),
{
    lemma_tier_from(tiers, within_limit(less), 0);
    lemma_tier_from(tiers, within_limit(more), 0);
    let a = tier_from(tiers, within_limit(less), 0);
    let b = tier_from(tiers, within_limit(more), 0);
    if b < a {
        assert(tiers[b].0 < within_limit(less));
    }
}

/// Budgets over the limit are not told apart.
pub proof fn law_budget_is_limited(tiers: Seq<(u32, Seq<char>)>, budget: u32)
    requires
        budget >= MAX_THINKING_BUDGET,
    ensures
        effort_for(tiers, budget) == effort_for(tiers, MAX_THINKING_BUDGET),
{
}

} // verus!
