//! The genetic search for an order of joining: its settings, its size, and how
//! a tour through the relations becomes a join.
use vstd::prelude::*;
use vstd::arithmetic::power2::{lemma2_to64, lemma_pow2_unfold, pow2};
use crate::error::PlannerError;
use crate::list::List;

verus! {

/// The settings of the search. Numbers that are not whole are given by the
/// bits of a floating-point number.
#[derive(Clone, Copy, Debug, PartialEq, Eq, Structural)]
pub struct GeqoSettings {
    pub enabled: bool,
    pub threshold: i32,
    pub effort: i32,
    pub pool_size: i32,
    pub generations: i32,
    pub selection_bias: u64,
    pub seed: u64,
}

/// How much is done unless something else is asked for.
pub const DEFAULT_EFFORT: i32 = 5;

/// From how many relations on the search is used.
pub const DEFAULT_THRESHOLD: i32 = 12;

/// The bits of 2.0.
pub const DEFAULT_SELECTION_BIAS: u64 = 0x4000_0000_0000_0000;

/// The settings to begin with.
pub open spec fn default_settings() -> GeqoSettings {
    GeqoSettings {
        enabled: true,
        threshold: DEFAULT_THRESHOLD,
        effort: DEFAULT_EFFORT,
        pool_size: 0,
        generations: 0,
        selection_bias: DEFAULT_SELECTION_BIAS,
        seed: 0,
    }
}

/// The settings to begin with.
pub fn install_gucs() -> (r: GeqoSettings)
    ensures
        r == default_settings(),
{
    GeqoSettings {
        enabled: true,
        threshold: DEFAULT_THRESHOLD,
        effort: DEFAULT_EFFORT,
        pool_size: 0,
        generations: 0,
        selection_bias: DEFAULT_SELECTION_BIAS,
        seed: 0,
    }
}

impl GeqoSettings {
    pub fn enable_geqo(&self) -> (r: bool)
        ensures
            r == self.enabled,
    {
        self.enabled
    }

    pub fn geqo_threshold(&self) -> (r: i32)
        ensures
            r == self.threshold,
    {
        self.threshold
    }

    pub fn geqo_seed(&self) -> (r: u64)
        ensures
            r == self.seed,
    {
        self.seed
    }

    pub fn set_enable_geqo(&mut self, value: bool)
        ensures
            *final(self) == (GeqoSettings { enabled: value, ..*old(self) }),
    {
        self.enabled = value;
    }

    pub fn set_geqo_threshold(&mut self, value: i32)
        ensures
            *final(self) == (GeqoSettings { threshold: value, ..*old(self) }),
    {
        self.threshold = value;
    }

    pub fn set_geqo_effort(&mut self, value: i32)
        ensures
            *final(self) == (GeqoSettings { effort: value, ..*old(self) }),
    {
        self.effort = value;
    }

    pub fn set_geqo_pool_size(&mut self, value: i32)
        ensures
            *final(self) == (GeqoSettings { pool_size: value, ..*old(self) }),
    {
        self.pool_size = value;
    }

    pub fn set_geqo_generations(&mut self, value: i32)
        ensures
            *final(self) == (GeqoSettings { generations: value, ..*old(self) }),
    {
        self.generations = value;
    }

    pub fn set_geqo_selection_bias(&mut self, value: u64)
        ensures
            *final(self) == (GeqoSettings { selection_bias: value, ..*old(self) }),
    {
        self.selection_bias = value;
    }

    pub fn set_geqo_seed(&mut self, value: u64)
        ensures
            *final(self) == (GeqoSettings { seed: value, ..*old(self) }),
    {
        self.seed = value;
    }
}

/// The size of the pool for so many relations: the one that is set, if it is
/// at least 2; else a power of two, but no less than 10 and no more than 50
/// times the effort.
pub open spec fn pool_size_for(s: GeqoSettings, nr_rel: i32) -> int {
    let max = 50 * s.effort;
    let min = 10 * s.effort;
    if s.pool_size >= 2 {
        s.pool_size as int
    } else if nr_rel < -1 {
        // The power of two lies between 0 and 1.
        if max <= 0 {
            max
        } else {
            min
        }
    } else {
        let size = pow2((nr_rel + 1) as nat) as int;
        if size > max {
            max
        } else if size < min {
            min
        } else {
            size
        }
    }
}

/// Finds the size of the pool for so many relations.
pub fn gimme_pool_size(s: &GeqoSettings, nr_rel: i32) -> (r: i32)
    requires
        s.pool_size < 2 ==> i32::MIN <= 50 * s.effort <= i32::MAX,
    ensures
        r == pool_size_for(*s, nr_rel),
{
    if s.pool_size >= 2 {
        return s.pool_size;
    }
    let max: i32 = 50 * s.effort;
    let min: i32 = 10 * s.effort;
    if nr_rel < -1 {
        if max <= 0 {
            return max;
        }
        return min;
    }
    let mut size: i64 = 1;
    let mut i: i64 = 0;
    let target: i64 = nr_rel as i64 + 1;
    proof {
        lemma2_to64();
    }
    while i < target
        invariant
            0 <= i <= target,
            target == nr_rel + 1,
            size == pow2(i as nat),
            1 <= size <= 0x1_0000_0000,
            max <= i32::MAX,
            s.pool_size < 2,
            max == 50 * s.effort,
        decreases target - i,
    {
        if size > max as i64 {
            proof {
                lemma_pow2_grows(i as nat, target as nat);
            }
            return max;
        }
        proof {
            lemma_pow2_unfold((i + 1) as nat);
        }
        size = size * 2;
        i = i + 1;
    }
    if size > max as i64 {
        return max;
    }
    if size < min as i64 {
        return min;
    }
    size as i32
}

proof fn lemma_pow2_grows(a: nat, b: nat)
    requires
        a <= b,
    ensures
        pow2(a) <= pow2(b),
    decreases b,
{
    if a < b {
        lemma_pow2_grows(a, (b - 1) as nat);
        lemma_pow2_unfold(b);
        vstd::arithmetic::power2::lemma_pow2_pos((b - 1) as nat);
    }
}

/// The number of generations: the one that is set, or else the size of the
/// pool.
pub fn gimme_number_generations(s: &GeqoSettings, pool_size: i32) -> (r: i32)
    ensures
        r == if s.generations > 0 {
            s.generations
        } else {
            pool_size
        },
{
    if s.generations > 0 {
        return s.generations;
    }
    pool_size
}

/// How a search is carried out.
#[derive(Clone, Copy, Debug, PartialEq, Eq, Structural)]
pub struct GeqoRun {
    pub pool_size: i32,
    pub generations: i32,
    pub string_length: i32,
    pub seed: u64,
    pub selection_bias: u64,
}

/// Lays out a search for so many relations.
pub fn geqo(s: &GeqoSettings, nr_rel: i32) -> (r: GeqoRun)
    requires
        s.pool_size < 2 ==> i32::MIN <= 50 * s.effort <= i32::MAX,
    ensures
        r == run_for(*s, nr_rel),
        r.pool_size == pool_size_for(*s, nr_rel),
{
    let pool_size: i32 = gimme_pool_size(s, nr_rel);
    GeqoRun {
        pool_size,
        generations: gimme_number_generations(s, pool_size),
        string_length: nr_rel,
        seed: s.seed,
        selection_bias: s.selection_bias,
    }
}

/// A join of some of the relations.
#[derive(Clone, Copy, Debug, PartialEq, Eq, Structural)]
pub struct Clump {
    pub joinrel: u32,
    /// How many relations it joins.
    pub size: u32,
}

/// A clump that is to be merged with one of the others: those that it could
/// not be merged with, and those that are still to be tried.
#[derive(Debug)]
pub struct MergeState {
    pub new: Clump,
    pub tried: List<Clump>,
    pub left: List<Clump>,
}

/// What came of an attempt to merge: whether the join is wanted and legal, and
/// what it is then.
#[derive(Clone, Copy, Debug, PartialEq, Eq, Structural)]
pub enum MergeOutcome {
    Failed,
    Joined(u32),
}

/// The list with one more at its end.
pub open spec fn pushed(l: List<Clump>, c: Clump) -> List<Clump> {
    l.then_list(List::Cons(c, Box::new(List::Nil)))
}

/// The list with a clump before the first that is smaller.
pub open spec fn by_size(l: List<Clump>, c: Clump) -> List<Clump>
    decreases l,
{
    match l {
        List::Nil => List::Cons(c, Box::new(List::Nil)),
        List::Cons(x, xs) => if c.size > x.size {
            List::Cons(c, Box::new(l))
        } else {
            List::Cons(x, Box::new(by_size(*xs, c)))
        },
    }
}

/// The clumps with one that could not be merged: larger ones come first, and
/// one of a single relation comes last.
pub open spec fn placed(l: List<Clump>, c: Clump) -> List<Clump> {
    if l is Nil || c.size == 1 {
        pushed(l, c)
    } else {
        by_size(l, c)
    }
}

fn insert_by_size(l: List<Clump>, c: Clump) -> (r: List<Clump>)
    ensures
        r == by_size(l, c),
    decreases l,
{
    match l {
        List::Nil => List::one(c),
        List::Cons(x, xs) => if c.size > x.size {
            List::Cons(c, Box::new(List::Cons(x, xs)))
        } else {
            List::Cons(x, Box::new(insert_by_size(*xs, c)))
        },
    }
}

/// Puts a clump that could not be merged in its place.
pub fn place_clump(l: List<Clump>, c: Clump) -> (r: List<Clump>)
    ensures
        r == placed(l, c),
{
    if l.is_nil() || c.size == 1 {
        l.append(List::one(c))
    } else {
        insert_by_size(l, c)
    }
}

/// The number of relations of two clumps together.
pub open spec fn joined_size(a: u32, b: u32) -> u32 {
    if a + b > u32::MAX {
        u32::MAX
    } else {
        (a + b) as u32
    }
}

/// The search after an attempt to merge with the next clump. Once two are
/// merged, the larger clump is tried with all that are left.
pub open spec fn after_attempt(s: MergeState, outcome: MergeOutcome) -> MergeState {
    match s.left {
        List::Nil => s,
        List::Cons(x, xs) => match outcome {
            MergeOutcome::Failed => MergeState { new: s.new, tried: pushed(s.tried, x), left: *xs },
            MergeOutcome::Joined(joinrel) => MergeState {
                new: Clump { joinrel, size: joined_size(x.size, s.new.size) },
                tried: List::Nil,
                left: s.tried.then_list(*xs),
            },
        },
    }
}

/// Takes an attempt to merge with the next clump into account.
pub fn merge_clump(s: MergeState, outcome: MergeOutcome) -> (r: MergeState)
    ensures
        r == after_attempt(s, outcome),
{
    match s.left {
        List::Nil => MergeState { new: s.new, tried: s.tried, left: List::Nil },
        List::Cons(x, xs) => match outcome {
            MergeOutcome::Failed => MergeState {
                new: s.new,
                tried: s.tried.append(List::one(x)),
                left: *xs,
            },
            MergeOutcome::Joined(joinrel) => {
                let size: u32 = if x.size > u32::MAX - s.new.size {
                    u32::MAX
                } else {
                    x.size + s.new.size
                };
                MergeState {
                    new: Clump { joinrel, size },
                    tried: List::Nil,
                    left: s.tried.append(*xs),
                }
            },
        },
    }
}

/// The search for a join of all relations.
#[derive(Debug)]
pub enum TreeSearch {
    /// A clump is being merged, and others are still to be added. First only
    /// joins that are desirable are tried; where that leaves several clumps,
    /// any legal join is.
    Merging { merge: MergeState, to_add: List<Clump>, forced: bool },
    /// The join of all relations, if one was found.
    Done(Option<Clump>),
}

/// A list of one clump.
pub open spec fn alone(c: Clump) -> List<Clump> {
    List::Cons(c, Box::new(List::Nil))
}

/// The search once all that could be merged of `clumps` is merged.
pub open spec fn after_round(clumps: List<Clump>, to_add: List<Clump>, forced: bool) -> TreeSearch {
    match to_add {
        List::Cons(c, cs) => TreeSearch::Merging {
            merge: MergeState { new: c, tried: List::Nil, left: clumps },
            to_add: *cs,
            forced,
        },
        List::Nil => match clumps {
            List::Nil => TreeSearch::Done(None),
            List::Cons(c, rest) => match *rest {
                List::Nil => TreeSearch::Done(Some(c)),
                List::Cons(d, more) => if forced {
                    TreeSearch::Done(None)
                } else {
                    TreeSearch::Merging {
                        merge: MergeState { new: d, tried: List::Nil, left: alone(c) },
                        to_add: *more,
                        forced: true,
                    }
                },
            },
        },
    }
}

fn finish_round(clumps: List<Clump>, to_add: List<Clump>, forced: bool) -> (r: TreeSearch)
    ensures
        r == after_round(clumps, to_add, forced),
{
    match to_add {
        List::Cons(c, cs) => TreeSearch::Merging {
            merge: MergeState { new: c, tried: List::Nil, left: clumps },
            to_add: *cs,
            forced,
        },
        List::Nil => match clumps {
            List::Nil => TreeSearch::Done(None),
            List::Cons(c, rest) => match *rest {
                List::Nil => TreeSearch::Done(Some(c)),
                List::Cons(d, more) => if forced {
                    TreeSearch::Done(None)
                } else {
                    TreeSearch::Merging {
                        merge: MergeState { new: d, tried: List::Nil, left: List::one(c) },
                        to_add: *more,
                        forced: true,
                    }
                },
            },
        },
    }
}

/// The relations, each a clump of its own.
pub open spec fn single_clumps(rels: List<u32>) -> List<Clump>
    decreases rels,
{
    match rels {
        List::Nil => List::Nil,
        List::Cons(r, rs) => List::Cons(
            Clump { joinrel: r, size: 1 },
            Box::new(single_clumps(*rs)),
        ),
    }
}

fn make_single_clumps(rels: &List<u32>) -> (r: List<Clump>)
    ensures
        r == single_clumps(*rels),
    decreases rels,
{
    match rels {
        List::Nil => List::Nil,
        List::Cons(r, rs) => List::Cons(
            Clump { joinrel: *r, size: 1 },
            Box::new(make_single_clumps(rs)),
        ),
    }
}

/// The search for a join of relations that are taken in the order given.
pub open spec fn search_start(rels: List<u32>) -> TreeSearch {
    match single_clumps(rels) {
        List::Nil => TreeSearch::Done(None),
        List::Cons(c, cs) => after_round(alone(c), *cs, false),
    }
}

/// Starts the search for a join of relations, which are taken in the order
/// given as far as possible.
pub fn gimme_tree(rels: &List<u32>) -> (r: TreeSearch)
    ensures
        r == search_start(*rels),
{
    match make_single_clumps(rels) {
        List::Nil => TreeSearch::Done(None),
        List::Cons(c, cs) => finish_round(List::one(c), *cs, false),
    }
}

/// The join to be tried next: of which relation, with which, and whether it is
/// tried though it is not desirable.
pub open spec fn join_to_try(t: TreeSearch) -> Option<(u32, u32, bool)> {
    match t {
        TreeSearch::Merging { merge, to_add, forced } => match merge.left {
            List::Cons(x, _) => Some((x.joinrel, merge.new.joinrel, forced)),
            List::Nil => None,
        },
        TreeSearch::Done(_) => None,
    }
}

/// Tells which join is to be tried next.
pub fn next_join(t: &TreeSearch) -> (r: Option<(u32, u32, bool)>)
    ensures
        r == join_to_try(*t),
{
    match t {
        TreeSearch::Merging { merge, forced, .. } => match &merge.left {
            List::Cons(x, _) => Some((x.joinrel, merge.new.joinrel, *forced)),
            List::Nil => None,
        },
        TreeSearch::Done(_) => None,
    }
}

/// The search after an attempt to join.
pub open spec fn after_join(t: TreeSearch, outcome: MergeOutcome) -> TreeSearch {
    match t {
        TreeSearch::Merging { merge, to_add, forced } => {
            let m = after_attempt(merge, outcome);
            if m.left is Nil {
                after_round(placed(m.tried, m.new), to_add, forced)
            } else {
                TreeSearch::Merging { merge: m, to_add, forced }
            }
        },
        TreeSearch::Done(_) => t,
    }
}

/// Takes an attempt to join into account.
pub fn grow_tree(t: TreeSearch, outcome: MergeOutcome) -> (r: TreeSearch)
    ensures
        r == after_join(t, outcome),
{
    match t {
        TreeSearch::Merging { merge, to_add, forced } => {
            let m = merge_clump(merge, outcome);
            if m.left.is_nil() {
                finish_round(place_clump(m.tried, m.new), to_add, forced)
            } else {
                TreeSearch::Merging { merge: m, to_add, forced }
            }
        },
        TreeSearch::Done(c) => TreeSearch::Done(c),
    }
}

/// How many relations the clumps join.
pub open spec fn total_size(l: List<Clump>) -> nat
    decreases l,
{
    match l {
        List::Nil => 0,
        List::Cons(c, cs) => c.size as nat + total_size(*cs),
    }
}

/// How many relations a search is about.
pub open spec fn state_size(s: MergeState) -> nat {
    s.new.size as nat + total_size(s.tried) + total_size(s.left)
}

proof fn lemma_total_then(a: List<Clump>, b: List<Clump>)
    ensures
        total_size(a.then_list(b)) == total_size(a) + total_size(b),
    decreases a,
{
    if let List::Cons(_, xs) = a {
        lemma_total_then(*xs, b);
    }
}

proof fn lemma_by_size(l: List<Clump>, c: Clump)
    ensures
        total_size(by_size(l, c)) == total_size(l) + c.size,
    decreases l,
{
    match l {
        List::Nil => {
            assert(total_size(List::Nil) == 0);
        },
        List::Cons(_, xs) => {
            lemma_by_size(*xs, c);
        },
    }
}

/// No relation is lost: whatever comes of an attempt, and wherever a clump is
/// placed, the clumps join as many relations as before.
pub proof fn lemma_relations_kept(s: MergeState, outcome: MergeOutcome)
    requires
        state_size(s) <= u32::MAX,
    ensures
        state_size(after_attempt(s, outcome)) == state_size(s),
        total_size(placed(s.tried, s.new)) == total_size(s.tried) + s.new.size,
{
    if let List::Cons(x, xs) = s.left {
        let one = List::Cons(x, Box::new(List::Nil));
        assert(total_size(List::Nil) == 0);
        lemma_total_then(s.tried, one);
        lemma_total_then(s.tried, *xs);
    }
    let one = List::Cons(s.new, Box::new(List::Nil));
    assert(total_size(List::Nil) == 0);
    lemma_total_then(s.tried, one);
    lemma_by_size(s.tried, s.new);
}

/// How far a search is from its end: how many clumps there are, and how many
/// are still to be tried.
pub open spec fn steps_left(s: MergeState) -> (nat, nat) {
    (s.tried@.len() + s.left@.len(), s.left@.len())
}

/// Every attempt brings a search nearer to its end: either a clump is gone, or
/// fewer are to be tried.
pub proof fn lemma_search_ends(s: MergeState, outcome: MergeOutcome)
    requires
        !(s.left is Nil),
    ensures
        ({
            let (a, b) = steps_left(s);
            let (c, d) = steps_left(after_attempt(s, outcome));
            c < a || (c == a && d < b)
        }),
{
    if let List::Cons(x, xs) = s.left {
        let one = List::Cons(x, Box::new(List::Nil));
        let none: List<Clump> = List::Nil;
        assert(none@.len() == 0);
        crate::list::lemma_then_view(s.tried, one);
        crate::list::lemma_then_view(s.tried, *xs);
    }
}

/// Larger clumps come first.
pub open spec fn largest_first(l: List<Clump>) -> bool
    decreases l,
{
    match l {
        List::Nil => true,
        List::Cons(x, xs) => largest_first(*xs) && match *xs {
            List::Nil => true,
            List::Cons(y, _) => x.size >= y.size,
        },
    }
}

/// All clumps join some relation.
pub open spec fn all_positive(l: List<Clump>) -> bool
    decreases l,
{
    match l {
        List::Nil => true,
        List::Cons(x, xs) => x.size >= 1 && all_positive(*xs),
    }
}

proof fn lemma_by_size_first(l: List<Clump>, c: Clump)
    requires
        largest_first(l),
    ensures
        largest_first(by_size(l, c)),
    decreases l,
{
    match l {
        List::Nil => {
            assert(largest_first(List::Nil));
        },
        List::Cons(_, xs) => {
            lemma_by_size_first(*xs, c);
        },
    }
}

proof fn lemma_pushed_first(l: List<Clump>, c: Clump)
    requires
        largest_first(l),
        all_positive(l),
        c.size <= 1,
    ensures
        largest_first(pushed(l, c)),
    decreases l,
{
    match l {
        List::Nil => {
            assert(largest_first(List::Nil));
        },
        List::Cons(_, xs) => {
            lemma_pushed_first(*xs, c);
        },
    }
}

/// Placing a clump keeps the larger ones first.
pub proof fn lemma_placed_first(l: List<Clump>, c: Clump)
    requires
        largest_first(l),
        all_positive(l),
        c.size >= 1,
    ensures
        largest_first(placed(l, c)),
{
    lemma_by_size_first(l, c);
    if c.size == 1 {
        lemma_pushed_first(l, c);
    }
    if l is Nil {
        assert(largest_first(List::Nil));
    }
}

/// How many relations a search is about; none once it has failed.
pub open spec fn search_size(t: TreeSearch) -> nat {
    match t {
        TreeSearch::Merging { merge, to_add, forced } => state_size(merge) + total_size(to_add),
        TreeSearch::Done(Some(c)) => c.size as nat,
        TreeSearch::Done(None) => 0,
    }
}

proof fn lemma_round_size(clumps: List<Clump>, to_add: List<Clump>, forced: bool)
    ensures
        after_round(clumps, to_add, forced) == TreeSearch::Done(None) || search_size(
            after_round(clumps, to_add, forced),
        ) == total_size(clumps) + total_size(to_add),
{
    assert(total_size(List::Nil) == 0);
    if let List::Cons(c, rest) = clumps {
        assert(total_size(alone(c)) == c.size);
        if let List::Cons(d, more) = *rest {
            assert(total_size(clumps) == c.size as nat + total_size(*rest));
        }
    }
}

proof fn lemma_single_clumps(rels: List<u32>)
    ensures
        total_size(single_clumps(rels)) == rels@.len(),
        single_clumps(rels)@.len() == rels@.len(),
    decreases rels,
{
    match rels {
        List::Nil => {
            let none: List<Clump> = List::Nil;
            assert(none@.len() == 0);
        },
        List::Cons(_, rs) => {
            lemma_single_clumps(*rs);
        },
    }
}

/// A search starts with all relations, and whatever comes of an attempt, it
/// goes on with all of them: a join that is found at its end joins them all.
pub proof fn lemma_tree_complete(rels: List<u32>, t: TreeSearch, outcome: MergeOutcome)
    requires
        search_size(t) <= u32::MAX,
    ensures
        search_size(search_start(rels)) == rels@.len(),
        after_join(t, outcome) == TreeSearch::Done(None) || search_size(after_join(t, outcome))
            == search_size(t),
{
    lemma_single_clumps(rels);
    assert(total_size(List::Nil) == 0);
    if let List::Cons(c, cs) = single_clumps(rels) {
        lemma_round_size(alone(c), *cs, false);
        assert(total_size(alone(c)) == c.size);
    }
    if let TreeSearch::Merging { merge, to_add, forced } = t {
        lemma_relations_kept(merge, outcome);
        let m = after_attempt(merge, outcome);
        lemma_relations_kept(m, outcome);
        lemma_round_size(placed(m.tried, m.new), to_add, forced);
    }
}

/// How far a search is from its end: whether any legal join is tried yet, how
/// many clumps there are, how many are to be added and how many to be tried.
pub open spec fn search_left(t: TreeSearch) -> (nat, nat, nat, nat) {
    match t {
        TreeSearch::Merging { merge, to_add, forced } => (
            if forced {
                1
            } else {
                2
            },
            merge.tried@.len() + merge.left@.len() + to_add@.len(),
            to_add@.len(),
            merge.left@.len(),
        ),
        TreeSearch::Done(_) => (0, 0, 0, 0),
    }
}

/// The first comes before the second, where the first numbers count most.
pub open spec fn nearer(a: (nat, nat, nat, nat), b: (nat, nat, nat, nat)) -> bool {
    a.0 < b.0 || (a.0 == b.0 && (a.1 < b.1 || (a.1 == b.1 && (a.2 < b.2 || (a.2 == b.2 && a.3
        < b.3)))))
}

proof fn lemma_by_size_length(l: List<Clump>, c: Clump)
    ensures
        by_size(l, c)@.len() == l@.len() + 1,
    decreases l,
{
    match l {
        List::Nil => {
            let none: List<Clump> = List::Nil;
            assert(none@.len() == 0);
        },
        List::Cons(_, xs) => {
            lemma_by_size_length(*xs, c);
        },
    }
}

/// Every attempt brings the search nearer to its end, so it comes to one.
pub proof fn lemma_tree_ends(t: TreeSearch, outcome: MergeOutcome)
    requires
        join_to_try(t) is Some,
    ensures
        nearer(search_left(after_join(t, outcome)), search_left(t)),
{
    if let TreeSearch::Merging { merge, to_add, forced } = t {
        lemma_search_ends(merge, outcome);
        let m = after_attempt(merge, outcome);
        let none: List<Clump> = List::Nil;
        assert(none@.len() == 0);
        lemma_by_size_length(m.tried, m.new);
        crate::list::lemma_then_view(m.tried, alone(m.new));
        let clumps = placed(m.tried, m.new);
        assert(clumps@.len() == m.tried@.len() + 1);
    }
}

/// A search that is not done has a join to try.
pub proof fn lemma_tree_goes_on(rels: List<u32>, t: TreeSearch, outcome: MergeOutcome)
    ensures
        search_start(rels) is Merging ==> join_to_try(search_start(rels)) is Some,
        after_join(t, outcome) is Merging ==> join_to_try(after_join(t, outcome)) is Some,
{
    if let TreeSearch::Merging { merge, to_add, forced } = t {
        let m = after_attempt(merge, outcome);
        assert(!(placed(m.tried, m.new) is Nil));
    }
}

/// A search after `n` attempts, where `join` says what comes of each.
pub open spec fn grown(
    t: TreeSearch,
    join: spec_fn(u32, u32, bool) -> MergeOutcome,
    n: nat,
) -> TreeSearch
    decreases n,
{
    if n == 0 {
        t
    } else {
        let before = grown(t, join, (n - 1) as nat);
        match join_to_try(before) {
            Some((old, new, forced)) => after_join(before, join(old, new, forced)),
            None => before,
        }
    }
}

/// Nothing but the order of the relations and what comes of the joins that are
/// tried decides on a join tree: the same order and the same joins lead to the
/// same tree.
pub proof fn lemma_same_tree(
    rels: List<u32>,
    a: spec_fn(u32, u32, bool) -> MergeOutcome,
    b: spec_fn(u32, u32, bool) -> MergeOutcome,
    n: nat,
)
    requires
        forall|m: nat|
            m < n && join_to_try(#[trigger] grown(search_start(rels), a, m)) is Some ==> {
                let (old, new, forced) = join_to_try(grown(search_start(rels), a, m))->0;
                a(old, new, forced) == b(old, new, forced)
            },
    ensures
        grown(search_start(rels), a, n) == grown(search_start(rels), b, n),
    decreases n,
{
    if n > 0 {
        lemma_same_tree(rels, a, b, (n - 1) as nat);
        let before = grown(search_start(rels), a, (n - 1) as nat);
        assert(join_to_try(before) is Some ==> {
            let (old, new, forced) = join_to_try(before)->0;
            a(old, new, forced) == b(old, new, forced)
        });
    }
}

/// What a search asks of those around it.
#[derive(Debug)]
pub enum GeqoRequest {
    /// Seed the generator of random numbers, which nothing else seeds.
    Seed(u64),
    /// Fill the pool with random tours of that length, find out what each is
    /// worth, and sort the pool, the best first.
    FillPool { size: i32, length: i32 },
    /// Select two tours by the bias and make a new one out of them.
    Breed { selection_bias: u64, length: i32 },
    /// Find out what a tour is worth.
    Evaluate(List<i32>),
    /// Let a tour take the place in the pool that its worth gives it, if it is
    /// good enough.
    Spread(List<i32>, u64),
    /// Tell the first tour of the pool.
    Best,
    /// Join the relations along a tour.
    Join(List<i32>),
}

/// What comes back.
#[derive(Debug)]
pub enum GeqoReply {
    Done,
    Tour(List<i32>),
    /// The bits of a floating-point number.
    Worth(u64),
    /// The join of all relations, if there is one.
    Joined(Option<u32>),
}

/// Where a search stands; `left` is how many generations are still to come.
#[derive(Debug)]
pub enum GeqoState {
    Seeding(GeqoRun),
    Filling(GeqoRun),
    Breeding { run: GeqoRun, left: i32 },
    Evaluating { run: GeqoRun, left: i32, tour: List<i32> },
    Spreading { run: GeqoRun, left: i32, tour: List<i32>, worth: u64 },
    Choosing,
    Joining(List<i32>),
    Ended(Result<u32, PlannerError>),
}

/// What a search asks for next.
pub open spec fn request_of(s: GeqoState) -> Option<GeqoRequest> {
    match s {
        GeqoState::Seeding(run) => Some(GeqoRequest::Seed(run.seed)),
        GeqoState::Filling(run) => Some(
            GeqoRequest::FillPool { size: run.pool_size, length: run.string_length },
        ),
        GeqoState::Breeding { run, left } => Some(
            GeqoRequest::Breed { selection_bias: run.selection_bias, length: run.string_length },
        ),
        GeqoState::Evaluating { run, left, tour } => Some(GeqoRequest::Evaluate(tour)),
        GeqoState::Spreading { run, left, tour, worth } => Some(GeqoRequest::Spread(tour, worth)),
        GeqoState::Choosing => Some(GeqoRequest::Best),
        GeqoState::Joining(tour) => Some(GeqoRequest::Join(tour)),
        GeqoState::Ended(_) => None,
    }
}

/// Tells what a search asks for next.
pub fn next_request(s: &GeqoState) -> (r: Option<GeqoRequest>)
    ensures
        r == request_of(*s),
{
    match s {
        GeqoState::Seeding(run) => Some(GeqoRequest::Seed(run.seed)),
        GeqoState::Filling(run) => Some(
            GeqoRequest::FillPool { size: run.pool_size, length: run.string_length },
        ),
        GeqoState::Breeding { run, .. } => Some(
            GeqoRequest::Breed { selection_bias: run.selection_bias, length: run.string_length },
        ),
        GeqoState::Evaluating { tour, .. } => Some(GeqoRequest::Evaluate(tour.copy())),
        GeqoState::Spreading { tour, worth, .. } => Some(GeqoRequest::Spread(tour.copy(), *worth)),
        GeqoState::Choosing => Some(GeqoRequest::Best),
        GeqoState::Joining(tour) => Some(GeqoRequest::Join(tour.copy())),
        GeqoState::Ended(_) => None,
    }
}

/// The search with so many generations to come.
pub open spec fn generations_to_come(run: GeqoRun, left: i32) -> GeqoState {
    if left > 0 {
        GeqoState::Breeding { run, left }
    } else {
        GeqoState::Choosing
    }
}

fn start_generation(run: GeqoRun, left: i32) -> (r: GeqoState)
    ensures
        r == generations_to_come(run, left),
{
    if left > 0 {
        GeqoState::Breeding { run, left }
    } else {
        GeqoState::Choosing
    }
}

/// The search after a reply. A reply to another request changes nothing.
pub open spec fn after_reply(s: GeqoState, reply: GeqoReply) -> GeqoState {
    match (s, reply) {
        (GeqoState::Seeding(run), GeqoReply::Done) => GeqoState::Filling(run),
        (GeqoState::Filling(run), GeqoReply::Done) => generations_to_come(run, run.generations),
        (GeqoState::Breeding { run, left }, GeqoReply::Tour(tour)) => GeqoState::Evaluating {
            run,
            left,
            tour,
        },
        (GeqoState::Evaluating { run, left, tour }, GeqoReply::Worth(worth)) => {
            GeqoState::Spreading { run, left, tour, worth }
        },
        (GeqoState::Spreading { run, left, tour, worth }, GeqoReply::Done) => generations_to_come(
            run,
            if left > 0 {
                (left - 1) as i32
            } else {
                0
            },
        ),
        (GeqoState::Choosing, GeqoReply::Tour(tour)) => GeqoState::Joining(tour),
        (GeqoState::Joining(_), GeqoReply::Joined(rel)) => GeqoState::Ended(
            match rel {
                Some(r) => Ok(r),
                None => Err(PlannerError::NoValidPlan),
            },
        ),
        _ => s,
    }
}

/// Takes a reply into account.
pub fn advance_search(s: GeqoState, reply: GeqoReply) -> (r: GeqoState)
    ensures
        r == after_reply(s, reply),
{
    match (s, reply) {
        (GeqoState::Seeding(run), GeqoReply::Done) => GeqoState::Filling(run),
        (GeqoState::Filling(run), GeqoReply::Done) => start_generation(run, run.generations),
        (GeqoState::Breeding { run, left }, GeqoReply::Tour(tour)) => GeqoState::Evaluating {
            run,
            left,
            tour,
        },
        (GeqoState::Evaluating { run, left, tour }, GeqoReply::Worth(worth)) => {
            GeqoState::Spreading { run, left, tour, worth }
        },
        (GeqoState::Spreading { run, left, .. }, GeqoReply::Done) => {
            let next: i32 = if left > 0 {
                left - 1
            } else {
                0
            };
            start_generation(run, next)
        },
        (GeqoState::Choosing, GeqoReply::Tour(tour)) => GeqoState::Joining(tour),
        (GeqoState::Joining(_), GeqoReply::Joined(rel)) => GeqoState::Ended(
            match rel {
                Some(r) => Ok(r),
                None => Err(PlannerError::NoValidPlan),
            },
        ),
        (other, _) => other,
    }
}

/// The relations along a tour, which holds their places, counted from 1.
pub open spec fn along(rels: Seq<u32>, tour: List<i32>) -> List<u32>
    decreases tour,
{
    match tour {
        List::Nil => List::Nil,
        List::Cons(g, gs) => List::Cons(rels[g - 1], Box::new(along(rels, *gs))),
    }
}

/// Picks the relations along a tour.
pub fn pick_relations(rels: &Vec<u32>, tour: &List<i32>) -> (r: List<u32>)
    requires
        forall|i: int| 0 <= i < tour@.len() ==> 1 <= #[trigger] tour@[i] <= rels@.len(),
    ensures
        r == along(rels@, *tour),
    decreases tour,
{
    match tour {
        List::Nil => List::Nil,
        List::Cons(g, gs) => {
            proof {
                assert(tour@[0] == g);
                assert forall|i: int| 0 <= i < gs@.len() implies 1 <= #[trigger] gs@[i]
                    <= rels@.len() by {
                    assert(tour@[i + 1] == gs@[i]);
                }
            }
            let rest = pick_relations(rels, gs);
            List::Cons(rels[(*g - 1) as usize], Box::new(rest))
        },
    }
}

/// The first requests of a search and where it stands after them, where
/// `around` says what comes back of a request after those before it.
pub open spec fn search_after(
    run: GeqoRun,
    around: spec_fn(Seq<GeqoRequest>) -> GeqoReply,
    n: nat,
) -> (Seq<GeqoRequest>, GeqoState)
    decreases n,
{
    if n == 0 {
        (Seq::empty(), GeqoState::Seeding(run))
    } else {
        let (before, s) = search_after(run, around, (n - 1) as nat);
        match request_of(s) {
            Some(r) => {
                let asked = before.push(r);
                (asked, after_reply(s, around(asked)))
            },
            None => (before, s),
        }
    }
}

/// The settings of a search agree: all but whether, and from how many relations
/// on, it is used.
pub open spec fn same_search(a: GeqoSettings, b: GeqoSettings) -> bool {
    &&& a.effort == b.effort
    &&& a.pool_size == b.pool_size
    &&& a.generations == b.generations
    &&& a.selection_bias == b.selection_bias
    &&& a.seed == b.seed
}

/// The layout of a search.
pub open spec fn run_for(s: GeqoSettings, nr_rel: i32) -> GeqoRun {
    let pool_size = pool_size_for(s, nr_rel) as i32;
    GeqoRun {
        pool_size,
        generations: if s.generations > 0 {
            s.generations
        } else {
            pool_size
        },
        string_length: nr_rel,
        seed: s.seed,
        selection_bias: s.selection_bias,
    }
}

/// The same seed leads to the same plan: two searches with the same settings
/// and as many relations ask for the same and end with the same join, as long
/// as the same requests, after the same ones, get the same replies.
pub proof fn lemma_same_search(
    s: GeqoSettings,
    t: GeqoSettings,
    nr_rel: i32,
    a: spec_fn(Seq<GeqoRequest>) -> GeqoReply,
    b: spec_fn(Seq<GeqoRequest>) -> GeqoReply,
    n: nat,
)
    requires
        same_search(s, t),
        forall|m: nat|
            m <= n ==> {
                let asked = (#[trigger] search_after(run_for(s, nr_rel), a, m)).0;
                a(asked) == b(asked)
            },
    ensures
        search_after(run_for(s, nr_rel), a, n) == search_after(run_for(t, nr_rel), b, n),
    decreases n,
{
    if n > 0 {
        lemma_same_search(s, t, nr_rel, a, b, (n - 1) as nat);
        let run = run_for(s, nr_rel);
        let (before, at) = search_after(run, a, (n - 1) as nat);
        let asked = search_after(run, a, n).0;
        assert(a(asked) == b(asked));
    }
}

/// How many requests a search has still to make, where every reply is one to
/// its request.
pub open spec fn requests_left(s: GeqoState) -> int {
    match s {
        GeqoState::Seeding(run) => 4 + 3 * (if run.generations > 0 {
            run.generations as int
        } else {
            0
        }),
        GeqoState::Filling(run) => 3 + 3 * (if run.generations > 0 {
            run.generations as int
        } else {
            0
        }),
        GeqoState::Breeding { run, left } => 2 + 3 * left,
        GeqoState::Evaluating { run, left, tour } => 1 + 3 * left,
        GeqoState::Spreading { run, left, tour, worth } => 3 * left,
        GeqoState::Choosing => 2,
        GeqoState::Joining(_) => 1,
        GeqoState::Ended(_) => 0,
    }
}

/// The reply is one to what the search asks for.
pub open spec fn answers(s: GeqoState, reply: GeqoReply) -> bool {
    match s {
        GeqoState::Seeding(_) | GeqoState::Filling(_) | GeqoState::Spreading { .. } => {
            reply is Done
        },
        GeqoState::Breeding { .. } | GeqoState::Choosing => reply is Tour,
        GeqoState::Evaluating { .. } => reply is Worth,
        GeqoState::Joining(_) => reply is Joined,
        GeqoState::Ended(_) => false,
    }
}

/// Some generations are left in the midst of one.
pub open spec fn in_generation(s: GeqoState) -> bool {
    match s {
        GeqoState::Breeding { run, left } => left > 0,
        GeqoState::Evaluating { run, left, tour } => left > 0,
        GeqoState::Spreading { run, left, tour, worth } => left > 0,
        _ => true,
    }
}

/// Every request that is answered brings a search one step nearer to its end:
/// there are as many generations as the layout says, each with three requests.
pub proof fn lemma_generations_counted(s: GeqoState, reply: GeqoReply)
    requires
        in_generation(s),
        answers(s, reply),
    ensures
        in_generation(after_reply(s, reply)),
        requests_left(after_reply(s, reply)) == requests_left(s) - 1,
{
}

/// A pool has the size that is set, where one is; else it has at least 10 and at
/// most 50 members for each unit of effort, is a power of two in between, and
/// never shrinks with the number of relations.
pub proof fn lemma_pool_size(s: GeqoSettings, n: i32, m: i32)
    requires
        s.effort >= 0,
        0 <= n <= m,
    ensures
        s.pool_size >= 2 ==> pool_size_for(s, n) == s.pool_size,
        s.pool_size < 2 ==> 10 * s.effort <= pool_size_for(s, n) <= 50 * s.effort,
        s.pool_size < 2 && 10 * s.effort < pool_size_for(s, n) < 50 * s.effort ==> pool_size_for(
            s,
            n,
        ) == 2 * pow2(n as nat),
        pool_size_for(s, n) <= pool_size_for(s, m),
{
    lemma_pow2_grows((n + 1) as nat, (m + 1) as nat);
    lemma_pow2_unfold((n + 1) as nat);
}

} // verus!
