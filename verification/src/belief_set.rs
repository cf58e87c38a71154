use vstd::prelude::*;
use crate::belief::{
    Belief, BeliefKey, BeliefTest, BeliefTestView, ExpiringBelief, GameTickNumber, belief_key,
    belief_variant, expire_all, test_passes, test_variant,
};

verus! {

/// The beliefs that one source (a sensor) contributed.
#[derive(Debug)]
pub struct SourcedBeliefs {
    pub source_id: u32,
    pub beliefs: Vec<ExpiringBelief>,
}

/// BeliefSets are collections of beliefs that allow for tests against existing beliefs.
/// Beliefs either stand on their own ("unsourced") or belong to a source; each source
/// appears once, in the order in which it first contributed.
#[derive(Debug)]
pub struct BeliefSet {
    unsourced_beliefs: Vec<ExpiringBelief>,
    /// The beliefs of each source, in the order the sources first reported; no source appears
    /// twice. A list rather than a map keyed by source keeps the order in which the beliefs are
    /// handed out fixed.
    sourced_beliefs: Vec<SourcedBeliefs>,
}

/// The mathematical model of a [`BeliefSet`].
#[verifier::ext_equal]
pub struct BeliefSetView {
    pub unsourced: Seq<ExpiringBelief>,
    pub sourced: Seq<(u32, Seq<ExpiringBelief>)>,
}

impl View for SourcedBeliefs {
    type V = (u32, Seq<ExpiringBelief>);

    open spec fn view(&self) -> (u32, Seq<ExpiringBelief>) {
        (self.source_id, self.beliefs@)
    }
}

impl View for BeliefSet {
    type V = BeliefSetView;

    closed spec fn view(&self) -> BeliefSetView {
        BeliefSetView {
            unsourced: self.unsourced_beliefs@,
            sourced: sources_view(self.sourced_beliefs@),
        }
    }
}

/// The models of a list of sources.
pub open spec fn sources_view(v: Seq<SourcedBeliefs>) -> Seq<(u32, Seq<ExpiringBelief>)> {
    v.map_values(|s: SourcedBeliefs| s@)
}

// ---------------------------------------------------------------------------------------
// The model of the operations
// ---------------------------------------------------------------------------------------

/// The bare beliefs of a list of expiring beliefs.
pub open spec fn bare(es: Seq<ExpiringBelief>) -> Seq<Belief> {
    es.map_values(|e: ExpiringBelief| e.belief)
}

/// The beliefs of all sources, source by source.
pub open spec fn flatten_sources(sourced: Seq<(u32, Seq<ExpiringBelief>)>) -> Seq<Belief>
    decreases sourced.len(),
{
    if sourced.len() == 0 {
        Seq::empty()
    } else {
        flatten_sources(sourced.drop_last()) + bare(sourced.last().1)
    }
}

/// Every belief of the set: the unsourced ones first, then those of each source.
pub open spec fn all_beliefs(v: BeliefSetView) -> Seq<Belief> {
    bare(v.unsourced) + flatten_sources(v.sourced)
}

/// No source appears twice.
pub open spec fn sources_distinct(sourced: Seq<(u32, Seq<ExpiringBelief>)>) -> bool {
    forall|i: int, j: int|
        0 <= i < sourced.len() && 0 <= j < sourced.len() && i != j ==> sourced[i].0
            != sourced[j].0
}

/// The list with every belief that shares `e`'s unique key removed, then `e` appended.
pub open spec fn upsert(es: Seq<ExpiringBelief>, e: ExpiringBelief) -> Seq<ExpiringBelief> {
    es.filter(|x: ExpiringBelief| belief_key(x.belief) != belief_key(e.belief)).push(e)
}

/// Adds `e` to the beliefs of source `source`: upserted into that source's list, or as the
/// only belief of a new source placed last.
pub open spec fn upsert_sourced(
    sourced: Seq<(u32, Seq<ExpiringBelief>)>,
    source: u32,
    e: ExpiringBelief,
) -> Seq<(u32, Seq<ExpiringBelief>)> {
    if exists|k: int| 0 <= k < sourced.len() && sourced[k].0 == source {
        let k = choose|k: int| 0 <= k < sourced.len() && sourced[k].0 == source;
        sourced.update(k, (source, upsert(sourced[k].1, e)))
    } else {
        sourced.push((source, seq![e]))
    }
}

/// Upserts each of `es` in order into the beliefs of source `source`.
pub open spec fn upsert_all_sourced(
    sourced: Seq<(u32, Seq<ExpiringBelief>)>,
    source: u32,
    es: Seq<ExpiringBelief>,
) -> Seq<(u32, Seq<ExpiringBelief>)>
    decreases es.len(),
{
    if es.len() == 0 {
        sourced
    } else {
        upsert_sourced(upsert_all_sourced(sourced, source, es.drop_last()), source, es.last())
    }
}

/// Upserts each of `es` in order into the unsourced beliefs.
pub open spec fn upsert_all(unsourced: Seq<ExpiringBelief>, es: Seq<ExpiringBelief>) -> Seq<
    ExpiringBelief,
>
    decreases es.len(),
{
    if es.len() == 0 {
        unsourced
    } else {
        upsert(upsert_all(unsourced, es.drop_last()), es.last())
    }
}

/// A belief is kept at `tick` when it never expires or expires on a later tick.
pub open spec fn is_fresh(e: ExpiringBelief, tick: GameTickNumber) -> bool {
    e.expires_on_tick is None || tick < e.expires_on_tick->0
}

/// Keeps only the beliefs fresh at `tick`.
pub open spec fn drop_stale(es: Seq<ExpiringBelief>, tick: GameTickNumber) -> Seq<ExpiringBelief> {
    es.filter(|e: ExpiringBelief| is_fresh(e, tick))
}

/// Keeps only the beliefs that do not pass the test `t`.
pub open spec fn drop_passing(es: Seq<ExpiringBelief>, t: BeliefTestView) -> Seq<ExpiringBelief> {
    es.filter(|e: ExpiringBelief| !test_passes(t, e.belief))
}

/// Applies `f` to the list of every source, keeping the sources and their order.
pub open spec fn map_sources(
    sourced: Seq<(u32, Seq<ExpiringBelief>)>,
    f: spec_fn(Seq<ExpiringBelief>) -> Seq<ExpiringBelief>,
) -> Seq<(u32, Seq<ExpiringBelief>)> {
    sourced.map_values(|p: (u32, Seq<ExpiringBelief>)| (p.0, f(p.1)))
}

/// Some belief of the set passes the test.
pub open spec fn spec_can_satisfy(v: BeliefSetView, t: BeliefTestView) -> bool {
    exists|i: int| 0 <= i < all_beliefs(v).len() && test_passes(t, all_beliefs(v)[i])
}

/// Every belief of the set with the test's variant passes the test.
pub open spec fn spec_all_satisfy(v: BeliefSetView, t: BeliefTestView) -> bool {
    forall|i: int|
        0 <= i < all_beliefs(v).len() && test_variant(t) == belief_variant(all_beliefs(v)[i])
            ==> test_passes(t, all_beliefs(v)[i])
}

/// The set after never-expiring unsourced beliefs are added in order.
pub open spec fn set_add_beliefs(v: BeliefSetView, beliefs: Seq<Belief>) -> BeliefSetView {
    BeliefSetView { unsourced: upsert_all(v.unsourced, expire_all(beliefs, None)), sourced: v.sourced }
}

/// The set after every belief passing the test is removed.
pub open spec fn set_remove_passing(v: BeliefSetView, t: BeliefTestView) -> BeliefSetView {
    BeliefSetView {
        unsourced: drop_passing(v.unsourced, t),
        sourced: map_sources(v.sourced, |l: Seq<ExpiringBelief>| drop_passing(l, t)),
    }
}

/// The set after the beliefs passing each test, in order, are removed.
pub open spec fn set_remove_all_passing(v: BeliefSetView, ts: Seq<BeliefTestView>) -> BeliefSetView
    decreases ts.len(),
{
    if ts.len() == 0 {
        v
    } else {
        set_remove_passing(set_remove_all_passing(v, ts.drop_last()), ts.last())
    }
}

/// The sources with source 0 holding the given beliefs: it replaces an existing source 0,
/// or is appended.
pub open spec fn with_source_zero(
    sourced: Seq<(u32, Seq<ExpiringBelief>)>,
    unsourced: Seq<ExpiringBelief>,
) -> Seq<(u32, Seq<ExpiringBelief>)> {
    if exists|k: int| 0 <= k < sourced.len() && sourced[k].0 == 0 {
        let k = choose|k: int| 0 <= k < sourced.len() && sourced[k].0 == 0;
        sourced.update(k, (0u32, unsourced))
    } else {
        sourced.push((0u32, unsourced))
    }
}

// ---------------------------------------------------------------------------------------
// Lemmas
// ---------------------------------------------------------------------------------------

/// Filtering one element more of a sequence's prefix.
pub proof fn lemma_filter_step<A>(s: Seq<A>, p: spec_fn(A) -> bool, i: int)
    requires
        0 <= i < s.len(),
    ensures
        s.take(i + 1).filter(p) == (if p(s[i]) {
            s.take(i).filter(p).push(s[i])
        } else {
            s.take(i).filter(p)
        }),
{
    reveal_with_fuel(Seq::filter, 1);
    assert(s.take(i + 1).drop_last() =~= s.take(i));
}

proof fn lemma_sources_view_push(v: Seq<SourcedBeliefs>, x: SourcedBeliefs)
    ensures
        sources_view(v.push(x)) == sources_view(v).push(x@),
{
    assert(sources_view(v.push(x)) =~= sources_view(v).push(x@));
}

proof fn lemma_passes_same_variant(t: BeliefTestView, b: Belief)
    ensures
        test_passes(t, b) ==> test_variant(t) == belief_variant(b),
{
}

proof fn lemma_flatten_all(sourced: Seq<(u32, Seq<ExpiringBelief>)>, p: spec_fn(Belief) -> bool)
    requires
        forall|k: int, i: int|
            0 <= k < sourced.len() && 0 <= i < sourced[k].1.len() ==> #[trigger] p(
                sourced[k].1[i].belief,
            ),
    ensures
        forall|i: int| 0 <= i < flatten_sources(sourced).len() ==> p(flatten_sources(sourced)[i]),
    decreases sourced.len(),
{
    if sourced.len() > 0 {
        let front = sourced.drop_last();
        assert forall|k: int, i: int|
            0 <= k < front.len() && 0 <= i < front[k].1.len() implies #[trigger] p(
            front[k].1[i].belief,
        ) by {
            assert(front[k] == sourced[k]);
        }
        lemma_flatten_all(front, p);
        let last = sourced.last();
        assert forall|i: int| 0 <= i < flatten_sources(sourced).len() implies p(
            flatten_sources(sourced)[i],
        ) by {
            let n = flatten_sources(front).len();
            if i >= n {
                assert(flatten_sources(sourced)[i] == bare(last.1)[i - n]);
                assert(p(sourced[sourced.len() - 1].1[i - n].belief));
            } else {
                assert(flatten_sources(sourced)[i] == flatten_sources(front)[i]);
            }
        }
    }
}

// ---------------------------------------------------------------------------------------
// Laws
// ---------------------------------------------------------------------------------------

/// Law: adding a belief to a list leaves exactly one belief with its unique key there,
/// the added one, in last place; every belief with another key stays.
pub proof fn law_upsert_keeps_one_per_key(es: Seq<ExpiringBelief>, e: ExpiringBelief)
    ensures
        upsert(es, e).last() == e,
        forall|i: int|
            0 <= i < upsert(es, e).len() - 1 ==> belief_key(#[trigger] upsert(es, e)[i].belief)
                != belief_key(e.belief),
        forall|x: ExpiringBelief|
            es.contains(x) && belief_key(x.belief) != belief_key(e.belief) ==> #[trigger] upsert(
                es,
                e,
            ).contains(x),
{
    let p = |x: ExpiringBelief| belief_key(x.belief) != belief_key(e.belief);
    broadcast use Seq::lemma_filter_pred, Seq::lemma_filter_contains;

    let f = es.filter(p);
    assert forall|i: int| 0 <= i < upsert(es, e).len() - 1 implies belief_key(
        #[trigger] upsert(es, e)[i].belief,
    ) != belief_key(e.belief) by {
        assert(upsert(es, e)[i] == f[i]);
        assert(p(f[i]));
    }
    assert forall|x: ExpiringBelief|
        es.contains(x) && belief_key(x.belief) != belief_key(e.belief) implies #[trigger] upsert(
        es,
        e,
    ).contains(x) by {
        let i = choose|i: int| 0 <= i < es.len() && es[i] == x;
        assert(f.contains(es[i]));
        let j = choose|j: int| 0 <= j < f.len() && f[j] == x;
        assert(upsert(es, e)[j] == x);
    }
}

/// Law: once a belief has been added, a test that the belief passes is satisfied by the set.
pub proof fn law_added_belief_satisfies(v: BeliefSetView, b: Belief, t: BeliefTestView)
    requires
        test_passes(t, b),
    ensures
        spec_can_satisfy(
            BeliefSetView {
                unsourced: upsert(v.unsourced, ExpiringBelief { belief: b, expires_on_tick: None }),
                sourced: v.sourced,
            },
            t,
        ),
{
    let e = ExpiringBelief { belief: b, expires_on_tick: None };
    let after = BeliefSetView { unsourced: upsert(v.unsourced, e), sourced: v.sourced };
    let u = upsert(v.unsourced, e);
    let n = u.len() - 1;
    assert(bare(u)[n] == b);
    assert(all_beliefs(after)[n] == b);
}

/// Law: after the beliefs passing a test are removed, no belief of the set passes it, and
/// every unsourced belief that did not pass it stays.
pub proof fn law_removed_beliefs_fail_test(v: BeliefSetView, t: BeliefTestView)
    ensures
        !spec_can_satisfy(
            BeliefSetView {
                unsourced: drop_passing(v.unsourced, t),
                sourced: map_sources(v.sourced, |l: Seq<ExpiringBelief>| drop_passing(l, t)),
            },
            t,
        ),
        forall|x: ExpiringBelief|
            v.unsourced.contains(x) && !test_passes(t, x.belief) ==> #[trigger] drop_passing(
                v.unsourced,
                t,
            ).contains(x),
{
    let p = |e: ExpiringBelief| !test_passes(t, e.belief);
    broadcast use Seq::lemma_filter_pred, Seq::lemma_filter_contains;

    let after = BeliefSetView {
        unsourced: drop_passing(v.unsourced, t),
        sourced: map_sources(v.sourced, |l: Seq<ExpiringBelief>| drop_passing(l, t)),
    };
    let q = |b: Belief| !test_passes(t, b);
    assert forall|k: int, i: int|
        0 <= k < after.sourced.len() && 0 <= i < after.sourced[k].1.len() implies #[trigger] q(
        after.sourced[k].1[i].belief,
    ) by {
        assert(after.sourced[k].1 == v.sourced[k].1.filter(p));
        assert(p(v.sourced[k].1.filter(p)[i]));
    }
    lemma_flatten_all(after.sourced, q);
    assert forall|i: int| 0 <= i < all_beliefs(after).len() implies !test_passes(
        t,
        all_beliefs(after)[i],
    ) by {
        let n = bare(after.unsourced).len();
        if i < n {
            assert(p(after.unsourced[i]));
        } else {
            assert(all_beliefs(after)[i] == flatten_sources(after.sourced)[i - n]);
            assert(q(flatten_sources(after.sourced)[i - n]));
        }
    }
    assert forall|x: ExpiringBelief|
        v.unsourced.contains(x) && !test_passes(t, x.belief) implies #[trigger] drop_passing(
        v.unsourced,
        t,
    ).contains(x) by {
        let i = choose|i: int| 0 <= i < v.unsourced.len() && v.unsourced[i] == x;
        assert(v.unsourced.filter(p).contains(v.unsourced[i]));
    }
}

/// Law: after stale beliefs expire at a tick, every belief left is fresh at that tick, and
/// every fresh belief stays.
pub proof fn law_expiry_keeps_fresh_beliefs(es: Seq<ExpiringBelief>, tick: GameTickNumber)
    ensures
        forall|i: int|
            0 <= i < drop_stale(es, tick).len() ==> is_fresh(#[trigger] drop_stale(es, tick)[i], tick),
        forall|x: ExpiringBelief|
            es.contains(x) && is_fresh(x, tick) ==> #[trigger] drop_stale(es, tick).contains(x),
{
    let p = |e: ExpiringBelief| is_fresh(e, tick);
    broadcast use Seq::lemma_filter_pred, Seq::lemma_filter_contains;

    assert forall|i: int| 0 <= i < drop_stale(es, tick).len() implies is_fresh(
        #[trigger] drop_stale(es, tick)[i],
        tick,
    ) by {
        assert(p(es.filter(p)[i]));
    }
    assert forall|x: ExpiringBelief| es.contains(x) && is_fresh(x, tick) implies #[trigger] drop_stale(
        es,
        tick,
    ).contains(x) by {
        let i = choose|i: int| 0 <= i < es.len() && es[i] == x;
        assert(es.filter(p).contains(es[i]));
    }
}

/// Law: a set built from a list of beliefs gives back exactly that list.
pub proof fn law_from_gives_back_beliefs(beliefs: Seq<Belief>)
    ensures
        all_beliefs(
            BeliefSetView {
                unsourced: expire_all(beliefs, None),
                sourced: Seq::<(u32, Seq<ExpiringBelief>)>::empty(),
            },
        ) == beliefs,
{
    let v = BeliefSetView {
        unsourced: expire_all(beliefs, None),
        sourced: Seq::<(u32, Seq<ExpiringBelief>)>::empty(),
    };
    assert(flatten_sources(v.sourced) == Seq::<Belief>::empty());
    assert(all_beliefs(v) =~= beliefs);
}

/// Law: when no belief of the set has a test's variant, the test is satisfied by all of
/// them and by none.
pub proof fn law_absent_variant(v: BeliefSetView, t: BeliefTestView)
    requires
        forall|i: int|
            0 <= i < all_beliefs(v).len() ==> belief_variant(#[trigger] all_beliefs(v)[i])
                != test_variant(t),
    ensures
        spec_all_satisfy(v, t),
        !spec_can_satisfy(v, t),
{
    assert forall|i: int| 0 <= i < all_beliefs(v).len() implies !test_passes(
        t,
        all_beliefs(v)[i],
    ) by {
        lemma_passes_same_variant(t, all_beliefs(v)[i]);
    }
}

// ---------------------------------------------------------------------------------------
// Executable helpers
// ---------------------------------------------------------------------------------------

fn copy_beliefs(es: &Vec<ExpiringBelief>) -> (r: Vec<ExpiringBelief>)
    ensures
        r@ == es@,
{
    let mut out: Vec<ExpiringBelief> = Vec::new();
    let mut i: usize = 0;
    while i < es.len()
        invariant
            i <= es.len(),
            out@ == es@.take(i as int),
        decreases es.len() - i,
    {
        out.push(es[i]);
        i = i + 1;
        assert(out@ =~= es@.take(i as int));
    }
    assert(es@.take(es.len() as int) =~= es@);
    out
}

fn upsert_list(es: &Vec<ExpiringBelief>, e: ExpiringBelief) -> (r: Vec<ExpiringBelief>)
    ensures
        r@ == upsert(es@, e),
{
    let key = e.belief.key();
    let ghost p = |x: ExpiringBelief| belief_key(x.belief) != belief_key(e.belief);
    let mut out: Vec<ExpiringBelief> = Vec::new();
    let mut i: usize = 0;
    while i < es.len()
        invariant
            i <= es.len(),
            key == belief_key(e.belief),
            p == (|x: ExpiringBelief| belief_key(x.belief) != belief_key(e.belief)),
            out@ == es@.take(i as int).filter(p),
        decreases es.len() - i,
    {
        proof {
            lemma_filter_step(es@, p, i as int);
        }
        if es[i].belief.key() != key {
            out.push(es[i]);
        }
        i = i + 1;
    }
    assert(es@.take(es.len() as int) =~= es@);
    out.push(e);
    out
}

fn keep_fresh(es: &Vec<ExpiringBelief>, tick: GameTickNumber) -> (r: Vec<ExpiringBelief>)
    ensures
        r@ == drop_stale(es@, tick),
{
    let ghost p = |e: ExpiringBelief| is_fresh(e, tick);
    let mut out: Vec<ExpiringBelief> = Vec::new();
    let mut i: usize = 0;
    while i < es.len()
        invariant
            i <= es.len(),
            p == (|e: ExpiringBelief| is_fresh(e, tick)),
            out@ == es@.take(i as int).filter(p),
        decreases es.len() - i,
    {
        proof {
            lemma_filter_step(es@, p, i as int);
        }
        let fresh = match es[i].expires_on_tick {
            None => true,
            Some(t) => tick < t,
        };
        if fresh {
            out.push(es[i]);
        }
        i = i + 1;
    }
    assert(es@.take(es.len() as int) =~= es@);
    out
}

fn keep_not_passing(es: &Vec<ExpiringBelief>, test: &BeliefTest) -> (r: Vec<ExpiringBelief>)
    ensures
        r@ == drop_passing(es@, test@),
{
    let ghost p = |e: ExpiringBelief| !test_passes(test@, e.belief);
    let mut out: Vec<ExpiringBelief> = Vec::new();
    let mut i: usize = 0;
    while i < es.len()
        invariant
            i <= es.len(),
            p == (|e: ExpiringBelief| !test_passes(test@, e.belief)),
            out@ == es@.take(i as int).filter(p),
        decreases es.len() - i,
    {
        proof {
            lemma_filter_step(es@, p, i as int);
        }
        let passes = test.same_variant(&es[i].belief) && test.passes(&es[i].belief);
        if !passes {
            out.push(es[i]);
        }
        i = i + 1;
    }
    assert(es@.take(es.len() as int) =~= es@);
    out
}

fn bare_of(es: &Vec<ExpiringBelief>, out: &mut Vec<Belief>)
    ensures
        final(out)@ == old(out)@ + bare(es@),
{
    let ghost start = out@;
    let mut i: usize = 0;
    while i < es.len()
        invariant
            i <= es.len(),
            out@ == start + bare(es@.take(i as int)),
        decreases es.len() - i,
    {
        out.push(es[i].belief);
        i = i + 1;
        assert(out@ =~= start + bare(es@.take(i as int)));
    }
    assert(es@.take(es.len() as int) =~= es@);
}

fn find_source(v: &Vec<SourcedBeliefs>, source_id: u32) -> (r: Option<usize>)
    ensures
        match r {
            Some(k) => k < v@.len() && sources_view(v@)[k as int].0 == source_id,
            None => forall|j: int|
                0 <= j < v@.len() ==> sources_view(v@)[j].0 != source_id,
        },
{
    let mut k: usize = 0;
    while k < v.len()
        invariant
            k <= v.len(),
            forall|j: int| 0 <= j < k ==> sources_view(v@)[j].0 != source_id,
        decreases v.len() - k,
    {
        assert(sources_view(v@)[k as int] == v@[k as int]@);
        if v[k].source_id == source_id {
            return Some(k);
        }
        k = k + 1;
    }
    None
}

impl BeliefSet {
    /// No source appears twice.
    pub closed spec fn well_formed(&self) -> bool {
        sources_distinct(self@.sourced)
    }

    /// A set without beliefs.
    pub fn empty() -> (r: BeliefSet)
        ensures
            r.well_formed(),
            r@.unsourced == Seq::<ExpiringBelief>::empty(),
            r@.sourced == Seq::<(u32, Seq<ExpiringBelief>)>::empty(),
    {
        let r = BeliefSet { unsourced_beliefs: Vec::new(), sourced_beliefs: Vec::new() };
        assert(r@.sourced =~= Seq::<(u32, Seq<ExpiringBelief>)>::empty());
        r
    }

    /// A set holding the given beliefs, unsourced and never expiring, in order.
    pub fn from(beliefs: &[Belief]) -> (r: BeliefSet)
        ensures
            r.well_formed(),
            r@.unsourced == expire_all(beliefs@, None),
            r@.sourced == Seq::<(u32, Seq<ExpiringBelief>)>::empty(),
    {
        let r = BeliefSet {
            unsourced_beliefs: ExpiringBelief::from_beliefs(beliefs, None),
            sourced_beliefs: Vec::new(),
        };
        assert(r@.sourced =~= Seq::<(u32, Seq<ExpiringBelief>)>::empty());
        r
    }

    /// A copy of this set.
    pub fn duplicate(&self) -> (r: BeliefSet)
        ensures
            r@ == self@,
            r.well_formed() == self.well_formed(),
    {
        let mut sourced: Vec<SourcedBeliefs> = Vec::new();
        let mut i: usize = 0;
        while i < self.sourced_beliefs.len()
            invariant
                i <= self.sourced_beliefs.len(),
                sources_view(sourced@) == self@.sourced.take(i as int),
            decreases self.sourced_beliefs.len() - i,
        {
            assert(self@.sourced[i as int] == self.sourced_beliefs@[i as int]@);
            let entry = SourcedBeliefs {
                source_id: self.sourced_beliefs[i].source_id,
                beliefs: copy_beliefs(&self.sourced_beliefs[i].beliefs),
            };
            let ghost prev = sourced@;
            sourced.push(entry);
            proof {
                lemma_sources_view_push(prev, entry);
                assert(self@.sourced.take(i + 1) =~= self@.sourced.take(i as int).push(
                    self@.sourced[i as int],
                ));
            }
            i = i + 1;
        }
        let r = BeliefSet {
            unsourced_beliefs: copy_beliefs(&self.unsourced_beliefs),
            sourced_beliefs: sourced,
        };
        assert(self@.sourced.take(self.sourced_beliefs.len() as int) =~= self@.sourced);
        assert(r@.sourced =~= self@.sourced);
        r
    }

    /// Forgets every belief whose expiry tick has been reached.
    pub fn expire_stale_beliefs(&mut self, current_tick: GameTickNumber)
        requires
            old(self).well_formed(),
        ensures
            final(self).well_formed(),
            final(self)@.unsourced == drop_stale(old(self)@.unsourced, current_tick),
            final(self)@.sourced == map_sources(
                old(self)@.sourced,
                |l: Seq<ExpiringBelief>| drop_stale(l, current_tick),
            ),
    {
        self.unsourced_beliefs = keep_fresh(&self.unsourced_beliefs, current_tick);
        let ghost old_sourced = self@.sourced;
        let mut sourced: Vec<SourcedBeliefs> = Vec::new();
        let mut i: usize = 0;
        while i < self.sourced_beliefs.len()
            invariant
                i <= self.sourced_beliefs.len(),
                old_sourced == self@.sourced,
                sources_view(sourced@) == map_sources(
                    old_sourced.take(i as int),
                    |l: Seq<ExpiringBelief>| drop_stale(l, current_tick),
                ),
            decreases self.sourced_beliefs.len() - i,
        {
            assert(old_sourced[i as int] == self.sourced_beliefs@[i as int]@);
            let entry = SourcedBeliefs {
                source_id: self.sourced_beliefs[i].source_id,
                beliefs: keep_fresh(&self.sourced_beliefs[i].beliefs, current_tick),
            };
            let ghost prev = sourced@;
            sourced.push(entry);
            proof {
                lemma_sources_view_push(prev, entry);
                assert(map_sources(old_sourced.take(i + 1), |l: Seq<ExpiringBelief>| drop_stale(l, current_tick))
                    =~= map_sources(old_sourced.take(i as int), |l: Seq<ExpiringBelief>| drop_stale(l, current_tick)).push(
                    entry@,
                ));
            }
            i = i + 1;
        }
        assert(old_sourced.take(old_sourced.len() as int) =~= old_sourced);
        self.sourced_beliefs = sourced;
    }

    /// Adds a never-expiring unsourced belief, replacing any unsourced belief with the same
    /// unique key.
    pub fn add_belief(&mut self, belief: Belief)
        requires
            old(self).well_formed(),
        ensures
            final(self).well_formed(),
            final(self)@.unsourced == upsert(
                old(self)@.unsourced,
                ExpiringBelief { belief, expires_on_tick: None },
            ),
            final(self)@.sourced == old(self)@.sourced,
    {
        self.unsourced_beliefs = upsert_list(
            &self.unsourced_beliefs,
            ExpiringBelief::new(belief, None),
        );
    }

    /// Adds each belief in order, as [`BeliefSet::add_belief`] does.
    pub fn add_beliefs(&mut self, beliefs: &[Belief])
        requires
            old(self).well_formed(),
        ensures
            final(self).well_formed(),
            final(self)@ == set_add_beliefs(old(self)@, beliefs@),
    {
        let mut i: usize = 0;
        assert(beliefs@.take(0) =~= Seq::<Belief>::empty());
        assert(expire_all(beliefs@.take(0), None) =~= Seq::<ExpiringBelief>::empty());
        while i < beliefs.len()
            invariant
                i <= beliefs@.len(),
                self.well_formed(),
                self@ == set_add_beliefs(old(self)@, beliefs@.take(i as int)),
            decreases beliefs@.len() - i,
        {
            self.add_belief(beliefs[i]);
            proof {
                let es = expire_all(beliefs@.take(i + 1), None);
                assert(es.drop_last() =~= expire_all(beliefs@.take(i as int), None));
            }
            i = i + 1;
        }
        assert(beliefs@.take(beliefs@.len() as int) =~= beliefs@);
    }

    /// Adds an unsourced belief with its expiry, replacing any unsourced belief with the
    /// same unique key.
    pub fn add_expiring_belief(&mut self, belief: ExpiringBelief)
        requires
            old(self).well_formed(),
        ensures
            final(self).well_formed(),
            final(self)@.unsourced == upsert(old(self)@.unsourced, belief),
            final(self)@.sourced == old(self)@.sourced,
    {
        self.unsourced_beliefs = upsert_list(&self.unsourced_beliefs, belief);
    }

    fn upsert_sourced_belief(&mut self, belief: ExpiringBelief, source_id: u32)
        requires
            old(self).well_formed(),
        ensures
            final(self).well_formed(),
            final(self)@.unsourced == old(self)@.unsourced,
            final(self)@.sourced == upsert_sourced(old(self)@.sourced, source_id, belief),
    {
        let ghost old_sourced = self@.sourced;
        let found = find_source(&self.sourced_beliefs, source_id);
        if let Some(k) = found {
            proof {
                assert(old_sourced[k as int].0 == source_id);
                let c = choose|c: int| 0 <= c < old_sourced.len() && old_sourced[c].0 == source_id;
                assert(c == k);
            }
            let entry = SourcedBeliefs {
                source_id,
                beliefs: upsert_list(&self.sourced_beliefs[k].beliefs, belief),
            };
            self.sourced_beliefs.set(k, entry);
            assert(self@.sourced =~= upsert_sourced(old_sourced, source_id, belief));
        } else {
            let mut first: Vec<ExpiringBelief> = Vec::new();
            first.push(belief);
            self.sourced_beliefs.push(SourcedBeliefs { source_id, beliefs: first });
            assert(first@ =~= seq![belief]);
            assert(self@.sourced =~= upsert_sourced(old_sourced, source_id, belief));
        }
    }

    /// Adds each belief in order to the beliefs of the source, replacing any belief of that
    /// source with the same unique key.
    pub fn add_expiring_beliefs_from_source(&mut self, source_id: u32, beliefs: &[ExpiringBelief])
        requires
            old(self).well_formed(),
        ensures
            final(self).well_formed(),
            final(self)@.unsourced == old(self)@.unsourced,
            final(self)@.sourced == upsert_all_sourced(old(self)@.sourced, source_id, beliefs@),
    {
        let ghost start = self@.sourced;
        let mut i: usize = 0;
        while i < beliefs.len()
            invariant
                i <= beliefs@.len(),
                self.well_formed(),
                self@.sourced == upsert_all_sourced(start, source_id, beliefs@.take(i as int)),
                self@.unsourced == old(self)@.unsourced,
            decreases beliefs@.len() - i,
        {
            self.upsert_sourced_belief(beliefs[i], source_id);
            assert(beliefs@.take(i + 1).drop_last() =~= beliefs@.take(i as int));
            i = i + 1;
        }
        assert(beliefs@.take(beliefs@.len() as int) =~= beliefs@);
    }

    /// Adds never-expiring beliefs to the beliefs of the source.
    pub fn add_beliefs_from_source(&mut self, source_id: u32, beliefs: &[Belief])
        requires
            old(self).well_formed(),
        ensures
            final(self).well_formed(),
            final(self)@.unsourced == old(self)@.unsourced,
            final(self)@.sourced == upsert_all_sourced(
                old(self)@.sourced,
                source_id,
                expire_all(beliefs@, None),
            ),
    {
        let expiring = ExpiringBelief::from_beliefs(beliefs, None);
        self.add_expiring_beliefs_from_source(source_id, expiring.as_slice());
    }

    /// Removes every unsourced belief equal to the given one.
    pub fn remove_belief(&mut self, belief: Belief)
        requires
            old(self).well_formed(),
        ensures
            final(self).well_formed(),
            final(self)@.unsourced == old(self)@.unsourced.filter(
                |e: ExpiringBelief| e.belief != belief,
            ),
            final(self)@.sourced == old(self)@.sourced,
    {
        let ghost p = |e: ExpiringBelief| e.belief != belief;
        let mut out: Vec<ExpiringBelief> = Vec::new();
        let mut i: usize = 0;
        while i < self.unsourced_beliefs.len()
            invariant
                i <= self.unsourced_beliefs.len(),
                p == (|e: ExpiringBelief| e.belief != belief),
                out@ == self.unsourced_beliefs@.take(i as int).filter(p),
            decreases self.unsourced_beliefs.len() - i,
        {
            proof {
                lemma_filter_step(self.unsourced_beliefs@, p, i as int);
            }
            if self.unsourced_beliefs[i].belief != belief {
                out.push(self.unsourced_beliefs[i]);
            }
            i = i + 1;
        }
        assert(self.unsourced_beliefs@.take(self.unsourced_beliefs@.len() as int)
            =~= self.unsourced_beliefs@);
        self.unsourced_beliefs = out;
    }

    /// Removes every belief, sourced or not, that passes the test.
    pub fn remove_beliefs_by_test(&mut self, belief_test: &BeliefTest)
        requires
            old(self).well_formed(),
        ensures
            final(self).well_formed(),
            final(self)@ == set_remove_passing(old(self)@, belief_test@),
    {
        self.unsourced_beliefs = keep_not_passing(&self.unsourced_beliefs, belief_test);
        let ghost old_sourced = self@.sourced;
        let mut sourced: Vec<SourcedBeliefs> = Vec::new();
        let mut i: usize = 0;
        while i < self.sourced_beliefs.len()
            invariant
                i <= self.sourced_beliefs.len(),
                old_sourced == self@.sourced,
                sources_view(sourced@) == map_sources(
                    old_sourced.take(i as int),
                    |l: Seq<ExpiringBelief>| drop_passing(l, belief_test@),
                ),
            decreases self.sourced_beliefs.len() - i,
        {
            assert(old_sourced[i as int] == self.sourced_beliefs@[i as int]@);
            let entry = SourcedBeliefs {
                source_id: self.sourced_beliefs[i].source_id,
                beliefs: keep_not_passing(&self.sourced_beliefs[i].beliefs, belief_test),
            };
            let ghost prev = sourced@;
            sourced.push(entry);
            proof {
                lemma_sources_view_push(prev, entry);
                assert(map_sources(old_sourced.take(i + 1), |l: Seq<ExpiringBelief>| drop_passing(l, belief_test@))
                    =~= map_sources(old_sourced.take(i as int), |l: Seq<ExpiringBelief>| drop_passing(l, belief_test@)).push(
                    entry@,
                ));
            }
            i = i + 1;
        }
        assert(old_sourced.take(old_sourced.len() as int) =~= old_sourced);
        self.sourced_beliefs = sourced;
    }

    /// Every belief: the unsourced ones first, then those of each source in turn.
    pub fn beliefs(&self) -> (r: Vec<Belief>)
        ensures
            r@ == all_beliefs(self@),
    {
        let mut out: Vec<Belief> = Vec::new();
        bare_of(&self.unsourced_beliefs, &mut out);
        let ghost front = out@;
        let mut i: usize = 0;
        while i < self.sourced_beliefs.len()
            invariant
                i <= self.sourced_beliefs.len(),
                front == bare(self@.unsourced),
                out@ == front + flatten_sources(self@.sourced.take(i as int)),
            decreases self.sourced_beliefs.len() - i,
        {
            bare_of(&self.sourced_beliefs[i].beliefs, &mut out);
            proof {
                let t = self@.sourced.take(i + 1);
                assert(t.drop_last() =~= self@.sourced.take(i as int));
                assert(t.last() == self.sourced_beliefs@[i as int]@);
                assert(out@ =~= front + flatten_sources(t));
            }
            i = i + 1;
        }
        assert(self@.sourced.take(self.sourced_beliefs.len() as int) =~= self@.sourced);
        out
    }

    /// Every source with its beliefs, the unsourced beliefs appearing as source 0 (in place
    /// of any source 0).
    pub fn sourced_beliefs(&self) -> (r: Vec<SourcedBeliefs>)
        requires
            self.well_formed(),
        ensures
            sources_view(r@) == with_source_zero(
                self@.sourced,
                self@.unsourced,
            ),
    {
        let copy = self.duplicate();
        let mut sourced = copy.sourced_beliefs;
        let unsourced = copy.unsourced_beliefs;
        let ghost old_sourced = self@.sourced;
        assert(sources_view(sourced@) == old_sourced);
        let found = find_source(&sourced, 0);
        if let Some(k) = found {
            proof {
                assert(old_sourced[k as int].0 == 0);
                let c = choose|c: int| 0 <= c < old_sourced.len() && old_sourced[c].0 == 0;
                assert(c == k);
            }
            sourced.set(k, SourcedBeliefs { source_id: 0, beliefs: unsourced });
        } else {
            sourced.push(SourcedBeliefs { source_id: 0, beliefs: unsourced });
        }
        assert(sources_view(sourced@) =~= with_source_zero(
            self@.sourced,
            self@.unsourced,
        ));
        sourced
    }

    /// Does the set hold this belief?
    pub fn holds_belief(&self, belief: &Belief) -> (r: bool)
        ensures
            r == all_beliefs(self@).contains(*belief),
    {
        let beliefs = self.beliefs();
        let mut i: usize = 0;
        while i < beliefs.len()
            invariant
                i <= beliefs.len(),
                beliefs@ == all_beliefs(self@),
                forall|j: int| 0 <= j < i ==> beliefs@[j] != *belief,
            decreases beliefs.len() - i,
        {
            if beliefs[i] == *belief {
                return true;
            }
            i = i + 1;
        }
        false
    }

    /// Can any belief in this set with the same variant as the test pass it?
    /// If no belief of the test's variant exists in the set, returns false.
    pub fn can_satisfy(&self, satisfiable: &BeliefTest) -> (r: bool)
        ensures
            r == spec_can_satisfy(self@, satisfiable@),
    {
        let beliefs = self.beliefs();
        let mut i: usize = 0;
        while i < beliefs.len()
            invariant
                i <= beliefs.len(),
                beliefs@ == all_beliefs(self@),
                forall|j: int| 0 <= j < i ==> !test_passes(satisfiable@, beliefs@[j]),
            decreases beliefs.len() - i,
        {
            if satisfiable.same_variant(&beliefs[i]) && satisfiable.passes(&beliefs[i]) {
                return true;
            }
            i = i + 1;
        }
        false
    }

    /// Can every belief in this set with the same variant as the test pass it?
    /// If no belief of the test's variant exists in the set, returns true.
    pub fn all_satisfy(&self, satisfiable: BeliefTest) -> (r: bool)
        ensures
            r == spec_all_satisfy(self@, satisfiable@),
    {
        let beliefs = self.beliefs();
        let mut i: usize = 0;
        while i < beliefs.len()
            invariant
                i <= beliefs.len(),
                beliefs@ == all_beliefs(self@),
                forall|j: int|
                    0 <= j < i && test_variant(satisfiable@) == belief_variant(beliefs@[j])
                        ==> test_passes(satisfiable@, beliefs@[j]),
            decreases beliefs.len() - i,
        {
            if satisfiable.same_variant(&beliefs[i]) && !satisfiable.passes(&beliefs[i]) {
                return false;
            }
            i = i + 1;
        }
        true
    }
}

} // verus!
