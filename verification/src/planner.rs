use vstd::prelude::*;
use crate::action::{Action, ActionView, requirements_met, yields};
use crate::belief::{BeliefTest, BeliefTestView};
use crate::belief_set::{
    BeliefSet, BeliefSetView, lemma_filter_step, set_add_beliefs, set_remove_all_passing,
    spec_can_satisfy,
};
use crate::goal::{Goal, GoalView, copy_tests, tests_view};
use crate::strategy::Strategy;

verus! {

// ---------------------------------------------------------------------------------------
// Plans
// ---------------------------------------------------------------------------------------

/// A plan: positions of actions in the list of actions the agent may take. The first
/// action satisfies the goal, each later one a prerequisite of those before it; the agent
/// performs them from the last to the first.
#[derive(Debug)]
pub struct Plan {
    actions: Vec<usize>,
}

impl View for Plan {
    type V = Seq<usize>;

    closed spec fn view(&self) -> Seq<usize> {
        self.actions@
    }
}

/// The models of a list of actions.
pub open spec fn actions_view<S>(actions: Seq<Action<S>>) -> Seq<ActionView> {
    actions.map_values(|a: Action<S>| a@)
}

/// The models of a list of plans.
pub open spec fn plans_view(plans: Seq<Plan>) -> Seq<Seq<usize>> {
    plans.map_values(|p: Plan| p@)
}

/// The summed cost of the actions of a plan.
pub open spec fn plan_cost(actions: Seq<ActionView>, plan: Seq<usize>) -> nat
    decreases plan.len(),
{
    if plan.len() == 0 {
        0
    } else {
        plan_cost(actions, plan.drop_last()) + actions[plan.last() as int].cost as nat
    }
}

/// Every position of the plan names an action of the list.
pub open spec fn plan_in_range(n: nat, plan: Seq<usize>) -> bool {
    forall|i: int| 0 <= i < plan.len() ==> plan[i] < n
}

proof fn lemma_plans_view_push(ps: Seq<Plan>, p: Plan)
    ensures
        plans_view(ps.push(p)) == plans_view(ps).push(p@),
{
    assert(plans_view(ps.push(p)) =~= plans_view(ps).push(p@));
}

impl Plan {
    /// A plan without actions.
    pub fn new() -> (r: Plan)
        ensures
            r@ == Seq::<usize>::empty(),
    {
        Plan { actions: Vec::new() }
    }

    /// A plan of the given actions.
    pub fn from(actions: &[usize]) -> (r: Plan)
        ensures
            r@ == actions@,
    {
        let mut p = Plan::new();
        p.extend(actions);
        p
    }

    /// Appends one action.
    pub fn push(&mut self, action: usize)
        ensures
            final(self)@ == old(self)@.push(action),
    {
        self.actions.push(action);
    }

    /// Appends actions in order.
    pub fn extend(&mut self, actions: &[usize])
        ensures
            final(self)@ == old(self)@ + actions@,
    {
        let mut i: usize = 0;
        let ghost start = self.actions@;
        while i < actions.len()
            invariant
                i <= actions@.len(),
                self.actions@ == start + actions@.take(i as int),
            decreases actions@.len() - i,
        {
            self.actions.push(actions[i]);
            i = i + 1;
            assert(self.actions@ =~= start + actions@.take(i as int));
        }
        assert(actions@.take(actions@.len() as int) =~= actions@);
    }

    /// The actions of the plan.
    pub fn plan(&self) -> (r: Vec<usize>)
        ensures
            r@ == self@,
    {
        self.actions.clone()
    }

    /// The summed cost of the plan's actions.
    pub fn cost<S: Strategy>(&self, actions: &Vec<Action<S>>) -> (r: u128)
        requires
            plan_in_range(actions@.len(), self@),
        ensures
            r == plan_cost(actions_view(actions@), self@),
            r <= self@.len() * 0xffff_ffff,
    {
        let mut total: u128 = 0;
        let mut i: usize = 0;
        while i < self.actions.len()
            invariant
                i <= self.actions@.len(),
                plan_in_range(actions@.len(), self@),
                total == plan_cost(actions_view(actions@), self@.take(i as int)),
                total <= i * 0xffff_ffff,
            decreases self.actions@.len() - i,
        {
            let a = self.actions[i];
            assert(self@[i as int] == a);
            assert(actions_view(actions@)[a as int] == actions@[a as int]@);
            let c = actions[a].cost();
            assert(self@.take(i + 1).drop_last() =~= self@.take(i as int));
            assert(total + c <= (i + 1) * 0xffff_ffff) by (nonlinear_arith)
                requires
                    total <= i * 0xffff_ffff,
                    c <= 0xffff_ffff,
            ;
            total = total + c as u128;
            i = i + 1;
        }
        assert(self@.take(self@.len() as int) =~= self@);
        total
    }

    /// A copy of the plan.
    pub fn duplicate(&self) -> (r: Plan)
        ensures
            r@ == self@,
    {
        Plan { actions: self.actions.clone() }
    }
}

// ---------------------------------------------------------------------------------------
// Planner states
// ---------------------------------------------------------------------------------------

/// The search state of the planner: what remains to be satisfied, what is forbidden, and
/// what the agent would believe after the actions planned so far.
pub struct PlannerState {
    lifetime: u8,
    action_plan: Plan,
    belief_set: BeliefSet,
    current_desired_belief: BeliefTest,
    remaining_desired_beliefs: Vec<BeliefTest>,
    prohibited_beliefs: Vec<BeliefTest>,
}

/// The mathematical model of a [`PlannerState`].
pub struct PlannerStateView {
    /// How many more actions may be planned.
    pub lifetime: u8,
    pub plan: Seq<usize>,
    pub beliefs: BeliefSetView,
    pub current: BeliefTestView,
    pub remaining: Seq<BeliefTestView>,
    pub prohibited: Seq<BeliefTestView>,
}

impl View for PlannerState {
    type V = PlannerStateView;

    closed spec fn view(&self) -> PlannerStateView {
        PlannerStateView {
            lifetime: self.lifetime,
            plan: self.action_plan@,
            beliefs: self.belief_set@,
            current: self.current_desired_belief@,
            remaining: tests_view(self.remaining_desired_beliefs@),
            prohibited: tests_view(self.prohibited_beliefs@),
        }
    }
}

/// The beliefs after an action: those passing a consumed test are removed, then the
/// completion beliefs and the promised beliefs are added.
pub open spec fn apply_action(v: BeliefSetView, a: ActionView) -> BeliefSetView {
    set_add_beliefs(set_add_beliefs(set_remove_all_passing(v, a.consumed), a.completion), a.promised)
}

/// Some prohibited test is passed by a completion or promised belief of the action.
pub open spec fn conflicts(prohibited: Seq<BeliefTestView>, a: ActionView) -> bool {
    exists|i: int| 0 <= i < prohibited.len() && yields(a, #[trigger] prohibited[i])
}

/// The tests the beliefs do not satisfy, in order.
pub open spec fn unmet(v: BeliefSetView, tests: Seq<BeliefTestView>) -> Seq<BeliefTestView> {
    tests.filter(|t: BeliefTestView| !spec_can_satisfy(v, t))
}

/// The state after planning action `a` (at position `index`): none when no more actions may
/// be planned or when the action yields a belief that an earlier planned action prohibits.
pub open spec fn after_completing(st: PlannerStateView, a: ActionView, index: usize) -> Option<
    PlannerStateView,
> {
    if st.lifetime == 0 || conflicts(st.prohibited, a) {
        None
    } else {
        Some(
            PlannerStateView {
                lifetime: (st.lifetime - 1) as u8,
                plan: st.plan.push(index),
                beliefs: apply_action(st.beliefs, a),
                current: st.current,
                remaining: st.remaining + unmet(st.beliefs, a.prerequisites),
                prohibited: st.prohibited + a.prohibited,
            },
        )
    }
}

proof fn lemma_tests_view_push(ts: Seq<BeliefTest>, t: BeliefTest)
    ensures
        tests_view(ts.push(t)) == tests_view(ts).push(t@),
{
    assert(tests_view(ts.push(t)) =~= tests_view(ts).push(t@));
}

/// Updates the beliefs as performing the action would: consumed beliefs removed, then the
/// completion and promised beliefs added.
pub fn apply_action_to<S: Strategy>(beliefs: &mut BeliefSet, action: &Action<S>)
    requires
        old(beliefs).well_formed(),
    ensures
        final(beliefs).well_formed(),
        final(beliefs)@ == apply_action(old(beliefs)@, action@),
{
    let ghost start = beliefs@;
    let consumed = action.consumed_beliefs();
    let mut j: usize = 0;
    while j < consumed.len()
        invariant
            j <= consumed@.len(),
            beliefs.well_formed(),
            tests_view(consumed@) == action@.consumed,
            beliefs@ == set_remove_all_passing(start, action@.consumed.take(j as int)),
        decreases consumed@.len() - j,
    {
        assert(action@.consumed.take(j + 1).drop_last() =~= action@.consumed.take(j as int));
        assert(action@.consumed[j as int] == consumed@[j as int]@);
        beliefs.remove_beliefs_by_test(&consumed[j]);
        j = j + 1;
    }
    assert(action@.consumed.take(consumed@.len() as int) =~= action@.consumed);
    beliefs.add_beliefs(action.completion_beliefs().as_slice());
    beliefs.add_beliefs(action.promised_beliefs().as_slice());
}

impl PlannerState {
    /// The belief set of the state is well formed.
    pub closed spec fn well_formed(&self) -> bool {
        self.belief_set.well_formed()
    }

    pub fn new(
        lifetime: u8,
        belief_set: BeliefSet,
        current_desired_belief: BeliefTest,
        remaining_desired_beliefs: Vec<BeliefTest>,
    ) -> (r: PlannerState)
        requires
            belief_set.well_formed(),
        ensures
            r.well_formed(),
            r@ == (PlannerStateView {
                lifetime,
                plan: Seq::empty(),
                beliefs: belief_set@,
                current: current_desired_belief@,
                remaining: tests_view(remaining_desired_beliefs@),
                prohibited: Seq::empty(),
            }),
    {
        let r = PlannerState {
            lifetime,
            action_plan: Plan::new(),
            belief_set,
            current_desired_belief,
            remaining_desired_beliefs,
            prohibited_beliefs: Vec::new(),
        };
        assert(tests_view(r.prohibited_beliefs@) =~= Seq::<BeliefTestView>::empty());
        r
    }

    fn conflicts_with<S: Strategy>(&self, action: &Action<S>) -> (r: bool)
        ensures
            r == conflicts(self@.prohibited, action@),
    {
        let mut i: usize = 0;
        while i < self.prohibited_beliefs.len()
            invariant
                i <= self.prohibited_beliefs.len(),
                forall|j: int| 0 <= j < i ==> !yields(action@, #[trigger] self@.prohibited[j]),
            decreases self.prohibited_beliefs.len() - i,
        {
            assert(self@.prohibited[i as int] == self.prohibited_beliefs@[i as int]@);
            if action.can_satisfy(self.prohibited_beliefs[i].duplicate()) {
                return true;
            }
            i = i + 1;
        }
        false
    }

    /// The state after planning the action at position `index`; none when no more actions
    /// may be planned or the action conflicts with a prohibited test.
    pub fn new_after_completing<S: Strategy>(&self, actions: &Vec<Action<S>>, index: usize) -> (r:
        Option<PlannerState>)
        requires
            self.well_formed(),
            index < actions@.len(),
        ensures
            match r {
                None => after_completing(self@, actions@[index as int]@, index) is None,
                Some(u) => u.well_formed() && after_completing(self@, actions@[index as int]@, index)
                    == Some(u@),
            },
    {
        if self.lifetime == 0 {
            return None;
        }
        let action = &actions[index];
        if self.conflicts_with(action) {
            return None;
        }
        let mut remaining = copy_tests(&self.remaining_desired_beliefs);
        let prereqs = action.prerequisite_beliefs();
        let ghost p = |t: BeliefTestView| !spec_can_satisfy(self@.beliefs, t);
        let ghost base = tests_view(remaining@);
        let mut i: usize = 0;
        while i < prereqs.len()
            invariant
                i <= prereqs@.len(),
                self.well_formed(),
                p == (|t: BeliefTestView| !spec_can_satisfy(self@.beliefs, t)),
                tests_view(prereqs@) == action@.prerequisites,
                tests_view(remaining@) == base + action@.prerequisites.take(i as int).filter(p),
            decreases prereqs@.len() - i,
        {
            proof {
                lemma_filter_step(action@.prerequisites, p, i as int);
            }
            assert(action@.prerequisites[i as int] == prereqs@[i as int]@);
            if !self.belief_set.can_satisfy(&prereqs[i]) {
                let ghost prev = remaining@;
                let t = prereqs[i].duplicate();
                proof {
                    lemma_tests_view_push(prev, t);
                }
                remaining.push(t);
                assert(tests_view(remaining@) =~= base + action@.prerequisites.take(i + 1).filter(p));
            }
            i = i + 1;
        }
        assert(action@.prerequisites.take(prereqs@.len() as int) =~= action@.prerequisites);
        let mut prohibited = copy_tests(&self.prohibited_beliefs);
        let action_prohibited = copy_tests(action.prohibited_beliefs());
        let ghost before = tests_view(prohibited@);
        let mut action_prohibited = action_prohibited;
        let ghost ap = tests_view(action_prohibited@);
        prohibited.append(&mut action_prohibited);
        assert(tests_view(prohibited@) =~= before + ap);
        let mut beliefs = self.belief_set.duplicate();
        apply_action_to(&mut beliefs, action);
        let mut plan = self.action_plan.duplicate();
        plan.push(index);
        let r = PlannerState {
            lifetime: self.lifetime - 1,
            action_plan: plan,
            belief_set: beliefs,
            current_desired_belief: self.current_desired_belief.duplicate(),
            remaining_desired_beliefs: remaining,
            prohibited_beliefs: prohibited,
        };
        assert(r@ == after_completing(self@, actions@[index as int]@, index)->0);
        Some(r)
    }
}

// ---------------------------------------------------------------------------------------
// Potential plans
// ---------------------------------------------------------------------------------------

/// Each plan with the action at `index` put in front.
pub open spec fn prefix_all(index: usize, plans: Seq<Seq<usize>>) -> Seq<Seq<usize>> {
    plans.map_values(|p: Seq<usize>| seq![index] + p)
}

/// The state that continues with the last remaining desired belief.
pub open spec fn next_desire(u: PlannerStateView) -> PlannerStateView {
    PlannerStateView { current: u.remaining.last(), remaining: u.remaining.drop_last(), ..u }
}

/// All plans that satisfy the state's current desired belief (and, through it, the remaining
/// ones), in the order of the actions that satisfy it.
pub open spec fn potential_plans(st: PlannerStateView, actions: Seq<ActionView>) -> Seq<Seq<usize>>
    decreases st.lifetime, actions.len() + 1,
{
    plans_from(st, actions, 0)
}

/// The plans that start with the action at position `k` or later. An action qualifies when
/// it yields the current desired belief; the first qualifying action that cannot be planned
/// ends the search.
pub open spec fn plans_from(st: PlannerStateView, actions: Seq<ActionView>, k: int) -> Seq<Seq<usize>>
    decreases st.lifetime, actions.len() - k,
{
    if k < 0 || k >= actions.len() {
        Seq::empty()
    } else if !yields(actions[k], st.current) {
        plans_from(st, actions, k + 1)
    } else {
        match after_completing(st, actions[k], k as usize) {
            None => Seq::empty(),
            Some(u) => {
                if u.remaining.len() > 0 {
                    prefix_all(k as usize, potential_plans(next_desire(u), actions)) + plans_from(
                        st,
                        actions,
                        k + 1,
                    )
                } else {
                    seq![seq![k as usize]] + plans_from(st, actions, k + 1)
                }
            },
        }
    }
}

/// Finds every plan that satisfies the state's current desired belief and then the
/// remaining desired beliefs, planning at most as many actions as the state's lifetime.
pub fn make_potential_plans<S: Strategy>(planner_state: PlannerState, actions: &Vec<Action<S>>) -> (r:
    Vec<Plan>)
    requires
        planner_state.well_formed(),
    ensures
        plans_view(r@) == potential_plans(planner_state@, actions_view(actions@)),
    decreases planner_state@.lifetime,
{
    let ghost st = planner_state@;
    let ghost av = actions_view(actions@);
    let mut potential: Vec<Plan> = Vec::new();
    let mut k: usize = 0;
    assert(plans_view(potential@) =~= Seq::<Seq<usize>>::empty());
    while k < actions.len()
        invariant
            k <= actions@.len(),
            planner_state.well_formed(),
            st == planner_state@,
            av == actions_view(actions@),
            plans_view(potential@) + plans_from(st, av, k as int) == potential_plans(st, av),
        decreases actions@.len() - k,
    {
        assert(av[k as int] == actions@[k as int]@);
        let qualifies = actions[k].can_satisfy(planner_state.current_desired_belief.duplicate());
        if !qualifies {
            k = k + 1;
            continue;
        }
        let updated = planner_state.new_after_completing(actions, k);
        match updated {
            None => {
                assert(plans_from(st, av, k as int) == Seq::<Seq<usize>>::empty());
                assert(plans_view(potential@) =~= potential_plans(st, av));
                return potential;
            },
            Some(mut u) => {
                let ghost uv = u@;
                let next = u.remaining_desired_beliefs.pop();
                match next {
                    Some(next_desired) => {
                        proof {
                            assert(uv.remaining.len() > 0);
                            assert(tests_view(u.remaining_desired_beliefs@) =~= uv.remaining.drop_last());
                        }
                        u.current_desired_belief = next_desired;
                        assert(u@ == next_desire(uv));
                        let sub = make_potential_plans(u, actions);
                        let ghost before = potential@;
                        let mut j: usize = 0;
                        while j < sub.len()
                            invariant
                                j <= sub@.len(),
                                plans_view(potential@) == plans_view(before) + prefix_all(
                                    k,
                                    plans_view(sub@),
                                ).take(j as int),
                            decreases sub@.len() - j,
                        {
                            let mut new_plan = Plan::from(&[k]);
                            let tail = sub[j].plan();
                            new_plan.extend(tail.as_slice());
                            let ghost prev = potential@;
                            proof {
                                lemma_plans_view_push(prev, new_plan);
                                assert(new_plan@ =~= seq![k] + plans_view(sub@)[j as int]);
                                assert(prefix_all(k, plans_view(sub@)).take(j + 1) =~= prefix_all(
                                    k,
                                    plans_view(sub@),
                                ).take(j as int).push(seq![k] + plans_view(sub@)[j as int]));
                            }
                            potential.push(new_plan);
                            j = j + 1;
                        }
                        proof {
                            assert(prefix_all(k, plans_view(sub@)).take(sub@.len() as int)
                                =~= prefix_all(k, plans_view(sub@)));
                        }
                    },
                    None => {
                        proof {
                            assert(uv.remaining.len() == 0);
                        }
                        let ghost prev = potential@;
                        let single = Plan::from(&[k]);
                        proof {
                            lemma_plans_view_push(prev, single);
                            assert(single@ =~= seq![k]);
                        }
                        potential.push(single);
                    },
                }
                k = k + 1;
            },
        }
    }
    assert(plans_view(potential@) + plans_from(st, av, k as int) =~= plans_view(potential@));
    potential
}

/// Every plan found names actions of the list and holds at least one action.
pub proof fn lemma_potential_plans_in_range(st: PlannerStateView, actions: Seq<ActionView>)
    requires
        actions.len() <= usize::MAX,
    ensures
        forall|i: int|
            0 <= i < potential_plans(st, actions).len() ==> plan_in_range(
                actions.len(),
                #[trigger] potential_plans(st, actions)[i],
            ) && potential_plans(st, actions)[i].len() > 0,
    decreases st.lifetime, actions.len() + 1,
{
    lemma_plans_from_in_range(st, actions, 0);
    assert(potential_plans(st, actions) == plans_from(st, actions, 0));
}

proof fn lemma_plans_from_in_range(st: PlannerStateView, actions: Seq<ActionView>, k: int)
    requires
        actions.len() <= usize::MAX,
    ensures
        forall|i: int|
            0 <= i < plans_from(st, actions, k).len() ==> plan_in_range(
                actions.len(),
                #[trigger] plans_from(st, actions, k)[i],
            ) && plans_from(st, actions, k)[i].len() > 0,
    decreases st.lifetime, actions.len() - k,
{
    if k < 0 || k >= actions.len() {
    } else if !yields(actions[k], st.current) {
        lemma_plans_from_in_range(st, actions, k + 1);
    } else {
        match after_completing(st, actions[k], k as usize) {
            None => {},
            Some(u) => {
                lemma_plans_from_in_range(st, actions, k + 1);
                let rest = plans_from(st, actions, k + 1);
                if u.remaining.len() > 0 {
                    let sub = potential_plans(next_desire(u), actions);
                    lemma_potential_plans_in_range(next_desire(u), actions);
                    let front = prefix_all(k as usize, sub);
                    assert forall|i: int|
                        0 <= i < plans_from(st, actions, k).len() implies plan_in_range(
                        actions.len(),
                        #[trigger] plans_from(st, actions, k)[i],
                    ) && plans_from(st, actions, k)[i].len() > 0 by {
                        if i < front.len() {
                            assert(plans_from(st, actions, k)[i] == seq![k as usize] + sub[i]);
                            assert(plan_in_range(actions.len(), sub[i]));
                            let p = seq![k as usize] + sub[i];
                            assert forall|j: int| 0 <= j < p.len() implies p[j] < actions.len() by {
                                if j > 0 {
                                    assert(p[j] == sub[i][j - 1]);
                                }
                            }
                        } else {
                            assert(plans_from(st, actions, k)[i] == rest[i - front.len()]);
                        }
                    }
                } else {
                    assert forall|i: int|
                        0 <= i < plans_from(st, actions, k).len() implies plan_in_range(
                        actions.len(),
                        #[trigger] plans_from(st, actions, k)[i],
                    ) && plans_from(st, actions, k)[i].len() > 0 by {
                        if i > 0 {
                            assert(plans_from(st, actions, k)[i] == rest[i - 1]);
                        }
                    }
                }
            },
        }
    }
}

/// Law: every plan found for a state holds at most as many actions as the state's lifetime.
pub proof fn law_potential_plans_within_lifetime(st: PlannerStateView, actions: Seq<ActionView>)
    ensures
        forall|i: int|
            0 <= i < potential_plans(st, actions).len() ==> (#[trigger] potential_plans(st, actions)[i]).len()
                <= st.lifetime,
    decreases st.lifetime, actions.len() + 1,
{
    lemma_plans_from_within_lifetime(st, actions, 0);
    assert(potential_plans(st, actions) == plans_from(st, actions, 0));
}

proof fn lemma_plans_from_within_lifetime(st: PlannerStateView, actions: Seq<ActionView>, k: int)
    ensures
        forall|i: int|
            0 <= i < plans_from(st, actions, k).len() ==> (#[trigger] plans_from(st, actions, k)[i]).len()
                <= st.lifetime,
    decreases st.lifetime, actions.len() - k,
{
    if k < 0 || k >= actions.len() {
    } else if !yields(actions[k], st.current) {
        lemma_plans_from_within_lifetime(st, actions, k + 1);
        assert(plans_from(st, actions, k) == plans_from(st, actions, k + 1));
    } else {
        match after_completing(st, actions[k], k as usize) {
            None => {},
            Some(u) => {
                lemma_plans_from_within_lifetime(st, actions, k + 1);
                let rest = plans_from(st, actions, k + 1);
                assert(st.lifetime >= 1 && u.lifetime == st.lifetime - 1);
                if u.remaining.len() > 0 {
                    let sub = potential_plans(next_desire(u), actions);
                    law_potential_plans_within_lifetime(next_desire(u), actions);
                    let front = prefix_all(k as usize, sub);
                    assert forall|i: int| 0 <= i < plans_from(st, actions, k).len() implies (
                    #[trigger] plans_from(st, actions, k)[i]).len() <= st.lifetime by {
                        assert(plans_from(st, actions, k) == front + rest);
                        if i < front.len() {
                            assert(plans_from(st, actions, k)[i] == seq![k as usize] + sub[i]);
                            assert(sub[i].len() <= next_desire(u).lifetime);
                        } else {
                            assert(plans_from(st, actions, k)[i] == rest[i - front.len()]);
                        }
                    }
                } else {
                    assert forall|i: int| 0 <= i < plans_from(st, actions, k).len() implies (
                    #[trigger] plans_from(st, actions, k)[i]).len() <= st.lifetime by {
                        assert(plans_from(st, actions, k) == seq![seq![k as usize]] + rest);
                        if i > 0 {
                            assert(plans_from(st, actions, k)[i] == rest[i - 1]);
                        } else {
                            assert(plans_from(st, actions, k)[i] == seq![k as usize]);
                        }
                    }
                }
            },
        }
    }
}

// ---------------------------------------------------------------------------------------
// Validating and choosing plans
// ---------------------------------------------------------------------------------------

/// Performing the plan's actions from the last to the first, each action's prerequisites
/// hold and none of its prohibited tests does, starting from the beliefs `v`.
pub open spec fn plan_valid(v: BeliefSetView, actions: Seq<ActionView>, plan: Seq<usize>) -> bool
    decreases plan.len(),
{
    if plan.len() == 0 {
        true
    } else {
        let a = actions[plan.last() as int];
        requirements_met(a, v) && plan_valid(apply_action(v, a), actions, plan.drop_last())
    }
}

/// Can the agent, with these beliefs, perform the plan's actions from the last to the first?
pub fn validate_plan<S: Strategy>(
    agent_beliefs: &BeliefSet,
    actions: &Vec<Action<S>>,
    plan: &Plan,
) -> (r: bool)
    requires
        agent_beliefs.well_formed(),
        plan_in_range(actions@.len(), plan@),
    ensures
        r == plan_valid(agent_beliefs@, actions_view(actions@), plan@),
{
    let ghost av = actions_view(actions@);
    let steps = plan.plan();
    let mut beliefs = agent_beliefs.duplicate();
    let mut i: usize = steps.len();
    assert(plan@.take(plan@.len() as int) =~= plan@);
    while i > 0
        invariant
            i <= steps@.len(),
            steps@ == plan@,
            av == actions_view(actions@),
            plan_in_range(actions@.len(), plan@),
            beliefs.well_formed(),
            plan_valid(agent_beliefs@, av, plan@) == plan_valid(beliefs@, av, plan@.take(i as int)),
        decreases i,
    {
        let idx = steps[i - 1];
        let ghost pre = plan@.take(i as int);
        assert(pre.last() == idx);
        assert(pre.drop_last() =~= plan@.take(i - 1));
        assert(av[idx as int] == actions@[idx as int]@);
        if !actions[idx].meets_requirements(&beliefs) {
            return false;
        }
        apply_action_to(&mut beliefs, &actions[idx]);
        i = i - 1;
    }
    true
}

/// The plan at position `i` has the lowest cost, and every plan before it costs more.
pub open spec fn cheapest_at(actions: Seq<ActionView>, plans: Seq<Seq<usize>>, i: int) -> bool {
    &&& 0 <= i < plans.len()
    &&& forall|j: int| 0 <= j < plans.len() ==> plan_cost(actions, plans[i]) <= plan_cost(actions, #[trigger] plans[j])
    &&& forall|j: int| 0 <= j < i ==> plan_cost(actions, plans[i]) < plan_cost(actions, #[trigger] plans[j])
}

/// The first of the cheapest plans.
pub open spec fn cheapest_plan(actions: Seq<ActionView>, plans: Seq<Seq<usize>>) -> Seq<usize> {
    plans[choose|i: int| cheapest_at(actions, plans, i)]
}

proof fn lemma_cheapest_unique(actions: Seq<ActionView>, plans: Seq<Seq<usize>>, i: int)
    requires
        cheapest_at(actions, plans, i),
    ensures
        cheapest_plan(actions, plans) == plans[i],
{
    let c = choose|c: int| cheapest_at(actions, plans, c);
    assert(cheapest_at(actions, plans, c));
    if c < i {
        assert(plan_cost(actions, plans[i]) < plan_cost(actions, plans[c]));
    } else if i < c {
        assert(plan_cost(actions, plans[c]) < plan_cost(actions, plans[i]));
    }
}

/// A non-empty list of plans has a first cheapest one.
proof fn lemma_cheapest_exists(actions: Seq<ActionView>, plans: Seq<Seq<usize>>)
    requires
        plans.len() > 0,
    ensures
        exists|i: int| cheapest_at(actions, plans, i),
    decreases plans.len(),
{
    let n = plans.len() - 1;
    if n == 0 {
        assert(cheapest_at(actions, plans, 0));
    } else {
        let prefix = plans.drop_last();
        lemma_cheapest_exists(actions, prefix);
        let i = choose|i: int| cheapest_at(actions, prefix, i);
        assert forall|j: int| 0 <= j < n implies #[trigger] plans[j] == prefix[j] by {}
        if plan_cost(actions, plans[n]) < plan_cost(actions, prefix[i]) {
            assert forall|j: int| 0 <= j < plans.len() implies plan_cost(actions, plans[n]) <= plan_cost(
                actions,
                #[trigger] plans[j],
            ) by {
                if j < n {
                    assert(plan_cost(actions, prefix[i]) <= plan_cost(actions, prefix[j]));
                }
            }
            assert forall|j: int| 0 <= j < n implies plan_cost(actions, plans[n]) < plan_cost(
                actions,
                #[trigger] plans[j],
            ) by {
                assert(plan_cost(actions, prefix[i]) <= plan_cost(actions, prefix[j]));
            }
            assert(cheapest_at(actions, plans, n));
        } else {
            assert forall|j: int| 0 <= j < plans.len() implies plan_cost(actions, plans[i]) <= plan_cost(
                actions,
                #[trigger] plans[j],
            ) by {
                if j < n {
                    assert(plan_cost(actions, prefix[i]) <= plan_cost(actions, prefix[j]));
                }
            }
            assert forall|j: int| 0 <= j < i implies plan_cost(actions, plans[i]) < plan_cost(
                actions,
                #[trigger] plans[j],
            ) by {
                assert(plan_cost(actions, prefix[i]) < plan_cost(actions, prefix[j]));
            }
            assert(cheapest_at(actions, plans, i));
        }
    }
}

fn first_cheapest<S: Strategy>(plans: &Vec<Plan>, actions: &Vec<Action<S>>) -> (r: usize)
    requires
        plans@.len() > 0,
        forall|i: int| 0 <= i < plans@.len() ==> plan_in_range(actions@.len(), #[trigger] plans@[i]@),
    ensures
        cheapest_at(actions_view(actions@), plans_view(plans@), r as int),
{
    let ghost av = actions_view(actions@);
    let ghost pv = plans_view(plans@);
    assert(pv[0] == plans@[0]@);
    let mut best: usize = 0;
    let mut best_cost = plans[0].cost(actions);
    let mut j: usize = 1;
    while j < plans.len()
        invariant
            1 <= j <= plans@.len(),
            best < j,
            av == actions_view(actions@),
            pv == plans_view(plans@),
            forall|i: int| 0 <= i < plans@.len() ==> plan_in_range(actions@.len(), #[trigger] plans@[i]@),
            best_cost == plan_cost(av, pv[best as int]),
            forall|m: int| 0 <= m < j ==> plan_cost(av, pv[best as int]) <= plan_cost(av, #[trigger] pv[m]),
            forall|m: int| 0 <= m < best ==> plan_cost(av, pv[best as int]) < plan_cost(av, #[trigger] pv[m]),
        decreases plans@.len() - j,
    {
        assert(pv[j as int] == plans@[j as int]@);
        let c = plans[j].cost(actions);
        if c < best_cost {
            best = j;
            best_cost = c;
        }
        j = j + 1;
    }
    best
}

/// A goal's best plan with its cost and the goal's priority.
pub type Scored = (Seq<usize>, nat, u32);

/// `a` ranks before `b`: its cost per unit of priority is lower. A priority of zero makes the
/// cost per priority unbounded, ranking after every positive priority.
pub open spec fn better(a: Scored, b: Scored) -> bool {
    if a.2 == 0 {
        false
    } else if b.2 == 0 {
        true
    } else {
        a.1 * b.2 < b.1 * a.2
    }
}

/// The entry at position `i` is the first of the best-ranked entries.
pub open spec fn best_at(scored: Seq<Scored>, i: int) -> bool {
    &&& 0 <= i < scored.len()
    &&& forall|j: int| 0 <= j < scored.len() ==> !better(#[trigger] scored[j], scored[i])
    &&& forall|j: int| 0 <= j < i ==> better(scored[i], #[trigger] scored[j])
}

proof fn lemma_better_asymmetric(a: Scored, b: Scored)
    ensures
        better(a, b) ==> !better(b, a),
{
    if better(a, b) && a.2 > 0 && b.2 > 0 {
        assert(!(b.1 * a.2 < a.1 * b.2));
    }
}

proof fn lemma_better_through(j: Scored, m: Scored, b: Scored)
    requires
        better(j, b),
        !better(m, b),
    ensures
        better(j, m),
{
    if m.2 > 0 {
        assert(b.2 > 0);
        let (j1, j2, m1, m2, b1, b2) = (j.1 as int, j.2 as int, m.1 as int, m.2 as int, b.1 as int, b.2 as int);
        assert(j1 * m2 < m1 * j2) by (nonlinear_arith)
            requires
                j1 * b2 < b1 * j2,
                m1 * b2 >= b1 * m2,
                j2 > 0,
                m2 > 0,
                b2 > 0,
                j1 >= 0,
                m1 >= 0,
                b1 >= 0,
        {
            assert(j1 * b2 * m2 < b1 * j2 * m2);
            assert(b1 * m2 * j2 <= m1 * b2 * j2);
            assert(j1 * m2 * b2 < m1 * j2 * b2);
        }
    }
}

proof fn lemma_best_unique(scored: Seq<Scored>, i: int, k: int)
    requires
        best_at(scored, i),
        best_at(scored, k),
    ensures
        i == k,
{
    if i < k {
        assert(better(scored[k], scored[i]));
    } else if k < i {
        assert(better(scored[i], scored[k]));
    }
}

/// A non-empty list of scored plans has a first best-ranked entry.
proof fn lemma_best_exists(scored: Seq<Scored>)
    requires
        scored.len() > 0,
    ensures
        exists|i: int| best_at(scored, i),
    decreases scored.len(),
{
    let n = scored.len() - 1;
    if n == 0 {
        lemma_better_asymmetric(scored[0], scored[0]);
        assert(best_at(scored, 0));
    } else {
        let prefix = scored.drop_last();
        lemma_best_exists(prefix);
        let i = choose|i: int| best_at(prefix, i);
        assert forall|j: int| 0 <= j < n implies #[trigger] scored[j] == prefix[j] by {}
        let last = scored[n];
        if better(last, scored[i]) {
            assert forall|j: int| 0 <= j < scored.len() implies !better(#[trigger] scored[j], scored[n]) by {
                if j < n {
                    assert(!better(prefix[j], prefix[i]));
                    if better(scored[j], last) {
                        lemma_better_through(last, scored[j], scored[i]);
                        lemma_better_asymmetric(scored[j], last);
                    }
                } else {
                    lemma_better_asymmetric(last, last);
                }
            }
            assert forall|j: int| 0 <= j < n implies better(scored[n], #[trigger] scored[j]) by {
                assert(!better(prefix[j], prefix[i]));
                lemma_better_through(last, scored[j], scored[i]);
            }
            assert(best_at(scored, n));
        } else {
            assert forall|j: int| 0 <= j < scored.len() implies !better(#[trigger] scored[j], scored[i]) by {
                if j < n {
                    assert(!better(prefix[j], prefix[i]));
                }
            }
            assert forall|j: int| 0 <= j < i implies better(scored[i], #[trigger] scored[j]) by {
                assert(better(prefix[i], prefix[j]));
            }
            assert(best_at(scored, i));
        }
    }
}

/// The position of the first best-ranked entry.
pub open spec fn best_index(scored: Seq<Scored>) -> int {
    choose|i: int| best_at(scored, i)
}

/// An entry of the exec list of scored plans.
pub struct ScoredPlan {
    pub plan: Plan,
    pub cost: u128,
    pub priority: u32,
}

/// The models of scored plans.
pub open spec fn scored_view(s: Seq<ScoredPlan>) -> Seq<Scored> {
    s.map_values(|x: ScoredPlan| (x.plan@, x.cost as nat, x.priority))
}

fn is_better(a: &ScoredPlan, b: &ScoredPlan) -> (r: bool)
    requires
        a.cost <= 0x1_0000_0000_0000_0000_0000_0000,
        b.cost <= 0x1_0000_0000_0000_0000_0000_0000,
    ensures
        r == better((a.plan@, a.cost as nat, a.priority), (b.plan@, b.cost as nat, b.priority)),
{
    if a.priority == 0 {
        false
    } else if b.priority == 0 {
        true
    } else {
        assert(a.cost * b.priority <= 0x1_0000_0000_0000_0000_0000_0000 * 0xffff_ffff) by (nonlinear_arith)
            requires
                a.cost <= 0x1_0000_0000_0000_0000_0000_0000,
                b.priority <= 0xffff_ffff,
        ;
        assert(b.cost * a.priority <= 0x1_0000_0000_0000_0000_0000_0000 * 0xffff_ffff) by (nonlinear_arith)
            requires
                b.cost <= 0x1_0000_0000_0000_0000_0000_0000,
                a.priority <= 0xffff_ffff,
        ;
        a.cost * (b.priority as u128) < b.cost * (a.priority as u128)
    }
}

fn best_scored(scored: &Vec<ScoredPlan>) -> (r: usize)
    requires
        scored@.len() > 0,
        forall|i: int| 0 <= i < scored@.len() ==> (#[trigger] scored@[i]).cost <= 0x1_0000_0000_0000_0000_0000_0000,
    ensures
        best_at(scored_view(scored@), r as int),
{
    let ghost sv = scored_view(scored@);
    let mut best: usize = 0;
    let mut j: usize = 1;
    proof {
        lemma_better_asymmetric(sv[0], sv[0]);
    }
    while j < scored.len()
        invariant
            1 <= j <= scored@.len(),
            best < j,
            sv == scored_view(scored@),
            forall|i: int| 0 <= i < scored@.len() ==> (#[trigger] scored@[i]).cost <= 0x1_0000_0000_0000_0000_0000_0000,
            forall|m: int| 0 <= m < j ==> !better(#[trigger] sv[m], sv[best as int]),
            forall|m: int| 0 <= m < best ==> better(sv[best as int], #[trigger] sv[m]),
        decreases scored@.len() - j,
    {
        assert(sv[j as int] == (scored@[j as int].plan@, scored@[j as int].cost as nat, scored@[j as int].priority));
        assert(sv[best as int] == (scored@[best as int].plan@, scored@[best as int].cost as nat, scored@[best as int].priority));
        if is_better(&scored[j], &scored[best]) {
            let ghost old_best = best;
            proof {
                assert forall|m: int| 0 <= m < j implies better(sv[j as int], #[trigger] sv[m]) by {
                    lemma_better_through(sv[j as int], sv[m], sv[old_best as int]);
                }
                assert forall|m: int| 0 <= m < j + 1 implies !better(#[trigger] sv[m], sv[j as int]) by {
                    if m < j {
                        lemma_better_asymmetric(sv[j as int], sv[m]);
                    } else {
                        lemma_better_asymmetric(sv[m], sv[m]);
                    }
                }
            }
            best = j;
        }
        j = j + 1;
    }
    best
}

// ---------------------------------------------------------------------------------------
// Ranking goals
// ---------------------------------------------------------------------------------------

/// The models of a list of goals.
pub open spec fn goals_view(gs: Seq<Goal>) -> Seq<GoalView> {
    gs.map_values(|g: Goal| g@)
}

/// A goal is worth pursuing when it is repeatable or some desired belief is not yet held.
pub open spec fn goal_kept(v: BeliefSetView, g: GoalView) -> bool {
    g.repeatable || exists|i: int|
        0 <= i < g.desired_beliefs.len() && !spec_can_satisfy(v, #[trigger] g.desired_beliefs[i])
}

/// Inserts a goal into a list ranked by descending priority, after every goal of equal or
/// higher priority.
pub open spec fn insert_by_priority(sorted: Seq<GoalView>, g: GoalView) -> Seq<GoalView>
    decreases sorted.len(),
{
    if sorted.len() == 0 || sorted.last().priority >= g.priority {
        sorted.push(g)
    } else {
        insert_by_priority(sorted.drop_last(), g).push(sorted.last())
    }
}

/// The goals ranked by descending priority; goals of equal priority keep their order.
pub open spec fn rank(gs: Seq<GoalView>) -> Seq<GoalView>
    decreases gs.len(),
{
    if gs.len() == 0 {
        Seq::empty()
    } else {
        insert_by_priority(rank(gs.drop_last()), gs.last())
    }
}

/// The goals worth pursuing, highest priority first.
pub open spec fn ranked_goals(v: BeliefSetView, gs: Seq<GoalView>) -> Seq<GoalView> {
    rank(gs.filter(|g: GoalView| goal_kept(v, g)))
}

/// The goals are ranked by descending priority.
pub open spec fn descending(gs: Seq<GoalView>) -> bool {
    forall|i: int, j: int| 0 <= i < j < gs.len() ==> gs[i].priority >= gs[j].priority
}

proof fn lemma_insert_at(sorted: Seq<GoalView>, g: GoalView, p: int)
    requires
        0 <= p <= sorted.len(),
        forall|j: int| p <= j < sorted.len() ==> (#[trigger] sorted[j]).priority < g.priority,
        p == 0 || sorted[p - 1].priority >= g.priority,
    ensures
        insert_by_priority(sorted, g) == sorted.insert(p, g),
    decreases sorted.len() - p,
{
    if p == sorted.len() {
        assert(sorted.insert(p, g) =~= sorted.push(g));
    } else {
        assert(sorted.last().priority < g.priority);
        lemma_insert_at(sorted.drop_last(), g, p);
        assert(sorted.drop_last().insert(p, g).push(sorted.last()) =~= sorted.insert(p, g));
    }
}

proof fn lemma_insert_descending(sorted: Seq<GoalView>, g: GoalView)
    requires
        descending(sorted),
    ensures
        descending(insert_by_priority(sorted, g)),
        insert_by_priority(sorted, g).len() == sorted.len() + 1,
        forall|i: int|
            0 <= i < insert_by_priority(sorted, g).len() ==> sorted.contains(
                #[trigger] insert_by_priority(sorted, g)[i],
            ) || insert_by_priority(sorted, g)[i] == g,
    decreases sorted.len(),
{
    let r = insert_by_priority(sorted, g);
    if sorted.len() == 0 || sorted.last().priority >= g.priority {
        assert forall|i: int| 0 <= i < r.len() implies sorted.contains(#[trigger] r[i]) || r[i] == g by {
            if i < sorted.len() {
                assert(r[i] == sorted[i]);
            }
        }
    } else {
        let front = sorted.drop_last();
        lemma_insert_descending(front, g);
        let inner = insert_by_priority(front, g);
        assert forall|i: int, j: int| 0 <= i < j < r.len() implies r[i].priority >= r[j].priority by {
            if j == r.len() - 1 {
                assert(r[j] == sorted.last());
                if inner[i] == g {
                } else {
                    assert(front.contains(inner[i]));
                    let k = choose|k: int| 0 <= k < front.len() && front[k] == inner[i];
                    assert(sorted[k] == front[k]);
                    assert(sorted[k].priority >= sorted[sorted.len() - 1].priority);
                }
            } else {
                assert(r[i] == inner[i]);
                assert(r[j] == inner[j]);
            }
        }
        assert forall|i: int| 0 <= i < r.len() implies sorted.contains(#[trigger] r[i]) || r[i] == g by {
            if i == r.len() - 1 {
                assert(r[i] == sorted[sorted.len() - 1]);
            } else {
                assert(r[i] == inner[i]);
                if inner[i] != g {
                    let k = choose|k: int| 0 <= k < front.len() && front[k] == inner[i];
                    assert(sorted[k] == front[k]);
                }
            }
        }
    }
}

proof fn lemma_rank_descending(gs: Seq<GoalView>)
    ensures
        descending(rank(gs)),
        rank(gs).len() == gs.len(),
        forall|i: int| 0 <= i < rank(gs).len() ==> gs.contains(#[trigger] rank(gs)[i]),
    decreases gs.len(),
{
    if gs.len() > 0 {
        let front = gs.drop_last();
        lemma_rank_descending(front);
        lemma_insert_descending(rank(front), gs.last());
        let r = rank(gs);
        assert forall|i: int| 0 <= i < r.len() implies gs.contains(#[trigger] r[i]) by {
            if r[i] == gs.last() {
                assert(gs[gs.len() - 1] == r[i]);
            } else {
                assert(rank(front).contains(r[i]));
                let k = choose|k: int| 0 <= k < rank(front).len() && rank(front)[k] == r[i];
                assert(front.contains(rank(front)[k]));
                let m = choose|m: int| 0 <= m < front.len() && front[m] == r[i];
                assert(gs[m] == front[m]);
            }
        }
    }
}

/// Law: the goals an agent pursues come highest priority first, and each of them is one of
/// the given goals that is repeatable or whose desired beliefs the agent does not all hold.
pub proof fn law_ranked_goals_prioritized(v: BeliefSetView, gs: Seq<GoalView>)
    ensures
        descending(ranked_goals(v, gs)),
        forall|i: int|
            0 <= i < ranked_goals(v, gs).len() ==> gs.contains(#[trigger] ranked_goals(v, gs)[i])
                && goal_kept(v, ranked_goals(v, gs)[i]),
{
    let p = |g: GoalView| goal_kept(v, g);
    let f = gs.filter(p);
    lemma_rank_descending(f);
    broadcast use Seq::lemma_filter_pred, Seq::lemma_filter_contains_rev;

    assert forall|i: int| 0 <= i < ranked_goals(v, gs).len() implies gs.contains(
        #[trigger] ranked_goals(v, gs)[i],
    ) && goal_kept(v, ranked_goals(v, gs)[i]) by {
        let g = ranked_goals(v, gs)[i];
        assert(f.contains(g));
        let k = choose|k: int| 0 <= k < f.len() && f[k] == g;
        assert(p(f[k]));
    }
}

fn goal_is_kept(agent_beliefs: &BeliefSet, goal: &Goal) -> (r: bool)
    ensures
        r == goal_kept(agent_beliefs@, goal@),
{
    if goal.repeatable() {
        return true;
    }
    let desired = goal.desired_beliefs();
    let mut i: usize = 0;
    while i < desired.len()
        invariant
            i <= desired@.len(),
            tests_view(desired@) == goal@.desired_beliefs,
            forall|j: int| 0 <= j < i ==> spec_can_satisfy(agent_beliefs@, #[trigger] goal@.desired_beliefs[j]),
        decreases desired@.len() - i,
    {
        assert(goal@.desired_beliefs[i as int] == desired@[i as int]@);
        if !agent_beliefs.can_satisfy(&desired[i]) {
            return true;
        }
        i = i + 1;
    }
    false
}

/// The goals worth pursuing, highest priority first: a goal is kept when it is repeatable
/// or the agent does not yet hold all of its desired beliefs; goals of equal priority keep
/// their order.
pub fn next_best_goal(agent_beliefs: &BeliefSet, goals: Vec<Goal>) -> (r: Vec<Goal>)
    requires
        forall|i: int| 0 <= i < goals@.len() ==> (#[trigger] goals@[i])@.desired_beliefs.len() > 0,
    ensures
        goals_view(r@) == ranked_goals(agent_beliefs@, goals_view(goals@)),
{
    let ghost gv = goals_view(goals@);
    let ghost p = |g: GoalView| goal_kept(agent_beliefs@, g);
    let mut ranked: Vec<Goal> = Vec::new();
    let mut i: usize = 0;
    assert(goals_view(ranked@) =~= Seq::<GoalView>::empty());
    assert(gv.take(0).filter(p) =~= Seq::<GoalView>::empty()) by {
        reveal_with_fuel(Seq::filter, 1);
    }
    while i < goals.len()
        invariant
            i <= goals@.len(),
            gv == goals_view(goals@),
            p == (|g: GoalView| goal_kept(agent_beliefs@, g)),
            goals_view(ranked@) == rank(gv.take(i as int).filter(p)),
        decreases goals@.len() - i,
    {
        proof {
            lemma_filter_step(gv, p, i as int);
        }
        assert(gv[i as int] == goals@[i as int]@);
        let goal = &goals[i];
        if goal_is_kept(agent_beliefs, goal) {
            let gp = goal.priority();
            let mut pos: usize = ranked.len();
            let ghost sorted = goals_view(ranked@);
            while pos > 0 && ranked[pos - 1].priority() < gp
                invariant
                    pos <= ranked@.len(),
                    sorted == goals_view(ranked@),
                    gp == goal@.priority,
                    forall|j: int| pos <= j < sorted.len() ==> (#[trigger] sorted[j]).priority < gp,
                decreases pos,
            {
                assert(sorted[pos - 1] == ranked@[pos - 1]@);
                pos = pos - 1;
            }
            proof {
                if pos > 0 {
                    assert(sorted[pos - 1] == ranked@[pos - 1]@);
                }
                lemma_insert_at(sorted, goal@, pos as int);
            }
            let copy = goal.duplicate();
            ranked.insert(pos, copy);
            assert(goals_view(ranked@) =~= sorted.insert(pos as int, goal@));
            assert(gv.take(i + 1).filter(p).drop_last() =~= gv.take(i as int).filter(p));
            assert(gv.take(i + 1).filter(p).last() == gv[i as int]);
        }
        i = i + 1;
    }
    assert(gv.take(goals@.len() as int) =~= gv);
    ranked
}

// ---------------------------------------------------------------------------------------
// Making a plan
// ---------------------------------------------------------------------------------------

/// The planner's starting state for a goal: five actions at most, the agent's beliefs, and
/// the goal's last desired belief to satisfy first.
pub open spec fn initial_state(
    v: BeliefSetView,
    current: BeliefTestView,
    remaining: Seq<BeliefTestView>,
) -> PlannerStateView {
    PlannerStateView {
        lifetime: 5,
        plan: Seq::empty(),
        beliefs: v,
        current,
        remaining,
        prohibited: Seq::empty(),
    }
}

/// The plans for a goal that the agent can carry out.
pub open spec fn valid_goal_plans(v: BeliefSetView, actions: Seq<ActionView>, g: GoalView) -> Seq<
    Seq<usize>,
> {
    potential_plans(
        initial_state(v, g.desired_beliefs.last(), g.desired_beliefs.drop_last()),
        actions,
    ).filter(|p: Seq<usize>| plan_valid(v, actions, p))
}

/// A goal's cheapest valid plan, its cost and the goal's priority; none when the goal has no
/// desired belief or no valid plan.
pub open spec fn goal_choice(v: BeliefSetView, actions: Seq<ActionView>, g: GoalView) -> Option<
    Scored,
> {
    if g.desired_beliefs.len() == 0 || valid_goal_plans(v, actions, g).len() == 0 {
        None
    } else {
        let p = cheapest_plan(actions, valid_goal_plans(v, actions, g));
        Some((p, plan_cost(actions, p), g.priority))
    }
}

/// The choices for the goals that have one, in order.
pub open spec fn choices(v: BeliefSetView, actions: Seq<ActionView>, gs: Seq<GoalView>) -> Seq<Scored>
    decreases gs.len(),
{
    if gs.len() == 0 {
        Seq::empty()
    } else {
        match goal_choice(v, actions, gs.last()) {
            Some(c) => choices(v, actions, gs.drop_last()).push(c),
            None => choices(v, actions, gs.drop_last()),
        }
    }
}

/// The first three entries (all of them when there are fewer).
pub open spec fn first_three(s: Seq<Scored>) -> Seq<Scored> {
    if s.len() <= 3 {
        s
    } else {
        s.take(3)
    }
}

/// The plan the agent follows: among the choices for the first three ranked goals that have
/// one, the best-ranked by cost per priority (the earliest of equals); no plan when no goal
/// has a choice.
pub open spec fn planned(v: BeliefSetView, gs: Seq<GoalView>, actions: Seq<ActionView>) -> Seq<usize> {
    let top = first_three(choices(v, actions, ranked_goals(v, gs)));
    if top.len() == 0 {
        Seq::empty()
    } else {
        top[best_index(top)].0
    }
}

/// What a filter keeps is bounded in length as the whole list is.
proof fn lemma_filter_lengths_bounded(s: Seq<Seq<usize>>, p: spec_fn(Seq<usize>) -> bool, n: nat)
    requires
        forall|i: int| 0 <= i < s.len() ==> (#[trigger] s[i]).len() <= n,
    ensures
        forall|i: int| 0 <= i < s.filter(p).len() ==> (#[trigger] s.filter(p)[i]).len() <= n,
    decreases s.len(),
{
    reveal(Seq::filter);
    if s.len() > 0 {
        let init = s.drop_last();
        assert forall|i: int| 0 <= i < init.len() implies (#[trigger] init[i]).len() <= n by {
            assert(init[i] == s[i]);
        }
        lemma_filter_lengths_bounded(init, p, n);
        let f = s.filter(p);
        assert(f == if p(s.last()) { init.filter(p).push(s.last()) } else { init.filter(p) });
        assert forall|i: int| 0 <= i < f.len() implies (#[trigger] f[i]).len() <= n by {
            if p(s.last()) && i == f.len() - 1 {
                assert(f[i] == s.last());
            } else {
                assert(f[i] == init.filter(p)[i]);
            }
        }
    }
}

/// Every plan chosen for a goal holds at most five actions.
proof fn lemma_choices_short(v: BeliefSetView, actions: Seq<ActionView>, gs: Seq<GoalView>)
    ensures
        forall|i: int| 0 <= i < choices(v, actions, gs).len() ==> (#[trigger] choices(v, actions, gs)[i]).0.len() <= 5,
    decreases gs.len(),
{
    if gs.len() > 0 {
        lemma_choices_short(v, actions, gs.drop_last());
        let g = gs.last();
        match goal_choice(v, actions, g) {
            Some(c) => {
                let st = initial_state(v, g.desired_beliefs.last(), g.desired_beliefs.drop_last());
                let plans = valid_goal_plans(v, actions, g);
                law_potential_plans_within_lifetime(st, actions);
                lemma_filter_lengths_bounded(
                    potential_plans(st, actions),
                    |p: Seq<usize>| plan_valid(v, actions, p),
                    5,
                );
                lemma_cheapest_exists(actions, plans);
                let k = choose|k: int| cheapest_at(actions, plans, k);
                assert(plans[k].len() <= 5);
                let before = choices(v, actions, gs.drop_last());
                assert(choices(v, actions, gs) == before.push(c));
                assert forall|i: int| 0 <= i < choices(v, actions, gs).len() implies (
                #[trigger] choices(v, actions, gs)[i]).0.len() <= 5 by {
                    if i < before.len() {
                        assert(choices(v, actions, gs)[i] == before[i]);
                    }
                }
            },
            None => {},
        }
    }
}

/// Law: the plan an agent follows holds at most five actions, the planner's lifetime.
pub proof fn law_plan_at_most_five_actions(v: BeliefSetView, gs: Seq<GoalView>, actions: Seq<ActionView>)
    ensures
        planned(v, gs, actions).len() <= 5,
{
    let all = choices(v, actions, ranked_goals(v, gs));
    let top = first_three(all);
    if top.len() > 0 {
        lemma_choices_short(v, actions, ranked_goals(v, gs));
        lemma_best_exists(top);
        let k = best_index(top);
        assert(best_at(top, k));
        assert(top[k] == all[k]);
    }
}

/// Law: the plan chosen for a goal is one of the goal's valid plans, its cost is the plan's
/// summed cost, and no valid plan of the goal costs less.
pub proof fn law_goal_choice_cheapest(v: BeliefSetView, actions: Seq<ActionView>, g: GoalView)
    ensures
        goal_choice(v, actions, g) matches Some(c) ==> {
            &&& valid_goal_plans(v, actions, g).contains(c.0)
            &&& c.1 == plan_cost(actions, c.0)
            &&& c.2 == g.priority
            &&& forall|i: int|
                0 <= i < valid_goal_plans(v, actions, g).len() ==> plan_cost(actions, c.0) <= plan_cost(
                    actions,
                    #[trigger] valid_goal_plans(v, actions, g)[i],
                )
        },
{
    match goal_choice(v, actions, g) {
        Some(c) => {
            let plans = valid_goal_plans(v, actions, g);
            lemma_cheapest_exists(actions, plans);
            let k = choose|k: int| cheapest_at(actions, plans, k);
            lemma_cheapest_unique(actions, plans, k);
            assert(plans[k] == c.0);
        },
        None => {},
    }
}

/// Each choice stems from one of the goals it was made for.
proof fn lemma_choices_from_goals(v: BeliefSetView, actions: Seq<ActionView>, gs: Seq<GoalView>)
    ensures
        forall|i: int|
            0 <= i < choices(v, actions, gs).len() ==> exists|j: int|
                0 <= j < gs.len() && goal_choice(v, actions, #[trigger] gs[j]) == Some(
                    #[trigger] choices(v, actions, gs)[i],
                ),
    decreases gs.len(),
{
    if gs.len() > 0 {
        let init = gs.drop_last();
        lemma_choices_from_goals(v, actions, init);
        let before = choices(v, actions, init);
        match goal_choice(v, actions, gs.last()) {
            Some(c) => {
                assert(choices(v, actions, gs) == before.push(c));
                assert forall|i: int| 0 <= i < choices(v, actions, gs).len() implies exists|j: int|
                    0 <= j < gs.len() && goal_choice(v, actions, #[trigger] gs[j]) == Some(
                        #[trigger] choices(v, actions, gs)[i],
                    ) by {
                    if i < before.len() {
                        assert(choices(v, actions, gs)[i] == before[i]);
                        let j = choose|j: int|
                            0 <= j < init.len() && goal_choice(v, actions, #[trigger] init[j]) == Some(before[i]);
                        assert(gs[j] == init[j]);
                    } else {
                        assert(choices(v, actions, gs)[i] == c);
                        assert(gs[gs.len() - 1] == gs.last());
                    }
                }
            },
            None => {
                assert(choices(v, actions, gs) == before);
                assert forall|i: int| 0 <= i < choices(v, actions, gs).len() implies exists|j: int|
                    0 <= j < gs.len() && goal_choice(v, actions, #[trigger] gs[j]) == Some(
                        #[trigger] choices(v, actions, gs)[i],
                    ) by {
                    let j = choose|j: int|
                        0 <= j < init.len() && goal_choice(v, actions, #[trigger] init[j]) == Some(before[i]);
                    assert(gs[j] == init[j]);
                }
            },
        }
    }
}

/// Law: the plan an agent follows, when it has one, is for one of its goals a valid plan that
/// costs no more than any other valid plan for that goal.
pub proof fn law_planned_is_cheapest_for_a_goal(v: BeliefSetView, gs: Seq<GoalView>, actions: Seq<ActionView>)
    ensures
        planned(v, gs, actions).len() > 0 ==> exists|j: int|
            0 <= j < gs.len() && valid_goal_plans(v, actions, #[trigger] gs[j]).contains(planned(v, gs, actions))
                && forall|i: int|
                0 <= i < valid_goal_plans(v, actions, gs[j]).len() ==> plan_cost(actions, planned(v, gs, actions))
                    <= plan_cost(actions, #[trigger] valid_goal_plans(v, actions, gs[j])[i]),
{
    let rs = ranked_goals(v, gs);
    let all = choices(v, actions, rs);
    let top = first_three(all);
    if top.len() > 0 {
        lemma_best_exists(top);
        let k = best_index(top);
        assert(best_at(top, k));
        assert(top[k] == all[k]);
        lemma_choices_from_goals(v, actions, rs);
        let j = choose|j: int| 0 <= j < rs.len() && goal_choice(v, actions, #[trigger] rs[j]) == Some(all[k]);
        law_goal_choice_cheapest(v, actions, rs[j]);
        law_ranked_goals_prioritized(v, gs);
        assert(gs.contains(rs[j]));
        let m = choose|m: int| 0 <= m < gs.len() && gs[m] == rs[j];
        assert(planned(v, gs, actions) == all[k].0);
        assert(valid_goal_plans(v, actions, gs[m]).contains(planned(v, gs, actions)));
    }
}

proof fn lemma_choices_append(
    v: BeliefSetView,
    actions: Seq<ActionView>,
    a: Seq<GoalView>,
    b: Seq<GoalView>,
)
    ensures
        choices(v, actions, a + b) == choices(v, actions, a) + choices(v, actions, b),
    decreases b.len(),
{
    if b.len() == 0 {
        assert(a + b =~= a);
        assert(choices(v, actions, a) + choices(v, actions, b) =~= choices(v, actions, a));
    } else {
        lemma_choices_append(v, actions, a, b.drop_last());
        assert((a + b).drop_last() =~= a + b.drop_last());
        assert((a + b).last() == b.last());
        match goal_choice(v, actions, b.last()) {
            Some(c) => {
                assert(choices(v, actions, a + b) =~= choices(v, actions, a) + choices(v, actions, b));
            },
            None => {},
        }
    }
}

/// Chooses the plan an agent with these beliefs follows: goals are ranked by
/// [`next_best_goal`]; for each, in turn, every plan satisfying its desired beliefs is
/// found and the valid ones kept, and the cheapest is scored; once three goals are scored
/// (or the goals run out), the best-ranked plan by cost per priority is returned.
pub fn make_plan<S: Strategy>(agent_beliefs: &BeliefSet, goals: Vec<Goal>, actions: &Vec<Action<S>>) -> (r:
    Plan)
    requires
        agent_beliefs.well_formed(),
        forall|i: int| 0 <= i < goals@.len() ==> (#[trigger] goals@[i])@.desired_beliefs.len() > 0,
    ensures
        r@ == planned(agent_beliefs@, goals_view(goals@), actions_view(actions@)),
{
    let ghost v = agent_beliefs@;
    let ghost av = actions_view(actions@);
    let action_count = actions.len();
    assert(av.len() == action_count);
    let ranked = next_best_goal(agent_beliefs, goals);
    let ghost rv = goals_view(ranked@);
    let mut scored: Vec<ScoredPlan> = Vec::new();
    let mut gi: usize = 0;
    assert(scored_view(scored@) =~= Seq::<Scored>::empty());
    assert(rv.take(0) =~= Seq::<GoalView>::empty());
    assert(rv.take(rv.len() as int) =~= rv);
    while gi < ranked.len()
        invariant_except_break
            scored@.len() < 3,
            scored_view(scored@) == choices(v, av, rv.take(gi as int)),
        invariant
            gi <= ranked@.len(),
            rv.take(rv.len() as int) == rv,
            v == agent_beliefs@,
            agent_beliefs.well_formed(),
            av == actions_view(actions@),
            av.len() == action_count,
            rv == goals_view(ranked@),
            forall|i: int| 0 <= i < scored@.len() ==> (#[trigger] scored@[i]).cost <= 0x1_0000_0000_0000_0000_0000_0000,
        ensures
            scored_view(scored@) == first_three(choices(v, av, rv)),
        decreases ranked@.len() - gi,
    {
        assert(rv[gi as int] == ranked@[gi as int]@);
        assert(rv.take(gi + 1).drop_last() =~= rv.take(gi as int));
        assert(rv.take(gi + 1).last() == rv[gi as int]);
        let goal = &ranked[gi];
        let mut desired = goal.desired_beliefs();
        let ghost gview = goal@;
        match desired.pop() {
            None => {
                assert(goal_choice(v, av, gview) is None);
            },
            Some(next) => {
                assert(tests_view(desired@) =~= gview.desired_beliefs.drop_last());
                let state = PlannerState::new(5, agent_beliefs.duplicate(), next, desired);
                assert(state@ == initial_state(v, gview.desired_beliefs.last(), gview.desired_beliefs.drop_last()));
                let potential = make_potential_plans(state, actions);
                let ghost pv = plans_view(potential@);
                proof {
                    lemma_potential_plans_in_range(state@, av);
                }
                let ghost pred = |p: Seq<usize>| plan_valid(v, av, p);
                let mut valid: Vec<Plan> = Vec::new();
                let mut k: usize = 0;
                assert(plans_view(valid@) =~= Seq::<Seq<usize>>::empty());
                assert(pv.take(0).filter(pred) =~= Seq::<Seq<usize>>::empty()) by {
                    reveal_with_fuel(Seq::filter, 1);
                }
                while k < potential.len()
                    invariant
                        k <= potential@.len(),
                        pv == plans_view(potential@),
                        v == agent_beliefs@,
                        agent_beliefs.well_formed(),
                        av == actions_view(actions@),
                        pred == (|p: Seq<usize>| plan_valid(v, av, p)),
                        forall|i: int| 0 <= i < pv.len() ==> plan_in_range(actions@.len(), #[trigger] pv[i]),
                        plans_view(valid@) == pv.take(k as int).filter(pred),
                        forall|i: int| 0 <= i < valid@.len() ==> plan_in_range(actions@.len(), #[trigger] valid@[i]@),
                    decreases potential@.len() - k,
                {
                    proof {
                        lemma_filter_step(pv, pred, k as int);
                    }
                    assert(pv[k as int] == potential@[k as int]@);
                    if validate_plan(agent_beliefs, actions, &potential[k]) {
                        let ghost prev = valid@;
                        let copy = potential[k].duplicate();
                        proof {
                            lemma_plans_view_push(prev, copy);
                        }
                        valid.push(copy);
                    }
                    k = k + 1;
                }
                assert(pv.take(potential@.len() as int) =~= pv);
                assert(plans_view(valid@) == valid_goal_plans(v, av, gview));
                if valid.len() > 0 {
                    let ci = first_cheapest(&valid, actions);
                    proof {
                        lemma_cheapest_unique(av, plans_view(valid@), ci as int);
                        assert(plans_view(valid@)[ci as int] == valid@[ci as int]@);
                    }
                    let chosen = valid[ci].duplicate();
                    proof {
                        law_potential_plans_within_lifetime(state@, av);
                        lemma_filter_lengths_bounded(pv, pred, 5);
                        assert(chosen@ == valid_goal_plans(v, av, gview)[ci as int]);
                        assert(chosen@.len() <= 5);
                    }
                    let cost = chosen.cost(actions);
                    assert(cost <= 0x1_0000_0000_0000_0000_0000_0000) by (nonlinear_arith)
                        requires
                            cost <= chosen@.len() * 0xffff_ffff,
                            chosen@.len() <= 0xffff_ffff_ffff_ffff,
                    ;
                    let entry = ScoredPlan { plan: chosen, cost, priority: goal.priority() };
                    proof {
                        assert(goal_choice(v, av, gview) == Some(
                            (entry.plan@, entry.cost as nat, entry.priority),
                        ));
                    }
                    let ghost prev = scored@;
                    scored.push(entry);
                    assert(scored_view(scored@) =~= scored_view(prev).push(
                        (entry.plan@, entry.cost as nat, entry.priority),
                    ));
                    if scored.len() >= 3 {
                        proof {
                            lemma_choices_append(v, av, rv.take(gi + 1), rv.skip(gi + 1));
                            assert(rv.take(gi + 1) + rv.skip(gi + 1) =~= rv);
                            assert(choices(v, av, rv).take(3) =~= choices(v, av, rv.take(gi + 1)));
                        }
                        break;
                    }
                } else {
                    assert(goal_choice(v, av, gview) is None);
                }
            },
        }
        gi = gi + 1;
    }
    assert(rv == ranked_goals(v, goals_view(goals@)));
    if scored.len() == 0 {
        Plan::new()
    } else {
        let bi = best_scored(&scored);
        proof {
            let top = scored_view(scored@);
            let c = choose|c: int| best_at(top, c);
            lemma_best_unique(top, bi as int, c);
            assert(top[bi as int].0 == scored@[bi as int].plan@);
        }
        scored[bi].plan.duplicate()
    }
}

} // verus!
