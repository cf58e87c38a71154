use vstd::prelude::*;
use crate::belief::{Belief, BeliefTest, BeliefTestView, test_passes};
use crate::belief_set::{BeliefSet, BeliefSetView, all_beliefs, spec_can_satisfy};
use crate::goal::{copy_tests, tests_view};
use crate::strategy::{NoopStrategy, Strategy};

verus! {

/// Something an agent can do: the beliefs it needs, those that forbid it, those it yields,
/// and the strategy that carries it out.
pub struct Action<S> {
    /// Name of the action.
    name: String,
    /// Cost of performing this action.
    cost: u32,
    strategy: S,
    /// Belief tests required for the action to be taken.
    prerequisite_beliefs: Vec<BeliefTest>,
    /// Belief tests that prevent the action from being taken.
    prohibited_beliefs: Vec<BeliefTest>,
    /// Concrete beliefs that sensors will supply once the action has been performed.
    promised_beliefs: Vec<Belief>,
    /// Concrete beliefs applied once the action completes successfully.
    completion_beliefs: Vec<Belief>,
    /// Beliefs removed once the action completes: those passing any of these tests.
    consumed_beliefs: Vec<BeliefTest>,
    /// Beliefs shared with every other combatant once the action completes.
    broadcast_beliefs: Vec<Belief>,
}

/// The mathematical model of an [`Action`], without its strategy.
#[verifier::ext_equal]
pub struct ActionView {
    pub name: Seq<char>,
    pub cost: u32,
    pub prerequisites: Seq<BeliefTestView>,
    pub prohibited: Seq<BeliefTestView>,
    pub promised: Seq<Belief>,
    pub completion: Seq<Belief>,
    pub consumed: Seq<BeliefTestView>,
    pub broadcast: Seq<Belief>,
}

impl<S> View for Action<S> {
    type V = ActionView;

    closed spec fn view(&self) -> ActionView {
        ActionView {
            name: self.name@,
            cost: self.cost,
            prerequisites: tests_view(self.prerequisite_beliefs@),
            prohibited: tests_view(self.prohibited_beliefs@),
            promised: self.promised_beliefs@,
            completion: self.completion_beliefs@,
            consumed: tests_view(self.consumed_beliefs@),
            broadcast: self.broadcast_beliefs@,
        }
    }
}

/// Every prerequisite of the action is satisfied by the beliefs and none of its prohibited
/// tests is.
pub open spec fn requirements_met(a: ActionView, v: BeliefSetView) -> bool {
    &&& forall|i: int| 0 <= i < a.prerequisites.len() ==> spec_can_satisfy(v, #[trigger] a.prerequisites[i])
    &&& forall|i: int| 0 <= i < a.prohibited.len() ==> !spec_can_satisfy(v, #[trigger] a.prohibited[i])
}

/// Some completion or promised belief of the action passes the test.
pub open spec fn yields(a: ActionView, t: BeliefTestView) -> bool {
    exists|i: int| 0 <= i < (a.completion + a.promised).len() && test_passes(t, #[trigger] (a.completion + a.promised)[i])
}

/// The action has promised beliefs and the agent holds every one of them.
pub open spec fn promises_kept(a: ActionView, v: BeliefSetView) -> bool {
    a.promised.len() > 0 && forall|i: int| 0 <= i < a.promised.len() ==> all_beliefs(v).contains(#[trigger] a.promised[i])
}

fn all_can_satisfy(tests: &Vec<BeliefTest>, beliefs: &BeliefSet) -> (r: bool)
    ensures
        r == forall|i: int| 0 <= i < tests@.len() ==> spec_can_satisfy(beliefs@, #[trigger] tests_view(tests@)[i]),
{
    let mut i: usize = 0;
    while i < tests.len()
        invariant
            i <= tests.len(),
            forall|j: int| 0 <= j < i ==> spec_can_satisfy(beliefs@, #[trigger] tests_view(tests@)[j]),
        decreases tests.len() - i,
    {
        assert(tests_view(tests@)[i as int] == tests@[i as int]@);
        if !beliefs.can_satisfy(&tests[i]) {
            return false;
        }
        i = i + 1;
    }
    true
}

fn none_can_satisfy(tests: &Vec<BeliefTest>, beliefs: &BeliefSet) -> (r: bool)
    ensures
        r == forall|i: int| 0 <= i < tests@.len() ==> !spec_can_satisfy(beliefs@, #[trigger] tests_view(tests@)[i]),
{
    let mut i: usize = 0;
    while i < tests.len()
        invariant
            i <= tests.len(),
            forall|j: int| 0 <= j < i ==> !spec_can_satisfy(beliefs@, #[trigger] tests_view(tests@)[j]),
        decreases tests.len() - i,
    {
        assert(tests_view(tests@)[i as int] == tests@[i as int]@);
        if beliefs.can_satisfy(&tests[i]) {
            return false;
        }
        i = i + 1;
    }
    true
}

fn any_passes(beliefs: &Vec<Belief>, test: &BeliefTest) -> (r: bool)
    ensures
        r == exists|i: int| 0 <= i < beliefs@.len() && test_passes(test@, #[trigger] beliefs@[i]),
{
    let mut i: usize = 0;
    while i < beliefs.len()
        invariant
            i <= beliefs.len(),
            forall|j: int| 0 <= j < i ==> !test_passes(test@, #[trigger] beliefs@[j]),
        decreases beliefs.len() - i,
    {
        if test.passes(&beliefs[i]) {
            return true;
        }
        i = i + 1;
    }
    false
}

/// Copies beliefs.
fn copy_belief_list(bs: &Vec<Belief>) -> (r: Vec<Belief>)
    ensures
        r@ == bs@,
{
    let mut out: Vec<Belief> = Vec::new();
    let mut i: usize = 0;
    while i < bs.len()
        invariant
            i <= bs.len(),
            out@ == bs@.take(i as int),
        decreases bs.len() - i,
    {
        out.push(bs[i]);
        i = i + 1;
        assert(out@ =~= bs@.take(i as int));
    }
    assert(bs@.take(bs.len() as int) =~= bs@);
    out
}

impl<S: Strategy> Action<S> {
    /// The strategy of this action.
    pub closed spec fn spec_strategy(&self) -> S {
        self.strategy
    }

    /// A copy of the action carried out with another strategy.
    pub fn with_strategy<T: Strategy>(&self, strategy: T) -> (r: Action<T>)
        ensures
            r@ == self@,
            r.spec_strategy() == strategy,
    {
        let r = Action {
            name: self.name.clone(),
            cost: self.cost,
            strategy,
            prerequisite_beliefs: copy_tests(&self.prerequisite_beliefs),
            prohibited_beliefs: copy_tests(&self.prohibited_beliefs),
            promised_beliefs: copy_belief_list(&self.promised_beliefs),
            completion_beliefs: copy_belief_list(&self.completion_beliefs),
            consumed_beliefs: copy_tests(&self.consumed_beliefs),
            broadcast_beliefs: copy_belief_list(&self.broadcast_beliefs),
        };
        assert(r@ =~= self@);
        r
    }

    pub fn name(&self) -> (r: String)
        ensures
            r@ == self@.name,
    {
        self.name.clone()
    }

    pub fn cost(&self) -> (r: u32)
        ensures
            r == self@.cost,
    {
        self.cost
    }

    pub fn strategy(&self) -> (r: &S)
        ensures
            *r == self.spec_strategy(),
    {
        &self.strategy
    }

    /// Given an agent's belief set, can this action currently be performed?
    pub fn can_perform(&self, owned_beliefs: &BeliefSet) -> (r: bool)
        ensures
            r == (requirements_met(self@, owned_beliefs@) && self.spec_strategy().spec_can_perform(
                owned_beliefs@,
            )),
    {
        assert(self@.prerequisites == tests_view(self.prerequisite_beliefs@));
        assert(self@.prohibited == tests_view(self.prohibited_beliefs@));
        let all_prereqs = all_can_satisfy(&self.prerequisite_beliefs, owned_beliefs);
        let none_prohibited = none_can_satisfy(&self.prohibited_beliefs, owned_beliefs);
        let can_perform_strategy = self.strategy.can_perform(owned_beliefs);
        all_prereqs && none_prohibited && can_perform_strategy
    }

    /// Are the action's prerequisites satisfied and none of its prohibited tests?
    pub fn meets_requirements(&self, owned_beliefs: &BeliefSet) -> (r: bool)
        ensures
            r == requirements_met(self@, owned_beliefs@),
    {
        assert(self@.prerequisites == tests_view(self.prerequisite_beliefs@));
        assert(self@.prohibited == tests_view(self.prohibited_beliefs@));
        all_can_satisfy(&self.prerequisite_beliefs, owned_beliefs) && none_can_satisfy(
            &self.prohibited_beliefs,
            owned_beliefs,
        )
    }

    pub fn should_interrupt(&self, owned_beliefs: &BeliefSet) -> (r: bool)
        ensures
            r == self.spec_strategy().spec_should_interrupt(owned_beliefs@),
    {
        self.strategy.should_interrupt(owned_beliefs)
    }

    /// If performed, could this action satisfy the given belief test?
    pub fn can_satisfy(&self, belief_test: BeliefTest) -> (r: bool)
        ensures
            r == yields(self@, belief_test@),
    {
        let a = any_passes(&self.completion_beliefs, &belief_test);
        let b = any_passes(&self.promised_beliefs, &belief_test);
        proof {
            let all = self@.completion + self@.promised;
            let n = self@.completion.len();
            if a {
                let i = choose|i: int| 0 <= i < n && test_passes(belief_test@, self@.completion[i]);
                assert(all[i] == self@.completion[i]);
            }
            if b {
                let i = choose|i: int| 0 <= i < self@.promised.len() && test_passes(belief_test@, self@.promised[i]);
                assert(all[n + i] == self@.promised[i]);
            }
            if yields(self@, belief_test@) {
                let i = choose|i: int| 0 <= i < all.len() && test_passes(belief_test@, all[i]);
                if i < n {
                    assert(all[i] == self@.completion[i]);
                } else {
                    assert(all[i] == self@.promised[i - n]);
                }
            }
        }
        a || b
    }

    /// The action is complete when its strategy is, or when it promised beliefs and the
    /// agent holds all of them.
    pub fn is_complete(&self, agent_beliefs: &BeliefSet) -> (r: bool)
        ensures
            r == (self.spec_strategy().spec_is_complete() || promises_kept(self@, agent_beliefs@)),
    {
        let strategy_is_complete = self.strategy.is_complete();
        let all_promised_beliefs_satisfied = if self.promised_beliefs.len() == 0 {
            false
        } else {
            let mut i: usize = 0;
            let mut all = true;
            while i < self.promised_beliefs.len()
                invariant
                    i <= self.promised_beliefs.len(),
                    all == forall|j: int| 0 <= j < i ==> all_beliefs(agent_beliefs@).contains(#[trigger] self@.promised[j]),
                decreases self.promised_beliefs.len() - i,
            {
                assert(self@.promised[i as int] == self.promised_beliefs@[i as int]);
                if !agent_beliefs.holds_belief(&self.promised_beliefs[i]) {
                    all = false;
                }
                i = i + 1;
            }
            all
        };
        strategy_is_complete || all_promised_beliefs_satisfied
    }

    pub fn completion_beliefs(&self) -> (r: &Vec<Belief>)
        ensures
            r@ == self@.completion,
    {
        &self.completion_beliefs
    }

    pub fn prohibited_beliefs(&self) -> (r: &Vec<BeliefTest>)
        ensures
            tests_view(r@) == self@.prohibited,
    {
        &self.prohibited_beliefs
    }

    pub fn promised_beliefs(&self) -> (r: &Vec<Belief>)
        ensures
            r@ == self@.promised,
    {
        &self.promised_beliefs
    }

    pub fn prerequisite_beliefs(&self) -> (r: &Vec<BeliefTest>)
        ensures
            tests_view(r@) == self@.prerequisites,
    {
        &self.prerequisite_beliefs
    }

    pub fn consumed_beliefs(&self) -> (r: &Vec<BeliefTest>)
        ensures
            tests_view(r@) == self@.consumed,
    {
        &self.consumed_beliefs
    }

    pub fn broadcast_beliefs(&self) -> (r: &Vec<Belief>)
        ensures
            r@ == self@.broadcast,
    {
        &self.broadcast_beliefs
    }
}

/// Builds an [`Action`] field by field.
pub struct ActionBuilder<S> {
    action: Action<S>,
}

impl<S> View for ActionBuilder<S> {
    type V = ActionView;

    closed spec fn view(&self) -> ActionView {
        self.action@
    }
}

impl ActionBuilder<NoopStrategy> {
    /// An action with an empty name, cost 0, the no-op strategy and no beliefs.
    pub fn new() -> (r: ActionBuilder<NoopStrategy>)
        ensures
            r@.name == Seq::<char>::empty(),
            r@.cost == 0,
            r@.prerequisites.len() == 0,
            r@.prohibited.len() == 0,
            r@.promised.len() == 0,
            r@.completion.len() == 0,
            r@.consumed.len() == 0,
            r@.broadcast.len() == 0,
    {
        ActionBuilder {
            action: Action {
                name: String::new(),
                cost: 0,
                strategy: NoopStrategy,
                prerequisite_beliefs: Vec::new(),
                prohibited_beliefs: Vec::new(),
                promised_beliefs: Vec::new(),
                completion_beliefs: Vec::new(),
                consumed_beliefs: Vec::new(),
                broadcast_beliefs: Vec::new(),
            },
        }
    }

    /// The action that [`ActionBuilder::new`] starts from.
    pub fn empty() -> (r: Action<NoopStrategy>)
        ensures
            r@.name == Seq::<char>::empty(),
            r@.cost == 0,
            r@.prerequisites.len() == 0,
            r@.prohibited.len() == 0,
            r@.promised.len() == 0,
            r@.completion.len() == 0,
            r@.consumed.len() == 0,
            r@.broadcast.len() == 0,
    {
        ActionBuilder::new().build()
    }
}

impl<S: Strategy> ActionBuilder<S> {
    /// The strategy the action will have.
    pub closed spec fn spec_strategy(&self) -> S {
        self.action.strategy
    }

    pub fn build(self) -> (r: Action<S>)
        ensures
            r@ == self@,
            r.spec_strategy() == self.spec_strategy(),
    {
        self.action
    }

    pub fn name(self, name: &str) -> (r: ActionBuilder<S>)
        ensures
            r@ == (ActionView { name: name@, ..self@ }),
            r.spec_strategy() == self.spec_strategy(),
    {
        let mut b = self;
        b.action.name = String::from_str(name);
        b
    }

    pub fn cost(self, cost: u32) -> (r: ActionBuilder<S>)
        ensures
            r@ == (ActionView { cost, ..self@ }),
            r.spec_strategy() == self.spec_strategy(),
    {
        let mut b = self;
        b.action.cost = cost;
        b
    }

    /// Replaces the strategy.
    pub fn strategy<T: Strategy>(self, strategy: T) -> (r: ActionBuilder<T>)
        ensures
            r@ == self@,
            r.spec_strategy() == strategy,
    {
        let a = self.action;
        ActionBuilder {
            action: Action {
                name: a.name,
                cost: a.cost,
                strategy,
                prerequisite_beliefs: a.prerequisite_beliefs,
                prohibited_beliefs: a.prohibited_beliefs,
                promised_beliefs: a.promised_beliefs,
                completion_beliefs: a.completion_beliefs,
                consumed_beliefs: a.consumed_beliefs,
                broadcast_beliefs: a.broadcast_beliefs,
            },
        }
    }

    /// Replaces the prerequisites.
    pub fn prerequisites(self, beliefs: Vec<BeliefTest>) -> (r: ActionBuilder<S>)
        ensures
            r@ == (ActionView { prerequisites: tests_view(beliefs@), ..self@ }),
            r.spec_strategy() == self.spec_strategy(),
    {
        let mut b = self;
        b.action.prerequisite_beliefs = beliefs;
        b
    }

    /// Replaces the prohibited tests.
    pub fn prohibited(self, beliefs: Vec<BeliefTest>) -> (r: ActionBuilder<S>)
        ensures
            r@ == (ActionView { prohibited: tests_view(beliefs@), ..self@ }),
            r.spec_strategy() == self.spec_strategy(),
    {
        let mut b = self;
        b.action.prohibited_beliefs = beliefs;
        b
    }

    /// Replaces the completion beliefs.
    pub fn completion(self, beliefs: Vec<Belief>) -> (r: ActionBuilder<S>)
        ensures
            r@ == (ActionView { completion: beliefs@, ..self@ }),
            r.spec_strategy() == self.spec_strategy(),
    {
        let mut b = self;
        b.action.completion_beliefs = beliefs;
        b
    }

    /// Replaces the promised beliefs.
    pub fn promised(self, beliefs: Vec<Belief>) -> (r: ActionBuilder<S>)
        ensures
            r@ == (ActionView { promised: beliefs@, ..self@ }),
            r.spec_strategy() == self.spec_strategy(),
    {
        let mut b = self;
        b.action.promised_beliefs = beliefs;
        b
    }

    /// Adds one prerequisite.
    pub fn prerequisite(self, test: BeliefTest) -> (r: ActionBuilder<S>)
        ensures
            r@ == (ActionView { prerequisites: self@.prerequisites.push(test@), ..self@ }),
            r.spec_strategy() == self.spec_strategy(),
    {
        let mut b = self;
        let ghost prev = b.action.prerequisite_beliefs@;
        b.action.prerequisite_beliefs.push(test);
        assert(tests_view(b.action.prerequisite_beliefs@) =~= tests_view(prev).push(test@));
        b
    }

    /// Adds one prohibited test.
    pub fn prohibits(self, test: BeliefTest) -> (r: ActionBuilder<S>)
        ensures
            r@ == (ActionView { prohibited: self@.prohibited.push(test@), ..self@ }),
            r.spec_strategy() == self.spec_strategy(),
    {
        let mut b = self;
        let ghost prev = b.action.prohibited_beliefs@;
        b.action.prohibited_beliefs.push(test);
        assert(tests_view(b.action.prohibited_beliefs@) =~= tests_view(prev).push(test@));
        b
    }

    /// Adds one promised belief.
    pub fn promises(self, belief: Belief) -> (r: ActionBuilder<S>)
        ensures
            r@ == (ActionView { promised: self@.promised.push(belief), ..self@ }),
            r.spec_strategy() == self.spec_strategy(),
    {
        let mut b = self;
        b.action.promised_beliefs.push(belief);
        b
    }

    /// Adds one test of beliefs consumed on completion.
    pub fn consumes(self, test: BeliefTest) -> (r: ActionBuilder<S>)
        ensures
            r@ == (ActionView { consumed: self@.consumed.push(test@), ..self@ }),
            r.spec_strategy() == self.spec_strategy(),
    {
        let mut b = self;
        let ghost prev = b.action.consumed_beliefs@;
        b.action.consumed_beliefs.push(test);
        assert(tests_view(b.action.consumed_beliefs@) =~= tests_view(prev).push(test@));
        b
    }

    /// Adds one belief broadcast on completion.
    pub fn broadcasts(self, belief: Belief) -> (r: ActionBuilder<S>)
        ensures
            r@ == (ActionView { broadcast: self@.broadcast.push(belief), ..self@ }),
            r.spec_strategy() == self.spec_strategy(),
    {
        let mut b = self;
        b.action.broadcast_beliefs.push(belief);
        b
    }
}

} // verus!
