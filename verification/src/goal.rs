use vstd::prelude::*;
use crate::belief::{BeliefTest, BeliefTestView, SatisfiableBelief};
use crate::satisfiable::FieldTest;

verus! {

/// Goals are a set of beliefs about the world that an agent would like to hold.
#[derive(Debug)]
pub struct Goal {
    /// Name of the goal.
    name: String,
    /// Goals with higher priorities are selected and executed before goals with lower priorities.
    priority: u32,
    /// Beliefs about the world that we would like to be true.
    desired_beliefs: Vec<BeliefTest>,
    /// Can this goal be completed multiple times in a row? By default, false.
    repeatable: bool,
}

/// The mathematical model of a [`Goal`].
#[verifier::ext_equal]
pub struct GoalView {
    pub name: Seq<char>,
    pub priority: u32,
    pub desired_beliefs: Seq<BeliefTestView>,
    pub repeatable: bool,
}

/// The models of a list of belief tests.
pub open spec fn tests_view(ts: Seq<BeliefTest>) -> Seq<BeliefTestView> {
    ts.map_values(|t: BeliefTest| t@)
}

impl View for Goal {
    type V = GoalView;

    closed spec fn view(&self) -> GoalView {
        GoalView {
            name: self.name@,
            priority: self.priority,
            desired_beliefs: tests_view(self.desired_beliefs@),
            repeatable: self.repeatable,
        }
    }
}

/// A copy of a list of belief tests.
pub fn copy_tests(ts: &Vec<BeliefTest>) -> (r: Vec<BeliefTest>)
    ensures
        tests_view(r@) == tests_view(ts@),
{
    let mut out: Vec<BeliefTest> = Vec::new();
    let mut i: usize = 0;
    while i < ts.len()
        invariant
            i <= ts.len(),
            tests_view(out@) == tests_view(ts@.take(i as int)),
        decreases ts.len() - i,
    {
        let t = ts[i].duplicate();
        let ghost prev = out@;
        let ghost tv = t@;
        out.push(t);
        proof {
            assert(tests_view(prev.push(t)) =~= tests_view(prev).push(tv));
            assert(ts@.take(i + 1) =~= ts@.take(i as int).push(ts@[i as int]));
            assert(tests_view(ts@.take(i as int).push(ts@[i as int])) =~= tests_view(
                ts@.take(i as int),
            ).push(ts@[i as int]@));
        }
        i = i + 1;
    }
    assert(ts@.take(ts.len() as int) =~= ts@);
    out
}

impl Goal {
    pub fn name(&self) -> (r: String)
        ensures
            r@ == self@.name,
    {
        self.name.clone()
    }

    pub fn priority(&self) -> (r: u32)
        ensures
            r == self@.priority,
    {
        self.priority
    }

    pub fn desired_beliefs(&self) -> (r: Vec<BeliefTest>)
        ensures
            tests_view(r@) == self@.desired_beliefs,
    {
        copy_tests(&self.desired_beliefs)
    }

    pub fn repeatable(&self) -> (r: bool)
        ensures
            r == self@.repeatable,
    {
        self.repeatable
    }

    /// A copy of this goal.
    pub fn duplicate(&self) -> (r: Goal)
        ensures
            r@ == self@,
    {
        Goal {
            name: self.name.clone(),
            priority: self.priority,
            desired_beliefs: copy_tests(&self.desired_beliefs),
            repeatable: self.repeatable,
        }
    }
}

/// Builds a [`Goal`] field by field.
pub struct GoalBuilder {
    goal: Goal,
}

impl View for GoalBuilder {
    type V = GoalView;

    closed spec fn view(&self) -> GoalView {
        self.goal@
    }
}

impl GoalBuilder {
    /// A goal with an empty name, priority 0, no desired beliefs, not repeatable.
    pub fn new() -> (r: GoalBuilder)
        ensures
            r@.name == Seq::<char>::empty(),
            r@.priority == 0,
            r@.desired_beliefs == Seq::<BeliefTestView>::empty(),
            !r@.repeatable,
    {
        let r = GoalBuilder {
            goal: Goal {
                name: String::new(),
                priority: 0,
                desired_beliefs: Vec::new(),
                repeatable: false,
            },
        };
        assert(tests_view(r.goal.desired_beliefs@) =~= Seq::<BeliefTestView>::empty());
        r
    }

    pub fn build(self) -> (r: Goal)
        ensures
            r@ == self@,
    {
        self.goal
    }

    pub fn name(self, name: &str) -> (r: GoalBuilder)
        ensures
            r@ == (GoalView { name: name@, ..self@ }),
    {
        let mut b = self;
        b.goal.name = String::from_str(name);
        b
    }

    pub fn priority(self, priority: u32) -> (r: GoalBuilder)
        ensures
            r@ == (GoalView { priority, ..self@ }),
    {
        let mut b = self;
        b.goal.priority = priority;
        b
    }

    pub fn repeatable(self, repeatable: bool) -> (r: GoalBuilder)
        ensures
            r@ == (GoalView { repeatable, ..self@ }),
    {
        let mut b = self;
        b.goal.repeatable = repeatable;
        b
    }

    /// Appends one desired belief.
    pub fn desired_belief(self, desired_belief: BeliefTest) -> (r: GoalBuilder)
        ensures
            r@ == (GoalView {
                desired_beliefs: self@.desired_beliefs.push(desired_belief@),
                ..self@
            }),
    {
        let mut b = self;
        let ghost prev = b.goal.desired_beliefs@;
        b.goal.desired_beliefs.push(desired_belief);
        assert(tests_view(b.goal.desired_beliefs@) =~= tests_view(prev).push(desired_belief@));
        b
    }

    /// Replaces the desired beliefs.
    pub fn desired_beliefs(self, desired_beliefs: Vec<BeliefTest>) -> (r: GoalBuilder)
        ensures
            r@ == (GoalView { desired_beliefs: tests_view(desired_beliefs@), ..self@ }),
    {
        let mut b = self;
        b.goal.desired_beliefs = desired_beliefs;
        b
    }
}

/// The goal of an agent with nothing better to do: look around.
pub fn idle_goal() -> (r: Goal)
    ensures
        r@.name == "Look Around"@,
        r@.priority == 1,
        r@.desired_beliefs == seq![
            BeliefTestView::ScannedEnvironment { tick: FieldTest::<u32>::Ignore },
        ],
        !r@.repeatable,
{
    GoalBuilder::new().name("Look Around").desired_belief(
        SatisfiableBelief::ScannedEnvironment(),
    ).priority(1).build()
}

} // verus!
