//! The environment side of a run: a caller-supplied object provides the
//! real behavior of each step, is exclusively mutably owned for the run,
//! and hands back a nested environment for a step that delegates to a
//! nested story. Like the runner's observed events, an environment
//! carries a spec-level record of the step-method invocations it
//! underwent, so that a run's contract can say which steps actually ran
//! against it, in what order, and with what outcome.

use vstd::prelude::*;

use crate::catalog::StoryContext;
use crate::catalog::story_wf;

verus! {

/// Spec-level record of one step-method invocation: the id of the step
/// whose method ran and, when it failed, the error it raised.
pub enum EnvCall<E> {
    Succeeded(Seq<char>),
    Failed(Seq<char>, E),
}

/// The record one invocation adds, determined by the step's id and the
/// result the method returned.
pub open spec fn env_call_of<A, E>(id: Seq<char>, r: Result<A, E>) -> EnvCall<E> {
    match r {
        Result::Ok(_) => EnvCall::Succeeded(id),
        Result::Err(e) => EnvCall::Failed(id, e),
    }
}

/// What a step's real implementation runs against. `E` is the error type
/// a step may raise; the first error aborts the walk.
pub trait Environment<E>: Sized {
    /// Whether this environment (and every nested environment it hands
    /// out) never fails a step. A run on such an environment is owed
    /// success.
    spec fn infallible(&self) -> bool;

    /// The step-method invocations this environment has observed, oldest
    /// first: which steps ran against it, and with what outcome.
    spec fn calls(&self) -> Seq<EnvCall<E>>;

    /// Runs the step at index `i` of the story: the environment method
    /// matching the step's id, under the step's bound argument values.
    /// Exactly one invocation is observed, recording the result.
    fn run_step(&mut self, story: &StoryContext, i: usize) -> (r: Result<(), E>)
        requires
            story_wf(story@),
            i < story@.steps.len(),
            story@.steps[i as int].nested is None,
        ensures
            final(self).calls() == old(self).calls().push(
                env_call_of(story@.steps[i as int].id, r),
            ),
            old(self).infallible() ==> (final(self).infallible() && r is Ok),
    ;

    /// Produces the nested environment for the step at index `i`, which
    /// delegates to a nested story. Exactly one invocation is observed,
    /// recording the result; a nested environment starts with no
    /// observed invocations of its own.
    fn nested_env(&mut self, story: &StoryContext, i: usize) -> (r: Result<Self, E>)
        requires
            story_wf(story@),
            i < story@.steps.len(),
            story@.steps[i as int].nested is Some,
        ensures
            final(self).calls() == old(self).calls().push(
                env_call_of(story@.steps[i as int].id, r),
            ),
            match r {
                Result::Ok(n) => n.calls() == Seq::<EnvCall<E>>::empty(),
                Result::Err(_) => true,
            },
            old(self).infallible() ==> (final(self).infallible() && match r {
                Result::Ok(n) => n.infallible(),
                Result::Err(_) => false,
            }),
    ;
}

/// A dummy environment that does nothing on each step. Every story can be
/// run on this environment, and such a run always succeeds.
pub struct DummyEnvironment<E> {
    marker: core::marker::PhantomData<E>,
    observed: Ghost<Seq<EnvCall<E>>>,
}

impl<E> DummyEnvironment<E> {
    /// A fresh dummy environment.
    pub fn new() -> (r: Self)
        ensures
            r.infallible(),
            r.calls() == Seq::<EnvCall<E>>::empty(),
    {
        DummyEnvironment { marker: core::marker::PhantomData, observed: Ghost(Seq::empty()) }
    }

    /// The name a debug rendering of this environment shows.
    pub fn describe(&self) -> (r: String)
        ensures
            r@ == "DummyEnvironment"@,
    {
        String::from_str("DummyEnvironment")
    }
}

impl<E> Default for DummyEnvironment<E> {
    fn default() -> (r: Self)
        ensures
            r.infallible(),
            r.calls() == Seq::<EnvCall<E>>::empty(),
    {
        DummyEnvironment { marker: core::marker::PhantomData, observed: Ghost(Seq::empty()) }
    }
}

impl<E> Environment<E> for DummyEnvironment<E> {
    open spec fn infallible(&self) -> bool {
        true
    }

    closed spec fn calls(&self) -> Seq<EnvCall<E>> {
        self.observed@
    }

    fn run_step(&mut self, story: &StoryContext, i: usize) -> (r: Result<(), E>) {
        proof {
            self.observed@ = self.observed@.push(EnvCall::Succeeded(story@.steps[i as int].id));
        }
        Ok(())
    }

    fn nested_env(&mut self, story: &StoryContext, i: usize) -> (r: Result<Self, E>) {
        proof {
            self.observed@ = self.observed@.push(EnvCall::Succeeded(story@.steps[i as int].id));
        }
        Ok(DummyEnvironment { marker: core::marker::PhantomData, observed: Ghost(Seq::empty()) })
    }
}

/// Spec-level model of a scripted step behavior.
#[verifier::ext_equal]
pub enum StepActionV {
    Append(Seq<char>),
    Fail(Seq<char>),
}

/// What a scripted environment does when a step with a matching id runs:
/// append text to the buffer, or fail with a message.
#[derive(Debug, PartialEq, Eq)]
pub enum StepAction {
    Append(String),
    Fail(String),
}

impl View for StepAction {
    type V = StepActionV;

    open spec fn view(&self) -> StepActionV {
        match *self {
            StepAction::Append(ref s) => StepActionV::Append(s@),
            StepAction::Fail(ref s) => StepActionV::Fail(s@),
        }
    }
}

/// Spec-level model of one scripted rule.
#[verifier::ext_equal]
pub struct ScriptRuleV {
    pub step_id: Seq<char>,
    pub action: StepActionV,
}

/// One rule of a scripted environment: the behavior of the step with the
/// given id.
#[derive(Debug, PartialEq, Eq)]
pub struct ScriptRule {
    pub step_id: String,
    pub action: StepAction,
}

impl View for ScriptRule {
    type V = ScriptRuleV;

    open spec fn view(&self) -> ScriptRuleV {
        ScriptRuleV { step_id: self.step_id@, action: self.action@ }
    }
}

pub open spec fn rules_view(l: Seq<ScriptRule>) -> Seq<ScriptRuleV> {
    l.map_values(|r: ScriptRule| r@)
}

/// The action of the first rule whose id matches, if any.
pub open spec fn rule_action_for(rules: Seq<ScriptRuleV>, id: Seq<char>) -> Option<StepActionV>
    decreases rules,
{
    if rules.len() == 0 {
        Option::None
    } else if rules[0].step_id == id {
        Option::Some(rules[0].action)
    } else {
        rule_action_for(rules.drop_first(), id)
    }
}

proof fn lemma_rule_action_at(rules: Seq<ScriptRuleV>, id: Seq<char>, j: int)
    requires
        0 <= j < rules.len(),
        rules[j].step_id == id,
        forall|p: int| 0 <= p < j ==> (#[trigger] rules[p]).step_id != id,
    ensures
        rule_action_for(rules, id) == Option::Some(rules[j].action),
    decreases rules,
{
    if j > 0 {
        assert forall|p: int| 0 <= p < j - 1 implies (#[trigger] rules.drop_first()[p]).step_id
            != id by {
            assert(rules.drop_first()[p] == rules[p + 1]);
        }
        assert(rules.drop_first()[j - 1] == rules[j]);
        lemma_rule_action_at(rules.drop_first(), id, j - 1);
    }
}

proof fn lemma_rule_action_none(rules: Seq<ScriptRuleV>, id: Seq<char>)
    requires
        forall|p: int| 0 <= p < rules.len() ==> (#[trigger] rules[p]).step_id != id,
    ensures
        rule_action_for(rules, id) is None,
    decreases rules,
{
    if rules.len() > 0 {
        assert forall|p: int| 0 <= p < rules.drop_first().len() implies (#[trigger] rules
            .drop_first()[p]).step_id != id by {
            assert(rules.drop_first()[p] == rules[p + 1]);
        }
        lemma_rule_action_none(rules.drop_first(), id);
    }
}

proof fn lemma_rule_action_in(rules: Seq<ScriptRuleV>, id: Seq<char>)
    requires
        rule_action_for(rules, id) is Some,
    ensures
        exists|p: int|
            0 <= p < rules.len() && (#[trigger] rules[p]).action == rule_action_for(
                rules,
                id,
            )->0,
    decreases rules,
{
    if rules.len() > 0 && rules[0].step_id != id {
        lemma_rule_action_in(rules.drop_first(), id);
        let p = choose|p: int|
            0 <= p < rules.drop_first().len() && (#[trigger] rules.drop_first()[p]).action
                == rule_action_for(rules.drop_first(), id)->0;
        assert(rules[p + 1] == rules.drop_first()[p]);
    }
}

/// Looks the first matching rule up and hands its action out.
fn find_action(rules: &Vec<ScriptRule>, sid: &Vec<char>) -> (r: Option<StepAction>)
    ensures
        match r {
            Option::Some(a) => rule_action_for(rules_view(rules@), sid@) == Option::Some(a@),
            Option::None => rule_action_for(rules_view(rules@), sid@) is None,
        },
{
    let mut j: usize = 0;
    while j < rules.len()
        invariant
            j <= rules@.len(),
            forall|p: int| 0 <= p < j ==> (#[trigger] rules_view(rules@)[p]).step_id != sid@,
        decreases rules@.len() - j,
    {
        let rn = crate::value::str_to_chars(rules[j].step_id.as_str());
        if crate::template::chars_eq(&rn, sid) {
            proof {
                lemma_rule_action_at(rules_view(rules@), sid@, j as int);
            }
            return Some(duplicate_action(&rules[j].action));
        }
        j = j + 1;
    }
    proof {
        lemma_rule_action_none(rules_view(rules@), sid@);
    }
    None
}

/// A scripted environment: each step looks its id up in the rule list
/// (first match wins; a step with no rule does nothing), appends to a
/// shared buffer or fails accordingly, and records every step it was
/// asked to run. A step that delegates to a nested story fails when a
/// fail rule matches it; otherwise it hands out a nested environment
/// with the same rules and a fresh buffer and record.
pub struct ScriptEnvironment {
    pub rules: Vec<ScriptRule>,
    pub buffer: String,
    pub executed: Vec<String>,
    pub observed: Ghost<Seq<EnvCall<String>>>,
}

fn duplicate_action(a: &StepAction) -> (r: StepAction)
    ensures
        r@ == a@,
{
    match a {
        StepAction::Append(s) => StepAction::Append(s.clone()),
        StepAction::Fail(s) => StepAction::Fail(s.clone()),
    }
}

fn duplicate_rules(l: &Vec<ScriptRule>) -> (r: Vec<ScriptRule>)
    ensures
        rules_view(r@) == rules_view(l@),
{
    let mut r: Vec<ScriptRule> = Vec::new();
    let mut i: usize = 0;
    while i < l.len()
        invariant
            i <= l@.len(),
            r@.len() == i,
            forall|j: int| 0 <= j < i ==> (#[trigger] r@[j])@ == l@[j]@,
        decreases l@.len() - i,
    {
        let rule = ScriptRule {
            step_id: l[i].step_id.clone(),
            action: duplicate_action(&l[i].action),
        };
        r.push(rule);
        i = i + 1;
    }
    proof {
        assert(rules_view(r@) =~= rules_view(l@));
    }
    r
}

impl ScriptEnvironment {
    /// A fresh scripted environment with the given rules, an empty buffer
    /// and an empty record.
    pub fn new(rules: Vec<ScriptRule>) -> (r: Self)
        ensures
            rules_view(r.rules@) == rules_view(rules@),
            r.buffer@ == Seq::<char>::empty(),
            r.executed@ == Seq::<String>::empty(),
            r.calls() == Seq::<EnvCall<String>>::empty(),
    {
        ScriptEnvironment {
            rules,
            buffer: String::new(),
            executed: Vec::new(),
            observed: Ghost(Seq::empty()),
        }
    }

    /// The text the steps have appended so far.
    pub fn buffer(&self) -> (r: &String)
        ensures
            r@ == self.buffer@,
    {
        &self.buffer
    }

    /// The ids of the steps this environment was asked to run, in order.
    pub fn executed(&self) -> (r: &Vec<String>)
        ensures
            r@ == self.executed@,
    {
        &self.executed
    }
}

impl Environment<String> for ScriptEnvironment {
    /// A scripted environment is infallible exactly when no rule fails.
    open spec fn infallible(&self) -> bool {
        forall|i: int|
            0 <= i < rules_view(self.rules@).len() ==> !((#[trigger] rules_view(self.rules@)[i]).action
                is Fail)
    }

    closed spec fn calls(&self) -> Seq<EnvCall<String>> {
        self.observed@
    }

    fn run_step(&mut self, story: &StoryContext, i: usize) -> (r: Result<(), String>)
        ensures
            final(self).rules == old(self).rules,
            final(self).executed@ == old(self).executed@.push(story.steps@[i as int].id),
            match rule_action_for(rules_view(old(self).rules@), story@.steps[i as int].id) {
                Option::Some(StepActionV::Append(s)) => r is Ok && final(self).buffer@ == old(
                    self,
                ).buffer@ + s,
                Option::Some(StepActionV::Fail(m)) => final(self).buffer@ == old(self).buffer@
                    && (match r {
                    Result::Err(e) => e@ == m,
                    Result::Ok(_) => false,
                }),
                Option::None => r is Ok && final(self).buffer@ == old(self).buffer@,
            },
    {
        proof {
            crate::catalog::lemma_steps_view(story.steps@);
        }
        let ghost id = story@.steps[i as int].id;
        let ghost rv = rules_view(self.rules@);
        self.executed.push(story.steps[i].id.clone());
        let sid = crate::value::str_to_chars(story.steps[i].id.as_str());
        proof {
            assert(id == sid@);
        }
        match find_action(&self.rules, &sid) {
            Option::Some(StepAction::Append(s)) => {
                self.buffer.append(s.as_str());
                proof {
                    self.observed@ = self.observed@.push(EnvCall::Succeeded(id));
                }
                Ok(())
            },
            Option::Some(StepAction::Fail(m)) => {
                proof {
                    lemma_rule_action_in(rv, id);
                    self.observed@ = self.observed@.push(EnvCall::Failed(id, m));
                }
                Err(m)
            },
            Option::None => {
                proof {
                    self.observed@ = self.observed@.push(EnvCall::Succeeded(id));
                }
                Ok(())
            },
        }
    }

    fn nested_env(&mut self, story: &StoryContext, i: usize) -> (r: Result<Self, String>)
        ensures
            final(self).rules == old(self).rules,
            final(self).buffer@ == old(self).buffer@,
            final(self).executed@ == old(self).executed@.push(story.steps@[i as int].id),
            match rule_action_for(rules_view(old(self).rules@), story@.steps[i as int].id) {
                Option::Some(StepActionV::Fail(m)) => match r {
                    Result::Err(e) => e@ == m,
                    Result::Ok(_) => false,
                },
                _ => match r {
                    Result::Ok(n) => rules_view(n.rules@) == rules_view(old(self).rules@)
                        && n.buffer@ == Seq::<char>::empty() && n.executed@ == Seq::<
                        String,
                    >::empty(),
                    Result::Err(_) => false,
                },
            },
    {
        proof {
            crate::catalog::lemma_steps_view(story.steps@);
        }
        let ghost id = story@.steps[i as int].id;
        let ghost rv = rules_view(self.rules@);
        self.executed.push(story.steps[i].id.clone());
        let sid = crate::value::str_to_chars(story.steps[i].id.as_str());
        proof {
            assert(id == sid@);
        }
        match find_action(&self.rules, &sid) {
            Option::Some(StepAction::Fail(m)) => {
                proof {
                    lemma_rule_action_in(rv, id);
                    self.observed@ = self.observed@.push(EnvCall::Failed(id, m));
                }
                Err(m)
            },
            _ => {
                proof {
                    self.observed@ = self.observed@.push(EnvCall::Succeeded(id));
                }
                let rules2 = duplicate_rules(&self.rules);
                Ok(ScriptEnvironment {
                    rules: rules2,
                    buffer: String::new(),
                    executed: Vec::new(),
                    observed: Ghost(Seq::empty()),
                })
            },
        }
    }
}

} // verus!
