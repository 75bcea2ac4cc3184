//! The execution protocol: a story runs against an environment, step by
//! step in declaration order, through a runner's hooks; a nested story
//! runs to completion before its parent step completes; the first error
//! aborts the walk, tagged with the id of the failing step.

use vstd::prelude::*;

use crate::catalog::StepV;
use crate::catalog::StoryContext;
use crate::catalog::StoryContextV;
use crate::catalog::lemma_steps_view;
use crate::catalog::lemma_steps_wf_iff;
use crate::catalog::step_view;
use crate::catalog::step_wf;
use crate::catalog::story_view;
use crate::catalog::story_wf;
use crate::environment::EnvCall;
use crate::environment::Environment;
use crate::runner::DefaultStoryRunner;
use crate::runner::EventV;
use crate::runner::StoryRunner;

verus! {

/// The error a run returns: the id of the step that produced the first
/// failure, at whichever nesting depth, and the error its environment
/// raised.
#[derive(Debug, PartialEq, Eq)]
pub struct RunError<E> {
    pub step_id: String,
    pub error: E,
}

/// The nested story of a step known to carry one.
pub open spec fn nested_of(s: StepV) -> StoryContextV
    recommends
        s.nested is Some,
{
    match s.nested {
        Option::Some(n) => *n,
        Option::None => vstd::pervasive::arbitrary(),
    }
}

/// The hook sequence of one successfully run step: the step hook, then —
/// for a step that delegates — the nested story's full hook sequence.
pub open spec fn step_trace(s: StepV) -> Seq<EventV>
    decreases s,
{
    match s.nested {
        Option::Some(n) => seq![EventV::RunStep(s.id), EventV::NestedStory(n.id)] + success_trace(
            *n,
        ),
        Option::None => seq![EventV::RunStep(s.id)],
    }
}

pub open spec fn steps_trace(ss: Seq<StepV>) -> Seq<EventV>
    decreases ss,
{
    if ss.len() == 0 {
        Seq::empty()
    } else {
        step_trace(ss[0]) + steps_trace(ss.drop_first())
    }
}

/// The hook sequence of one successful story run: the story is started,
/// every step runs in declaration order, the story ends.
pub open spec fn success_trace(c: StoryContextV) -> Seq<EventV>
    decreases c,
{
    seq![EventV::StartStory(c.id)] + steps_trace(c.steps) + seq![EventV::EndStory(c.id)]
}

/// A path to a failing step: the index of the failing step at each
/// nesting depth, from the root story down.
pub open spec fn valid_fail_path(c: StoryContextV, path: Seq<int>) -> bool
    decreases path.len(),
{
    &&& path.len() >= 1
    &&& 0 <= path[0] < c.steps.len()
    &&& (path.len() > 1 ==> c.steps[path[0]].nested is Some && valid_fail_path(
        nested_of(c.steps[path[0]]),
        path.drop_first(),
    ))
}

/// The step a failure path leads to.
pub open spec fn fail_step(c: StoryContextV, path: Seq<int>) -> StepV
    recommends
        valid_fail_path(c, path),
    decreases path.len(),
{
    if path.len() <= 1 {
        c.steps[path[0]]
    } else {
        fail_step(nested_of(c.steps[path[0]]), path.drop_first())
    }
}

/// The hook sequence of a run that fails along the given path: the steps
/// before the failing one run in full, the failing step's hook fires, and
/// nothing after it — in particular no trailing end-of-story hook at any
/// level above the failure point.
pub open spec fn fail_trace(c: StoryContextV, path: Seq<int>) -> Seq<EventV>
    recommends
        valid_fail_path(c, path),
    decreases path.len(),
{
    let k = path[0];
    let pre = seq![EventV::StartStory(c.id)] + steps_trace(c.steps.take(k));
    if path.len() <= 1 {
        pre + seq![EventV::RunStep(c.steps[k].id)]
    } else {
        pre + seq![
            EventV::RunStep(c.steps[k].id),
            EventV::NestedStory(nested_of(c.steps[k]).id),
        ] + fail_trace(nested_of(c.steps[k]), path.drop_first())
    }
}

/// The invocations a story's own environment observes when every step of
/// the story succeeds: each step's method, exactly once, in declaration
/// order. (A nested story's steps run against the nested environment,
/// which keeps its own record.)
pub open spec fn calls_ok<E>(ss: Seq<StepV>) -> Seq<EnvCall<E>> {
    ss.map_values(|s: StepV| EnvCall::<E>::Succeeded(s.id))
}

/// The invocations a story's own environment observes when the run fails
/// along the given path: the steps before the failing one succeeded; the
/// failing step's method itself failed with exactly the returned error
/// when the failure is at this level, and succeeded (handing out the
/// nested environment in which the failure then occurred) when it is
/// deeper; and no later step's method ran.
pub open spec fn fail_calls<E>(c: StoryContextV, path: Seq<int>, err: E) -> Seq<EnvCall<E>>
    recommends
        valid_fail_path(c, path),
{
    calls_ok::<E>(c.steps.take(path[0])).push(
        if path.len() <= 1 {
            EnvCall::Failed(c.steps[path[0]].id, err)
        } else {
            EnvCall::Succeeded(c.steps[path[0]].id)
        },
    )
}

/// What a run guarantees about the runner's and the environment's
/// observations: on success the full hook sequence of the story and one
/// succeeded invocation per step; on failure the hook sequence and the
/// invocations along some failure path, with the returned error tagged
/// with the id of the step that path leads to and, for a failure at this
/// story's own level, equal to the error its environment method raised.
pub open spec fn run_ensures<E>(
    c: StoryContextV,
    pre: Seq<EventV>,
    post: Seq<EventV>,
    pre_calls: Seq<EnvCall<E>>,
    post_calls: Seq<EnvCall<E>>,
    r: Result<(), RunError<E>>,
) -> bool {
    match r {
        Result::Ok(u) => post == pre + success_trace(c) && post_calls == pre_calls + calls_ok::<E>(
            c.steps,
        ),
        Result::Err(e) => exists|path: Seq<int>|
            valid_fail_path(c, path) && post == pre + #[trigger] fail_trace(c, path)
                && e.step_id@ == fail_step(c, path).id && post_calls == pre_calls + fail_calls(
                c,
                path,
                e.error,
            ),
    }
}

pub proof fn lemma_calls_ok_take<E>(ss: Seq<StepV>, i: int)
    requires
        0 <= i < ss.len(),
    ensures
        calls_ok::<E>(ss.take(i + 1)) == calls_ok::<E>(ss.take(i)).push(
            EnvCall::Succeeded(ss[i].id),
        ),
{
    assert(calls_ok::<E>(ss.take(i + 1)) =~= calls_ok::<E>(ss.take(i)).push(
        EnvCall::Succeeded(ss[i].id),
    ));
}

pub proof fn lemma_steps_trace_snoc(ss: Seq<StepV>, x: StepV)
    ensures
        steps_trace(ss.push(x)) == steps_trace(ss) + step_trace(x),
    decreases ss.len(),
{
    if ss.len() == 0 {
        assert(ss.push(x)[0] == x);
        assert(ss.push(x).drop_first() =~= Seq::<StepV>::empty());
        assert(steps_trace(ss.push(x)) == step_trace(x) + steps_trace(Seq::<StepV>::empty()));
        assert(step_trace(x) + Seq::<EventV>::empty() =~= step_trace(x));
        assert(steps_trace(ss) + step_trace(x) =~= step_trace(x));
    } else {
        assert(ss.push(x)[0] == ss[0]);
        assert(ss.push(x).drop_first() =~= ss.drop_first().push(x));
        lemma_steps_trace_snoc(ss.drop_first(), x);
        assert(step_trace(ss[0]) + (steps_trace(ss.drop_first()) + step_trace(x)) =~= (step_trace(
            ss[0],
        ) + steps_trace(ss.drop_first())) + step_trace(x));
    }
}

pub proof fn lemma_steps_trace_take(ss: Seq<StepV>, i: int)
    requires
        0 <= i < ss.len(),
    ensures
        steps_trace(ss.take(i + 1)) == steps_trace(ss.take(i)) + step_trace(ss[i]),
{
    assert(ss.take(i + 1) =~= ss.take(i).push(ss[i]));
    lemma_steps_trace_snoc(ss.take(i), ss[i]);
}

pub proof fn lemma_fail_path_cons(c: StoryContextV, k: int, p2: Seq<int>)
    requires
        0 <= k < c.steps.len(),
        c.steps[k].nested is Some,
        valid_fail_path(nested_of(c.steps[k]), p2),
    ensures
        valid_fail_path(c, seq![k] + p2),
        fail_step(c, seq![k] + p2) == fail_step(nested_of(c.steps[k]), p2),
        fail_trace(c, seq![k] + p2) == seq![EventV::StartStory(c.id)] + steps_trace(
            c.steps.take(k),
        ) + seq![EventV::RunStep(c.steps[k].id), EventV::NestedStory(nested_of(c.steps[k]).id)]
            + fail_trace(nested_of(c.steps[k]), p2),
{
    let p = seq![k] + p2;
    assert(p[0] == k);
    assert(p.drop_first() =~= p2);
    assert(p.len() == 1 + p2.len());
}

impl StoryContext {
    /// Runs every step of the story, in declaration order, against the
    /// environment, driving the given runner's hooks; recurses into
    /// nested stories with the same runner; stops at the first failing
    /// step and returns its error, tagged with that step's id.
    pub fn run_story_with_runner<E, Env: Environment<E>, R: StoryRunner>(
        &self,
        env: &mut Env,
        runner: &mut R,
    ) -> (r: Result<(), RunError<E>>)
        requires
            story_wf(self@),
        ensures
            run_ensures(
                self@,
                old(runner).events(),
                final(runner).events(),
                old(env).calls(),
                final(env).calls(),
                r,
            ),
            old(env).infallible() ==> (r is Ok && final(env).infallible()),
        decreases *self,
    {
        let ghost pre = runner.events();
        let ghost sv = self@.steps;
        let ghost cv = self@.consts;
        runner.start_story(self);
        proof {
            lemma_steps_view(self.steps@);
            lemma_steps_wf_iff(sv, cv);
            assert(sv.take(0) =~= Seq::<StepV>::empty());
            assert(runner.events() =~= pre + seq![EventV::StartStory(self@.id)] + steps_trace(
                sv.take(0),
            ));
            assert(calls_ok::<E>(sv.take(0)) =~= Seq::<EnvCall<E>>::empty());
            assert(env.calls() =~= old(env).calls() + calls_ok::<E>(sv.take(0)));
        }
        let n = self.steps.len();
        let mut i: usize = 0;
        while i < n
            invariant
                i <= n,
                n == self.steps@.len(),
                sv == self@.steps,
                cv == self@.consts,
                sv.len() == n,
                pre == old(runner).events(),
                story_wf(self@),
                forall|p: int| 0 <= p < n ==> sv[p] == step_view(#[trigger] self.steps@[p]),
                forall|p: int| 0 <= p < n ==> step_wf(#[trigger] sv[p], cv),
                runner.events() == pre + seq![EventV::StartStory(self@.id)] + steps_trace(
                    sv.take(i as int),
                ),
                env.calls() == old(env).calls() + calls_ok::<E>(sv.take(i as int)),
                old(env).infallible() ==> env.infallible(),
            decreases n - i,
        {
            runner.run_step(self, i);
            let step = &self.steps[i];
            proof {
                assert(*step == self.steps@[i as int]);
                assert(sv[i as int] == step_view(*step));
            }
            match &step.nested {
                Option::None => {
                    proof {
                        assert(sv[i as int].nested is None);
                    }
                    match env.run_step(self, i) {
                        Result::Ok(u) => {
                            proof {
                                lemma_steps_trace_take(sv, i as int);
                                assert(step_trace(sv[i as int]) == seq![
                                    EventV::RunStep(sv[i as int].id),
                                ]);
                                assert((pre + seq![EventV::StartStory(self@.id)] + steps_trace(
                                    sv.take(i as int),
                                )).push(EventV::RunStep(sv[i as int].id)) =~= pre + seq![
                                    EventV::StartStory(self@.id),
                                ] + steps_trace(sv.take(i as int + 1)));
                                lemma_calls_ok_take::<E>(sv, i as int);
                                assert(env.calls() =~= old(env).calls() + calls_ok::<E>(
                                    sv.take(i as int + 1),
                                ));
                            }
                        },
                        Result::Err(e) => {
                            let err = RunError { step_id: step.id.clone(), error: e };
                            proof {
                                let path = seq![i as int];
                                assert(path.len() == 1 && path[0] == i as int);
                                assert(valid_fail_path(self@, path));
                                assert(fail_step(self@, path) == sv[i as int]);
                                assert(err.step_id@ == sv[i as int].id);
                                assert(fail_trace(self@, path) == (seq![
                                    EventV::StartStory(self@.id),
                                ] + steps_trace(sv.take(i as int))) + seq![
                                    EventV::RunStep(sv[i as int].id),
                                ]);
                                assert(runner.events() =~= pre + fail_trace(self@, path));
                                assert(fail_calls(self@, path, err.error) == calls_ok::<E>(
                                    sv.take(i as int),
                                ).push(EnvCall::Failed(sv[i as int].id, err.error)));
                                assert(env.calls() =~= old(env).calls() + fail_calls(
                                    self@,
                                    path,
                                    err.error,
                                ));
                                assert(valid_fail_path(self@, path) && runner.events() == pre
                                    + fail_trace(self@, path) && err.step_id@ == fail_step(
                                    self@,
                                    path,
                                ).id && env.calls() == old(env).calls() + fail_calls(
                                    self@,
                                    path,
                                    err.error,
                                ));
                                assert(exists|p: Seq<int>|
                                    valid_fail_path(self@, p) && runner.events() == pre
                                        + #[trigger] fail_trace(self@, p) && err.step_id@
                                        == fail_step(self@, p).id && env.calls() == old(
                                        env,
                                    ).calls() + fail_calls(self@, p, err.error));
                            }
                            return Result::Err(err);
                        },
                    }
                },
                Option::Some(b) => {
                    proof {
                        assert(sv[i as int].nested == Option::Some(Box::new(story_view(**b))));
                        assert(nested_of(sv[i as int]) == (**b)@);
                        assert(story_wf((**b)@));
                    }
                    match env.nested_env(self, i) {
                        Result::Ok(mut nenv) => {
                            runner.run_nested_story(self, i, &**b);
                            let ghost evb = runner.events();
                            proof {
                                broadcast use vstd::std_specs::vec::axiom_vec_index_decreases;

                                assert(decreases_to!(*self => self.steps));
                                assert(decreases_to!(self.steps => self.steps@[i as int]));
                                assert(decreases_to!(*step => step.nested));
                                assert(step.nested->0 == *b);
                                assert(decreases_to!(step.nested => step.nested->0));
                                assert(decreases_to!(*self => **b));
                            }
                            let nres = (&**b).run_story_with_runner(&mut nenv, runner);
                            match nres {
                                Result::Ok(u) => {
                                    proof {
                                        lemma_steps_trace_take(sv, i as int);
                                        assert(step_trace(sv[i as int]) == seq![
                                            EventV::RunStep(sv[i as int].id),
                                            EventV::NestedStory((**b)@.id),
                                        ] + success_trace((**b)@));
                                        assert(runner.events() =~= pre + seq![
                                            EventV::StartStory(self@.id),
                                        ] + steps_trace(sv.take(i as int + 1)));
                                        lemma_calls_ok_take::<E>(sv, i as int);
                                        assert(env.calls() =~= old(env).calls() + calls_ok::<E>(
                                            sv.take(i as int + 1),
                                        ));
                                    }
                                },
                                Result::Err(e2) => {
                                    proof {
                                        let path2 = choose|p: Seq<int>|
                                            valid_fail_path((**b)@, p) && runner.events() == evb
                                                + #[trigger] fail_trace((**b)@, p) && e2.step_id@
                                                == fail_step((**b)@, p).id;
                                        lemma_fail_path_cons(self@, i as int, path2);
                                        let path = seq![i as int] + path2;
                                        assert(runner.events() =~= pre + fail_trace(self@, path));
                                        assert(path[0] == i as int && path.len() > 1);
                                        assert(fail_calls(self@, path, e2.error) == calls_ok::<E>(
                                            sv.take(i as int),
                                        ).push(EnvCall::Succeeded(sv[i as int].id)));
                                        assert(env.calls() =~= old(env).calls() + fail_calls(
                                            self@,
                                            path,
                                            e2.error,
                                        ));
                                        assert(valid_fail_path(self@, path) && runner.events()
                                            == pre + fail_trace(self@, path) && e2.step_id@
                                            == fail_step(self@, path).id && env.calls() == old(
                                            env,
                                        ).calls() + fail_calls(self@, path, e2.error));
                                        assert(exists|p: Seq<int>|
                                            valid_fail_path(self@, p) && runner.events() == pre
                                                + #[trigger] fail_trace(self@, p) && e2.step_id@
                                                == fail_step(self@, p).id && env.calls() == old(
                                                env,
                                            ).calls() + fail_calls(self@, p, e2.error));
                                    }
                                    return Result::Err(e2);
                                },
                            }
                        },
                        Result::Err(e) => {
                            let err = RunError { step_id: step.id.clone(), error: e };
                            proof {
                                let path = seq![i as int];
                                assert(path.len() == 1 && path[0] == i as int);
                                assert(valid_fail_path(self@, path));
                                assert(fail_step(self@, path) == sv[i as int]);
                                assert(err.step_id@ == sv[i as int].id);
                                assert(fail_trace(self@, path) == (seq![
                                    EventV::StartStory(self@.id),
                                ] + steps_trace(sv.take(i as int))) + seq![
                                    EventV::RunStep(sv[i as int].id),
                                ]);
                                assert(runner.events() =~= pre + fail_trace(self@, path));
                                assert(fail_calls(self@, path, err.error) == calls_ok::<E>(
                                    sv.take(i as int),
                                ).push(EnvCall::Failed(sv[i as int].id, err.error)));
                                assert(env.calls() =~= old(env).calls() + fail_calls(
                                    self@,
                                    path,
                                    err.error,
                                ));
                                assert(valid_fail_path(self@, path) && runner.events() == pre
                                    + fail_trace(self@, path) && err.step_id@ == fail_step(
                                    self@,
                                    path,
                                ).id && env.calls() == old(env).calls() + fail_calls(
                                    self@,
                                    path,
                                    err.error,
                                ));
                                assert(exists|p: Seq<int>|
                                    valid_fail_path(self@, p) && runner.events() == pre
                                        + #[trigger] fail_trace(self@, p) && err.step_id@
                                        == fail_step(self@, p).id && env.calls() == old(
                                        env,
                                    ).calls() + fail_calls(self@, p, err.error));
                            }
                            return Result::Err(err);
                        },
                    }
                },
            }
            i = i + 1;
        }
        runner.end_story(self);
        proof {
            assert(sv.take(n as int) =~= sv);
            assert(runner.events() =~= pre + success_trace(self@));
            assert(env.calls() =~= old(env).calls() + calls_ok::<E>(sv));
        }
        Result::Ok(())
    }

    /// The full hook sequence a successful run of this story produces, as
    /// data: the executable form of the success trace, usable by external
    /// drivers and tools that need the walk order without running
    /// anything.
    pub fn success_events(&self) -> (r: Vec<crate::runner::RunEvent>)
        ensures
            crate::runner::events_of(r@) == success_trace(self@),
        decreases *self,
    {
        let ghost sv = self@.steps;
        proof {
            lemma_steps_view(self.steps@);
        }
        let mut r: Vec<crate::runner::RunEvent> = Vec::new();
        r.push(crate::runner::RunEvent::StartStory(self.id.clone()));
        proof {
            assert(sv.take(0) =~= Seq::<StepV>::empty());
            assert(crate::runner::events_of(r@) =~= seq![EventV::StartStory(self@.id)]
                + steps_trace(sv.take(0)));
        }
        let n = self.steps.len();
        let mut i: usize = 0;
        while i < n
            invariant
                i <= n,
                n == self.steps@.len(),
                sv == self@.steps,
                sv.len() == n,
                forall|p: int| 0 <= p < n ==> sv[p] == step_view(#[trigger] self.steps@[p]),
                crate::runner::events_of(r@) == seq![EventV::StartStory(self@.id)] + steps_trace(
                    sv.take(i as int),
                ),
            decreases n - i,
        {
            let step = &self.steps[i];
            proof {
                assert(*step == self.steps@[i as int]);
                assert(sv[i as int] == step_view(*step));
            }
            let ghost b0 = r@;
            r.push(crate::runner::RunEvent::RunStep(step.id.clone()));
            proof {
                assert(crate::runner::events_of(r@) =~= crate::runner::events_of(b0).push(
                    EventV::RunStep(sv[i as int].id),
                ));
            }
            match &step.nested {
                Option::None => {
                    proof {
                        lemma_steps_trace_take(sv, i as int);
                        assert(step_trace(sv[i as int]) == seq![EventV::RunStep(sv[i as int].id)]);
                        assert(crate::runner::events_of(r@) =~= seq![EventV::StartStory(self@.id)]
                            + steps_trace(sv.take(i as int + 1)));
                    }
                },
                Option::Some(b) => {
                    proof {
                        assert(sv[i as int].nested == Option::Some(Box::new(story_view(**b))));
                        assert(nested_of(sv[i as int]) == (**b)@);
                        broadcast use vstd::std_specs::vec::axiom_vec_index_decreases;

                        assert(decreases_to!(*self => self.steps));
                        assert(decreases_to!(self.steps => self.steps@[i as int]));
                        assert(decreases_to!(*step => step.nested));
                        assert(step.nested->0 == *b);
                        assert(decreases_to!(step.nested => step.nested->0));
                        assert(decreases_to!(*self => **b));
                    }
                    let ghost b1 = r@;
                    r.push(crate::runner::RunEvent::NestedStory(b.id.clone()));
                    proof {
                        assert(crate::runner::events_of(r@) =~= crate::runner::events_of(b1).push(
                            EventV::NestedStory((**b)@.id),
                        ));
                    }
                    let mut sub = (&**b).success_events();
                    let ghost b2 = r@;
                    let ghost subv = sub@;
                    r.append(&mut sub);
                    proof {
                        lemma_steps_trace_take(sv, i as int);
                        assert(step_trace(sv[i as int]) == seq![
                            EventV::RunStep(sv[i as int].id),
                            EventV::NestedStory((**b)@.id),
                        ] + success_trace((**b)@));
                        assert(crate::runner::events_of(r@) =~= crate::runner::events_of(b2)
                            + crate::runner::events_of(subv));
                        assert(crate::runner::events_of(r@) =~= seq![EventV::StartStory(self@.id)]
                            + steps_trace(sv.take(i as int + 1)));
                    }
                },
            }
            i = i + 1;
        }
        r.push(crate::runner::RunEvent::EndStory(self.id.clone()));
        proof {
            assert(sv.take(n as int) =~= sv);
            assert(crate::runner::events_of(r@) =~= success_trace(self@));
        }
        r
    }

    /// Runs the story against the environment with the default runner:
    /// steps in declaration order, nested stories to completion before
    /// their parent step completes, fail-fast on the first error.
    pub fn run_story<E, Env: Environment<E>>(&self, env: &mut Env) -> (r: Result<
        (),
        RunError<E>,
    >)
        requires
            story_wf(self@),
        ensures
            match r {
                Result::Ok(u) => final(env).calls() == old(env).calls() + calls_ok::<E>(
                    self@.steps,
                ),
                Result::Err(e) => exists|path: Seq<int>|
                    #[trigger] valid_fail_path(self@, path) && e.step_id@ == fail_step(
                        self@,
                        path,
                    ).id && final(env).calls() == old(env).calls() + fail_calls(
                        self@,
                        path,
                        e.error,
                    ),
            },
            old(env).infallible() ==> (r is Ok && final(env).infallible()),
    {
        let mut runner = DefaultStoryRunner::new();
        self.run_story_with_runner(env, &mut runner)
    }
}

} // verus!
