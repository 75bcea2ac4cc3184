//! Laws of the runtime, stated and proved over the spec-level models that
//! the public contracts use.

use vstd::prelude::*;

use crate::catalog::StepArgV;
use crate::catalog::StepV;
use crate::catalog::StoryConstV;
use crate::catalog::StoryContextV;
use crate::catalog::arg_value_of;
use crate::catalog::eval_expr;
use crate::catalog::find_arg;
use crate::catalog::resolve_value;
use crate::catalog::unique_step_ids;
use crate::environment::EnvCall;
use crate::run::calls_ok;
use crate::run::fail_calls;
use crate::run::fail_step;
use crate::run::fail_trace;
use crate::run::nested_of;
use crate::run::step_trace;
use crate::run::steps_trace;
use crate::run::success_trace;
use crate::run::valid_fail_path;
use crate::runner::EventV;

verus! {

/// The catalog accessors are deterministic: any two results that meet the
/// contract of `steps()` (or of `consts()`) on one story are the same
/// declaration-ordered sequence.
pub proof fn lemma_catalog_deterministic(
    c: StoryContextV,
    s1: Seq<StepV>,
    s2: Seq<StepV>,
    k1: Seq<StoryConstV>,
    k2: Seq<StoryConstV>,
)
    requires
        s1 == c.steps,
        s2 == c.steps,
        k1 == c.consts,
        k2 == c.consts,
    ensures
        s1 == s2,
        k1 == k2,
{
}

proof fn lemma_steps_trace_flat(ss: Seq<StepV>)
    requires
        forall|i: int| 0 <= i < ss.len() ==> (#[trigger] ss[i]).nested is None,
    ensures
        steps_trace(ss).len() == ss.len(),
        forall|i: int|
            0 <= i < ss.len() ==> steps_trace(ss)[i] == EventV::RunStep((#[trigger] ss[i]).id),
    decreases ss,
{
    if ss.len() > 0 {
        assert forall|i: int| 0 <= i < ss.drop_first().len() implies (#[trigger] ss.drop_first()[i]).nested
            is None by {
            assert(ss.drop_first()[i] == ss[i + 1]);
        }
        lemma_steps_trace_flat(ss.drop_first());
        assert(step_trace(ss[0]) == seq![EventV::RunStep(ss[0].id)]);
        assert forall|i: int| 0 <= i < ss.len() implies steps_trace(ss)[i] == EventV::RunStep(
            (#[trigger] ss[i]).id,
        ) by {
            if i > 0 {
                assert(ss.drop_first()[i - 1] == ss[i]);
            }
        }
    }
}

/// On a story none of whose steps delegates to a nested story, a
/// successful run's hook sequence is exactly: the story starts, each step
/// runs once in declaration order, the story ends — and no nested-story
/// hook occurs.
pub proof fn lemma_success_trace_flat(c: StoryContextV)
    requires
        forall|i: int| 0 <= i < c.steps.len() ==> (#[trigger] c.steps[i]).nested is None,
    ensures
        success_trace(c).len() == c.steps.len() + 2,
        success_trace(c)[0] == EventV::StartStory(c.id),
        forall|i: int|
            0 <= i < c.steps.len() ==> success_trace(c)[i + 1] == EventV::RunStep(
                (#[trigger] c.steps[i]).id,
            ),
        success_trace(c)[c.steps.len() as int + 1] == EventV::EndStory(c.id),
        forall|j: int|
            0 <= j < success_trace(c).len() ==> !(#[trigger] success_trace(c)[j] is NestedStory),
{
    lemma_steps_trace_flat(c.steps);
    let t = success_trace(c);
    assert forall|j: int| 0 <= j < t.len() implies !(#[trigger] t[j] is NestedStory) by {
        if j == 0 {
            assert(t[j] == EventV::StartStory(c.id));
        } else if j <= c.steps.len() {
            assert(t[j] == EventV::RunStep(c.steps[j - 1].id));
        } else {
            assert(t[j] == EventV::EndStory(c.id));
        }
    }
}

/// Fail-fast on a story none of whose steps delegates: a failing run's
/// hook sequence is the story start, the steps up to and including the
/// failing one, and nothing more — the steps after it and the trailing
/// end-of-story hook are never invoked.
pub proof fn lemma_fail_fast_flat(c: StoryContextV, path: Seq<int>)
    requires
        valid_fail_path(c, path),
        forall|i: int| 0 <= i < c.steps.len() ==> (#[trigger] c.steps[i]).nested is None,
    ensures
        path.len() == 1,
        fail_step(c, path) == c.steps[path[0]],
        fail_trace(c, path).len() == path[0] + 2,
        fail_trace(c, path)[0] == EventV::StartStory(c.id),
        forall|i: int|
            0 <= i <= path[0] ==> fail_trace(c, path)[i + 1] == EventV::RunStep(
                (#[trigger] c.steps[i]).id,
            ),
        forall|j: int| 0 <= j < fail_trace(c, path).len() ==> !(#[trigger] fail_trace(c, path)[j] is EndStory),
        unique_step_ids(c.steps) ==> forall|i: int, j: int|
            path[0] < i < c.steps.len() && 0 <= j < fail_trace(c, path).len() ==> #[trigger] fail_trace(
                c,
                path,
            )[j] != EventV::RunStep((#[trigger] c.steps[i]).id),
{
    if path.len() > 1 {
        assert(c.steps[path[0]].nested is Some);
        assert(false);
    }
    let k = path[0];
    let pre = c.steps.take(k);
    assert forall|i: int| 0 <= i < pre.len() implies (#[trigger] pre[i]).nested is None by {
        assert(pre[i] == c.steps[i]);
    }
    lemma_steps_trace_flat(pre);
    let t = fail_trace(c, path);
    assert(t == seq![EventV::StartStory(c.id)] + steps_trace(pre) + seq![
        EventV::RunStep(c.steps[k].id),
    ]);
    assert forall|i: int| 0 <= i <= k implies t[i + 1] == EventV::RunStep(
        (#[trigger] c.steps[i]).id,
    ) by {
        if i < k {
            assert(pre[i] == c.steps[i]);
            assert(t[i + 1] == steps_trace(pre)[i]);
        }
    }
    assert forall|j: int| 0 <= j < t.len() implies !(#[trigger] t[j] is EndStory) by {
        if j == 0 {
            assert(t[j] == EventV::StartStory(c.id));
        } else {
            assert(t[j] == EventV::RunStep(c.steps[j - 1].id));
        }
    }
    if unique_step_ids(c.steps) {
        assert forall|i: int, j: int|
            k < i < c.steps.len() && 0 <= j < t.len() implies #[trigger] t[j] != EventV::RunStep(
            (#[trigger] c.steps[i]).id,
        ) by {
            if 1 <= j <= k + 1 {
                assert(t[j] == EventV::RunStep(c.steps[j - 1].id));
                assert(c.steps[j - 1].id != c.steps[i].id);
            }
        }
    }
}

/// A step that delegates to a nested story produces, when it runs
/// successfully: its own step hook, the nested-story hook, then the
/// nested story's full hook sequence — start, its steps in order, end —
/// before control returns to the parent's remaining steps.
pub proof fn lemma_nested_step_trace(s: StepV)
    requires
        s.nested is Some,
    ensures
        step_trace(s) == seq![EventV::RunStep(s.id), EventV::NestedStory(nested_of(s).id)]
            + success_trace(nested_of(s)),
        success_trace(nested_of(s))[0] == EventV::StartStory(nested_of(s).id),
        success_trace(nested_of(s)).last() == EventV::EndStory(nested_of(s).id),
{
    let n = nested_of(s);
    assert(success_trace(n) == seq![EventV::StartStory(n.id)] + steps_trace(n.steps) + seq![
        EventV::EndStory(n.id),
    ]);
}

/// On a successful run, a story's own environment undergoes exactly one
/// method invocation per step, in declaration order, each succeeding —
/// no step is skipped, repeated, or reordered.
pub proof fn lemma_success_calls<E>(c: StoryContextV)
    ensures
        calls_ok::<E>(c.steps).len() == c.steps.len(),
        forall|i: int|
            0 <= i < c.steps.len() ==> calls_ok::<E>(c.steps)[i] == EnvCall::<E>::Succeeded(
                c.steps[i].id,
            ),
{
}

/// On a failing run, a story's own environment undergoes exactly the
/// invocations of the steps up to and including the failure path's head:
/// the earlier ones succeeded; the head's own invocation failed with
/// exactly the returned error when the failure is at this story's level,
/// and succeeded — handing out the nested environment in which the
/// failure then occurred — when it is deeper; the methods of the steps
/// after it are never invoked.
pub proof fn lemma_fail_calls_shape<E>(c: StoryContextV, path: Seq<int>, err: E)
    requires
        valid_fail_path(c, path),
    ensures
        fail_calls(c, path, err).len() == path[0] + 1,
        forall|i: int|
            0 <= i < path[0] ==> fail_calls(c, path, err)[i] == EnvCall::<E>::Succeeded(
                c.steps[i].id,
            ),
        path.len() == 1 ==> fail_calls(c, path, err).last() == EnvCall::<E>::Failed(
            c.steps[path[0]].id,
            err,
        ),
        path.len() > 1 ==> fail_calls(c, path, err).last() == EnvCall::<E>::Succeeded(
            c.steps[path[0]].id,
        ),
{
    assert forall|i: int| 0 <= i < path[0] implies fail_calls(c, path, err)[i] == EnvCall::<
        E,
    >::Succeeded(c.steps[i].id) by {
        assert(c.steps.take(path[0])[i] == c.steps[i]);
    }
}

/// An argument bound by an expression with no step-local override takes
/// the expression's value under the current constants; with a step-local
/// override, the override's value — and narration substitution uses that
/// same value, not the constant of the same name.
pub proof fn lemma_arg_override(a: StepArgV, consts: Seq<StoryConstV>)
    ensures
        a.local is None ==> arg_value_of(a, consts) == eval_expr(a.default, consts),
        a.local is Some ==> arg_value_of(a, consts) == eval_expr(a.local->0, consts),
{
}

/// Narration substitution resolves a placeholder to the step-local
/// argument of that name when one exists: the argument's value — default
/// or override — wins over any story constant of the same name.
pub proof fn lemma_narration_uses_arg(
    args: Seq<StepArgV>,
    consts: Seq<StoryConstV>,
    name: Seq<char>,
)
    requires
        find_arg(args, name) is Some,
    ensures
        resolve_value(args, consts, name) == Option::Some(
            arg_value_of(find_arg(args, name)->0, consts),
        ),
{
}

} // verus!
