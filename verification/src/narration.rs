//! A flat narration document: the human-readable rendering of one story's
//! catalog — title, step texts, and each argument's name, type and
//! debug-rendered value.

use vstd::prelude::*;

use crate::catalog::StepArgV;
use crate::catalog::StepV;
use crate::catalog::StoryConstV;
use crate::catalog::StoryContext;
use crate::catalog::arg_value_of;
use crate::catalog::lemma_steps_view;
use crate::catalog::lemma_steps_wf_iff;
use crate::catalog::story_wf;
use crate::template::render_text;
use crate::value::debug_text;

verus! {

/// One argument of a narration step: its name, declared type name, and
/// the debug-style rendering of its value.
#[derive(Debug, PartialEq, Eq)]
pub struct NarrationStepArg {
    pub ident: String,
    pub ty: String,
    pub value: String,
}

/// One step of a narration: its rendered text, its id, its arguments.
#[derive(Debug, PartialEq, Eq)]
pub struct NarrationStep {
    pub text: String,
    pub step_ident: String,
    pub args: Vec<NarrationStepArg>,
}

/// The narration of a whole story.
#[derive(Debug, PartialEq, Eq)]
pub struct Narration {
    pub story_title: String,
    pub story_ident: String,
    pub steps: Vec<NarrationStep>,
}

pub open spec fn narration_arg_ok(n: NarrationStepArg, a: StepArgV, consts: Seq<StoryConstV>) -> bool {
    &&& n.ident@ == a.name
    &&& n.ty@ == a.ty
    &&& n.value@ == debug_text(arg_value_of(a, consts))
}

pub open spec fn narration_step_ok(n: NarrationStep, s: StepV, consts: Seq<StoryConstV>) -> bool {
    &&& n.step_ident@ == s.id
    &&& n.text@ == render_text(s.text, s.args, consts)
    &&& n.args@.len() == s.args.len()
    &&& forall|i: int| 0 <= i < s.args.len() ==> narration_arg_ok(#[trigger] n.args@[i], s.args[i], consts)
}

impl StoryContext {
    /// Renders the story's narration: every step's text and every
    /// argument's value, in declaration order, exactly as the typed
    /// accessors produce them.
    pub fn to_narration(&self) -> (r: Narration)
        requires
            story_wf(self@),
        ensures
            r.story_title@ == self@.title,
            r.story_ident@ == self@.id,
            r.steps@.len() == self@.steps.len(),
            forall|i: int|
                0 <= i < self@.steps.len() ==> narration_step_ok(
                    #[trigger] r.steps@[i],
                    self@.steps[i],
                    self@.consts,
                ),
    {
        let ghost sv = self@.steps;
        let ghost cv = self@.consts;
        proof {
            lemma_steps_view(self.steps@);
            lemma_steps_wf_iff(sv, cv);
        }
        let mut steps: Vec<NarrationStep> = Vec::new();
        let mut i: usize = 0;
        while i < self.steps.len()
            invariant
                i <= self.steps@.len(),
                sv == self@.steps,
                cv == self@.consts,
                sv.len() == self.steps@.len(),
                forall|p: int|
                    0 <= p < sv.len() ==> sv[p] == crate::catalog::step_view(
                        #[trigger] self.steps@[p],
                    ),
                forall|p: int| 0 <= p < sv.len() ==> crate::catalog::step_wf(#[trigger] sv[p], cv),
                steps@.len() == i,
                forall|p: int|
                    0 <= p < i ==> narration_step_ok(#[trigger] steps@[p], sv[p], cv),
            decreases self.steps@.len() - i,
        {
            let step = &self.steps[i];
            proof {
                assert(sv[i as int] == crate::catalog::step_view(*step));
            }
            let text = step.step_text(&self.consts);
            let mut args: Vec<NarrationStepArg> = Vec::new();
            let mut j: usize = 0;
            while j < step.args.args.len()
                invariant
                    j <= step.args.args@.len(),
                    cv == self@.consts,
                    crate::catalog::step_view(*step).args == crate::catalog::args_view(
                        step.args.args@,
                    ),
                    args@.len() == j,
                    forall|q: int|
                        0 <= q < j ==> narration_arg_ok(
                            #[trigger] args@[q],
                            crate::catalog::args_view(step.args.args@)[q],
                            cv,
                        ),
                decreases step.args.args@.len() - j,
            {
                let a = &step.args.args[j];
                let boxed = a.value(&self.consts);
                let na = NarrationStepArg {
                    ident: a.name.clone(),
                    ty: a.ty.clone(),
                    value: boxed.debug_string(),
                };
                args.push(na);
                j = j + 1;
            }
            let ns = NarrationStep { text, step_ident: step.id.clone(), args };
            steps.push(ns);
            i = i + 1;
        }
        Narration {
            story_title: self.title.clone(),
            story_ident: self.id.clone(),
            steps,
        }
    }
}

} // verus!
