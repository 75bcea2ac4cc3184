//! The dynamic introspection layer: a type-erased snapshot of a story
//! tree — the exported narration document shape. The adapter changes no
//! observable value, ordering, or narration text relative to the typed
//! accessors, which the conversion's contract states exactly.

use vstd::prelude::*;

use crate::catalog::StepArgV;
use crate::catalog::StepV;
use crate::catalog::StoryConstV;
use crate::catalog::StoryContext;
use crate::catalog::StoryContextV;
use crate::catalog::arg_value_of;
use crate::catalog::lemma_steps_view;
use crate::catalog::lemma_steps_wf_iff;
use crate::catalog::story_wf;
use crate::template::render_text;
use crate::value::BoxedValue;
use crate::value::duplicate;

verus! {

/// A type-erased view of one step argument, carrying its boxed value.
#[derive(Debug)]
pub struct DynStepArg {
    pub name: String,
    pub ty: String,
    pub expr: String,
    pub value: BoxedValue,
}

/// A type-erased view of one story constant, carrying its boxed value.
#[derive(Debug)]
pub struct DynStoryConst {
    pub name: String,
    pub ty: String,
    pub expr: String,
    pub value: BoxedValue,
}

/// A type-erased view of one step: rendered text, id, arguments, and the
/// nested story's view when the step delegates.
#[derive(Debug)]
pub struct DynStep {
    pub text: String,
    pub id: String,
    pub args: Vec<DynStepArg>,
    pub nested: Option<Box<DynStoryContext>>,
}

/// A type-erased view of a whole story tree.
#[derive(Debug)]
pub struct DynStoryContext {
    pub title: String,
    pub id: String,
    pub consts: Vec<DynStoryConst>,
    pub steps: Vec<DynStep>,
}

impl DynStepArg {
    /// Wraps one argument view.
    pub fn new(name: String, ty: String, expr: String, value: BoxedValue) -> (r: Self)
        ensures
            r == (DynStepArg { name, ty, expr, value }),
    {
        DynStepArg { name, ty, expr, value }
    }
}

impl DynStoryConst {
    /// Wraps one constant view.
    pub fn new(name: String, ty: String, expr: String, value: BoxedValue) -> (r: Self)
        ensures
            r == (DynStoryConst { name, ty, expr, value }),
    {
        DynStoryConst { name, ty, expr, value }
    }
}

impl DynStep {
    /// Wraps one step view.
    pub fn new(
        text: String,
        id: String,
        args: Vec<DynStepArg>,
        nested: Option<Box<DynStoryContext>>,
    ) -> (r: Self)
        ensures
            r == (DynStep { text, id, args, nested }),
    {
        DynStep { text, id, args, nested }
    }
}

impl DynStoryContext {
    /// Wraps one story view.
    pub fn new(
        title: String,
        id: String,
        consts: Vec<DynStoryConst>,
        steps: Vec<DynStep>,
    ) -> (r: Self)
        ensures
            r == (DynStoryContext { title, id, consts, steps }),
    {
        DynStoryContext { title, id, consts, steps }
    }
}

/// Whether a type-erased argument agrees with the typed catalog.
pub open spec fn dyn_arg_ok(d: DynStepArg, a: StepArgV, consts: Seq<StoryConstV>) -> bool {
    &&& d.name@ == a.name
    &&& d.ty@ == a.ty
    &&& d.expr@ == a.expr
    &&& d.value@ == arg_value_of(a, consts)
}

/// Whether a type-erased constant agrees with the typed catalog.
pub open spec fn dyn_const_ok(d: DynStoryConst, c: StoryConstV) -> bool {
    &&& d.name@ == c.name
    &&& d.ty@ == c.ty
    &&& d.expr@ == c.expr
    &&& d.value@ == c.value
}

/// Whether a type-erased step agrees with the typed catalog: same id,
/// the very narration text the typed accessor renders, the same argument
/// values in the same order, and an agreeing nested view exactly when the
/// step delegates.
pub open spec fn dyn_step_ok(d: DynStep, s: StepV, consts: Seq<StoryConstV>) -> bool
    decreases s,
{
    &&& d.id@ == s.id
    &&& d.text@ == render_text(s.text, s.args, consts)
    &&& d.args@.len() == s.args.len()
    &&& forall|i: int| 0 <= i < s.args.len() ==> dyn_arg_ok(#[trigger] d.args@[i], s.args[i], consts)
    &&& match (d.nested, s.nested) {
        (Option::Some(dn), Option::Some(sn)) => dyn_story_ok(*dn, *sn),
        (Option::None, Option::None) => true,
        _ => false,
    }
}

pub open spec fn dyn_steps_ok(ds: Seq<DynStep>, ss: Seq<StepV>, consts: Seq<StoryConstV>) -> bool
    decreases ss,
{
    if ss.len() == 0 {
        ds.len() == 0
    } else {
        ds.len() == ss.len() && dyn_step_ok(ds[0], ss[0], consts) && dyn_steps_ok(
            ds.drop_first(),
            ss.drop_first(),
            consts,
        )
    }
}

/// Whether a type-erased story tree agrees with the typed catalog.
pub open spec fn dyn_story_ok(d: DynStoryContext, c: StoryContextV) -> bool
    decreases c,
{
    &&& d.title@ == c.title
    &&& d.id@ == c.id
    &&& d.consts@.len() == c.consts.len()
    &&& forall|i: int| 0 <= i < c.consts.len() ==> dyn_const_ok(#[trigger] d.consts@[i], c.consts[i])
    &&& dyn_steps_ok(d.steps@, c.steps, c.consts)
}

pub proof fn lemma_dyn_steps_ok_iff(ds: Seq<DynStep>, ss: Seq<StepV>, consts: Seq<StoryConstV>)
    ensures
        dyn_steps_ok(ds, ss, consts) <==> (ds.len() == ss.len() && forall|i: int|
            0 <= i < ss.len() ==> dyn_step_ok(#[trigger] ds[i], ss[i], consts)),
    decreases ss,
{
    if ss.len() > 0 {
        lemma_dyn_steps_ok_iff(ds.drop_first(), ss.drop_first(), consts);
        if dyn_steps_ok(ds, ss, consts) {
            assert forall|i: int| 0 <= i < ss.len() implies dyn_step_ok(
                #[trigger] ds[i],
                ss[i],
                consts,
            ) by {
                if i > 0 {
                    assert(ds.drop_first()[i - 1] == ds[i]);
                    assert(ss.drop_first()[i - 1] == ss[i]);
                }
            }
        }
        if ds.len() == ss.len() && forall|i: int|
            0 <= i < ss.len() ==> dyn_step_ok(#[trigger] ds[i], ss[i], consts) {
            assert forall|i: int| 0 <= i < ss.drop_first().len() implies dyn_step_ok(
                #[trigger] ds.drop_first()[i],
                ss.drop_first()[i],
                consts,
            ) by {
                assert(ds.drop_first()[i] == ds[i + 1]);
                assert(ss.drop_first()[i] == ss[i + 1]);
            }
        }
    }
}

impl StoryContext {
    /// Produces the type-erased view of the whole story tree: the same
    /// titles, ids, ordering, narration texts and values that the typed
    /// accessors expose.
    pub fn to_dyn(&self) -> (r: DynStoryContext)
        requires
            story_wf(self@),
        ensures
            dyn_story_ok(r, self@),
        decreases *self,
    {
        let ghost sv = self@.steps;
        let ghost cv = self@.consts;
        proof {
            lemma_steps_view(self.steps@);
            lemma_steps_wf_iff(sv, cv);
        }
        let mut consts: Vec<DynStoryConst> = Vec::new();
        let mut i: usize = 0;
        while i < self.consts.len()
            invariant
                i <= self.consts@.len(),
                cv == self@.consts,
                cv.len() == self.consts@.len(),
                consts@.len() == i,
                forall|p: int| 0 <= p < i ==> dyn_const_ok(#[trigger] consts@[p], cv[p]),
            decreases self.consts@.len() - i,
        {
            let c = &self.consts[i];
            let dc = DynStoryConst {
                name: c.name.clone(),
                ty: c.ty.clone(),
                expr: c.expr.clone(),
                value: BoxedValue::new(duplicate(&c.value)),
            };
            consts.push(dc);
            i = i + 1;
        }
        let mut steps: Vec<DynStep> = Vec::new();
        let mut i: usize = 0;
        while i < self.steps.len()
            invariant
                i <= self.steps@.len(),
                sv == self@.steps,
                cv == self@.consts,
                sv.len() == self.steps@.len(),
                forall|p: int|
                    0 <= p < sv.len() ==> sv[p] == crate::catalog::step_view(
                        #[trigger] self.steps@[p],
                    ),
                forall|p: int| 0 <= p < sv.len() ==> crate::catalog::step_wf(#[trigger] sv[p], cv),
                steps@.len() == i,
                forall|p: int| 0 <= p < i ==> dyn_step_ok(#[trigger] steps@[p], sv[p], cv),
            decreases self.steps@.len() - i,
        {
            let step = &self.steps[i];
            proof {
                assert(sv[i as int] == crate::catalog::step_view(*step));
            }
            let text = step.step_text(&self.consts);
            let mut args: Vec<DynStepArg> = Vec::new();
            let mut j: usize = 0;
            while j < step.args.args.len()
                invariant
                    j <= step.args.args@.len(),
                    cv == self@.consts,
                    crate::catalog::step_view(*step).args == crate::catalog::args_view(
                        step.args.args@,
                    ),
                    args@.len() == j,
                    forall|q: int|
                        0 <= q < j ==> dyn_arg_ok(
                            #[trigger] args@[q],
                            crate::catalog::args_view(step.args.args@)[q],
                            cv,
                        ),
                decreases step.args.args@.len() - j,
            {
                let a = &step.args.args[j];
                let da = DynStepArg {
                    name: a.name.clone(),
                    ty: a.ty.clone(),
                    expr: a.expr.clone(),
                    value: a.value(&self.consts),
                };
                args.push(da);
                j = j + 1;
            }
            let nested: Option<Box<DynStoryContext>> = match &step.nested {
                Option::Some(b) => {
                    proof {
                        broadcast use vstd::std_specs::vec::axiom_vec_index_decreases;

                        assert(decreases_to!(*self => self.steps));
                        assert(decreases_to!(self.steps => self.steps@[i as int]));
                        assert(decreases_to!(*step => step.nested));
                        assert(step.nested->0 == *b);
                        assert(decreases_to!(step.nested => step.nested->0));
                        assert(decreases_to!(*self => **b));
                        assert(sv[i as int].nested == Option::Some(
                            Box::new(crate::catalog::story_view(**b)),
                        ));
                        assert(story_wf((**b)@));
                    }
                    Some(Box::new((&**b).to_dyn()))
                },
                Option::None => None,
            };
            let ds = DynStep { text, id: step.id.clone(), args, nested };
            proof {
                assert(dyn_step_ok(ds, sv[i as int], cv));
            }
            steps.push(ds);
            i = i + 1;
        }
        let r = DynStoryContext {
            title: self.title.clone(),
            id: self.id.clone(),
            consts,
            steps,
        };
        proof {
            lemma_dyn_steps_ok_iff(r.steps@, sv, cv);
        }
        r
    }
}

} // verus!
