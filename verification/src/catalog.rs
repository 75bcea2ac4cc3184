//! The catalog model: immutable, declaration-order data describing one
//! story — its title, id, constants and steps, where a step may reference
//! a nested story that is run to completion before the step completes.

use vstd::prelude::*;

use crate::template;
use crate::value::BoxedValue;
use crate::value::ValueData;
use crate::value::ValueV;
use crate::value::duplicate;

verus! {

/// Spec-level model of an argument binding: either a literal value or a
/// reference to a story constant, evaluated under the current constants.
#[verifier::ext_equal]
pub enum ArgExprV {
    Lit(ValueV),
    ConstRef(Seq<char>),
}

/// Spec-level model of a step argument.
#[verifier::ext_equal]
pub struct StepArgV {
    pub name: Seq<char>,
    pub ty: Seq<char>,
    pub expr: Seq<char>,
    pub default: ArgExprV,
    pub local: Option<ArgExprV>,
}

/// Spec-level model of a story constant.
#[verifier::ext_equal]
pub struct StoryConstV {
    pub name: Seq<char>,
    pub ty: Seq<char>,
    pub expr: Seq<char>,
    pub value: ValueV,
}

/// Spec-level model of a step.
#[verifier::ext_equal]
pub struct StepV {
    pub id: Seq<char>,
    pub text: Seq<char>,
    pub args: Seq<StepArgV>,
    pub nested: Option<Box<StoryContextV>>,
}

/// Spec-level model of a story catalog.
#[verifier::ext_equal]
pub struct StoryContextV {
    pub title: Seq<char>,
    pub id: Seq<char>,
    pub consts: Seq<StoryConstV>,
    pub steps: Seq<StepV>,
}

/// A binding for a step argument: a literal value, or the name of a story
/// constant whose value the argument takes.
#[derive(Debug, PartialEq, Eq)]
pub enum ArgExpr {
    Lit(ValueData),
    ConstRef(String),
}

/// One named, typed datum scoped to a step: metadata plus a binding.
#[derive(Debug, PartialEq, Eq)]
pub struct StepArg {
    pub name: String,
    pub ty: String,
    pub expr: String,
    pub default: ArgExpr,
    pub local: Option<ArgExpr>,
}

/// The ordered arguments of one step.
#[derive(Debug, PartialEq, Eq)]
pub struct StepArgs {
    pub args: Vec<StepArg>,
}

/// One named, typed constant scoped to a story.
#[derive(Debug, PartialEq, Eq)]
pub struct StoryConst {
    pub name: String,
    pub ty: String,
    pub expr: String,
    pub value: ValueData,
}

/// One scenario action: narration text, an id, arguments, and an optional
/// nested story.
#[derive(Debug, PartialEq, Eq)]
pub struct Step {
    pub id: String,
    pub text: String,
    pub args: StepArgs,
    pub nested: Option<Box<StoryContext>>,
}

/// One story's static catalog.
#[derive(Debug, PartialEq, Eq)]
pub struct StoryContext {
    pub title: String,
    pub id: String,
    pub consts: Vec<StoryConst>,
    pub steps: Vec<Step>,
}

pub open spec fn arg_expr_view(e: ArgExpr) -> ArgExprV {
    match e {
        ArgExpr::Lit(v) => ArgExprV::Lit(v@),
        ArgExpr::ConstRef(n) => ArgExprV::ConstRef(n@),
    }
}

impl View for ArgExpr {
    type V = ArgExprV;

    open spec fn view(&self) -> ArgExprV {
        arg_expr_view(*self)
    }
}

pub open spec fn step_arg_view(a: StepArg) -> StepArgV {
    StepArgV {
        name: a.name@,
        ty: a.ty@,
        expr: a.expr@,
        default: a.default@,
        local: match a.local {
            Option::Some(e) => Option::Some(e@),
            Option::None => Option::None,
        },
    }
}

impl View for StepArg {
    type V = StepArgV;

    open spec fn view(&self) -> StepArgV {
        step_arg_view(*self)
    }
}

pub open spec fn args_view(l: Seq<StepArg>) -> Seq<StepArgV> {
    l.map_values(|a: StepArg| step_arg_view(a))
}

impl View for StepArgs {
    type V = Seq<StepArgV>;

    open spec fn view(&self) -> Seq<StepArgV> {
        args_view(self.args@)
    }
}

pub open spec fn const_view(c: StoryConst) -> StoryConstV {
    StoryConstV { name: c.name@, ty: c.ty@, expr: c.expr@, value: c.value@ }
}

impl View for StoryConst {
    type V = StoryConstV;

    open spec fn view(&self) -> StoryConstV {
        const_view(*self)
    }
}

pub open spec fn consts_view(l: Seq<StoryConst>) -> Seq<StoryConstV> {
    l.map_values(|c: StoryConst| const_view(c))
}

pub open spec fn step_view(s: Step) -> StepV
    decreases s,
{
    StepV {
        id: s.id@,
        text: s.text@,
        args: args_view(s.args.args@),
        nested: match s.nested {
            Option::Some(b) => Option::Some(Box::new(story_view(*b))),
            Option::None => Option::None,
        },
    }
}

pub open spec fn steps_view(l: Seq<Step>) -> Seq<StepV>
    decreases l,
{
    if l.len() == 0 {
        Seq::empty()
    } else {
        seq![step_view(l[0])] + steps_view(l.drop_first())
    }
}

pub open spec fn story_view(c: StoryContext) -> StoryContextV
    decreases c,
{
    StoryContextV {
        title: c.title@,
        id: c.id@,
        consts: consts_view(c.consts@),
        steps: steps_view(c.steps@),
    }
}

impl View for Step {
    type V = StepV;

    open spec fn view(&self) -> StepV {
        step_view(*self)
    }
}

impl View for StoryContext {
    type V = StoryContextV;

    open spec fn view(&self) -> StoryContextV {
        story_view(*self)
    }
}

pub proof fn lemma_steps_view(l: Seq<Step>)
    ensures
        steps_view(l).len() == l.len(),
        forall|i: int| 0 <= i < l.len() ==> steps_view(l)[i] == step_view(#[trigger] l[i]),
    decreases l,
{
    if l.len() > 0 {
        lemma_steps_view(l.drop_first());
        assert forall|i: int| 0 <= i < l.len() implies steps_view(l)[i] == step_view(
            #[trigger] l[i],
        ) by {
            if i > 0 {
                assert(l.drop_first()[i - 1] == l[i]);
            }
        }
    }
}

/// The first constant of the given name, if any: the later of two constants
/// that share a name is shadowed.
pub open spec fn find_const(consts: Seq<StoryConstV>, name: Seq<char>) -> Option<StoryConstV>
    decreases consts,
{
    if consts.len() == 0 {
        Option::None
    } else if consts[0].name == name {
        Option::Some(consts[0])
    } else {
        find_const(consts.drop_first(), name)
    }
}

/// The first argument of the given name, if any.
pub open spec fn find_arg(args: Seq<StepArgV>, name: Seq<char>) -> Option<StepArgV>
    decreases args,
{
    if args.len() == 0 {
        Option::None
    } else if args[0].name == name {
        Option::Some(args[0])
    } else {
        find_arg(args.drop_first(), name)
    }
}

/// What an argument binding evaluates to under the given constants; an
/// unresolvable constant reference evaluates to the unit value, a case
/// that well-formed catalogs rule out.
pub open spec fn eval_expr(e: ArgExprV, consts: Seq<StoryConstV>) -> ValueV {
    match e {
        ArgExprV::Lit(v) => v,
        ArgExprV::ConstRef(n) => match find_const(consts, n) {
            Option::Some(c) => c.value,
            Option::None => ValueV::Unit,
        },
    }
}

/// The binding an argument uses: its step-local override when present,
/// otherwise its default expression.
pub open spec fn arg_binding(a: StepArgV) -> ArgExprV {
    match a.local {
        Option::Some(o) => o,
        Option::None => a.default,
    }
}

/// The value of an argument under the given constants.
pub open spec fn arg_value_of(a: StepArgV, consts: Seq<StoryConstV>) -> ValueV {
    eval_expr(arg_binding(a), consts)
}

/// Resolves a narration placeholder: a step-local argument of that name
/// wins over a story-level constant of that name.
pub open spec fn resolve_value(
    args: Seq<StepArgV>,
    consts: Seq<StoryConstV>,
    name: Seq<char>,
) -> Option<ValueV> {
    match find_arg(args, name) {
        Option::Some(a) => Option::Some(arg_value_of(a, consts)),
        Option::None => match find_const(consts, name) {
            Option::Some(c) => Option::Some(c.value),
            Option::None => Option::None,
        },
    }
}

pub open spec fn expr_wf(e: ArgExprV, consts: Seq<StoryConstV>) -> bool {
    match e {
        ArgExprV::Lit(_) => true,
        ArgExprV::ConstRef(n) => find_const(consts, n) is Some,
    }
}

pub open spec fn arg_wf(a: StepArgV, consts: Seq<StoryConstV>) -> bool {
    expr_wf(a.default, consts) && match a.local {
        Option::Some(o) => expr_wf(o, consts),
        Option::None => true,
    }
}

/// No two steps of one story share an id (ids may recur across stories).
pub open spec fn unique_step_ids(steps: Seq<StepV>) -> bool {
    forall|i: int, j: int| 0 <= i < j < steps.len() ==> steps[i].id != steps[j].id
}

/// A step is well-formed under its story's constants: its bindings
/// resolve, its narration text is well-formed, and its nested story, if
/// any, is itself well-formed.
pub open spec fn step_wf(s: StepV, consts: Seq<StoryConstV>) -> bool
    decreases s,
{
    &&& forall|i: int| 0 <= i < s.args.len() ==> arg_wf(#[trigger] s.args[i], consts)
    &&& template::text_wf(s.text, s.args, consts)
    &&& match s.nested {
        Option::Some(n) => story_wf(*n),
        Option::None => true,
    }
}

pub open spec fn steps_wf(steps: Seq<StepV>, consts: Seq<StoryConstV>) -> bool
    decreases steps,
{
    if steps.len() == 0 {
        true
    } else {
        step_wf(steps[0], consts) && steps_wf(steps.drop_first(), consts)
    }
}

/// A story catalog is well-formed: step ids are unique and every step is
/// well-formed under the story's constants. Catalogs that violate this are
/// definition errors, caught before any step runs.
pub open spec fn story_wf(c: StoryContextV) -> bool
    decreases c,
{
    unique_step_ids(c.steps) && steps_wf(c.steps, c.consts)
}

pub proof fn lemma_steps_wf_iff(steps: Seq<StepV>, consts: Seq<StoryConstV>)
    ensures
        steps_wf(steps, consts) <==> (forall|i: int|
            0 <= i < steps.len() ==> step_wf(#[trigger] steps[i], consts)),
    decreases steps,
{
    if steps.len() > 0 {
        lemma_steps_wf_iff(steps.drop_first(), consts);
        assert forall|i: int| 0 <= i < steps.len() && steps_wf(steps, consts) implies step_wf(
            #[trigger] steps[i],
            consts,
        ) by {
            if i > 0 {
                assert(steps.drop_first()[i - 1] == steps[i]);
            }
        }
        if forall|i: int| 0 <= i < steps.len() ==> step_wf(#[trigger] steps[i], consts) {
            assert forall|i: int| 0 <= i < steps.drop_first().len() implies step_wf(
                #[trigger] steps.drop_first()[i],
                consts,
            ) by {
                assert(steps.drop_first()[i] == steps[i + 1]);
            }
        }
    }
}

pub proof fn lemma_find_const_at(consts: Seq<StoryConstV>, name: Seq<char>, i: int)
    requires
        0 <= i < consts.len(),
        consts[i].name == name,
        forall|j: int| 0 <= j < i ==> (#[trigger] consts[j]).name != name,
    ensures
        find_const(consts, name) == Option::Some(consts[i]),
    decreases consts,
{
    if i > 0 {
        assert forall|j: int| 0 <= j < i - 1 implies (#[trigger] consts.drop_first()[j]).name
            != name by {
            assert(consts.drop_first()[j] == consts[j + 1]);
        }
        assert(consts.drop_first()[i - 1] == consts[i]);
        lemma_find_const_at(consts.drop_first(), name, i - 1);
    }
}

pub proof fn lemma_find_const_none(consts: Seq<StoryConstV>, name: Seq<char>)
    requires
        forall|j: int| 0 <= j < consts.len() ==> (#[trigger] consts[j]).name != name,
    ensures
        find_const(consts, name) is None,
    decreases consts,
{
    if consts.len() > 0 {
        assert forall|j: int| 0 <= j < consts.drop_first().len() implies (#[trigger] consts
            .drop_first()[j]).name != name by {
            assert(consts.drop_first()[j] == consts[j + 1]);
        }
        lemma_find_const_none(consts.drop_first(), name);
    }
}

pub proof fn lemma_find_arg_at(args: Seq<StepArgV>, name: Seq<char>, i: int)
    requires
        0 <= i < args.len(),
        args[i].name == name,
        forall|j: int| 0 <= j < i ==> (#[trigger] args[j]).name != name,
    ensures
        find_arg(args, name) == Option::Some(args[i]),
    decreases args,
{
    if i > 0 {
        assert forall|j: int| 0 <= j < i - 1 implies (#[trigger] args.drop_first()[j]).name
            != name by {
            assert(args.drop_first()[j] == args[j + 1]);
        }
        assert(args.drop_first()[i - 1] == args[i]);
        lemma_find_arg_at(args.drop_first(), name, i - 1);
    }
}

pub proof fn lemma_find_arg_none(args: Seq<StepArgV>, name: Seq<char>)
    requires
        forall|j: int| 0 <= j < args.len() ==> (#[trigger] args[j]).name != name,
    ensures
        find_arg(args, name) is None,
    decreases args,
{
    if args.len() > 0 {
        assert forall|j: int| 0 <= j < args.drop_first().len() implies (#[trigger] args
            .drop_first()[j]).name != name by {
            assert(args.drop_first()[j] == args[j + 1]);
        }
        lemma_find_arg_none(args.drop_first(), name);
    }
}

/// Looks the named constant up, first match wins.
pub(crate) fn find_const_exec<'a>(consts: &'a Vec<StoryConst>, name: &Vec<char>) -> (r: Option<
    &'a StoryConst,
>)
    ensures
        match r {
            Option::Some(c) => find_const(consts_view(consts@), name@) == Option::Some(c@),
            Option::None => find_const(consts_view(consts@), name@) is None,
        },
{
    let mut i: usize = 0;
    while i < consts.len()
        invariant
            i <= consts@.len(),
            forall|j: int| 0 <= j < i ==> (#[trigger] consts_view(consts@)[j]).name != name@,
        decreases consts@.len() - i,
    {
        let cn = crate::value::str_to_chars(consts[i].name.as_str());
        if crate::template::chars_eq(&cn, name) {
            proof {
                lemma_find_const_at(consts_view(consts@), name@, i as int);
            }
            return Some(&consts[i]);
        }
        i = i + 1;
    }
    proof {
        lemma_find_const_none(consts_view(consts@), name@);
    }
    None
}

/// Looks the named step argument up, first match wins.
pub(crate) fn find_arg_exec<'a>(args: &'a Vec<StepArg>, name: &Vec<char>) -> (r: Option<
    &'a StepArg,
>)
    ensures
        match r {
            Option::Some(a) => find_arg(args_view(args@), name@) == Option::Some(a@),
            Option::None => find_arg(args_view(args@), name@) is None,
        },
{
    let mut i: usize = 0;
    while i < args.len()
        invariant
            i <= args@.len(),
            forall|j: int| 0 <= j < i ==> (#[trigger] args_view(args@)[j]).name != name@,
        decreases args@.len() - i,
    {
        let an = crate::value::str_to_chars(args[i].name.as_str());
        if crate::template::chars_eq(&an, name) {
            proof {
                lemma_find_arg_at(args_view(args@), name@, i as int);
            }
            return Some(&args[i]);
        }
        i = i + 1;
    }
    proof {
        lemma_find_arg_none(args_view(args@), name@);
    }
    None
}

/// Evaluates a binding under the given constants.
pub fn eval_expr_exec(e: &ArgExpr, consts: &Vec<StoryConst>) -> (r: ValueData)
    ensures
        r@ == eval_expr(e@, consts_view(consts@)),
{
    match e {
        ArgExpr::Lit(v) => duplicate(v),
        ArgExpr::ConstRef(n) => {
            let nc = crate::value::str_to_chars(n.as_str());
            match find_const_exec(consts, &nc) {
                Option::Some(c) => duplicate(&c.value),
                Option::None => ValueData::Unit,
            }
        },
    }
}

/// Resolves a placeholder name to its value: a step-local argument wins
/// over a story constant.
pub(crate) fn resolve_exec(args: &Vec<StepArg>, consts: &Vec<StoryConst>, name: &Vec<char>) -> (r:
    Option<ValueData>)
    ensures
        match r {
            Option::Some(v) => resolve_value(args_view(args@), consts_view(consts@), name@)
                == Option::Some(v@),
            Option::None => resolve_value(args_view(args@), consts_view(consts@), name@) is None,
        },
{
    match find_arg_exec(args, name) {
        Option::Some(a) => {
            let b = match &a.local {
                Option::Some(o) => o,
                Option::None => &a.default,
            };
            Some(eval_expr_exec(b, consts))
        },
        Option::None => match find_const_exec(consts, name) {
            Option::Some(c) => Some(duplicate(&c.value)),
            Option::None => None,
        },
    }
}

impl StepArgs {
    /// Wraps an ordered argument list.
    pub fn new(args: Vec<StepArg>) -> (r: Self)
        ensures
            r@ == args_view(args@),
    {
        StepArgs { args }
    }

    /// The arguments, in declaration order.
    pub fn iter(&self) -> (r: &Vec<StepArg>)
        ensures
            args_view(r@) == self@,
    {
        &self.args
    }
}

impl StepArg {
    /// Declares a step argument from its metadata and binding.
    pub fn new(
        name: String,
        ty: String,
        expr: String,
        default: ArgExpr,
        local: Option<ArgExpr>,
    ) -> (r: Self)
        ensures
            r == (StepArg { name, ty, expr, default, local }),
    {
        StepArg { name, ty, expr, default, local }
    }

    /// The declared name.
    pub fn name(&self) -> (r: &String)
        ensures
            r@ == self@.name,
    {
        &self.name
    }

    /// The declared type name.
    pub fn ty(&self) -> (r: &String)
        ensures
            r@ == self@.ty,
    {
        &self.ty
    }

    /// The textual source expression.
    pub fn expr(&self) -> (r: &String)
        ensures
            r@ == self@.expr,
    {
        &self.expr
    }

    /// The value of the argument under the given constants: the step-local
    /// override when present, otherwise the default binding. Evaluation is
    /// deferred to this call and repeatable: every call evaluates the same
    /// stored binding, so narration substitution and explicit retrieval
    /// agree.
    pub fn value(&self, consts: &Vec<StoryConst>) -> (r: BoxedValue)
        ensures
            r@ == arg_value_of(self@, consts_view(consts@)),
    {
        let b = match &self.local {
            Option::Some(o) => o,
            Option::None => &self.default,
        };
        BoxedValue::new(eval_expr_exec(b, consts))
    }
}

impl StoryConst {
    /// Declares a story constant from its metadata and value.
    pub fn new(name: String, ty: String, expr: String, value: ValueData) -> (r: Self)
        ensures
            r == (StoryConst { name, ty, expr, value }),
    {
        StoryConst { name, ty, expr, value }
    }

    /// The declared name.
    pub fn name(&self) -> (r: &String)
        ensures
            r@ == self@.name,
    {
        &self.name
    }

    /// The declared type name.
    pub fn ty(&self) -> (r: &String)
        ensures
            r@ == self@.ty,
    {
        &self.ty
    }

    /// The textual source expression.
    pub fn expr(&self) -> (r: &String)
        ensures
            r@ == self@.expr,
    {
        &self.expr
    }

    /// The value of the constant.
    pub fn value(&self) -> (r: BoxedValue)
        ensures
            r@ == self@.value,
    {
        BoxedValue::new(duplicate(&self.value))
    }
}

impl Step {
    /// Declares a step from its id, narration template, arguments, and
    /// optional nested story.
    pub fn new(id: String, text: String, args: StepArgs, nested: Option<Box<StoryContext>>) -> (r:
        Self)
        ensures
            r == (Step { id, text, args, nested }),
    {
        Step { id, text, args, nested }
    }

    /// The id of the step: unique within its story.
    pub fn step_id(&self) -> (r: &String)
        ensures
            r@ == self@.id,
    {
        &self.id
    }

    /// The arguments of the step.
    pub fn args(&self) -> (r: &StepArgs)
        ensures
            r@ == self@.args,
    {
        &self.args
    }

    /// The nested story this step delegates to, if any.
    pub fn nested_story(&self) -> (r: Option<&StoryContext>)
        ensures
            match r {
                Option::Some(n) => self@.nested == Option::Some(Box::new(n@)),
                Option::None => self@.nested is None,
            },
    {
        match &self.nested {
            Option::Some(b) => Some(&**b),
            Option::None => None,
        }
    }
}

impl Step {
    /// Renders the narration text of the step under its story's constants.
    pub fn step_text(&self, consts: &Vec<StoryConst>) -> (r: String)
        requires
            template::text_wf(self@.text, self@.args, consts_view(consts@)),
        ensures
            r@ == template::render_text(self@.text, self@.args, consts_view(consts@)),
    {
        let t = crate::value::str_to_chars(self.text.as_str());
        let chars = template::render_chars(&t, &self.args.args, consts);
        crate::value::chars_to_string(&chars)
    }
}

/// Decides whether a binding resolves under the given constants.
pub fn check_expr(e: &ArgExpr, consts: &Vec<StoryConst>) -> (b: bool)
    ensures
        b == expr_wf(e@, consts_view(consts@)),
{
    match e {
        ArgExpr::Lit(_) => true,
        ArgExpr::ConstRef(n) => {
            let nc = crate::value::str_to_chars(n.as_str());
            find_const_exec(consts, &nc).is_some()
        },
    }
}

/// Decides whether an argument's bindings resolve under the given
/// constants.
pub fn check_arg(a: &StepArg, consts: &Vec<StoryConst>) -> (b: bool)
    ensures
        b == arg_wf(a@, consts_view(consts@)),
{
    if !check_expr(&a.default, consts) {
        return false;
    }
    match &a.local {
        Option::Some(o) => check_expr(o, consts),
        Option::None => true,
    }
}

/// Decides whether a step is well-formed under the given constants.
pub fn check_step(s: &Step, consts: &Vec<StoryConst>) -> (b: bool)
    ensures
        b == step_wf(s@, consts_view(consts@)),
    decreases *s,
{
    let ghost cv = consts_view(consts@);
    let mut i: usize = 0;
    while i < s.args.args.len()
        invariant
            i <= s.args.args@.len(),
            cv == consts_view(consts@),
            forall|j: int| 0 <= j < i ==> arg_wf(#[trigger] args_view(s.args.args@)[j], cv),
        decreases s.args.args@.len() - i,
    {
        if !check_arg(&s.args.args[i], consts) {
            proof {
                assert(args_view(s.args.args@)[i as int] == s.args.args@[i as int]@);
                assert(!step_wf(s@, cv));
            }
            return false;
        }
        i = i + 1;
    }
    let t = crate::value::str_to_chars(s.text.as_str());
    if !template::check_chars(&t, &s.args.args, consts) {
        return false;
    }
    match &s.nested {
        Option::Some(b) => {
            proof {
                assert(decreases_to!(*s => s.nested));
                assert(decreases_to!(s.nested => s.nested->0));
                assert(decreases_to!(*s => **b));
            }
            check_story(&**b)
        },
        Option::None => true,
    }
}

/// Decides whether a story catalog is well-formed: unique step ids, every
/// binding and narration placeholder resolvable, every nested story
/// well-formed in turn. A run is only owed on a catalog this accepts.
pub fn check_story(c: &StoryContext) -> (b: bool)
    ensures
        b == story_wf(c@),
    decreases *c,
{
    let ghost sv = steps_view(c.steps@);
    let ghost cv = consts_view(c.consts@);
    proof {
        lemma_steps_view(c.steps@);
    }
    let n = c.steps.len();
    let mut i: usize = 0;
    while i < n
        invariant
            i <= n,
            n == c.steps@.len(),
            sv == steps_view(c.steps@),
            sv.len() == n,
            forall|p: int| 0 <= p < c.steps@.len() ==> sv[p] == step_view(#[trigger] c.steps@[p]),
            forall|a: int, b0: int| 0 <= a < b0 < n && a < i ==> (#[trigger] sv[a]).id != (
            #[trigger] sv[b0]).id,
        decreases n - i,
    {
        let mut j: usize = i + 1;
        while j < n
            invariant
                i < j <= n,
                n == c.steps@.len(),
                sv == steps_view(c.steps@),
                sv.len() == n,
                forall|p: int| 0 <= p < c.steps@.len() ==> sv[p] == step_view(
                    #[trigger] c.steps@[p],
                ),
                forall|b0: int| i < b0 < j ==> sv[i as int].id != (#[trigger] sv[b0]).id,
            decreases n - j,
        {
            if c.steps[i].id == c.steps[j].id {
                proof {
                    assert(sv[i as int].id == sv[j as int].id);
                    assert(!unique_step_ids(sv));
                }
                return false;
            }
            j = j + 1;
        }
        i = i + 1;
    }
    assert(unique_step_ids(sv));
    let mut i: usize = 0;
    while i < n
        invariant
            i <= n,
            n == c.steps@.len(),
            sv == steps_view(c.steps@),
            cv == consts_view(c.consts@),
            sv.len() == n,
            forall|p: int| 0 <= p < c.steps@.len() ==> sv[p] == step_view(#[trigger] c.steps@[p]),
            forall|p: int| 0 <= p < i ==> step_wf(#[trigger] sv[p], cv),
        decreases n - i,
    {
        proof {
            broadcast use vstd::std_specs::vec::axiom_vec_index_decreases;

            assert(decreases_to!(*c => c.steps));
            assert(decreases_to!(c.steps => c.steps@[i as int]));
            assert(decreases_to!(*c => c.steps@[i as int]));
        }
        if !check_step(&c.steps[i], &c.consts) {
            proof {
                lemma_steps_wf_iff(sv, cv);
            }
            return false;
        }
        i = i + 1;
    }
    proof {
        lemma_steps_wf_iff(sv, cv);
    }
    true
}

impl StoryContext {
    /// Builds a story catalog from its parts; whether the result is
    /// well-formed is checked separately.
    pub fn new(title: String, id: String, consts: Vec<StoryConst>, steps: Vec<Step>) -> (r: Self)
        ensures
            r == (StoryContext { title, id, consts, steps }),
    {
        StoryContext { title, id, consts, steps }
    }

    /// The title of the story.
    pub fn story_title(&self) -> (r: String)
        ensures
            r@ == self@.title,
    {
        self.title.clone()
    }

    /// The stable identifier of the story.
    pub fn story_id(&self) -> (r: &String)
        ensures
            r@ == self@.id,
    {
        &self.id
    }

    /// The constants of the story, in declaration order.
    pub fn consts(&self) -> (r: &Vec<StoryConst>)
        ensures
            consts_view(r@) == self@.consts,
    {
        &self.consts
    }

    /// The steps of the story, in declaration order.
    pub fn steps(&self) -> (r: &Vec<Step>)
        ensures
            steps_view(r@) == self@.steps,
    {
        &self.steps
    }
}

} // verus!
