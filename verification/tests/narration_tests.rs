use narrative::catalog::ArgExpr;
use narrative::catalog::Step;
use narrative::catalog::StepArg;
use narrative::catalog::StepArgs;
use narrative::catalog::StoryConst;
use narrative::catalog::StoryContext;
use narrative::catalog::check_story;
use narrative::environment::DummyEnvironment;
use narrative::runner::TestRunner;
use narrative::value::ValueData;

fn s(x: &str) -> String {
    x.to_string()
}

#[test]
fn test_constant_in_narration_text() {
    let story = StoryContext {
        title: s("User introduction"),
        id: s("UserIntroduction"),
        consts: vec![StoryConst {
            name: s("NAME"),
            ty: s("&str"),
            expr: s("\"Ryo\""),
            value: ValueData::Text(s("Ryo")),
        }],
        steps: vec![Step {
            id: s("introduce"),
            text: s("Hi, I'm a user: {NAME}"),
            args: StepArgs { args: Vec::new() },
            nested: None,
        }],
    };
    assert!(check_story(&story));
    assert_eq!(story.steps()[0].step_text(story.consts()), "Hi, I'm a user: Ryo");
}

#[test]
fn test_debug_placeholder_in_narration_text() {
    let story = StoryContext {
        title: s("Debugged"),
        id: s("Debugged"),
        consts: vec![StoryConst {
            name: s("NAME"),
            ty: s("&str"),
            expr: s("\"ryo\""),
            value: ValueData::Text(s("ryo")),
        }],
        steps: vec![Step {
            id: s("show"),
            text: s("Step 1: {NAME:?}"),
            args: StepArgs { args: Vec::new() },
            nested: None,
        }],
    };
    assert!(check_story(&story));
    assert_eq!(story.steps()[0].step_text(story.consts()), r#"Step 1: "ryo""#);
}

#[test]
fn test_override_wins_over_expression() {
    let consts = vec![StoryConst {
        name: s("NAME"),
        ty: s("&str"),
        expr: s("\"original\""),
        value: ValueData::Text(s("original")),
    }];
    let unbound = StepArg {
        name: s("name"),
        ty: s("&str"),
        expr: s("NAME"),
        default: ArgExpr::ConstRef(s("NAME")),
        local: None,
    };
    assert_eq!(unbound.value(&consts).display_string(), "original");
    let overridden = StepArg {
        local: Some(ArgExpr::Lit(ValueData::Text(s("override")))),
        ..unbound
    };
    assert_eq!(overridden.value(&consts).display_string(), "override");
    let story = StoryContext {
        title: s("Override"),
        id: s("Override"),
        consts,
        steps: vec![Step {
            id: s("show"),
            text: s("Step 1: {name}"),
            args: StepArgs { args: vec![overridden] },
            nested: None,
        }],
    };
    assert!(check_story(&story));
    assert_eq!(story.steps()[0].step_text(story.consts()), "Step 1: override");
}

#[test]
fn test_placeholder_positions_and_identifier_characters() {
    let story = StoryContext {
        title: s("Edges"),
        id: s("Edges"),
        consts: vec![
            StoryConst {
                name: s("user_2"),
                ty: s("&str"),
                expr: s("\"bea\""),
                value: ValueData::Text(s("bea")),
            },
            StoryConst {
                name: s("N"),
                ty: s("i64"),
                expr: s("9"),
                value: ValueData::Int(9),
            },
        ],
        steps: vec![Step {
            id: s("edge"),
            text: s("{user_2} meets {N}"),
            args: StepArgs { args: Vec::new() },
            nested: None,
        }],
    };
    assert!(check_story(&story));
    assert_eq!(story.steps()[0].step_text(story.consts()), "bea meets 9");
}

#[test]
fn test_first_constant_of_a_name_wins() {
    let story = StoryContext {
        title: s("Shadow"),
        id: s("Shadow"),
        consts: vec![
            StoryConst {
                name: s("NAME"),
                ty: s("&str"),
                expr: s("\"first\""),
                value: ValueData::Text(s("first")),
            },
            StoryConst {
                name: s("NAME"),
                ty: s("&str"),
                expr: s("\"second\""),
                value: ValueData::Text(s("second")),
            },
        ],
        steps: vec![Step {
            id: s("show"),
            text: s("{NAME}"),
            args: StepArgs { args: Vec::new() },
            nested: None,
        }],
    };
    assert!(check_story(&story));
    assert_eq!(story.steps()[0].step_text(story.consts()), "first");
}

#[test]
fn test_complex_step_type() {
    let arg_value = ValueData::List(vec![
        ValueData::List(vec![ValueData::Text(s("a")), ValueData::Text(s("b"))]),
        ValueData::List(vec![
            ValueData::Text(s("c")),
            ValueData::Text(s("d")),
            ValueData::Text(s("e")),
        ]),
    ]);
    let story = StoryContext {
        title: s("Complex step type"),
        id: s("ComplexStepType"),
        consts: Vec::new(),
        steps: vec![Step {
            id: s("complex_step"),
            text: s("Complex step"),
            args: StepArgs {
                args: vec![StepArg {
                    name: s("arg"),
                    ty: s("&[&[&str]]"),
                    expr: s("&[&[\"a\", \"b\"], &[\"c\", \"d\", \"e\"]]"),
                    default: ArgExpr::Lit(arg_value),
                    local: None,
                }],
            },
            nested: None,
        }],
    };
    assert!(check_story(&story));
    let mut env: DummyEnvironment<String> = DummyEnvironment::new();
    let mut runner = TestRunner::new();
    story
        .run_story_with_runner(&mut env, &mut runner)
        .unwrap();
    assert_eq!(
        story.steps()[0].args.args[0].value(story.consts()).debug_string(),
        r#"[["a", "b"], ["c", "d", "e"]]"#
    );
}

#[test]
fn test_narration_document() {
    let story = StoryContext {
        title: s("Story Title"),
        id: s("StoryTitle"),
        consts: vec![StoryConst {
            name: s("NAME"),
            ty: s("&str"),
            expr: s("\"Ryo\""),
            value: ValueData::Text(s("Ryo")),
        }],
        steps: vec![
            Step {
                id: s("step1"),
                text: s("step1"),
                args: StepArgs { args: Vec::new() },
                nested: None,
            },
            Step {
                id: s("step2"),
                text: s("step2: {NAME}"),
                args: StepArgs {
                    args: vec![StepArg {
                        name: s("age"),
                        ty: s("u32"),
                        expr: s("20"),
                        default: ArgExpr::Lit(ValueData::Int(20)),
                        local: None,
                    }],
                },
                nested: None,
            },
        ],
    };
    assert!(check_story(&story));
    let narration = story.to_narration();
    assert_eq!(narration.story_title, "Story Title");
    assert_eq!(narration.story_ident, "StoryTitle");
    assert_eq!(narration.steps.len(), 2);
    assert_eq!(narration.steps[0].text, "step1");
    assert_eq!(narration.steps[0].step_ident, "step1");
    assert!(narration.steps[0].args.is_empty());
    assert_eq!(narration.steps[1].text, "step2: Ryo");
    assert_eq!(narration.steps[1].args[0].ident, "age");
    assert_eq!(narration.steps[1].args[0].ty, "u32");
    assert_eq!(narration.steps[1].args[0].value, "20");
}

#[test]
fn test_dyn_view_matches_typed_accessors() {
    let sub = StoryContext {
        title: s("Sub"),
        id: s("Sub"),
        consts: Vec::new(),
        steps: vec![Step {
            id: s("sub_step"),
            text: s("Sub step"),
            args: StepArgs { args: Vec::new() },
            nested: None,
        }],
    };
    let story = StoryContext {
        title: s("Main"),
        id: s("Main"),
        consts: vec![StoryConst {
            name: s("N"),
            ty: s("i64"),
            expr: s("3"),
            value: ValueData::Int(3),
        }],
        steps: vec![Step {
            id: s("delegate"),
            text: s("Delegate with {N}"),
            args: StepArgs { args: Vec::new() },
            nested: Some(Box::new(sub)),
        }],
    };
    assert!(check_story(&story));
    let dyn_story = story.to_dyn();
    assert_eq!(dyn_story.title, "Main");
    assert_eq!(dyn_story.id, "Main");
    assert_eq!(dyn_story.consts.len(), 1);
    assert_eq!(dyn_story.consts[0].name, "N");
    assert_eq!(dyn_story.consts[0].value.debug_string(), "3");
    assert_eq!(dyn_story.steps.len(), 1);
    assert_eq!(dyn_story.steps[0].id, "delegate");
    assert_eq!(dyn_story.steps[0].text, "Delegate with 3");
    let nested = dyn_story.steps[0].nested.as_ref().expect("nested view");
    assert_eq!(nested.id, "Sub");
    assert_eq!(nested.steps[0].text, "Sub step");
    assert!(nested.steps[0].nested.is_none());
}
