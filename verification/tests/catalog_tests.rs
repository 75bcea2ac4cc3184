use narrative::catalog::ArgExpr;
use narrative::catalog::Step;
use narrative::catalog::StepArg;
use narrative::catalog::StepArgs;
use narrative::catalog::StoryConst;
use narrative::catalog::StoryContext;
use narrative::catalog::check_story;
use narrative::value::ValueData;

fn s(x: &str) -> String {
    x.to_string()
}

fn text_value(x: &str) -> ValueData {
    ValueData::Text(s(x))
}

fn plain_step(id: &str, text: &str) -> Step {
    Step {
        id: s(id),
        text: s(text),
        args: StepArgs { args: Vec::new() },
        nested: None,
    }
}

fn arg_lit(name: &str, ty: &str, expr: &str, v: ValueData) -> StepArg {
    StepArg {
        name: s(name),
        ty: s(ty),
        expr: s(expr),
        default: ArgExpr::Lit(v),
        local: None,
    }
}

fn arg_const(name: &str, ty: &str, expr: &str, const_name: &str) -> StepArg {
    StepArg {
        name: s(name),
        ty: s(ty),
        expr: s(expr),
        default: ArgExpr::ConstRef(s(const_name)),
        local: None,
    }
}

fn format_args_story() -> StoryContext {
    let consts = vec![
        StoryConst {
            name: s("NAME"),
            ty: s("&str"),
            expr: s("\"ryo\""),
            value: text_value("ryo"),
        },
        StoryConst {
            name: s("UNUSED"),
            ty: s("&str"),
            expr: s("\"unused\""),
            value: text_value("unused"),
        },
    ];
    let steps = vec![
        Step {
            id: s("variant_1"),
            text: s("Format args variants"),
            args: StepArgs {
                args: vec![arg_lit(
                    "text",
                    "String",
                    "format!(\"{}\", \"hello\")",
                    text_value("hello"),
                )],
            },
            nested: None,
        },
        Step {
            id: s("variant_2"),
            text: s("Format args variants"),
            args: StepArgs {
                args: vec![arg_const(
                    "text",
                    "String",
                    "format!(\"{UNUSED}\", UNUSED = NAME)",
                    "NAME",
                )],
            },
            nested: None,
        },
        Step {
            id: s("variant_3"),
            text: s("Format args variants"),
            args: StepArgs {
                args: vec![arg_const("text", "String", "format!(\"{NAME}\")", "NAME")],
            },
            nested: None,
        },
        Step {
            id: s("variant_4"),
            text: s("Format args variants"),
            args: StepArgs {
                args: vec![arg_const(
                    "text",
                    "String",
                    "format!(\"{NAME}\", NAME = NAME)",
                    "NAME",
                )],
            },
            nested: None,
        },
        Step {
            id: s("variant_5"),
            text: s("Format args variants {NAME}, {UNUSED}"),
            args: StepArgs {
                args: vec![StepArg {
                    name: s("UNUSED"),
                    ty: s("&str"),
                    expr: s("\"aa\""),
                    default: ArgExpr::ConstRef(s("UNUSED")),
                    local: Some(ArgExpr::Lit(text_value("aa"))),
                }],
            },
            nested: None,
        },
    ];
    StoryContext {
        title: s("Format args variants"),
        id: s("FormatArgsVariants"),
        consts,
        steps,
    }
}

#[test]
fn test_format_args_variants() {
    let story = format_args_story();
    assert!(check_story(&story));
    let steps = story.steps();
    assert_eq!(steps.len(), 5);
    assert_eq!(
        steps[0].args.args[0].value(&story.consts).debug_string(),
        r#""hello""#
    );
    assert_eq!(
        steps[1].args.args[0].value(&story.consts).debug_string(),
        r#""ryo""#
    );
    assert_eq!(
        steps[2].args.args[0].value(&story.consts).debug_string(),
        r#""ryo""#
    );
    assert_eq!(
        steps[3].args.args[0].value(&story.consts).debug_string(),
        r#""ryo""#
    );
    assert_eq!(
        steps[4].step_text(&story.consts),
        r#"Format args variants ryo, aa"#
    );
    assert_eq!(
        steps[4].args.args[0].value(&story.consts).debug_string(),
        r#""aa""#
    );
}

#[test]
fn test_sub_story_from_other_module() {
    let sub = StoryContext {
        title: s("Sub story from other module"),
        id: s("SubStory"),
        consts: Vec::new(),
        steps: vec![plain_step("sub_step_1", "Sub step 1")],
    };
    let main = StoryContext {
        title: s("Main story"),
        id: s("MainStory"),
        consts: Vec::new(),
        steps: vec![Step {
            id: s("main_step_1"),
            text: s("Run sub story"),
            args: StepArgs { args: Vec::new() },
            nested: Some(Box::new(sub)),
        }],
    };
    assert!(check_story(&main));
    let steps = main.steps();
    assert_eq!(steps.len(), 1);
    assert_eq!(steps[0].step_text(&main.consts), "Run sub story");
}

#[test]
fn test_used_pattern() {}

#[test]
fn test_not_used_pattern() {}

#[test]
fn test_accessors_are_deterministic() {
    let story = format_args_story();
    assert_eq!(story.steps(), story.steps());
    assert_eq!(story.consts(), story.consts());
    assert_eq!(story.story_title(), "Format args variants");
    assert_eq!(story.story_id(), "FormatArgsVariants");
    let ids: Vec<&String> = story.steps().iter().map(|st| st.step_id()).collect();
    assert_eq!(ids, ["variant_1", "variant_2", "variant_3", "variant_4", "variant_5"]);
}

#[test]
fn test_step_arg_metadata() {
    let story = format_args_story();
    let arg = &story.steps()[0].args().iter()[0];
    assert_eq!(arg.name(), "text");
    assert_eq!(arg.ty(), "String");
    assert_eq!(arg.expr(), "format!(\"{}\", \"hello\")");
}

#[test]
fn test_duplicate_step_ids_rejected() {
    let story = StoryContext {
        title: s("Twice"),
        id: s("Twice"),
        consts: Vec::new(),
        steps: vec![plain_step("one", "One"), plain_step("one", "One again")],
    };
    assert!(!check_story(&story));
}

#[test]
fn test_unresolved_placeholder_rejected() {
    let story = StoryContext {
        title: s("Bad"),
        id: s("Bad"),
        consts: Vec::new(),
        steps: vec![plain_step("greet", "Hello {name}")],
    };
    assert!(!check_story(&story));
}

#[test]
fn test_unknown_const_binding_rejected() {
    let story = StoryContext {
        title: s("Bad"),
        id: s("Bad"),
        consts: Vec::new(),
        steps: vec![Step {
            id: s("greet"),
            text: s("Hello"),
            args: StepArgs {
                args: vec![arg_const("who", "&str", "WHO", "WHO")],
            },
            nested: None,
        }],
    };
    assert!(!check_story(&story));
}

#[test]
fn test_bare_closing_brace_rejected() {
    let story = StoryContext {
        title: s("Bad"),
        id: s("Bad"),
        consts: Vec::new(),
        steps: vec![plain_step("greet", "Hello } there")],
    };
    assert!(!check_story(&story));
}

#[test]
fn test_nested_story_checked_recursively() {
    let bad_sub = StoryContext {
        title: s("Sub"),
        id: s("Sub"),
        consts: Vec::new(),
        steps: vec![plain_step("sub_step", "Oops {missing}")],
    };
    let main = StoryContext {
        title: s("Main"),
        id: s("Main"),
        consts: Vec::new(),
        steps: vec![Step {
            id: s("delegate"),
            text: s("Delegate"),
            args: StepArgs { args: Vec::new() },
            nested: Some(Box::new(bad_sub)),
        }],
    };
    assert!(!check_story(&main));
}
