use narrative::catalog::Step;
use narrative::catalog::StepArgs;
use narrative::catalog::StoryContext;
use narrative::catalog::check_story;
use narrative::environment::DummyEnvironment;
use narrative::environment::ScriptEnvironment;
use narrative::environment::ScriptRule;
use narrative::environment::StepAction;
use narrative::runner::RunEvent;
use narrative::runner::TestRunner;

fn s(x: &str) -> String {
    x.to_string()
}

fn plain_step(id: &str, text: &str) -> Step {
    Step {
        id: s(id),
        text: s(text),
        args: StepArgs { args: Vec::new() },
        nested: None,
    }
}

fn nested_step(id: &str, text: &str, sub: StoryContext) -> Step {
    Step {
        id: s(id),
        text: s(text),
        args: StepArgs { args: Vec::new() },
        nested: Some(Box::new(sub)),
    }
}

fn flat_story(id: &str, title: &str, steps: Vec<Step>) -> StoryContext {
    StoryContext {
        title: s(title),
        id: s(id),
        consts: Vec::new(),
        steps,
    }
}

fn append_rule(step_id: &str, text: &str) -> ScriptRule {
    ScriptRule {
        step_id: s(step_id),
        action: StepAction::Append(s(text)),
    }
}

fn fail_rule(step_id: &str, message: &str) -> ScriptRule {
    ScriptRule {
        step_id: s(step_id),
        action: StepAction::Fail(s(message)),
    }
}

#[test]
fn test_hello_world_buffer() {
    let story = flat_story(
        "HelloWorld",
        "Say hello world",
        vec![plain_step("say_hello", "Say hello"), plain_step("say_world", "Say world")],
    );
    assert!(check_story(&story));
    let mut env = ScriptEnvironment::new(vec![
        append_rule("say_hello", "Hello, "),
        append_rule("say_world", "World!"),
    ]);
    let result = story.run_story(&mut env);
    assert!(result.is_ok());
    assert_eq!(env.buffer(), "Hello, World!");
    assert_eq!(env.executed(), &[s("say_hello"), s("say_world")]);
}

#[test]
fn test_successful_run_hook_sequence() {
    let story = flat_story(
        "HelloWorld",
        "Say hello world",
        vec![plain_step("say_hello", "Say hello"), plain_step("say_world", "Say world")],
    );
    assert!(check_story(&story));
    let mut env: DummyEnvironment<String> = DummyEnvironment::new();
    let mut runner = TestRunner::new();
    let result = story.run_story_with_runner(&mut env, &mut runner);
    assert!(result.is_ok());
    assert_eq!(
        runner.log(),
        &vec![
            RunEvent::StartStory(s("HelloWorld")),
            RunEvent::RunStep(s("say_hello")),
            RunEvent::RunStep(s("say_world")),
            RunEvent::EndStory(s("HelloWorld")),
        ]
    );
}

#[test]
fn test_failing_step_aborts_walk() {
    let story = flat_story(
        "Three",
        "Three steps",
        vec![
            plain_step("step1", "Step 1"),
            plain_step("step2", "Step 2"),
            plain_step("step3", "Step 3"),
        ],
    );
    assert!(check_story(&story));
    let mut env = ScriptEnvironment::new(vec![
        append_rule("step1", "1"),
        fail_rule("step2", "boom"),
        append_rule("step3", "3"),
    ]);
    let mut runner = TestRunner::new();
    let result = story.run_story_with_runner(&mut env, &mut runner);
    let err = result.err().expect("the run must fail at step2");
    assert_eq!(err.step_id, "step2");
    assert_eq!(err.error, "boom");
    assert_eq!(env.executed(), &[s("step1"), s("step2")]);
    assert_eq!(env.buffer(), "1");
    assert_eq!(
        runner.log(),
        &vec![
            RunEvent::StartStory(s("Three")),
            RunEvent::RunStep(s("step1")),
            RunEvent::RunStep(s("step2")),
        ]
    );
}

#[test]
fn test_nested_story_hook_sequence() {
    let sub = flat_story(
        "Sub",
        "Sub story",
        vec![plain_step("sub_1", "Sub 1"), plain_step("sub_2", "Sub 2")],
    );
    let story = flat_story(
        "Main",
        "Main story",
        vec![
            plain_step("before", "Before"),
            nested_step("delegate", "Delegate", sub),
            plain_step("after", "After"),
        ],
    );
    assert!(check_story(&story));
    let mut env: DummyEnvironment<String> = DummyEnvironment::new();
    let mut runner = TestRunner::new();
    let result = story.run_story_with_runner(&mut env, &mut runner);
    assert!(result.is_ok());
    assert_eq!(
        runner.log(),
        &vec![
            RunEvent::StartStory(s("Main")),
            RunEvent::RunStep(s("before")),
            RunEvent::RunStep(s("delegate")),
            RunEvent::NestedStory(s("Sub")),
            RunEvent::StartStory(s("Sub")),
            RunEvent::RunStep(s("sub_1")),
            RunEvent::RunStep(s("sub_2")),
            RunEvent::EndStory(s("Sub")),
            RunEvent::RunStep(s("after")),
            RunEvent::EndStory(s("Main")),
        ]
    );
}

#[test]
fn test_two_nested_stories_interleaved_log() {
    let first = flat_story("First", "First nested", vec![plain_step("first_1", "First 1")]);
    let second = flat_story(
        "Second",
        "Second nested",
        vec![plain_step("second_1", "Second 1"), plain_step("second_2", "Second 2")],
    );
    let story = flat_story(
        "Main",
        "Main story",
        vec![
            nested_step("run_first", "Run first", first),
            nested_step("run_second", "Run second", second),
        ],
    );
    assert!(check_story(&story));
    let mut env: DummyEnvironment<String> = DummyEnvironment::new();
    let mut runner = TestRunner::new();
    let result = story.run_story_with_runner(&mut env, &mut runner);
    assert!(result.is_ok());
    let log = runner.log();
    assert_eq!(
        log,
        &vec![
            RunEvent::StartStory(s("Main")),
            RunEvent::RunStep(s("run_first")),
            RunEvent::NestedStory(s("First")),
            RunEvent::StartStory(s("First")),
            RunEvent::RunStep(s("first_1")),
            RunEvent::EndStory(s("First")),
            RunEvent::RunStep(s("run_second")),
            RunEvent::NestedStory(s("Second")),
            RunEvent::StartStory(s("Second")),
            RunEvent::RunStep(s("second_1")),
            RunEvent::RunStep(s("second_2")),
            RunEvent::EndStory(s("Second")),
            RunEvent::EndStory(s("Main")),
        ]
    );
    let first_parent = log
        .iter()
        .position(|e| *e == RunEvent::RunStep(s("run_first")))
        .unwrap();
    let first_nested = log
        .iter()
        .position(|e| *e == RunEvent::StartStory(s("First")))
        .unwrap();
    assert!(first_parent < first_nested);
    let second_parent = log
        .iter()
        .position(|e| *e == RunEvent::RunStep(s("run_second")))
        .unwrap();
    let second_nested = log
        .iter()
        .position(|e| *e == RunEvent::StartStory(s("Second")))
        .unwrap();
    assert!(second_parent < second_nested);
}

#[test]
fn test_failure_inside_nested_story() {
    let sub = flat_story(
        "Sub",
        "Sub story",
        vec![plain_step("sub_1", "Sub 1"), plain_step("sub_2", "Sub 2")],
    );
    let story = flat_story(
        "Main",
        "Main story",
        vec![nested_step("delegate", "Delegate", sub), plain_step("after", "After")],
    );
    assert!(check_story(&story));
    let mut env = ScriptEnvironment::new(vec![fail_rule("sub_2", "nested boom")]);
    let mut runner = TestRunner::new();
    let result = story.run_story_with_runner(&mut env, &mut runner);
    let err = result.err().expect("the nested run must fail");
    assert_eq!(err.step_id, "sub_2");
    assert_eq!(err.error, "nested boom");
    assert_eq!(
        runner.log(),
        &vec![
            RunEvent::StartStory(s("Main")),
            RunEvent::RunStep(s("delegate")),
            RunEvent::NestedStory(s("Sub")),
            RunEvent::StartStory(s("Sub")),
            RunEvent::RunStep(s("sub_1")),
            RunEvent::RunStep(s("sub_2")),
        ]
    );
}

#[test]
fn test_empty_story_runs_and_only_starts_and_ends() {
    let story = flat_story("Empty", "Empty story", Vec::new());
    assert!(check_story(&story));
    let mut env = ScriptEnvironment::new(Vec::new());
    let mut runner = TestRunner::new();
    let result = story.run_story_with_runner(&mut env, &mut runner);
    assert!(result.is_ok());
    assert!(env.executed().is_empty());
    assert_eq!(
        runner.log(),
        &vec![RunEvent::StartStory(s("Empty")), RunEvent::EndStory(s("Empty"))]
    );
}

#[test]
fn test_failing_nested_environment_is_tagged_with_parent_step() {
    let sub = flat_story("Sub", "Sub story", vec![plain_step("sub_1", "Sub 1")]);
    let story = flat_story(
        "Main",
        "Main story",
        vec![nested_step("delegate", "Delegate", sub)],
    );
    assert!(check_story(&story));
    let mut env = ScriptEnvironment::new(vec![fail_rule("delegate", "no nested env")]);
    let mut runner = TestRunner::new();
    let result = story.run_story_with_runner(&mut env, &mut runner);
    let err = result.err().expect("producing the nested environment must fail");
    assert_eq!(err.step_id, "delegate");
    assert_eq!(err.error, "no nested env");
    assert_eq!(env.executed(), &[s("delegate")]);
    assert_eq!(
        runner.log(),
        &vec![RunEvent::StartStory(s("Main")), RunEvent::RunStep(s("delegate"))]
    );
}

#[test]
fn test_success_events_match_observed_run() {
    let sub = flat_story("Sub", "Sub story", vec![plain_step("sub_1", "Sub 1")]);
    let story = flat_story(
        "Main",
        "Main story",
        vec![plain_step("before", "Before"), nested_step("delegate", "Delegate", sub)],
    );
    assert!(check_story(&story));
    let plan = story.success_events();
    let mut env: DummyEnvironment<String> = DummyEnvironment::new();
    let mut runner = TestRunner::new();
    story.run_story_with_runner(&mut env, &mut runner).unwrap();
    assert_eq!(runner.log(), &plan);
}

#[test]
fn test_dummy_environment_description() {
    let env: DummyEnvironment<String> = DummyEnvironment::new();
    assert_eq!(env.describe(), "DummyEnvironment");
}

#[test]
fn test_step_without_rule_does_nothing() {
    let story = flat_story("Quiet", "Quiet story", vec![plain_step("quiet", "Quiet")]);
    assert!(check_story(&story));
    let mut env = ScriptEnvironment::new(Vec::new());
    let result = story.run_story(&mut env);
    assert!(result.is_ok());
    assert_eq!(env.buffer(), "");
    assert_eq!(env.executed(), &[s("quiet")]);
}
