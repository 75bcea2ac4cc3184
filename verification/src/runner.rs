//! The interception protocol: the engine notifies a runner around every
//! story, step and nested story it executes, so that a runner can log,
//! trace or record the walk. The runner's observations are modeled as a
//! growing sequence of events.

use vstd::prelude::*;

use crate::catalog::StoryContext;
use crate::catalog::story_wf;

verus! {

/// Spec-level model of one observed hook invocation.
#[verifier::ext_equal]
pub enum EventV {
    StartStory(Seq<char>),
    RunStep(Seq<char>),
    NestedStory(Seq<char>),
    EndStory(Seq<char>),
}

/// One observed hook invocation, carrying the id of the story or step it
/// concerns.
#[derive(Clone, Debug, PartialEq, Eq)]
pub enum RunEvent {
    StartStory(String),
    RunStep(String),
    NestedStory(String),
    EndStory(String),
}

impl View for RunEvent {
    type V = EventV;

    open spec fn view(&self) -> EventV {
        match *self {
            RunEvent::StartStory(ref s) => EventV::StartStory(s@),
            RunEvent::RunStep(ref s) => EventV::RunStep(s@),
            RunEvent::NestedStory(ref s) => EventV::NestedStory(s@),
            RunEvent::EndStory(ref s) => EventV::EndStory(s@),
        }
    }
}

/// A runner mediates execution: the engine calls `start_story` when a
/// story (root or nested) begins, `run_step` before each step in
/// declaration order, `run_nested_story` when a step delegates to a
/// nested story, and `end_story` when a story's steps are exhausted.
/// Each hook observes exactly one new event.
pub trait StoryRunner: Sized {
    /// The events this runner has observed, oldest first.
    spec fn events(&self) -> Seq<EventV>;

    /// Called exactly once before the first step of a story runs.
    fn start_story(&mut self, story: &StoryContext)
        requires
            story_wf(story@),
        ensures
            final(self).events() == old(self).events().push(EventV::StartStory(story@.id)),
    ;

    /// Called exactly once per step, in declaration order, before the
    /// step runs against the environment.
    fn run_step(&mut self, story: &StoryContext, i: usize)
        requires
            story_wf(story@),
            i < story@.steps.len(),
        ensures
            final(self).events() == old(self).events().push(
                EventV::RunStep(story@.steps[i as int].id),
            ),
    ;

    /// Called exactly once per nested-story-bearing step, after the
    /// step's environment method produced the nested environment and
    /// before the nested story starts.
    fn run_nested_story(&mut self, story: &StoryContext, i: usize, nested: &StoryContext)
        requires
            story_wf(story@),
            story_wf(nested@),
            i < story@.steps.len(),
        ensures
            final(self).events() == old(self).events().push(EventV::NestedStory(nested@.id)),
    ;

    /// Called exactly once when a story's steps have all completed.
    fn end_story(&mut self, story: &StoryContext)
        requires
            story_wf(story@),
        ensures
            final(self).events() == old(self).events().push(EventV::EndStory(story@.id)),
    ;
}

/// The default runner: it adds no behavior of its own.
pub struct DefaultStoryRunner {
    observed: Ghost<Seq<EventV>>,
}

impl DefaultStoryRunner {
    /// A fresh default runner that has observed nothing.
    pub fn new() -> (r: Self)
        ensures
            r.events() == Seq::<EventV>::empty(),
    {
        DefaultStoryRunner { observed: Ghost(Seq::empty()) }
    }
}

impl StoryRunner for DefaultStoryRunner {
    closed spec fn events(&self) -> Seq<EventV> {
        self.observed@
    }

    fn start_story(&mut self, story: &StoryContext) {
        proof {
            self.observed@ = self.observed@.push(EventV::StartStory(story@.id));
        }
    }

    fn run_step(&mut self, story: &StoryContext, i: usize) {
        proof {
            self.observed@ = self.observed@.push(EventV::RunStep(story@.steps[i as int].id));
        }
    }

    fn run_nested_story(&mut self, story: &StoryContext, i: usize, nested: &StoryContext) {
        proof {
            self.observed@ = self.observed@.push(EventV::NestedStory(nested@.id));
        }
    }

    fn end_story(&mut self, story: &StoryContext) {
        proof {
            self.observed@ = self.observed@.push(EventV::EndStory(story@.id));
        }
    }
}

/// A recording runner: it keeps every observed event in order, so a test
/// can check the exact hook sequence of a run.
pub struct TestRunner {
    log: Vec<RunEvent>,
}

pub open spec fn events_of(log: Seq<RunEvent>) -> Seq<EventV> {
    log.map_values(|e: RunEvent| e@)
}

impl TestRunner {
    /// A fresh recording runner with an empty log.
    pub fn new() -> (r: Self)
        ensures
            r.events() == Seq::<EventV>::empty(),
    {
        let r = TestRunner { log: Vec::new() };
        proof {
            assert(events_of(r.log@) =~= Seq::<EventV>::empty());
        }
        r
    }

    /// The recorded events, oldest first.
    pub fn log(&self) -> (r: &Vec<RunEvent>)
        ensures
            events_of(r@) == self.events(),
    {
        &self.log
    }
}

impl StoryRunner for TestRunner {
    closed spec fn events(&self) -> Seq<EventV> {
        events_of(self.log@)
    }

    fn start_story(&mut self, story: &StoryContext) {
        let ghost pre = self.log@;
        self.log.push(RunEvent::StartStory(story.id.clone()));
        proof {
            assert(events_of(self.log@) =~= events_of(pre).push(EventV::StartStory(story@.id)));
        }
    }

    fn run_step(&mut self, story: &StoryContext, i: usize) {
        proof {
            crate::catalog::lemma_steps_view(story.steps@);
        }
        let ghost pre = self.log@;
        self.log.push(RunEvent::RunStep(story.steps[i].id.clone()));
        proof {
            assert(events_of(self.log@) =~= events_of(pre).push(
                EventV::RunStep(story@.steps[i as int].id),
            ));
        }
    }

    fn run_nested_story(&mut self, story: &StoryContext, i: usize, nested: &StoryContext) {
        let ghost pre = self.log@;
        self.log.push(RunEvent::NestedStory(nested.id.clone()));
        proof {
            assert(events_of(self.log@) =~= events_of(pre).push(EventV::NestedStory(nested@.id)));
        }
    }

    fn end_story(&mut self, story: &StoryContext) {
        let ghost pre = self.log@;
        self.log.push(RunEvent::EndStory(story.id.clone()));
        proof {
            assert(events_of(self.log@) =~= events_of(pre).push(EventV::EndStory(story@.id)));
        }
    }
}

} // verus!
