//! A story-driven scenario runtime: a story is an ordered, immutable
//! catalog of narration-bearing steps with typed arguments and constants;
//! a run walks the steps in declaration order against a caller-supplied
//! environment, recursing into nested stories, notifying a runner's
//! interception hooks, and aborting at the first failing step with that
//! step's id.
//!
//! - `value`: type-erased runtime values and their display/debug renderings.
//! - `catalog`: the story/step/argument/constant data model, its
//!   well-formedness, and the definition-time validator.
//! - `template`: the narration template engine (`{name}` and `{name:?}`).
//! - `environment`: the environment contract, a dummy environment, and a
//!   scripted environment.
//! - `runner`: the interception hooks, the default runner, and a recording
//!   runner.
//! - `run`: the execution engine and the hook-trace specifications.
//! - `dyn_view`, `narration`: the type-erased introspection snapshots.
//! - `laws`: properties of the runtime, proved over the same models the
//!   public contracts use.

pub mod catalog;
pub mod dyn_view;
pub mod environment;
pub mod laws;
pub mod narration;
pub mod run;
pub mod runner;
pub mod template;
pub mod value;
