use vstd::prelude::*;

use super::{ProviderConfig, ProviderKind, Task, TaskProvider, TaskView};

verus! {

/// A task that Cargo offers for every Rust project.
pub open spec fn cargo_task(name: Seq<char>, command: Seq<char>) -> TaskView {
    TaskView {
        provider: ProviderKind::Cargo,
        task: name,
        exec_line: command,
        emoji: "\u{1F980}"@,
        emoji_text: "[rust]"@,
        sh: false,
        details: None,
    }
}

/// The tasks of a Rust project: build, run, test, clean and lint.
pub open spec fn cargo_defaults() -> Seq<TaskView> {
    seq![
        cargo_task("build"@, "cargo build"@),
        cargo_task("run"@, "cargo run"@),
        cargo_task("test"@, "cargo test"@),
        cargo_task("clean"@, "cargo clean"@),
        cargo_task("lint"@, "cargo clippy"@),
    ]
}

fn make_cargo_task(name: &str, command: &str) -> (t: Task)
    ensures
        t@ == cargo_task(name@, command@),
{
    Task {
        provider: ProviderKind::Cargo,
        task: name.to_owned(),
        exec_line: command.to_owned(),
        emoji: "\u{1F980}".to_owned(),
        emoji_text: "[rust]".to_owned(),
        sh: false,
        details: None,
    }
}

/// How Rust projects are read: no matchers, and the Cargo defaults.
pub fn cargo_config() -> (c: ProviderConfig)
    ensures
        c.matchers.is_none(),
        c.defaults.deep_view() == cargo_defaults(),
{
    let mut defaults: Vec<Task> = Vec::new();
    defaults.push(make_cargo_task("build", "cargo build"));
    defaults.push(make_cargo_task("run", "cargo run"));
    defaults.push(make_cargo_task("test", "cargo test"));
    defaults.push(make_cargo_task("clean", "cargo clean"));
    defaults.push(make_cargo_task("lint", "cargo clippy"));
    assert(defaults.deep_view() =~= cargo_defaults());
    ProviderConfig { matchers: None, defaults }
}

/// Offers the Cargo tasks in a Rust project.
#[derive(Debug, Default)]
pub struct Cargo {}

impl TaskProvider for Cargo {
    /// Whether the project has a `Cargo.toml`.
    type Source = bool;

    open spec fn provides(&self, source: &bool) -> Seq<TaskView> {
        if *source {
            cargo_defaults()
        } else {
            Seq::empty()
        }
    }

    fn parse(&self, source: &bool) -> (tasks: Vec<Task>) {
        if *source {
            cargo_config().defaults
        } else {
            Vec::new()
        }
    }
}

} // verus!
