use vstd::prelude::*;

use super::{copy_opt_text, MMFile, ProviderKind, Task, TaskProvider, TaskView};

verus! {

/// The icon of a local task that names none.
pub open spec fn local_emoji() -> Seq<char> {
    "\u{1F579} "@
}

/// The label of a local task that names none.
pub open spec fn local_label() -> Seq<char> {
    "[task]"@
}

/// The task declared under `name` in a local task file, with the default icon
/// and label where it leaves them empty.
pub open spec fn local_task(name: Seq<char>, t: TaskView) -> TaskView {
    TaskView {
        provider: ProviderKind::Local,
        task: name,
        exec_line: t.exec_line,
        emoji: if t.emoji.len() == 0 {
            local_emoji()
        } else {
            t.emoji
        },
        emoji_text: if t.emoji_text.len() == 0 {
            local_label()
        } else {
            t.emoji_text
        },
        sh: t.sh,
        details: t.details,
    }
}

/// The tasks of a local task file, in the order of their names.
pub open spec fn local_tasks(file: Seq<(Seq<char>, TaskView)>) -> Seq<TaskView> {
    file.map_values(|e: (Seq<char>, TaskView)| local_task(e.0, e.1))
}

/// The task declared under `name`.
pub fn declared_task(name: &String, t: &Task) -> (r: Task)
    ensures
        r@ == local_task(name@, t@),
{
    Task {
        provider: ProviderKind::Local,
        task: name.clone(),
        exec_line: t.exec_line.clone(),
        emoji: if t.emoji.as_str().is_empty() {
            "\u{1F579} ".to_owned()
        } else {
            t.emoji.clone()
        },
        emoji_text: if t.emoji_text.as_str().is_empty() {
            "[task]".to_owned()
        } else {
            t.emoji_text.clone()
        },
        sh: t.sh,
        details: copy_opt_text(&t.details),
    }
}

/// Offers the tasks that the project declares itself.
#[derive(Debug, Default)]
pub struct Local {}

impl TaskProvider for Local {
    /// The project's local task file, if it has one.
    type Source = Option<MMFile>;

    open spec fn provides(&self, source: &Option<MMFile>) -> Seq<TaskView> {
        match source {
            Some(f) => local_tasks(f.tasks.entries()),
            None => Seq::empty(),
        }
    }

    fn parse(&self, source: &Option<MMFile>) -> (tasks: Vec<Task>) {
        let file = match source {
            Some(f) => f,
            None => {
                return Vec::new();
            },
        };
        let ghost fv = file.tasks.entries();
        let count = file.tasks.len();
        let mut tasks: Vec<Task> = Vec::new();
        for k in 0..count
            invariant
                count == fv.len(),
                fv == file.tasks.entries(),
                tasks.deep_view() =~= local_tasks(fv).take(k as int),
        {
            let name = file.tasks.key_at(k);
            let t = file.tasks.value_at(k);
            let ghost before = tasks.deep_view();
            tasks.push(declared_task(name, t));
            assert(tasks.deep_view() =~= before.push(local_tasks(fv)[k as int]));
        }
        assert(local_tasks(fv).take(fv.len() as int) == local_tasks(fv));
        tasks
    }
}

} // verus!
