use vstd::prelude::*;

use crate::style::{yellow, yellow_text};
use crate::tasks::{cmd_none, unassigned_name, Task, TaskView};
use crate::text::{concat, join_space, same_text};

verus! {

/// How task `t` is offered for selection: its icon, two spaces, its name in
/// brackets shown in yellow (nothing for an unassigned task), a space, and
/// its command line.
pub open spec fn selection_label(t: TaskView) -> Seq<char> {
    let tag = if t.task == unassigned_name() {
        Seq::empty()
    } else {
        yellow_text("["@ + t.task + "]"@)
    };
    t.emoji + "  "@ + tag + " "@ + t.exec_line
}

/// The label of `t`.
pub fn selection(t: &Task) -> (label: String)
    ensures
        label@ == selection_label(t@),
{
    let unassigned = cmd_none();
    let tag = if same_text(t.task.as_str(), unassigned.as_str()) {
        String::new()
    } else {
        let bracketed = concat(concat("[", t.task.as_str()).as_str(), "]");
        yellow(bracketed.as_str())
    };
    let head = concat(t.emoji.as_str(), "  ");
    let with_tag = concat(head.as_str(), tag.as_str());
    let label = join_space(with_tag.as_str(), t.exec_line.as_str());
    proof {
        reveal_strlit(" ");
    }
    assert(label@ =~= selection_label(t@));
    label
}

/// The labels of `tasks`, in order, as the selection prompt shows them.
pub fn selections(tasks: &[Task]) -> (labels: Vec<String>)
    ensures
        labels.deep_view() == tasks.deep_view().map_values(|t: TaskView| selection_label(t)),
{
    let ghost tv = tasks.deep_view();
    let mut labels: Vec<String> = Vec::new();
    for i in 0..tasks.len()
        invariant
            tv == tasks.deep_view(),
            labels.deep_view() =~= tv.take(i as int).map_values(|t: TaskView| selection_label(t)),
    {
        assert(tv[i as int] == tasks[i as int]@);
        let ghost before = labels.deep_view();
        labels.push(selection(&tasks[i]));
        assert(labels.deep_view() =~= before.push(selection_label(tv[i as int])));
    }
    assert(tv.take(tasks@.len() as int) == tv);
    labels
}

/// The task picked by the answer of the selection prompt: the task at the
/// chosen index; none when the prompt was skipped or the index is out of range.
pub fn chosen(tasks: &[Task], answer: Option<usize>) -> (r: Option<&Task>)
    ensures
        match answer {
            Some(i) => if i < tasks@.len() {
                r == Some(&tasks@[i as int])
            } else {
                r.is_none()
            },
            None => r.is_none(),
        },
{
    match answer {
        Some(i) => if i < tasks.len() {
            Some(&tasks[i])
        } else {
            None
        },
        None => None,
    }
}

} // verus!
