use vstd::prelude::*;

use crate::shortcuts::{lookup, opt_name, FolderView, LinkView, ShortcutsConfig};
use crate::tasks::{Task, TaskView};
use crate::text::concat;

verus! {

/// What to do with the command, link or folder that was found.
#[derive(Debug, Clone, Copy, PartialEq, Eq, Structural)]
pub enum Delivery {
    /// Copy its text to the clipboard.
    Copy,
    /// Print its text, for the shell to use.
    Print,
    /// Run the task, open the link, or show how to enter the folder.
    Perform,
}

/// The delivery that the command line flags ask for: copying wins over printing.
pub fn delivery(copy: bool, string: bool) -> (d: Delivery)
    ensures
        d == (if copy {
            Delivery::Copy
        } else if string {
            Delivery::Print
        } else {
            Delivery::Perform
        }),
{
    if copy {
        Delivery::Copy
    } else if string {
        Delivery::Print
    } else {
        Delivery::Perform
    }
}

/// Whether the user has to pick among the resolved tasks: only when there is
/// more than one; a single task runs without asking.
pub fn needs_choice(resolved: &[Task]) -> (r: bool)
    ensures
        r == (resolved@.len() > 1),
{
    resolved.len() > 1
}

/// What the tool does in the end.
#[derive(Debug)]
pub enum Action {
    /// Copy the text to the clipboard.
    CopyText(String),
    /// Print the text as it is, with no line break.
    PrintText(String),
    /// Run the task.
    RunTask(Task),
    /// Open the URL in the browser.
    OpenLink(String),
    /// Report that the input names nothing.
    Unknown(String),
    /// Nothing was asked for and nothing was found.
    Nothing,
}

/// The value an action stands for.
pub enum ActionView {
    CopyText(Seq<char>),
    PrintText(Seq<char>),
    RunTask(TaskView),
    OpenLink(Seq<char>),
    Unknown(Seq<char>),
    Nothing,
}

impl DeepView for Action {
    type V = ActionView;

    open spec fn deep_view(&self) -> ActionView {
        match self {
            Action::CopyText(s) => ActionView::CopyText(s@),
            Action::PrintText(s) => ActionView::PrintText(s@),
            Action::RunTask(t) => ActionView::RunTask(t@),
            Action::OpenLink(s) => ActionView::OpenLink(s@),
            Action::Unknown(s) => ActionView::Unknown(s@),
            Action::Nothing => ActionView::Nothing,
        }
    }
}

/// The action for a found text that is delivered by copying or printing; `None`
/// when it is to be performed.
pub open spec fn delivered(d: Delivery, text: Seq<char>) -> Option<ActionView> {
    match d {
        Delivery::Copy => Some(ActionView::CopyText(text)),
        Delivery::Print => Some(ActionView::PrintText(text)),
        Delivery::Perform => None,
    }
}

/// What to do: with a task, deliver its command line or run it; else with a
/// link of the input's name, deliver its URL or open it; else with a folder of
/// that name, deliver its path or print `cd` and the path; else report an input
/// that names nothing; else do nothing.
pub open spec fn action_for(
    d: Delivery,
    task: Option<TaskView>,
    link: Option<LinkView>,
    folder: Option<FolderView>,
    input: Option<Seq<char>>,
) -> ActionView {
    match task {
        Some(t) => match delivered(d, t.exec_line) {
            Some(a) => a,
            None => ActionView::RunTask(t),
        },
        None => match link {
            Some(l) => match delivered(d, l.url) {
                Some(a) => a,
                None => ActionView::OpenLink(l.url),
            },
            None => match folder {
                Some(f) => match delivered(d, f.path) {
                    Some(a) => a,
                    None => ActionView::PrintText("cd "@ + f.path),
                },
                None => match input {
                    Some(i) => ActionView::Unknown(i),
                    None => ActionView::Nothing,
                },
            },
        },
    }
}

/// Delivers `text` by copying or printing, or says it is to be performed.
fn deliver(d: Delivery, text: &String) -> (r: Option<Action>)
    ensures
        r.deep_view() == delivered(d, text@),
{
    match d {
        Delivery::Copy => Some(Action::CopyText(text.clone())),
        Delivery::Print => Some(Action::PrintText(text.clone())),
        Delivery::Perform => None,
    }
}

/// Decides what to do once the task (if any) has been picked: the task comes
/// first, then a link of the input's name, then a folder of that name.
pub fn act(d: Delivery, task: Option<&Task>, config: &ShortcutsConfig, input: Option<&String>) -> (a: Action)
    ensures
        a.deep_view() == action_for(
            d,
            match task {
                Some(t) => Some(t@),
                None => None,
            },
            lookup(config.links_view(), opt_name(input)),
            lookup(config.folders_view(), opt_name(input)),
            opt_name(input),
        ),
{
    if let Some(t) = task {
        return match deliver(d, &t.exec_line) {
            Some(a) => a,
            None => Action::RunTask(t.clone()),
        };
    }
    if let Some(l) = config.find_link(input) {
        return match deliver(d, &l.url) {
            Some(a) => a,
            None => Action::OpenLink(l.url),
        };
    }
    if let Some(f) = config.find_folder(input) {
        return match deliver(d, &f.path) {
            Some(a) => a,
            None => Action::PrintText(concat("cd ", f.path.as_str())),
        };
    }
    match input {
        Some(i) => Action::Unknown(i.clone()),
        None => Action::Nothing,
    }
}

/// With a task found, its command line is copied under the copy delivery and
/// printed under the print delivery, and the task is run only under the
/// perform delivery; links and folders are then not consulted.
pub proof fn lemma_task_delivered(
    t: TaskView,
    link: Option<LinkView>,
    folder: Option<FolderView>,
    input: Option<Seq<char>>,
)
    ensures
        action_for(Delivery::Copy, Some(t), link, folder, input) == ActionView::CopyText(t.exec_line),
        action_for(Delivery::Print, Some(t), link, folder, input) == ActionView::PrintText(t.exec_line),
        action_for(Delivery::Perform, Some(t), link, folder, input) == ActionView::RunTask(t),
{
}

/// Without a task, a link of the input's name has its URL copied, printed or
/// opened; without a task or link, a folder has its path copied or printed,
/// or `cd` and its path printed; with none of these, an input is reported
/// unknown and no input gives nothing to do.
pub proof fn lemma_shortcut_delivered(
    d: Delivery,
    link: Option<LinkView>,
    folder: Option<FolderView>,
    input: Option<Seq<char>>,
)
    ensures
        link matches Some(l) ==> action_for(d, None, link, folder, input) == match d {
            Delivery::Copy => ActionView::CopyText(l.url),
            Delivery::Print => ActionView::PrintText(l.url),
            Delivery::Perform => ActionView::OpenLink(l.url),
        },
        link is None ==> (folder matches Some(f) ==> action_for(d, None, link, folder, input) == match d {
            Delivery::Copy => ActionView::CopyText(f.path),
            Delivery::Print => ActionView::PrintText(f.path),
            Delivery::Perform => ActionView::PrintText("cd "@ + f.path),
        }),
        link is None && folder is None ==> action_for(d, None, link, folder, input) == match input {
            Some(i) => ActionView::Unknown(i),
            None => ActionView::Nothing,
        },
{
}

} // verus!
