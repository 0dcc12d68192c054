use vstd::prelude::*;

use crate::tasks::Task;
use crate::text::{join_on, lemma_split_join, split_char, split_on};

verus! {

/// How to run a command line.
#[derive(Debug)]
pub enum RunPlan {
    /// Run `program` with `args` in the folder `dir`, with no shell.
    Direct { dir: String, program: String, args: Vec<String> },
    /// Hand `command` to the user's shell, in the folder `dir`.
    Shell { dir: String, command: String },
}

/// The value a plan stands for.
pub enum RunPlanView {
    Direct { dir: Seq<char>, program: Seq<char>, args: Seq<Seq<char>> },
    Shell { dir: Seq<char>, command: Seq<char> },
}

impl DeepView for RunPlan {
    type V = RunPlanView;

    open spec fn deep_view(&self) -> RunPlanView {
        match self {
            RunPlan::Direct { dir, program, args } => RunPlanView::Direct {
                dir: dir@,
                program: program@,
                args: args.deep_view(),
            },
            RunPlan::Shell { dir, command } => RunPlanView::Shell { dir: dir@, command: command@ },
        }
    }
}

/// The plan for the command line `line` in `dir`: handed to the shell when
/// `sh` holds; else split at every space, the first piece being the program
/// and the others its arguments (empty pieces included).
pub open spec fn plan_of(dir: Seq<char>, sh: bool, line: Seq<char>) -> RunPlanView {
    if sh {
        RunPlanView::Shell { dir, command: line }
    } else {
        let pieces = split_on(line, ' ');
        RunPlanView::Direct { dir, program: pieces[0], args: pieces.drop_first() }
    }
}

/// Why a command could not be run.
#[derive(Debug, Clone, Copy, PartialEq, Eq, Structural)]
pub enum ExecError {
    /// No command line was given.
    EmptyCommand,
}

impl ExecError {
    /// The message that describes the error.
    pub fn message(&self) -> (m: String)
        ensures
            m@ == "command is empty"@,
    {
        "command is empty".to_owned()
    }
}

/// The plan for one command line.
pub fn run_line(dir: &str, sh: bool, line: &str) -> (r: RunPlan)
    ensures
        r.deep_view() == plan_of(dir@, sh, line@),
{
    if sh {
        RunPlan::Shell { dir: dir.to_owned(), command: line.to_owned() }
    } else {
        let mut pieces = split_char(line, ' ');
        proof {
            crate::text::lemma_split_on_nonempty(line@, ' ');
        }
        let ghost pv = pieces.deep_view();
        let program = pieces.remove(0);
        assert(pieces.deep_view() =~= pv.drop_first());
        RunPlan::Direct { dir: dir.to_owned(), program, args: pieces }
    }
}

/// Plans to run the first of `args` directly: split at spaces, the first piece
/// is the program. Fails when `args` is empty.
pub fn cmd(pwd: &str, args: &[&str]) -> (r: Result<RunPlan, ExecError>)
    ensures
        match r {
            Ok(p) => args@.len() > 0 && p.deep_view() == plan_of(pwd@, false, args@[0]@),
            Err(e) => args@.len() == 0 && e == ExecError::EmptyCommand,
        },
{
    if args.len() == 0 {
        return Err(ExecError::EmptyCommand);
    }
    Ok(run_line(pwd, false, args[0]))
}

/// Plans to hand the first of `args` to the shell. Fails when `args` is empty.
pub fn sh(pwd: &str, args: &[&str]) -> (r: Result<RunPlan, ExecError>)
    ensures
        match r {
            Ok(p) => args@.len() > 0 && p.deep_view() == plan_of(pwd@, true, args@[0]@),
            Err(e) => args@.len() == 0 && e == ExecError::EmptyCommand,
        },
{
    if args.len() == 0 {
        return Err(ExecError::EmptyCommand);
    }
    Ok(run_line(pwd, true, args[0]))
}

/// Plans to run `task` from the folder `pwd`: through the shell when the task
/// asks for one, else directly.
pub fn run(pwd: &str, task: &Task) -> (r: RunPlan)
    ensures
        r.deep_view() == plan_of(pwd@, task.sh, task.exec_line@),
{
    run_line(pwd, task.sh, task.exec_line.as_str())
}

/// The arguments that hand `command` to `shell`: the shell, `-c`, then the command.
pub fn shell_command_argv(shell: String, command: String) -> (argv: Vec<String>)
    ensures
        argv.deep_view() == seq![shell@, "-c"@, command@],
{
    let mut argv: Vec<String> = Vec::new();
    argv.push(shell);
    argv.push("-c".to_owned());
    argv.push(command);
    assert(argv.deep_view() =~= seq![shell@, "-c"@, command@]);
    argv
}


/// Run directly, a command line is cut at spaces and nothing is lost: the
/// program and its arguments, joined with spaces, give the line back.
pub proof fn lemma_direct_plan_keeps_line(dir: Seq<char>, line: Seq<char>)
    ensures
        plan_of(dir, false, line) matches RunPlanView::Direct { program, args, .. } && join_on(
            seq![program] + args,
            ' ',
        ) == line,
{
    crate::text::lemma_split_on_nonempty(line, ' ');
    lemma_split_join(line, ' ');
    let pieces = split_on(line, ' ');
    assert(seq![pieces[0]] + pieces.drop_first() =~= pieces);
}

} // verus!
