use devstart::exec::{cmd, run, sh, shell_command_argv, ExecError, RunPlan};
use devstart::tasks::{ProviderKind, Task};

fn task(exec: &str, sh: bool) -> Task {
    Task {
        provider: ProviderKind::Local,
        task: "t".to_string(),
        exec_line: exec.to_string(),
        emoji: String::new(),
        emoji_text: String::new(),
        sh,
        details: None,
    }
}

#[test]
fn direct_run_splits_at_every_space() {
    match run("/tmp", &task("cargo  run -p ds", false)) {
        RunPlan::Direct { dir, program, args } => {
            assert_eq!(dir, "/tmp");
            assert_eq!(program, "cargo");
            assert_eq!(args, vec!["", "run", "-p", "ds"]);
        }
        other => panic!("unexpected {:?}", other),
    }
    match run(".", &task("", false)) {
        RunPlan::Direct { program, args, .. } => {
            assert_eq!(program, "");
            assert!(args.is_empty());
        }
        other => panic!("unexpected {:?}", other),
    }
}

#[test]
fn shell_run_keeps_the_line() {
    match run("/w", &task("source ~/.zshrc && jupyter-lab", true)) {
        RunPlan::Shell { dir, command } => {
            assert_eq!(dir, "/w");
            assert_eq!(command, "source ~/.zshrc && jupyter-lab");
        }
        other => panic!("unexpected {:?}", other),
    }
}

#[test]
fn empty_argument_list_is_an_error() {
    let e = cmd(".", &[]).unwrap_err();
    assert_eq!(e, ExecError::EmptyCommand);
    assert_eq!(e.message(), "command is empty");
    assert_eq!(sh(".", &[]).unwrap_err(), ExecError::EmptyCommand);
    assert!(matches!(sh(".", &["ls -l"]).unwrap(), RunPlan::Shell { .. }));
    assert!(matches!(cmd(".", &["ls -l"]).unwrap(), RunPlan::Direct { .. }));
}

#[test]
fn shell_argv_hands_command_to_shell() {
    assert_eq!(
        shell_command_argv("/bin/zsh".to_string(), "echo hi".to_string()),
        vec!["/bin/zsh", "-c", "echo hi"]
    );
}

#[test]
fn direct_plan_joins_back_to_the_line() {
    let line = " make  build --release ";
    match run(".", &task(line, false)) {
        RunPlan::Direct { program, args, .. } => {
            let mut pieces = vec![program];
            pieces.extend(args);
            assert_eq!(pieces.join(" "), line);
        }
        other => panic!("unexpected {:?}", other),
    }
}
