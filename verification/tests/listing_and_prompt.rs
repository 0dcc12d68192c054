use devstart::action::{act, delivery, needs_choice, Action, Delivery};
use devstart::alias::AliasMap;
use devstart::prompt::{chosen, selections};
use devstart::shortcuts::{Folder, Link, Shortcuts, ShortcutsConfig};
use devstart::strmap::StrMap;
use devstart::table::{append_shortcuts, render, table_entries};
use devstart::tasks::{ProviderKind, Task};

fn task(name: &str, exec: &str, emoji: &str, details: Option<&str>) -> Task {
    Task {
        provider: ProviderKind::Cargo,
        task: name.to_string(),
        exec_line: exec.to_string(),
        emoji: emoji.to_string(),
        emoji_text: String::new(),
        sh: false,
        details: details.map(|d| d.to_string()),
    }
}

fn shortcuts() -> Shortcuts {
    let mut links = StrMap::new();
    links.insert("l/repo".to_string(), Link { url: "https://x/".to_string(), title: "Repo".to_string() });
    let mut folders = StrMap::new();
    folders.insert("f/dist".to_string(), Folder { path: "dist".to_string(), title: "Dist".to_string() });
    Shortcuts { links: Some(links), folders: Some(folders), commands: None }
}

#[test]
fn table_rows_show_aliases() {
    let aliases = AliasMap::builtin();
    let tasks = vec![
        task("build", "cargo build", "B", None),
        task("deploy", "./deploy", "D", Some("ships it")),
        task("unassigned", "npm run x", "N", None),
    ];
    let rows = table_entries(&tasks, &aliases);
    assert_eq!(rows[0].task, "build (b)");
    assert_eq!(rows[0].symbol, "B");
    assert_eq!(rows[0].exec_line, "cargo build");
    assert_eq!(rows[0].details, "");
    assert_eq!(rows[1].task, "deploy ");
    assert_eq!(rows[1].details, "ships it");
    assert_eq!(rows[2].task, "---");
}

#[test]
fn render_draws_rounded_table() {
    let aliases = AliasMap::builtin();
    let tasks = vec![task("build", "cargo build", "B", None)];
    let out = render(&tasks, &aliases, &None);
    assert_eq!(
        out,
        "╭───┬───────────┬─────────────┬─────────╮\n\
         │   │ task      │ exec        │ details │\n\
         ├───┼───────────┼─────────────┼─────────┤\n\
         │ B │ build (b) │ cargo build │         │\n\
         ╰───┴───────────┴─────────────┴─────────╯"
    );
    let with_links = render(&tasks, &aliases, &Some(shortcuts()));
    assert!(with_links.starts_with(&out));
    assert!(with_links.ends_with("\x1b[2mDist\x1b[0m\n"));
}

#[test]
fn render_appends_shortcuts() {
    assert_eq!(append_shortcuts("TABLE", &None), "TABLE");
    let out = append_shortcuts("TABLE", &Some(shortcuts()));
    assert_eq!(
        out,
        "TABLE\n\x1b[4mlinks:\n\x1b[0m  \x1b[33ml/repo\x1b[39m \x1b[2mRepo\x1b[0m\n\x1b[4mfolders:\n\x1b[0m  \x1b[33mf/dist\x1b[39m \x1b[2mDist\x1b[0m\n"
    );
    let empty = Shortcuts { links: Some(StrMap::new()), folders: None, commands: None };
    assert_eq!(append_shortcuts("T", &Some(empty)), "T\n");
}

#[test]
fn selections_tag_assigned_tasks() {
    let tasks = vec![task("build", "cargo build", "B", None), task("unassigned", "npm run x", "N", None)];
    let labels = selections(&tasks);
    assert_eq!(labels[0], "B  \x1b[33m[build]\x1b[39m cargo build");
    assert_eq!(labels[1], "N   npm run x");
    assert_eq!(chosen(&tasks, Some(1)).unwrap().exec_line, "npm run x");
    assert!(chosen(&tasks, Some(2)).is_none());
    assert!(chosen(&tasks, None).is_none());
}

#[test]
fn actions_follow_task_then_link_then_folder() {
    let config = ShortcutsConfig { shortcuts: Some(shortcuts()) };
    let t = task("build", "cargo build", "B", None);
    assert!(matches!(act(Delivery::Perform, Some(&t), &config, None), Action::RunTask(x) if x.exec_line == "cargo build"));
    assert!(matches!(act(Delivery::Copy, Some(&t), &config, None), Action::CopyText(s) if s == "cargo build"));
    let repo = "l/repo".to_string();
    assert!(matches!(act(Delivery::Perform, None, &config, Some(&repo)), Action::OpenLink(s) if s == "https://x/"));
    assert!(matches!(act(Delivery::Print, None, &config, Some(&repo)), Action::PrintText(s) if s == "https://x/"));
    let dist = "f/dist".to_string();
    assert!(matches!(act(Delivery::Perform, None, &config, Some(&dist)), Action::PrintText(s) if s == "cd dist"));
    assert!(matches!(act(Delivery::Copy, None, &config, Some(&dist)), Action::CopyText(s) if s == "dist"));
    let nope = "nope".to_string();
    assert!(matches!(act(Delivery::Perform, None, &config, Some(&nope)), Action::Unknown(s) if s == "nope"));
    assert!(matches!(act(Delivery::Perform, None, &config, None), Action::Nothing));
    assert_eq!(delivery(true, true), Delivery::Copy);
    assert_eq!(delivery(false, true), Delivery::Print);
    assert_eq!(delivery(false, false), Delivery::Perform);
    assert!(needs_choice(&[t.clone(), t.clone()]));
    assert!(!needs_choice(&[t]));
}
