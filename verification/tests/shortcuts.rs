use devstart::shortcuts::{Command, Folder, Link, Shortcuts, ShortcutsConfig};
use devstart::strmap::StrMap;

fn command(exec: &str, macos: &str, linux: &str) -> Command {
    let mut platforms = StrMap::new();
    platforms.insert("macos".to_string(), macos.to_string());
    platforms.insert("linux".to_string(), linux.to_string());
    Command {
        title: "test command".to_string(),
        exec_line: exec.to_string(),
        platforms: Some(platforms),
    }
}

fn link(url: &str, title: &str) -> Link {
    Link { url: url.to_string(), title: title.to_string() }
}

fn config() -> ShortcutsConfig {
    let mut commands = StrMap::new();
    commands.insert(
        "c/test-me".to_string(),
        command("echo fallback {{path}}", "echo macos {{path}}", "echo linux {{path}}"),
    );
    commands.insert(
        "c/test-no-path".to_string(),
        command("echo fallback", "echo macos", "echo linux"),
    );
    let mut links = StrMap::new();
    links.insert(
        "l/actions".to_string(),
        link("https://github.com/jondot/makeme/actions", "Github Actions"),
    );
    links.insert("l/repo".to_string(), link("https://github.com/jondot/makeme/", "Repo"));
    links.insert(
        "l/issues".to_string(),
        link("https://github.com/jondot/makeme/issues", "Issues"),
    );
    let mut folders = StrMap::new();
    folders.insert(
        "f/dist".to_string(),
        Folder { path: "dist".to_string(), title: "Dist folder".to_string() },
    );
    ShortcutsConfig {
        shortcuts: Some(Shortcuts {
            links: Some(links),
            folders: Some(folders),
            commands: Some(commands),
        }),
    }
}

fn get_exec(c: &ShortcutsConfig, command: &str, os: &str, path: Option<&str>) -> String {
    c.shortcuts
        .as_ref()
        .and_then(|s| s.commands.as_ref())
        .and_then(|cs| cs.get(command).map(|cmd| cmd.get_exec(os, path)))
        .unwrap()
}

#[test]
fn command_resolution() {
    let c = config();

    let exec = get_exec(&c, "c/test-me", "macos", Some("foo/bar"));
    assert_eq!(exec, "echo macos foo/bar");
    let exec = get_exec(&c, "c/test-me", "linux", Some("foo/bar"));
    assert_eq!(exec, "echo linux foo/bar");

    let exec = get_exec(&c, "c/test-me", "macos", None);
    assert_eq!(exec, "echo macos {{path}}");
    let exec = get_exec(&c, "c/test-me", "linux", None);
    assert_eq!(exec, "echo linux {{path}}");

    let exec = get_exec(&c, "c/test-no-path", "macos", Some("foo/bar"));
    assert_eq!(exec, "echo macos");
    let exec = get_exec(&c, "c/test-no-path", "linux", Some("foo/bar"));
    assert_eq!(exec, "echo linux")
}

#[test]
fn command_falls_back_without_platform_variant() {
    let c = config();
    assert_eq!(get_exec(&c, "c/test-me", "windows", Some("x")), "echo fallback x");
    let bare = Command {
        title: String::new(),
        exec_line: "run {{path}} and {{path}}{{path}}".to_string(),
        platforms: None,
    };
    assert_eq!(bare.get_exec("linux", Some("p")), "run p and pp");
    assert_eq!(bare.get_exec("linux", Some("{{path}}")), "run {{path}} and {{path}}{{path}}");
    let partial = Command {
        title: String::new(),
        exec_line: "{{pat {{{path}}}".to_string(),
        platforms: None,
    };
    assert_eq!(partial.get_exec("linux", Some("Q")), "{{pat {Q}");
}

#[test]
fn find_link_and_folder() {
    let c = config();
    let name = "l/repo".to_string();
    let l = c.find_link(Some(&name)).unwrap();
    assert_eq!(l.url, "https://github.com/jondot/makeme/");
    assert_eq!(l.title, "Repo");
    assert!(c.find_folder(Some(&name)).is_none());
    let dist = "f/dist".to_string();
    assert_eq!(c.find_folder(Some(&dist)).unwrap().path, "dist");
    assert!(c.find_link(None).is_none());
    assert!(c.find_folder(None).is_none());
    let empty = ShortcutsConfig::default();
    assert!(empty.find_link(Some(&name)).is_none());
    let no_links = ShortcutsConfig { shortcuts: Some(Shortcuts::default()) };
    assert!(no_links.find_link(Some(&name)).is_none());
}

#[test]
fn command_exec_plans_direct_run_in_current_folder() {
    let c = config();
    let cmd = c.shortcuts.as_ref().unwrap().commands.as_ref().unwrap().get("c/test-me").unwrap();
    match cmd.exec("linux", Some("a/b")) {
        devstart::exec::RunPlan::Direct { dir, program, args } => {
            assert_eq!(dir, ".");
            assert_eq!(program, "echo");
            assert_eq!(args, vec!["linux", "a/b"]);
        }
        other => panic!("unexpected plan {:?}", other),
    }
}

#[test]
fn strmap_keeps_keys_in_order_and_replaces() {
    let mut m = StrMap::new();
    m.insert("b".to_string(), 2u8.to_string());
    m.insert("a".to_string(), 1u8.to_string());
    m.insert("c".to_string(), 3u8.to_string());
    m.insert("b".to_string(), "two".to_string());
    assert_eq!(m.len(), 3);
    assert_eq!(m.key_at(0), "a");
    assert_eq!(m.key_at(1), "b");
    assert_eq!(m.key_at(2), "c");
    assert_eq!(m.get("b").unwrap(), "two");
    assert!(m.get("d").is_none());
}
