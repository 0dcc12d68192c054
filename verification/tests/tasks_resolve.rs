use devstart::tasks::cargo::Cargo;
use devstart::tasks::local::Local;
use devstart::strmap::StrMap;
use devstart::tasks::npm::{detect, detect_prefix, first_matching, npm_config, Npm, NpmProject, PackageScripts};
use devstart::tasks::{discover, parse, resolve, MMFile, ProviderKind, Sources, Task, TaskProvider};

fn task(provider: ProviderKind, name: &str, exec: &str) -> Task {
    Task {
        provider,
        task: name.to_string(),
        exec_line: exec.to_string(),
        emoji: String::new(),
        emoji_text: String::new(),
        sh: false,
        details: None,
    }
}

fn text_map(pairs: &[(&str, &str)]) -> StrMap<String> {
    let mut m = StrMap::new();
    for (k, v) in pairs {
        m.insert(k.to_string(), v.to_string());
    }
    m
}

fn task_map(pairs: Vec<(&str, Task)>) -> StrMap<Task> {
    let mut m = StrMap::new();
    for (k, t) in pairs {
        m.insert(k.to_string(), t);
    }
    m
}

fn names(tasks: &[Task]) -> Vec<String> {
    tasks.iter().map(|t| t.task.clone()).collect()
}

fn execs(tasks: &[Task]) -> Vec<String> {
    tasks.iter().map(|t| t.exec_line.clone()).collect()
}

#[test]
fn local_task_hides_discovered_ones() {
    let local = vec![task(ProviderKind::Local, "build", "make all")];
    let discovered = vec![
        vec![task(ProviderKind::Cargo, "build", "cargo build"), task(ProviderKind::Cargo, "dev", "cargo run")],
        vec![task(ProviderKind::Npm, "build", "npm run build")],
    ];
    let all = resolve(None, false, &local, &discovered);
    assert_eq!(names(&all), vec!["build", "dev"]);
    assert_eq!(all[0].exec_line, "make all");
    let one = resolve(Some(&"build".to_string()), false, &local, &discovered);
    assert_eq!(execs(&one), vec!["make all"]);
}

#[test]
fn without_local_tasks_duplicates_stay_in_order() {
    let discovered = vec![
        vec![task(ProviderKind::Cargo, "build", "cargo build")],
        vec![task(ProviderKind::Npm, "build", "npm run build"), task(ProviderKind::Npm, "a", "npm run a")],
    ];
    let all = resolve(None, false, &[], &discovered);
    assert_eq!(names(&all), vec!["a", "build", "build"]);
    assert_eq!(execs(&all), vec!["npm run a", "cargo build", "npm run build"]);
    let builds = resolve(Some(&"build".to_string()), false, &[], &discovered);
    assert_eq!(execs(&builds), vec!["cargo build", "npm run build"]);
}

#[test]
fn unassigned_only_when_asked_and_empty_names_last() {
    let local = vec![task(ProviderKind::Local, "", "local nameless")];
    let discovered = vec![vec![
        task(ProviderKind::Npm, "unassigned", "npm run x"),
        task(ProviderKind::Npm, "zeta", "npm run z"),
        task(ProviderKind::Npm, "Zeta", "npm run Z"),
    ]];
    let some = resolve(None, false, &local, &discovered);
    assert_eq!(names(&some), vec!["Zeta", "zeta", ""]);
    let all = resolve(None, true, &local, &discovered);
    assert_eq!(names(&all), vec!["Zeta", "unassigned", "zeta", ""]);
    let none = resolve(Some(&"missing".to_string()), true, &local, &discovered);
    assert!(none.is_empty());
}

#[test]
fn cargo_defaults_and_readme_listing() {
    let cargo = Cargo {}.parse(&true);
    assert_eq!(names(&cargo), vec!["build", "run", "test", "clean", "lint"]);
    assert_eq!(cargo[4].exec_line, "cargo clippy");
    assert_eq!(cargo[0].emoji, "\u{1F980}");
    assert_eq!(cargo[0].emoji_text, "[rust]");
    assert!(Cargo {}.parse(&false).is_empty());

    let mut run = task(ProviderKind::Local, "", "cargo run -p ds");
    run.emoji = "\u{1F7E2}".to_string();
    let mut test = task(ProviderKind::Local, "", "cargo xtask ci");
    test.emoji = "\u{1F6A6}".to_string();
    let file = MMFile { tasks: task_map(vec![("run", run), ("test", test)]) };
    let sources = Sources { local: Some(file), cargo: true, npm: None, makefile: None };
    let listed = discover(None, &sources, false);
    assert_eq!(names(&listed), vec!["build", "clean", "lint", "run", "test"]);
    assert_eq!(
        execs(&listed),
        vec!["cargo build", "cargo clean", "cargo clippy", "cargo run -p ds", "cargo xtask ci"]
    );
    assert_eq!(listed[3].provider, ProviderKind::Local);
    assert_eq!(listed[3].emoji, "\u{1F7E2}");
    assert_eq!(listed[3].emoji_text, "[task]");
    let b = discover(Some(&"build".to_string()), &sources, false);
    assert_eq!(execs(&b), vec!["cargo build"]);
}

#[test]
fn local_tasks_get_default_icon() {
    let mut t = task(ProviderKind::Cargo, "ignored", "echo hi");
    t.sh = true;
    t.details = Some("says hi".to_string());
    let tasks = Local {}.parse(&Some(MMFile { tasks: task_map(vec![("hi", t)]) }));
    assert_eq!(tasks.len(), 1);
    assert_eq!(tasks[0].task, "hi");
    assert_eq!(tasks[0].provider, ProviderKind::Local);
    assert_eq!(tasks[0].emoji, "\u{1F579} ");
    assert_eq!(tasks[0].emoji_text, "[task]");
    assert!(tasks[0].sh);
    assert_eq!(tasks[0].details.as_deref(), Some("says hi"));
    assert!(Local {}.parse(&None).is_empty());
}

#[test]
fn npm_scripts_get_roles_from_patterns() {
    let scripts = text_map(&[
        ("dev", "vite"),
        ("build", "vite build"),
        ("jest", "jest --ci"),
        ("lint", "eslint ."),
        ("start:all", "concurrently"),
        ("prebuild", "rm -rf dist"),
    ]);
    let config = npm_config();
    let tasks = detect(&scripts, "yarn", "yarn", &config.matchers, &config.defaults);
    assert_eq!(names(&tasks), vec!["build", "start", "test", "unassigned", "unassigned", "start", "install"]);
    assert_eq!(tasks[1].exec_line, "yarn dev");
    assert_eq!(tasks[1].details.as_deref(), Some("vite"));
    assert!(tasks[3].details.is_none());
    assert_eq!(tasks[4].exec_line, "yarn prebuild");
    assert_eq!(tasks[6].exec_line, "yarn install");
    assert_eq!(tasks[0].emoji, "\u{e718} ");
    assert_eq!(tasks[0].emoji_text, "[npm]");
    assert_eq!(tasks[0].provider, ProviderKind::Npm);
}

#[test]
fn npm_default_is_dropped_when_a_script_provides_it() {
    let scripts = text_map(&[("install", "node setup.js")]);
    let mut matchers = npm_config().matchers.unwrap();
    matchers.push(devstart::tasks::Matcher { task: "install".to_string(), expr: "^install$".to_string() });
    let tasks = detect(&scripts, "npm", "npm", &Some(matchers), &npm_config().defaults);
    assert_eq!(names(&tasks), vec!["install"]);
    assert_eq!(tasks[0].exec_line, "npm install");
    assert_eq!(tasks[0].details.as_deref(), Some("node setup.js"));
}

#[test]
fn npm_without_matchers_offers_only_defaults() {
    let scripts = text_map(&[("build", "tsc")]);
    let tasks = detect(&scripts, "pnpm run", "pnpm", &None, &npm_config().defaults);
    assert_eq!(execs(&tasks), vec!["pnpm install"]);
}

#[test]
fn invalid_pattern_matches_nothing() {
    let scripts = text_map(&[("build", "tsc")]);
    let matchers = vec![devstart::tasks::Matcher { task: "build".to_string(), expr: "(".to_string() }];
    let tasks = detect(&scripts, "npm", "npm", &Some(matchers), &[]);
    assert_eq!(names(&tasks), vec!["unassigned"]);
}

#[test]
fn package_manager_prefix() {
    assert_eq!(detect_prefix(true, true), ("pnpm run".to_string(), "pnpm".to_string()));
    assert_eq!(detect_prefix(false, true), ("yarn".to_string(), "yarn".to_string()));
    assert_eq!(detect_prefix(false, false), ("npm".to_string(), "npm".to_string()));
}

#[test]
fn parse_runs_every_provider() {
    let project = NpmProject {
        scripts: PackageScripts { scripts: text_map(&[("test", "vitest")]) },
        has_pnpm: false,
        has_yarn: false,
    };
    let sources = Sources { local: None, cargo: false, npm: Some(project), makefile: Some("clean:\n".to_string()) };
    let (local, rest) = parse(&sources);
    assert!(local.is_empty());
    assert_eq!(rest.len(), 3);
    assert!(rest[0].is_empty());
    assert_eq!(execs(&rest[1]), vec!["npm test", "npm install"]);
    assert_eq!(execs(&rest[2]), vec!["make clean"]);
    assert_eq!(names(&Npm {}.parse(&None)), Vec::<String>::new());
}

#[test]
fn named_query_is_the_listing_narrowed() {
    let local = vec![task(ProviderKind::Local, "b", "local b")];
    let discovered = vec![vec![
        task(ProviderKind::Npm, "a", "x1"),
        task(ProviderKind::Npm, "c", "x2"),
        task(ProviderKind::Npm, "a", "x3"),
    ]];
    let all = resolve(None, true, &local, &discovered);
    let a = resolve(Some(&"a".to_string()), true, &local, &discovered);
    let narrowed: Vec<String> = all.iter().filter(|t| t.task == "a").map(|t| t.exec_line.clone()).collect();
    assert_eq!(execs(&a), narrowed);
    assert_eq!(execs(&a), vec!["x1", "x3"]);
}

#[test]
fn first_matching_takes_the_first_match() {
    let m = |t: &str| devstart::tasks::Matcher { task: t.to_string(), expr: String::new() };
    let matchers = vec![m("a"), m("b"), m("c")];
    assert_eq!(first_matching(&matchers, &vec![Some(false), Some(true), Some(true)]), Some("b".to_string()));
    assert_eq!(first_matching(&matchers, &vec![None, Some(false), Some(true)]), Some("c".to_string()));
    assert_eq!(first_matching(&matchers, &vec![Some(false), None, Some(false)]), None);
    assert_eq!(first_matching(&matchers, &vec![Some(true)]), Some("a".to_string()));
    assert_eq!(first_matching(&matchers, &vec![]), None);
}
