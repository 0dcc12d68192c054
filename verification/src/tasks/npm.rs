use vstd::prelude::*;

use super::{
    any_named, cmd_none, has_task_named, unassigned_name, Matcher, MatcherView, ProviderConfig,
    ProviderKind, Task, TaskProvider, TaskView,
};
use crate::pattern::{compile_pattern, pattern_matches, regex_match, Pattern};
use crate::strmap::StrMap;
use crate::text::join_space;

verus! {

/// The icon shown beside npm tasks.
pub open spec fn npm_emoji() -> Seq<char> {
    "\u{e718} "@
}

/// The label of npm tasks.
pub open spec fn npm_label() -> Seq<char> {
    "[npm]"@
}

/// The role of the first matcher whose answer is a match: `answers[i]` is
/// what testing the pattern of `matchers[i]` gave (`None` when the pattern did
/// not compile).
pub open spec fn first_role(matchers: Seq<MatcherView>, answers: Seq<Option<bool>>) -> Option<Seq<char>>
    decreases matchers.len(),
{
    if matchers.len() == 0 || answers.len() == 0 {
        None
    } else if answers[0] == Some(true) {
        Some(matchers[0].task)
    } else {
        first_role(matchers.drop_first(), answers.drop_first())
    }
}

/// What the pattern of each matcher answers for the script name `name`.
pub open spec fn pattern_answers(matchers: Seq<MatcherView>, name: Seq<char>) -> Seq<Option<bool>> {
    matchers.map_values(|m: MatcherView| regex_match(m.expr, name))
}

/// The role given to a script called `name`: that of the first matcher whose
/// pattern matches the name.
pub open spec fn matched_task(matchers: Seq<MatcherView>, name: Seq<char>) -> Option<Seq<char>> {
    first_role(matchers, pattern_answers(matchers, name))
}

/// `command`, a space, then `arg`.
pub open spec fn command_with(command: Seq<char>, arg: Seq<char>) -> Seq<char> {
    command + seq![' '] + arg
}

/// The task for the script `name` (whose body is `value`), run by
/// `script_runner`, given the role that a matcher selected for it, if any.
pub open spec fn script_task(
    script_runner: Seq<char>,
    name: Seq<char>,
    value: Seq<char>,
    selected: Option<Seq<char>>,
) -> TaskView {
    match selected {
        Some(t) => TaskView {
            provider: ProviderKind::Npm,
            task: t,
            exec_line: command_with(script_runner, name),
            emoji: npm_emoji(),
            emoji_text: npm_label(),
            sh: false,
            details: Some(value),
        },
        None => TaskView {
            provider: ProviderKind::Npm,
            task: unassigned_name(),
            exec_line: command_with(script_runner, name),
            emoji: npm_emoji(),
            emoji_text: npm_label(),
            sh: false,
            details: None,
        },
    }
}

/// The tasks for the scripts of a package, in the order of the scripts; none
/// when there are no matchers.
pub open spec fn package_tasks(
    scripts: Seq<(Seq<char>, Seq<char>)>,
    script_runner: Seq<char>,
    matchers: Option<Seq<MatcherView>>,
) -> Seq<TaskView> {
    match matchers {
        None => Seq::empty(),
        Some(ms) => scripts.map_values(
            |s: (Seq<char>, Seq<char>)| script_task(script_runner, s.0, s.1, matched_task(ms, s.0)),
        ),
    }
}

/// A default task, run by `runner`.
pub open spec fn with_runner(runner: Seq<char>, d: TaskView) -> TaskView {
    TaskView {
        provider: d.provider,
        task: d.task,
        exec_line: command_with(runner, d.exec_line),
        emoji: d.emoji,
        emoji_text: d.emoji_text,
        sh: d.sh,
        details: d.details,
    }
}

/// Which defaults remain: those whose name no task of the package already has.
pub open spec fn not_provided(from_package: Seq<TaskView>) -> spec_fn(TaskView) -> bool {
    |d: TaskView| !has_task_named(from_package, d.task)
}

/// The default tasks that the package does not already provide, run by `runner`.
pub open spec fn default_tasks(
    from_package: Seq<TaskView>,
    runner: Seq<char>,
    defaults: Seq<TaskView>,
) -> Seq<TaskView> {
    defaults.filter(not_provided(from_package)).map_values(|d: TaskView| with_runner(runner, d))
}

/// The tasks that `detect` finds: those of the scripts, then the remaining defaults.
pub open spec fn detected(
    scripts: Seq<(Seq<char>, Seq<char>)>,
    script_runner: Seq<char>,
    runner: Seq<char>,
    matchers: Option<Seq<MatcherView>>,
    defaults: Seq<TaskView>,
) -> Seq<TaskView> {
    let from_package = package_tasks(scripts, script_runner, matchers);
    from_package + default_tasks(from_package, runner, defaults)
}

/// A default is only offered when the package's scripts give no task its
/// name: no name occurs both among the script tasks and the defaults added.
pub proof fn lemma_defaults_not_duplicated(
    from_package: Seq<TaskView>,
    runner: Seq<char>,
    defaults: Seq<TaskView>,
    i: int,
)
    requires
        0 <= i < default_tasks(from_package, runner, defaults).len(),
    ensures
        !has_task_named(from_package, default_tasks(from_package, runner, defaults)[i].task),
{
    defaults.lemma_filter_pred(not_provided(from_package), i);
}

/// A default that no task of the package's scripts already names is offered
/// after the script tasks, under its own name, run as the runner, a space and
/// the default's command.
pub proof fn lemma_missing_default_offered(
    scripts: Seq<(Seq<char>, Seq<char>)>,
    script_runner: Seq<char>,
    runner: Seq<char>,
    matchers: Option<Seq<MatcherView>>,
    defaults: Seq<TaskView>,
    i: int,
)
    requires
        0 <= i < defaults.len(),
        !has_task_named(package_tasks(scripts, script_runner, matchers), defaults[i].task),
    ensures
        exists|k: int|
            package_tasks(scripts, script_runner, matchers).len() <= k < detected(
                scripts,
                script_runner,
                runner,
                matchers,
                defaults,
            ).len() && {
                let t = #[trigger] detected(scripts, script_runner, runner, matchers, defaults)[k];
                &&& t.task == defaults[i].task
                &&& t.exec_line == runner + seq![' '] + defaults[i].exec_line
                &&& t.provider == defaults[i].provider
            },
{
    let pkg = package_tasks(scripts, script_runner, matchers);
    let f = not_provided(pkg);
    let kept = defaults.filter(f);
    defaults.lemma_filter_contains(f, i);
    let j = choose|j: int| 0 <= j < kept.len() && kept[j] == defaults[i];
    let rest = default_tasks(pkg, runner, defaults);
    assert(rest[j] == with_runner(runner, defaults[i]));
    let all = detected(scripts, script_runner, runner, matchers, defaults);
    assert(all == pkg + rest);
    assert(all[pkg.len() + j] == rest[j]);
}

/// The role of the first matcher whose answer in `answers` is a match.
pub fn first_matching(matchers: &Vec<Matcher>, answers: &Vec<Option<bool>>) -> (r: Option<String>)
    ensures
        r.deep_view() == first_role(matchers.deep_view(), answers@),
{
    let ghost ms = matchers.deep_view();
    let n = if matchers.len() < answers.len() {
        matchers.len()
    } else {
        answers.len()
    };
    assert(ms.skip(0) == ms);
    assert(answers@.skip(0) == answers@);
    for k in 0..n
        invariant
            ms == matchers.deep_view(),
            n <= ms.len(),
            n <= answers@.len(),
            n == ms.len() || n == answers@.len(),
            first_role(ms, answers@) == first_role(ms.skip(k as int), answers@.skip(k as int)),
    {
        assert(ms[k as int] == matchers[k as int]@);
        assert(ms.skip(k as int)[0] == ms[k as int]);
        assert(answers@.skip(k as int)[0] == answers@[k as int]);
        if answers[k] == Some(true) {
            return Some(matchers[k].task.clone());
        }
        assert(ms.skip(k as int).drop_first() == ms.skip(k + 1));
        assert(answers@.skip(k as int).drop_first() == answers@.skip(k + 1));
    }
    None
}

/// `p` is what compiling the pattern `expr` gave.
pub open spec fn compiled_from(p: Option<Pattern>, expr: Seq<char>) -> bool {
    match p {
        Some(c) => c@ == expr && forall|t: Seq<char>| #[trigger] regex_match(expr, t) is Some,
        None => forall|t: Seq<char>| #[trigger] regex_match(expr, t) is None,
    }
}

/// What the compiled pattern `p` answers for `name`: `None` when the pattern
/// did not compile.
pub open spec fn answer_of(p: Option<Pattern>, name: Seq<char>) -> Option<bool> {
    match p {
        Some(c) => regex_match(c@, name),
        None => None,
    }
}

/// Compiles the pattern of each matcher, once, in order.
fn compile_patterns(matchers: &Vec<Matcher>) -> (ps: Vec<Option<Pattern>>)
    ensures
        ps.len() == matchers.len(),
        forall|k: int| 0 <= k < ps.len() ==> compiled_from(#[trigger] ps@[k], matchers.deep_view()[k].expr),
{
    let ghost ms = matchers.deep_view();
    let mut ps: Vec<Option<Pattern>> = Vec::new();
    for k in 0..matchers.len()
        invariant
            ms == matchers.deep_view(),
            ps.len() == k,
            forall|j: int| 0 <= j < k ==> compiled_from(#[trigger] ps@[j], ms[j].expr),
    {
        assert(ms[k as int] == matchers[k as int]@);
        ps.push(compile_pattern(matchers[k].expr.as_str()));
    }
    ps
}

/// What each compiled pattern answers for the script name `name`.
fn answers_for(patterns: &Vec<Option<Pattern>>, name: &str) -> (answers: Vec<Option<bool>>)
    ensures
        answers@ == patterns@.map_values(|p: Option<Pattern>| answer_of(p, name@)),
{
    let mut answers: Vec<Option<bool>> = Vec::new();
    for k in 0..patterns.len()
        invariant
            answers@ =~= patterns@.take(k as int).map_values(|p: Option<Pattern>| answer_of(p, name@)),
    {
        let a = match &patterns[k] {
            Some(p) => Some(pattern_matches(p, name)),
            None => None,
        };
        answers.push(a);
        assert(patterns@.take(k + 1) =~= patterns@.take(k as int).push(patterns@[k as int]));
    }
    assert(patterns@.take(patterns.len() as int) =~= patterns@);
    answers
}

/// The answers of the patterns compiled from `matchers` are those of
/// `pattern_answers`.
proof fn lemma_compiled_answers(ps: Seq<Option<Pattern>>, ms: Seq<MatcherView>, name: Seq<char>)
    requires
        ps.len() == ms.len(),
        forall|k: int| 0 <= k < ps.len() ==> compiled_from(#[trigger] ps[k], ms[k].expr),
    ensures
        ps.map_values(|p: Option<Pattern>| answer_of(p, name)) == pattern_answers(ms, name),
{
    assert forall|k: int| 0 <= k < ps.len() implies answer_of(#[trigger] ps[k], name) == regex_match(ms[k].expr, name) by {
        assert(compiled_from(ps[k], ms[k].expr));
        assert(regex_match(ms[k].expr, name) is Some || regex_match(ms[k].expr, name) is None);
    }
    assert(ps.map_values(|p: Option<Pattern>| answer_of(p, name)) =~= pattern_answers(ms, name));
}

/// The task for the script `name` with body `value`, run by `script_runner`,
/// given the role selected for it: an unassigned task when none was.
pub fn script_task_for(script_runner: &str, name: &str, value: &str, selected: Option<String>) -> (t: Task)
    ensures
        t@ == script_task(script_runner@, name@, value@, selected.deep_view()),
{
    proof {
        reveal_strlit("\u{e718} ");
        reveal_strlit("[npm]");
    }
    match selected {
        Some(role) => Task {
            provider: ProviderKind::Npm,
            task: role,
            exec_line: join_space(script_runner, name),
            emoji: "\u{e718} ".to_owned(),
            emoji_text: "[npm]".to_owned(),
            sh: false,
            details: Some(value.to_owned()),
        },
        None => Task {
            provider: ProviderKind::Npm,
            task: cmd_none(),
            exec_line: join_space(script_runner, name),
            emoji: "\u{e718} ".to_owned(),
            emoji_text: "[npm]".to_owned(),
            sh: false,
            details: None,
        },
    }
}

/// Turns the scripts of a package into tasks: each script gets the role of the
/// first matcher that matches its name (or none, as an unassigned task), runs
/// through `script_runner`; then come the defaults that no script already
/// provides, run through `runner`.
pub fn detect(
    scripts: &StrMap<String>,
    script_runner: &str,
    runner: &str,
    matchers: &Option<Vec<Matcher>>,
    cfg_defaults: &[Task],
) -> (tasks: Vec<Task>)
    ensures
        tasks.deep_view() == detected(
            scripts.entries(),
            script_runner@,
            runner@,
            matchers.deep_view(),
            cfg_defaults.deep_view(),
        ),
{
    let ghost sv = scripts.entries();
    let count = scripts.len();
    let ghost pkg = package_tasks(sv, script_runner@, matchers.deep_view());
    let mut from_package: Vec<Task> = Vec::new();
    match matchers {
        Some(ms) => {
            let ghost mv = ms.deep_view();
            let patterns = compile_patterns(ms);
            for k in 0..count
                invariant
                    count == sv.len(),
                    patterns.len() == mv.len(),
                    forall|j: int| 0 <= j < patterns.len() ==> compiled_from(#[trigger] patterns@[j], mv[j].expr),
                    sv == scripts.entries(),
                    mv == ms.deep_view(),
                    matchers.deep_view() == Some(mv),
                    pkg == package_tasks(sv, script_runner@, matchers.deep_view()),
                    from_package.deep_view() =~= pkg.take(k as int),
            {
                let name = scripts.key_at(k);
                let value = scripts.value_at(k);
                let answers = answers_for(&patterns, name.as_str());
                proof {
                    lemma_compiled_answers(patterns@, mv, name@);
                }
                let selected = first_matching(ms, &answers);
                let t = script_task_for(script_runner, name.as_str(), value.as_str(), selected);
                let ghost before = from_package.deep_view();
                from_package.push(t);
                assert(from_package.deep_view() =~= before.push(pkg[k as int]));
            }
            assert(pkg.take(count as int) == pkg);
        },
        None => {
            assert(from_package.deep_view() =~= pkg);
        },
    }
    let ghost dv = cfg_defaults.deep_view();
    let ghost f = not_provided(pkg);
    let ghost rest = default_tasks(pkg, runner@, dv);
    let mut tasks: Vec<Task> = Vec::new();
    assert(dv.take(0) =~= Seq::<TaskView>::empty());
    proof {
        reveal(Seq::filter);
    }
    for k in 0..cfg_defaults.len()
        invariant
            dv == cfg_defaults.deep_view(),
            from_package.deep_view() == pkg,
            f == not_provided(pkg),
            tasks.deep_view() =~= dv.take(k as int).filter(f).map_values(
                |d: TaskView| with_runner(runner@, d),
            ),
    {
        let def = &cfg_defaults[k];
        assert(dv[k as int] == def@);
        assert(dv.take(k + 1) =~= dv.take(k as int).push(dv[k as int]));
        proof {
            dv.take(k as int).lemma_filter_push(dv[k as int], f);
        }
        let ghost before = tasks.deep_view();
        if !any_named(from_package.as_slice(), def.task.as_str()) {
            tasks.push(Task {
                provider: def.provider,
                task: def.task.clone(),
                exec_line: join_space(runner, def.exec_line.as_str()),
                emoji: def.emoji.clone(),
                emoji_text: def.emoji_text.clone(),
                sh: def.sh,
                details: super::copy_opt_text(&def.details),
            });
            assert(tasks.deep_view() =~= before.push(with_runner(runner@, dv[k as int])));
        }
    }
    assert(dv.take(cfg_defaults@.len() as int) == dv);
    let mut all = from_package;
    let ghost first = all.deep_view();
    let mut i: usize = 0;
    let n = tasks.len();
    while i < n
        invariant
            n == tasks@.len(),
            i <= n,
            first == pkg,
            tasks.deep_view() == rest,
            all.deep_view() =~= first + rest.take(i as int),
        decreases n - i,
    {
        assert(rest[i as int] == tasks[i as int]@);
        let ghost before = all.deep_view();
        all.push(tasks[i].clone());
        assert(all.deep_view() =~= before.push(rest[i as int]));
        i = i + 1;
    }
    assert(rest.take(n as int) == rest);
    all
}


/// The commands that run a package's scripts and its package manager:
/// pnpm when a pnpm lock file or workspace is present, else yarn when a yarn
/// lock file is, else npm.
pub open spec fn prefix_of(has_pnpm: bool, has_yarn: bool) -> (Seq<char>, Seq<char>) {
    if has_pnpm {
        ("pnpm run"@, "pnpm"@)
    } else if has_yarn {
        ("yarn"@, "yarn"@)
    } else {
        ("npm"@, "npm"@)
    }
}

/// The commands that run scripts and the package manager, as (script runner, runner).
pub fn detect_prefix(has_pnpm: bool, has_yarn: bool) -> (r: (String, String))
    ensures
        (r.0@, r.1@) == prefix_of(has_pnpm, has_yarn),
{
    if has_pnpm {
        ("pnpm run".to_owned(), "pnpm".to_owned())
    } else if has_yarn {
        ("yarn".to_owned(), "yarn".to_owned())
    } else {
        ("npm".to_owned(), "npm".to_owned())
    }
}

/// The matchers of npm scripts: the roles start, build and test.
pub open spec fn npm_matchers() -> Seq<MatcherView> {
    seq![
        MatcherView { task: "start"@, expr: "^(dev|start|start:all)$"@ },
        MatcherView { task: "build"@, expr: "^build$"@ },
        MatcherView { task: "test"@, expr: "^(test|jest)$"@ },
    ]
}

/// How npm scripts get their roles: a script whose name the regex crate
/// matches with `^(dev|start|start:all)$` gets the role `start`; otherwise one
/// matched by `^build$` gets `build`; otherwise one matched by `^(test|jest)$`
/// gets `test`; any other script gets no role.
pub proof fn lemma_npm_roles(name: Seq<char>)
    ensures
        matched_task(npm_matchers(), name) == (if regex_match("^(dev|start|start:all)$"@, name) == Some(
            true,
        ) {
            Some("start"@)
        } else if regex_match("^build$"@, name) == Some(true) {
            Some("build"@)
        } else if regex_match("^(test|jest)$"@, name) == Some(true) {
            Some("test"@)
        } else {
            None::<Seq<char>>
        }),
{
    let ms = npm_matchers();
    let a = pattern_answers(ms, name);
    assert(a[0] == regex_match("^(dev|start|start:all)$"@, name));
    assert(a[1] == regex_match("^build$"@, name));
    assert(a[2] == regex_match("^(test|jest)$"@, name));
    assert(ms.drop_first()[0] == ms[1]);
    assert(ms.drop_first().drop_first()[0] == ms[2]);
    assert(a.drop_first()[0] == a[1]);
    assert(a.drop_first().drop_first()[0] == a[2]);
    assert(ms.drop_first().drop_first().drop_first().len() == 0);
    reveal_with_fuel(first_role, 4);
}

/// The task that npm offers by default.
pub open spec fn npm_install_task() -> TaskView {
    TaskView {
        provider: ProviderKind::Npm,
        task: "install"@,
        exec_line: "install"@,
        emoji: npm_emoji(),
        emoji_text: npm_label(),
        sh: false,
        details: None,
    }
}

fn matcher(task: &str, expr: &str) -> (m: Matcher)
    ensures
        m@ == (MatcherView { task: task@, expr: expr@ }),
{
    Matcher { task: task.to_owned(), expr: expr.to_owned() }
}

/// How npm projects are read.
pub fn npm_config() -> (c: ProviderConfig)
    ensures
        c.matchers.deep_view() == Some(npm_matchers()),
        c.defaults.deep_view() == seq![npm_install_task()],
{
    let mut ms: Vec<Matcher> = Vec::new();
    ms.push(matcher("start", "^(dev|start|start:all)$"));
    ms.push(matcher("build", "^build$"));
    ms.push(matcher("test", "^(test|jest)$"));
    let mut defaults: Vec<Task> = Vec::new();
    defaults.push(
        Task {
            provider: ProviderKind::Npm,
            task: "install".to_owned(),
            exec_line: "install".to_owned(),
            emoji: "\u{e718} ".to_owned(),
            emoji_text: "[npm]".to_owned(),
            sh: false,
            details: None,
        },
    );
    assert(ms.deep_view() =~= npm_matchers());
    assert(defaults.deep_view() =~= seq![npm_install_task()]);
    ProviderConfig { matchers: Some(ms), defaults }
}

/// The scripts of a `package.json`: each script's body under its name, each
/// name once.
#[derive(Debug)]
pub struct PackageScripts {
    pub scripts: StrMap<String>,
}

/// What the npm provider reads from a project that has a `package.json`.
#[derive(Debug)]
pub struct NpmProject {
    pub scripts: PackageScripts,
    /// Whether `pnpm-lock.yaml` or `pnpm-workspace` is present.
    pub has_pnpm: bool,
    /// Whether `yarn.lock` is present.
    pub has_yarn: bool,
}

/// Discovers the scripts of a `package.json` as tasks.
#[derive(Debug, Default)]
pub struct Npm {}

impl TaskProvider for Npm {
    /// The project's scripts, if it has a `package.json`.
    type Source = Option<NpmProject>;

    open spec fn provides(&self, source: &Option<NpmProject>) -> Seq<TaskView> {
        match source {
            Some(p) => {
                let (script_runner, runner) = prefix_of(p.has_pnpm, p.has_yarn);
                detected(
                    p.scripts.scripts.entries(),
                    script_runner,
                    runner,
                    Some(npm_matchers()),
                    seq![npm_install_task()],
                )
            },
            None => Seq::empty(),
        }
    }

    fn parse(&self, source: &Option<NpmProject>) -> (tasks: Vec<Task>) {
        match source {
            Some(p) => {
                let (script_runner, runner) = detect_prefix(p.has_pnpm, p.has_yarn);
                let config = npm_config();
                detect(
                    &p.scripts.scripts,
                    script_runner.as_str(),
                    runner.as_str(),
                    &config.matchers,
                    config.defaults.as_slice(),
                )
            },
            None => Vec::new(),
        }
    }
}

} // verus!
