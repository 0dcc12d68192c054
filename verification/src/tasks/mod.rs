use vstd::prelude::*;

use self::cargo::Cargo;
use self::local::Local;
use self::makefile::Makefile;
use self::npm::{Npm, NpmProject};
use self::order::{is_listing_of, named, sort_by_name};
use crate::strmap::StrMap;

pub mod cargo;
pub mod local;
pub mod makefile;
pub mod npm;
pub mod order;

verus! {

/// The name given to a discovered task that no matcher assigned a role to.
pub open spec fn unassigned_name() -> Seq<char> {
    seq!['u', 'n', 'a', 's', 's', 'i', 'g', 'n', 'e', 'd']
}

/// The name given to a discovered task that no matcher assigned a role to.
pub fn cmd_none() -> (r: String)
    ensures
        r@ == unassigned_name(),
{
    proof {
        reveal_strlit("unassigned");
    }
    "unassigned".to_owned()
}

/// Where a task was discovered.
#[derive(Clone, Copy, Debug, PartialEq, Eq, Structural)]
pub enum ProviderKind {
    Local,
    Npm,
    Make,
    Cargo,
}

impl Default for ProviderKind {
    fn default() -> (r: Self)
        ensures
            r == ProviderKind::Local,
    {
        ProviderKind::Local
    }
}

/// A task that can be run: its name (its role, such as `build`), the command
/// line, how it is shown, and whether it runs through a shell.
#[derive(Debug)]
pub struct Task {
    pub provider: ProviderKind,
    pub task: String,
    pub exec_line: String,
    pub emoji: String,
    pub emoji_text: String,
    pub sh: bool,
    pub details: Option<String>,
}

/// The value a task stands for, with its texts as character sequences.
pub struct TaskView {
    pub provider: ProviderKind,
    pub task: Seq<char>,
    pub exec_line: Seq<char>,
    pub emoji: Seq<char>,
    pub emoji_text: Seq<char>,
    pub sh: bool,
    pub details: Option<Seq<char>>,
}

/// The view of an optional text.
pub open spec fn opt_text(o: Option<String>) -> Option<Seq<char>> {
    match o {
        Some(s) => Some(s@),
        None => None,
    }
}

impl View for Task {
    type V = TaskView;

    open spec fn view(&self) -> TaskView {
        TaskView {
            provider: self.provider,
            task: self.task@,
            exec_line: self.exec_line@,
            emoji: self.emoji@,
            emoji_text: self.emoji_text@,
            sh: self.sh,
            details: opt_text(self.details),
        }
    }
}

impl DeepView for Task {
    type V = TaskView;

    open spec fn deep_view(&self) -> TaskView {
        self@
    }
}

/// A copy of an optional text.
pub fn copy_opt_text(o: &Option<String>) -> (r: Option<String>)
    ensures
        opt_text(r) == opt_text(*o),
{
    match o {
        Some(s) => Some(s.clone()),
        None => None,
    }
}

impl Clone for Task {
    fn clone(&self) -> (r: Self)
        ensures
            r@ == self@,
    {
        Task {
            provider: self.provider,
            task: self.task.clone(),
            exec_line: self.exec_line.clone(),
            emoji: self.emoji.clone(),
            emoji_text: self.emoji_text.clone(),
            sh: self.sh,
            details: copy_opt_text(&self.details),
        }
    }
}

impl Default for Task {
    fn default() -> (r: Self)
        ensures
            r@ == (TaskView {
                provider: ProviderKind::Local,
                task: Seq::empty(),
                exec_line: Seq::empty(),
                emoji: Seq::empty(),
                emoji_text: Seq::empty(),
                sh: false,
                details: None,
            }),
    {
        Task {
            provider: ProviderKind::Local,
            task: String::new(),
            exec_line: String::new(),
            emoji: String::new(),
            emoji_text: String::new(),
            sh: false,
            details: None,
        }
    }
}


/// A rule that gives a discovered script a role: a script whose name the
/// pattern `expr` matches becomes the task called `task`.
#[derive(Debug)]
pub struct Matcher {
    pub task: String,
    pub expr: String,
}

/// The value a matcher stands for.
pub struct MatcherView {
    pub task: Seq<char>,
    pub expr: Seq<char>,
}

impl View for Matcher {
    type V = MatcherView;

    open spec fn view(&self) -> MatcherView {
        MatcherView { task: self.task@, expr: self.expr@ }
    }
}

impl DeepView for Matcher {
    type V = MatcherView;

    open spec fn deep_view(&self) -> MatcherView {
        self@
    }
}

/// How a provider turns what it found into tasks: the matchers that give
/// scripts their roles (none when the provider matches nothing), and the tasks
/// it offers by default.
#[derive(Debug)]
pub struct ProviderConfig {
    pub matchers: Option<Vec<Matcher>>,
    pub defaults: Vec<Task>,
}

/// The tasks of a local task file: each task under its name, each name once.
#[derive(Debug)]
pub struct MMFile {
    pub tasks: StrMap<Task>,
}

/// A source of tasks: it reads what its `Source` holds (a file's text, or
/// whether a file exists) and offers the tasks found there.
pub trait TaskProvider {
    /// What the provider reads from the project.
    type Source;

    /// The tasks that `source` offers.
    spec fn provides(&self, source: &Self::Source) -> Seq<TaskView>;

    /// Parses `source` into tasks.
    fn parse(&self, source: &Self::Source) -> (tasks: Vec<Task>)
        ensures
            tasks.deep_view() == self.provides(source),
    ;
}


/// Does some task in `tasks` have the name `n`?
pub open spec fn has_task_named(tasks: Seq<TaskView>, n: Seq<char>) -> bool {
    exists|k: int| 0 <= k < tasks.len() && #[trigger] tasks[k].task == n
}

/// Which discovered tasks are listed: none that a local task of the same name
/// overrides, and unassigned ones only when they are asked for.
pub open spec fn kept(local: Seq<TaskView>, include_unassigned: bool) -> spec_fn(TaskView) -> bool {
    |t: TaskView| !has_task_named(local, t.task) && (t.task != unassigned_name() || include_unassigned)
}

/// All local tasks, then the kept tasks of each discovered group in turn.
pub open spec fn merged(
    local: Seq<TaskView>,
    groups: Seq<Seq<TaskView>>,
    include_unassigned: bool,
) -> Seq<TaskView>
    decreases groups.len(),
{
    if groups.len() == 0 {
        local
    } else {
        merged(local, groups.drop_last(), include_unassigned) + groups.last().filter(
            kept(local, include_unassigned),
        )
    }
}

/// What `resolve` returns: with a task name, the merged tasks of that name in
/// merge order; without one, all merged tasks as a stable listing by name.
pub open spec fn resolved(
    task: Option<Seq<char>>,
    merged_tasks: Seq<TaskView>,
    out: Seq<TaskView>,
) -> bool {
    match task {
        Some(n) => out == merged_tasks.filter(named(n)),
        None => is_listing_of(out, merged_tasks),
    }
}

/// Is there a task named `n` in `tasks`?
pub(crate) fn any_named(tasks: &[Task], n: &str) -> (r: bool)
    ensures
        r == has_task_named(tasks.deep_view(), n@),
{
    let ghost tv = tasks.deep_view();
    for k in 0..tasks.len()
        invariant
            tv == tasks.deep_view(),
            forall|j: int| 0 <= j < k ==> tv[j].task != n@,
    {
        assert(tv[k as int] == tasks[k as int]@);
        if crate::text::same_text(tasks[k].task.as_str(), n) {
            assert(tv[k as int].task == n@);
            return true;
        }
    }
    false
}

/// The tasks of `tasks` whose name is `n`, in order.
fn select_named(tasks: &Vec<Task>, n: &str) -> (out: Vec<Task>)
    ensures
        out.deep_view() == tasks.deep_view().filter(named(n@)),
{
    let ghost tv = tasks.deep_view();
    let mut out: Vec<Task> = Vec::new();
    assert(tv.take(0) =~= Seq::<TaskView>::empty());
    assert(out.deep_view() =~= Seq::<TaskView>::empty());
    proof {
        reveal(Seq::filter);
    }
    for k in 0..tasks.len()
        invariant
            tv == tasks.deep_view(),
            out.deep_view() == tv.take(k as int).filter(named(n@)),
    {
        assert(tv[k as int] == tasks[k as int]@);
        assert(tv.take(k + 1) =~= tv.take(k as int).push(tv[k as int]));
        proof {
            tv.take(k as int).lemma_filter_push(tv[k as int], named(n@));
        }
        let ghost before = out.deep_view();
        if crate::text::same_text(tasks[k].task.as_str(), n) {
            out.push(tasks[k].clone());
            assert(out.deep_view() =~= before.push(tv[k as int]));
        }
    }
    assert(tv.take(tasks@.len() as int) == tv);
    out
}

/// Merges local tasks with discovered ones and lists them.
///
/// Local tasks are all kept, and a local task hides every discovered task of
/// the same name. Discovered tasks named `unassigned` are kept only when
/// `include_unassigned` holds. The result is sorted by name, nameless tasks
/// last, in a stable way; given a `task` name, only the tasks of that name remain.
pub fn resolve(
    task: Option<&String>,
    include_unassigned: bool,
    local: &[Task],
    discovered: &[Vec<Task>],
) -> (out: Vec<Task>)
    ensures
        resolved(
            match task {
                Some(t) => Some(t@),
                None => None,
            },
            merged(local.deep_view(), discovered.deep_view(), include_unassigned),
            out.deep_view(),
        ),
{
    let ghost lv = local.deep_view();
    let ghost gv = discovered.deep_view();
    let mut all: Vec<Task> = Vec::new();
    for k in 0..local.len()
        invariant
            lv == local.deep_view(),
            all.deep_view() == lv.take(k as int),
    {
        assert(lv[k as int] == local[k as int]@);
        let ghost before = all.deep_view();
        all.push(local[k].clone());
        assert(all.deep_view() =~= before.push(lv[k as int]));
        assert(all.deep_view() =~= lv.take(k + 1));
    }
    assert(lv.take(local@.len() as int) == lv);
    let unassigned = cmd_none();
    for g in 0..discovered.len()
        invariant
            lv == local.deep_view(),
            gv == discovered.deep_view(),
            unassigned@ == unassigned_name(),
            all.deep_view() == merged(lv, gv.take(g as int), include_unassigned),
    {
        let group = &discovered[g];
        let ghost grp = gv[g as int];
        assert(grp == group.deep_view());
        let ghost base = all.deep_view();
        let ghost f = kept(lv, include_unassigned);
        assert(grp.take(0) =~= Seq::<TaskView>::empty());
        proof {
            reveal(Seq::filter);
        }
        assert(base + grp.take(0).filter(f) =~= base);
        for k in 0..group.len()
            invariant
                grp == group.deep_view(),
                lv == local.deep_view(),
                unassigned@ == unassigned_name(),
                f == kept(lv, include_unassigned),
                all.deep_view() == base + grp.take(k as int).filter(f),
        {
            let t = &group[k];
            assert(grp[k as int] == t@);
            assert(grp.take(k + 1) =~= grp.take(k as int).push(grp[k as int]));
            proof {
                grp.take(k as int).lemma_filter_push(grp[k as int], f);
            }
            let ghost before = all.deep_view();
            let keep = !any_named(local, t.task.as_str()) && (include_unassigned
                || !crate::text::same_text(t.task.as_str(), unassigned.as_str()));
            if keep {
                all.push(t.clone());
                assert(all.deep_view() =~= before.push(grp[k as int]));
            }
            assert(all.deep_view() =~= base + grp.take(k + 1).filter(f));
        }
        assert(grp.take(group@.len() as int) == grp);
        assert(gv.take(g + 1).drop_last() =~= gv.take(g as int));
        assert(gv.take(g + 1).last() == grp);
    }
    assert(gv.take(discovered@.len() as int) == gv);
    let sorted = sort_by_name(all);
    match task {
        Some(t) => select_named(&sorted, t.as_str()),
        None => sorted,
    }
}


/// Everything the providers read from a project.
#[derive(Debug)]
pub struct Sources {
    /// The local task file, if there is one.
    pub local: Option<MMFile>,
    /// Whether there is a `Cargo.toml`.
    pub cargo: bool,
    /// The npm scripts, if there is a `package.json`.
    pub npm: Option<NpmProject>,
    /// The text of the Makefile, if there is one.
    pub makefile: Option<String>,
}

/// The local tasks of a project.
pub open spec fn local_of(sources: &Sources) -> Seq<TaskView> {
    (Local {}).provides(&sources.local)
}

/// The tasks that the other providers discover, one group per provider:
/// Cargo, npm, then make.
pub open spec fn discovered_of(sources: &Sources) -> Seq<Seq<TaskView>> {
    seq![
        (Cargo {}).provides(&sources.cargo),
        (Npm {}).provides(&sources.npm),
        (Makefile {}).provides(&sources.makefile),
    ]
}

/// Runs every provider: the local tasks, and the groups of discovered tasks.
pub fn parse(sources: &Sources) -> (r: (Vec<Task>, Vec<Vec<Task>>))
    ensures
        r.0.deep_view() == local_of(sources),
        r.1.deep_view() == discovered_of(sources),
{
    let local = (Local {}).parse(&sources.local);
    let mut rest: Vec<Vec<Task>> = Vec::new();
    rest.push((Cargo {}).parse(&sources.cargo));
    rest.push((Npm {}).parse(&sources.npm));
    rest.push((Makefile {}).parse(&sources.makefile));
    assert(rest.deep_view() =~= discovered_of(sources));
    (local, rest)
}

/// The tasks of a project as they are offered: every provider's tasks merged
/// and resolved as `resolve` does, for the task name `input` if one is given.
pub fn discover(input: Option<&String>, sources: &Sources, all: bool) -> (out: Vec<Task>)
    ensures
        resolved(
            match input {
                Some(t) => Some(t@),
                None => None,
            },
            merged(local_of(sources), discovered_of(sources), all),
            out.deep_view(),
        ),
{
    let (local, discovered) = parse(sources);
    resolve(input, all, local.as_slice(), discovered.as_slice())
}


/// Filtering keeps nothing when nothing passes.
pub proof fn lemma_filter_none(s: Seq<TaskView>, p: spec_fn(TaskView) -> bool)
    requires
        forall|i: int| 0 <= i < s.len() ==> !p(#[trigger] s[i]),
    ensures
        s.filter(p) == Seq::<TaskView>::empty(),
    decreases s.len(),
{
    reveal(Seq::filter);
    if s.len() > 0 {
        lemma_filter_none(s.drop_last(), p);
    }
}

/// Of a name that a local task has, or of `unassigned` when unassigned tasks
/// are left out, merging keeps exactly the local tasks.
pub proof fn lemma_merged_keeps_only_local(
    local: Seq<TaskView>,
    groups: Seq<Seq<TaskView>>,
    include_unassigned: bool,
    n: Seq<char>,
)
    requires
        has_task_named(local, n) || (n == unassigned_name() && !include_unassigned),
    ensures
        merged(local, groups, include_unassigned).filter(named(n)) == local.filter(named(n)),
    decreases groups.len(),
{
    if groups.len() > 0 {
        let f = kept(local, include_unassigned);
        let g = groups.last().filter(f);
        lemma_merged_keeps_only_local(local, groups.drop_last(), include_unassigned, n);
        assert forall|i: int| 0 <= i < g.len() implies !named(n)(#[trigger] g[i]) by {
            groups.last().lemma_filter_pred(f, i);
        }
        lemma_filter_none(g, named(n));
        Seq::filter_distributes_over_add(merged(local, groups.drop_last(), include_unassigned), g, named(n));
        assert(merged(local, groups.drop_last(), include_unassigned).filter(named(n)) + Seq::<TaskView>::empty()
            =~= local.filter(named(n)));
    }
}

/// A local task hides the discovered tasks of its name: when all tasks are
/// listed, the tasks listed under a name that some local task has are
/// exactly the local tasks of that name, in their order.
pub proof fn lemma_local_overrides(
    local: Seq<TaskView>,
    groups: Seq<Seq<TaskView>>,
    include_unassigned: bool,
    out: Seq<TaskView>,
    n: Seq<char>,
)
    requires
        resolved(None, merged(local, groups, include_unassigned), out),
        has_task_named(local, n),
    ensures
        out.filter(named(n)) == local.filter(named(n)),
{
    lemma_merged_keeps_only_local(local, groups, include_unassigned, n);
}

/// Unless unassigned tasks are asked for, the only tasks listed as
/// `unassigned` are local ones.
pub proof fn lemma_unassigned_left_out(
    local: Seq<TaskView>,
    groups: Seq<Seq<TaskView>>,
    out: Seq<TaskView>,
)
    requires
        resolved(None, merged(local, groups, false), out),
    ensures
        out.filter(named(unassigned_name())) == local.filter(named(unassigned_name())),
{
    lemma_merged_keeps_only_local(local, groups, false, unassigned_name());
}

/// Asking for a task by name gives the tasks of the full listing that have
/// that name, in the same order.
pub proof fn lemma_named_query_narrows_listing(
    merged_tasks: Seq<TaskView>,
    n: Seq<char>,
    one: Seq<TaskView>,
    all: Seq<TaskView>,
)
    requires
        resolved(Some(n), merged_tasks, one),
        resolved(None, merged_tasks, all),
    ensures
        one == all.filter(named(n)),
{
}

/// A discovered task that no local task's name hides, and that is not
/// `unassigned` unless those are asked for, is among the merged tasks.
proof fn lemma_merged_contains(
    local: Seq<TaskView>,
    groups: Seq<Seq<TaskView>>,
    include_unassigned: bool,
    g: int,
    i: int,
)
    requires
        0 <= g < groups.len(),
        0 <= i < groups[g].len(),
        !has_task_named(local, groups[g][i].task),
        groups[g][i].task != unassigned_name() || include_unassigned,
    ensures
        merged(local, groups, include_unassigned).contains(groups[g][i]),
    decreases groups.len(),
{
    let t = groups[g][i];
    let before = merged(local, groups.drop_last(), include_unassigned);
    let added = groups.last().filter(kept(local, include_unassigned));
    assert(merged(local, groups, include_unassigned) == before + added);
    if g == groups.len() - 1 {
        groups.last().lemma_filter_contains(kept(local, include_unassigned), i);
        let j = choose|j: int| 0 <= j < added.len() && added[j] == t;
        assert((before + added)[before.len() + j] == t);
    } else {
        assert(groups.drop_last()[g] == groups[g]);
        lemma_merged_contains(local, groups.drop_last(), include_unassigned, g, i);
        let j = choose|j: int| 0 <= j < before.len() && before[j] == t;
        assert((before + added)[j] == t);
    }
}

/// Every discovered task, whatever its provider, is offered unless a local
/// task of its name hides it or it is `unassigned` and those were not asked
/// for: it is in the full listing, and in the answer to its own name.
pub proof fn lemma_discovered_task_offered(
    local: Seq<TaskView>,
    groups: Seq<Seq<TaskView>>,
    include_unassigned: bool,
    g: int,
    i: int,
    query: Option<Seq<char>>,
    out: Seq<TaskView>,
)
    requires
        0 <= g < groups.len(),
        0 <= i < groups[g].len(),
        !has_task_named(local, groups[g][i].task),
        groups[g][i].task != unassigned_name() || include_unassigned,
        query == None::<Seq<char>> || query == Some(groups[g][i].task),
        resolved(query, merged(local, groups, include_unassigned), out),
    ensures
        out.contains(groups[g][i]),
{
    let t = groups[g][i];
    let m = merged(local, groups, include_unassigned);
    lemma_merged_contains(local, groups, include_unassigned, g, i);
    let j = choose|j: int| 0 <= j < m.len() && m[j] == t;
    m.lemma_filter_contains(named(t.task), j);
    if query is None {
        assert(out.filter(named(t.task)) == m.filter(named(t.task)));
        out.lemma_filter_contains_rev(named(t.task), t);
    }
}

/// The merged tasks start with all local tasks, in their order.
proof fn lemma_merged_starts_with_local(
    local: Seq<TaskView>,
    groups: Seq<Seq<TaskView>>,
    include_unassigned: bool,
)
    ensures
        merged(local, groups, include_unassigned).len() >= local.len(),
        merged(local, groups, include_unassigned).take(local.len() as int) == local,
    decreases groups.len(),
{
    if groups.len() > 0 {
        let before = merged(local, groups.drop_last(), include_unassigned);
        let added = groups.last().filter(kept(local, include_unassigned));
        lemma_merged_starts_with_local(local, groups.drop_last(), include_unassigned);
        assert((before + added).take(local.len() as int) =~= before.take(local.len() as int));
    }
}

/// Every local task is offered: it is in the full listing, and in the answer
/// to its own name.
pub proof fn lemma_local_task_offered(
    local: Seq<TaskView>,
    groups: Seq<Seq<TaskView>>,
    include_unassigned: bool,
    i: int,
    query: Option<Seq<char>>,
    out: Seq<TaskView>,
)
    requires
        0 <= i < local.len(),
        query == None::<Seq<char>> || query == Some(local[i].task),
        resolved(query, merged(local, groups, include_unassigned), out),
    ensures
        out.contains(local[i]),
{
    let t = local[i];
    let m = merged(local, groups, include_unassigned);
    lemma_merged_starts_with_local(local, groups, include_unassigned);
    assert(m[i] == m.take(local.len() as int)[i]);
    m.lemma_filter_contains(named(t.task), i);
    if query is None {
        assert(out.filter(named(t.task)) == m.filter(named(t.task)));
        out.lemma_filter_contains_rev(named(t.task), t);
    }
}

} // verus!
