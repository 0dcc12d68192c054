use vstd::prelude::*;

use crate::exec::{plan_of, RunPlan};
use crate::strmap::StrMap;
use crate::text::{lemma_replace_absent, occurs_at_pos, replace_all, replace_text};

verus! {

/// A link of the project, opened in the browser.
#[derive(Debug)]
pub struct Link {
    pub url: String,
    pub title: String,
}

/// The value a link stands for.
pub struct LinkView {
    pub url: Seq<char>,
    pub title: Seq<char>,
}

impl DeepView for Link {
    type V = LinkView;

    open spec fn deep_view(&self) -> LinkView {
        LinkView { url: self.url@, title: self.title@ }
    }
}

impl Clone for Link {
    fn clone(&self) -> (r: Self)
        ensures
            r.deep_view() == self.deep_view(),
    {
        Link { url: self.url.clone(), title: self.title.clone() }
    }
}

impl Default for Link {
    fn default() -> (r: Self)
        ensures
            r.deep_view() == (LinkView { url: Seq::empty(), title: Seq::empty() }),
    {
        Link { url: String::new(), title: String::new() }
    }
}

/// A folder of the project, to change into.
#[derive(Debug)]
pub struct Folder {
    pub path: String,
    pub title: String,
}

/// The value a folder stands for.
pub struct FolderView {
    pub path: Seq<char>,
    pub title: Seq<char>,
}

impl DeepView for Folder {
    type V = FolderView;

    open spec fn deep_view(&self) -> FolderView {
        FolderView { path: self.path@, title: self.title@ }
    }
}

impl Clone for Folder {
    fn clone(&self) -> (r: Self)
        ensures
            r.deep_view() == self.deep_view(),
    {
        Folder { path: self.path.clone(), title: self.title.clone() }
    }
}

impl Default for Folder {
    fn default() -> (r: Self)
        ensures
            r.deep_view() == (FolderView { path: Seq::empty(), title: Seq::empty() }),
    {
        Folder { path: String::new(), title: String::new() }
    }
}

/// A shortcut that the listing shows by its title.
pub trait Titled: DeepView + Sized {
    /// The title held in the shortcut's value.
    spec fn title_of(v: <Self as DeepView>::V) -> Seq<char>;

    /// The shortcut's title.
    fn title(&self) -> (t: &String)
        ensures
            t@ == Self::title_of(self.deep_view()),
    ;
}

impl Titled for Link {
    open spec fn title_of(v: LinkView) -> Seq<char> {
        v.title
    }

    fn title(&self) -> (t: &String) {
        &self.title
    }
}

impl Titled for Folder {
    open spec fn title_of(v: FolderView) -> Seq<char> {
        v.title
    }

    fn title(&self) -> (t: &String) {
        &self.title
    }
}

/// A command of the project, with variants for some operating systems. Its
/// command line may hold the placeholder `{{path}}`.
#[derive(Debug)]
pub struct Command {
    pub title: String,
    pub exec_line: String,
    pub platforms: Option<StrMap<String>>,
}

/// The value a command stands for.
pub struct CommandView {
    pub title: Seq<char>,
    pub exec_line: Seq<char>,
    pub platforms: Option<Map<Seq<char>, Seq<char>>>,
}

impl DeepView for Command {
    type V = CommandView;

    open spec fn deep_view(&self) -> CommandView {
        CommandView {
            title: self.title@,
            exec_line: self.exec_line@,
            platforms: self.platforms.deep_view(),
        }
    }
}

impl Default for Command {
    fn default() -> (r: Self)
        ensures
            r.deep_view() == (CommandView {
                title: Seq::empty(),
                exec_line: Seq::empty(),
                platforms: None,
            }),
    {
        Command { title: String::new(), exec_line: String::new(), platforms: None }
    }
}

/// The placeholder that a command line may hold for a path.
pub open spec fn path_placeholder() -> Seq<char> {
    "{{path}}"@
}

/// The command line of `c` on the operating system `os`: its variant for
/// `os` if it has one, else its own; with `{{path}}` replaced by `path` when a
/// path is given.
pub open spec fn command_line(c: CommandView, os: Seq<char>, path: Option<Seq<char>>) -> Seq<char> {
    let base = match c.platforms {
        Some(p) => if p.contains_key(os) {
            p[os]
        } else {
            c.exec_line
        },
        None => c.exec_line,
    };
    match path {
        Some(p) => replace_all(base, path_placeholder(), p),
        None => base,
    }
}

/// The command line of `c` on `os` before any path is put in.
pub open spec fn base_line(c: CommandView, os: Seq<char>) -> Seq<char> {
    command_line(c, os, None)
}

/// A path changes nothing in a command line that holds no placeholder.
pub proof fn lemma_path_needs_placeholder(c: CommandView, os: Seq<char>, path: Seq<char>)
    requires
        forall|i: int| !occurs_at_pos(base_line(c, os), path_placeholder(), i),
    ensures
        command_line(c, os, Some(path)) == command_line(c, os, None),
{
    reveal_strlit("{{path}}");
    lemma_replace_absent(base_line(c, os), path_placeholder(), path);
}

impl Command {
    /// The command line to run on the operating system `os` (as
    /// `std::env::consts::OS` names it), with `{{path}}` replaced by `path`
    /// when one is given.
    pub fn get_exec(&self, os: &str, path: Option<&str>) -> (r: String)
        ensures
            r@ == command_line(
                self.deep_view(),
                os@,
                match path {
                    Some(p) => Some(p@),
                    None => None,
                },
            ),
    {
        let base: String = match &self.platforms {
            Some(p) => match p.get(os) {
                Some(v) => v.clone(),
                None => self.exec_line.clone(),
            },
            None => self.exec_line.clone(),
        };
        match path {
            Some(p) => {
                proof {
                    reveal_strlit("{{path}}");
                }
                replace_text(base.as_str(), "{{path}}", p)
            },
            None => base,
        }
    }

    /// How to run the command on the operating system `os`: its command line,
    /// split at spaces, run from the current folder.
    pub fn exec(&self, os: &str, path: Option<&str>) -> (r: RunPlan)
        ensures
            r.deep_view() == plan_of(
                "."@,
                false,
                command_line(
                    self.deep_view(),
                    os@,
                    match path {
                        Some(p) => Some(p@),
                        None => None,
                    },
                ),
            ),
    {
        let line = self.get_exec(os, path);
        proof {
            reveal_strlit(".");
        }
        crate::exec::run_line(".", false, line.as_str())
    }
}

/// The shortcuts of a project: links, folders and commands, each under a name.
#[derive(Debug)]
pub struct Shortcuts {
    pub links: Option<StrMap<Link>>,
    pub folders: Option<StrMap<Folder>>,
    pub commands: Option<StrMap<Command>>,
}

impl Default for Shortcuts {
    fn default() -> (r: Self)
        ensures
            r.links.is_none(),
            r.folders.is_none(),
            r.commands.is_none(),
    {
        Shortcuts { links: None, folders: None, commands: None }
    }
}

/// The shortcuts part of a project's configuration.
#[derive(Debug)]
pub struct ShortcutsConfig {
    pub shortcuts: Option<Shortcuts>,
}

impl Default for ShortcutsConfig {
    fn default() -> (r: Self)
        ensures
            r.shortcuts.is_none(),
    {
        ShortcutsConfig { shortcuts: None }
    }
}

/// The entry under `name` in an optional map.
pub open spec fn lookup<W>(m: Option<Map<Seq<char>, W>>, name: Option<Seq<char>>) -> Option<W> {
    match (m, name) {
        (Some(m), Some(n)) => if m.contains_key(n) {
            Some(m[n])
        } else {
            None
        },
        _ => None,
    }
}

/// The optional text an optional `&String` stands for.
pub open spec fn opt_name(input: Option<&String>) -> Option<Seq<char>> {
    match input {
        Some(s) => Some(s@),
        None => None,
    }
}

impl ShortcutsConfig {
    /// The folders of the configuration, if it has any.
    pub open spec fn folders_view(&self) -> Option<Map<Seq<char>, FolderView>> {
        match self.shortcuts {
            Some(s) => s.folders.deep_view(),
            None => None,
        }
    }

    /// The links of the configuration, if it has any.
    pub open spec fn links_view(&self) -> Option<Map<Seq<char>, LinkView>> {
        match self.shortcuts {
            Some(s) => s.links.deep_view(),
            None => None,
        }
    }

    /// The folder named `input`, if a name is given and the configuration has it.
    pub fn find_folder(&self, input: Option<&String>) -> (r: Option<Folder>)
        ensures
            r.deep_view() == lookup(self.folders_view(), opt_name(input)),
    {
        let name = match input {
            Some(n) => n,
            None => {
                return None;
            },
        };
        match &self.shortcuts {
            Some(s) => match &s.folders {
                Some(f) => match f.get(name.as_str()) {
                    Some(folder) => Some(folder.clone()),
                    None => None,
                },
                None => None,
            },
            None => None,
        }
    }

    /// The link named `input`, if a name is given and the configuration has it.
    pub fn find_link(&self, input: Option<&String>) -> (r: Option<Link>)
        ensures
            r.deep_view() == lookup(self.links_view(), opt_name(input)),
    {
        let name = match input {
            Some(n) => n,
            None => {
                return None;
            },
        };
        match &self.shortcuts {
            Some(s) => match &s.links {
                Some(l) => match l.get(name.as_str()) {
                    Some(link) => Some(link.clone()),
                    None => None,
                },
                None => None,
            },
            None => None,
        }
    }
}

} // verus!
