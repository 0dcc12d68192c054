use vstd::prelude::*;

use crate::alias::{first_alias, AliasMap};
use crate::shortcuts::{Shortcuts, Titled};
use crate::strmap::StrMap;
use crate::style::{dimmed, dimmed_text, underline, underlined_text, yellow, yellow_text};
use crate::tasks::{cmd_none, unassigned_name, Task, TaskView};
use crate::text::{concat, join_space, same_text};

use tabled::builder::Builder;
use tabled::Style;

verus! {

/// One row of the task table.
#[derive(Debug)]
pub struct TableEntry {
    pub symbol: String,
    pub task: String,
    pub exec_line: String,
    pub details: String,
}

/// The texts of a row of the task table.
pub struct TableEntryView {
    pub symbol: Seq<char>,
    pub task: Seq<char>,
    pub exec_line: Seq<char>,
    pub details: Seq<char>,
}

impl DeepView for TableEntry {
    type V = TableEntryView;

    open spec fn deep_view(&self) -> TableEntryView {
        TableEntryView {
            symbol: self.symbol@,
            task: self.task@,
            exec_line: self.exec_line@,
            details: self.details@,
        }
    }
}

/// The task column for a task named `name` whose first alias is `alias`:
/// `---` for an unassigned task, else the name, a space, and the alias in
/// parentheses if there is one.
pub open spec fn task_column(name: Seq<char>, alias: Option<Seq<char>>) -> Seq<char> {
    if name == unassigned_name() {
        "---"@
    } else {
        name + seq![' '] + match alias {
            Some(a) => "("@ + a + ")"@,
            None => Seq::empty(),
        }
    }
}

/// The row that shows task `t`, given the alias entries.
pub open spec fn table_row(t: TaskView, aliases: Seq<(Seq<char>, Seq<char>)>) -> TableEntryView {
    TableEntryView {
        symbol: t.emoji,
        task: task_column(t.task, first_alias(aliases, t.task)),
        exec_line: t.exec_line,
        details: match t.details {
            Some(d) => d,
            None => Seq::empty(),
        },
    }
}

/// The row that shows `t`.
pub fn table_entry(t: &Task, aliases: &AliasMap) -> (e: TableEntry)
    ensures
        e.deep_view() == table_row(t@, aliases.entries()),
{
    let unassigned = cmd_none();
    let task = if same_text(t.task.as_str(), unassigned.as_str()) {
        "---".to_owned()
    } else {
        let suffix = match aliases.ntoa(t.task.as_str()) {
            Some(a) => {
                let open = concat("(", a.as_str());
                concat(open.as_str(), ")")
            },
            None => String::new(),
        };
        join_space(t.task.as_str(), suffix.as_str())
    };
    let details = match &t.details {
        Some(d) => d.clone(),
        None => String::new(),
    };
    TableEntry { symbol: t.emoji.clone(), task, exec_line: t.exec_line.clone(), details }
}

/// The rows of the task table, one per task, in order.
pub fn table_entries(tasks: &[Task], aliases: &AliasMap) -> (rows: Vec<TableEntry>)
    ensures
        rows.deep_view() == tasks.deep_view().map_values(
            |t: TaskView| table_row(t, aliases.entries()),
        ),
{
    let ghost tv = tasks.deep_view();
    let mut rows: Vec<TableEntry> = Vec::new();
    for i in 0..tasks.len()
        invariant
            tv == tasks.deep_view(),
            rows.deep_view() =~= tv.take(i as int).map_values(
                |t: TaskView| table_row(t, aliases.entries()),
            ),
    {
        assert(tv[i as int] == tasks[i as int]@);
        let ghost before = rows.deep_view();
        rows.push(table_entry(&tasks[i], aliases));
        assert(rows.deep_view() =~= before.push(table_row(tv[i as int], aliases.entries())));
    }
    assert(tv.take(tasks@.len() as int) == tv);
    rows
}

/// One listed shortcut: two spaces, the name in yellow, a space, the title
/// dimmed, and a line break.
pub open spec fn shortcut_line(name: Seq<char>, title: Seq<char>) -> Seq<char> {
    "  "@ + yellow_text(name) + " "@ + dimmed_text(title) + "\n"@
}

/// The lines of the shortcuts `entries` (name and title), in order.
pub open spec fn shortcut_lines(entries: Seq<(Seq<char>, Seq<char>)>) -> Seq<char>
    decreases entries.len(),
{
    if entries.len() == 0 {
        Seq::empty()
    } else {
        shortcut_lines(entries.drop_last()) + shortcut_line(entries.last().0, entries.last().1)
    }
}

/// A section of the listing: nothing when the entries are absent or empty,
/// else the underlined heading and a line per entry.
pub open spec fn section(heading: Seq<char>, entries: Option<Seq<(Seq<char>, Seq<char>)>>) -> Seq<char> {
    match entries {
        Some(e) => if e.len() == 0 {
            Seq::empty()
        } else {
            underlined_text(heading) + shortcut_lines(e)
        },
        None => Seq::empty(),
    }
}

/// Name and title of each shortcut of `m`, in key order.
pub open spec fn titles_of<V: Titled>(m: &StrMap<V>) -> Seq<(Seq<char>, Seq<char>)> {
    m.entries().map_values(|e: (Seq<char>, V::V)| (e.0, V::title_of(e.1)))
}

/// The titles of the shortcuts of `m`, if there are any.
pub open spec fn titles_if<V: Titled>(m: &Option<StrMap<V>>) -> Option<Seq<(Seq<char>, Seq<char>)>> {
    match m {
        Some(s) => Some(titles_of(s)),
        None => None,
    }
}

/// The listing that follows the task table: nothing without shortcuts, else a
/// line break, then the links section and the folders section.
pub open spec fn shortcuts_listing(shortcuts: &Option<Shortcuts>) -> Seq<char> {
    match shortcuts {
        Some(s) => "\n"@ + section("links:\n"@, titles_if(&s.links)) + section(
            "folders:\n"@,
            titles_if(&s.folders),
        ),
        None => Seq::empty(),
    }
}

/// Appends `line` for a shortcut to `out`.
fn push_shortcut(out: &mut String, name: &str, title: &str)
    ensures
        final(out)@ == old(out)@ + shortcut_line(name@, title@),
{
    out.append("  ");
    let y = yellow(name);
    out.append(y.as_str());
    out.append(" ");
    let d = dimmed(title);
    out.append(d.as_str());
    out.append("\n");
    assert(final(out)@ =~= old(out)@ + shortcut_line(name@, title@));
}

/// The section under `heading` that lists the shortcuts `shortcuts`.
fn section_text<V: Titled>(heading: &str, shortcuts: &Option<StrMap<V>>) -> (r: String)
    ensures
        r@ == section(heading@, titles_if(shortcuts)),
{
    let mut out = String::new();
    match shortcuts {
        Some(m) => {
            let n = m.len();
            let ghost ts = titles_of(m);
            if n == 0 {
                assert(ts =~= Seq::<(Seq<char>, Seq<char>)>::empty());
                return out;
            }
            let h = underline(heading);
            out.append(h.as_str());
            assert(ts.take(0) =~= Seq::<(Seq<char>, Seq<char>)>::empty());
            for i in 0..n
                invariant
                    n == m.entries().len(),
                    ts == titles_of(m),
                    out@ == underlined_text(heading@) + shortcut_lines(ts.take(i as int)),
            {
                let k = m.key_at(i);
                let v = m.value_at(i);
                push_shortcut(&mut out, k.as_str(), v.title().as_str());
                assert(ts.take(i + 1).drop_last() =~= ts.take(i as int));
            }
            assert(ts.take(n as int) == ts);
            out
        },
        None => out,
    }
}

/// The text that `tabled` draws for a table with the header cells `columns`
/// and the rows `rows` (each row's cells: symbol, task, command line,
/// details), in the rounded style.
pub uninterp spec fn drawn_table(columns: Seq<Seq<char>>, rows: Seq<TableEntryView>) -> Seq<char>;

/// Draws the table with `tabled::builder::Builder` (`set_columns`, then one
/// `add_record` per row, then `build`) and `tabled::Style::rounded`, and
/// displays it into a `String`. Trusted: the text is claimed to be a function
/// of the header and the rows alone, named `drawn_table`; how the table looks
/// is not stated.
#[verifier::external_body]
pub(crate) fn draw_table(columns: &Vec<String>, rows: &Vec<TableEntry>) -> (r: String)
    ensures
        r@ == drawn_table(columns.deep_view(), rows.deep_view()),
{
    let mut b = Builder::default();
    b.set_columns(columns.iter().cloned());
    for row in rows.iter() {
        b.add_record([row.symbol.clone(), row.task.clone(), row.exec_line.clone(), row.details.clone()]);
    }
    b.build().with(Style::rounded()).to_string()
}

/// The header of the task table: an unnamed column for the icon, then task,
/// exec and details.
pub open spec fn table_header() -> Seq<Seq<char>> {
    seq![""@, "task"@, "exec"@, "details"@]
}

/// The header cells of the task table.
pub fn table_columns() -> (c: Vec<String>)
    ensures
        c.deep_view() == table_header(),
{
    let mut c: Vec<String> = Vec::new();
    c.push("".to_owned());
    c.push("task".to_owned());
    c.push("exec".to_owned());
    c.push("details".to_owned());
    assert(c.deep_view() =~= table_header());
    c
}

/// `table`, a drawn task table, followed by the shortcuts listing.
pub fn append_shortcuts(table: &str, shortcuts: &Option<Shortcuts>) -> (out: String)
    ensures
        out@ == table@ + shortcuts_listing(shortcuts),
{
    let mut out = table.to_owned();
    match shortcuts {
        Some(s) => {
            out.append("\n");
            let l = section_text("links:\n", &s.links);
            out.append(l.as_str());
            let f = section_text("folders:\n", &s.folders);
            out.append(f.as_str());
        },
        None => {},
    }
    out
}

/// The listing of tasks and shortcuts: the table of the tasks' rows, drawn
/// with rounded borders, followed by the shortcuts listing.
pub fn render(tasks: &[Task], aliases: &AliasMap, shortcuts: &Option<Shortcuts>) -> (out: String)
    ensures
        out@ == drawn_table(
            table_header(),
            tasks.deep_view().map_values(|t: TaskView| table_row(t, aliases.entries())),
        ) + shortcuts_listing(shortcuts),
{
    let columns = table_columns();
    let rows = table_entries(tasks, aliases);
    let table = draw_table(&columns, &rows);
    append_shortcuts(table.as_str(), shortcuts)
}

/// The line of each entry, in order.
pub open spec fn entry_lines(entries: Seq<(Seq<char>, Seq<char>)>) -> Seq<Seq<char>> {
    entries.map_values(|p: (Seq<char>, Seq<char>)| shortcut_line(p.0, p.1))
}

/// A section lists every entry: its text is the line of each entry, one after
/// the other in the entries' order, and a non-empty section starts with the
/// underlined heading.
pub proof fn lemma_section_lists_every_entry(heading: Seq<char>, entries: Seq<(Seq<char>, Seq<char>)>)
    ensures
        shortcut_lines(entries) == entry_lines(entries).flatten(),
        entries.len() > 0 ==> section(heading, Some(entries)) == underlined_text(heading) + entry_lines(
            entries,
        ).flatten(),
    decreases entries.len(),
{
    if entries.len() > 0 {
        lemma_section_lists_every_entry(heading, entries.drop_last());
        let last = entries.last();
        assert(entry_lines(entries) =~= entry_lines(entries.drop_last()).push(shortcut_line(last.0, last.1)));
        entry_lines(entries.drop_last()).lemma_flatten_push(shortcut_line(last.0, last.1));
    } else {
        assert(entry_lines(entries) =~= Seq::<Seq<char>>::empty());
    }
}

} // verus!
