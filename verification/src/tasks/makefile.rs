use vstd::prelude::*;

use super::{opt_text, ProviderKind, Task, TaskProvider, TaskView};
use crate::text::{chars_of, join_space, lines_of, slice_text, text_lines};

verus! {

/// Unicode `White_Space`, the class that `\s` stands for in a pattern.
pub open spec fn is_white_space(c: char) -> bool {
    let u = c as u32;
    ||| 0x09 <= u <= 0x0D
    ||| u == 0x20
    ||| u == 0x85
    ||| u == 0xA0
    ||| u == 0x1680
    ||| 0x2000 <= u <= 0x200A
    ||| u == 0x2028
    ||| u == 0x2029
    ||| u == 0x202F
    ||| u == 0x205F
    ||| u == 0x3000
}

/// A character that may stand in a rule's target: `[^\s:#=%]`.
pub open spec fn is_target_char(c: char) -> bool {
    !is_white_space(c) && c != ':' && c != '#' && c != '=' && c != '%'
}

/// How many characters at the start of `l` may stand in a target.
pub open spec fn target_run(l: Seq<char>) -> nat
    decreases l.len(),
{
    if l.len() > 0 && is_target_char(l[0]) {
        1 + target_run(l.drop_first())
    } else {
        0
    }
}

/// The target that `l` declares, if it starts like `^([^\s:#=%]+):`.
pub open spec fn rule_target(l: Seq<char>) -> Option<Seq<char>> {
    let n = target_run(l);
    if 0 < n < l.len() && l[n as int] == ':' {
        Some(l.take(n as int))
    } else {
        None
    }
}

/// Four spaces, one level of indentation.
pub open spec fn indent() -> Seq<char> {
    seq![' ', ' ', ' ', ' ']
}

/// Is `l` a comment line: `^( {4}|\t)*#`, a `#` after indentation made of tabs
/// and groups of four spaces?
pub open spec fn is_comment(l: Seq<char>) -> bool
    decreases l.len(),
{
    if l.len() == 0 {
        false
    } else if l[0] == '#' {
        true
    } else if l[0] == '\t' {
        is_comment(l.drop_first())
    } else if l.len() >= 4 && l.take(4) == indent() {
        is_comment(l.skip(4))
    } else {
        false
    }
}

/// The target name that is never listed as a task.
pub open spec fn phony() -> Seq<char> {
    seq!['.', 'P', 'H', 'O', 'N', 'Y']
}

/// The rule that line `l` contributes, if any: comments contribute none, and
/// neither does `.PHONY`.
pub open spec fn rule_of(l: Seq<char>) -> Option<Seq<char>> {
    if is_comment(l) {
        None
    } else {
        match rule_target(l) {
            Some(t) => if t == phony() {
                None
            } else {
                Some(t)
            },
            None => None,
        }
    }
}

/// `rule_of` as a value.
pub open spec fn rule_fn() -> spec_fn(Seq<char>) -> Option<Seq<char>> {
    |l: Seq<char>| rule_of(l)
}

/// The rules of a Makefile's text, in the order of their lines.
pub open spec fn makefile_rules(text: Seq<char>) -> Seq<Seq<char>> {
    lines_of(text).filter_map(rule_fn())
}

fn white_space(c: char) -> (r: bool)
    ensures
        r == is_white_space(c),
{
    let u = c as u32;
    (0x09 <= u && u <= 0x0D) || u == 0x20 || u == 0x85 || u == 0xA0 || u == 0x1680 || (0x2000 <= u
        && u <= 0x200A) || u == 0x2028 || u == 0x2029 || u == 0x202F || u == 0x205F || u == 0x3000
}

fn target_char(c: char) -> (r: bool)
    ensures
        r == is_target_char(c),
{
    !white_space(c) && c != ':' && c != '#' && c != '=' && c != '%'
}

/// The run of target characters at the start of a line is made of target
/// characters only.
proof fn lemma_target_run(l: Seq<char>)
    ensures
        target_run(l) <= l.len(),
        forall|i: int| 0 <= i < target_run(l) ==> is_target_char(#[trigger] l[i]),
    decreases l.len(),
{
    if l.len() > 0 && is_target_char(l[0]) {
        lemma_target_run(l.drop_first());
        assert forall|i: int| 0 <= i < target_run(l) implies is_target_char(#[trigger] l[i]) by {
            if i > 0 {
                assert(l[i] == l.drop_first()[i - 1]);
            }
        }
    }
}

/// Every rule found in a Makefile is a nonempty name made only of characters
/// that may stand in a target, and none is `.PHONY`.
pub proof fn lemma_rules_are_targets(text: Seq<char>, r: Seq<char>)
    requires
        makefile_rules(text).contains(r),
    ensures
        r.len() > 0,
        r != phony(),
        forall|i: int| 0 <= i < r.len() ==> is_target_char(#[trigger] r[i]),
{
    lines_of(text).lemma_filter_map_contains(rule_fn(), r);
    let l = choose|l: Seq<char>| #[trigger] lines_of(text).contains(l) && rule_fn()(l) == Some(r);
    lemma_target_run(l);
    assert forall|i: int| 0 <= i < r.len() implies is_target_char(#[trigger] r[i]) by {
        assert(r[i] == l[i]);
    }
}

/// Is the line whose characters are `l` a comment?
fn comment_line(l: &Vec<char>) -> (r: bool)
    ensures
        r == is_comment(l@),
{
    let n = l.len();
    let mut pos: usize = 0;
    assert(l@.skip(0) == l@);
    while pos < n
        invariant
            n == l@.len(),
            pos <= n,
            is_comment(l@) == is_comment(l@.skip(pos as int)),
        decreases n - pos,
    {
        let ghost rest = l@.skip(pos as int);
        assert(rest[0] == l@[pos as int]);
        if l[pos] == '#' {
            return true;
        } else if l[pos] == '\t' {
            assert(rest.drop_first() == l@.skip(pos + 1));
            pos = pos + 1;
        } else if n - pos >= 4 && l[pos] == ' ' && l[pos + 1] == ' ' && l[pos + 2] == ' ' && l[pos
            + 3] == ' ' {
            assert(rest.take(4) =~= indent());
            assert(rest.skip(4) == l@.skip(pos + 4));
            pos = pos + 4;
        } else {
            proof {
                if rest.len() >= 4 {
                    assert(rest.take(4)[0] == l@[pos as int]);
                    assert(rest.take(4)[1] == l@[pos + 1]);
                    assert(rest.take(4)[2] == l@[pos + 2]);
                    assert(rest.take(4)[3] == l@[pos + 3]);
                    assert(indent()[0] == ' ');
                }
            }
            return false;
        }
    }
    false
}

/// The target that the line `line` declares, if any.
fn line_target(line: &str) -> (r: Option<String>)
    ensures
        opt_text(r) == rule_target(line@),
{
    let l = chars_of(line);
    let n = l.len();
    let mut k: usize = 0;
    assert(line@.skip(0) == line@);
    while k < n && target_char(l[k])
        invariant
            l@ == line@,
            n == l@.len(),
            k <= n,
            target_run(line@) == k + target_run(line@.skip(k as int)),
        decreases n - k,
    {
        assert(line@.skip(k as int).drop_first() == line@.skip(k + 1));
        k = k + 1;
    }
    if k < n {
        assert(line@.skip(k as int)[0] == line@[k as int]);
    }
    if 0 < k && k < n && l[k] == ':' {
        Some(slice_text(line, 0, k))
    } else {
        None
    }
}

/// The rule that one line contributes.
fn line_rule(line: &str) -> (r: Option<String>)
    ensures
        opt_text(r) == rule_of(line@),
{
    let l = chars_of(line);
    if comment_line(&l) {
        return None;
    }
    match line_target(line) {
        Some(t) => {
            proof {
                reveal_strlit(".PHONY");
                assert(".PHONY"@ =~= phony());
            }
            if crate::text::same_text(t.as_str(), ".PHONY") {
                None
            } else {
                Some(t)
            }
        },
        None => None,
    }
}

/// The targets of the rules in a Makefile's text, in order, leaving out
/// comment lines and `.PHONY`.
pub fn parse_rules(text: &str) -> (rules: Vec<String>)
    ensures
        rules.deep_view() == makefile_rules(text@),
{
    let ls = text_lines(text);
    let ghost lv = ls.deep_view();
    let mut rules: Vec<String> = Vec::new();
    let n = ls.len();
    for i in 0..n
        invariant
            n == ls@.len(),
            lv == ls.deep_view(),
            lv == lines_of(text@),
            rules.deep_view() == lv.take(i as int).filter_map(rule_fn()),
    {
        proof {
            lv.lemma_filter_map_take_succ(rule_fn(), i as int);
        }
        assert(lv[i as int] == ls[i as int]@);
        let ghost before = rules.deep_view();
        match line_rule(ls[i].as_str()) {
            Some(t) => {
                rules.push(t);
                assert(rules.deep_view() =~= before + seq![rule_of(lv[i as int])->0]);
            },
            None => {},
        }
    }
    assert(lv.take(n as int) == lv);
    rules
}


/// The task that runs the Makefile rule `rule`.
pub open spec fn make_task(rule: Seq<char>) -> TaskView {
    TaskView {
        provider: ProviderKind::Make,
        task: rule,
        exec_line: "make"@ + seq![' '] + rule,
        emoji: "\u{1F5DE}"@,
        emoji_text: "[make]"@,
        sh: false,
        details: None,
    }
}

/// The tasks that a Makefile offers, one per rule.
pub open spec fn makefile_tasks(text: Seq<char>) -> Seq<TaskView> {
    makefile_rules(text).map_values(|r: Seq<char>| make_task(r))
}

/// Discovers the rules of a Makefile as tasks.
#[derive(Debug, Default)]
pub struct Makefile {}

impl TaskProvider for Makefile {
    /// The text of the project's Makefile, if it has one.
    type Source = Option<String>;

    open spec fn provides(&self, source: &Option<String>) -> Seq<TaskView> {
        match source {
            Some(text) => makefile_tasks(text@),
            None => Seq::empty(),
        }
    }

    fn parse(&self, source: &Option<String>) -> (tasks: Vec<Task>) {
        let text = match source {
            Some(t) => t,
            None => {
                return Vec::new();
            },
        };
        let rules = parse_rules(text.as_str());
        let ghost rv = rules.deep_view();
        let mut tasks: Vec<Task> = Vec::new();
        for i in 0..rules.len()
            invariant
                rv == rules.deep_view(),
                rv == makefile_rules(text@),
                tasks.deep_view() =~= rv.take(i as int).map_values(|r: Seq<char>| make_task(r)),
        {
            let rule = &rules[i];
            assert(rv[i as int] == rule@);
            let ghost before = tasks.deep_view();
            tasks.push(Task {
                provider: ProviderKind::Make,
                task: rule.clone(),
                exec_line: join_space("make", rule.as_str()),
                emoji: "\u{1F5DE}".to_owned(),
                emoji_text: "[make]".to_owned(),
                sh: false,
                details: None,
            });
            assert(tasks.deep_view() =~= before.push(make_task(rv[i as int])));
            assert(rv.take(i + 1) =~= rv.take(i as int).push(rv[i as int]));
        }
        assert(rv.take(rules@.len() as int) == rv);
        tasks
    }
}

/// The run of target characters of a line made of a name of target
/// characters followed by anything that starts with another character is
/// exactly the name.
proof fn lemma_target_run_of_name(name: Seq<char>, tail: Seq<char>)
    requires
        forall|i: int| 0 <= i < name.len() ==> is_target_char(#[trigger] name[i]),
        tail.len() > 0,
        !is_target_char(tail[0]),
    ensures
        target_run(name + tail) == name.len(),
    decreases name.len(),
{
    let l = name + tail;
    if name.len() > 0 {
        assert(l.drop_first() =~= name.drop_first() + tail);
        lemma_target_run_of_name(name.drop_first(), tail);
        assert(l[0] == name[0]);
    } else {
        assert(l =~= tail);
    }
}

/// A line that starts with a name and a colon declares that name as a rule,
/// whenever the name is not empty, is not `.PHONY`, and holds no white space
/// and none of `:`, `#`, `=` and `%`; any other character, such as `_`, `-`
/// or `.`, may stand in it.
pub proof fn lemma_name_colon_is_rule(name: Seq<char>, rest: Seq<char>)
    requires
        name.len() > 0,
        name != phony(),
        forall|i: int|
            0 <= i < name.len() ==> {
                let c = #[trigger] name[i];
                !is_white_space(c) && c != ':' && c != '#' && c != '=' && c != '%'
            },
    ensures
        rule_of(name + seq![':'] + rest) == Some(name),
{
    let l = name + seq![':'] + rest;
    let tail = seq![':'] + rest;
    assert(l =~= name + tail);
    assert(tail[0] == ':');
    lemma_target_run_of_name(name, tail);
    assert(l[0] == name[0]);
    assert(!is_comment(l)) by {
        if l.len() >= 4 && l.take(4) == indent() {
            assert(l.take(4)[0] == ' ');
        }
    }
    assert(l[name.len() as int] == ':');
    assert(l.take(name.len() as int) =~= name);
}

/// What a line maps to is found among the mapped lines.
proof fn lemma_filter_map_keeps(lines: Seq<Seq<char>>, j: int, r: Seq<char>)
    requires
        0 <= j < lines.len(),
        rule_fn()(lines[j]) == Some(r),
    ensures
        lines.filter_map(rule_fn()).contains(r),
    decreases lines.len(),
{
    let rest = lines.drop_last();
    if j == lines.len() - 1 {
        let out = rest.filter_map(rule_fn()) + seq![r];
        assert(out[out.len() - 1] == r);
    } else {
        assert(rest[j] == lines[j]);
        lemma_filter_map_keeps(rest, j, r);
        let k = choose|k: int| 0 <= k < rest.filter_map(rule_fn()).len() && rest.filter_map(rule_fn())[k] == r;
        match rule_fn()(lines.last()) {
            Some(x) => {
                assert((rest.filter_map(rule_fn()) + seq![x])[k] == r);
            },
            None => {},
        }
    }
}

/// Every line of a Makefile that starts with a target name and a colon makes
/// that name one of the Makefile's rules (the name as in
/// `lemma_name_colon_is_rule`).
pub proof fn lemma_rule_line_listed(text: Seq<char>, j: int, name: Seq<char>, rest: Seq<char>)
    requires
        0 <= j < lines_of(text).len(),
        lines_of(text)[j] == name + seq![':'] + rest,
        name.len() > 0,
        name != phony(),
        forall|i: int|
            0 <= i < name.len() ==> {
                let c = #[trigger] name[i];
                !is_white_space(c) && c != ':' && c != '#' && c != '=' && c != '%'
            },
    ensures
        makefile_rules(text).contains(name),
{
    lemma_name_colon_is_rule(name, rest);
    lemma_filter_map_keeps(lines_of(text), j, name);
}

} // verus!
