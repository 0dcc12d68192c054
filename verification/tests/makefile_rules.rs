use devstart::tasks::makefile::{parse_rules, Makefile};
use devstart::tasks::{ProviderKind, TaskProvider};

#[test]
fn foo_test() {
    let rules = parse_rules(
        r#"
CC=gcc
CFLAGS=-g
CLEAN_FILES=foo.o main
OBJS=foo.o math.o
BIN=main

# This is a phony rule, phony rules are always ran
.PHONY: BIN
BIN: OBJS
    # wildcards get replaced with their value
    CC CFLAGS $^ -o $@

# expand similar rules with placeholders
%.o: %.c
    CC CFLAGS -c $^ -o $@

# run tests
test:
    cargo $@

# clean up all the object and executable files
clean:
    rm OBJS BIN
"#,
    );
    assert_eq!(rules, "BIN test clean".split(' ').collect::<Vec<_>>());
}

#[test]
fn none_test() {
    let rules = parse_rules(
        r#"
CC=gcc
CFLAGS=-g
CLEAN_FILES=foo.o main
OBJS=foo.o math.o
BIN=main

"#,
    );
    assert!(rules.is_empty());
}

#[test]
fn empty_test() {
    let rules = parse_rules(
        r#"
"#,
    );
    assert!(rules.is_empty());
}

#[test]
fn rules_with_crlf_tabs_and_indented_comments() {
    let text = "all: deps\r\n\t# not a rule\r\n  # two spaces: not a comment, no target\r\nbuild-x:\r\nname with space: x\r\n.PHONY: all\r\nlast:";
    assert_eq!(parse_rules(text), vec!["all", "build-x", "last"]);
}

#[test]
fn rule_needs_colon_right_after_target() {
    assert!(parse_rules("target :\nx=y:z\n:\n").is_empty());
    assert_eq!(parse_rules("a:b\n"), vec!["a"]);
    assert_eq!(parse_rules("\u{3000}x:\ny\u{a0}:\nz:\n"), vec!["z"]);
}

#[test]
fn makefile_tasks_run_make() {
    let tasks = Makefile {}.parse(&Some("build:\n\tcc x.c\ntest:\n".to_string()));
    assert_eq!(tasks.len(), 2);
    assert_eq!(tasks[0].task, "build");
    assert_eq!(tasks[0].exec_line, "make build");
    assert_eq!(tasks[0].emoji, "\u{1F5DE}");
    assert_eq!(tasks[0].emoji_text, "[make]");
    assert_eq!(tasks[0].provider, ProviderKind::Make);
    assert!(!tasks[0].sh);
    assert!(tasks[0].details.is_none());
    assert_eq!(tasks[1].exec_line, "make test");
    assert!(Makefile {}.parse(&None).is_empty());
}
