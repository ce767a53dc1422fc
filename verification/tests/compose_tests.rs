use donkey_make::commands::{Cmd, EnvMap, FileConfig};
use donkey_make::compose::{compose, ComposeError};

fn task(lines: &[&str], executable: &str) -> Cmd {
    let run: Vec<String> = lines.iter().map(|l| l.to_string()).collect();
    Cmd::new(run, Vec::new(), EnvMap::new(), None, None, executable.to_string(), None)
}

fn config(tasks: Vec<(&str, Cmd)>) -> FileConfig {
    let mut cfg = FileConfig::new(EnvMap::new());
    for (name, cmd) in tasks {
        assert!(cfg.add_command(name.to_string(), cmd));
    }
    cfg
}

fn compose_ok(cfg: &FileConfig, name: &str) -> Vec<String> {
    compose(cfg, &name.to_string(), &name.to_string(), &"/usr/bin/donk".to_string()).unwrap()
}

fn compose_err(cfg: &FileConfig, name: &str) -> ComposeError {
    compose(cfg, &name.to_string(), &name.to_string(), &"/usr/bin/donk".to_string()).unwrap_err()
}

#[test]
fn single_line_gets_forwarding() {
    let cfg = config(vec![("build", task(&["echo hi"], "bash-smart"))]);
    let lines = compose_ok(&cfg, "build");
    assert_eq!(
        lines,
        vec![
            "set -e",
            "echo 'build > echo hi \"$@\"' >&2",
            "echo hi \"$@\"",
        ]
    );
}

#[test]
fn multi_line_left_unmodified() {
    let cfg = config(vec![("build", task(&["echo one", "echo two"], "bash-smart"))]);
    let lines = compose_ok(&cfg, "build");
    assert_eq!(
        lines,
        vec![
            "set -e",
            "echo 'build > echo one' >&2",
            "echo one",
            "echo 'build > echo two' >&2",
            "echo two",
        ]
    );
}

#[test]
fn single_line_with_param_marker_kept() {
    let cfg = config(vec![("run1", task(&["echo $1"], "bash-smart"))]);
    let lines = compose_ok(&cfg, "run1");
    assert_eq!(lines, vec!["set -e", "echo 'run1 > echo $1' >&2", "echo $1"]);
}

#[test]
fn silent_line_not_echoed() {
    let cfg = config(vec![("quietly", task(&["@echo quiet", "echo loud"], "bash-smart"))]);
    let lines = compose_ok(&cfg, "quietly");
    assert_eq!(
        lines,
        vec!["set -e", "echo quiet", "echo 'quietly > echo loud' >&2", "echo loud"]
    );
}

#[test]
fn self_invoke_rewritten_to_executable() {
    let cfg = config(vec![("deploy", task(&["! other prod", "echo done"], "bash-smart"))]);
    let lines = compose_ok(&cfg, "deploy");
    assert_eq!(
        lines,
        vec![
            "set -e",
            "/usr/bin/donk other prod",
            "echo 'deploy > echo done' >&2",
            "echo done",
        ]
    );
}

#[test]
fn inline_reference_expanded() {
    let cfg = config(vec![
        ("all", task(&["<build", "echo after"], "bash-smart")),
        ("build", task(&["echo one", "echo two"], "bash-smart")),
    ]);
    let lines = compose_ok(&cfg, "all");
    assert_eq!(
        lines,
        vec![
            "set -e",
            "echo 'all > build > echo one' >&2",
            "echo one",
            "echo 'all > build > echo two' >&2",
            "echo two",
            "echo 'all > echo after' >&2",
            "echo after",
        ]
    );
    // at least the preamble plus every transitively inlined body line
    assert!(lines.len() >= 1 + 2 + 1);
}

#[test]
fn inline_reference_trimmed() {
    let cfg = config(vec![
        ("all", task(&["<  build  "], "bash-smart")),
        ("build", task(&["echo one", "echo two"], "bash-smart")),
    ]);
    let lines = compose_ok(&cfg, "all");
    assert_eq!(lines[0], "set -e");
    assert_eq!(lines[2], "echo one");
}

#[test]
fn cycle_detected() {
    let cfg = config(vec![
        ("a", task(&["<b"], "bash-smart")),
        ("b", task(&["<a"], "bash-smart")),
    ]);
    match compose_err(&cfg, "a") {
        ComposeError::CyclicComposition { name } => assert_eq!(name, "a"),
        other => panic!("expected a cyclic-composition error, got {:?}", kind_of(&other)),
    }
}

#[test]
fn self_cycle_detected() {
    let cfg = config(vec![("a", task(&["<a"], "bash-smart"))]);
    match compose_err(&cfg, "a") {
        ComposeError::CyclicComposition { name } => assert_eq!(name, "a"),
        other => panic!("expected a cyclic-composition error, got {:?}", kind_of(&other)),
    }
}

#[test]
fn raw_reference_not_composable() {
    let cfg = config(vec![
        ("a", task(&["<b"], "bash-smart")),
        ("b", task(&["print('x')"], "python3")),
    ]);
    match compose_err(&cfg, "a") {
        ComposeError::NotComposable { name } => assert_eq!(name, "b"),
        other => panic!("expected a not-composable error, got {:?}", kind_of(&other)),
    }
}

#[test]
fn unknown_reference_rejected() {
    let cfg = config(vec![("a", task(&["<missing"], "bash-smart"))]);
    match compose_err(&cfg, "a") {
        ComposeError::UnknownTask { name } => assert_eq!(name, "missing"),
        other => panic!("expected an unknown-task error, got {:?}", kind_of(&other)),
    }
}

#[test]
fn composing_unknown_task_rejected() {
    let cfg = config(vec![("a", task(&["echo hi"], "bash-smart"))]);
    match compose_err(&cfg, "nope") {
        ComposeError::UnknownTask { name } => assert_eq!(name, "nope"),
        other => panic!("expected an unknown-task error, got {:?}", kind_of(&other)),
    }
}

#[test]
fn composing_raw_task_rejected() {
    let cfg = config(vec![("a", task(&["print('x')"], "python3"))]);
    match compose_err(&cfg, "a") {
        ComposeError::NotComposable { name } => assert_eq!(name, "a"),
        other => panic!("expected a not-composable error, got {:?}", kind_of(&other)),
    }
}

#[test]
fn error_name_accessor() {
    let cfg = config(vec![("a", task(&["<missing"], "bash-smart"))]);
    let err = compose_err(&cfg, "a");
    assert_eq!(err.name(), "missing");
}

fn kind_of(e: &ComposeError) -> &'static str {
    match e {
        ComposeError::CyclicComposition { .. } => "cyclic",
        ComposeError::NotComposable { .. } => "not-composable",
        ComposeError::UnknownTask { .. } => "unknown",
    }
}
