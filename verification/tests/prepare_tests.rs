use donkey_make::commands::{Cmd, EnvMap, FileConfig, Repeat};
use donkey_make::compose::ComposeError;
use donkey_make::prepare::{
    child_breadcrumb, choose_config_path, config_file_candidates, no_config_message, parent_dir,
    parse_depth, prepare_run, resolve_path, unknown_command_message, InvocationContext,
};
use donkey_make::utils::{full_path, full_path_or, CliArgs};

fn plain_cli(args: &[&str]) -> CliArgs {
    CliArgs {
        file_path: None,
        command: None,
        args: args.iter().map(|a| a.to_string()).collect(),
        keep_tmp: false,
        watch_path: None,
    }
}

fn root_ctx() -> InvocationContext {
    InvocationContext {
        depth: 0,
        breadcrumb: String::new(),
        config_path: "donk.yml".to_string(),
        keep_tmp: false,
    }
}

fn env_entries(m: &EnvMap) -> Vec<(String, String)> {
    let mut out = Vec::new();
    for i in 0..m.len() {
        let (k, v) = m.entry_at(i);
        out.push((k.clone(), v.clone()));
    }
    out
}

#[test]
fn breadcrumb_extension() {
    assert_eq!(child_breadcrumb(&String::new(), &"build".to_string()), "build");
    assert_eq!(child_breadcrumb(&"a > b".to_string(), &"c".to_string()), "a > b > c");
}

#[test]
fn depth_parsing() {
    assert_eq!(parse_depth(&None), 0);
    assert_eq!(parse_depth(&Some("7".to_string())), 7);
    assert_eq!(parse_depth(&Some("junk".to_string())), 0);
    assert_eq!(parse_depth(&Some("99999999999999999999999".to_string())), 0);
    assert_eq!(parse_depth(&Some(String::new())), 0);
}

#[test]
fn parent_dir_of_paths() {
    assert_eq!(parent_dir("proj/sub/donk.yml"), "proj/sub");
    assert_eq!(parent_dir("donk.yml"), ".");
    assert_eq!(parent_dir("/donk.yml"), "/");
    assert_eq!(parent_dir("/proj/donk.yml"), "/proj");
}

#[test]
fn path_resolution() {
    assert_eq!(resolve_path("proj", "wd"), "proj/wd");
    assert_eq!(resolve_path("proj", "/abs/wd"), "/abs/wd");
}

#[test]
fn prepare_smart_task() {
    let mut global = EnvMap::new();
    global.insert("G".to_string(), "g".to_string());
    let mut cfg = FileConfig::new(global);
    let mut task_env = EnvMap::new();
    task_env.insert("T".to_string(), "t".to_string());
    let cmd = Cmd::new(
        vec!["echo hi".to_string()],
        vec!["p1".to_string()],
        task_env,
        Some("wd".to_string()),
        None,
        "bash-smart".to_string(),
        None,
    );
    assert!(cfg.add_command("t".to_string(), cmd));
    let cmd_ref = cfg.get(&"t".to_string()).unwrap();
    let cli = plain_cli(&["extra"]);
    let (run, body) = prepare_run(
        &"t".to_string(),
        &cfg,
        cmd_ref,
        &cli,
        &"proj/donk.yml".to_string(),
        &"/usr/bin/donk".to_string(),
        &root_ctx(),
    )
    .unwrap();
    assert_eq!(run.cmd_name, "t");
    assert_eq!(run.tmp_path, ".donkey-make.0.tmp");
    assert_eq!(
        run.args,
        vec![".donkey-make.0.tmp".to_string(), "p1".to_string(), "extra".to_string()]
    );
    assert_eq!(run.working_dir, "proj/wd");
    assert_eq!(run.file_path, "proj/donk.yml");
    assert!(run.watch_path.is_none());
    assert!(run.print_summary);
    assert_eq!(
        env_entries(&run.env),
        vec![
            ("G".to_string(), "g".to_string()),
            ("T".to_string(), "t".to_string()),
            ("DONKEY_MAKE_DEPTH".to_string(), "1".to_string()),
            ("DONKEY_MAKE_CONFIG_FILE".to_string(), "proj/donk.yml".to_string()),
            ("DONKEY_MAKE_COMMAND".to_string(), "t".to_string()),
            ("DONKEY_MAKE_KEEP".to_string(), "0".to_string()),
        ]
    );
    assert_eq!(
        body,
        vec![
            "set -e".to_string(),
            "echo 't > echo hi \"$@\"' >&2".to_string(),
            "echo hi \"$@\"".to_string(),
        ]
    );
}

#[test]
fn prepare_raw_task_verbatim() {
    let mut cfg = FileConfig::new(EnvMap::new());
    let cmd = Cmd::new(
        vec!["print('a')".to_string(), "print('b')".to_string()],
        Vec::new(),
        EnvMap::new(),
        None,
        None,
        "python3".to_string(),
        None,
    );
    assert!(cfg.add_command("p".to_string(), cmd));
    let cmd_ref = cfg.get(&"p".to_string()).unwrap();
    let cli = plain_cli(&[]);
    let (run, body) = prepare_run(
        &"p".to_string(),
        &cfg,
        cmd_ref,
        &cli,
        &"donk.yml".to_string(),
        &"/usr/bin/donk".to_string(),
        &root_ctx(),
    )
    .unwrap();
    assert_eq!(body, vec!["print('a')".to_string(), "print('b')".to_string()]);
    assert_eq!(run.working_dir, ".");
}

#[test]
fn prepare_watch_task_resolves_dir() {
    let mut cfg = FileConfig::new(EnvMap::new());
    let cmd = Cmd::new(
        vec!["echo hi".to_string()],
        Vec::new(),
        EnvMap::new(),
        None,
        Some(Repeat::Watch { debounce_ms: 500, dir: "src".to_string() }),
        "bash-smart".to_string(),
        None,
    );
    assert!(cfg.add_command("w".to_string(), cmd));
    let cmd_ref = cfg.get(&"w".to_string()).unwrap();
    let cli = plain_cli(&[]);
    let (run, _) = prepare_run(
        &"w".to_string(),
        &cfg,
        cmd_ref,
        &cli,
        &"proj/donk.yml".to_string(),
        &"/usr/bin/donk".to_string(),
        &root_ctx(),
    )
    .unwrap();
    assert_eq!(run.watch_path, Some("proj/src".to_string()));
}

#[test]
fn prepare_cycle_fails_before_any_run() {
    let mut cfg = FileConfig::new(EnvMap::new());
    let a = Cmd::new(
        vec!["<b".to_string()],
        Vec::new(),
        EnvMap::new(),
        None,
        None,
        "bash-smart".to_string(),
        None,
    );
    let b = Cmd::new(
        vec!["<a".to_string()],
        Vec::new(),
        EnvMap::new(),
        None,
        None,
        "bash-smart".to_string(),
        None,
    );
    assert!(cfg.add_command("a".to_string(), a));
    assert!(cfg.add_command("b".to_string(), b));
    let cmd_ref = cfg.get(&"a".to_string()).unwrap();
    let cli = plain_cli(&[]);
    let r = prepare_run(
        &"a".to_string(),
        &cfg,
        cmd_ref,
        &cli,
        &"donk.yml".to_string(),
        &"/usr/bin/donk".to_string(),
        &root_ctx(),
    );
    assert!(matches!(r, Err(ComposeError::CyclicComposition { .. })));
}

#[test]
fn nested_context_breadcrumb_and_keep() {
    let mut cfg = FileConfig::new(EnvMap::new());
    let cmd = Cmd::new(
        vec!["echo hi".to_string()],
        Vec::new(),
        EnvMap::new(),
        None,
        None,
        "bash-smart".to_string(),
        None,
    );
    assert!(cfg.add_command("t".to_string(), cmd));
    let cmd_ref = cfg.get(&"t".to_string()).unwrap();
    let cli = plain_cli(&[]);
    let ctx = InvocationContext {
        depth: 2,
        breadcrumb: "outer > mid".to_string(),
        config_path: "donk.yml".to_string(),
        keep_tmp: true,
    };
    let (run, _) = prepare_run(
        &"t".to_string(),
        &cfg,
        cmd_ref,
        &cli,
        &"donk.yml".to_string(),
        &"/usr/bin/donk".to_string(),
        &ctx,
    )
    .unwrap();
    assert_eq!(run.tmp_path, ".donkey-make.2.tmp");
    assert!(!run.print_summary);
    let entries = env_entries(&run.env);
    assert!(entries.contains(&("DONKEY_MAKE_DEPTH".to_string(), "3".to_string())));
    assert!(entries.contains(&("DONKEY_MAKE_COMMAND".to_string(), "outer > mid > t".to_string())));
    assert!(entries.contains(&("DONKEY_MAKE_KEEP".to_string(), "1".to_string())));
}

#[test]
fn config_path_choice() {
    let explicit = Some("given.yml".to_string());
    let env_override = Some("from-env.yml".to_string());
    assert_eq!(choose_config_path(&explicit, &env_override), Some("given.yml".to_string()));
    assert_eq!(choose_config_path(&None, &env_override), Some("from-env.yml".to_string()));
    assert_eq!(choose_config_path(&None, &None), None);
    let candidates = config_file_candidates();
    assert_eq!(candidates.first().map(|s| s.as_str()), Some("donk.yml"));
    assert_eq!(candidates.len(), 6);
    assert!(no_config_message().starts_with("No commands config file provided"));
}

#[test]
fn unknown_command_text() {
    let keys = vec!["build".to_string(), "test".to_string()];
    let msg = unknown_command_message(&"biuld".to_string(), &keys, &String::new());
    assert_eq!(
        msg,
        "Command \"biuld\" not found, commands available are:\n  build, test"
    );
}

#[test]
fn full_path_falls_back_to_input() {
    let p = "no/such/dir/donk.yml".to_string();
    assert_eq!(full_path(&p), p);
    assert_eq!(full_path_or(&p, None), p);
    assert_eq!(full_path_or(&p, Some("/abs/donk.yml".to_string())), "/abs/donk.yml");
}
