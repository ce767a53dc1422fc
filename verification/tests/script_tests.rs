use donkey_make::commands::EnvMap;
use donkey_make::script::{
    command_invocation, script_file_content, temp_write_gate, tmp_file_name, IoError, IoErrorKind,
};

const BAR: &str = "==========================================================================================";

#[test]
fn tmp_name_namespaced_by_depth() {
    assert_eq!(tmp_file_name(0), ".donkey-make.0.tmp");
    assert_eq!(tmp_file_name(3), ".donkey-make.3.tmp");
    assert_eq!(tmp_file_name(12), ".donkey-make.12.tmp");
}

#[test]
fn write_gate_refuses_existing_path() {
    let path = ".donkey-make.0.tmp".to_string();
    match temp_write_gate(&path, true) {
        Err(e) => {
            assert!(matches!(e.kind, IoErrorKind::AlreadyRunning));
            assert_eq!(e.path, path);
        }
        Ok(()) => panic!("an existing path must be refused"),
    }
}

#[test]
fn write_gate_allows_fresh_path() {
    let path = ".donkey-make.0.tmp".to_string();
    assert!(temp_write_gate(&path, false).is_ok());
}

#[test]
fn invocation_joins_args() {
    let args = vec![".donkey-make.0.tmp".to_string(), "x".to_string()];
    assert_eq!(
        command_invocation(&"bash".to_string(), &args),
        "bash .donkey-make.0.tmp x"
    );
    assert_eq!(command_invocation(&"bash".to_string(), &Vec::new()), "bash");
}

#[test]
fn script_file_layout() {
    let mut env = EnvMap::new();
    env.insert("A".to_string(), "1".to_string());
    let body = vec!["set -e".to_string(), "echo hi".to_string()];
    let content = script_file_content(
        &"bash".to_string(),
        &"bash .donkey-make.0.tmp".to_string(),
        &env,
        &body,
    );
    let expected = format!(
        "# {bar}\n# generated by donkey-make\n# command: bash .donkey-make.0.tmp\n# env: A=1\n# {bar}\nset -e\necho hi\n",
        bar = BAR
    );
    assert_eq!(content, expected);
}

#[test]
fn script_file_comment_token_for_node() {
    let content = script_file_content(
        &"node".to_string(),
        &"node x.js".to_string(),
        &EnvMap::new(),
        &vec!["console.log(1)".to_string()],
    );
    assert!(content.starts_with("// "));
    assert!(content.contains("// generated by donkey-make\n"));
    assert!(content.contains("// command: node x.js\n"));
}

#[test]
fn io_error_messages() {
    let e = IoError {
        kind: IoErrorKind::DeleteFailed,
        path: ".donkey-make.0.tmp".to_string(),
        detail: "permission denied".to_string(),
    };
    assert_eq!(
        e.message(),
        "Error deleting temporary file .donkey-make.0.tmp, permission denied"
    );
    let e2 = IoError {
        kind: IoErrorKind::AlreadyRunning,
        path: ".donkey-make.0.tmp".to_string(),
        detail: String::new(),
    };
    assert_eq!(
        e2.message(),
        "Temporary file .donkey-make.0.tmp already exists, is the command already running?"
    );
    let e3 = IoError {
        kind: IoErrorKind::SpawnFailed,
        path: "bash".to_string(),
        detail: "No such file or directory".to_string(),
    };
    assert_eq!(
        e3.message(),
        "failed to execute command \"bash\": No such file or directory"
    );
    let e4 = IoError {
        kind: IoErrorKind::WriteFailed,
        path: ".donkey-make.0.tmp".to_string(),
        detail: "disk full".to_string(),
    };
    assert_eq!(
        e4.message(),
        "Error writing temporary file .donkey-make.0.tmp, disk full"
    );
    let e5 = IoError {
        kind: IoErrorKind::WatchFailed,
        path: "src".to_string(),
        detail: "not a directory".to_string(),
    };
    assert_eq!(e5.message(), "failed to watch \"src\": not a directory");
}
