use donkey_make::commands::{Cmd, EnvMap, FileConfig};

fn env_of(pairs: &[(&str, &str)]) -> EnvMap {
    let mut m = EnvMap::new();
    for (k, v) in pairs {
        m.insert(k.to_string(), v.to_string());
    }
    m
}

fn entries(m: &EnvMap) -> Vec<(String, String)> {
    let mut out = Vec::new();
    for i in 0..m.len() {
        let (k, v) = m.entry_at(i);
        out.push((k.clone(), v.clone()));
    }
    out
}

#[test]
fn merge_disjoint_keeps_both_in_order() {
    let under = env_of(&[("a", "b")]);
    let over = env_of(&[("c", "d")]);
    let merged = under.merge(&over);
    assert_eq!(
        entries(&merged),
        vec![("a".to_string(), "b".to_string()), ("c".to_string(), "d".to_string())]
    );
}

#[test]
fn merge_collision_last_wins_order_stable() {
    let under = env_of(&[("a", "b")]);
    let over = env_of(&[("a", "d")]);
    let merged = under.merge(&over);
    assert_eq!(entries(&merged), vec![("a".to_string(), "d".to_string())]);
}

#[test]
fn merge_mixed() {
    let under = env_of(&[("one", "1"), ("two", "2"), ("three", "3")]);
    let over = env_of(&[("four", "4"), ("two", "22")]);
    let merged = under.merge(&over);
    assert_eq!(
        entries(&merged),
        vec![
            ("one".to_string(), "1".to_string()),
            ("two".to_string(), "22".to_string()),
            ("three".to_string(), "3".to_string()),
            ("four".to_string(), "4".to_string()),
        ]
    );
}

#[test]
fn insert_existing_key_keeps_position() {
    let mut m = EnvMap::new();
    m.insert("a".to_string(), "1".to_string());
    m.insert("c".to_string(), "2".to_string());
    m.insert("a".to_string(), "3".to_string());
    assert_eq!(
        entries(&m),
        vec![("a".to_string(), "3".to_string()), ("c".to_string(), "2".to_string())]
    );
}

#[test]
fn get_finds_value() {
    let m = env_of(&[("a", "1"), ("b", "2")]);
    assert_eq!(m.get(&"b".to_string()), Some(&"2".to_string()));
    assert_eq!(m.get(&"z".to_string()), None);
}

#[test]
fn is_wf_detects_duplicates() {
    let m = env_of(&[("a", "1"), ("b", "2")]);
    assert!(m.is_wf());
}

#[test]
fn config_lookup_and_keys() {
    let mut cfg = FileConfig::new(EnvMap::new());
    let one = Cmd::new(
        vec!["echo one".to_string()],
        Vec::new(),
        EnvMap::new(),
        None,
        None,
        "bash-smart".to_string(),
        None,
    );
    let two = Cmd::new(
        vec!["echo two".to_string()],
        Vec::new(),
        EnvMap::new(),
        None,
        None,
        "bash-smart".to_string(),
        None,
    );
    assert!(cfg.add_command("one".to_string(), one));
    assert!(cfg.add_command("two".to_string(), two));
    assert_eq!(cfg.keys(), vec!["one".to_string(), "two".to_string()]);
    assert!(cfg.get(&"one".to_string()).is_some());
    assert!(cfg.get(&"zzz".to_string()).is_none());
    // a second task under a taken name is refused and changes nothing
    let dup = Cmd::new(
        vec!["echo dup".to_string()],
        Vec::new(),
        EnvMap::new(),
        None,
        None,
        "bash-smart".to_string(),
        None,
    );
    assert!(!cfg.add_command("one".to_string(), dup));
    assert_eq!(cfg.keys().len(), 2);
}

#[test]
fn cmd_accessors() {
    let smart = Cmd::new(
        vec!["echo hi".to_string()],
        Vec::new(),
        EnvMap::new(),
        None,
        None,
        "bash-smart".to_string(),
        None,
    );
    assert!(smart.smart());
    assert_eq!(smart.executable(), "bash");
    assert_eq!(smart.summary(), "(1 line)");
    assert_eq!(smart.description(), "echo hi");

    let raw = Cmd::new(
        vec!["print('a')".to_string(), "print('b')".to_string()],
        Vec::new(),
        EnvMap::new(),
        None,
        None,
        "python3".to_string(),
        Some("prints things".to_string()),
    );
    assert!(!raw.smart());
    assert_eq!(raw.executable(), "python3");
    assert_eq!(raw.summary(), "(python3, 2 lines)");
    assert_eq!(raw.description(), "prints things");
}

#[test]
fn derived_description_cut_at_newline() {
    let c = Cmd::new(
        vec!["echo one\necho two".to_string()],
        Vec::new(),
        EnvMap::new(),
        None,
        None,
        "bash-smart".to_string(),
        None,
    );
    assert_eq!(c.description(), "echo one\u{2026}");
}

#[test]
fn derived_description_marks_more_lines() {
    let c = Cmd::new(
        vec!["echo one  ".to_string(), "echo two".to_string()],
        Vec::new(),
        EnvMap::new(),
        None,
        None,
        "bash-smart".to_string(),
        None,
    );
    assert_eq!(c.description(), "echo one\u{2026}");
}

#[test]
fn derived_description_shortened_past_forty_chars() {
    let long = "echo abcdefghijklmnopqrstuvwxyz0123456789xyz".to_string();
    assert!(long.chars().count() > 40);
    let c = Cmd::new(
        vec![long],
        Vec::new(),
        EnvMap::new(),
        None,
        None,
        "bash-smart".to_string(),
        None,
    );
    let d = c.description();
    assert!(d.ends_with('\u{2026}'));
    assert_eq!(d, "echo abcdefghijklmnopqrstuvwxyz01234567\u{2026}");
}

#[test]
fn empty_body_description() {
    let c = Cmd::new(
        Vec::new(),
        Vec::new(),
        EnvMap::new(),
        None,
        None,
        "bash-smart".to_string(),
        None,
    );
    assert_eq!(c.description(), "");
    assert_eq!(c.summary(), "(0 lines)");
}
