use vaultpipe::env::{collect_env, EnvMap};
use vaultpipe::pty::build_command;

fn pairs(items: &[(&str, &str)]) -> Vec<(String, String)> {
    items.iter().map(|(k, v)| (k.to_string(), v.to_string())).collect()
}

#[test]
fn later_assignment_wins() {
    let env = collect_env(pairs(&[("A", "1"), ("B", "2"), ("A", "3")]));
    assert_eq!(env.len(), 2);
    assert_eq!(env.get("A"), Some(&"3".to_owned()));
    assert_eq!(env.get("B"), Some(&"2".to_owned()));
    assert_eq!(env.get("C"), None);
    assert_eq!(env.entries(), &pairs(&[("A", "3"), ("B", "2")]));
}

#[test]
fn empty_file_gives_empty_map() {
    let env = collect_env(Vec::new());
    assert_eq!(env.len(), 0);
    assert_eq!(env.get("A"), None);
}

#[test]
fn insert_then_get() {
    let mut env = EnvMap::new();
    env.insert("KEY".to_owned(), "one".to_owned());
    assert_eq!(env.get("KEY"), Some(&"one".to_owned()));
    env.insert("KEY".to_owned(), "two".to_owned());
    assert_eq!(env.get("KEY"), Some(&"two".to_owned()));
    assert_eq!(env.len(), 1);
    env.insert("OTHER".to_owned(), "x".to_owned());
    assert_eq!(env.entries(), &pairs(&[("KEY", "two"), ("OTHER", "x")]));
}

#[test]
fn command_splits_program_and_arguments() {
    let env = collect_env(pairs(&[("TOKEN", "secret")]));
    let command = vec!["ls".to_owned(), "-l".to_owned(), "/tmp".to_owned()];
    let plan = build_command(&command, &env, false, Some("/usr/bin".to_owned()));
    assert_eq!(plan.program, "ls");
    assert_eq!(plan.args, vec!["-l".to_owned(), "/tmp".to_owned()]);
    assert!(!plan.clear_env);
    assert_eq!(plan.env, pairs(&[("TOKEN", "secret")]));
}

#[test]
fn cleared_environment_keeps_path_first() {
    let env = collect_env(pairs(&[("TOKEN", "secret"), ("PATH", "/opt/bin")]));
    let command = vec!["env".to_owned()];
    let plan = build_command(&command, &env, true, Some("/usr/bin".to_owned()));
    assert!(plan.clear_env);
    assert!(plan.args.is_empty());
    assert_eq!(
        plan.env,
        pairs(&[("PATH", "/usr/bin"), ("PATH", "/opt/bin"), ("TOKEN", "secret")])
    );
}

#[test]
fn cleared_environment_without_parent_path() {
    let env = collect_env(pairs(&[("TOKEN", "secret")]));
    let plan = build_command(&vec!["env".to_owned()], &env, true, None);
    assert_eq!(plan.env, pairs(&[("TOKEN", "secret")]));
}

#[test]
fn names_kept_in_order() {
    let env = collect_env(pairs(&[("b", "1"), ("B", "2"), ("a", "3"), ("ab", "4"), ("é", "5"), ("z", "6")]));
    assert_eq!(
        env.entries(),
        &pairs(&[("B", "2"), ("a", "3"), ("ab", "4"), ("b", "1"), ("z", "6"), ("é", "5")])
    );
}
