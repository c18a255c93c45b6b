use trx8::args::{env_overrides, forwarded_args, get_cwd, get_extra_envs, parse_env_arg};
use trx8::env::merge_envs;

fn strings(v: &[&str]) -> Vec<String> {
    v.iter().map(|s| s.to_string()).collect()
}

fn pairs(v: &[(&str, &str)]) -> Vec<(String, String)> {
    v.iter().map(|(k, x)| (k.to_string(), x.to_string())).collect()
}

#[test]
fn cwd_marker_sets_directory() {
    let args = strings(&["whoami", "--trx8-subprocess-cwd=C:\\work", "--trx8-subprocess-cwd=D:\\other"]);
    assert_eq!(get_cwd(&args, &"C:\\here".to_string()), "C:\\work");
}

#[test]
fn cwd_defaults_to_current_directory() {
    let args = strings(&["whoami", "/all"]);
    assert_eq!(get_cwd(&args, &"C:\\here".to_string()), "C:\\here");
}

#[test]
fn cwd_marker_as_command_is_not_read() {
    let args = strings(&["--trx8-subprocess-cwd=C:\\x"]);
    assert_eq!(get_cwd(&args, &"C:\\here".to_string()), "C:\\here");
}

#[test]
fn env_marker_splits_at_first_equals() {
    let a = "--trx8-subprocess-env=PATH=a=b".to_string();
    assert_eq!(parse_env_arg(&a), Some(("PATH".to_string(), "a=b".to_string())));
    let b = "--trx8-subprocess-env=NOVALUE".to_string();
    assert_eq!(parse_env_arg(&b), None);
    let c = "plain".to_string();
    assert_eq!(parse_env_arg(&c), None);
    let d = "--trx8-subprocess-env==v".to_string();
    assert_eq!(parse_env_arg(&d), Some((String::new(), "v".to_string())));
}

#[test]
fn env_overrides_in_order() {
    let args = strings(&["cmd", "--trx8-subprocess-env=A=1", "x", "--trx8-subprocess-env=B=2", "--trx8-subprocess-env=A=3"]);
    assert_eq!(env_overrides(&args), pairs(&[("A", "1"), ("B", "2"), ("A", "3")]));
}

#[test]
fn override_replaces_colliding_base_key() {
    let base = pairs(&[("TRX8_WORKING_DIR", "C:\\here"), ("TRX8_VERSION", "0.1.0"), ("TRX8_REPOSITORY", "repo")]);
    let args = strings(&["whoami", "--trx8-subprocess-env=TRX8_VERSION=9.9", "--trx8-subprocess-env=EXTRA=1"]);
    let env = get_extra_envs(&args, &base);
    assert_eq!(
        env,
        pairs(&[("TRX8_WORKING_DIR", "C:\\here"), ("TRX8_VERSION", "9.9"), ("TRX8_REPOSITORY", "repo"), ("EXTRA", "1")])
    );
}

#[test]
fn later_override_wins() {
    let base = pairs(&[("K", "base")]);
    let over = pairs(&[("K", "first"), ("J", "j"), ("K", "second")]);
    assert_eq!(merge_envs(&base, &over), pairs(&[("K", "second"), ("J", "j")]));
}

#[test]
fn merge_with_no_overrides_keeps_base() {
    let base = pairs(&[("A", "1"), ("B", "2")]);
    assert_eq!(merge_envs(&base, &Vec::new()), base);
}

#[test]
fn markers_are_not_forwarded() {
    let args = strings(&["tool.exe", "-a", "--trx8-subprocess-cwd=C:\\w", "b c", "--trx8-subprocess-env=K=V", "--trx8-subprocess-env=bad", "-z"]);
    let fwd = forwarded_args(&args);
    assert_eq!(fwd, strings(&["-a", "b c", "-z"]));
    assert!(fwd.iter().all(|a| !a.starts_with("--trx8-subprocess-")));
}

#[test]
fn command_alone_forwards_nothing() {
    let args = strings(&["whoami"]);
    assert!(forwarded_args(&args).is_empty());
}
