use trx8::actions::{execute_action, ti_run, ActionStep, Runner, NO_MESSAGE};
use trx8::config::Config;

fn strings(v: &[&str]) -> Vec<String> {
    v.iter().map(|s| s.to_string()).collect()
}

fn base() -> Vec<(String, String)> {
    vec![("TRX8_WORKING_DIR".to_string(), "C:\\here".to_string())]
}

#[test]
fn echo_prints_first_parameter() {
    let here = "C:\\here".to_string();
    match execute_action("echo", &Some(strings(&["Hello", "x"])), &here, &base()) {
        ActionStep::Echo(m) => assert_eq!(m, "Hello"),
        _ => panic!("expected echo"),
    }
    match execute_action("echo", &None, &here, &base()) {
        ActionStep::Echo(m) => assert_eq!(m, NO_MESSAGE),
        _ => panic!("expected echo"),
    }
    match execute_action("echo", &Some(Vec::new()), &here, &base()) {
        ActionStep::Echo(m) => assert_eq!(m, "No message provided, please check your configuration."),
        _ => panic!("expected echo"),
    }
}

#[test]
fn unknown_action() {
    let here = "C:\\here".to_string();
    assert!(matches!(execute_action("reboot", &None, &here, &base()), ActionStep::Unknown));
}

#[test]
fn runner_without_command() {
    let here = "C:\\here".to_string();
    assert!(matches!(execute_action("cmd", &None, &here, &base()), ActionStep::MissingCommand(Runner::Cmd)));
    assert!(matches!(execute_action("ti_run", &Some(Vec::new()), &here, &base()), ActionStep::MissingCommand(Runner::TrustedRun)));
}

#[test]
fn cmd_and_pwsh_wrap_the_command() {
    let here = "C:\\here".to_string();
    match execute_action("cmd", &Some(strings(&["dir /b", "--trx8-subprocess-cwd=C:\\w"])), &here, &base()) {
        ActionStep::Launch(Runner::Cmd, inv) => {
            assert_eq!(inv.program, "cmd");
            assert_eq!(inv.args, strings(&["/C", "dir /b"]));
            assert_eq!(inv.cwd, "C:\\w");
        }
        _ => panic!("expected cmd launch"),
    }
    match execute_action("pwsh", &Some(strings(&["Get-Date"])), &here, &base()) {
        ActionStep::Launch(Runner::Pwsh, inv) => {
            assert_eq!(inv.program, "powershell");
            assert_eq!(inv.args, strings(&["-Command", "Get-Date"]));
            assert_eq!(inv.cwd, "C:\\here");
        }
        _ => panic!("expected pwsh launch"),
    }
}

#[test]
fn trusted_run_plan() {
    let args = strings(&["whoami", "--trx8-subprocess-env=TRX8_WORKING_DIR=D:\\x", "/groups"]);
    let inv = ti_run(&args, &"C:\\here".to_string(), &base());
    assert_eq!(inv.program, "whoami");
    assert_eq!(inv.args, strings(&["/groups"]));
    assert_eq!(inv.cwd, "C:\\here");
    assert_eq!(inv.env, vec![("TRX8_WORKING_DIR".to_string(), "D:\\x".to_string())]);
}

#[test]
fn whoami_plan_has_no_arguments() {
    let here = "C:\\here".to_string();
    match execute_action("ti_run", &Some(strings(&["whoami"])), &here, &base()) {
        ActionStep::Launch(Runner::TrustedRun, inv) => {
            assert_eq!(inv.program, "whoami");
            assert!(inv.args.is_empty());
            assert_eq!(inv.cwd, here);
            assert_eq!(inv.env, base());
        }
        _ => panic!("expected trusted launch"),
    }
}

#[test]
fn example_profile() {
    let c = Config::generate_empty();
    assert_eq!(c.metadata.name, "Trx8");
    assert_eq!(c.metadata.version, "0.1.0");
    assert_eq!(c.metadata.trx8_version, "0.1.0");
    assert!(c.metadata.author.is_none());
    assert_eq!(c.scripts.len(), 1);
    assert_eq!(c.scripts[0].actions.len(), 1);
    assert_eq!(c.scripts[0].actions[0].name, "echo");
    assert_eq!(c.scripts[0].actions[0].parameters, Some(vec!["Hello, World!".to_string()]));
}

#[test]
fn run_keeps_command_among_arguments() {
    let here = "C:\\here".to_string();
    let params = strings(&["tool.exe", "-a", "--trx8-subprocess-cwd=C:\\w", "--trx8-subprocess-other", "b"]);
    match execute_action("run", &Some(params), &here, &base()) {
        ActionStep::Launch(Runner::Run, inv) => {
            assert_eq!(inv.program, "tool.exe");
            assert_eq!(inv.args, strings(&["tool.exe", "-a", "b"]));
            assert_eq!(inv.cwd, "C:\\w");
        }
        _ => panic!("expected run launch"),
    }
    match execute_action("run", &Some(strings(&["whoami"])), &here, &base()) {
        ActionStep::Launch(Runner::Run, inv) => assert_eq!(inv.args, strings(&["whoami"])),
        _ => panic!("expected run launch"),
    }
}
