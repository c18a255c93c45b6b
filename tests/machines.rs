use std::cell::Cell;
use trx8::acquire::{
    next_preparation, Preparation, poll_decision, thread_candidates, AcquireAction, AcquireError, AcquireEvent, Acquisition, Outcome,
    PollDecision, ServiceState, ServiceStatus, ThreadDescriptor, START_WAIT_MS,
};
use trx8::cache::CredentialCache;
use trx8::launch::{command_line, environment_entries, quote_arg, Launch, LaunchAction, LaunchError, LaunchEvent, LaunchResult};
use trx8::privilege::{required_privileges, PrivilegeAction, PrivilegeEnabler, PrivilegeError, PrivilegeEvent};

fn status(state: ServiceState, pid: u32, hint: u32) -> ServiceStatus {
    ServiceStatus { state, process_id: pid, wait_hint_ms: hint }
}

fn thread(tid: u32, pid: u32) -> ThreadDescriptor {
    ThreadDescriptor { thread_id: tid, owner_process_id: pid }
}

/// Drives an acquisition against a simulated service whose status answers are
/// `answers`, and whose threads succeed at impersonation where `imp` says so.
fn simulate(max: u32, answers: &[ServiceStatus], threads: Vec<ThreadDescriptor>, imp: &[bool]) -> (Outcome, Vec<AcquireAction>) {
    let mut m = Acquisition::new(max);
    let mut log = vec![m.pending()];
    let mut a = m.step(AcquireEvent::ServiceOpened(true));
    let mut polls = 0;
    let mut imps = 0;
    let mut threads = Some(threads);
    loop {
        log.push(a);
        let e = match a {
            AcquireAction::QueryStatus | AcquireAction::StartService { .. } | AcquireAction::Sleep { .. } => {
                let st = answers[polls];
                polls += 1;
                AcquireEvent::Status(Some(st))
            }
            AcquireAction::ListThreads => AcquireEvent::Threads(threads.take().unwrap()),
            AcquireAction::Impersonate { .. } => {
                let ok = imp[imps];
                imps += 1;
                AcquireEvent::Impersonated(ok)
            }
            AcquireAction::OpenToken => AcquireEvent::TokenOpened(true),
            AcquireAction::OpenService => AcquireEvent::ServiceOpened(true),
            AcquireAction::Done(o) => return (o, log),
        };
        a = m.step(e);
    }
}

#[test]
fn poll_decisions() {
    assert_eq!(poll_decision(0, 3, status(ServiceState::Stopped, 0, 0)), PollDecision::Start { sleep_ms: 500 });
    assert_eq!(poll_decision(1, 3, status(ServiceState::StartPending, 0, 250)), PollDecision::Sleep { ms: 250 });
    assert_eq!(poll_decision(3, 3, status(ServiceState::Running, 77, 0)), PollDecision::Ready { process_id: 77 });
    assert_eq!(poll_decision(0, 3, status(ServiceState::Running, 0, 0)), PollDecision::Unavailable);
    assert_eq!(poll_decision(3, 3, status(ServiceState::StopPending, 0, 10)), PollDecision::Unavailable);
    assert_eq!(START_WAIT_MS, 500);
}

#[test]
fn service_starts_after_n_polls() {
    let answers = [
        status(ServiceState::Stopped, 0, 0),
        status(ServiceState::StartPending, 0, 100),
        status(ServiceState::StartPending, 0, 100),
        status(ServiceState::Running, 4242, 0),
    ];
    let threads = vec![thread(1, 10), thread(7, 4242), thread(8, 4242)];
    let (o, log) = simulate(3, &answers, threads, &[true]);
    assert_eq!(o, Outcome::Acquired);
    assert_eq!(log[2], AcquireAction::StartService { sleep_ms: 500 });
    assert_eq!(log[3], AcquireAction::Sleep { ms: 100 });
    assert!(log.contains(&AcquireAction::Impersonate { thread_id: 7 }));
    assert!(!log.contains(&AcquireAction::Impersonate { thread_id: 8 }));
}

#[test]
fn service_never_runs() {
    let answers = [status(ServiceState::Stopped, 0, 0); 4];
    let (o, log) = simulate(3, &answers, Vec::new(), &[]);
    assert_eq!(o, Outcome::Failed(AcquireError::ServiceUnavailable));
    assert!(!log.contains(&AcquireAction::ListThreads));
    let mut cache: CredentialCache<u64> = CredentialCache::new();
    let got = cache.get_or_acquire(|| if o == Outcome::Acquired { Some(1) } else { None });
    assert_eq!(got, None);
    assert_eq!(cache.get(), None);
}

#[test]
fn service_open_or_query_failure() {
    let mut m = Acquisition::new(5);
    assert_eq!(m.step(AcquireEvent::ServiceOpened(false)), AcquireAction::Done(Outcome::Failed(AcquireError::ServiceUnavailable)));
    let mut m = Acquisition::new(5);
    m.step(AcquireEvent::ServiceOpened(true));
    assert_eq!(m.step(AcquireEvent::Status(None)), AcquireAction::Done(Outcome::Failed(AcquireError::ServiceUnavailable)));
    assert_eq!(m.step(AcquireEvent::TokenOpened(true)), AcquireAction::Done(Outcome::Failed(AcquireError::ServiceUnavailable)));
}

#[test]
fn threads_tried_in_order_until_one_succeeds() {
    let answers = [status(ServiceState::Running, 9, 0)];
    let threads = vec![thread(3, 9), thread(4, 1), thread(5, 9), thread(6, 9)];
    let (o, log) = simulate(1, &answers, threads, &[false, true]);
    assert_eq!(o, Outcome::Acquired);
    let tried: Vec<u32> = log
        .iter()
        .filter_map(|a| match a {
            AcquireAction::Impersonate { thread_id } => Some(*thread_id),
            _ => None,
        })
        .collect();
    assert_eq!(tried, vec![3, 5]);
}

#[test]
fn no_thread_impersonated() {
    let answers = [status(ServiceState::Running, 9, 0)];
    let (o, _) = simulate(1, &answers, vec![thread(3, 9)], &[false]);
    assert_eq!(o, Outcome::Failed(AcquireError::IdentityAcquisitionFailed));
    let (o, _) = simulate(1, &answers, vec![thread(3, 8)], &[]);
    assert_eq!(o, Outcome::Failed(AcquireError::IdentityAcquisitionFailed));
}

#[test]
fn candidates_keep_order() {
    let ts = vec![thread(1, 2), thread(3, 4), thread(5, 2)];
    assert_eq!(thread_candidates(&ts, 2), vec![1, 5]);
    assert!(thread_candidates(&ts, 9).is_empty());
}

#[test]
fn cached_token_is_reused() {
    let calls = Cell::new(0);
    let acquire = || {
        calls.set(calls.get() + 1);
        Some(0xBEEFu64)
    };
    let mut cache = CredentialCache::new();
    assert_eq!(cache.get_or_acquire(acquire), Some(0xBEEF));
    assert_eq!(cache.get_or_acquire(acquire), Some(0xBEEF));
    assert_eq!(cache.get_or_acquire(acquire), Some(0xBEEF));
    assert_eq!(calls.get(), 1);
}

#[test]
fn failed_acquisition_is_retried() {
    let calls = Cell::new(0);
    let mut cache = CredentialCache::new();
    assert_eq!(cache.get_or_acquire(|| { calls.set(calls.get() + 1); None::<u64> }), None);
    assert_eq!(cache.get_or_acquire(|| { calls.set(calls.get() + 1); Some(5u64) }), Some(5));
    assert_eq!(calls.get(), 2);
}

#[test]
fn invalid_token_fails_at_duplication() {
    let mut l = Launch::new(None);
    assert_eq!(l.pending(), LaunchAction::GetCredential);
    assert_eq!(l.step(LaunchEvent::Credential(true)), LaunchAction::Duplicate);
    let fail = LaunchResult { succeeded: false, exit_code: None, error: Some(LaunchError::TokenDuplicationFailed) };
    assert_eq!(l.step(LaunchEvent::Duplicated(false)), LaunchAction::Done(fail));
    assert_eq!(l.step(LaunchEvent::Created(None)), LaunchAction::Done(fail));
}

#[test]
fn whoami_launch_reports_exit_code() {
    let mut l = Launch::new(None);
    assert_eq!(l.step(LaunchEvent::Credential(true)), LaunchAction::Duplicate);
    assert_eq!(l.step(LaunchEvent::Duplicated(true)), LaunchAction::CreateProcess);
    assert_eq!(l.step(LaunchEvent::Created(None)), LaunchAction::Wait { timeout_ms: None });
    assert_eq!(l.step(LaunchEvent::Waited(true)), LaunchAction::ReadExitCode);
    let ok = LaunchResult { succeeded: true, exit_code: Some(0), error: None };
    assert_eq!(l.step(LaunchEvent::ExitCode(Some(0))), LaunchAction::Done(ok));
    assert_eq!(command_line(&"whoami".to_string(), &Vec::new()), "whoami");
}

#[test]
fn launch_failures() {
    let mut l = Launch::new(None);
    let r = l.step(LaunchEvent::Credential(false));
    assert_eq!(r, LaunchAction::Done(LaunchResult { succeeded: false, exit_code: None, error: Some(LaunchError::NoCredential) }));
    let mut l = Launch::new(None);
    l.step(LaunchEvent::Credential(true));
    l.step(LaunchEvent::Duplicated(true));
    let r = l.step(LaunchEvent::Created(Some(5)));
    assert_eq!(r, LaunchAction::Done(LaunchResult { succeeded: false, exit_code: None, error: Some(LaunchError::ProcessCreationFailed(5)) }));
    let mut l = Launch::new(None);
    l.step(LaunchEvent::Credential(true));
    l.step(LaunchEvent::Duplicated(true));
    l.step(LaunchEvent::Created(None));
    let r = l.step(LaunchEvent::Waited(false));
    assert_eq!(r, LaunchAction::Done(LaunchResult { succeeded: false, exit_code: None, error: Some(LaunchError::WaitFailed) }));
}

#[test]
fn command_line_quotes_where_needed() {
    let args = vec!["/c".to_string(), "a b".to_string(), String::new(), "t\tab".to_string()];
    assert_eq!(command_line(&"C:\\Program Files\\x.exe".to_string(), &args), "\"C:\\Program Files\\x.exe\" /c \"a b\" \"\" \"t\tab\"");
    assert_eq!(quote_arg("plain"), "plain");
    assert_eq!(quote_arg(""), "\"\"");
}

#[test]
fn environment_block_entries() {
    let env = vec![("A".to_string(), "1".to_string()), ("PATH".to_string(), "x=y".to_string())];
    assert_eq!(environment_entries(&env), vec!["A=1".to_string(), "PATH=x=y".to_string()]);
}

fn enable_all(results: &[bool]) -> PrivilegeAction {
    let mut p = PrivilegeEnabler::new(required_privileges().len());
    let mut a = p.step(PrivilegeEvent::TokenOpened(true));
    let mut i = 0;
    while let PrivilegeAction::Enable(_) = a {
        a = p.step(PrivilegeEvent::Adjusted(results[i]));
        i += 1;
    }
    a
}

#[test]
fn enabling_again_succeeds_again() {
    assert_eq!(required_privileges(), vec!["SeDebugPrivilege".to_string(), "SeImpersonatePrivilege".to_string()]);
    assert_eq!(enable_all(&[true, true]), PrivilegeAction::Enabled);
    assert_eq!(enable_all(&[true, true]), PrivilegeAction::Enabled);
}

#[test]
fn first_failed_privilege_stops() {
    assert_eq!(enable_all(&[false, true]), PrivilegeAction::Failed(PrivilegeError::NotEnabled(0)));
    assert_eq!(enable_all(&[true, false]), PrivilegeAction::Failed(PrivilegeError::NotEnabled(1)));
    let mut p = PrivilegeEnabler::new(2);
    assert_eq!(p.step(PrivilegeEvent::TokenOpened(false)), PrivilegeAction::Failed(PrivilegeError::TokenUnavailable));
    assert_eq!(p.step(PrivilegeEvent::Adjusted(true)), PrivilegeAction::Failed(PrivilegeError::TokenUnavailable));
}

#[test]
fn bounded_wait_that_expires_fails() {
    let mut l = Launch::new(Some(1000));
    l.step(LaunchEvent::Credential(true));
    l.step(LaunchEvent::Duplicated(true));
    assert_eq!(l.step(LaunchEvent::Created(None)), LaunchAction::Wait { timeout_ms: Some(1000) });
    let r = l.step(LaunchEvent::Waited(false));
    assert_eq!(r, LaunchAction::Done(LaunchResult { succeeded: false, exit_code: None, error: Some(LaunchError::WaitFailed) }));
}

#[test]
fn quotes_and_backslashes_are_escaped() {
    assert_eq!(quote_arg("a\"b"), "\"a\\\"b\"");
    assert_eq!(quote_arg("C:\\x y\\"), "\"C:\\x y\\\\\"");
    assert_eq!(quote_arg("a\\\\\"b"), "\"a\\\\\\\\\\\"b\"");
    assert_eq!(quote_arg("C:\\dir\\file"), "C:\\dir\\file");
    assert_eq!(quote_arg("\""), "\"\\\"\"");
    let args = vec!["say \"hi\"".to_string()];
    assert_eq!(command_line(&"echo".to_string(), &args), "echo \"say \\\"hi\\\"\"");
}

#[test]
fn preparations_in_order() {
    assert_eq!(next_preparation(Preparation::EnablePrivileges, true), Preparation::ImpersonateSystem);
    assert_eq!(next_preparation(Preparation::EnablePrivileges, false), Preparation::GiveUp);
    assert_eq!(next_preparation(Preparation::ImpersonateSystem, true), Preparation::Acquire);
    assert_eq!(next_preparation(Preparation::ImpersonateSystem, false), Preparation::GiveUp);
    assert_eq!(next_preparation(Preparation::GiveUp, true), Preparation::GiveUp);
}
