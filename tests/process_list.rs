use trx8::tasklist::{parse_u32, pid_from_tasklist, tasklist_args};

#[test]
fn pid_of_first_record() {
    let out = "\"winlogon.exe\",\"1234\",\"Console\",\"1\",\"24,000 K\"\r\n\"winlogon.exe\",\"99\",\"Console\",\"2\",\"1 K\"\r\n";
    assert_eq!(pid_from_tasklist(out), Some(1234));
}

#[test]
fn no_process_found() {
    assert_eq!(pid_from_tasklist(""), None);
    assert_eq!(pid_from_tasklist("INFO: No tasks are running which match the specified criteria.\r\n"), None);
    assert_eq!(pid_from_tasklist("\"a\",\"x1\""), None);
}

#[test]
fn decimal_parsing() {
    assert_eq!(parse_u32("4294967295"), Some(u32::MAX));
    assert_eq!(parse_u32("4294967296"), None);
    assert_eq!(parse_u32("+7"), Some(7));
    assert_eq!(parse_u32("+"), None);
    assert_eq!(parse_u32(""), None);
    assert_eq!(parse_u32("12a"), None);
    assert_eq!(parse_u32("007"), Some(7));
}

#[test]
fn query_arguments() {
    let a = tasklist_args("winlogon.exe");
    assert_eq!(a, vec!["/C", "tasklist", "/FI", "IMAGENAME eq winlogon.exe", "/FO", "CSV", "/NH"]);
}
