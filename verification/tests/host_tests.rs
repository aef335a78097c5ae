use execguard::host::{local_state_reply, truncate_reply};

fn list() -> Vec<String> {
    vec!["nc".to_string(), "ncat".to_string()]
}

#[test]
fn banned_list_as_json() {
    let reply = local_state_reply(b"banned_binaries", &list(), 100);
    assert_eq!(reply, br#"["nc","ncat"]"#.to_vec());
}

#[test]
fn reply_is_cut_to_room() {
    let reply = local_state_reply(b"banned_binaries", &list(), 5);
    assert_eq!(reply, br#"["nc""#.to_vec());
    let reply = local_state_reply(b"banned_binaries", &list(), 0);
    assert!(reply.is_empty());
}

#[test]
fn negative_room_is_unbounded() {
    let reply = local_state_reply(b"banned_binaries", &list(), -1);
    assert_eq!(reply, br#"["nc","ncat"]"#.to_vec());
}

#[test]
fn unknown_key_gets_nothing() {
    assert!(local_state_reply(b"process_history", &list(), 100).is_empty());
    assert!(local_state_reply(b"banned_binaries\0", &list(), 100).is_empty());
    assert!(local_state_reply(b"", &list(), 100).is_empty());
}

#[test]
fn json_escapes_strings() {
    let items = vec!["a\"b".to_string()];
    let reply = local_state_reply(b"banned_binaries", &items, 100);
    assert_eq!(reply, br#"["a\"b"]"#.to_vec());
}

#[test]
fn truncation() {
    assert_eq!(truncate_reply(vec![1, 2, 3], 2), vec![1, 2]);
    assert_eq!(truncate_reply(vec![1, 2, 3], 3), vec![1, 2, 3]);
    assert_eq!(truncate_reply(vec![1, 2, 3], 9), vec![1, 2, 3]);
    assert_eq!(truncate_reply(vec![1, 2, 3], -4), vec![1, 2, 3]);
}
