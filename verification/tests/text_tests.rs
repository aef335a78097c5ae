use execguard::text::{
    chars_of, contains, first_word_chars, is_white_space_char, last_segment_chars, same_text, starts_with,
    string_to_vec, trim_chars, vec_to_string,
};

fn cs(s: &str) -> Vec<char> {
    s.chars().collect()
}

#[test]
fn string_to_vec_pads_with_zeros() {
    let v = string_to_vec("bash", 16);
    assert_eq!(v.len(), 16);
    assert_eq!(&v[..4], b"bash");
    assert!(v[4..].iter().all(|&b| b == 0));
}

#[test]
fn string_to_vec_keeps_room_for_nul() {
    let v = string_to_vec("abcdef", 4);
    assert_eq!(v, vec![b'a', b'b', b'c', 0]);
    let v = string_to_vec("abc", 1);
    assert_eq!(v, vec![0]);
}

#[test]
fn vec_to_string_stops_at_nul() {
    assert_eq!(vec_to_string(&[b'h', b'i', 0, b'x']), "hi");
    assert_eq!(vec_to_string(b"plain"), "plain");
    assert_eq!(vec_to_string(&[0, b'a']), "");
    assert_eq!(vec_to_string(&[]), "");
}

#[test]
fn vec_to_string_replaces_invalid_utf8() {
    assert_eq!(vec_to_string(&[b'a', 0xc3, b'b', 0]), "a\u{fffd}b");
    assert_eq!(vec_to_string("é".as_bytes()), "é");
}

#[test]
fn buffer_roundtrip() {
    for s in ["", "bash", "/tmp/exploit.py", "ação"] {
        assert_eq!(vec_to_string(&string_to_vec(s, 16)), s);
    }
}

#[test]
fn substring_search() {
    assert!(contains(&cs("/tmp/nc -e"), &cs("nc")));
    assert!(contains(&cs("abc"), &cs("")));
    assert!(contains(&cs("abc"), &cs("abc")));
    assert!(!contains(&cs("ab"), &cs("abc")));
    assert!(!contains(&cs("n c"), &cs("nc")));
}

#[test]
fn prefix_test() {
    assert!(starts_with(&cs("/tmp/x"), &cs("/tmp/")));
    assert!(!starts_with(&cs("/tmpx"), &cs("/tmp/")));
    assert!(!starts_with(&cs("/tm"), &cs("/tmp/")));
}

#[test]
fn trimming_white_space() {
    assert_eq!(trim_chars(&cs("  a b \n")), cs("a b"));
    assert_eq!(trim_chars(&cs("\u{3000}x\u{a0}")), cs("x"));
    assert_eq!(trim_chars(&cs(" \t ")), cs(""));
    assert!(is_white_space_char('\u{2028}'));
    assert!(!is_white_space_char('a'));
}

#[test]
fn last_path_segment() {
    assert_eq!(last_segment_chars(&cs("/usr/bin/ls")), cs("ls"));
    assert_eq!(last_segment_chars(&cs("ls")), cs("ls"));
    assert_eq!(last_segment_chars(&cs("/usr/bin/")), cs(""));
    assert_eq!(last_segment_chars(&cs("")), cs(""));
}

#[test]
fn text_helpers() {
    assert_eq!(chars_of("ab"), vec!['a', 'b']);
    assert!(same_text(&cs("ab"), &cs("ab")));
    assert!(!same_text(&cs("ab"), &cs("abc")));
    assert!(!same_text(&cs("ab"), &cs("ac")));
}

#[test]
fn decoding_is_idempotent() {
    for v in [vec![b'a', 0xc3, b'b', 0], vec![0xff, 0xfe, b'x'], b"plain".to_vec(), vec![]] {
        let once = vec_to_string(&v);
        assert!(!once.contains('\0'));
        assert_eq!(vec_to_string(once.as_bytes()), once);
    }
}

#[test]
fn first_word_of_command_line() {
    assert_eq!(first_word_chars(&cs("/tmp/nc -e /bin/bash")), cs("/tmp/nc"));
    assert_eq!(first_word_chars(&cs("ls")), cs("ls"));
    assert_eq!(first_word_chars(&cs(" x")), cs(""));
    assert_eq!(first_word_chars(&cs("")), cs(""));
}
