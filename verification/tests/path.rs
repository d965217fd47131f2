use kernel::fs::path::{same_chars, split_path, starts_with};

fn split(s: &str) -> Vec<String> {
    split_path(s)
}

#[test]
fn split_matches_str_split() {
    for s in ["", "/", "a", "a/b", "/a/b", "a//b", "a/b/", "busybox", "/dev/tty", "ä/ö/ü"] {
        let want: Vec<String> = s.split('/').map(|p| p.to_string()).collect();
        assert_eq!(split(s), want, "splitting {:?}", s);
    }
}

#[test]
fn split_exact_pieces() {
    assert_eq!(split("/bin/ls"), vec!["".to_string(), "bin".to_string(), "ls".to_string()]);
    assert_eq!(split(""), vec!["".to_string()]);
    assert_eq!(split("lua"), vec!["lua".to_string()]);
}

#[test]
fn starts_with_prefixes() {
    assert!(starts_with("/dev/tty", "/dev"));
    assert!(starts_with("/device", "/dev"));
    assert!(starts_with("/dev", "/dev"));
    assert!(!starts_with("/de", "/dev"));
    assert!(!starts_with("dev/tty", "/dev"));
    assert!(starts_with("anything", ""));
}

#[test]
fn same_chars_compares_whole_strings() {
    assert!(same_chars("/dev/tty", "/dev/tty"));
    assert!(!same_chars("/dev/tty0", "/dev/tty"));
    assert!(!same_chars("/dev/tt", "/dev/tty"));
    assert!(same_chars("", ""));
}
