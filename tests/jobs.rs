use subfinder::jobs::{is_blank, parse_domains};

fn strings(v: Vec<Vec<u8>>) -> Vec<String> {
    v.into_iter().map(|b| String::from_utf8(b).unwrap()).collect()
}

#[test]
fn domains_in_file_order() {
    let r = parse_domains(b"a.com\nb.org\nc.net\n");
    assert_eq!(strings(r), vec!["a.com", "b.org", "c.net"]);
}

#[test]
fn last_line_without_newline() {
    let r = parse_domains(b"a.com\nb.org");
    assert_eq!(strings(r), vec!["a.com", "b.org"]);
}

#[test]
fn blank_lines_are_skipped() {
    let r = parse_domains(b"\na.com\n\n   \n\t\nb.org\n\n");
    assert_eq!(strings(r), vec!["a.com", "b.org"]);
}

#[test]
fn carriage_returns_end_lines() {
    let r = parse_domains(b"a.com\r\nb.org\r\n\r\n");
    assert_eq!(strings(r), vec!["a.com", "b.org"]);
}

#[test]
fn empty_input_gives_no_jobs() {
    assert!(parse_domains(b"").is_empty());
    assert!(parse_domains(b"\n\n").is_empty());
}

#[test]
fn blank_test() {
    assert!(is_blank(b""));
    assert!(is_blank(b" \t\r"));
    assert!(!is_blank(b" x "));
}
