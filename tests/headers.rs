use httpstat::headers::{colorize_header, colorize_headers, colorize_status, response_headers, split_lines};

const GREEN: &str = "\u{1b}[32m";
const CYAN: &str = "\u{1b}[36m";
const RESET: &str = "\u{1b}[0m";

#[test]
fn status_line_is_colored() {
    assert_eq!(
        colorize_status("HTTP/1.1 200 OK"),
        format!("{}HTTP{}/{}1.1 200 OK{}", GREEN, RESET, CYAN, RESET)
    );
}

#[test]
fn status_line_splits_at_first_slash() {
    assert_eq!(
        colorize_status("HTTP/2/x"),
        format!("{}HTTP{}/{}2/x{}", GREEN, RESET, CYAN, RESET)
    );
    assert_eq!(
        colorize_status("/a/b"),
        format!("{}/a{}/{}b{}", GREEN, RESET, CYAN, RESET)
    );
}

#[test]
fn status_line_without_slash_is_kept() {
    assert_eq!(colorize_status("HTTP 200"), "HTTP 200");
    assert_eq!(colorize_status("/"), "/");
    assert_eq!(colorize_status(""), "");
}

#[test]
fn header_line_is_colored() {
    assert_eq!(
        colorize_header("Content-Type: text/html"),
        format!("Content-Type:{} text/html{}", CYAN, RESET)
    );
    assert_eq!(colorize_header("Date: 10:00"), format!("Date:{} 10:00{}", CYAN, RESET));
    assert_eq!(colorize_header(":a:b"), format!(":a:{}b{}", CYAN, RESET));
}

#[test]
fn header_line_without_colon_is_kept() {
    assert_eq!(colorize_header("no colon here"), "no colon here");
    assert_eq!(colorize_header(":"), ":");
}

#[test]
fn header_block_is_colored_in_order() {
    let out = colorize_headers("HTTP/1.1 200 OK\r\nServer: x\r\nplain\r\nA:b");
    let expected = format!(
        "\n{}HTTP{}/{}1.1 200 OK{}\nServer:{} x{}\nplain\nA:{}b{}",
        GREEN, RESET, CYAN, RESET, CYAN, RESET, CYAN, RESET
    );
    assert_eq!(out, expected);
    assert_eq!(out.split('\n').count(), 5);
    assert!(out.starts_with('\n'));
}

#[test]
fn empty_header_block_gives_nothing() {
    assert_eq!(colorize_headers(""), "");
}

#[test]
fn lines_split_like_str_lines() {
    let text = "foo\nbar\n\r\nbaz\r";
    let expected: Vec<String> = text.lines().map(|l| l.to_string()).collect();
    assert_eq!(split_lines(text), expected);
    assert_eq!(split_lines("a\r\nb\n"), vec!["a".to_string(), "b".to_string()]);
    assert_eq!(split_lines(""), Vec::<String>::new());
    assert_eq!(split_lines("\n"), vec!["".to_string()]);
}

#[test]
fn headers_end_at_first_blank_line() {
    let text = "HTTP/1.1 200 OK\r\nA: b\r\n\r\nbody\r\n\r\nmore{}";
    assert_eq!(response_headers(text), Some("HTTP/1.1 200 OK\r\nA: b".to_string()));
}

#[test]
fn no_separator_means_no_headers() {
    assert_eq!(response_headers("HTTP/1.1 200 OK\r\nA: b\r\n"), None);
    assert_eq!(response_headers(""), None);
    assert_eq!(response_headers("\r\n\r\n"), Some(String::new()));
}
