use create_systemd_service::lines::is_addressable_line;
use create_systemd_service::lines::rewrite_value;
use create_systemd_service::lines::split_key_value;
use create_systemd_service::text::join_lines;
use create_systemd_service::text::split_lines;

#[test]
fn addressable_plain_declaration() {
    assert!(is_addressable_line("Description=old desc"));
    assert!(is_addressable_line("ExecStart=/bin/true"));
    assert!(is_addressable_line("a="));
}

#[test]
fn addressable_key_may_be_whitespace() {
    // The predicate only asks for a non-empty run of characters other
    // than `=`, `;` and `#` before the separator.
    assert!(is_addressable_line(" =x"));
}

#[test]
fn not_addressable_blank_comment_section() {
    assert!(!is_addressable_line(""));
    assert!(!is_addressable_line("[Unit]"));
    assert!(!is_addressable_line("# a comment"));
    assert!(!is_addressable_line("; another=comment"));
    assert!(!is_addressable_line("=value"));
    assert!(!is_addressable_line("no separator here"));
    assert!(!is_addressable_line("a;b=c"));
}

#[test]
fn split_takes_value_up_to_comment() {
    let (k, v) = split_key_value("Description=old desc");
    assert_eq!(k, "Description");
    assert_eq!(v, "old desc");

    let (k, v) = split_key_value("Exec=a=b;com");
    assert_eq!(k, "Exec");
    assert_eq!(v, "a=b");

    let (k, v) = split_key_value("Key=v#note");
    assert_eq!(k, "Key");
    assert_eq!(v, "v");

    let (k, v) = split_key_value("Empty=");
    assert_eq!(k, "Empty");
    assert_eq!(v, "");
}

#[test]
fn rewrite_keeps_key_and_comment() {
    assert_eq!(rewrite_value("Description=old desc", "new desc"), "Description=new desc");
    assert_eq!(rewrite_value("Exec=a=b;com", "z"), "Exec=z;com");
    assert_eq!(rewrite_value("Key=v#note", "w"), "Key=w#note");
    assert_eq!(rewrite_value("Empty=", "filled"), "Empty=filled");
    assert_eq!(rewrite_value("K=old", ""), "K=");
}

#[test]
fn split_lines_on_boundaries() {
    assert_eq!(split_lines("a\nb\n"), vec!["a".to_string(), "b".to_string()]);
    assert_eq!(split_lines("a\nb"), vec!["a".to_string(), "b".to_string()]);
    assert_eq!(split_lines("a\r\nb"), vec!["a".to_string(), "b".to_string()]);
    assert_eq!(split_lines(""), Vec::<String>::new());
    assert_eq!(split_lines("\n"), vec!["".to_string()]);
    assert_eq!(split_lines("a\n\nb"), vec!["a".to_string(), "".to_string(), "b".to_string()]);
}

#[test]
fn join_lines_with_separators() {
    assert_eq!(join_lines(&vec!["a".to_string(), "b".to_string()]), "a\nb");
    assert_eq!(join_lines(&vec!["only".to_string()]), "only");
    assert_eq!(join_lines(&Vec::new()), "");
}
