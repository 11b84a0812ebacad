use create_systemd_service::editinglist::EditingList;
use create_systemd_service::lines::is_addressable_line;
use create_systemd_service::statefullist::NoSelection;

fn buffer(lines: &[&str]) -> Vec<String> {
    lines.iter().map(|s| s.to_string()).collect()
}

#[test]
fn scenario_unit_buffer_navigation_and_commit() {
    // Buffer: section header, declaration, blank line, declaration.
    let mut nav = EditingList::with_lines(buffer(&[
        "[Unit]",
        "Description=old desc",
        "",
        "ExecStart=/bin/true",
    ]));

    // The first addressable line is index 1: index 0 is a section header.
    nav.first();
    assert_eq!(nav.cursor, Some(1));

    // Moving down skips the blank line and lands on index 3.
    nav.next();
    assert_eq!(nav.cursor, Some(3));

    // Back at index 1, arm it, edit the value, and commit.
    nav.previous();
    assert_eq!(nav.cursor, Some(1));
    let (k, v) = nav.get_selected_key_value().unwrap();
    assert_eq!(k, "Description");
    assert_eq!(v, "old desc");
    nav.rewrite_selected("new desc").unwrap();

    assert_eq!(nav.editing_text[0], "[Unit]");
    assert_eq!(nav.editing_text[1], "Description=new desc");
    assert_eq!(nav.editing_text[2], "");
    assert_eq!(nav.editing_text[3], "ExecStart=/bin/true");
}

#[test]
fn scenario_empty_buffer_is_all_noops() {
    let mut nav = EditingList::with_lines(Vec::new());
    assert_eq!(nav.cursor, None);
    nav.next();
    assert_eq!(nav.cursor, None);
    nav.previous();
    assert_eq!(nav.cursor, None);
    nav.first();
    assert_eq!(nav.cursor, None);
    nav.last();
    assert_eq!(nav.cursor, None);
    assert_eq!(nav.get_selected_key_value(), Err(NoSelection));
}

#[test]
fn buffer_without_addressable_lines_is_noop() {
    let mut nav = EditingList::with_lines(buffer(&["[Unit]", "# note", "", "; off=limits"]));
    assert_eq!(nav.cursor, None);
    nav.first();
    nav.last();
    nav.next();
    nav.previous();
    assert_eq!(nav.cursor, None);
    assert_eq!(nav.get_selected_key_value(), Err(NoSelection));
}

#[test]
fn cursor_only_ever_rests_on_addressable_lines() {
    let lines = [
        "# comment",
        "a=1",
        "",
        "[Section]",
        "b=2 ; trailing",
        "; c=3",
        "d=4",
        "",
    ];
    let mut nav = EditingList::with_lines(buffer(&lines));
    let moves: [usize; 12] = [0, 1, 1, 0, 2, 3, 1, 0, 0, 1, 2, 3];
    for m in moves {
        match m {
            0 => nav.next(),
            1 => nav.previous(),
            2 => nav.first(),
            _ => nav.last(),
        }
        let i = nav.cursor.expect("buffer has addressable lines");
        assert!(is_addressable_line(&lines[i]));
    }
}

#[test]
fn next_clamps_at_last_addressable_line() {
    let mut nav = EditingList::with_lines(buffer(&["a=1", "b=2", "# end"]));
    assert_eq!(nav.cursor, Some(0));
    nav.next();
    assert_eq!(nav.cursor, Some(1));
    nav.next();
    assert_eq!(nav.cursor, Some(1));
    nav.next();
    assert_eq!(nav.cursor, Some(1));
}

#[test]
fn previous_clamps_at_first_addressable_line() {
    let mut nav = EditingList::with_lines(buffer(&["# start", "a=1", "b=2"]));
    nav.last();
    assert_eq!(nav.cursor, Some(2));
    nav.previous();
    assert_eq!(nav.cursor, Some(1));
    nav.previous();
    assert_eq!(nav.cursor, Some(1));
}

#[test]
fn first_and_last_are_idempotent() {
    let mut nav = EditingList::with_lines(buffer(&["# x", "a=1", "b=2", "; y"]));
    nav.next();
    nav.first();
    let once = nav.cursor;
    nav.first();
    assert_eq!(nav.cursor, once);

    nav.last();
    let once = nav.cursor;
    nav.last();
    assert_eq!(nav.cursor, once);
}

#[test]
fn commit_keeps_comment_and_other_lines() {
    let mut nav = EditingList::with_lines(buffer(&["k1=a", "k2=b ;keep me", "k3=c"]));
    nav.next();
    nav.rewrite_selected("B").unwrap();
    assert_eq!(nav.editing_text[0], "k1=a");
    assert_eq!(nav.editing_text[1], "k2=B;keep me");
    assert_eq!(nav.editing_text[2], "k3=c");
    // The committed line is still addressable and reads back the new value.
    let (k, v) = nav.get_selected_key_value().unwrap();
    assert_eq!(k, "k2");
    assert_eq!(v, "B");
}
