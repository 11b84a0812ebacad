use create_systemd_service::app::App;
use create_systemd_service::app::AppState;
use create_systemd_service::app::KeyInput;
use create_systemd_service::app::KeyOutcome;

fn demo_app() -> App {
    App::new(vec![(
        "demo".to_string(),
        "[Unit]\nDescription=old desc\n\nExecStart=/bin/true\n".to_string(),
    )])
}

fn type_word(app: &mut App, word: &str) {
    for c in word.chars() {
        assert_eq!(app.handle_keyboard(KeyInput::Char(c)), KeyOutcome::Continue);
    }
}

#[test]
fn fresh_session_selects_first_template() {
    let app = demo_app();
    assert_eq!(app.app_state, AppState::SelectServiceTemplate);
    assert_eq!(app.lhs_list.cursor, Some(0));
    assert_eq!(app.service_name, "");
    assert_eq!(app.altered_line, None);
    assert!(!app.just_saved);
}

#[test]
fn full_edit_and_save_flow() {
    let mut app = demo_app();

    // Pick the template and name the service.
    assert_eq!(app.handle_keyboard(KeyInput::Enter), KeyOutcome::Continue);
    assert_eq!(app.app_state, AppState::ChooseServiceName);
    type_word(&mut app, "myapp");
    assert_eq!(app.service_name, "myapp");
    assert_eq!(app.handle_keyboard(KeyInput::Enter), KeyOutcome::Continue);
    assert_eq!(app.app_state, AppState::EnteringEditMode);

    // Confirm: the buffer loads and the cursor lands on the first
    // addressable line, skipping the section header.
    assert_eq!(app.handle_keyboard(KeyInput::Enter), KeyOutcome::Continue);
    assert_eq!(app.app_state, AppState::ViewService);
    assert_eq!(app.editing_service.cursor, Some(1));
    assert_eq!(app.editing_service.editing_text.len(), 4);

    // Arm the line: its key and value are captured.
    assert_eq!(app.handle_keyboard(KeyInput::Enter), KeyOutcome::Continue);
    assert_eq!(app.app_state, AppState::ModifyingService);
    assert_eq!(
        app.altered_line,
        Some(("Description".to_string(), "old desc".to_string()))
    );

    // Edit the value to "new desc" and commit.
    for _ in 0.."old desc".len() {
        assert_eq!(app.handle_keyboard(KeyInput::Backspace), KeyOutcome::Continue);
    }
    type_word(&mut app, "new desc");
    assert_eq!(
        app.altered_line,
        Some(("Description".to_string(), "new desc".to_string()))
    );
    assert_eq!(app.handle_keyboard(KeyInput::Enter), KeyOutcome::Continue);
    assert_eq!(app.app_state, AppState::ViewService);
    assert_eq!(app.altered_line, None);
    assert_eq!(app.editing_service.editing_text[1], "Description=new desc");
    assert_eq!(app.editing_service.editing_text[0], "[Unit]");
    assert_eq!(app.editing_service.editing_text[2], "");
    assert_eq!(app.editing_service.editing_text[3], "ExecStart=/bin/true");
    assert_eq!(
        app.selected_template_contents(),
        "[Unit]\nDescription=new desc\n\nExecStart=/bin/true"
    );

    // The save chord asks the caller to persist and marks the session.
    assert_eq!(app.handle_keyboard(KeyInput::Ctrl('s')), KeyOutcome::Save);
    assert!(app.just_saved);
    let (path, contents) = app.save(true);
    assert_eq!(path, "/etc/systemd/system/myapp.service");
    assert_eq!(contents, "[Unit]\nDescription=new desc\n\nExecStart=/bin/true\n");
    let (path, _) = app.save(false);
    assert_eq!(path, "~/.config/systemd/user/myapp.service");
}

#[test]
fn navigation_keys_drive_the_buffer_view() {
    let mut app = demo_app();
    app.handle_keyboard(KeyInput::Enter);
    app.handle_keyboard(KeyInput::Enter);
    app.handle_keyboard(KeyInput::Enter);
    assert_eq!(app.editing_service.cursor, Some(1));

    app.handle_keyboard(KeyInput::Down);
    assert_eq!(app.editing_service.cursor, Some(3));
    app.handle_keyboard(KeyInput::Down);
    assert_eq!(app.editing_service.cursor, Some(3));
    app.handle_keyboard(KeyInput::Up);
    assert_eq!(app.editing_service.cursor, Some(1));
    app.handle_keyboard(KeyInput::PageDown);
    assert_eq!(app.editing_service.cursor, Some(3));
    app.handle_keyboard(KeyInput::PageUp);
    assert_eq!(app.editing_service.cursor, Some(1));
}

#[test]
fn template_picker_keys_move_the_cursor() {
    let mut app = App::new(vec![
        ("a".to_string(), "x=1\n".to_string()),
        ("b".to_string(), "y=2\n".to_string()),
    ]);
    app.handle_keyboard(KeyInput::Down);
    assert_eq!(app.lhs_list.cursor, Some(1));
    app.handle_keyboard(KeyInput::Down);
    assert_eq!(app.lhs_list.cursor, Some(1));
    app.handle_keyboard(KeyInput::Up);
    assert_eq!(app.lhs_list.cursor, Some(0));
    app.handle_keyboard(KeyInput::Up);
    assert_eq!(app.lhs_list.cursor, Some(0));
}

#[test]
fn escape_clears_the_name_and_goes_back() {
    let mut app = demo_app();
    app.handle_keyboard(KeyInput::Enter);
    type_word(&mut app, "abc");
    assert_eq!(app.service_name, "abc");
    app.handle_keyboard(KeyInput::Backspace);
    assert_eq!(app.service_name, "ab");
    assert_eq!(app.handle_keyboard(KeyInput::Esc), KeyOutcome::Continue);
    assert_eq!(app.app_state, AppState::SelectServiceTemplate);
    assert_eq!(app.service_name, "");
}

#[test]
fn quit_chords() {
    let mut app = demo_app();
    assert_eq!(app.handle_keyboard(KeyInput::Char('q')), KeyOutcome::Quit);
    assert_eq!(app.handle_keyboard(KeyInput::Ctrl('x')), KeyOutcome::Quit);
    app.handle_keyboard(KeyInput::Enter);
    // 'q' only quits from the template picker.
    assert_eq!(app.handle_keyboard(KeyInput::Char('q')), KeyOutcome::Continue);
    assert_eq!(app.handle_keyboard(KeyInput::Ctrl('x')), KeyOutcome::Quit);
}

#[test]
fn save_chord_only_works_in_the_buffer_view() {
    let mut app = demo_app();
    assert_eq!(app.handle_keyboard(KeyInput::Ctrl('s')), KeyOutcome::Continue);
    assert!(!app.just_saved);
    app.handle_keyboard(KeyInput::Enter);
    app.handle_keyboard(KeyInput::Enter);
    app.handle_keyboard(KeyInput::Enter);
    assert_eq!(app.app_state, AppState::ViewService);
    assert_eq!(app.handle_keyboard(KeyInput::Ctrl('s')), KeyOutcome::Save);
    assert!(app.just_saved);
}

#[test]
fn arming_refuses_without_an_addressable_line() {
    let mut app = App::new(vec![("empty".to_string(), "[Unit]\n# nothing\n".to_string())]);
    app.handle_keyboard(KeyInput::Enter);
    app.handle_keyboard(KeyInput::Enter);
    app.handle_keyboard(KeyInput::Enter);
    assert_eq!(app.app_state, AppState::ViewService);
    assert_eq!(app.editing_service.cursor, None);
    // Enter must refuse to arm and stay in the viewing state.
    assert_eq!(app.handle_keyboard(KeyInput::Enter), KeyOutcome::Continue);
    assert_eq!(app.app_state, AppState::ViewService);
    assert_eq!(app.altered_line, None);
}

#[test]
fn confirm_with_no_template_is_a_noop() {
    let mut app = App::new(Vec::new());
    app.handle_keyboard(KeyInput::Enter);
    app.handle_keyboard(KeyInput::Enter);
    assert_eq!(app.app_state, AppState::EnteringEditMode);
    app.handle_keyboard(KeyInput::Enter);
    assert_eq!(app.app_state, AppState::EnteringEditMode);
}
