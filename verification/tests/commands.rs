use create_systemd_service::app::AppState;
use create_systemd_service::command::MenuCommand;
use create_systemd_service::command::MenuCommands;

#[test]
fn new_keeps_label_and_shortcut() {
    let c = MenuCommand::new("Save", "^S");
    assert_eq!(c.name, "Save");
    assert_eq!(c.shortcut, "^S");
}

#[test]
fn every_state_has_a_menu() {
    let menus = MenuCommands::default();
    assert_eq!(menus.commands.len(), 5);
    for state in [
        AppState::SelectServiceTemplate,
        AppState::ChooseServiceName,
        AppState::EnteringEditMode,
        AppState::ViewService,
        AppState::ModifyingService,
    ] {
        assert!(menus.commands_for(state).is_some());
    }
}

#[test]
fn buffer_view_menu_contents() {
    let menus = MenuCommands::default();
    let view = menus.commands_for(AppState::ViewService).unwrap();
    let names: Vec<&str> = view.iter().map(|c| c.name).collect();
    let shortcuts: Vec<&str> = view.iter().map(|c| c.shortcut).collect();
    assert_eq!(names, vec!["Move Up", "Move Down", "Edit", "Save", "Exit"]);
    assert_eq!(shortcuts, vec!["↑", "↑", "Enter", "^S", "^X"]);
}

#[test]
fn editing_menu_contents() {
    let menus = MenuCommands::default();
    let modify = menus.commands_for(AppState::ModifyingService).unwrap();
    let names: Vec<&str> = modify.iter().map(|c| c.name).collect();
    assert_eq!(names, vec!["Confirm", "Back", "Exit"]);
}
