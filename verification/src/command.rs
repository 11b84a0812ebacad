//! The command bar: which labelled keystrokes each workflow state
//! offers.

use vstd::prelude::*;

use crate::app::AppState;

verus! {

/// One entry of the command bar: a label and the keystroke that
/// triggers it.
pub struct MenuCommand {
    pub name: &'static str,
    pub shortcut: &'static str,
}

impl MenuCommand {
    /// A command bar entry with the given label and shortcut.
    pub fn new(name: &'static str, shortcut: &'static str) -> (r: Self)
        ensures
            r.name == name,
            r.shortcut == shortcut,
    {
        Self { name, shortcut }
    }
}

/// The labels and shortcuts of a menu, as character sequences.
pub open spec fn menu_view(cs: Seq<MenuCommand>) -> Seq<(Seq<char>, Seq<char>)> {
    cs.map_values(|c: MenuCommand| (c.name@, c.shortcut@))
}

/// The command bar entries each state offers.
pub open spec fn expected_menu(state: AppState) -> Seq<(Seq<char>, Seq<char>)> {
    match state {
        AppState::SelectServiceTemplate => seq![
            ("Move Up"@, "↑"@),
            ("Move Down"@, "↑"@),
            ("Select"@, "Enter"@),
            ("Exit"@, "^X"@),
        ],
        AppState::ChooseServiceName => seq![
            ("Select"@, "Enter"@),
            ("Back"@, "ESC"@),
            ("Exit"@, "^X"@),
        ],
        AppState::EnteringEditMode => seq![
            ("Confirm"@, "Enter"@),
            ("Back"@, "ESC"@),
            ("Exit"@, "^X"@),
        ],
        AppState::ViewService => seq![
            ("Move Up"@, "↑"@),
            ("Move Down"@, "↑"@),
            ("Edit"@, "Enter"@),
            ("Save"@, "^S"@),
            ("Exit"@, "^X"@),
        ],
        AppState::ModifyingService => seq![
            ("Confirm"@, "Enter"@),
            ("Back"@, "ESC"@),
            ("Exit"@, "^X"@),
        ],
    }
}

/// The first menu registered for `state`, if any.
pub open spec fn spec_commands_for(
    cs: Seq<(AppState, Vec<MenuCommand>)>,
    state: AppState,
) -> Option<Seq<MenuCommand>>
    decreases cs.len(),
{
    if cs.len() == 0 {
        None
    } else if cs[0].0 == state {
        Some(cs[0].1@)
    } else {
        spec_commands_for(cs.drop_first(), state)
    }
}

/// The command bar entries of every workflow state.
pub struct MenuCommands {
    pub commands: Vec<(AppState, Vec<MenuCommand>)>,
}

impl MenuCommands {
    /// The menu registered for `state`, or `None` when the state has
    /// none.
    pub fn commands_for(&self, state: AppState) -> (r: Option<&Vec<MenuCommand>>)
        ensures
            match r {
                Some(cs) => spec_commands_for(self.commands@, state) == Some(cs@),
                None => spec_commands_for(self.commands@, state) is None,
            },
    {
        let mut i: usize = 0;
        proof {
            assert(self.commands@.skip(0) =~= self.commands@);
        }
        while i < self.commands.len()
            invariant
                i <= self.commands@.len(),
                spec_commands_for(self.commands@, state) == spec_commands_for(
                    self.commands@.skip(i as int),
                    state,
                ),
            decreases self.commands@.len() - i,
        {
            proof {
                assert(self.commands@.skip(i as int)[0] == self.commands@[i as int]);
                assert(self.commands@.skip(i as int).drop_first() =~= self.commands@.skip(
                    i as int + 1,
                ));
            }
            if self.commands[i].0 == state {
                return Some(&self.commands[i].1);
            }
            i = i + 1;
        }
        proof {
            assert(self.commands@.skip(self.commands@.len() as int).len() == 0);
        }
        None
    }
}

impl Default for MenuCommands {
    /// One menu per workflow state, in workflow order.
    fn default() -> (r: Self)
        ensures
            r.commands@.len() == 5,
            r.commands@[0].0 == AppState::SelectServiceTemplate,
            r.commands@[1].0 == AppState::ChooseServiceName,
            r.commands@[2].0 == AppState::EnteringEditMode,
            r.commands@[3].0 == AppState::ViewService,
            r.commands@[4].0 == AppState::ModifyingService,
            forall|k: int| 0 <= k < 5 ==> menu_view(#[trigger] r.commands@[k].1@) == expected_menu(
                r.commands@[k].0,
            ),
    {
        let mut select: Vec<MenuCommand> = Vec::new();
        select.push(MenuCommand::new("Move Up", "↑"));
        select.push(MenuCommand::new("Move Down", "↑"));
        select.push(MenuCommand::new("Select", "Enter"));
        select.push(MenuCommand::new("Exit", "^X"));

        let mut name: Vec<MenuCommand> = Vec::new();
        name.push(MenuCommand::new("Select", "Enter"));
        name.push(MenuCommand::new("Back", "ESC"));
        name.push(MenuCommand::new("Exit", "^X"));

        let mut confirm: Vec<MenuCommand> = Vec::new();
        confirm.push(MenuCommand::new("Confirm", "Enter"));
        confirm.push(MenuCommand::new("Back", "ESC"));
        confirm.push(MenuCommand::new("Exit", "^X"));

        let mut view: Vec<MenuCommand> = Vec::new();
        view.push(MenuCommand::new("Move Up", "↑"));
        view.push(MenuCommand::new("Move Down", "↑"));
        view.push(MenuCommand::new("Edit", "Enter"));
        view.push(MenuCommand::new("Save", "^S"));
        view.push(MenuCommand::new("Exit", "^X"));

        let mut modify: Vec<MenuCommand> = Vec::new();
        modify.push(MenuCommand::new("Confirm", "Enter"));
        modify.push(MenuCommand::new("Back", "ESC"));
        modify.push(MenuCommand::new("Exit", "^X"));

        proof {
            assert(menu_view(select@) =~= expected_menu(AppState::SelectServiceTemplate));
            assert(menu_view(name@) =~= expected_menu(AppState::ChooseServiceName));
            assert(menu_view(confirm@) =~= expected_menu(AppState::EnteringEditMode));
            assert(menu_view(view@) =~= expected_menu(AppState::ViewService));
            assert(menu_view(modify@) =~= expected_menu(AppState::ModifyingService));
        }

        let mut commands: Vec<(AppState, Vec<MenuCommand>)> = Vec::new();
        commands.push((AppState::SelectServiceTemplate, select));
        commands.push((AppState::ChooseServiceName, name));
        commands.push((AppState::EnteringEditMode, confirm));
        commands.push((AppState::ViewService, view));
        commands.push((AppState::ModifyingService, modify));

        MenuCommands { commands }
    }
}

} // verus!
