//! The session state machine that drives the whole workflow: template
//! selection, service naming, buffer viewing and navigation, line
//! editing, and the hand-off to persistence.
//!
//! Every keyboard event is dispatched to the component owned by the
//! current state; `step` is the mathematical transition relation, and
//! `handle_keyboard` is proved to follow it exactly.  Once a line edit
//! begins it is committed only by confirming it: there is no cancel
//! path out of an in-progress edit.

use vstd::prelude::*;

use crate::editinglist::first_cursor;
use crate::editinglist::last_cursor;
use crate::editinglist::next_cursor;
use crate::editinglist::previous_cursor;
use crate::editinglist::EditingList;
use crate::lines::spec_key;
use crate::lines::spec_rewrite;
use crate::lines::spec_value;
use crate::persist::save_payload;
use crate::persist::save_target;
use crate::persist::spec_unit_file;
use crate::statefullist::clamped_next;
use crate::statefullist::clamped_previous;
use crate::statefullist::StatefulList;
use crate::text::join_lines;
use crate::text::spec_join_lines;
use crate::text::spec_split_lines;
use crate::text::split_lines;

verus! {

/// Which view of the workflow is active and receives input.
#[derive(Clone, Copy, Debug, PartialEq, Eq, Structural)]
pub enum AppState {
    SelectServiceTemplate,
    ChooseServiceName,
    EnteringEditMode,
    ViewService,
    ModifyingService,
}

/// A keyboard event, reduced to what the state machine reads.
#[derive(Clone, Copy, Debug, PartialEq, Eq, Structural)]
pub enum KeyInput {
    Enter,
    Up,
    Down,
    PageUp,
    PageDown,
    Backspace,
    Esc,
    Char(char),
    Ctrl(char),
    Other,
}

/// What the caller must do after a keystroke was handled: go on, quit,
/// or persist the buffer to disk.
#[derive(Clone, Copy, Debug, PartialEq, Eq, Structural)]
pub enum KeyOutcome {
    Continue,
    Quit,
    Save,
}

/// One editing session: the template picker, the workflow state, the
/// service name being typed, the loaded buffer with its navigator, and
/// the line edit in progress, if any.
pub struct App {
    pub lhs_list: StatefulList<(String, String)>,
    pub app_state: AppState,
    pub service_name: String,
    pub editing_service: EditingList,
    pub altered_line: Option<(String, String)>,
    pub just_saved: bool,
}

/// The mathematical state of a session: every observable field of
/// `App`, as sequences and indices.
#[verifier::ext_equal]
pub struct AppModel {
    pub templates: Seq<(Seq<char>, Seq<char>)>,
    pub template_cursor: Option<int>,
    pub state: AppState,
    pub service_name: Seq<char>,
    pub text: Seq<Seq<char>>,
    pub line_cursor: Option<int>,
    pub altered: Option<(Seq<char>, Seq<char>)>,
    pub just_saved: bool,
}

/// The name/contents pairs of the template list, as character
/// sequences.
pub open spec fn templates_view(ts: Seq<(String, String)>) -> Seq<(Seq<char>, Seq<char>)> {
    ts.map_values(|t: (String, String)| (t.0@, t.1@))
}

/// Transitions while the template picker is active.
pub open spec fn step_select_template(m: AppModel, key: KeyInput) -> (AppModel, KeyOutcome) {
    match key {
        KeyInput::Up => (
            AppModel {
                template_cursor: match m.template_cursor {
                    Some(i) => Some(clamped_previous(i)),
                    None => None,
                },
                ..m
            },
            KeyOutcome::Continue,
        ),
        KeyInput::Down => (
            AppModel {
                template_cursor: match m.template_cursor {
                    Some(i) => Some(clamped_next(m.templates.len() as int, i)),
                    None => None,
                },
                ..m
            },
            KeyOutcome::Continue,
        ),
        KeyInput::Enter => (AppModel { state: AppState::ChooseServiceName, ..m }, KeyOutcome::Continue),
        KeyInput::Char(c) => if c == 'q' {
            (m, KeyOutcome::Quit)
        } else {
            (m, KeyOutcome::Continue)
        },
        _ => (m, KeyOutcome::Continue),
    }
}

/// Transitions while the service name is being typed.
pub open spec fn step_choose_name(m: AppModel, key: KeyInput) -> (AppModel, KeyOutcome) {
    match key {
        KeyInput::Char(c) => (AppModel { service_name: m.service_name.push(c), ..m }, KeyOutcome::Continue),
        KeyInput::Backspace => (
            AppModel {
                service_name: if m.service_name.len() > 0 {
                    m.service_name.drop_last()
                } else {
                    m.service_name
                },
                ..m
            },
            KeyOutcome::Continue,
        ),
        KeyInput::Esc => (
            AppModel {
                state: AppState::SelectServiceTemplate,
                service_name: Seq::empty(),
                ..m
            },
            KeyOutcome::Continue,
        ),
        KeyInput::Enter => (AppModel { state: AppState::EnteringEditMode, ..m }, KeyOutcome::Continue),
        _ => (m, KeyOutcome::Continue),
    }
}

/// Transitions on the confirmation step: confirming loads the selected
/// template into a fresh buffer and lands on its first addressable
/// line.
pub open spec fn step_confirm_entry(m: AppModel, key: KeyInput) -> (AppModel, KeyOutcome) {
    match key {
        KeyInput::Enter => match m.template_cursor {
            Some(i) => {
                let text = spec_split_lines(m.templates[i].1);
                (
                    AppModel {
                        state: AppState::ViewService,
                        text: text,
                        line_cursor: first_cursor(text, None),
                        ..m
                    },
                    KeyOutcome::Continue,
                )
            },
            None => (m, KeyOutcome::Continue),
        },
        _ => (m, KeyOutcome::Continue),
    }
}

/// Transitions while the buffer is viewed: navigation over addressable
/// lines, and arming a line for editing.  Arming refuses (and stays in
/// the viewing state) when the buffer has no addressable line.
pub open spec fn step_view(m: AppModel, key: KeyInput) -> (AppModel, KeyOutcome) {
    match key {
        KeyInput::Up => (
            AppModel {
                line_cursor: match m.line_cursor {
                    Some(i) => Some(previous_cursor(m.text, i)),
                    None => None,
                },
                ..m
            },
            KeyOutcome::Continue,
        ),
        KeyInput::Down => (
            AppModel {
                line_cursor: match m.line_cursor {
                    Some(i) => Some(next_cursor(m.text, i)),
                    None => None,
                },
                ..m
            },
            KeyOutcome::Continue,
        ),
        KeyInput::PageUp => (
            AppModel { line_cursor: first_cursor(m.text, m.line_cursor), ..m },
            KeyOutcome::Continue,
        ),
        KeyInput::PageDown => (
            AppModel { line_cursor: last_cursor(m.text, m.line_cursor), ..m },
            KeyOutcome::Continue,
        ),
        KeyInput::Enter => match m.line_cursor {
            Some(i) => (
                AppModel {
                    state: AppState::ModifyingService,
                    altered: Some((spec_key(m.text[i]), spec_value(m.text[i]))),
                    ..m
                },
                KeyOutcome::Continue,
            ),
            None => (m, KeyOutcome::Continue),
        },
        _ => (m, KeyOutcome::Continue),
    }
}

/// Transitions while a line edit is in progress: the value is built
/// character by character, and confirming commits it into the buffer.
pub open spec fn step_modify(m: AppModel, key: KeyInput) -> (AppModel, KeyOutcome) {
    match key {
        KeyInput::Char(c) => match m.altered {
            Some(kv) => (
                AppModel { altered: Some((kv.0, kv.1.push(c))), ..m },
                KeyOutcome::Continue,
            ),
            None => (m, KeyOutcome::Continue),
        },
        KeyInput::Backspace => match m.altered {
            Some(kv) => (
                AppModel {
                    altered: Some(
                        (
                            kv.0,
                            if kv.1.len() > 0 {
                                kv.1.drop_last()
                            } else {
                                kv.1
                            },
                        ),
                    ),
                    ..m
                },
                KeyOutcome::Continue,
            ),
            None => (m, KeyOutcome::Continue),
        },
        KeyInput::Enter => match (m.line_cursor, m.altered) {
            (Some(i), Some(kv)) => (
                AppModel {
                    state: AppState::ViewService,
                    text: m.text.update(i, spec_rewrite(m.text[i], kv.1)),
                    altered: None,
                    ..m
                },
                KeyOutcome::Continue,
            ),
            _ => (m, KeyOutcome::Continue),
        },
        _ => (m, KeyOutcome::Continue),
    }
}

/// The transition relation of the whole session: what one keystroke
/// does to the session state, and what the caller must do next.
/// The quit chord works everywhere; the save chord only while the
/// buffer is viewed.
pub open spec fn step(m: AppModel, key: KeyInput) -> (AppModel, KeyOutcome) {
    match key {
        KeyInput::Ctrl(c) => if c == 'x' {
            (m, KeyOutcome::Quit)
        } else if c == 's' && m.state == AppState::ViewService {
            (AppModel { just_saved: true, ..m }, KeyOutcome::Save)
        } else {
            (m, KeyOutcome::Continue)
        },
        _ => match m.state {
            AppState::SelectServiceTemplate => step_select_template(m, key),
            AppState::ChooseServiceName => step_choose_name(m, key),
            AppState::EnteringEditMode => step_confirm_entry(m, key),
            AppState::ViewService => step_view(m, key),
            AppState::ModifyingService => step_modify(m, key),
        },
    }
}

impl App {
    /// The session as its mathematical state.
    pub open spec fn model(&self) -> AppModel {
        AppModel {
            templates: templates_view(self.lhs_list.items@),
            template_cursor: self.lhs_list.cursor_view(),
            state: self.app_state,
            service_name: self.service_name@,
            text: self.editing_service.text(),
            line_cursor: self.editing_service.cursor_view(),
            altered: match self.altered_line {
                Some(kv) => Some((kv.0@, kv.1@)),
                None => None,
            },
            just_saved: self.just_saved,
        }
    }

    /// The picker and navigator invariants hold, and an edit is in
    /// progress exactly where the editing state can rely on one.
    pub open spec fn wf(&self) -> bool {
        &&& self.lhs_list.wf()
        &&& self.editing_service.wf()
        &&& (self.app_state == AppState::ModifyingService ==> self.altered_line is Some
            && self.editing_service.cursor is Some)
    }

    /// A fresh session over the templates the repository listed: the
    /// picker on the first template, an empty name, no buffer loaded,
    /// no edit in progress.
    pub fn new(templates: Vec<(String, String)>) -> (r: Self)
        ensures
            r.wf(),
            r.model() == (AppModel {
                templates: templates_view(templates@),
                template_cursor: if templates@.len() > 0 {
                    Some(0int)
                } else {
                    None
                },
                state: AppState::SelectServiceTemplate,
                service_name: Seq::empty(),
                text: Seq::empty(),
                line_cursor: None,
                altered: None,
                just_saved: false,
            }),
    {
        let r = App {
            lhs_list: StatefulList::with_items(templates),
            app_state: AppState::SelectServiceTemplate,
            service_name: String::new(),
            editing_service: EditingList::default(),
            altered_line: None,
            just_saved: false,
        };
        proof {
            assert(r.editing_service.text() =~= Seq::<Seq<char>>::empty());
            assert(r.model() =~= (AppModel {
                templates: templates_view(r.lhs_list.items@),
                template_cursor: if r.lhs_list.items@.len() > 0 {
                    Some(0int)
                } else {
                    None
                },
                state: AppState::SelectServiceTemplate,
                service_name: Seq::empty(),
                text: Seq::empty(),
                line_cursor: None,
                altered: None,
                just_saved: false,
            }));
        }
        r
    }

    /// Load the selected template into a fresh buffer, land on its
    /// first addressable line, and start viewing it; a no-op when no
    /// template is selected.
    pub fn initialise_edit(&mut self)
        requires
            old(self).wf(),
        ensures
            final(self).wf(),
            (*final(self)).model() == step_confirm_entry(old(self).model(), KeyInput::Enter).0,
    {
        let content = match self.lhs_list.selected() {
            Ok(t) => Some(t.1.clone()),
            Err(_) => None,
        };
        match content {
            Some(c) => {
                let buffer = split_lines(c.as_str());
                self.editing_service = EditingList::with_lines(buffer);
                self.app_state = AppState::ViewService;
            },
            None => {},
        }
    }

    /// Arm the selected line for editing: capture its key and value and
    /// enter the editing state; refuses (and stays put) when no line is
    /// selected.
    pub fn store_key_value(&mut self)
        requires
            old(self).wf(),
        ensures
            final(self).wf(),
            (*final(self)).model() == step_view(old(self).model(), KeyInput::Enter).0,
    {
        match self.editing_service.get_selected_key_value() {
            Ok(kv) => {
                self.altered_line = Some(kv);
                self.app_state = AppState::ModifyingService;
            },
            Err(_) => {},
        }
    }

    /// Append one character to the value being edited; a no-op when no
    /// edit is in progress.
    pub fn modifying_service_push(&mut self, ch: char)
        requires
            old(self).wf(),
        ensures
            final(self).wf(),
            (*final(self)).model() == step_modify(old(self).model(), KeyInput::Char(ch)).0,
    {
        match &mut self.altered_line {
            Some(kv) => {
                kv.1.push(ch);
            },
            None => {},
        }
    }

    /// Drop the last character of the value being edited; a no-op on an
    /// empty value or when no edit is in progress.
    pub fn modifying_service_pop(&mut self)
        requires
            old(self).wf(),
        ensures
            final(self).wf(),
            (*final(self)).model() == step_modify(old(self).model(), KeyInput::Backspace).0,
    {
        match &mut self.altered_line {
            Some(kv) => {
                kv.1.pop();
            },
            None => {},
        }
    }

    /// Commit the edited value into the selected line, preserving its
    /// key and trailing comment, close the edit, and return to viewing
    /// the buffer; a no-op when no line is selected or no edit is in
    /// progress.
    pub fn modify_unit(&mut self)
        requires
            old(self).wf(),
        ensures
            final(self).wf(),
            (*final(self)).model() == step_modify(old(self).model(), KeyInput::Enter).0,
    {
        let value = match &self.altered_line {
            Some(kv) => Some(kv.1.clone()),
            None => None,
        };
        match value {
            Some(v) => {
                match self.editing_service.rewrite_selected(v.as_str()) {
                    Ok(_) => {
                        self.altered_line = None;
                        self.app_state = AppState::ViewService;
                    },
                    Err(_) => {},
                }
            },
            None => {},
        }
    }

    /// The buffer as one string, lines joined by `\n`, as the viewer
    /// shows it.
    pub fn selected_template_contents(&self) -> (r: String)
        ensures
            r@ == spec_join_lines(self.model().text),
    {
        join_lines(&self.editing_service.editing_text)
    }

    /// Where and what a save would write: the unit-file path for this
    /// session's service name under the given privilege, and the
    /// serialized buffer.  The disk write itself is the caller's.
    pub fn save(&self, is_privileged: bool) -> (r: (String, String))
        ensures
            is_privileged ==> r.0@ == "/etc/systemd/system/"@ + self.service_name@ + ".service"@,
            !is_privileged ==> r.0@ == "~/.config/systemd/user/"@ + self.service_name@
                + ".service"@,
            r.1@ == spec_unit_file(self.model().text),
    {
        let target = save_target(self.service_name.as_str(), is_privileged);
        let payload = save_payload(&self.editing_service.editing_text);
        (target, payload)
    }

    /// Dispatch one keyboard event to the active component, following
    /// the `step` transition relation exactly.
    pub fn handle_keyboard(&mut self, key: KeyInput) -> (r: KeyOutcome)
        requires
            old(self).wf(),
        ensures
            final(self).wf(),
            ((*final(self)).model(), r) == step(old(self).model(), key),
    {
        match key {
            KeyInput::Ctrl(c) => {
                if c == 'x' {
                    KeyOutcome::Quit
                } else if c == 's' && self.app_state == AppState::ViewService {
                    self.just_saved = true;
                    KeyOutcome::Save
                } else {
                    KeyOutcome::Continue
                }
            },
            _ => {
                match self.app_state {
                    AppState::SelectServiceTemplate => {
                        match key {
                            KeyInput::Up => {
                                self.lhs_list.previous();
                                KeyOutcome::Continue
                            },
                            KeyInput::Down => {
                                self.lhs_list.next();
                                KeyOutcome::Continue
                            },
                            KeyInput::Enter => {
                                self.app_state = AppState::ChooseServiceName;
                                KeyOutcome::Continue
                            },
                            KeyInput::Char(c) => {
                                if c == 'q' {
                                    KeyOutcome::Quit
                                } else {
                                    KeyOutcome::Continue
                                }
                            },
                            _ => KeyOutcome::Continue,
                        }
                    },
                    AppState::ChooseServiceName => {
                        match key {
                            KeyInput::Char(c) => {
                                self.service_name.push(c);
                                KeyOutcome::Continue
                            },
                            KeyInput::Backspace => {
                                self.service_name.pop();
                                KeyOutcome::Continue
                            },
                            KeyInput::Esc => {
                                self.app_state = AppState::SelectServiceTemplate;
                                self.service_name = String::new();
                                KeyOutcome::Continue
                            },
                            KeyInput::Enter => {
                                self.app_state = AppState::EnteringEditMode;
                                KeyOutcome::Continue
                            },
                            _ => KeyOutcome::Continue,
                        }
                    },
                    AppState::EnteringEditMode => {
                        match key {
                            KeyInput::Enter => {
                                self.initialise_edit();
                                KeyOutcome::Continue
                            },
                            _ => KeyOutcome::Continue,
                        }
                    },
                    AppState::ViewService => {
                        match key {
                            KeyInput::Up => {
                                self.editing_service.previous();
                                KeyOutcome::Continue
                            },
                            KeyInput::Down => {
                                self.editing_service.next();
                                KeyOutcome::Continue
                            },
                            KeyInput::PageUp => {
                                self.editing_service.first();
                                KeyOutcome::Continue
                            },
                            KeyInput::PageDown => {
                                self.editing_service.last();
                                KeyOutcome::Continue
                            },
                            KeyInput::Enter => {
                                self.store_key_value();
                                KeyOutcome::Continue
                            },
                            _ => KeyOutcome::Continue,
                        }
                    },
                    AppState::ModifyingService => {
                        match key {
                            KeyInput::Char(c) => {
                                self.modifying_service_push(c);
                                KeyOutcome::Continue
                            },
                            KeyInput::Backspace => {
                                self.modifying_service_pop();
                                KeyOutcome::Continue
                            },
                            KeyInput::Enter => {
                                self.modify_unit();
                                KeyOutcome::Continue
                            },
                            _ => KeyOutcome::Continue,
                        }
                    },
                }
            },
        }
    }
}

} // verus!
