//! What a key means in each of the interactive views: the picker, the
//! confirmation, the text input and the tree. A caller reads the key and
//! applies what the library answers to what is on screen.

use crate::text::copy_text;
use crate::tree_view::{ActionModel, SelectedAction};
use vstd::prelude::*;

verus! {

/// The key that was pressed.
#[derive(Clone, Copy, PartialEq, Eq, Structural, Debug)]
pub enum KeyCode {
    Esc,
    Enter,
    Backspace,
    Tab,
    Up,
    Down,
    Left,
    Right,
    Char(char),
    /// Any other key.
    Other,
}

/// A key, and whether the control key was held with it.
#[derive(Clone, Copy, PartialEq, Eq, Structural, Debug)]
pub struct Key {
    pub code: KeyCode,
    pub control: bool,
}

impl Key {
    /// The key writes the character `c`, with the control key held.
    pub open spec fn is_control(self, c: char) -> bool {
        self.code == KeyCode::Char(c) && self.control
    }

    /// The key writes the character `c`, whatever else is held.
    pub open spec fn is_char(self, c: char) -> bool {
        self.code == KeyCode::Char(c)
    }

    /// Whether the key writes `c` with the control key held.
    pub fn control_with(&self, c: char) -> (r: bool)
        ensures
            r == self.is_control(c),
    {
        match self.code {
            KeyCode::Char(pressed) => pressed == c && self.control,
            _ => false,
        }
    }

    /// Whether the key writes `c`.
    pub fn writes(&self, c: char) -> (r: bool)
        ensures
            r == self.is_char(c),
    {
        match self.code {
            KeyCode::Char(pressed) => pressed == c,
            _ => false,
        }
    }
}

/// What a key asks of the picker.
#[derive(Clone, Copy, PartialEq, Eq, Structural, Debug)]
pub enum PickerCommand {
    /// Leave without a choice.
    Cancel,
    /// Move the selection to the place before.
    Previous,
    /// Move the selection to the place after.
    Next,
    /// Take the selected item.
    Accept,
    /// Drop the last character of the query and filter again.
    Erase,
    /// Add the character to the query and filter again.
    Type(char),
    Nothing,
}

/// What a key asks of the picker: escape and control-c cancel, the arrows
/// and control-p and control-n move, enter accepts, backspace erases, and
/// any character without the control key is typed.
pub open spec fn picker_command(key: Key) -> PickerCommand {
    if key.code == KeyCode::Esc || key.is_control('c') {
        PickerCommand::Cancel
    } else if key.code == KeyCode::Up || key.is_control('p') {
        PickerCommand::Previous
    } else if key.code == KeyCode::Down || key.is_control('n') {
        PickerCommand::Next
    } else if key.code == KeyCode::Enter {
        PickerCommand::Accept
    } else if key.code == KeyCode::Backspace {
        PickerCommand::Erase
    } else {
        match key.code {
            KeyCode::Char(c) => if key.control {
                PickerCommand::Nothing
            } else {
                PickerCommand::Type(c)
            },
            _ => PickerCommand::Nothing,
        }
    }
}

/// What a key asks of the picker.
pub fn picker_key(key: Key) -> (command: PickerCommand)
    ensures
        command == picker_command(key),
{
    match key.code {
        KeyCode::Esc => PickerCommand::Cancel,
        KeyCode::Up => PickerCommand::Previous,
        KeyCode::Down => PickerCommand::Next,
        KeyCode::Enter => PickerCommand::Accept,
        KeyCode::Backspace => PickerCommand::Erase,
        KeyCode::Char(c) => {
            if key.control {
                if c == 'c' {
                    PickerCommand::Cancel
                } else if c == 'p' {
                    PickerCommand::Previous
                } else if c == 'n' {
                    PickerCommand::Next
                } else {
                    PickerCommand::Nothing
                }
            } else {
                PickerCommand::Type(c)
            }
        },
        _ => PickerCommand::Nothing,
    }
}

/// The item that accepting takes: the one at the selected place of the
/// filtered list; none where nothing is selected or the place is past the
/// list.
pub fn picked_item(selected: Option<usize>, filtered: &[usize]) -> (r: Option<usize>)
    ensures
        r == match selected {
            Some(place) => if place < filtered.len() {
                Some(filtered@[place as int])
            } else {
                None
            },
            None => None,
        },
{
    match selected {
        Some(place) => if place < filtered.len() {
            Some(filtered[place])
        } else {
            None
        },
        None => None,
    }
}

/// An answer to a confirmation.
#[derive(Clone, Copy, PartialEq, Eq, Structural, Debug)]
pub enum ConfirmResult {
    Yes,
    No,
}

/// What a key does to a confirmation: the answer that is selected after it,
/// and the answer given, if the key gives one. Escape and control-c answer
/// no, `y` and `n` answer at once, the arrows and tab switch the selected
/// answer, `h` and control-p select yes, `l` selects no, and enter gives the
/// selected answer.
pub open spec fn confirm_step(selected: ConfirmResult, key: Key) -> (
    ConfirmResult,
    Option<ConfirmResult>,
) {
    if key.code == KeyCode::Esc || key.is_control('c') {
        (selected, Some(ConfirmResult::No))
    } else if key.is_char('y') || key.is_char('Y') {
        (selected, Some(ConfirmResult::Yes))
    } else if key.is_char('n') || key.is_char('N') {
        (selected, Some(ConfirmResult::No))
    } else if key.code == KeyCode::Left || key.code == KeyCode::Right || key.code == KeyCode::Tab {
        (
            match selected {
                ConfirmResult::Yes => ConfirmResult::No,
                ConfirmResult::No => ConfirmResult::Yes,
            },
            None,
        )
    } else if key.is_char('h') || key.is_control('p') {
        (ConfirmResult::Yes, None)
    } else if key.is_char('l') {
        (ConfirmResult::No, None)
    } else if key.code == KeyCode::Enter {
        (selected, Some(selected))
    } else {
        (selected, None)
    }
}

/// What a key does to a confirmation.
pub fn confirm_key(selected: ConfirmResult, key: Key) -> (r: (ConfirmResult, Option<ConfirmResult>))
    ensures
        r == confirm_step(selected, key),
{
    match key.code {
        KeyCode::Esc => (selected, Some(ConfirmResult::No)),
        KeyCode::Left | KeyCode::Right | KeyCode::Tab => (
            match selected {
                ConfirmResult::Yes => ConfirmResult::No,
                ConfirmResult::No => ConfirmResult::Yes,
            },
            None,
        ),
        KeyCode::Enter => (selected, Some(selected)),
        KeyCode::Char(c) => {
            if c == 'c' && key.control {
                (selected, Some(ConfirmResult::No))
            } else if c == 'y' || c == 'Y' {
                (selected, Some(ConfirmResult::Yes))
            } else if c == 'n' || c == 'N' {
                (selected, Some(ConfirmResult::No))
            } else if c == 'h' || (c == 'p' && key.control) {
                (ConfirmResult::Yes, None)
            } else if c == 'l' {
                (ConfirmResult::No, None)
            } else {
                (selected, None)
            }
        },
        _ => (selected, None),
    }
}

/// What a key does to a text input.
#[derive(Clone, Copy, PartialEq, Eq, Structural, Debug)]
pub enum InputCommand {
    /// Leave without a text.
    Cancel,
    /// Leave with the text, or without one where it is empty.
    Submit,
    /// Drop the last character.
    Erase,
    /// Add the character.
    Type(char),
    Nothing,
}

/// What a key asks of a text input: escape and control-c cancel, enter
/// submits, backspace erases, and any character without the control key is
/// typed.
pub open spec fn input_command(key: Key) -> InputCommand {
    if key.code == KeyCode::Esc || key.is_control('c') {
        InputCommand::Cancel
    } else if key.code == KeyCode::Enter {
        InputCommand::Submit
    } else if key.code == KeyCode::Backspace {
        InputCommand::Erase
    } else {
        match key.code {
            KeyCode::Char(c) => if key.control {
                InputCommand::Nothing
            } else {
                InputCommand::Type(c)
            },
            _ => InputCommand::Nothing,
        }
    }
}

/// What a key asks of a text input.
pub fn input_key(key: Key) -> (command: InputCommand)
    ensures
        command == input_command(key),
{
    match key.code {
        KeyCode::Esc => InputCommand::Cancel,
        KeyCode::Enter => InputCommand::Submit,
        KeyCode::Backspace => InputCommand::Erase,
        KeyCode::Char(c) => {
            if key.control {
                if c == 'c' {
                    InputCommand::Cancel
                } else {
                    InputCommand::Nothing
                }
            } else {
                InputCommand::Type(c)
            }
        },
        _ => InputCommand::Nothing,
    }
}

/// What a key asks of the tree.
#[derive(Clone, Copy, PartialEq, Eq, Structural, Debug)]
pub enum TreeCommand {
    Quit,
    /// Start a search with an empty query.
    EnterSearch,
    /// End the search and keep the selection.
    ExitSearch,
    /// Stop the session of the selected node.
    Kill,
    /// Make a worktree of the selected node's project.
    Fork,
    /// Merge the selected worktree.
    Merge,
    /// Delete the selected worktree.
    Delete,
    Up,
    Down,
    Left,
    Right,
    /// Do what the selected node stands for.
    Select,
    /// Drop the last character of the query and search again.
    Erase,
    /// Add the character to the query and search again.
    Type(char),
    Nothing,
}

/// What a key asks of the tree while no search is under way: `q`, escape
/// and control-c quit, `/` starts a search, `s`, `f`, `m` and `d` stop,
/// fork, merge and delete, the arrows and `k`, `j`, `h`, `l` and control-p
/// and control-n move, and enter selects.
pub open spec fn browse_command(key: Key) -> TreeCommand {
    if key.is_char('q') || key.code == KeyCode::Esc || key.is_control('c') {
        TreeCommand::Quit
    } else if key.is_char('/') {
        TreeCommand::EnterSearch
    } else if key.is_char('s') || key.is_char('S') {
        TreeCommand::Kill
    } else if key.is_char('f') || key.is_char('F') {
        TreeCommand::Fork
    } else if key.is_char('m') || key.is_char('M') {
        TreeCommand::Merge
    } else if key.is_char('d') || key.is_char('D') {
        TreeCommand::Delete
    } else if key.code == KeyCode::Up || key.is_char('k') || key.is_control('p') {
        TreeCommand::Up
    } else if key.code == KeyCode::Down || key.is_char('j') || key.is_control('n') {
        TreeCommand::Down
    } else if key.code == KeyCode::Left || key.is_char('h') {
        TreeCommand::Left
    } else if key.code == KeyCode::Right || key.is_char('l') {
        TreeCommand::Right
    } else if key.code == KeyCode::Enter {
        TreeCommand::Select
    } else {
        TreeCommand::Nothing
    }
}

/// What a key asks of the tree during a search: escape and control-c end
/// the search, enter selects, backspace erases, a character without the
/// control key is typed, and the arrows and control-p and control-n move.
pub open spec fn search_command(key: Key) -> TreeCommand {
    if key.code == KeyCode::Esc || key.is_control('c') {
        TreeCommand::ExitSearch
    } else if key.code == KeyCode::Enter {
        TreeCommand::Select
    } else if key.code == KeyCode::Backspace {
        TreeCommand::Erase
    } else if key.code == KeyCode::Up || key.is_control('p') {
        TreeCommand::Up
    } else if key.code == KeyCode::Down || key.is_control('n') {
        TreeCommand::Down
    } else {
        match key.code {
            KeyCode::Char(c) => if key.control {
                TreeCommand::Nothing
            } else {
                TreeCommand::Type(c)
            },
            _ => TreeCommand::Nothing,
        }
    }
}

/// What a key asks of the tree.
pub open spec fn tree_command(search_mode: bool, key: Key) -> TreeCommand {
    if search_mode {
        search_command(key)
    } else {
        browse_command(key)
    }
}

fn browse_key(key: Key) -> (command: TreeCommand)
    ensures
        command == browse_command(key),
{
    match key.code {
        KeyCode::Esc => TreeCommand::Quit,
        KeyCode::Up => TreeCommand::Up,
        KeyCode::Down => TreeCommand::Down,
        KeyCode::Left => TreeCommand::Left,
        KeyCode::Right => TreeCommand::Right,
        KeyCode::Enter => TreeCommand::Select,
        KeyCode::Char(c) => {
            if c == 'q' || (c == 'c' && key.control) {
                TreeCommand::Quit
            } else if c == '/' {
                TreeCommand::EnterSearch
            } else if c == 's' || c == 'S' {
                TreeCommand::Kill
            } else if c == 'f' || c == 'F' {
                TreeCommand::Fork
            } else if c == 'm' || c == 'M' {
                TreeCommand::Merge
            } else if c == 'd' || c == 'D' {
                TreeCommand::Delete
            } else if c == 'k' || (c == 'p' && key.control) {
                TreeCommand::Up
            } else if c == 'j' || (c == 'n' && key.control) {
                TreeCommand::Down
            } else if c == 'h' {
                TreeCommand::Left
            } else if c == 'l' {
                TreeCommand::Right
            } else {
                TreeCommand::Nothing
            }
        },
        _ => TreeCommand::Nothing,
    }
}

fn search_key(key: Key) -> (command: TreeCommand)
    ensures
        command == search_command(key),
{
    match key.code {
        KeyCode::Esc => TreeCommand::ExitSearch,
        KeyCode::Enter => TreeCommand::Select,
        KeyCode::Backspace => TreeCommand::Erase,
        KeyCode::Up => TreeCommand::Up,
        KeyCode::Down => TreeCommand::Down,
        KeyCode::Char(c) => {
            if key.control {
                if c == 'c' {
                    TreeCommand::ExitSearch
                } else if c == 'p' {
                    TreeCommand::Up
                } else if c == 'n' {
                    TreeCommand::Down
                } else {
                    TreeCommand::Nothing
                }
            } else {
                TreeCommand::Type(c)
            }
        },
        _ => TreeCommand::Nothing,
    }
}

/// What a key asks of the tree, during a search or not.
pub fn tree_key(search_mode: bool, key: Key) -> (command: TreeCommand)
    ensures
        command == tree_command(search_mode, key),
{
    if search_mode {
        search_key(key)
    } else {
        browse_key(key)
    }
}

/// The action that stops what an action is about: the project, or the
/// worktree.
pub open spec fn stopping(action: ActionModel) -> ActionModel {
    match action {
        ActionModel::StartProject(name) => ActionModel::KillProject(name),
        ActionModel::KillProject(name) => ActionModel::KillProject(name),
        ActionModel::StartWorktree { project, branch } => ActionModel::KillWorktree {
            project: project,
            branch: branch,
        },
        ActionModel::KillWorktree { project, branch } => ActionModel::KillWorktree {
            project: project,
            branch: branch,
        },
    }
}

/// The action that stops what `action` is about.
pub fn kill_action(action: &SelectedAction) -> (r: SelectedAction)
    ensures
        r.deep_view() == stopping(action.deep_view()),
{
    match action {
        SelectedAction::StartProject(name) => SelectedAction::KillProject(
            copy_text(name.as_str()),
        ),
        SelectedAction::KillProject(name) => SelectedAction::KillProject(copy_text(name.as_str())),
        SelectedAction::StartWorktree { project, branch } => SelectedAction::KillWorktree {
            project: copy_text(project.as_str()),
            branch: copy_text(branch.as_str()),
        },
        SelectedAction::KillWorktree { project, branch } => SelectedAction::KillWorktree {
            project: copy_text(project.as_str()),
            branch: copy_text(branch.as_str()),
        },
    }
}

} // verus!
