use twig::keys::{
    confirm_key, input_key, kill_action, picked_item, picker_key, tree_key, ConfirmResult,
    InputCommand, Key, KeyCode, PickerCommand, TreeCommand,
};
use twig::tree_view::SelectedAction;

fn plain(code: KeyCode) -> Key {
    Key { code, control: false }
}

fn ctrl(c: char) -> Key {
    Key { code: KeyCode::Char(c), control: true }
}

fn ch(c: char) -> Key {
    plain(KeyCode::Char(c))
}

#[test]
fn key_predicates() {
    assert!(ctrl('c').control_with('c'));
    assert!(!ch('c').control_with('c'));
    assert!(!ctrl('d').control_with('c'));
    assert!(!plain(KeyCode::Esc).control_with('c'));
    assert!(ctrl('c').writes('c'));
    assert!(ch('c').writes('c'));
    assert!(!ch('C').writes('c'));
    assert!(!plain(KeyCode::Tab).writes('\t'));
}

#[test]
fn picker_keys() {
    assert_eq!(picker_key(plain(KeyCode::Esc)), PickerCommand::Cancel);
    assert_eq!(picker_key(ctrl('c')), PickerCommand::Cancel);
    assert_eq!(picker_key(plain(KeyCode::Up)), PickerCommand::Previous);
    assert_eq!(picker_key(ctrl('p')), PickerCommand::Previous);
    assert_eq!(picker_key(plain(KeyCode::Down)), PickerCommand::Next);
    assert_eq!(picker_key(ctrl('n')), PickerCommand::Next);
    assert_eq!(picker_key(plain(KeyCode::Enter)), PickerCommand::Accept);
    assert_eq!(picker_key(plain(KeyCode::Backspace)), PickerCommand::Erase);
    assert_eq!(picker_key(ch('c')), PickerCommand::Type('c'));
    assert_eq!(picker_key(ch('P')), PickerCommand::Type('P'));
    assert_eq!(picker_key(ctrl('x')), PickerCommand::Nothing);
    assert_eq!(picker_key(plain(KeyCode::Tab)), PickerCommand::Nothing);
    assert_eq!(picker_key(plain(KeyCode::Left)), PickerCommand::Nothing);
    assert_eq!(picker_key(plain(KeyCode::Other)), PickerCommand::Nothing);
    assert_eq!(
        picker_key(Key { code: KeyCode::Esc, control: true }),
        PickerCommand::Cancel
    );
    assert_eq!(picked_item(Some(1), &[4, 7, 9]), Some(7));
    assert_eq!(picked_item(Some(3), &[4, 7, 9]), None);
    assert_eq!(picked_item(None, &[4, 7, 9]), None);
    assert_eq!(picked_item(Some(0), &[]), None);
}

#[test]
fn confirm_keys() {
    let yes = ConfirmResult::Yes;
    let no = ConfirmResult::No;
    assert_eq!(confirm_key(yes, plain(KeyCode::Esc)), (yes, Some(no)));
    assert_eq!(confirm_key(yes, ctrl('c')), (yes, Some(no)));
    assert_eq!(confirm_key(no, ch('y')), (no, Some(yes)));
    assert_eq!(confirm_key(no, ch('Y')), (no, Some(yes)));
    assert_eq!(confirm_key(no, ctrl('y')), (no, Some(yes)));
    assert_eq!(confirm_key(yes, ch('n')), (yes, Some(no)));
    assert_eq!(confirm_key(yes, ch('N')), (yes, Some(no)));
    assert_eq!(confirm_key(yes, plain(KeyCode::Left)), (no, None));
    assert_eq!(confirm_key(no, plain(KeyCode::Right)), (yes, None));
    assert_eq!(confirm_key(yes, plain(KeyCode::Tab)), (no, None));
    assert_eq!(confirm_key(no, ch('h')), (yes, None));
    assert_eq!(confirm_key(yes, ch('l')), (no, None));
    assert_eq!(confirm_key(no, ctrl('p')), (yes, None));
    assert_eq!(confirm_key(no, ch('p')), (no, None));
    assert_eq!(confirm_key(yes, plain(KeyCode::Enter)), (yes, Some(yes)));
    assert_eq!(confirm_key(no, plain(KeyCode::Enter)), (no, Some(no)));
    assert_eq!(confirm_key(no, ch('c')), (no, None));
    assert_eq!(confirm_key(yes, plain(KeyCode::Up)), (yes, None));
    assert_eq!(confirm_key(yes, plain(KeyCode::Other)), (yes, None));
}

#[test]
fn input_keys() {
    assert_eq!(input_key(plain(KeyCode::Esc)), InputCommand::Cancel);
    assert_eq!(input_key(ctrl('c')), InputCommand::Cancel);
    assert_eq!(input_key(plain(KeyCode::Enter)), InputCommand::Submit);
    assert_eq!(input_key(plain(KeyCode::Backspace)), InputCommand::Erase);
    assert_eq!(input_key(ch('c')), InputCommand::Type('c'));
    assert_eq!(input_key(ch(' ')), InputCommand::Type(' '));
    assert_eq!(input_key(ctrl('a')), InputCommand::Nothing);
    assert_eq!(input_key(plain(KeyCode::Up)), InputCommand::Nothing);
}

#[test]
fn tree_keys_while_browsing() {
    let browse = |key| tree_key(false, key);
    assert_eq!(browse(ch('q')), TreeCommand::Quit);
    assert_eq!(browse(ctrl('q')), TreeCommand::Quit);
    assert_eq!(browse(plain(KeyCode::Esc)), TreeCommand::Quit);
    assert_eq!(browse(ctrl('c')), TreeCommand::Quit);
    assert_eq!(browse(ch('c')), TreeCommand::Nothing);
    assert_eq!(browse(ch('/')), TreeCommand::EnterSearch);
    assert_eq!(browse(ch('s')), TreeCommand::Kill);
    assert_eq!(browse(ch('S')), TreeCommand::Kill);
    assert_eq!(browse(ch('f')), TreeCommand::Fork);
    assert_eq!(browse(ch('F')), TreeCommand::Fork);
    assert_eq!(browse(ch('m')), TreeCommand::Merge);
    assert_eq!(browse(ch('M')), TreeCommand::Merge);
    assert_eq!(browse(ch('d')), TreeCommand::Delete);
    assert_eq!(browse(ch('D')), TreeCommand::Delete);
    assert_eq!(browse(plain(KeyCode::Up)), TreeCommand::Up);
    assert_eq!(browse(ch('k')), TreeCommand::Up);
    assert_eq!(browse(ctrl('p')), TreeCommand::Up);
    assert_eq!(browse(ch('p')), TreeCommand::Nothing);
    assert_eq!(browse(plain(KeyCode::Down)), TreeCommand::Down);
    assert_eq!(browse(ch('j')), TreeCommand::Down);
    assert_eq!(browse(ctrl('n')), TreeCommand::Down);
    assert_eq!(browse(plain(KeyCode::Left)), TreeCommand::Left);
    assert_eq!(browse(ch('h')), TreeCommand::Left);
    assert_eq!(browse(plain(KeyCode::Right)), TreeCommand::Right);
    assert_eq!(browse(ch('l')), TreeCommand::Right);
    assert_eq!(browse(plain(KeyCode::Enter)), TreeCommand::Select);
    assert_eq!(browse(plain(KeyCode::Backspace)), TreeCommand::Nothing);
    assert_eq!(browse(plain(KeyCode::Tab)), TreeCommand::Nothing);
    assert_eq!(browse(ch('x')), TreeCommand::Nothing);
}

#[test]
fn tree_keys_while_searching() {
    let search = |key| tree_key(true, key);
    assert_eq!(search(plain(KeyCode::Esc)), TreeCommand::ExitSearch);
    assert_eq!(search(ctrl('c')), TreeCommand::ExitSearch);
    assert_eq!(search(plain(KeyCode::Enter)), TreeCommand::Select);
    assert_eq!(search(plain(KeyCode::Backspace)), TreeCommand::Erase);
    assert_eq!(search(ch('q')), TreeCommand::Type('q'));
    assert_eq!(search(ch('/')), TreeCommand::Type('/'));
    assert_eq!(search(ch('k')), TreeCommand::Type('k'));
    assert_eq!(search(plain(KeyCode::Up)), TreeCommand::Up);
    assert_eq!(search(plain(KeyCode::Down)), TreeCommand::Down);
    assert_eq!(search(ctrl('p')), TreeCommand::Up);
    assert_eq!(search(ctrl('n')), TreeCommand::Down);
    assert_eq!(search(ctrl('q')), TreeCommand::Nothing);
    assert_eq!(search(plain(KeyCode::Left)), TreeCommand::Nothing);
    assert_eq!(search(plain(KeyCode::Right)), TreeCommand::Nothing);
}

#[test]
fn stopping_what_an_action_is_about() {
    let s = |t: &str| t.to_string();
    assert_eq!(
        kill_action(&SelectedAction::StartProject(s("demo"))),
        SelectedAction::KillProject(s("demo"))
    );
    assert_eq!(
        kill_action(&SelectedAction::KillProject(s("demo"))),
        SelectedAction::KillProject(s("demo"))
    );
    assert_eq!(
        kill_action(&SelectedAction::StartWorktree { project: s("demo"), branch: s("fix") }),
        SelectedAction::KillWorktree { project: s("demo"), branch: s("fix") }
    );
    assert_eq!(
        kill_action(&SelectedAction::KillWorktree { project: s("demo"), branch: s("fix") }),
        SelectedAction::KillWorktree { project: s("demo"), branch: s("fix") }
    );
}
