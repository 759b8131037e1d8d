//! The keys of the game, of the title screen and of text fields.
use misterdrillerterm::game::InputAction;
use misterdrillerterm::keys::{
    AnyKeyAction, Key, KeyPress, TextEditAction, action_from_key_code, any_key_action_from_key_code,
    text_edit_action_from_key,
};

#[test]
fn action_from_key_code_maps_known_shortcuts() {
    assert_eq!(action_from_key_code(Key::Left), InputAction::MoveLeft);
    assert_eq!(action_from_key_code(Key::Char('p')), InputAction::TogglePause);

    assert_eq!(action_from_key_code(Key::Char('x')), InputAction::Drill);
    assert_eq!(action_from_key_code(Key::Char('X')), InputAction::Drill);
    assert_eq!(action_from_key_code(Key::Char('z')), InputAction::Drill);
    assert_eq!(action_from_key_code(Key::Char('Z')), InputAction::Drill);
    assert_eq!(action_from_key_code(Key::Char(' ')), InputAction::TogglePause);
    assert_eq!(action_from_key_code(Key::Char('r')), InputAction::DebugClearAbovePlayer);
    assert_eq!(action_from_key_code(Key::Char('a')), InputAction::DebugFillAir);
    assert_eq!(action_from_key_code(Key::Char('A')), InputAction::DebugFillAir);
    assert_eq!(action_from_key_code(Key::Char('k')), InputAction::DebugStarifyVisibleScreen);
    assert_eq!(action_from_key_code(Key::Char('K')), InputAction::DebugStarifyVisibleScreen);

    assert_eq!(action_from_key_code(Key::Enter), InputAction::Confirm);
}

#[test]
fn action_from_key_code_maps_the_autoplay_and_invincible_shortcuts() {
    assert_eq!(action_from_key_code(Key::Char('t')), InputAction::DebugToggleAutopilot);
    assert_eq!(action_from_key_code(Key::Char('T')), InputAction::DebugToggleAutopilot);
    assert_eq!(action_from_key_code(Key::Char('g')), InputAction::DebugToggleInvincible);
    assert_eq!(action_from_key_code(Key::Char('G')), InputAction::DebugToggleInvincible);
}

#[test]
fn action_from_key_code_maps_the_incoming_attack_key() {
    assert_eq!(action_from_key_code(Key::Char('o')), InputAction::DebugReceiveOpponentAttack);
    assert_eq!(action_from_key_code(Key::Char('O')), InputAction::DebugReceiveOpponentAttack);
}

#[test]
fn the_incoming_attack_key_does_not_collide_with_any_other_shortcut() {
    let existing_keys = [
        Key::Left,
        Key::Right,
        Key::Up,
        Key::Down,
        Key::Esc,
        Key::Enter,
        Key::Backspace,
        Key::Char(' '),
        Key::Char('x'),
        Key::Char('z'),
        Key::Char('p'),
        Key::Char('u'),
        Key::Char('m'),
        Key::Char('e'),
        Key::Char('s'),
        Key::Char('h'),
        Key::Char('c'),
        Key::Char('l'),
        Key::Char('a'),
        Key::Char('r'),
        Key::Char('k'),
        Key::Char('b'),
        Key::Char('t'),
        Key::Char('g'),
        Key::Char('['),
        Key::Char(']'),
        Key::Char('-'),
        Key::Char('='),
        Key::Char(','),
        Key::Char('.'),
        Key::Char('v'),
    ];
    for key in existing_keys {
        assert_ne!(action_from_key_code(key), InputAction::DebugReceiveOpponentAttack);
    }
}

#[test]
fn action_from_key_code_maps_the_rewind_keys() {
    assert_eq!(action_from_key_code(Key::Backspace), InputAction::Rewind);
    assert_eq!(action_from_key_code(Key::Char('u')), InputAction::Rewind);
    assert_eq!(action_from_key_code(Key::Char('U')), InputAction::Rewind);
}

#[test]
fn the_rewind_keys_do_not_collide_with_any_other_shortcut() {
    let existing_keys = [
        Key::Left,
        Key::Right,
        Key::Up,
        Key::Down,
        Key::Esc,
        Key::Enter,
        Key::Char(' '),
        Key::Char('x'),
        Key::Char('z'),
        Key::Char('p'),
        Key::Char('m'),
        Key::Char('e'),
        Key::Char('s'),
        Key::Char('h'),
        Key::Char('c'),
        Key::Char('l'),
        Key::Char('a'),
        Key::Char('r'),
        Key::Char('k'),
        Key::Char('b'),
        Key::Char('o'),
        Key::Char('t'),
        Key::Char('g'),
        Key::Char('['),
        Key::Char(']'),
        Key::Char('-'),
        Key::Char('='),
        Key::Char(','),
        Key::Char('.'),
        Key::Char('v'),
    ];
    for key in existing_keys {
        assert_ne!(action_from_key_code(key), InputAction::Rewind);
    }
}

#[test]
fn the_title_screen_maps_n_to_the_network_lobby() {
    assert_eq!(any_key_action_from_key_code(Key::Char('n')), AnyKeyAction::OpenNetworkLobby);
    assert_eq!(any_key_action_from_key_code(Key::Char('N')), AnyKeyAction::OpenNetworkLobby);
}

#[test]
fn the_network_lobby_key_does_not_take_over_the_other_title_screen_keys() {
    assert_eq!(any_key_action_from_key_code(Key::Enter), AnyKeyAction::Advance);
    assert_eq!(any_key_action_from_key_code(Key::Esc), AnyKeyAction::Quit);
    assert_eq!(any_key_action_from_key_code(Key::Char('s')), AnyKeyAction::OpenSettings);
    assert_eq!(any_key_action_from_key_code(Key::Char('h')), AnyKeyAction::OpenHelp);
    assert_eq!(any_key_action_from_key_code(Key::Char('y')), AnyKeyAction::Ignored);
}

#[test]
fn action_from_key_code_maps_unassigned_keys_to_unbound_key() {
    assert_eq!(action_from_key_code(Key::Insert), InputAction::UnboundKey);
    assert_eq!(action_from_key_code(Key::Char('y')), InputAction::UnboundKey);
}

#[test]
fn action_from_key_code_maps_tab_to_starting_a_room() {
    assert_eq!(action_from_key_code(Key::Tab), InputAction::StartRoom);
}

#[test]
fn action_from_key_code_maps_v_to_starting_an_ai_battle() {
    assert_eq!(action_from_key_code(Key::Char('v')), InputAction::StartAiBattle);
    assert_eq!(action_from_key_code(Key::Char('V')), InputAction::StartAiBattle);
}

#[test]
fn the_ai_battle_key_does_not_collide_with_any_other_shortcut() {
    let existing_keys = [
        Key::Left,
        Key::Right,
        Key::Up,
        Key::Down,
        Key::Esc,
        Key::Enter,
        Key::Tab,
        Key::Backspace,
        Key::Char(' '),
        Key::Char('x'),
        Key::Char('z'),
        Key::Char('p'),
        Key::Char('u'),
        Key::Char('m'),
        Key::Char('e'),
        Key::Char('s'),
        Key::Char('h'),
        Key::Char('c'),
        Key::Char('l'),
        Key::Char('a'),
        Key::Char('r'),
        Key::Char('k'),
        Key::Char('b'),
        Key::Char('o'),
        Key::Char('t'),
        Key::Char('g'),
        Key::Char('['),
        Key::Char(']'),
        Key::Char('-'),
        Key::Char('='),
        Key::Char(','),
        Key::Char('.'),
    ];
    for key in existing_keys {
        assert_ne!(action_from_key_code(key), InputAction::StartAiBattle);
    }
}

fn plain(key: Key) -> KeyPress {
    KeyPress { key, shift: false, control: false, command: false }
}

fn with_shift(key: Key) -> KeyPress {
    KeyPress { shift: true, ..plain(key) }
}

fn with_control(key: Key) -> KeyPress {
    KeyPress { control: true, ..plain(key) }
}

fn with_command(key: Key) -> KeyPress {
    KeyPress { command: true, ..plain(key) }
}

#[test]
fn text_edit_maps_the_editing_keys() {
    assert_eq!(text_edit_action_from_key(plain(Key::Char('a'))), Some(TextEditAction::Char('a')));
    assert_eq!(text_edit_action_from_key(with_shift(Key::Char('A'))), Some(TextEditAction::Char('A')));
    assert_eq!(text_edit_action_from_key(plain(Key::Backspace)), Some(TextEditAction::Backspace));
    assert_eq!(text_edit_action_from_key(plain(Key::Delete)), Some(TextEditAction::Delete));
    assert_eq!(text_edit_action_from_key(plain(Key::Enter)), Some(TextEditAction::Confirm));
    assert_eq!(text_edit_action_from_key(plain(Key::Esc)), Some(TextEditAction::Cancel));
}

#[test]
fn text_edit_extends_the_selection_only_while_shift_is_held() {
    for (code, without, with) in [
        (
            Key::Left,
            TextEditAction::MoveLeft { extend: false },
            TextEditAction::MoveLeft { extend: true },
        ),
        (
            Key::Right,
            TextEditAction::MoveRight { extend: false },
            TextEditAction::MoveRight { extend: true },
        ),
        (
            Key::Home,
            TextEditAction::MoveToStart { extend: false },
            TextEditAction::MoveToStart { extend: true },
        ),
        (
            Key::End,
            TextEditAction::MoveToEnd { extend: false },
            TextEditAction::MoveToEnd { extend: true },
        ),
    ] {
        assert_eq!(text_edit_action_from_key(plain(code)), Some(without));
        assert_eq!(text_edit_action_from_key(with_shift(code)), Some(with));
    }
}

#[test]
fn text_edit_maps_both_ctrl_a_and_cmd_a_to_select_all() {
    for press in [with_control, with_command] {
        for code in [Key::Char('a'), Key::Char('A')] {
            assert_eq!(text_edit_action_from_key(press(code)), Some(TextEditAction::SelectAll));
        }
    }

    assert_eq!(text_edit_action_from_key(plain(Key::Char('a'))), Some(TextEditAction::Char('a')));
}

#[test]
fn text_edit_ignores_unrelated_keys() {
    assert_eq!(text_edit_action_from_key(plain(Key::Tab)), None);
    assert_eq!(text_edit_action_from_key(plain(Key::Up)), None);
    assert_eq!(text_edit_action_from_key(plain(Key::Other)), None);
    assert_eq!(text_edit_action_from_key(with_control(Key::Char('x'))), None);
    assert_eq!(text_edit_action_from_key(with_command(Key::Char('c'))), None);
}

#[test]
fn the_start_room_key_does_not_collide_with_any_other_shortcut() {
    for code in [
        Key::Enter,
        Key::Esc,
        Key::Up,
        Key::Down,
        Key::Left,
        Key::Right,
        Key::Backspace,
        Key::Char(' '),
        Key::Char('x'),
        Key::Char('z'),
        Key::Char('p'),
        Key::Char('u'),
        Key::Char('m'),
        Key::Char('e'),
        Key::Char('s'),
        Key::Char('h'),
        Key::Char('n'),
        Key::Char('v'),
    ] {
        assert_ne!(action_from_key_code(code), InputAction::StartRoom);
    }
}
