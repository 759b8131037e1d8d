//! Which key stands for what.
use vstd::prelude::*;

use crate::game::InputAction;

verus! {

/// A key of the keyboard.
#[derive(Debug, Clone, Copy, PartialEq, Eq, Structural)]
pub enum Key {
    Left,
    Right,
    Up,
    Down,
    Enter,
    Esc,
    Tab,
    Backspace,
    Delete,
    Insert,
    Home,
    End,
    Char(char),
    /// Any other key.
    Other,
}

/// A key with the modifiers that are held down.
#[derive(Debug, Clone, Copy, PartialEq, Eq, Structural)]
pub struct KeyPress {
    pub key: Key,
    pub shift: bool,
    pub control: bool,
    /// The command key of a Mac.
    pub command: bool,
}

/// A key press in a text field.
#[derive(Debug, Clone, Copy, PartialEq, Eq, Structural)]
pub enum TextEditAction {
    Char(char),
    Backspace,
    Delete,
    MoveLeft { extend: bool },
    MoveRight { extend: bool },
    MoveToStart { extend: bool },
    MoveToEnd { extend: bool },
    SelectAll,
    Confirm,
    Cancel,
}

/// A key press on the title screen.
#[derive(Debug, Clone, Copy, PartialEq, Eq, Structural)]
pub enum AnyKeyAction {
    Advance,
    Quit,
    OpenSettings,
    OpenHelp,
    OpenNetworkLobby,
    /// Nothing, but somebody is there.
    Ignored,
}

/// The key is one of two letters.
pub open spec fn letter(key: Key, lower: char, upper: char) -> bool {
    key == Key::Char(lower) || key == Key::Char(upper)
}

/// What a key asks for in a game.
pub open spec fn bound_action(key: Key) -> InputAction {
    match key {
        Key::Left => InputAction::MoveLeft,
        Key::Right => InputAction::MoveRight,
        Key::Up => InputAction::FaceUp,
        Key::Down => InputAction::FaceDown,
        Key::Esc => InputAction::Quit,
        Key::Enter => InputAction::Confirm,
        Key::Tab => InputAction::StartRoom,
        Key::Backspace => InputAction::Rewind,
        Key::Char(c) => char_action(c),
        _ => InputAction::UnboundKey,
    }
}

/// What a character asks for in a game.
pub open spec fn char_action(c: char) -> InputAction {
    if c == 'x' || c == 'X' || c == 'z' || c == 'Z' {
        InputAction::Drill
    } else if c == ' ' || c == 'p' || c == 'P' {
        InputAction::TogglePause
    } else if c == 'v' || c == 'V' {
        InputAction::StartAiBattle
    } else if c == 'u' || c == 'U' {
        InputAction::Rewind
    } else if c == 'm' || c == 'M' {
        InputAction::ToggleMusic
    } else if c == 'e' || c == 'E' {
        InputAction::ToggleSe
    } else if c == 's' || c == 'S' {
        InputAction::OpenSettings
    } else if c == 'h' || c == 'H' {
        InputAction::OpenHelp
    } else if c == 'c' || c == 'C' {
        InputAction::DebugUnifyNearbyColors
    } else if c == 'l' || c == 'L' {
        InputAction::DebugAddLife
    } else if c == 'a' || c == 'A' {
        InputAction::DebugFillAir
    } else if c == 'r' || c == 'R' {
        InputAction::DebugClearAbovePlayer
    } else if c == 'k' || c == 'K' {
        InputAction::DebugStarifyVisibleScreen
    } else if c == 'b' || c == 'B' {
        InputAction::DebugPlaceBomb
    } else if c == 'o' || c == 'O' {
        InputAction::DebugReceiveOpponentAttack
    } else if c == 't' || c == 'T' {
        InputAction::DebugToggleAutopilot
    } else if c == 'g' || c == 'G' {
        InputAction::DebugToggleInvincible
    } else if c == '[' {
        InputAction::DebugBlockFallSlower
    } else if c == ']' {
        InputAction::DebugBlockFallFaster
    } else if c == '-' {
        InputAction::DebugPlayerFallSlower
    } else if c == '=' {
        InputAction::DebugPlayerFallFaster
    } else if c == ',' {
        InputAction::DebugShakeDurationLonger
    } else if c == '.' {
        InputAction::DebugShakeDurationShorter
    } else {
        InputAction::UnboundKey
    }
}

/// What a key press does in a text field. Characters with control or command
/// held down are no text.
pub open spec fn edit_action(press: KeyPress) -> Option<TextEditAction> {
    let command = press.control || press.command;
    let extend = press.shift;
    match press.key {
        Key::Char(c) => if command {
            if c == 'a' || c == 'A' {
                Some(TextEditAction::SelectAll)
            } else {
                None
            }
        } else {
            Some(TextEditAction::Char(c))
        },
        Key::Backspace => Some(TextEditAction::Backspace),
        Key::Delete => Some(TextEditAction::Delete),
        Key::Left => Some(TextEditAction::MoveLeft { extend }),
        Key::Right => Some(TextEditAction::MoveRight { extend }),
        Key::Home => Some(TextEditAction::MoveToStart { extend }),
        Key::End => Some(TextEditAction::MoveToEnd { extend }),
        Key::Enter => Some(TextEditAction::Confirm),
        Key::Esc => Some(TextEditAction::Cancel),
        _ => None,
    }
}

/// What a key does on the title screen. Only the enter key goes on.
pub open spec fn title_action(key: Key) -> AnyKeyAction {
    if key == Key::Esc {
        AnyKeyAction::Quit
    } else if letter(key, 's', 'S') {
        AnyKeyAction::OpenSettings
    } else if letter(key, 'h', 'H') {
        AnyKeyAction::OpenHelp
    } else if letter(key, 'n', 'N') {
        AnyKeyAction::OpenNetworkLobby
    } else if key == Key::Enter {
        AnyKeyAction::Advance
    } else {
        AnyKeyAction::Ignored
    }
}

/// What a key asks for in a game.
pub fn action_from_key_code(key: Key) -> (action: InputAction)
    ensures
        action == bound_action(key),
{
    match key {
        Key::Left => InputAction::MoveLeft,
        Key::Right => InputAction::MoveRight,
        Key::Up => InputAction::FaceUp,
        Key::Down => InputAction::FaceDown,
        Key::Esc => InputAction::Quit,
        Key::Enter => InputAction::Confirm,
        Key::Tab => InputAction::StartRoom,
        Key::Backspace => InputAction::Rewind,
        Key::Char(c) => match c {
            'x' | 'X' | 'z' | 'Z' => InputAction::Drill,
            ' ' | 'p' | 'P' => InputAction::TogglePause,
            'v' | 'V' => InputAction::StartAiBattle,
            'u' | 'U' => InputAction::Rewind,
            'm' | 'M' => InputAction::ToggleMusic,
            'e' | 'E' => InputAction::ToggleSe,
            's' | 'S' => InputAction::OpenSettings,
            'h' | 'H' => InputAction::OpenHelp,
            'c' | 'C' => InputAction::DebugUnifyNearbyColors,
            'l' | 'L' => InputAction::DebugAddLife,
            'a' | 'A' => InputAction::DebugFillAir,
            'r' | 'R' => InputAction::DebugClearAbovePlayer,
            'k' | 'K' => InputAction::DebugStarifyVisibleScreen,
            'b' | 'B' => InputAction::DebugPlaceBomb,
            'o' | 'O' => InputAction::DebugReceiveOpponentAttack,
            't' | 'T' => InputAction::DebugToggleAutopilot,
            'g' | 'G' => InputAction::DebugToggleInvincible,
            '[' => InputAction::DebugBlockFallSlower,
            ']' => InputAction::DebugBlockFallFaster,
            '-' => InputAction::DebugPlayerFallSlower,
            '=' => InputAction::DebugPlayerFallFaster,
            ',' => InputAction::DebugShakeDurationLonger,
            '.' => InputAction::DebugShakeDurationShorter,
            _ => InputAction::UnboundKey,
        },
        _ => InputAction::UnboundKey,
    }
}

/// What a key press does in a text field.
pub fn text_edit_action_from_key(press: KeyPress) -> (action: Option<TextEditAction>)
    ensures
        action == edit_action(press),
{
    let command: bool = press.control || press.command;
    let extend: bool = press.shift;
    match press.key {
        Key::Char(c) => {
            if command {
                if c == 'a' || c == 'A' {
                    Some(TextEditAction::SelectAll)
                } else {
                    None
                }
            } else {
                Some(TextEditAction::Char(c))
            }
        },
        Key::Backspace => Some(TextEditAction::Backspace),
        Key::Delete => Some(TextEditAction::Delete),
        Key::Left => Some(TextEditAction::MoveLeft { extend }),
        Key::Right => Some(TextEditAction::MoveRight { extend }),
        Key::Home => Some(TextEditAction::MoveToStart { extend }),
        Key::End => Some(TextEditAction::MoveToEnd { extend }),
        Key::Enter => Some(TextEditAction::Confirm),
        Key::Esc => Some(TextEditAction::Cancel),
        _ => None,
    }
}

/// What a key does on the title screen.
pub fn any_key_action_from_key_code(key: Key) -> (action: AnyKeyAction)
    ensures
        action == title_action(key),
{
    match key {
        Key::Esc => AnyKeyAction::Quit,
        Key::Enter => AnyKeyAction::Advance,
        Key::Char(c) => match c {
            's' | 'S' => AnyKeyAction::OpenSettings,
            'h' | 'H' => AnyKeyAction::OpenHelp,
            'n' | 'N' => AnyKeyAction::OpenNetworkLobby,
            _ => AnyKeyAction::Ignored,
        },
        _ => AnyKeyAction::Ignored,
    }
}

/// The presses of a frame, in order, as what they ask for.
pub open spec fn actions_of(keys: Seq<Key>) -> Seq<InputAction> {
    keys.map_values(|k: Key| bound_action(k))
}

/// What all the keys that were pressed since the last frame ask for, in order.
pub fn actions_from_keys(keys: &Vec<Key>) -> (actions: Vec<InputAction>)
    ensures
        actions@ == actions_of(keys@),
{
    let mut actions: Vec<InputAction> = Vec::new();
    let mut i: usize = 0;
    while i < keys.len()
        invariant
            i <= keys@.len(),
            actions@ =~= actions_of(keys@.take(i as int)),
        decreases keys@.len() - i,
    {
        actions.push(action_from_key_code(keys[i]));
        i = i + 1;
    }
    assert(keys@.take(keys@.len() as int) =~= keys@);
    actions
}

/// The presses of a frame, in order, as edits; what is no edit is left out.
pub open spec fn edits_of(presses: Seq<KeyPress>) -> Seq<TextEditAction>
    decreases presses.len(),
{
    if presses.len() == 0 {
        Seq::empty()
    } else {
        let rest = edits_of(presses.drop_last());
        match edit_action(presses.last()) {
            Some(edit) => rest.push(edit),
            None => rest,
        }
    }
}

/// What all the keys that were pressed since the last frame do in a text field,
/// in order.
pub fn edits_from_keys(presses: &Vec<KeyPress>) -> (edits: Vec<TextEditAction>)
    ensures
        edits@ == edits_of(presses@),
{
    let mut edits: Vec<TextEditAction> = Vec::new();
    let mut i: usize = 0;
    assert(presses@.take(0) =~= Seq::<KeyPress>::empty());
    while i < presses.len()
        invariant
            i <= presses@.len(),
            edits@ == edits_of(presses@.take(i as int)),
        decreases presses@.len() - i,
    {
        proof {
            let t = presses@.take(i + 1);
            assert(t.drop_last() =~= presses@.take(i as int));
            assert(t.last() == presses@[i as int]);
        }
        if let Some(edit) = text_edit_action_from_key(presses[i]) {
            edits.push(edit);
        }
        i = i + 1;
    }
    assert(presses@.take(presses@.len() as int) =~= presses@);
    edits
}

/// Nothing but its own keys rewinds, calls in an attack, starts a match
/// against the computer, starts a room, or confirms.
pub proof fn law_keys_do_not_collide(key: Key)
    ensures
        bound_action(key) == InputAction::Rewind <==> key == Key::Backspace || letter(key, 'u', 'U'),
        bound_action(key) == InputAction::DebugReceiveOpponentAttack <==> letter(key, 'o', 'O'),
        bound_action(key) == InputAction::StartAiBattle <==> letter(key, 'v', 'V'),
        bound_action(key) == InputAction::StartRoom <==> key == Key::Tab,
        bound_action(key) == InputAction::Confirm <==> key == Key::Enter,
        bound_action(key) == InputAction::Drill <==> letter(key, 'x', 'X') || letter(key, 'z', 'Z'),
        title_action(key) == AnyKeyAction::Advance <==> key == Key::Enter,
        title_action(key) == AnyKeyAction::OpenNetworkLobby <==> letter(key, 'n', 'N'),
{
}

/// The selection is extended exactly while the shift key is held down.
pub proof fn law_shift_extends(press: KeyPress)
    ensures
        edit_action(press) matches Some(TextEditAction::MoveLeft { extend }) ==> extend == press.shift,
        edit_action(press) matches Some(TextEditAction::MoveRight { extend }) ==> extend == press.shift,
        edit_action(press) matches Some(TextEditAction::MoveToStart { extend }) ==> extend == press.shift,
        edit_action(press) matches Some(TextEditAction::MoveToEnd { extend }) ==> extend == press.shift,
        edit_action(press) matches Some(TextEditAction::Char(c)) ==> !press.control && !press.command,
{
}

} // verus!
