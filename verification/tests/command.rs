use crossterm::event::KeyModifiers as RawModifiers;
use hayate::app::command::{command_for_key, Command};
use hayate::event::{KeyCode, KeyEvent, KeyEventKind, KeyModifiers};

fn plain(raw: RawModifiers) -> KeyModifiers {
    KeyModifiers {
        shift: raw.contains(RawModifiers::SHIFT),
        control: raw.contains(RawModifiers::CONTROL),
        alt: raw.contains(RawModifiers::ALT),
        super_key: raw.contains(RawModifiers::SUPER),
        hyper: raw.contains(RawModifiers::HYPER),
        meta: raw.contains(RawModifiers::META),
    }
}

fn key(code: KeyCode, modifiers: RawModifiers) -> KeyEvent {
    KeyEvent::new(code, plain(modifiers))
}

fn key_with_kind(code: KeyCode, modifiers: RawModifiers, kind: KeyEventKind) -> KeyEvent {
    KeyEvent {
        code,
        modifiers: plain(modifiers),
        kind,
    }
}

#[test]
fn q_quits() {
    assert_eq!(
        command_for_key(key(KeyCode::Char('q'), RawModifiers::NONE)),
        Some(Command::Quit)
    );
}

#[test]
fn ctrl_c_quits() {
    assert_eq!(
        command_for_key(key(KeyCode::Char('c'), RawModifiers::CONTROL)),
        Some(Command::Quit)
    );
}

#[test]
fn ctrl_shift_c_also_quits() {
    assert_eq!(
        command_for_key(key(
            KeyCode::Char('c'),
            RawModifiers::CONTROL | RawModifiers::SHIFT
        )),
        Some(Command::Quit)
    );
}

#[test]
fn bare_r_triggers_recount() {
    assert_eq!(
        command_for_key(key(KeyCode::Char('r'), RawModifiers::NONE)),
        Some(Command::RecountRecursive)
    );
}

#[test]
fn modified_r_does_not_trigger_recount() {
    assert_eq!(
        command_for_key(key(KeyCode::Char('r'), RawModifiers::SHIFT)),
        None
    );
}

#[test]
fn bare_esc_triggers_cancel() {
    assert_eq!(
        command_for_key(key(KeyCode::Esc, RawModifiers::NONE)),
        Some(Command::Cancel)
    );
}

#[test]
fn modified_esc_does_not_trigger_cancel() {
    assert_eq!(command_for_key(key(KeyCode::Esc, RawModifiers::SHIFT)), None);
}

/// Sweeps every letter against every modifier combination and checks the
/// exact command of each.
#[test]
fn sweeps_every_letter_and_modifier_combination() {
    for bits in 0..=0b0011_1111u8 {
        let modifiers = RawModifiers::from_bits_truncate(bits);

        for c in ('a'..='z').chain('A'..='Z') {
            let is_bare_q = c == 'q' && modifiers == RawModifiers::NONE;
            let is_ctrl_c = c == 'c' && modifiers.contains(RawModifiers::CONTROL);
            let is_bare_r = c == 'r' && modifiers == RawModifiers::NONE;

            let expected = if is_bare_q || is_ctrl_c {
                Some(Command::Quit)
            } else if is_bare_r {
                Some(Command::RecountRecursive)
            } else {
                None
            };

            assert_eq!(
                command_for_key(key(KeyCode::Char(c), modifiers)),
                expected,
                "key '{c}' with modifiers {modifiers:?}"
            );
        }
    }
}

#[test]
fn release_and_repeat_kinds_return_none() {
    assert_eq!(
        command_for_key(key_with_kind(
            KeyCode::Char('q'),
            RawModifiers::NONE,
            KeyEventKind::Release
        )),
        None
    );
    assert_eq!(
        command_for_key(key_with_kind(
            KeyCode::Char('r'),
            RawModifiers::NONE,
            KeyEventKind::Repeat
        )),
        None
    );
}

#[test]
fn keys_without_a_letter_trigger_nothing() {
    for code in [
        KeyCode::Enter,
        KeyCode::Backspace,
        KeyCode::Up,
        KeyCode::Down,
        KeyCode::Other,
    ] {
        assert_eq!(command_for_key(key(code, RawModifiers::NONE)), None);
    }
}

#[test]
fn single_modifiers_are_named() {
    assert_eq!(KeyModifiers::none(), plain(RawModifiers::NONE));
    assert_eq!(KeyModifiers::only_shift(), plain(RawModifiers::SHIFT));
    assert_eq!(KeyModifiers::only_control(), plain(RawModifiers::CONTROL));
}
