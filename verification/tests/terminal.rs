use crossterm::event::DisableMouseCapture;
use crossterm::terminal::LeaveAlternateScreen;
use crossterm::Command;
use hayate::event::stream::{forward, Arrival, TICK_MILLIS};
use hayate::event::{AppEvent, KeyCode, KeyEvent, KeyModifiers, TermEvent};
use hayate::util::terminal::{restore_step, RestoreAction, RestoreEvent};

fn ansi_of(command: impl Command) -> String {
    let mut out = String::new();
    command.write_ansi(&mut out).unwrap();
    out
}

/// A terminal that counts what is done to it.
#[derive(Default)]
struct CountingTerminal {
    screen: String,
    disables: u32,
    screen_fails: bool,
    raw_mode_fails: bool,
}

impl CountingTerminal {
    fn leave_screen(&mut self) -> Result<(), String> {
        if self.screen_fails {
            return Err("screen".to_string());
        }
        self.screen.push_str(&ansi_of(DisableMouseCapture));
        self.screen.push_str(&ansi_of(LeaveAlternateScreen));
        Ok(())
    }

    fn disable_raw_mode(&mut self) -> Result<(), String> {
        self.disables += 1;
        if self.raw_mode_fails {
            return Err("raw mode".to_string());
        }
        Ok(())
    }
}

/// Gives the terminal back as the program does.
fn restore_once(terminal: &mut CountingTerminal, restored: &mut bool) -> Result<(), String> {
    let mut event = RestoreEvent::Asked;
    loop {
        event = match restore_step(restored, event) {
            RestoreAction::LeaveScreen => RestoreEvent::Left(terminal.leave_screen()),
            RestoreAction::DisableRawMode => RestoreEvent::Disabled(terminal.disable_raw_mode()),
            RestoreAction::Done(result) => return result,
        };
    }
}

#[test]
fn restore_once_disables_raw_mode_on_first_call_only() {
    let mut terminal = CountingTerminal::default();
    let mut restored = false;

    restore_once(&mut terminal, &mut restored).unwrap();
    restore_once(&mut terminal, &mut restored).unwrap();
    restore_once(&mut terminal, &mut restored).unwrap();

    assert_eq!(terminal.disables, 1);
    assert!(restored);
    // The sequence that leaves the screen is written only once too.
    let expected = format!(
        "{}{}",
        ansi_of(DisableMouseCapture),
        ansi_of(LeaveAlternateScreen)
    );
    assert_eq!(terminal.screen, expected);
}

#[test]
fn a_failed_restoration_can_be_repeated() {
    let mut terminal = CountingTerminal {
        screen_fails: true,
        raw_mode_fails: true,
        ..CountingTerminal::default()
    };
    let mut restored = false;

    let r = restore_once(&mut terminal, &mut restored);
    assert_eq!((r, restored), (Err("screen".to_string()), false));
    assert_eq!(terminal.disables, 0, "raw mode is left alone");

    terminal.screen_fails = false;
    let r = restore_once(&mut terminal, &mut restored);
    assert_eq!((r, restored), (Err("raw mode".to_string()), false));
    assert_eq!(terminal.disables, 1);

    terminal.raw_mode_fails = false;
    let r = restore_once(&mut terminal, &mut restored);
    assert_eq!((r, restored), (Ok(()), true));

    terminal.screen_fails = true;
    let r = restore_once(&mut terminal, &mut restored);
    assert_eq!((r, restored), (Ok(()), true));
    assert_eq!(terminal.disables, 2);
}

#[test]
fn emits_ticks_on_a_fixed_interval() {
    let forwarded = forward(Arrival::Tick);
    assert_eq!(forwarded.event, AppEvent::Tick);
    assert!(!forwarded.last);
    assert_eq!(TICK_MILLIS, 16);
}

#[test]
fn forwards_input_events_in_order() {
    let key = |c: char| TermEvent::Key(KeyEvent::new(KeyCode::Char(c), KeyModifiers::none()));
    for c in ['a', 'b'] {
        let forwarded = forward(Arrival::Input(Some(Ok(key(c)))));
        assert_eq!(forwarded.event, AppEvent::Input(key(c)));
        assert!(!forwarded.last);
    }
    let third = forward(Arrival::Input(Some(Err("boom".to_string()))));
    assert_eq!(third.event, AppEvent::Error("boom".to_string()));
    assert!(!third.last);
}

#[test]
fn reports_closed_input_stream_then_ends_task() {
    let forwarded = forward(Arrival::Input(None));
    assert_eq!(
        forwarded.event,
        AppEvent::Error("terminal input stream closed".to_string())
    );
    assert!(forwarded.last);
}
