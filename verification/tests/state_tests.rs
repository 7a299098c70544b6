use desklaunch::entry::{Catalog, DesktopEntry};
use desklaunch::state::{effective_char, shell_invocation, shifted_char, Action, AppState, Key};

fn entry(name: &str, exec: &str, path: &str) -> DesktopEntry {
    DesktopEntry {
        display_name: name.to_string(),
        exec_command: exec.to_string(),
        source_path: path.to_string(),
    }
}

fn sample_catalog() -> Catalog {
    Catalog {
        entries: vec![
            entry("Firefox", "firefox", "/apps/a.desktop"),
            entry("Terminal", "xterm", "/apps/b.desktop"),
        ],
    }
}

fn type_word(state: &mut AppState, word: &str) {
    for ch in word.chars() {
        let action = state.on_key(Key::Printable { ch, shift: false });
        assert!(matches!(action, Action::Continue));
    }
}

#[test]
fn shift_table_follows_the_keyboard() {
    assert_eq!(shifted_char('a'), 'A');
    assert_eq!(shifted_char('z'), 'Z');
    assert_eq!(shifted_char('1'), '!');
    assert_eq!(shifted_char('2'), '@');
    assert_eq!(shifted_char('9'), '(');
    assert_eq!(shifted_char('0'), ')');
    assert_eq!(shifted_char(';'), ':');
    assert_eq!(shifted_char('['), '{');
    assert_eq!(shifted_char(']'), '}');
    assert_eq!(shifted_char('\''), '"');
    assert_eq!(shifted_char('\\'), '|');
    assert_eq!(shifted_char(','), '<');
    assert_eq!(shifted_char('.'), '>');
    assert_eq!(shifted_char('/'), '?');
    assert_eq!(shifted_char(' '), ' ');
}

#[test]
fn effective_char_honours_shift() {
    assert_eq!(effective_char(',', true), '<');
    assert_eq!(effective_char(',', false), ',');
    assert_eq!(effective_char('f', true), 'F');
    assert_eq!(effective_char('f', false), 'f');
}

#[test]
fn fresh_state_shows_the_whole_catalog() {
    let state = AppState::new(sample_catalog());
    assert!(state.query.is_empty());
    assert_eq!(state.filtered.len(), 2);
}

#[test]
fn typing_narrows_and_confirm_launches_the_first_row() {
    let mut state = AppState::new(sample_catalog());
    type_word(&mut state, "fire");
    assert_eq!(state.filtered.len(), 1);
    assert_eq!(state.filtered[0].display_name, "Firefox");
    let action = state.on_key(Key::Confirm);
    match action {
        Action::Launch { command } => assert_eq!(command, "firefox"),
        _ => panic!("confirm with a non-empty list must launch"),
    }
}

#[test]
fn confirm_on_empty_list_is_a_no_op() {
    let mut state = AppState::new(sample_catalog());
    type_word(&mut state, "xyz123");
    assert_eq!(state.filtered.len(), 0);
    let action = state.on_key(Key::Confirm);
    assert!(matches!(action, Action::Continue));
}

#[test]
fn cancel_always_exits_without_launching() {
    let mut state = AppState::new(sample_catalog());
    assert!(matches!(state.on_key(Key::Cancel), Action::Exit));
    type_word(&mut state, "fire");
    assert!(matches!(state.on_key(Key::Cancel), Action::Exit));
    type_word(&mut state, "xyz123");
    assert!(matches!(state.on_key(Key::Cancel), Action::Exit));
}

#[test]
fn backspace_widens_the_list_again() {
    let mut state = AppState::new(sample_catalog());
    type_word(&mut state, "firez");
    assert_eq!(state.filtered.len(), 0);
    let action = state.on_key(Key::Backspace);
    assert!(matches!(action, Action::Continue));
    assert_eq!(state.query.iter().collect::<String>(), "fire");
    assert_eq!(state.filtered.len(), 1);
}

#[test]
fn backspace_on_empty_query_changes_nothing() {
    let mut state = AppState::new(sample_catalog());
    let action = state.on_key(Key::Backspace);
    assert!(matches!(action, Action::Continue));
    assert!(state.query.is_empty());
    assert_eq!(state.filtered.len(), 2);
}

#[test]
fn shifted_typing_still_matches_case_insensitively() {
    let mut state = AppState::new(sample_catalog());
    for ch in "fire".chars() {
        state.on_key(Key::Printable { ch, shift: true });
    }
    assert_eq!(state.query.iter().collect::<String>(), "FIRE");
    assert_eq!(state.filtered.len(), 1);
    assert_eq!(state.filtered[0].display_name, "Firefox");
}

#[test]
fn launch_goes_through_a_shell() {
    let (shell, args) = shell_invocation(&"firefox %u".to_string());
    assert_eq!(shell, "sh");
    assert_eq!(args, vec!["-c".to_string(), "firefox %u".to_string()]);
}
