use code_termination::profile::{
    exit_screen, prefill_name, profile_button, registration_skip, uid_for, username_entry, EntryOutcome,
    KeyEvent as K, ProfileButton, UsernameScreen as Screen,
};
use code_termination::resources::{AppState, UserProfile};

fn text(s: &str) -> K {
    K::Text(s.to_string())
}

#[test]
fn uid_is_reversed_name() {
    assert_eq!(uid_for("neo_42"), "24_oen");
    assert_eq!(uid_for(&uid_for("trinity")), "trinity");
}

#[test]
fn typing_filters_characters() {
    let mut input = String::new();
    match username_entry(Screen::Register, &mut input, &[text("ab c!"), text("_-9"), K::Other]) {
        EntryOutcome::Editing { display, status } => {
            assert_eq!(display.as_deref(), Some("abc_-9_"));
            assert_eq!(status.as_deref(), Some("Type username using alphanumeric characters and press Enter"));
        },
        _ => panic!("expected editing"),
    }
    assert_eq!(input, "abc_-9");
}

#[test]
fn length_is_checked_before_each_input() {
    let mut input = "abcdefghijklmno".to_string();
    username_entry(Screen::Register, &mut input, &[text("xyz")]);
    assert_eq!(input, "abcdefghijklmnoxyz");
    username_entry(Screen::Register, &mut input, &[text("q")]);
    assert_eq!(input, "abcdefghijklmnoxyz");
}

#[test]
fn backspace_edits() {
    let mut input = "ab".to_string();
    match username_entry(Screen::NameChange, &mut input, &[K::Backspace]) {
        EntryOutcome::Editing { display, status } => {
            assert_eq!(display.as_deref(), Some("a_"));
            assert_eq!(status.as_deref(), Some("Type new username and press Enter to save"));
        },
        _ => panic!("expected editing"),
    }
    let mut empty = String::new();
    match username_entry(Screen::Register, &mut empty, &[K::Backspace]) {
        EntryOutcome::Editing { display, .. } => assert_eq!(display.as_deref(), Some("_")),
        _ => panic!("expected editing"),
    }
}

#[test]
fn enter_submits_trimmed_name() {
    let mut input = String::new();
    match username_entry(Screen::Register, &mut input, &[text("neo"), K::Enter, text("zzz")]) {
        EntryOutcome::Submitted { username, uid } => {
            assert_eq!(username, "neo");
            assert_eq!(uid, "oen");
        },
        _ => panic!("expected a submitted name"),
    }
    assert_eq!(input, "neo");
    let mut input = "  smith ".to_string();
    match username_entry(Screen::NameChange, &mut input, &[K::Enter]) {
        EntryOutcome::Submitted { username, uid } => {
            assert_eq!(username, "smith");
            assert_eq!(uid, "htims");
        },
        _ => panic!("expected a submitted name"),
    }
    assert_eq!(input, "");
}

#[test]
fn enter_without_name_warns() {
    let mut input = String::new();
    match username_entry(Screen::Register, &mut input, &[K::Enter]) {
        EntryOutcome::Editing { display, status } => {
            assert_eq!(display, None);
            assert_eq!(status.as_deref(), Some("Username cannot be empty!"));
        },
        _ => panic!("expected editing"),
    }
    match username_entry(Screen::Register, &mut input, &[K::Enter, text("a")]) {
        EntryOutcome::Editing { status, .. } => {
            assert_eq!(status.as_deref(), Some("Type username using alphanumeric characters and press Enter"));
        },
        _ => panic!("expected editing"),
    }
}

#[test]
fn escape_leaves() {
    let mut input = "abc".to_string();
    assert!(matches!(username_entry(Screen::Register, &mut input, &[K::Escape, text("x")]), EntryOutcome::Cancelled));
    assert_eq!(input, "abc");
    assert!(matches!(username_entry(Screen::NameChange, &mut input, &[K::Escape]), EntryOutcome::Cancelled));
    assert_eq!(input, "");
    assert_eq!(exit_screen(Screen::Register), AppState::MultiplayerMenu);
    assert_eq!(exit_screen(Screen::NameChange), AppState::TitleScreen);
}

#[test]
fn nothing_pressed_changes_nothing() {
    let mut input = "abc".to_string();
    match username_entry(Screen::Register, &mut input, &[]) {
        EntryOutcome::Editing { display, status } => {
            assert_eq!(display, None);
            assert_eq!(status, None);
        },
        _ => panic!("expected editing"),
    }
}

#[test]
fn buttons_read_the_shown_name() {
    match profile_button(ProfileButton::Confirm, "neo_") {
        EntryOutcome::Submitted { username, uid } => {
            assert_eq!(username, "neo");
            assert_eq!(uid, "oen");
        },
        _ => panic!("expected a submitted name"),
    }
    assert!(matches!(profile_button(ProfileButton::Confirm, "_"), EntryOutcome::Editing { .. }));
    assert!(matches!(profile_button(ProfileButton::Confirm, ""), EntryOutcome::Editing { .. }));
    match profile_button(ProfileButton::Confirm, "ab__") {
        EntryOutcome::Submitted { username, .. } => assert_eq!(username, "ab_"),
        _ => panic!("expected a submitted name"),
    }
    assert!(matches!(profile_button(ProfileButton::Leave, "neo_"), EntryOutcome::Cancelled));
}

#[test]
fn name_change_starts_from_current_name() {
    let mut input = String::new();
    prefill_name(&mut input, "neo");
    assert_eq!(input, "neo");
    prefill_name(&mut input, "smith");
    assert_eq!(input, "neo");
    let mut empty = String::new();
    prefill_name(&mut empty, "");
    assert_eq!(empty, "");
}

#[test]
fn registered_players_skip_registration() {
    let mut p = UserProfile::default();
    assert_eq!(registration_skip(&p), None);
    p.register("neo".to_string());
    assert_eq!(p.username, "neo");
    assert_eq!(p.uid, "oen");
    assert_eq!(registration_skip(&p), Some(AppState::MultiplayerMenu));
}

#[test]
fn name_typed_key_by_key_stops_at_sixteen() {
    let mut input = String::new();
    let events: Vec<K> = (0..20).map(|_| text("a")).collect();
    username_entry(Screen::Register, &mut input, &events);
    assert_eq!(input, "a".repeat(16));
    match username_entry(Screen::Register, &mut input, &[text("b"), K::Enter]) {
        EntryOutcome::Submitted { username, .. } => assert_eq!(username, "a".repeat(16)),
        _ => panic!("expected a confirmed name"),
    }
}
