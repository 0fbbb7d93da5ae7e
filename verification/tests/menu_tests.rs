use code_termination::menu::{
    dlc_screen_closes, dlc_status_label, menu_frame, menu_rank, multiplayer_menu_command, stick_latch,
    Interaction as I, MenuCommand, MultiplayerButtonAction as B, StickReading as S,
};
use code_termination::resources::AppState;

#[test]
fn moving_the_highlight() {
    let idle = [I::Idle; 4];
    assert_eq!(menu_frame(0, &idle, true, false, false), (3, None));
    assert_eq!(menu_frame(3, &idle, false, true, false), (0, None));
    assert_eq!(menu_frame(1, &idle, false, true, false), (2, None));
    assert_eq!(menu_frame(2, &idle, true, true, false), (2, None));
    assert_eq!(menu_frame(5, &[], true, true, true), (5, None));
}

#[test]
fn pointer_and_presses() {
    assert_eq!(menu_frame(0, &[I::Idle, I::Hovered, I::Idle, I::Idle], false, false, false), (1, None));
    assert_eq!(menu_frame(0, &[I::Hovered, I::Idle, I::Hovered, I::Idle], true, false, false), (2, None));
    assert_eq!(menu_frame(0, &[I::Idle, I::Idle, I::Pressed, I::Idle], false, false, false), (0, Some(2)));
    assert_eq!(menu_frame(3, &[I::Idle; 4], false, false, true), (3, Some(3)));
    assert_eq!(menu_frame(3, &[I::Pressed, I::Idle, I::Idle, I::Idle], false, false, true), (3, Some(3)));
}

#[test]
fn menu_order() {
    assert_eq!(menu_rank(B::Host), 0);
    assert_eq!(menu_rank(B::HostBattle), 1);
    assert_eq!(menu_rank(B::Join), 2);
    assert_eq!(menu_rank(B::Back), 3);
    assert_eq!(menu_rank(B::CancelHost), 4);
}

#[test]
fn stick_moves_once_per_push() {
    assert_eq!(stick_latch(true, &[S::Centered, S::Up]), (true, false, false));
    assert_eq!(stick_latch(false, &[S::Up]), (false, false, false));
    assert_eq!(stick_latch(false, &[S::Centered]), (false, false, true));
    assert_eq!(stick_latch(true, &[S::Down, S::Up]), (true, true, false));
    assert_eq!(stick_latch(true, &[]), (false, false, true));
}

#[test]
fn multiplayer_commands() {
    assert_eq!(multiplayer_menu_command(B::Host, false), MenuCommand::HostGame { battle: false });
    assert_eq!(multiplayer_menu_command(B::HostBattle, false), MenuCommand::HostGame { battle: true });
    assert_eq!(multiplayer_menu_command(B::Join, false), MenuCommand::GoTo(AppState::JoinInput));
    assert_eq!(multiplayer_menu_command(B::Back, false), MenuCommand::GoTo(AppState::TitleScreen));
    assert_eq!(multiplayer_menu_command(B::Host, true), MenuCommand::GoTo(AppState::UserRegister));
    assert_eq!(multiplayer_menu_command(B::Join, true), MenuCommand::GoTo(AppState::UserRegister));
    assert_eq!(multiplayer_menu_command(B::Back, true), MenuCommand::GoTo(AppState::TitleScreen));
    assert_eq!(multiplayer_menu_command(B::CancelHost, false), MenuCommand::Nothing);
}

#[test]
fn dlc_screen() {
    assert_eq!(dlc_status_label(true), "[INSTALLED & ACTIVE]");
    assert_eq!(dlc_status_label(false), "[NOT INSTALLED]");
    assert!(dlc_screen_closes(true, &[]));
    assert!(dlc_screen_closes(false, &[I::Hovered, I::Pressed]));
    assert!(!dlc_screen_closes(false, &[I::Hovered, I::Idle]));
}

#[test]
fn highest_index_without_a_down_move() {
    let idle = [I::Idle; 4];
    assert_eq!(menu_frame(usize::MAX, &idle, false, false, false), (usize::MAX, None));
    assert_eq!(menu_frame(usize::MAX, &idle, true, true, false), (3, None));
    assert_eq!(menu_frame(usize::MAX, &[], false, true, false), (usize::MAX, None));
}
