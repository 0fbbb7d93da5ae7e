use vstd::prelude::*;

verus! {

/// The screens of the game.
#[derive(Debug, Clone, Copy, PartialEq, Eq, Structural, Hash)]
pub enum AppState {
    TitleScreen,
    UserRegister,
    ModeSelect,
    Game,
    BossTransition,
    Settings,
    Achievements,
    DlcMenu,
    DeathScreen,
    DemoComplete,
    MultiplayerMenu,
    HostWaiting,
    JoinInput,
    WeaponDesigner,
    BattleArena,
    UserNameChange,
}

impl Default for AppState {
    fn default() -> (s: Self)
        ensures
            s == AppState::TitleScreen,
    {
        AppState::TitleScreen
    }
}

/// Whether the tutorial overlay is shown.
pub struct TutorialState {
    pub visible: bool,
}

impl Default for TutorialState {
    fn default() -> (s: Self)
        ensures
            s.visible,
    {
        TutorialState { visible: true }
    }
}

/// Whether the saved game is to be loaded when play starts.
pub struct PendingGameLoad {
    pub should_load: bool,
}

impl Default for PendingGameLoad {
    fn default() -> (s: Self)
        ensures
            !s.should_load,
    {
        PendingGameLoad { should_load: false }
    }
}

/// The level being played.
#[derive(Clone, Copy, PartialEq, Eq, Structural)]
pub struct LevelState {
    pub current_level: u32,
}

impl Default for LevelState {
    fn default() -> (s: Self)
        ensures
            s.current_level == 1,
    {
        LevelState { current_level: 1 }
    }
}

/// Whether the hard "hacker" mode is on.
#[derive(Clone, Copy, PartialEq, Eq, Structural)]
pub struct HackerMode {
    pub active: bool,
}

impl Default for HackerMode {
    fn default() -> (s: Self)
        ensures
            !s.active,
    {
        HackerMode { active: false }
    }
}

/// The highlighted entry of the current menu.
pub struct MenuSelection {
    pub selected_index: usize,
}

impl Default for MenuSelection {
    fn default() -> (s: Self)
        ensures
            s.selected_index == 0,
    {
        MenuSelection { selected_index: 0 }
    }
}

/// The achievements unlocked so far, and the number of deaths.
#[derive(Clone)]
pub struct Achievements {
    pub phase_shift: bool,
    pub turbo_charged: bool,
    pub airborne: bool,
    pub system_crash: bool,
    pub speed_daemon: bool,
    pub better_call_tech_support: bool,
    pub death_count: u32,
}

impl Default for Achievements {
    fn default() -> (s: Self)
        ensures
            !s.phase_shift,
            !s.turbo_charged,
            !s.airborne,
            !s.system_crash,
            !s.speed_daemon,
            !s.better_call_tech_support,
            s.death_count == 0,
    {
        Achievements {
            phase_shift: false,
            turbo_charged: false,
            airborne: false,
            system_crash: false,
            speed_daemon: false,
            better_call_tech_support: false,
            death_count: 0,
        }
    }
}

/// The registered player: a username and the identifier derived from it.
#[derive(Clone)]
pub struct UserProfile {
    pub username: String,
    pub uid: String,
}

impl Default for UserProfile {
    fn default() -> (s: Self)
        ensures
            s.username@.len() == 0,
            s.uid@.len() == 0,
    {
        UserProfile { username: String::new(), uid: String::new() }
    }
}

} // verus!
