use vstd::prelude::*;
use crate::resources::AppState;

verus! {

/// The state of a button under the pointer.
#[derive(Debug, Clone, Copy, PartialEq, Eq, Structural)]
pub enum Interaction {
    Pressed,
    Hovered,
    Idle,
}

/// The buttons of the multiplayer screens.
#[derive(Debug, Clone, Copy, PartialEq, Eq, Structural)]
pub enum MultiplayerButtonAction {
    Host,
    HostBattle,
    Join,
    Back,
    CancelHost,
    BackToMenu,
}

/// The position of a button in the multiplayer menu, top to bottom.
pub fn menu_rank(action: MultiplayerButtonAction) -> (r: u32)
    ensures
        r == match action {
            MultiplayerButtonAction::Host => 0u32,
            MultiplayerButtonAction::HostBattle => 1,
            MultiplayerButtonAction::Join => 2,
            MultiplayerButtonAction::Back => 3,
            _ => 4,
        },
{
    match action {
        MultiplayerButtonAction::Host => 0,
        MultiplayerButtonAction::HostBattle => 1,
        MultiplayerButtonAction::Join => 2,
        MultiplayerButtonAction::Back => 3,
        _ => 4,
    }
}

/// The highlighted index after the up and down moves of a frame, among
/// `total` buttons: up wraps from the top to the bottom, down wraps from the
/// bottom to the top; with no buttons nothing moves.
pub open spec fn step_selection(sel: int, total: int, up: bool, down: bool) -> int {
    if total <= 0 {
        sel
    } else {
        let s1 = if up {
            if sel == 0 {
                total - 1
            } else {
                sel - 1
            }
        } else {
            sel
        };
        if down {
            (s1 + 1) % total
        } else {
            s1
        }
    }
}

/// The highlighted index after the pointer: the last button hovered, if any.
pub open spec fn hover_selection(sel: int, buttons: Seq<Interaction>) -> int
    decreases buttons.len(),
{
    if buttons.len() == 0 {
        sel
    } else if buttons.last() == Interaction::Hovered {
        buttons.len() - 1
    } else {
        hover_selection(sel, buttons.drop_last())
    }
}

/// The button that fires: the last one pressed, or the highlighted one when
/// the gamepad confirms.
pub open spec fn fired_spec(sel: int, buttons: Seq<Interaction>, confirm: bool) -> Option<int>
    decreases buttons.len(),
{
    if buttons.len() == 0 {
        None
    } else if buttons.last() == Interaction::Pressed || (confirm && sel == buttons.len() - 1) {
        Some(buttons.len() - 1)
    } else {
        fired_spec(sel, buttons.drop_last(), confirm)
    }
}

/// One frame of menu navigation over the buttons in display order: the moves,
/// then the pointer, then the button that fires. Gives the highlighted index
/// and the index of the button that fires, if any.
pub fn menu_frame(selected: usize, buttons: &[Interaction], up: bool, down: bool, confirm: bool) -> (r: (
    usize,
    Option<usize>,
))
    requires
        down && !up && buttons@.len() > 0 ==> selected < usize::MAX,
    ensures
        r.0 == hover_selection(step_selection(selected as int, buttons@.len() as int, up, down), buttons@),
        r.1 matches Some(i) ==> fired_spec(r.0 as int, buttons@, confirm) == Some(i as int),
        r.1 is None ==> fired_spec(r.0 as int, buttons@, confirm) is None,
{
    let total = buttons.len();
    let mut sel = selected;
    if total > 0 {
        if up {
            sel = if sel == 0 {
                total - 1
            } else {
                sel - 1
            };
        }
        if down {
            sel = (sel + 1) % total;
        }
    }
    let ghost moved = sel as int;
    let mut i: usize = 0;
    assert(buttons@.take(0) =~= Seq::<Interaction>::empty());
    while i < total
        invariant
            i <= total,
            total == buttons@.len(),
            sel == hover_selection(moved, buttons@.take(i as int)),
        decreases total - i,
    {
        if buttons[i] == Interaction::Hovered {
            sel = i;
        }
        assert(buttons@.take(i + 1).drop_last() =~= buttons@.take(i as int));
        i = i + 1;
    }
    assert(buttons@.take(total as int) =~= buttons@);
    let mut fired: Option<usize> = None;
    let mut j: usize = 0;
    assert(buttons@.take(0) =~= Seq::<Interaction>::empty());
    while j < total
        invariant
            j <= total,
            total == buttons@.len(),
            match fired {
                Some(k) => fired_spec(sel as int, buttons@.take(j as int), confirm) == Some(k as int),
                None => fired_spec(sel as int, buttons@.take(j as int), confirm) is None,
            },
        decreases total - j,
    {
        if buttons[j] == Interaction::Pressed || (confirm && j == sel) {
            fired = Some(j);
        }
        assert(buttons@.take(j + 1).drop_last() =~= buttons@.take(j as int));
        j = j + 1;
    }
    assert(buttons@.take(total as int) =~= buttons@);
    (sel, fired)
}

/// Navigation keeps the highlight on a button: from a highlighted index
/// among `total` buttons, after any moves and pointer, it is still one of
/// them.
pub proof fn lemma_selection_stays_on_buttons(sel: int, buttons: Seq<Interaction>, up: bool, down: bool)
    requires
        0 <= sel < buttons.len(),
    ensures
        0 <= hover_selection(step_selection(sel, buttons.len() as int, up, down), buttons) < buttons.len(),
{
    lemma_hover_in_range(step_selection(sel, buttons.len() as int, up, down), buttons, buttons.len() as int);
}

proof fn lemma_hover_in_range(sel: int, buttons: Seq<Interaction>, total: int)
    requires
        0 <= sel < total,
        buttons.len() <= total,
    ensures
        0 <= hover_selection(sel, buttons) < total,
    decreases buttons.len(),
{
    if buttons.len() > 0 {
        lemma_hover_in_range(sel, buttons.drop_last(), total);
    }
}

/// Moving up then down comes back to the same button, and so does a frame
/// with both moves.
pub proof fn lemma_up_then_down(sel: int, total: int)
    requires
        0 <= sel < total,
    ensures
        step_selection(step_selection(sel, total, true, false), total, false, true) == sel,
        step_selection(sel, total, true, true) == sel,
{
    vstd::arithmetic::div_mod::lemma_mod_self_0(total);
    vstd::arithmetic::div_mod::lemma_small_mod(sel as nat, total as nat);
}

/// The direction of a gamepad's left stick.
#[derive(Debug, Clone, Copy, PartialEq, Eq, Structural)]
pub enum StickReading {
    /// Pushed up past half way.
    Up,
    /// Pushed down past half way.
    Down,
    /// Near the middle, or no reading.
    Centered,
}

/// One frame of stick navigation: a move counts only when the stick was
/// centred on every gamepad in the frame before. Gives the up move, the down
/// move, and whether the sticks are centred now.
pub fn stick_latch(was_centered: bool, sticks: &[StickReading]) -> (r: (bool, bool, bool))
    ensures
        r.0 == (was_centered && sticks@.contains(StickReading::Up)),
        r.1 == (was_centered && sticks@.contains(StickReading::Down)),
        r.2 == !(sticks@.contains(StickReading::Up) || sticks@.contains(StickReading::Down)),
{
    let mut any_up = false;
    let mut any_down = false;
    let mut i: usize = 0;
    while i < sticks.len()
        invariant
            i <= sticks@.len(),
            any_up == exists|k: int| 0 <= k < i && sticks@[k] == StickReading::Up,
            any_down == exists|k: int| 0 <= k < i && sticks@[k] == StickReading::Down,
        decreases sticks@.len() - i,
    {
        match sticks[i] {
            StickReading::Up => {
                any_up = true;
            },
            StickReading::Down => {
                any_down = true;
            },
            StickReading::Centered => {},
        }
        i = i + 1;
    }
    (was_centered && any_up, was_centered && any_down, !(any_up || any_down))
}

/// What the multiplayer menu does.
#[derive(Debug, Clone, Copy, PartialEq, Eq, Structural)]
pub enum MenuCommand {
    Nothing,
    GoTo(AppState),
    /// Open a room, a battle room or not.
    HostGame { battle: bool },
}

/// What a fired button of the multiplayer menu does: hosting and joining need
/// a username, and send an unregistered player to registration.
pub open spec fn menu_command_spec(action: MultiplayerButtonAction, username_empty: bool) -> MenuCommand {
    let needs_name = action == MultiplayerButtonAction::Host || action == MultiplayerButtonAction::HostBattle
        || action == MultiplayerButtonAction::Join;
    if needs_name && username_empty {
        MenuCommand::GoTo(AppState::UserRegister)
    } else {
        match action {
            MultiplayerButtonAction::Host => MenuCommand::HostGame { battle: false },
            MultiplayerButtonAction::HostBattle => MenuCommand::HostGame { battle: true },
            MultiplayerButtonAction::Join => MenuCommand::GoTo(AppState::JoinInput),
            MultiplayerButtonAction::Back => MenuCommand::GoTo(AppState::TitleScreen),
            _ => MenuCommand::Nothing,
        }
    }
}

/// What a fired button of the multiplayer menu does.
pub fn multiplayer_menu_command(action: MultiplayerButtonAction, username_empty: bool) -> (c: MenuCommand)
    ensures
        c == menu_command_spec(action, username_empty),
{
    if action == MultiplayerButtonAction::Host || action == MultiplayerButtonAction::HostBattle || action
        == MultiplayerButtonAction::Join {
        if username_empty {
            return MenuCommand::GoTo(AppState::UserRegister);
        }
    }
    match action {
        MultiplayerButtonAction::Host => MenuCommand::HostGame { battle: false },
        MultiplayerButtonAction::HostBattle => MenuCommand::HostGame { battle: true },
        MultiplayerButtonAction::Join => MenuCommand::GoTo(AppState::JoinInput),
        MultiplayerButtonAction::Back => MenuCommand::GoTo(AppState::TitleScreen),
        _ => MenuCommand::Nothing,
    }
}

/// The status of the hacker-mode add-on on the DLC screen.
pub fn dlc_status_label(active: bool) -> (s: &'static str)
    ensures
        s@ == if active {
            "[INSTALLED & ACTIVE]"@
        } else {
            "[NOT INSTALLED]"@
        },
{
    if active {
        "[INSTALLED & ACTIVE]"
    } else {
        "[NOT INSTALLED]"
    }
}

/// Whether the DLC screen closes: a back key (Escape, Backspace, gamepad East
/// or Start) or a pressed button.
pub fn dlc_screen_closes(back_key: bool, buttons: &[Interaction]) -> (b: bool)
    ensures
        b == (back_key || buttons@.contains(Interaction::Pressed)),
{
    let mut pressed = false;
    let mut i: usize = 0;
    while i < buttons.len()
        invariant
            i <= buttons@.len(),
            pressed == exists|k: int| 0 <= k < i && buttons@[k] == Interaction::Pressed,
        decreases buttons@.len() - i,
    {
        if buttons[i] == Interaction::Pressed {
            pressed = true;
        }
        i = i + 1;
    }
    back_key || pressed
}

/// Hosting, hosting a battle and joining need a username: any of them fired by
/// a player without one goes to registration. With a username, Host opens a
/// room, HostBattle a battle room and Join the join screen; Back always goes
/// to the title screen, and the other buttons do nothing here.
pub proof fn lemma_menu_commands(action: MultiplayerButtonAction, username_empty: bool)
    ensures
        (action == MultiplayerButtonAction::Host || action == MultiplayerButtonAction::HostBattle || action
            == MultiplayerButtonAction::Join) && username_empty ==> menu_command_spec(action, username_empty)
            == MenuCommand::GoTo(AppState::UserRegister),
        action == MultiplayerButtonAction::Host && !username_empty ==> menu_command_spec(action, username_empty)
            == (MenuCommand::HostGame { battle: false }),
        action == MultiplayerButtonAction::HostBattle && !username_empty ==> menu_command_spec(
            action,
            username_empty,
        ) == (MenuCommand::HostGame { battle: true }),
        action == MultiplayerButtonAction::Join && !username_empty ==> menu_command_spec(action, username_empty)
            == MenuCommand::GoTo(AppState::JoinInput),
        action == MultiplayerButtonAction::Back ==> menu_command_spec(action, username_empty) == MenuCommand::GoTo(
            AppState::TitleScreen,
        ),
        (action == MultiplayerButtonAction::CancelHost || action == MultiplayerButtonAction::BackToMenu)
            ==> menu_command_spec(action, username_empty) == MenuCommand::Nothing,
{
}

} // verus!
