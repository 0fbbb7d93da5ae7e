use code_termination::resources::AppState;
use code_termination::weapon::{
    budget_label, get_bullet_color, get_bullet_color_name, over_budget, weapon_cost, weapon_designer_frame,
    weapon_name_from_seed, BulletColor, CustomWeapon, WeaponDesignerButtonAction as A,
};

fn stats(w: &CustomWeapon) -> (u32, u32, u32, u32, u32) {
    (w.damage_stat, w.cooldown_stat, w.speed_stat, w.multishot_stat, w.color_idx)
}

#[test]
fn default_weapon() {
    let w = CustomWeapon::default();
    assert_eq!(w.name, "KERNEL_BLASTER");
    assert_eq!(stats(&w), (3, 3, 5, 1, 0));
    assert_eq!(weapon_cost(&w), 19);
    assert!(!over_budget(19));
    assert!(!over_budget(20));
    assert!(over_budget(21));
}

#[test]
fn raising_and_lowering_stats() {
    let mut w = CustomWeapon::default();
    assert_eq!(weapon_designer_frame(&mut w, &[A::IncDamage, A::IncCooldown, A::IncSpeed, A::IncMultishot], 0), None);
    assert_eq!(stats(&w), (4, 4, 6, 2, 0));
    assert_eq!(weapon_designer_frame(&mut w, &[A::DecDamage, A::DecCooldown, A::DecSpeed, A::DecMultishot], 0), None);
    assert_eq!(stats(&w), (3, 3, 5, 1, 0));
}

#[test]
fn stats_stop_at_their_limits() {
    let mut w = CustomWeapon::default();
    let ups = [A::IncDamage; 12];
    weapon_designer_frame(&mut w, &ups, 0);
    assert_eq!(w.damage_stat, 10);
    let ups = [A::IncMultishot; 9];
    weapon_designer_frame(&mut w, &ups, 0);
    assert_eq!(w.multishot_stat, 5);
    let downs = [A::DecSpeed; 9];
    weapon_designer_frame(&mut w, &downs, 0);
    assert_eq!(w.speed_stat, 1);
}

#[test]
fn colour_cycles_through_four() {
    let mut w = CustomWeapon::default();
    let mut seen = vec![];
    for _ in 0..4 {
        weapon_designer_frame(&mut w, &[A::ChangeColor], 0);
        seen.push(w.color_idx);
    }
    assert_eq!(seen, vec![1, 2, 3, 0]);
}

#[test]
fn compile_needs_budget() {
    let mut w = CustomWeapon::default();
    assert_eq!(weapon_designer_frame(&mut w, &[A::CompileAndTest], 0), Some(AppState::BattleArena));
    w.damage_stat = 10;
    assert_eq!(weapon_cost(&w), 33);
    assert_eq!(weapon_designer_frame(&mut w, &[A::CompileAndTest], 0), None);
    assert_eq!(weapon_designer_frame(&mut w, &[A::Back], 0), Some(AppState::TitleScreen));
}

#[test]
fn compile_uses_cost_at_frame_start() {
    let mut w = CustomWeapon::default();
    w.damage_stat = 4;
    w.multishot_stat = 1;
    assert_eq!(weapon_cost(&w), 21);
    assert_eq!(weapon_designer_frame(&mut w, &[A::DecDamage, A::CompileAndTest], 0), None);
    assert_eq!(weapon_cost(&w), 19);
    let mut w = CustomWeapon::default();
    assert_eq!(weapon_designer_frame(&mut w, &[A::IncDamage, A::CompileAndTest], 0), Some(AppState::BattleArena));
}

#[test]
fn last_screen_request_wins() {
    let mut w = CustomWeapon::default();
    assert_eq!(weapon_designer_frame(&mut w, &[A::Back, A::CompileAndTest], 0), Some(AppState::BattleArena));
    assert_eq!(weapon_designer_frame(&mut w, &[A::CompileAndTest, A::Back], 0), Some(AppState::TitleScreen));
}

#[test]
fn names_drawn_from_seed() {
    assert_eq!(weapon_name_from_seed(0), "KERNEL_BLASTER");
    assert_eq!(weapon_name_from_seed(16), "SYS_DESTROYER");
    assert_eq!(weapon_name_from_seed(44), "HOST_CO-PROCESSOR");
    let mut w = CustomWeapon::default();
    weapon_designer_frame(&mut w, &[A::RandomName], 16);
    assert_eq!(w.name, "SYS_DESTROYER");
}

#[test]
fn default_name_is_replaced_on_opening() {
    let mut w = CustomWeapon::default();
    w.refresh_default_name(16);
    assert_eq!(w.name, "SYS_DESTROYER");
    w.refresh_default_name(0);
    assert_eq!(w.name, "SYS_DESTROYER");
}

#[test]
fn bullet_colours() {
    assert_eq!(get_bullet_color(0), BulletColor::Cyan);
    assert_eq!(get_bullet_color(1), BulletColor::Pink);
    assert_eq!(get_bullet_color(2), BulletColor::Yellow);
    assert_eq!(get_bullet_color(3), BulletColor::Green);
    assert_eq!(get_bullet_color(9), BulletColor::White);
    assert_eq!(get_bullet_color_name(0), "CYAN");
    assert_eq!(get_bullet_color_name(3), "GREEN");
    assert_eq!(get_bullet_color_name(4), "WHITE");
}

#[test]
fn budget_line() {
    assert_eq!(budget_label(19), "CPU CYCLE BUDGET: 19 / 20");
    assert_eq!(budget_label(33), "CPU CYCLE BUDGET: 33 / 20");
}

#[test]
fn stats_stay_in_range_under_any_presses() {
    let all = [
        A::IncDamage, A::DecDamage, A::IncCooldown, A::DecCooldown, A::IncSpeed, A::DecSpeed, A::IncMultishot,
        A::DecMultishot, A::ChangeColor, A::RandomName, A::CompileAndTest, A::Back,
    ];
    let mut w = CustomWeapon::default();
    for round in 0..50usize {
        let presses: Vec<A> = (0..7).map(|k| all[(round * 7 + k * 5) % all.len()]).collect();
        weapon_designer_frame(&mut w, &presses, round as u128);
        assert!((1..=10).contains(&w.damage_stat));
        assert!((1..=10).contains(&w.cooldown_stat));
        assert!((1..=10).contains(&w.speed_stat));
        assert!((1..=5).contains(&w.multishot_stat));
        assert!(w.color_idx < 4);
    }
}

#[test]
fn frame_screens_follow_the_presses() {
    let mut w = CustomWeapon::default();
    assert_eq!(weapon_designer_frame(&mut w, &[A::IncSpeed, A::CompileAndTest, A::DecSpeed], 0), Some(AppState::BattleArena));
    let mut w = CustomWeapon::default();
    let before = stats(&w);
    assert_eq!(weapon_designer_frame(&mut w, &[], 0), None);
    assert_eq!(stats(&w), before);
    assert_eq!(w.name, "KERNEL_BLASTER");
    assert_eq!(weapon_designer_frame(&mut w, &[A::IncDamage, A::DecDamage], 0), None);
}

#[test]
fn colour_index_at_its_limit_without_colour_press() {
    let mut w = CustomWeapon::default();
    w.color_idx = u32::MAX;
    assert_eq!(weapon_designer_frame(&mut w, &[A::IncDamage], 0), None);
    assert_eq!(w.color_idx, u32::MAX);
    assert_eq!(w.damage_stat, 4);
}
