use code_termination::arena::{
    glitch_particles, integrity_label, laser_hit, powerup_drop, recover_health, resolve_arena_collisions,
    score_label, spawn_enemy, BattleArenaState, EnemyContact, EnemyFate, EnemyType, ParticleColor,
    ParticleLaunch, PlayerGuard, PowerUpType, Shake,
};

fn guard(dashing: bool, smashing: bool, shielded: bool, recovering: bool) -> PlayerGuard {
    PlayerGuard { dashing, smashing, shielded, recovering }
}

fn contact(health: i32) -> EnemyContact {
    EnemyContact { health, drop_seed: 99 }
}

#[test]
fn fresh_run() {
    let a = BattleArenaState::new(77);
    assert_eq!(a, BattleArenaState { score: 0, wave: 1, health: 10, high_score: 77 });
}

#[test]
fn enemy_spawns() {
    let e = spawn_enemy(0, 3);
    assert_eq!((e.enemy_type, e.from_left, e.health), (EnemyType::Walker, true, 2));
    let e = spawn_enemy(6001, 3);
    assert_eq!((e.enemy_type, e.from_left, e.health), (EnemyType::Shooter, false, 2));
    let e = spawn_enemy(8500, 3);
    assert_eq!((e.enemy_type, e.from_left, e.health), (EnemyType::Charger, true, 3));
    let e = spawn_enemy(5999, 6);
    assert_eq!((e.enemy_type, e.health), (EnemyType::Walker, 4));
    let e = spawn_enemy(8499, 7);
    assert_eq!((e.enemy_type, e.health), (EnemyType::Shooter, 3));
}

#[test]
fn powerup_drops() {
    assert_eq!(powerup_drop(0), Some(PowerUpType::HealthRecovery));
    assert_eq!(powerup_drop(7), Some(PowerUpType::OverclockBoost));
    assert_eq!(powerup_drop(14), Some(PowerUpType::GlitchShield));
    assert_eq!(powerup_drop(25), None);
    assert_eq!(powerup_drop(199), None);
}

#[test]
fn dash_destroys_weak_enemy() {
    let mut a = BattleArenaState { score: 5, wave: 3, health: 10, high_score: 1000 };
    let r = resolve_arena_collisions(&mut a, guard(true, false, false, false), 4, &[EnemyContact { health: 1, drop_seed: 0 }], 0);
    assert_eq!(r.fates, vec![EnemyFate::Destroyed(Some(PowerUpType::HealthRecovery))]);
    assert_eq!(a.score, 35);
    assert_eq!(r.shake, Some(Shake::Light));
    assert!(!r.player_hurt);
    assert!(!r.new_high_score);
    assert_eq!(r.ram, 4);
}

#[test]
fn smash_damages_strong_enemy() {
    let mut a = BattleArenaState::new(0);
    let r = resolve_arena_collisions(&mut a, guard(false, true, false, false), 4, &[contact(5), contact(3)], 0);
    assert_eq!(r.fates, vec![EnemyFate::Damaged(2), EnemyFate::Destroyed(None)]);
    assert_eq!(a.score, 10);
    assert_eq!(a.high_score, 10);
    assert!(r.new_high_score);
}

#[test]
fn crash_hurts_once_per_frame() {
    let mut a = BattleArenaState::new(0);
    let r = resolve_arena_collisions(&mut a, guard(false, false, false, false), 5, &[contact(3), contact(3)], 0);
    assert_eq!(r.fates, vec![EnemyFate::Crashed, EnemyFate::Untouched]);
    assert_eq!(a.health, 9);
    assert_eq!(r.ram, 4);
    assert!(r.player_hurt);
    assert_eq!(r.shake, Some(Shake::Heavy));
    assert!(!r.game_over);
}

#[test]
fn projectiles_hurt_even_after_a_crash() {
    let mut a = BattleArenaState::new(0);
    let r = resolve_arena_collisions(&mut a, guard(false, false, false, false), 5, &[contact(3)], 2);
    assert_eq!(a.health, 7);
    assert_eq!(r.ram, 2);
}

#[test]
fn recovering_player_is_safe() {
    let mut a = BattleArenaState::new(0);
    let r = resolve_arena_collisions(&mut a, guard(false, false, false, true), 5, &[contact(3)], 3);
    assert_eq!(r.fates, vec![EnemyFate::Untouched]);
    assert_eq!(a.health, 10);
    assert_eq!(r.ram, 5);
    assert!(!r.player_hurt);
    assert_eq!(r.shake, None);
}

#[test]
fn shield_protects() {
    let mut a = BattleArenaState::new(0);
    let r = resolve_arena_collisions(&mut a, guard(false, false, true, false), 5, &[contact(3)], 3);
    assert_eq!(r.fates, vec![EnemyFate::Untouched]);
    assert_eq!(a.health, 10);
    assert!(!r.game_over);
}

#[test]
fn attacking_player_ignores_projectiles() {
    let mut a = BattleArenaState::new(0);
    let r = resolve_arena_collisions(&mut a, guard(true, false, false, false), 5, &[], 4);
    assert_eq!(a.health, 10);
    assert!(!r.player_hurt);
}

#[test]
fn last_point_ends_the_run() {
    let mut a = BattleArenaState { score: 0, wave: 1, health: 1, high_score: 0 };
    let r = resolve_arena_collisions(&mut a, guard(false, false, false, false), 0, &[], 1);
    assert_eq!(a.health, 0);
    assert_eq!(r.ram, 0);
    assert!(r.game_over);
    let r = resolve_arena_collisions(&mut a, guard(false, false, false, false), 0, &[], 1);
    assert_eq!(a.health, 0);
    assert!(r.game_over);
}

#[test]
fn best_score_follows_the_score() {
    let mut a = BattleArenaState { score: 95, wave: 1, health: 10, high_score: 100 };
    let r = resolve_arena_collisions(&mut a, guard(true, false, false, false), 0, &[contact(1)], 0);
    assert_eq!(a.score, 105);
    assert_eq!(a.high_score, 105);
    assert!(r.new_high_score);
    let r = resolve_arena_collisions(&mut a, guard(true, false, false, false), 0, &[], 0);
    assert!(!r.new_high_score);
    assert_eq!(a.high_score, 105);
}

#[test]
fn laser_hits() {
    let mut a = BattleArenaState::new(0);
    assert_eq!(laser_hit(&mut a, guard(false, false, false, true), 3), None);
    assert_eq!(a.health, 10);
    assert_eq!(laser_hit(&mut a, guard(false, false, true, false), 3), Some((2, false)));
    assert_eq!(a.health, 9);
    let mut b = BattleArenaState { score: 0, wave: 1, health: 1, high_score: 0 };
    assert_eq!(laser_hit(&mut b, guard(false, false, false, false), 0), Some((0, true)));
}

#[test]
fn health_recovery_caps() {
    let mut a = BattleArenaState { score: 0, wave: 1, health: 9, high_score: 0 };
    assert_eq!(recover_health(&mut a, 3, 4), 4);
    assert_eq!(a.health, 10);
    a.health = 5;
    assert_eq!(recover_health(&mut a, 1, 10), 3);
    assert_eq!(a.health, 7);
}

#[test]
fn particle_bursts() {
    let p = glitch_particles(0, 2);
    assert_eq!(
        p,
        vec![
            ParticleLaunch { angle_deg: 105, speed: 220, life_tenths: 6, color: ParticleColor::Yellow },
            ParticleLaunch { angle_deg: 60, speed: 227, life_tenths: 5, color: ParticleColor::Lime },
        ]
    );
    let p = glitch_particles(987654321, 3);
    assert_eq!(p[0], ParticleLaunch { angle_deg: 150, speed: 145, life_tenths: 3, color: ParticleColor::Cyan });
    assert_eq!(p[2], ParticleLaunch { angle_deg: 144, speed: 193, life_tenths: 5, color: ParticleColor::Lime });
    assert!(glitch_particles(5, 0).is_empty());
}

#[test]
fn arena_labels() {
    let a = BattleArenaState { score: 120, wave: 4, health: 7, high_score: 300 };
    assert_eq!(score_label(&a), "SCORE: 120 (HI: 300) | WAVE 4");
    assert_eq!(integrity_label(&a), "SYSTEM INTEGRITY: 7/10");
}

#[test]
fn recovering_player_ignores_projectiles() {
    let mut a = BattleArenaState::new(0);
    let r = resolve_arena_collisions(&mut a, guard(false, false, false, true), 3, &[contact(1), contact(2)], 4);
    assert_eq!(r.fates, vec![EnemyFate::Untouched, EnemyFate::Untouched]);
    assert_eq!(a.health, 10);
    assert_eq!(r.ram, 3);
    assert!(!r.game_over);
}
