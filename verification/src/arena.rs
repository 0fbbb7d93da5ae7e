use vstd::prelude::*;
use crate::text::{decimal, dec_spec};

verus! {

/// The counters of a battle arena run: score, current wave, the player's
/// system integrity (0 to 10) and the best score so far.
#[derive(Debug, Clone, Copy, PartialEq, Eq, Structural)]
pub struct BattleArenaState {
    pub score: u32,
    pub wave: u32,
    pub health: u32,
    pub high_score: u32,
}

/// The system integrity that a run starts with, and that recovery never exceeds.
pub open spec fn max_integrity() -> u32 {
    10
}

impl BattleArenaState {
    /// A fresh run: no score, wave 1, full integrity, and the stored best score.
    pub fn new(high_score: u32) -> (s: Self)
        ensures
            s == (BattleArenaState { score: 0, wave: 1, health: 10, high_score }),
    {
        BattleArenaState { score: 0, wave: 1, health: 10, high_score }
    }
}

/// The kinds of arena enemies.
#[derive(Debug, Clone, Copy, PartialEq, Eq, Structural)]
pub enum EnemyType {
    Walker,
    Shooter,
    Charger,
}

/// The power-ups that destroyed enemies may drop.
#[derive(Debug, Clone, Copy, PartialEq, Eq, Structural)]
pub enum PowerUpType {
    HealthRecovery,
    OverclockBoost,
    GlitchShield,
}

/// An enemy to spawn: its kind, its side, and its health.
#[derive(Debug, Clone, Copy, PartialEq, Eq, Structural)]
pub struct EnemySpawn {
    pub enemy_type: EnemyType,
    pub from_left: bool,
    pub health: i32,
}

/// The enemy that `seed` (nanoseconds of the clock) spawns in wave `wave`:
/// on the left for an even seed; a walker for a roll `(seed / 100) % 100`
/// below 60, a shooter below 85, else a charger; walkers have `1 + wave / 2`
/// health, shooters `1 + wave / 3`, chargers `2 + wave / 2`.
pub open spec fn spawn_spec(seed: u128, wave: u32) -> EnemySpawn {
    let roll = (seed / 100) % 100;
    let enemy_type = if roll < 60 {
        EnemyType::Walker
    } else if roll < 85 {
        EnemyType::Shooter
    } else {
        EnemyType::Charger
    };
    let health = match enemy_type {
        EnemyType::Walker => 1 + wave / 2,
        EnemyType::Shooter => 1 + wave / 3,
        EnemyType::Charger => 2 + wave / 2,
    };
    EnemySpawn { enemy_type, from_left: seed % 2 == 0, health: health as i32 }
}

/// The enemy that `seed` spawns in wave `wave`.
pub fn spawn_enemy(seed: u128, wave: u32) -> (e: EnemySpawn)
    requires
        wave <= i32::MAX,
    ensures
        e == spawn_spec(seed, wave),
{
    let roll = (seed / 100) % 100;
    let w = wave as i32;
    if roll < 60 {
        EnemySpawn { enemy_type: EnemyType::Walker, from_left: seed % 2 == 0, health: 1 + w / 2 }
    } else if roll < 85 {
        EnemySpawn { enemy_type: EnemyType::Shooter, from_left: seed % 2 == 0, health: 1 + w / 3 }
    } else {
        EnemySpawn { enemy_type: EnemyType::Charger, from_left: seed % 2 == 0, health: 2 + w / 2 }
    }
}

/// The enemy a clock reading spawns depends on its last four digits alone:
/// the same reading modulo 10000 spawns the same enemy, on the same side.
/// The kind is read from the hundreds and thousands digits `r = (seed / 100) %
/// 100`: a walker for `r < 60`, a shooter for `60 <= r < 85`, a charger for
/// `r >= 85`; every enemy has at least one point of health.
pub proof fn lemma_spawn_from_last_digits(seed: u128, wave: u32)
    ensures
        spawn_spec(seed, wave) == spawn_spec(seed % 10000, wave),
        spawn_spec(seed, wave).enemy_type == EnemyType::Walker <==> (seed / 100) % 100 < 60,
        spawn_spec(seed, wave).enemy_type == EnemyType::Shooter <==> 60 <= (seed / 100) % 100 < 85,
        spawn_spec(seed, wave).enemy_type == EnemyType::Charger <==> 85 <= (seed / 100) % 100,
        spawn_spec(seed, wave).from_left <==> seed % 2 == 0,
        wave <= i32::MAX ==> spawn_spec(seed, wave).health >= 1,
{
    let x = seed as int;
    let a = x / 100;
    let low = x % 10000;
    assert(x == 100 * a + x % 100 && 0 <= x % 100 < 100) by {
        vstd::arithmetic::div_mod::lemma_fundamental_div_mod(x, 100);
    }
    assert(a == 100 * (a / 100) + a % 100 && 0 <= a % 100 < 100) by {
        vstd::arithmetic::div_mod::lemma_fundamental_div_mod(a, 100);
    }
    vstd::arithmetic::div_mod::lemma_fundamental_div_mod_converse(
        x,
        10000,
        a / 100,
        100 * (a % 100) + x % 100,
    );
    vstd::arithmetic::div_mod::lemma_fundamental_div_mod_converse(low, 100, a % 100, x % 100);
    assert((seed % 10000) as int == low);
    assert(((seed % 10000) / 100) as int == a % 100);
    assert(((seed % 10000) / 100) % 100 == (seed / 100) % 100) by {
        vstd::arithmetic::div_mod::lemma_small_mod((a % 100) as nat, 100);
    }
    assert((seed % 10000) % 2 == seed % 2) by {
        vstd::arithmetic::div_mod::lemma_mod_mod(x, 2, 5000);
    }
}

/// The power-up that a destroyed enemy drops, drawn from `seed`: one time in
/// four (`seed % 100 < 25`), of the kind `(seed / 7) % 3` selects.
pub open spec fn powerup_drop_spec(seed: u128) -> Option<PowerUpType> {
    if seed % 100 < 25 {
        let k = (seed / 7) % 3;
        Some(
            if k == 0 {
                PowerUpType::HealthRecovery
            } else if k == 1 {
                PowerUpType::OverclockBoost
            } else {
                PowerUpType::GlitchShield
            },
        )
    } else {
        None
    }
}

/// The power-up that a destroyed enemy drops, drawn from `seed`.
pub fn powerup_drop(seed: u128) -> (p: Option<PowerUpType>)
    ensures
        p == powerup_drop_spec(seed),
{
    if seed % 100 < 25 {
        let k = (seed / 7) % 3;
        if k == 0 {
            Some(PowerUpType::HealthRecovery)
        } else if k == 1 {
            Some(PowerUpType::OverclockBoost)
        } else {
            Some(PowerUpType::GlitchShield)
        }
    } else {
        None
    }
}

/// How hard the camera shakes after an event: lightly after a kill, heavily
/// after the player is hurt.
#[derive(Debug, Clone, Copy, PartialEq, Eq, Structural)]
pub enum Shake {
    Light,
    Heavy,
}

/// The player's defences in one frame.
#[derive(Debug, Clone, Copy, PartialEq, Eq, Structural)]
pub struct PlayerGuard {
    /// A dash is running.
    pub dashing: bool,
    /// A smash-down is running.
    pub smashing: bool,
    /// The glitch shield power-up is running.
    pub shielded: bool,
    /// The player is still recovering from the last hit.
    pub recovering: bool,
}

impl PlayerGuard {
    pub open spec fn attacking(self) -> bool {
        self.dashing || self.smashing
    }
}

/// An enemy that touches the player this frame: its health, and the clock
/// reading that decides its drop should it be destroyed.
#[derive(Debug, Clone, Copy, PartialEq, Eq, Structural)]
pub struct EnemyContact {
    pub health: i32,
    pub drop_seed: u128,
}

/// What became of an enemy that touched the player.
#[derive(Debug, Clone, Copy, PartialEq, Eq, Structural)]
pub enum EnemyFate {
    /// Hit by the player's attack; it keeps this much health.
    Damaged(i32),
    /// Destroyed by the player's attack, dropping this power-up if any.
    Destroyed(Option<PowerUpType>),
    /// Crashed into the player, hurting them, and is gone.
    Crashed,
    /// Nothing happened: the player was shielded or still recovering.
    Untouched,
}

/// The state that a frame's hits change.
pub struct CombatView {
    pub score: int,
    pub health: int,
    pub ram: int,
    pub recovering: bool,
    pub hurt: bool,
    pub shake: Option<Shake>,
    pub game_over: bool,
}

/// One hit on the player: one point of integrity and of RAM lost (never below
/// zero), recovery starts, a heavy shake, and the game is over if the
/// integrity reaches zero.
pub open spec fn hurt_spec(s: CombatView) -> CombatView {
    let health = if s.health > 0 { s.health - 1 } else { 0 };
    CombatView {
        health,
        ram: if s.ram > 0 { s.ram - 1 } else { 0 },
        recovering: true,
        hurt: true,
        shake: Some(Shake::Heavy),
        game_over: s.game_over || health == 0,
        ..s
    }
}

/// The damage of the player's attack: 3 for a smash-down, else 1.
pub open spec fn attack_damage(g: PlayerGuard) -> int {
    if g.smashing { 3 } else { 1 }
}

/// One enemy touching the player. An attacking player damages it, and
/// destroys it at zero health for `10 * wave` points and a light shake. A
/// player who does not attack is hurt, and the enemy crashes, unless the
/// player is shielded or still recovering.
pub open spec fn contact_spec(s: CombatView, g: PlayerGuard, wave: int, c: EnemyContact) -> (CombatView, EnemyFate) {
    if g.attacking() {
        let hp = c.health - attack_damage(g);
        if hp <= 0 {
            (
                CombatView { score: s.score + 10 * wave, shake: Some(Shake::Light), ..s },
                EnemyFate::Destroyed(powerup_drop_spec(c.drop_seed)),
            )
        } else {
            (s, EnemyFate::Damaged(hp as i32))
        }
    } else if !g.shielded && !s.recovering {
        (hurt_spec(s), EnemyFate::Crashed)
    } else {
        (s, EnemyFate::Untouched)
    }
}

/// The enemies touching the player, taken in order.
pub open spec fn contacts_spec(s: CombatView, g: PlayerGuard, wave: int, cs: Seq<EnemyContact>) -> (
    CombatView,
    Seq<EnemyFate>,
)
    decreases cs.len(),
{
    if cs.len() == 0 {
        (s, seq![])
    } else {
        let before = contacts_spec(s, g, wave, cs.drop_last());
        let after = contact_spec(before.0, g, wave, cs.last());
        (after.0, before.1.push(after.1))
    }
}

/// `n` projectiles reaching the player: each hurts, unless the player was
/// attacking, shielded or recovering as the frame began.
pub open spec fn projectiles_spec(s: CombatView, n: nat, invulnerable: bool) -> CombatView
    decreases n,
{
    if n == 0 || invulnerable {
        s
    } else {
        hurt_spec(projectiles_spec(s, (n - 1) as nat, invulnerable))
    }
}

/// The number of touching enemies that the player's attack destroys.
pub open spec fn kills_spec(g: PlayerGuard, cs: Seq<EnemyContact>) -> nat
    decreases cs.len(),
{
    if cs.len() == 0 {
        0
    } else {
        kills_spec(g, cs.drop_last()) + if g.attacking() && cs.last().health - attack_damage(g) <= 0 {
            1nat
        } else {
            0nat
        }
    }
}

/// The state a frame starts from.
pub open spec fn combat_start(arena: BattleArenaState, g: PlayerGuard, ram: u32) -> CombatView {
    CombatView {
        score: arena.score as int,
        health: arena.health as int,
        ram: ram as int,
        recovering: g.recovering,
        hurt: false,
        shake: None,
        game_over: false,
    }
}

/// A frame of arena collisions: first the enemies touching the player, in
/// order, then the projectiles reaching them.
pub open spec fn collisions_spec(
    arena: BattleArenaState,
    g: PlayerGuard,
    ram: u32,
    cs: Seq<EnemyContact>,
    projectiles: nat,
) -> (CombatView, Seq<EnemyFate>) {
    let melee = contacts_spec(combat_start(arena, g, ram), g, arena.wave as int, cs);
    let invulnerable = g.attacking() || g.shielded || g.recovering;
    (projectiles_spec(melee.0, projectiles, invulnerable), melee.1)
}

/// The best score after a run reached `score`: the score if it beats the best,
/// else the best.
pub open spec fn best_score_spec(best: int, score: int) -> int {
    if score > best {
        score
    } else {
        best
    }
}

/// What a frame of collisions did besides the arena counters.
pub struct CollisionReport {
    /// The fate of each touching enemy, in order.
    pub fates: Vec<EnemyFate>,
    /// The player's RAM afterwards.
    pub ram: u32,
    /// The player was hurt: recovery restarts.
    pub player_hurt: bool,
    /// The last shake asked for, if any.
    pub shake: Option<Shake>,
    /// Integrity reached zero after a hit: the run ends.
    pub game_over: bool,
    /// The score beat the best score, which must be stored.
    pub new_high_score: bool,
}

proof fn lemma_kills_prefix(g: PlayerGuard, cs: Seq<EnemyContact>, i: int)
    requires
        0 <= i <= cs.len(),
    ensures
        kills_spec(g, cs.take(i)) <= kills_spec(g, cs),
    decreases cs.len() - i,
{
    if i < cs.len() {
        lemma_kills_prefix(g, cs, i + 1);
        assert(cs.take(i + 1).drop_last() =~= cs.take(i));
    } else {
        assert(cs.take(i) =~= cs);
    }
}

proof fn lemma_contacts_score(s: CombatView, g: PlayerGuard, wave: int, cs: Seq<EnemyContact>)
    requires
        wave >= 0,
    ensures
        contacts_spec(s, g, wave, cs).0.score == s.score + 10 * wave * kills_spec(g, cs),
        contacts_spec(s, g, wave, cs).1.len() == cs.len(),
    decreases cs.len(),
{
    if cs.len() > 0 {
        lemma_contacts_score(s, g, wave, cs.drop_last());
        let k0 = kills_spec(g, cs.drop_last());
        let k = kills_spec(g, cs);
        if k == k0 + 1 {
            assert(10 * wave * k == 10 * wave * k0 + 10 * wave) by (nonlinear_arith)
                requires
                    k == k0 + 1,
            ;
        }
    } else {
        assert(10 * wave * 0 == 0);
    }
}

fn hurt(s_health: &mut u32, s_ram: &mut u32)
    ensures
        *final(s_health) == if *old(s_health) > 0 { *old(s_health) - 1 } else { 0 },
        *final(s_ram) == if *old(s_ram) > 0 { *old(s_ram) - 1 } else { 0 },
{
    if *s_health > 0 {
        *s_health = *s_health - 1;
    }
    *s_ram = s_ram.saturating_sub(1);
}

/// One frame of arena collisions: `enemies` are the enemies within reach of
/// the player, `projectiles` the number of enemy projectiles within reach
/// (each of which is consumed). Updates score, integrity and best score.
pub fn resolve_arena_collisions(
    arena: &mut BattleArenaState,
    guard: PlayerGuard,
    ram_before: u32,
    enemies: &[EnemyContact],
    projectiles: usize,
) -> (report: CollisionReport)
    requires
        forall|i: int| 0 <= i < enemies@.len() ==> #[trigger] enemies@[i].health > i32::MIN + 3,
        old(arena).score + 10 * old(arena).wave * kills_spec(guard, enemies@) <= u32::MAX,
    ensures
        ({
            let (v, fates) = collisions_spec(*old(arena), guard, ram_before, enemies@, projectiles as nat);
            &&& report.fates@ == fates
            &&& final(arena).score == v.score
            &&& final(arena).health == v.health
            &&& report.ram == v.ram
            &&& report.player_hurt == v.hurt
            &&& report.shake == v.shake
            &&& report.game_over == v.game_over
            &&& final(arena).wave == old(arena).wave
            &&& report.new_high_score == (v.score > old(arena).high_score)
            &&& final(arena).high_score == best_score_spec(old(arena).high_score as int, v.score)
        }),
{
    let ghost start = combat_start(*arena, guard, ram_before);
    let ghost wave = arena.wave as int;
    let attacking = guard.dashing || guard.smashing;
    let mut score = arena.score;
    let mut health = arena.health;
    let mut ram = ram_before;
    let mut recovering = guard.recovering;
    let mut hurt_any = false;
    let mut shake: Option<Shake> = None;
    let mut game_over = false;
    let mut fates: Vec<EnemyFate> = Vec::new();
    let mut i: usize = 0;
    proof {
        lemma_kills_prefix(guard, enemies@, 0);
        assert(enemies@.take(0) =~= Seq::<EnemyContact>::empty());
    }
    while i < enemies.len()
        invariant
            i <= enemies@.len(),
            attacking == guard.attacking(),
            wave == arena.wave,
            forall|k: int| 0 <= k < enemies@.len() ==> #[trigger] enemies@[k].health > i32::MIN + 3,
            arena.score + 10 * arena.wave * kills_spec(guard, enemies@) <= u32::MAX,
            start.score == arena.score,
            contacts_spec(start, guard, wave, enemies@.take(i as int)).0 == (CombatView {
                score: score as int,
                health: health as int,
                ram: ram as int,
                recovering,
                hurt: hurt_any,
                shake,
                game_over,
            }),
            fates@ == contacts_spec(start, guard, wave, enemies@.take(i as int)).1,
        decreases enemies@.len() - i,
    {
        let c = enemies[i];
        proof {
            assert(enemies@.take(i + 1).drop_last() =~= enemies@.take(i as int));
            assert(enemies@.take(i + 1).last() == c);
            lemma_kills_prefix(guard, enemies@, i + 1);
            lemma_contacts_score(start, guard, wave, enemies@.take(i + 1));
            let ka = kills_spec(guard, enemies@.take(i + 1));
            let kb = kills_spec(guard, enemies@);
            assert(10 * wave * ka <= 10 * wave * kb) by (nonlinear_arith)
                requires
                    ka <= kb,
                    wave >= 0,
            ;
        }
        if attacking {
            let damage: i32 = if guard.smashing { 3 } else { 1 };
            let hp = c.health - damage;
            if hp <= 0 {
                score = score + 10 * arena.wave;
                shake = Some(Shake::Light);
                fates.push(EnemyFate::Destroyed(powerup_drop(c.drop_seed)));
            } else {
                fates.push(EnemyFate::Damaged(hp));
            }
        } else if !guard.shielded && !recovering {
            hurt(&mut health, &mut ram);
            recovering = true;
            hurt_any = true;
            shake = Some(Shake::Heavy);
            game_over = game_over || health == 0;
            fates.push(EnemyFate::Crashed);
        } else {
            fates.push(EnemyFate::Untouched);
        }
        i = i + 1;
    }
    assert(enemies@.take(enemies@.len() as int) =~= enemies@);
    let ghost melee = contacts_spec(start, guard, wave, enemies@).0;
    let invulnerable = attacking || guard.shielded || guard.recovering;
    let mut j: usize = 0;
    while j < projectiles
        invariant
            j <= projectiles,
            projectiles_spec(melee, j as nat, invulnerable) == (CombatView {
                score: score as int,
                health: health as int,
                ram: ram as int,
                recovering,
                hurt: hurt_any,
                shake,
                game_over,
            }),
        decreases projectiles - j,
    {
        if !invulnerable {
            hurt(&mut health, &mut ram);
            recovering = true;
            hurt_any = true;
            shake = Some(Shake::Heavy);
            game_over = game_over || health == 0;
        }
        j = j + 1;
    }
    arena.score = score;
    arena.health = health;
    let mut new_high_score = false;
    if arena.score > arena.high_score {
        arena.high_score = arena.score;
        new_high_score = true;
    }
    CollisionReport { fates, ram, player_hurt: hurt_any, shake, game_over, new_high_score }
}


/// The integrity a hit leaves: one point less, never below zero.
pub fn hurt_player(arena: &mut BattleArenaState, ram: u32) -> (r: (u32, bool))
    ensures
        final(arena).health == if old(arena).health > 0 { old(arena).health - 1 } else { 0 },
        final(arena).score == old(arena).score,
        final(arena).wave == old(arena).wave,
        final(arena).high_score == old(arena).high_score,
        r.0 == if ram > 0 { ram - 1 } else { 0 },
        r.1 == (final(arena).health == 0),
{
    let mut health = arena.health;
    let mut ram = ram;
    hurt(&mut health, &mut ram);
    arena.health = health;
    (ram, health == 0)
}

/// The hazard laser crossing the player: a hit, unless the player is dashing,
/// smashing down or still recovering (the glitch shield does not stop the
/// laser). Gives the RAM left and whether the run is over, if it hit.
pub fn laser_hit(arena: &mut BattleArenaState, guard: PlayerGuard, ram: u32) -> (r: Option<(u32, bool)>)
    ensures
        guard.dashing || guard.smashing || guard.recovering ==> r is None && *final(arena) == *old(arena),
        !(guard.dashing || guard.smashing || guard.recovering) ==> {
            &&& final(arena).health == if old(arena).health > 0 { old(arena).health - 1 } else { 0 }
            &&& final(arena).score == old(arena).score
            &&& final(arena).wave == old(arena).wave
            &&& final(arena).high_score == old(arena).high_score
            &&& r == Some(((if ram > 0 { ram - 1 } else { 0 }) as u32, final(arena).health == 0))
        },
{
    if guard.dashing || guard.smashing || guard.recovering {
        None
    } else {
        Some(hurt_player(arena, ram))
    }
}

/// A health recovery power-up: two points of integrity, up to 10, and two of
/// RAM, up to `ram_max`. Gives the new RAM.
pub fn recover_health(arena: &mut BattleArenaState, ram: u32, ram_max: u32) -> (new_ram: u32)
    requires
        old(arena).health <= u32::MAX - 2,
        ram <= u32::MAX - 2,
    ensures
        final(arena).health == if old(arena).health + 2 < max_integrity() {
            old(arena).health + 2
        } else {
            max_integrity() as int
        },
        final(arena).score == old(arena).score,
        final(arena).wave == old(arena).wave,
        final(arena).high_score == old(arena).high_score,
        new_ram == if ram + 2 < ram_max { ram + 2 } else { ram_max as int },
{
    let h = arena.health + 2;
    arena.health = if h < 10 { h } else { 10 };
    let r = ram + 2;
    if r < ram_max { r } else { ram_max }
}

/// The colours of glitch particles.
#[derive(Debug, Clone, Copy, PartialEq, Eq, Structural)]
pub enum ParticleColor {
    Cyan,
    Pink,
    Lime,
    Yellow,
}

/// The launch parameters of one glitch particle: direction in degrees, speed
/// beyond the base 100 px/s is already added, lifetime in tenths of a second.
#[derive(Debug, Clone, Copy, PartialEq, Eq, Structural)]
pub struct ParticleLaunch {
    pub angle_deg: u32,
    pub speed: u32,
    pub life_tenths: u32,
    pub color: ParticleColor,
}

/// One step of the particle generator: `s * 1103515245 + 12345`, wrapping.
pub open spec fn lcg_next(s: u128) -> u128 {
    s.wrapping_mul(1103515245).wrapping_add(12345)
}

/// The generator state after `n` steps from `seed`.
pub open spec fn lcg_iter(seed: u128, n: nat) -> u128
    decreases n,
{
    if n == 0 {
        seed
    } else {
        lcg_next(lcg_iter(seed, (n - 1) as nat))
    }
}

/// The colour a generator state picks: `state % 4`.
pub open spec fn particle_color_spec(s: u128) -> ParticleColor {
    let k = s % 4;
    if k == 0 {
        ParticleColor::Cyan
    } else if k == 1 {
        ParticleColor::Pink
    } else if k == 2 {
        ParticleColor::Lime
    } else {
        ParticleColor::Yellow
    }
}

/// Particle `i` of a burst from `seed`: three generator steps each, for the
/// angle (`% 360`), the speed (`100 + % 150`), then lifetime (`3 + % 4`
/// tenths) and colour.
pub open spec fn particle_spec(seed: u128, i: nat) -> ParticleLaunch {
    let s1 = lcg_iter(seed, 3 * i + 1);
    let s2 = lcg_iter(seed, 3 * i + 2);
    let s3 = lcg_iter(seed, 3 * i + 3);
    ParticleLaunch {
        angle_deg: (s1 % 360) as u32,
        speed: (100 + s2 % 150) as u32,
        life_tenths: (3 + s3 % 4) as u32,
        color: particle_color_spec(s3),
    }
}

/// A burst of `count` glitch particles from the clock reading `seed`.
pub fn glitch_particles(seed: u128, count: usize) -> (ps: Vec<ParticleLaunch>)
    ensures
        ps@.len() == count,
        forall|i: int| 0 <= i < count ==> #[trigger] ps@[i] == particle_spec(seed, i as nat),
{
    let mut s = seed;
    let mut ps: Vec<ParticleLaunch> = Vec::new();
    let mut i: usize = 0;
    while i < count
        invariant
            i <= count,
            ps@.len() == i,
            s == lcg_iter(seed, (3 * i) as nat),
            forall|k: int| 0 <= k < i ==> #[trigger] ps@[k] == particle_spec(seed, k as nat),
        decreases count - i,
    {
        s = s.wrapping_mul(1103515245).wrapping_add(12345);
        let angle = (s % 360) as u32;
        s = s.wrapping_mul(1103515245).wrapping_add(12345);
        let speed = (100 + s % 150) as u32;
        s = s.wrapping_mul(1103515245).wrapping_add(12345);
        let life = (3 + s % 4) as u32;
        let k = s % 4;
        let color = if k == 0 {
            ParticleColor::Cyan
        } else if k == 1 {
            ParticleColor::Pink
        } else if k == 2 {
            ParticleColor::Lime
        } else {
            ParticleColor::Yellow
        };
        ps.push(ParticleLaunch { angle_deg: angle, speed, life_tenths: life, color });
        proof {
            assert(lcg_iter(seed, (3 * i + 1) as nat) == lcg_next(lcg_iter(seed, (3 * i) as nat)));
            assert(lcg_iter(seed, (3 * i + 2) as nat) == lcg_next(lcg_iter(seed, (3 * i + 1) as nat)));
            assert(lcg_iter(seed, (3 * i + 3) as nat) == lcg_next(lcg_iter(seed, (3 * i + 2) as nat)));
        }
        i = i + 1;
    }
    ps
}

/// The score line: `SCORE: {score} (HI: {best}) | WAVE {wave}`.
pub open spec fn score_label_spec(a: BattleArenaState) -> Seq<char> {
    "SCORE: "@ + dec_spec(a.score as nat) + " (HI: "@ + dec_spec(a.high_score as nat) + ") | WAVE "@
        + dec_spec(a.wave as nat)
}

/// The score line of the arena display.
pub fn score_label(a: &BattleArenaState) -> (s: String)
    ensures
        s@ == score_label_spec(*a),
{
    let mut s = String::from_str("SCORE: ");
    s.append(decimal(a.score).as_str());
    s.append(" (HI: ");
    s.append(decimal(a.high_score).as_str());
    s.append(") | WAVE ");
    s.append(decimal(a.wave).as_str());
    s
}

/// The integrity line of the arena display: `SYSTEM INTEGRITY: {health}/10`.
pub fn integrity_label(a: &BattleArenaState) -> (s: String)
    ensures
        s@ == "SYSTEM INTEGRITY: "@ + dec_spec(a.health as nat) + "/10"@,
{
    let mut s = String::from_str("SYSTEM INTEGRITY: ");
    s.append(decimal(a.health).as_str());
    s.append("/10");
    s
}

/// A frame's state is consistent when the game is over exactly if the player
/// was hurt and has no integrity left.
pub open spec fn consistent(s: CombatView) -> bool {
    s.game_over == (s.hurt && s.health == 0)
}

proof fn lemma_contacts_steps(s: CombatView, g: PlayerGuard, wave: int, cs: Seq<EnemyContact>)
    requires
        consistent(s),
        s.health >= 0,
        wave >= 0,
    ensures
        ({
            let r = contacts_spec(s, g, wave, cs).0;
            &&& consistent(r)
            &&& 0 <= r.health <= s.health
            &&& r.score >= s.score
            &&& s.hurt ==> r.hurt
            &&& (g.shielded || g.attacking() || s.recovering) ==> r.health == s.health && r.hurt == s.hurt
                && r.ram == s.ram && r.recovering == s.recovering
        }),
    decreases cs.len(),
{
    if cs.len() > 0 {
        lemma_contacts_steps(s, g, wave, cs.drop_last());
    }
}

proof fn lemma_projectile_steps(s: CombatView, n: nat, invulnerable: bool)
    requires
        consistent(s),
        s.health >= 0,
    ensures
        ({
            let r = projectiles_spec(s, n, invulnerable);
            &&& consistent(r)
            &&& 0 <= r.health <= s.health
            &&& r.score == s.score
            &&& s.hurt ==> r.hurt
            &&& invulnerable ==> r == s
        }),
    decreases n,
{
    if n > 0 && !invulnerable {
        lemma_projectile_steps(s, (n - 1) as nat, invulnerable);
    }
}

/// Collisions never raise the player's integrity, and never take it below
/// zero: a run that starts at or below 10 stays at or below 10.
pub proof fn lemma_integrity_never_rises(
    arena: BattleArenaState,
    g: PlayerGuard,
    ram: u32,
    cs: Seq<EnemyContact>,
    projectiles: nat,
)
    ensures
        0 <= collisions_spec(arena, g, ram, cs, projectiles).0.health <= arena.health,
{
    let s = combat_start(arena, g, ram);
    lemma_contacts_steps(s, g, arena.wave as int, cs);
    let m = contacts_spec(s, g, arena.wave as int, cs).0;
    lemma_projectile_steps(m, projectiles, g.attacking() || g.shielded || g.recovering);
}

/// A frame ends the run exactly when the player was hurt in it and has no
/// integrity left.
pub proof fn lemma_game_over_exactly_at_zero(
    arena: BattleArenaState,
    g: PlayerGuard,
    ram: u32,
    cs: Seq<EnemyContact>,
    projectiles: nat,
)
    ensures
        ({
            let v = collisions_spec(arena, g, ram, cs, projectiles).0;
            v.game_over == (v.hurt && v.health == 0)
        }),
{
    let s = combat_start(arena, g, ram);
    lemma_contacts_steps(s, g, arena.wave as int, cs);
    let m = contacts_spec(s, g, arena.wave as int, cs).0;
    lemma_projectile_steps(m, projectiles, g.attacking() || g.shielded || g.recovering);
}

/// A player who attacks (dash or smash-down), holds the glitch shield or is
/// still recovering from the last hit takes no damage from enemies or
/// projectiles: integrity and RAM are unchanged and the run goes on.
pub proof fn lemma_guard_protects(
    arena: BattleArenaState,
    g: PlayerGuard,
    ram: u32,
    cs: Seq<EnemyContact>,
    projectiles: nat,
)
    requires
        g.shielded || g.attacking() || g.recovering,
    ensures
        ({
            let v = collisions_spec(arena, g, ram, cs, projectiles).0;
            &&& v.health == arena.health
            &&& !v.hurt
            &&& !v.game_over
            &&& v.ram == ram
        }),
{
    let s = combat_start(arena, g, ram);
    lemma_contacts_steps(s, g, arena.wave as int, cs);
    let m = contacts_spec(s, g, arena.wave as int, cs).0;
    lemma_projectile_steps(m, projectiles, g.attacking() || g.shielded || g.recovering);
}


proof fn lemma_attack_fates(s: CombatView, g: PlayerGuard, wave: int, cs: Seq<EnemyContact>)
    requires
        g.attacking(),
    ensures
        ({
            let r = contacts_spec(s, g, wave, cs);
            &&& r.1.len() == cs.len()
            &&& forall|i: int|
                0 <= i < cs.len() ==> #[trigger] r.1[i] == (if cs[i].health - attack_damage(g) <= 0 {
                    EnemyFate::Destroyed(powerup_drop_spec(cs[i].drop_seed))
                } else {
                    EnemyFate::Damaged((cs[i].health - attack_damage(g)) as i32)
                })
            &&& (forall|i: int| 0 <= i < cs.len() ==> #[trigger] cs[i].health - attack_damage(g) > 0) ==> r.0
                == s
        }),
    decreases cs.len(),
{
    if cs.len() > 0 {
        let init = cs.drop_last();
        lemma_attack_fates(s, g, wave, init);
        let r = contacts_spec(s, g, wave, cs);
        assert forall|i: int| 0 <= i < cs.len() implies #[trigger] r.1[i] == (if cs[i].health - attack_damage(g)
            <= 0 {
            EnemyFate::Destroyed(powerup_drop_spec(cs[i].drop_seed))
        } else {
            EnemyFate::Damaged((cs[i].health - attack_damage(g)) as i32)
        }) by {
            if i < init.len() {
                assert(init[i] == cs[i]);
            }
        }
        if forall|i: int| 0 <= i < cs.len() ==> #[trigger] cs[i].health - attack_damage(g) > 0 {
            assert forall|i: int| 0 <= i < init.len() implies #[trigger] init[i].health - attack_damage(g) > 0 by {
                assert(init[i] == cs[i]);
            }
            assert(cs[cs.len() - 1].health - attack_damage(g) > 0);
        }
    }
}

/// What the player's attack does to each enemy it touches: a dash removes
/// exactly one point of health, a smash-down three. An enemy left with health
/// is damaged to that health; one left with none is destroyed. A dash that
/// destroys nothing, as on enemies of health 2 or more, scores nothing and
/// leaves integrity as it was.
pub proof fn lemma_attack_damage(
    arena: BattleArenaState,
    g: PlayerGuard,
    ram: u32,
    cs: Seq<EnemyContact>,
    projectiles: nat,
)
    requires
        g.dashing || g.smashing,
    ensures
        ({
            let r = collisions_spec(arena, g, ram, cs, projectiles);
            let hit = if g.smashing { 3int } else { 1int };
            &&& r.1.len() == cs.len()
            &&& forall|i: int|
                0 <= i < cs.len() && cs[i].health - hit > 0 ==> #[trigger] r.1[i] == EnemyFate::Damaged(
                    (cs[i].health - hit) as i32,
                )
            &&& forall|i: int| 0 <= i < cs.len() && cs[i].health - hit <= 0 ==> #[trigger] r.1[i] is Destroyed
            &&& !g.smashing && (forall|i: int| 0 <= i < cs.len() ==> #[trigger] cs[i].health >= 2) ==> {
                &&& r.0.score == arena.score
                &&& r.0.health == arena.health
                &&& r.0.shake is None
            }
        }),
{
    let s = combat_start(arena, g, ram);
    lemma_attack_fates(s, g, arena.wave as int, cs);
    lemma_contacts_steps(s, g, arena.wave as int, cs);
    let m = contacts_spec(s, g, arena.wave as int, cs).0;
    lemma_projectile_steps(m, projectiles, true);
}

/// The score of a frame grows by exactly `10 * wave` for each enemy the
/// player's attack destroys, and never falls.
pub proof fn lemma_score_counts_kills(
    arena: BattleArenaState,
    g: PlayerGuard,
    ram: u32,
    cs: Seq<EnemyContact>,
    projectiles: nat,
)
    ensures
        collisions_spec(arena, g, ram, cs, projectiles).0.score == arena.score + 10 * arena.wave
            * kills_spec(g, cs),
        collisions_spec(arena, g, ram, cs, projectiles).0.score >= arena.score,
{
    let s = combat_start(arena, g, ram);
    lemma_contacts_score(s, g, arena.wave as int, cs);
    lemma_contacts_steps(s, g, arena.wave as int, cs);
    let m = contacts_spec(s, g, arena.wave as int, cs).0;
    lemma_projectile_steps(m, projectiles, g.attacking() || g.shielded || g.recovering);
}

/// The best score is never below the score just reached, nor below the best
/// score before.
pub proof fn lemma_best_score_dominates(best: int, score: int)
    ensures
        best_score_spec(best, score) >= score,
        best_score_spec(best, score) >= best,
{
}

} // verus!
