use vstd::prelude::*;
use crate::resources::AppState;
use crate::text::{decimal, dec_spec};

verus! {

/// The weapon the player designs: a name and four stats bought from a budget
/// of CPU cycles, and the index of the bullet colour.
#[derive(Clone)]
pub struct CustomWeapon {
    pub name: String,
    /// 1 to 10.
    pub damage_stat: u32,
    /// 1 to 10.
    pub cooldown_stat: u32,
    /// 1 to 10.
    pub speed_stat: u32,
    /// 1 to 5 bullets.
    pub multishot_stat: u32,
    /// 0 cyan, 1 pink, 2 yellow, 3 green.
    pub color_idx: u32,
}

/// The mathematical value of a weapon.
pub struct WeaponView {
    pub name: Seq<char>,
    pub damage: u32,
    pub cooldown: u32,
    pub speed: u32,
    pub multishot: u32,
    pub color: u32,
}

impl View for CustomWeapon {
    type V = WeaponView;

    open spec fn view(&self) -> WeaponView {
        WeaponView {
            name: self.name@,
            damage: self.damage_stat,
            cooldown: self.cooldown_stat,
            speed: self.speed_stat,
            multishot: self.multishot_stat,
            color: self.color_idx,
        }
    }
}

/// The name a weapon has before the player first opens the designer.
pub open spec fn default_weapon_name() -> Seq<char> {
    "KERNEL_BLASTER"@
}

impl Default for CustomWeapon {
    fn default() -> (w: Self)
        ensures
            w@ == (WeaponView {
                name: default_weapon_name(),
                damage: 3,
                cooldown: 3,
                speed: 5,
                multishot: 1,
                color: 0,
            }),
    {
        CustomWeapon {
            name: String::from_str("KERNEL_BLASTER"),
            damage_stat: 3,
            cooldown_stat: 3,
            speed_stat: 5,
            multishot_stat: 1,
            color_idx: 0,
        }
    }
}

/// The buttons of the weapon designer screen.
#[derive(Debug, Clone, Copy, PartialEq, Eq, Structural)]
pub enum WeaponDesignerButtonAction {
    IncDamage,
    DecDamage,
    IncCooldown,
    DecCooldown,
    IncSpeed,
    DecSpeed,
    IncMultishot,
    DecMultishot,
    ChangeColor,
    RandomName,
    CompileAndTest,
    Back,
}

/// The budget of CPU cycles that a weapon may cost and still be compiled.
pub open spec fn weapon_budget() -> int {
    20
}

/// The cost of a weapon: damage, cooldown and multishot count double, speed once.
pub open spec fn weapon_cost_spec(w: WeaponView) -> int {
    w.damage * 2 + w.cooldown * 2 + w.speed + w.multishot * 2
}

/// The stats that the designer's buttons keep a weapon within.
pub open spec fn weapon_in_range(w: WeaponView) -> bool {
    &&& 1 <= w.damage <= 10
    &&& 1 <= w.cooldown <= 10
    &&& 1 <= w.speed <= 10
    &&& 1 <= w.multishot <= 5
    &&& w.color < 4
}

/// The cost of `weapon` in CPU cycles.
pub fn weapon_cost(weapon: &CustomWeapon) -> (c: u32)
    requires
        weapon_cost_spec(weapon@) <= u32::MAX,
    ensures
        c == weapon_cost_spec(weapon@),
{
    weapon.damage_stat * 2 + weapon.cooldown_stat * 2 + weapon.speed_stat + weapon.multishot_stat * 2
}

/// Whether a weapon of cost `cost` is over the budget and cannot be compiled.
pub fn over_budget(cost: u32) -> (b: bool)
    ensures
        b == (cost > weapon_budget()),
{
    cost > 20
}

/// The adjectives that weapon names start with.
pub open spec fn adjective_spec(i: int) -> Seq<char> {
    if i == 0 { "KERNEL"@ }
    else if i == 1 { "SYS"@ }
    else if i == 2 { "NULL"@ }
    else if i == 3 { "GLITCH"@ }
    else if i == 4 { "TROJAN"@ }
    else if i == 5 { "OVERCLOCKED"@ }
    else if i == 6 { "STACK"@ }
    else if i == 7 { "BINARY"@ }
    else if i == 8 { "BUFFER"@ }
    else if i == 9 { "LOGICAL"@ }
    else if i == 10 { "CYBER"@ }
    else if i == 11 { "VECTOR"@ }
    else if i == 12 { "COMPILER"@ }
    else if i == 13 { "DECRYPTED"@ }
    else { "HOST"@ }
}

/// The nouns that weapon names end with.
pub open spec fn noun_spec(i: int) -> Seq<char> {
    if i == 0 { "BLASTER"@ }
    else if i == 1 { "LAUNCHER"@ }
    else if i == 2 { "SHOTGUN"@ }
    else if i == 3 { "BEAM"@ }
    else if i == 4 { "CRUSHER"@ }
    else if i == 5 { "DESTROYER"@ }
    else if i == 6 { "CLEANER"@ }
    else if i == 7 { "COMPILER"@ }
    else if i == 8 { "DELETER"@ }
    else if i == 9 { "TERMINATOR"@ }
    else if i == 10 { "POINTER"@ }
    else if i == 11 { "DECRYPTOR"@ }
    else if i == 12 { "EXPLODER"@ }
    else if i == 13 { "RAIDER"@ }
    else { "CO-PROCESSOR"@ }
}

fn adjective(i: u128) -> (s: &'static str)
    requires
        i < 15,
    ensures
        s@ == adjective_spec(i as int),
{
    if i == 0 { "KERNEL" }
    else if i == 1 { "SYS" }
    else if i == 2 { "NULL" }
    else if i == 3 { "GLITCH" }
    else if i == 4 { "TROJAN" }
    else if i == 5 { "OVERCLOCKED" }
    else if i == 6 { "STACK" }
    else if i == 7 { "BINARY" }
    else if i == 8 { "BUFFER" }
    else if i == 9 { "LOGICAL" }
    else if i == 10 { "CYBER" }
    else if i == 11 { "VECTOR" }
    else if i == 12 { "COMPILER" }
    else if i == 13 { "DECRYPTED" }
    else { "HOST" }
}

fn noun(i: u128) -> (s: &'static str)
    requires
        i < 15,
    ensures
        s@ == noun_spec(i as int),
{
    if i == 0 { "BLASTER" }
    else if i == 1 { "LAUNCHER" }
    else if i == 2 { "SHOTGUN" }
    else if i == 3 { "BEAM" }
    else if i == 4 { "CRUSHER" }
    else if i == 5 { "DESTROYER" }
    else if i == 6 { "CLEANER" }
    else if i == 7 { "COMPILER" }
    else if i == 8 { "DELETER" }
    else if i == 9 { "TERMINATOR" }
    else if i == 10 { "POINTER" }
    else if i == 11 { "DECRYPTOR" }
    else if i == 12 { "EXPLODER" }
    else if i == 13 { "RAIDER" }
    else { "CO-PROCESSOR" }
}

/// The weapon name drawn from `seed` (nanoseconds of the clock): an adjective
/// chosen by `seed % 15`, an underscore, and a noun chosen by `(seed / 3) % 15`.
pub open spec fn weapon_name_spec(seed: u128) -> Seq<char> {
    adjective_spec((seed % 15) as int) + "_"@ + noun_spec(((seed / 3) % 15) as int)
}

/// The weapon name that `seed` draws.
pub fn weapon_name_from_seed(seed: u128) -> (name: String)
    ensures
        name@ == weapon_name_spec(seed),
{
    let mut name = String::from_str(adjective(seed % 15));
    name.append("_");
    name.append(noun((seed / 3) % 15));
    name
}

impl CustomWeapon {
    /// On opening the designer: a weapon still under its default name gets a
    /// name drawn from `seed`; any other keeps its name.
    pub fn refresh_default_name(&mut self, seed: u128)
        ensures
            final(self)@ == (WeaponView {
                name: if old(self)@.name == default_weapon_name() {
                    weapon_name_spec(seed)
                } else {
                    old(self)@.name
                },
                ..old(self)@
            }),
    {
        let default_name = String::from_str("KERNEL_BLASTER");
        if self.name == default_name {
            self.name = weapon_name_from_seed(seed);
        }
    }
}

/// A stat raised by one, up to `max`.
pub open spec fn raise(stat: u32, max: u32) -> u32 {
    if stat < max { (stat + 1) as u32 } else { stat }
}

/// A stat lowered by one, down to 1.
pub open spec fn lower(stat: u32) -> u32 {
    if stat > 1 { (stat - 1) as u32 } else { stat }
}

/// What one press of `action` does to a weapon, and the screen it asks for,
/// when the frame began with a weapon of cost `cost`; `seed` draws a new name.
pub open spec fn press_spec(w: WeaponView, action: WeaponDesignerButtonAction, cost: int, seed: u128) -> (
    WeaponView,
    Option<AppState>,
) {
    match action {
        WeaponDesignerButtonAction::IncDamage => (WeaponView { damage: raise(w.damage, 10), ..w }, None),
        WeaponDesignerButtonAction::DecDamage => (WeaponView { damage: lower(w.damage), ..w }, None),
        WeaponDesignerButtonAction::IncCooldown => (WeaponView { cooldown: raise(w.cooldown, 10), ..w }, None),
        WeaponDesignerButtonAction::DecCooldown => (WeaponView { cooldown: lower(w.cooldown), ..w }, None),
        WeaponDesignerButtonAction::IncSpeed => (WeaponView { speed: raise(w.speed, 10), ..w }, None),
        WeaponDesignerButtonAction::DecSpeed => (WeaponView { speed: lower(w.speed), ..w }, None),
        WeaponDesignerButtonAction::IncMultishot => (WeaponView { multishot: raise(w.multishot, 5), ..w }, None),
        WeaponDesignerButtonAction::DecMultishot => (WeaponView { multishot: lower(w.multishot), ..w }, None),
        WeaponDesignerButtonAction::ChangeColor => (WeaponView { color: ((w.color + 1) % 4) as u32, ..w }, None),
        WeaponDesignerButtonAction::RandomName => (WeaponView { name: weapon_name_spec(seed), ..w }, None),
        WeaponDesignerButtonAction::CompileAndTest => (
            w,
            if cost <= weapon_budget() { Some(AppState::BattleArena) } else { None },
        ),
        WeaponDesignerButtonAction::Back => (w, Some(AppState::TitleScreen)),
    }
}

/// The presses of one frame applied in order; the last press that asks for a
/// screen decides it.
pub open spec fn designer_frame_spec(
    w: WeaponView,
    presses: Seq<WeaponDesignerButtonAction>,
    cost: int,
    seed: u128,
) -> (WeaponView, Option<AppState>)
    decreases presses.len(),
{
    if presses.len() == 0 {
        (w, None)
    } else {
        let before = designer_frame_spec(w, presses.drop_last(), cost, seed);
        let after = press_spec(before.0, presses.last(), cost, seed);
        (after.0, if after.1 is Some { after.1 } else { before.1 })
    }
}

fn press(weapon: &mut CustomWeapon, action: WeaponDesignerButtonAction, cost: u32, seed: u128) -> (next: Option<AppState>)
    requires
        action == WeaponDesignerButtonAction::ChangeColor ==> old(weapon).color_idx < u32::MAX,
    ensures
        (final(weapon)@, next) == press_spec(old(weapon)@, action, cost as int, seed),
        final(weapon).color_idx < 4 || final(weapon).color_idx == old(weapon).color_idx,
{
    match action {
        WeaponDesignerButtonAction::IncDamage => {
            if weapon.damage_stat < 10 {
                weapon.damage_stat = weapon.damage_stat + 1;
            }
            None
        },
        WeaponDesignerButtonAction::DecDamage => {
            if weapon.damage_stat > 1 {
                weapon.damage_stat = weapon.damage_stat - 1;
            }
            None
        },
        WeaponDesignerButtonAction::IncCooldown => {
            if weapon.cooldown_stat < 10 {
                weapon.cooldown_stat = weapon.cooldown_stat + 1;
            }
            None
        },
        WeaponDesignerButtonAction::DecCooldown => {
            if weapon.cooldown_stat > 1 {
                weapon.cooldown_stat = weapon.cooldown_stat - 1;
            }
            None
        },
        WeaponDesignerButtonAction::IncSpeed => {
            if weapon.speed_stat < 10 {
                weapon.speed_stat = weapon.speed_stat + 1;
            }
            None
        },
        WeaponDesignerButtonAction::DecSpeed => {
            if weapon.speed_stat > 1 {
                weapon.speed_stat = weapon.speed_stat - 1;
            }
            None
        },
        WeaponDesignerButtonAction::IncMultishot => {
            if weapon.multishot_stat < 5 {
                weapon.multishot_stat = weapon.multishot_stat + 1;
            }
            None
        },
        WeaponDesignerButtonAction::DecMultishot => {
            if weapon.multishot_stat > 1 {
                weapon.multishot_stat = weapon.multishot_stat - 1;
            }
            None
        },
        WeaponDesignerButtonAction::ChangeColor => {
            weapon.color_idx = (weapon.color_idx + 1) % 4;
            None
        },
        WeaponDesignerButtonAction::RandomName => {
            weapon.name = weapon_name_from_seed(seed);
            None
        },
        WeaponDesignerButtonAction::CompileAndTest => {
            if cost <= 20 {
                Some(AppState::BattleArena)
            } else {
                None
            }
        },
        WeaponDesignerButtonAction::Back => Some(AppState::TitleScreen),
    }
}

/// One frame of the weapon designer: the buttons pressed in this frame, in
/// order, applied to `weapon`. The cost that decides whether the weapon may be
/// compiled is that of the weapon as the frame began. A new name is drawn from
/// `seed`. Gives the screen to go to, if a press asked for one.
pub fn weapon_designer_frame(
    weapon: &mut CustomWeapon,
    presses: &[WeaponDesignerButtonAction],
    seed: u128,
) -> (next: Option<AppState>)
    requires
        weapon_cost_spec(old(weapon)@) <= u32::MAX,
        presses@.contains(WeaponDesignerButtonAction::ChangeColor) ==> old(weapon).color_idx < u32::MAX,
    ensures
        (final(weapon)@, next) == designer_frame_spec(
            old(weapon)@,
            presses@,
            weapon_cost_spec(old(weapon)@),
            seed,
        ),
{
    let cost = weapon_cost(weapon);
    let mut next: Option<AppState> = None;
    let mut i: usize = 0;
    let ghost start = weapon@;
    assert(presses@.take(0) =~= Seq::<WeaponDesignerButtonAction>::empty());
    while i < presses.len()
        invariant
            i <= presses@.len(),
            cost == weapon_cost_spec(start),
            weapon.color_idx < u32::MAX || forall|k: int|
                i <= k < presses@.len() ==> presses@[k] != WeaponDesignerButtonAction::ChangeColor,
            (weapon@, next) == designer_frame_spec(start, presses@.take(i as int), cost as int, seed),
        decreases presses@.len() - i,
    {
        let n = press(weapon, presses[i], cost, seed);
        if n.is_some() {
            next = n;
        }
        assert(presses@.take(i + 1).drop_last() =~= presses@.take(i as int));
        i = i + 1;
    }
    assert(presses@.take(presses@.len() as int) =~= presses@);
    next
}

/// The colour of a bullet.
#[derive(Debug, Clone, Copy, PartialEq, Eq, Structural)]
pub enum BulletColor {
    Cyan,
    Pink,
    Yellow,
    Green,
    White,
}

/// The bullet colour of colour index `idx`: the four colours of the palette,
/// and white for any other index.
pub open spec fn bullet_color_spec(idx: u32) -> BulletColor {
    if idx == 0 {
        BulletColor::Cyan
    } else if idx == 1 {
        BulletColor::Pink
    } else if idx == 2 {
        BulletColor::Yellow
    } else if idx == 3 {
        BulletColor::Green
    } else {
        BulletColor::White
    }
}

/// The bullet colour of colour index `idx`.
pub fn get_bullet_color(idx: u32) -> (c: BulletColor)
    ensures
        c == bullet_color_spec(idx),
{
    match idx {
        0 => BulletColor::Cyan,
        1 => BulletColor::Pink,
        2 => BulletColor::Yellow,
        3 => BulletColor::Green,
        _ => BulletColor::White,
    }
}

/// The name shown for colour index `idx`.
pub open spec fn bullet_color_name_spec(idx: u32) -> Seq<char> {
    if idx == 0 {
        "CYAN"@
    } else if idx == 1 {
        "PINK"@
    } else if idx == 2 {
        "YELLOW"@
    } else if idx == 3 {
        "GREEN"@
    } else {
        "WHITE"@
    }
}

/// The name shown for colour index `idx`.
pub fn get_bullet_color_name(idx: u32) -> (s: &'static str)
    ensures
        s@ == bullet_color_name_spec(idx),
{
    match idx {
        0 => "CYAN",
        1 => "PINK",
        2 => "YELLOW",
        3 => "GREEN",
        _ => "WHITE",
    }
}

/// The budget line of the designer: `CPU CYCLE BUDGET: {cost} / 20`.
pub fn budget_label(cost: u32) -> (s: String)
    ensures
        s@ == "CPU CYCLE BUDGET: "@ + dec_spec(cost as nat) + " / 20"@,
{
    let mut s = String::from_str("CPU CYCLE BUDGET: ");
    let d = decimal(cost);
    s.append(d.as_str());
    s.append(" / 20");
    s
}


/// The press that undoes `action`, for the four raising buttons.
pub open spec fn opposite_press(action: WeaponDesignerButtonAction) -> WeaponDesignerButtonAction {
    match action {
        WeaponDesignerButtonAction::IncDamage => WeaponDesignerButtonAction::DecDamage,
        WeaponDesignerButtonAction::IncCooldown => WeaponDesignerButtonAction::DecCooldown,
        WeaponDesignerButtonAction::IncSpeed => WeaponDesignerButtonAction::DecSpeed,
        WeaponDesignerButtonAction::IncMultishot => WeaponDesignerButtonAction::DecMultishot,
        _ => action,
    }
}

/// Whether the stat that `action` raises is still below its maximum.
pub open spec fn can_raise(w: WeaponView, action: WeaponDesignerButtonAction) -> bool {
    match action {
        WeaponDesignerButtonAction::IncDamage => w.damage < 10,
        WeaponDesignerButtonAction::IncCooldown => w.cooldown < 10,
        WeaponDesignerButtonAction::IncSpeed => w.speed < 10,
        WeaponDesignerButtonAction::IncMultishot => w.multishot < 5,
        _ => false,
    }
}

/// The weapon designer keeps every stat within its range: a weapon whose stats
/// are in range still has them in range after any presses of any frame.
pub proof fn lemma_designer_keeps_stats_in_range(
    w: WeaponView,
    presses: Seq<WeaponDesignerButtonAction>,
    cost: int,
    seed: u128,
)
    requires
        weapon_in_range(w),
    ensures
        weapon_in_range(designer_frame_spec(w, presses, cost, seed).0),
    decreases presses.len(),
{
    if presses.len() > 0 {
        lemma_designer_keeps_stats_in_range(w, presses.drop_last(), cost, seed);
    }
}

/// A weapon whose stats are in range costs at most 60 cycles.
pub proof fn lemma_in_range_cost_bounded(w: WeaponView)
    requires
        weapon_in_range(w),
    ensures
        6 <= weapon_cost_spec(w) <= 60,
{
}

/// The designer only leaves for the arena with a weapon within budget: if a
/// frame asks for the battle arena, the weapon cost at most 20 cycles as the
/// frame began.
pub proof fn lemma_compile_needs_budget(
    w: WeaponView,
    presses: Seq<WeaponDesignerButtonAction>,
    cost: int,
    seed: u128,
)
    requires
        designer_frame_spec(w, presses, cost, seed).1 == Some(AppState::BattleArena),
    ensures
        cost <= weapon_budget(),
    decreases presses.len(),
{
    if presses.len() > 0 {
        let before = designer_frame_spec(w, presses.drop_last(), cost, seed);
        let after = press_spec(before.0, presses.last(), cost, seed);
        if after.1 is None {
            lemma_compile_needs_budget(w, presses.drop_last(), cost, seed);
        }
    }
}

/// The screen a designer frame asks for. It asks for none exactly when Back
/// was not pressed and Compile was not pressed with the weapon within budget;
/// it asks for the arena only after a Compile press within budget, and for
/// the title screen only after a Back press; a Compile press within budget
/// with no Back press goes to the arena; a frame without presses changes
/// nothing.
pub proof fn lemma_designer_frame_screen(
    w: WeaponView,
    presses: Seq<WeaponDesignerButtonAction>,
    cost: int,
    seed: u128,
)
    ensures
        ({
            let r = designer_frame_spec(w, presses, cost, seed);
            let back = presses.contains(WeaponDesignerButtonAction::Back);
            let compile = presses.contains(WeaponDesignerButtonAction::CompileAndTest) && cost
                <= weapon_budget();
            &&& r.1 is None <==> !back && !compile
            &&& r.1 == Some(AppState::BattleArena) ==> compile
            &&& r.1 == Some(AppState::TitleScreen) ==> back
            &&& r.1 is Some ==> r.1 == Some(AppState::BattleArena) || r.1 == Some(AppState::TitleScreen)
            &&& compile && !back ==> r.1 == Some(AppState::BattleArena)
            &&& presses.len() == 0 ==> r == (w, None::<AppState>)
        }),
    decreases presses.len(),
{
    if presses.len() > 0 {
        let init = presses.drop_last();
        let last = presses.last();
        lemma_designer_frame_screen(w, init, cost, seed);
        assert forall|a: WeaponDesignerButtonAction| #[trigger] presses.contains(a) <==> (init.contains(a)
            || last == a) by {
            if presses.contains(a) {
                let k = choose|k: int| 0 <= k < presses.len() && presses[k] == a;
                if k < init.len() {
                    assert(init[k] == a);
                }
            }
            if init.contains(a) {
                let k = choose|k: int| 0 <= k < init.len() && init[k] == a;
                assert(presses[k] == a);
            }
            if last == a {
                assert(presses[presses.len() - 1] == a);
            }
        }
        assert(presses.contains(WeaponDesignerButtonAction::Back) <==> (init.contains(
            WeaponDesignerButtonAction::Back,
        ) || last == WeaponDesignerButtonAction::Back));
        assert(presses.contains(WeaponDesignerButtonAction::CompileAndTest) <==> (init.contains(
            WeaponDesignerButtonAction::CompileAndTest,
        ) || last == WeaponDesignerButtonAction::CompileAndTest));
    }
}

/// How the cost grows with the stats: a weapon with every stat at zero costs
/// nothing, and one more point of damage, cooldown or multishot costs two more
/// cycles, one more point of speed one more cycle.
pub proof fn lemma_cost_per_stat(w: WeaponView)
    requires
        w.damage < u32::MAX,
        w.cooldown < u32::MAX,
        w.speed < u32::MAX,
        w.multishot < u32::MAX,
    ensures
        weapon_cost_spec((WeaponView { damage: 0, cooldown: 0, speed: 0, multishot: 0, ..w })) == 0,
        weapon_cost_spec((WeaponView { damage: (w.damage + 1) as u32, ..w })) == weapon_cost_spec(w) + 2,
        weapon_cost_spec((WeaponView { cooldown: (w.cooldown + 1) as u32, ..w })) == weapon_cost_spec(w) + 2,
        weapon_cost_spec((WeaponView { speed: (w.speed + 1) as u32, ..w })) == weapon_cost_spec(w) + 1,
        weapon_cost_spec((WeaponView { multishot: (w.multishot + 1) as u32, ..w })) == weapon_cost_spec(w) + 2,
        weapon_cost_spec((WeaponView { name: seq![], color: 0, ..w })) == weapon_cost_spec(w),
{
}

/// A Compile press on a weapon, at the cost the weapon has, goes to the arena
/// exactly when twice the damage, twice the cooldown, the speed and twice the
/// multishot add up to at most 20 cycles.
pub proof fn lemma_compile_decision(w: WeaponView, seed: u128)
    ensures
        press_spec(w, WeaponDesignerButtonAction::CompileAndTest, weapon_cost_spec(w), seed).1 == Some(
            AppState::BattleArena,
        ) <==> 2 * w.damage + 2 * w.cooldown + w.speed + 2 * w.multishot <= 20,
        press_spec(w, WeaponDesignerButtonAction::CompileAndTest, weapon_cost_spec(w), seed).1 is None
            <==> 2 * w.damage + 2 * w.cooldown + w.speed + 2 * w.multishot > 20,
        press_spec(w, WeaponDesignerButtonAction::CompileAndTest, weapon_cost_spec(w), seed).0 == w,
{
}

/// A raising press is undone by the matching lowering press, while the stat is
/// below its maximum and at least 1.
pub proof fn lemma_raise_then_lower(
    w: WeaponView,
    action: WeaponDesignerButtonAction,
    cost: int,
    seed: u128,
)
    requires
        weapon_in_range(w),
        can_raise(w, action),
    ensures
        press_spec(press_spec(w, action, cost, seed).0, opposite_press(action), cost, seed).0 == w,
        press_spec(w, action, cost, seed).1 is None,
{
}

/// Four presses of the colour button bring the colour back where it was.
pub proof fn lemma_color_cycle(w: WeaponView, cost: int, seed: u128)
    requires
        w.color < 4,
    ensures
        ({
            let c = WeaponDesignerButtonAction::ChangeColor;
            let w1 = press_spec(w, c, cost, seed).0;
            let w2 = press_spec(w1, c, cost, seed).0;
            let w3 = press_spec(w2, c, cost, seed).0;
            press_spec(w3, c, cost, seed).0 == w
        }),
{
}

} // verus!
