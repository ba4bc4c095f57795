use vstd::prelude::*;

use crate::geometry::{scale, scaled, WORLD_LIMIT};
use crate::random::random_range;

verus! {

/// Milliseconds in one second.
pub const MS_PER_SEC: u64 = 1000;

/// Player time lost to one enemy contact or enemy bullet, in milliseconds.
pub const HIT_DAMAGE_MS: u64 = 15000;

/// Length of the invincibility window after a hit, in milliseconds.
pub const INVINCIBILITY_MS: u64 = 1000;

/// `s` seconds in milliseconds, saturating at `u64::MAX`.
pub open spec fn secs_spec(s: u64) -> u64 {
    if s <= u64::MAX / 1000 { (s * 1000) as u64 } else { u64::MAX }
}

/// `s` seconds in milliseconds, saturating at `u64::MAX`.
pub fn secs(s: u64) -> (r: u64)
    ensures
        r == secs_spec(s),
{
    if s <= u64::MAX / MS_PER_SEC {
        s * MS_PER_SEC
    } else {
        u64::MAX
    }
}

pub open spec fn sat_sub(a: u64, b: u64) -> u64 {
    if a > b { (a - b) as u64 } else { 0 }
}

/// A countdown used as the player's life and as an enemy's lifespan.
#[derive(Clone, Copy, Debug, PartialEq, Eq, Structural)]
pub struct TimeLeft {
    pub remaining: u64,
    pub max: u64,
}

pub open spec fn subtract_spec(t: TimeLeft, time: u64) -> TimeLeft {
    TimeLeft { remaining: sat_sub(t.remaining, time), max: t.max }
}

pub open spec fn add_spec(t: TimeLeft, time: u64) -> TimeLeft {
    TimeLeft {
        remaining: if t.remaining + time > t.max { t.max } else { (t.remaining + time) as u64 },
        max: t.max,
    }
}

pub open spec fn apply_item_time_spec(t: TimeLeft, item: Item) -> TimeLeft {
    let t1 = match item.kind {
        ItemType::PlusTime(x) => add_spec(t, secs_spec(x)),
        _ => t,
    };
    subtract_spec(t1, secs_spec(item.cost))
}

impl TimeLeft {
    pub open spec fn wf(&self) -> bool {
        self.remaining <= self.max
    }

    /// A full timer of `time` seconds.
    pub fn new(time: u64) -> (r: TimeLeft)
        ensures
            r.wf(),
            r.remaining == secs_spec(time),
            r.max == secs_spec(time),
    {
        let t = secs(time);
        TimeLeft { remaining: t, max: t }
    }

    /// Takes `time` milliseconds off; the timer stops at zero.
    pub fn subtract(&mut self, time: u64)
        requires
            old(self).wf(),
        ensures
            *final(self) == subtract_spec(*old(self), time),
            final(self).wf(),
    {
        if self.remaining > time {
            self.remaining = self.remaining - time;
        } else {
            self.remaining = 0;
        }
    }

    /// Adds `time` milliseconds; the timer stops at its maximum.
    pub fn add(&mut self, time: u64)
        requires
            old(self).wf(),
        ensures
            *final(self) == add_spec(*old(self), time),
            final(self).wf(),
    {
        if time > self.max - self.remaining {
            self.remaining = self.max;
        } else {
            self.remaining = self.remaining + time;
        }
    }

    /// Applies a picked-up item: a time item first adds its bonus, then the
    /// item's cost is taken off.
    pub fn apply_item(&mut self, item: &Item)
        requires
            old(self).wf(),
        ensures
            *final(self) == apply_item_time_spec(*old(self), *item),
            final(self).wf(),
    {
        match item.kind {
            ItemType::PlusTime(x) => {
                self.add(secs(x));
            },
            _ => {},
        }
        self.subtract(secs(item.cost));
    }
}

/// Shot-interval reductions of successive rate upgrades, in milliseconds.
pub open spec fn upgrade_step_spec(i: int) -> u64 {
    if i < 2 {
        200
    } else if i < 5 {
        100
    } else if i < 8 {
        50
    } else {
        25
    }
}

/// Number of entries of the rate-upgrade table.
pub const SHOOTER_UPGRADES: usize = 11;

/// Entry `i` of the rate-upgrade table.
pub fn upgrade_step(i: usize) -> (r: u64)
    requires
        i < SHOOTER_UPGRADES,
    ensures
        r == upgrade_step_spec(i as int),
{
    if i < 2 {
        200
    } else if i < 5 {
        100
    } else if i < 8 {
        50
    } else {
        25
    }
}

/// Projectile speed gained by one projectile-speed upgrade, in sub-units per tick.
pub const PROJECTILE_SPEED_STEP: i64 = 2000;

/// Random extra delay of a new shooter's first shot, in milliseconds (inclusive).
pub const SHOOTER_DITHER_MS: u64 = 300;

/// Fire-rate state of something that shoots.
#[derive(Clone, Copy, Debug, PartialEq, Eq, Structural)]
pub struct Shooter {
    pub shoot_rate: u64,
    pub current_cooldown: u64,
    /// Projectile speed in sub-units per tick.
    pub speed: i64,
    pub upgrades: usize,
}

pub open spec fn shooter_apply_spec(s: Shooter, item: Item) -> Shooter {
    match item.kind {
        ItemType::PowerUp(PowerUps::ShootRate) => if s.upgrades < SHOOTER_UPGRADES {
            Shooter {
                shoot_rate: sat_sub(s.shoot_rate, upgrade_step_spec(s.upgrades as int)),
                upgrades: (s.upgrades + 1) as usize,
                ..s
            }
        } else {
            s
        },
        ItemType::PowerUp(PowerUps::ProjectileSpeed) => Shooter {
            speed: if s.speed + PROJECTILE_SPEED_STEP > WORLD_LIMIT {
                WORLD_LIMIT
            } else {
                (s.speed + PROJECTILE_SPEED_STEP) as i64
            },
            ..s
        },
        _ => s,
    }
}

impl Shooter {
    pub open spec fn wf(&self) -> bool {
        0 <= self.speed <= WORLD_LIMIT
    }

    /// A shooter firing every `rate` seconds at `speed`; its first shot waits
    /// one interval plus a random delay of at most `SHOOTER_DITHER_MS`.
    pub fn new(rate: u64, speed: i64) -> (r: Shooter)
        requires
            rate <= 1_000_000_000,
            0 <= speed <= WORLD_LIMIT,
        ensures
            r.wf(),
            r.shoot_rate == rate * 1000,
            rate * 1000 <= r.current_cooldown <= rate * 1000 + SHOOTER_DITHER_MS,
            r.speed == speed,
            r.upgrades == 0,
    {
        let dither = random_range(0, SHOOTER_DITHER_MS + 1);
        let interval = rate * MS_PER_SEC;
        Shooter { shoot_rate: interval, current_cooldown: interval + dither, speed, upgrades: 0 }
    }

    /// Applies a picked-up item: a rate upgrade shortens the interval by the
    /// next table entry (no further once the table is used up), a
    /// projectile-speed upgrade adds `PROJECTILE_SPEED_STEP`.
    pub fn apply_item(&mut self, item: &Item)
        requires
            old(self).wf(),
        ensures
            *final(self) == shooter_apply_spec(*old(self), *item),
            final(self).wf(),
    {
        match item.kind {
            ItemType::PowerUp(PowerUps::ShootRate) => {
                if self.upgrades < SHOOTER_UPGRADES {
                    let step = upgrade_step(self.upgrades);
                    self.shoot_rate = if self.shoot_rate > step {
                        self.shoot_rate - step
                    } else {
                        0
                    };
                    self.upgrades = self.upgrades + 1;
                }
            },
            ItemType::PowerUp(PowerUps::ProjectileSpeed) => {
                self.speed = if self.speed > WORLD_LIMIT - PROJECTILE_SPEED_STEP {
                    WORLD_LIMIT
                } else {
                    self.speed + PROJECTILE_SPEED_STEP
                };
            },
            _ => {},
        }
    }

    /// Starts a new cooldown of one full interval.
    pub fn set_cooldown(&mut self)
        ensures
            *final(self) == (Shooter { current_cooldown: old(self).shoot_rate, ..*old(self) }),
    {
        self.current_cooldown = self.shoot_rate;
    }

    /// Lets `delta` milliseconds of cooldown pass; it stops at zero.
    pub fn cool_down(&mut self, delta: u64)
        ensures
            *final(self) == (Shooter {
                current_cooldown: sat_sub(old(self).current_cooldown, delta),
                ..*old(self)
            }),
    {
        if self.current_cooldown > delta {
            self.current_cooldown = self.current_cooldown - delta;
        } else {
            self.current_cooldown = 0;
        }
    }
}

/// Aim direction of a shot.
#[derive(Clone, Copy, Debug, PartialEq, Eq, Structural)]
pub enum ShootDirection {
    Up,
    Down,
    Left,
    Right,
    UpLeft,
    UpRight,
    DownLeft,
    DownRight,
    NoShot,
}

pub open spec fn direction_spec(left: bool, right: bool, up: bool, down: bool) -> ShootDirection {
    if left && !right && !up && !down {
        ShootDirection::Left
    } else if left && !right && up && !down {
        ShootDirection::UpLeft
    } else if left && !right && !up && down {
        ShootDirection::DownLeft
    } else if !left && right && !up && !down {
        ShootDirection::Right
    } else if !left && right && up && !down {
        ShootDirection::UpRight
    } else if !left && right && !up && down {
        ShootDirection::DownRight
    } else if !left && !right && !up && down {
        ShootDirection::Down
    } else if !left && !right && up && !down {
        ShootDirection::Up
    } else {
        ShootDirection::NoShot
    }
}

/// Per mille of the speed that a diagonal shot carries on each axis.
pub const DIAGONAL_PER_MILLE: u64 = 707;

pub open spec fn direction_velocity_spec(dir: ShootDirection, speed: int) -> (int, int) {
    let d = scaled(speed, DIAGONAL_PER_MILLE as int, 1000);
    match dir {
        ShootDirection::Left => (-speed, 0),
        ShootDirection::Right => (speed, 0),
        ShootDirection::Up => (0, speed),
        ShootDirection::Down => (0, -speed),
        ShootDirection::UpLeft => (-d, d),
        ShootDirection::UpRight => (d, d),
        ShootDirection::DownLeft => (-d, -d),
        ShootDirection::DownRight => (d, -d),
        ShootDirection::NoShot => (0, 0),
    }
}

impl Default for ShootDirection {
    /// No aim.
    fn default() -> (r: ShootDirection)
        ensures
            r == ShootDirection::NoShot,
    {
        ShootDirection::NoShot
    }
}

impl ShootDirection {
    /// The direction that the four shoot signals ask for: one of four
    /// cardinal or four diagonal combinations, `NoShot` for any other.
    pub fn from_buttons(left: bool, right: bool, up: bool, down: bool) -> (r: ShootDirection)
        ensures
            r == direction_spec(left, right, up, down),
    {
        match (left, right, up, down) {
            (true, false, false, false) => ShootDirection::Left,
            (true, false, true, false) => ShootDirection::UpLeft,
            (true, false, false, true) => ShootDirection::DownLeft,
            (false, true, false, false) => ShootDirection::Right,
            (false, true, true, false) => ShootDirection::UpRight,
            (false, true, false, true) => ShootDirection::DownRight,
            (false, false, false, true) => ShootDirection::Down,
            (false, false, true, false) => ShootDirection::Up,
            _ => ShootDirection::NoShot,
        }
    }

    /// The velocity of a shot in this direction at `speed`.
    pub fn velocity(&self, speed: i64) -> (r: (i64, i64))
        requires
            0 <= speed <= WORLD_LIMIT,
        ensures
            r.0 as int == direction_velocity_spec(*self, speed as int).0,
            r.1 as int == direction_velocity_spec(*self, speed as int).1,
            -WORLD_LIMIT <= r.0 <= WORLD_LIMIT,
            -WORLD_LIMIT <= r.1 <= WORLD_LIMIT,
    {
        let d = scale(speed, DIAGONAL_PER_MILLE, 1000);
        match self {
            ShootDirection::Left => (-speed, 0),
            ShootDirection::Right => (speed, 0),
            ShootDirection::Up => (0, speed),
            ShootDirection::Down => (0, -speed),
            ShootDirection::UpLeft => (-d, d),
            ShootDirection::UpRight => (d, d),
            ShootDirection::DownLeft => (-d, -d),
            ShootDirection::DownRight => (d, -d),
            ShootDirection::NoShot => (0, 0),
        }
    }
}

/// Upgrade kinds of a power-up item.
#[derive(Clone, Copy, Debug, PartialEq, Eq, Structural)]
pub enum PowerUps {
    Speed,
    ShootRate,
    ProjectileSpeed,
    Damage,
}

pub open spec fn power_up_of(i: int) -> PowerUps {
    if i == 0 {
        PowerUps::Speed
    } else if i == 1 {
        PowerUps::ShootRate
    } else if i == 2 {
        PowerUps::ProjectileSpeed
    } else {
        PowerUps::Damage
    }
}

impl PowerUps {
    /// A power-up kind drawn uniformly from the four.
    pub fn get_random() -> (r: PowerUps)
        ensures
            exists|i: int| 0 <= i < 4 && r == power_up_of(i),
    {
        let i = random_range(0, 4);
        PowerUps::power_up_from(i)
    }

    /// The kind with number `i`: speed, shoot rate, projectile speed, damage.
    pub fn power_up_from(i: u64) -> (r: PowerUps)
        requires
            i < 4,
        ensures
            r == power_up_of(i as int),
    {
        if i == 0 {
            PowerUps::Speed
        } else if i == 1 {
            PowerUps::ShootRate
        } else if i == 2 {
            PowerUps::ProjectileSpeed
        } else {
            PowerUps::Damage
        }
    }
}

/// What an item does when picked up.
#[derive(Clone, Copy, Debug, PartialEq, Eq, Structural)]
pub enum ItemType {
    PowerUp(PowerUps),
    /// Adds this many seconds to the picker's timer.
    PlusTime(u64),
}

impl ItemType {
    /// Sprite shown for this kind of item.
    pub fn to_sprite_sheet_num(&self) -> (r: usize)
        ensures
            r == (match *self {
                ItemType::PowerUp(PowerUps::Speed) => 36usize,
                ItemType::PowerUp(PowerUps::Damage) => 1usize,
                ItemType::PowerUp(PowerUps::ProjectileSpeed) => 24usize,
                ItemType::PowerUp(PowerUps::ShootRate) => 30usize,
                ItemType::PlusTime(_) => 11usize,
            }),
    {
        match self {
            ItemType::PowerUp(PowerUps::Speed) => 36,
            ItemType::PowerUp(PowerUps::Damage) => 1,
            ItemType::PowerUp(PowerUps::ProjectileSpeed) => 24,
            ItemType::PowerUp(PowerUps::ShootRate) => 30,
            ItemType::PlusTime(_) => 11,
        }
    }
}

/// An item lying on a tile, with the time its pickup costs (in seconds).
#[derive(Clone, Copy, Debug, PartialEq, Eq)]
pub struct Item {
    pub location: (usize, usize),
    pub kind: ItemType,
    pub cost: u64,
}

impl Item {
    pub fn new(location: (usize, usize), kind: ItemType, cost: u64) -> (r: Item)
        ensures
            r == (Item { location, kind, cost }),
    {
        Item { location, kind, cost }
    }
}

/// Damage per player bullet gained by one damage upgrade, in seconds.
pub const DAMAGE_STEP: u64 = 10;

/// Movement speed gained by one speed upgrade, in sub-units per tick.
pub const SPEED_STEP: i64 = 1000;

/// The player's own state.
#[derive(Clone, Copy, Debug, PartialEq, Eq, Structural)]
pub struct Player {
    pub current_direction: ShootDirection,
    /// Displacement the resolver applied on each axis in the last move.
    pub speed_x: i64,
    pub speed_y: i64,
    /// Remaining invincibility, in milliseconds.
    pub invincible_time: u64,
    /// Time taken off an enemy per player bullet, in seconds.
    pub damage: u64,
    /// Movement speed at full input, in sub-units per tick.
    pub speed_multi: i64,
}

pub open spec fn player_apply_spec(p: Player, item: Item) -> Player {
    match item.kind {
        ItemType::PowerUp(PowerUps::Damage) => Player {
            damage: if p.damage + DAMAGE_STEP > u64::MAX {
                u64::MAX
            } else {
                (p.damage + DAMAGE_STEP) as u64
            },
            ..p
        },
        ItemType::PowerUp(PowerUps::Speed) => Player {
            speed_multi: if p.speed_multi + SPEED_STEP > WORLD_LIMIT {
                WORLD_LIMIT
            } else {
                (p.speed_multi + SPEED_STEP) as i64
            },
            ..p
        },
        _ => p,
    }
}

/// The player's state and timer after an enemy hit: it costs
/// `HIT_DAMAGE_MS` and opens the invincibility window, unless one is open.
pub open spec fn hit_spec(p: Player, t: TimeLeft) -> (Player, TimeLeft) {
    if p.invincible_time == 0 {
        (Player { invincible_time: INVINCIBILITY_MS, ..p }, subtract_spec(t, HIT_DAMAGE_MS))
    } else {
        (p, t)
    }
}

pub open spec fn decay_spec(p: Player, delta: u64) -> Player {
    Player { invincible_time: sat_sub(p.invincible_time, delta), ..p }
}

impl Player {
    /// A fresh player: damage 10, speed 4 units per tick, not moving, no aim.
    pub open spec fn default_spec() -> Player {
        Player {
            current_direction: ShootDirection::NoShot,
            speed_x: 0,
            speed_y: 0,
            invincible_time: 0,
            damage: 10,
            speed_multi: 4000,
        }
    }
}

impl Default for Player {
    /// A fresh player: damage 10, speed 4 units per tick, not moving, no aim.
    fn default() -> (r: Player)
        ensures
            r.wf(),
            r == Player::default_spec(),
    {
        Player {
            current_direction: ShootDirection::NoShot,
            speed_x: 0,
            speed_y: 0,
            invincible_time: 0,
            damage: 10,
            speed_multi: 4000,
        }
    }
}

impl Player {
    pub open spec fn wf(&self) -> bool {
        &&& 0 <= self.speed_multi <= WORLD_LIMIT
        &&& -2 * WORLD_LIMIT <= self.speed_x <= 2 * WORLD_LIMIT
        &&& -2 * WORLD_LIMIT <= self.speed_y <= 2 * WORLD_LIMIT
    }

    /// Applies a picked-up item: damage and speed upgrades.
    pub fn apply_item(&mut self, item: &Item)
        requires
            old(self).wf(),
        ensures
            *final(self) == player_apply_spec(*old(self), *item),
            final(self).wf(),
    {
        match item.kind {
            ItemType::PowerUp(PowerUps::Damage) => {
                self.damage = if self.damage > u64::MAX - DAMAGE_STEP {
                    u64::MAX
                } else {
                    self.damage + DAMAGE_STEP
                };
            },
            ItemType::PowerUp(PowerUps::Speed) => {
                self.speed_multi = if self.speed_multi > WORLD_LIMIT - SPEED_STEP {
                    WORLD_LIMIT
                } else {
                    self.speed_multi + SPEED_STEP
                };
            },
            _ => {},
        }
    }

    /// An enemy contact or enemy bullet reaches the player.
    pub fn take_hit(&mut self, time: &mut TimeLeft)
        requires
            old(time).wf(),
        ensures
            (*final(self), *final(time)) == hit_spec(*old(self), *old(time)),
            final(time).wf(),
    {
        if self.invincible_time == 0 {
            time.subtract(HIT_DAMAGE_MS);
            self.invincible_time = INVINCIBILITY_MS;
        }
    }

    /// Lets `delta` milliseconds of invincibility pass.
    pub fn decay_invincibility(&mut self, delta: u64)
        ensures
            *final(self) == decay_spec(*old(self), delta),
    {
        if self.invincible_time > delta {
            self.invincible_time = self.invincible_time - delta;
        } else {
            self.invincible_time = 0;
        }
    }
}

/// A hit that costs the player time is followed by no further loss from a
/// second hit in the same tick, nor from one in the next tick while the
/// invincibility window (shortened by that tick's `delta`) is still open.
pub proof fn lemma_invincibility_window(p: Player, t: TimeLeft, delta: u64)
    requires
        p.invincible_time == 0,
        delta < INVINCIBILITY_MS,
    ensures
        hit_spec(hit_spec(p, t).0, hit_spec(p, t).1).1 == hit_spec(p, t).1,
        hit_spec(decay_spec(hit_spec(p, t).0, delta), hit_spec(p, t).1).1 == hit_spec(p, t).1,
{
}

/// Whether an enemy chases the player.
#[derive(Clone, Copy, Debug, PartialEq, Eq, Structural)]
pub struct EnemyFlag {
    pub moves: bool,
}

impl EnemyFlag {
    pub fn new_stationary() -> (r: EnemyFlag)
        ensures
            !r.moves,
    {
        EnemyFlag { moves: false }
    }

}

impl Default for EnemyFlag {
    /// A chasing enemy.
    fn default() -> (r: EnemyFlag)
        ensures
            r.moves,
    {
        EnemyFlag { moves: true }
    }
}

/// The three enemy variants.
#[derive(Clone, Copy, Debug, PartialEq, Eq, Structural)]
pub enum Enemies {
    /// Stands still and shoots.
    Stationary,
    /// Chases the player and never shoots.
    NoShoot,
    /// Chases the player and shoots.
    Full,
}

/// Velocity of a bullet, in sub-units per tick.
#[derive(Clone, Copy, Debug, PartialEq, Eq, Structural)]
pub struct Bullet {
    pub speed_x: i64,
    pub speed_y: i64,
}

impl Bullet {
    pub open spec fn wf(&self) -> bool {
        &&& -2 * WORLD_LIMIT <= self.speed_x <= 2 * WORLD_LIMIT
        &&& -2 * WORLD_LIMIT <= self.speed_y <= 2 * WORLD_LIMIT
    }
}

} // verus!
