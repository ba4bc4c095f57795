use vstd::prelude::*;

use crate::combat::{
    chased, enemy_bullet_hits_player, enemy_shots, CheckBulletCollide, EnemyShoot, MoveBadGuys,
    RemoveOutOfTimeBadGuys,
};
use crate::components::{direction_spec, ShootDirection};
use crate::game_scale::roster_size_spec;
use crate::geometry::GamePosition;
use crate::presentation::SoundEffect;
use crate::rooms::{
    built_from, lemma_pickup_keeps_place, player_tile, spawned_on, CheckForNextRoom, CreatePowerUps,
    PickupItem,
};
use crate::world::{
    axis_ok, bullet_moved, player_axis_step, touches_enemy, BulletEntity, DecrementPlayerCoolDowns,
    DecrementTime, EnemyEntity, MoveBullets, MovePlayerSystem, PlayerBadGuyCollide, PlayerEntity,
    PlayerShoot, World,
};

verus! {

/// What the simulation consumes each tick: the elapsed time, the two
/// movement axes (thousandths of full deflection), the four shoot signals,
/// and a Poisson draw of mean `floor + 0.5` for a roster, used only if a room
/// transition happens.
#[derive(Clone, Copy, Debug)]
pub struct TickInput {
    pub delta_ms: u64,
    pub move_x: Option<i64>,
    pub move_y: Option<i64>,
    pub shoot_left: bool,
    pub shoot_right: bool,
    pub shoot_up: bool,
    pub shoot_down: bool,
    pub roster_sample: u64,
}

impl TickInput {
    pub open spec fn wf(&self) -> bool {
        axis_ok(self.move_x) && axis_ok(self.move_y) && self.roster_sample <= u32::MAX / 2
    }
}

/// What happened during one tick.
#[derive(Clone, Copy, Debug, PartialEq, Eq)]
pub struct TickReport {
    /// An enemy's touch cost the player time.
    pub contact_hit: bool,
    /// The player fired.
    pub player_shot: bool,
    /// Number of enemies that fired.
    pub enemy_shots: usize,
    /// An enemy bullet cost the player time.
    pub bullet_hit: bool,
    /// Number of enemies removed because their timer ran out.
    pub enemies_died: usize,
    /// Number of enemies left when the room's exit was checked.
    pub enemies_left: u32,
    /// The player moved on to a new room.
    pub room_changed: bool,
}

/// `n` copies of `s`.
pub open spec fn repeated(s: SoundEffect, n: int) -> Seq<SoundEffect> {
    Seq::new(n as nat, |i: int| s)
}

/// The sounds of a tick, in the order their events happen.
pub open spec fn sounds_spec(r: TickReport) -> Seq<SoundEffect> {
    repeated(SoundEffect::PlayerHit, if r.contact_hit { 1 } else { 0 }) + repeated(
        SoundEffect::PlayerShoot,
        if r.player_shot { 1 } else { 0 },
    ) + repeated(SoundEffect::EnemyShoot, r.enemy_shots as int) + repeated(
        SoundEffect::PlayerHit,
        if r.bullet_hit { 1 } else { 0 },
    ) + repeated(SoundEffect::EnemyDie, r.enemies_died as int)
}

/// Appends `n` copies of `s` to `sounds`.
fn push_repeated(sounds: &mut Vec<SoundEffect>, s: SoundEffect, n: usize)
    ensures
        final(sounds)@ == old(sounds)@ + repeated(s, n as int),
{
    let mut i: usize = 0;
    while i < n
        invariant
            i <= n,
            sounds@ == old(sounds)@ + repeated(s, i as int),
        decreases n - i,
    {
        sounds.push(s);
        i = i + 1;
        proof {
            assert(sounds@ =~= old(sounds)@ + repeated(s, i as int));
        }
    }
}

impl TickReport {
    /// The sounds to play for this tick: a player hit by contact, the
    /// player's shot, one per enemy shot, a player hit by a bullet, one per
    /// enemy that died.
    pub fn sounds(&self) -> (r: Vec<SoundEffect>)
        ensures
            r@ == sounds_spec(*self),
    {
        let mut sounds: Vec<SoundEffect> = Vec::new();
        push_repeated(&mut sounds, SoundEffect::PlayerHit, if self.contact_hit { 1 } else { 0 });
        push_repeated(&mut sounds, SoundEffect::PlayerShoot, if self.player_shot { 1 } else { 0 });
        push_repeated(&mut sounds, SoundEffect::EnemyShoot, self.enemy_shots);
        push_repeated(&mut sounds, SoundEffect::PlayerHit, if self.bullet_hit { 1 } else { 0 });
        push_repeated(&mut sounds, SoundEffect::EnemyDie, self.enemies_died);
        proof {
            assert(sounds@ =~= sounds_spec(*self));
        }
        sounds
    }
}

/// The player after this tick's movement input.
pub open spec fn moved_player(w: &World, input: TickInput) -> PlayerEntity {
    player_axis_step(&w.game_map, player_axis_step(&w.game_map, w.player, 1, input.move_y), 0, input.move_x)
}

/// The enemies after their chase step toward the moved player.
pub open spec fn chased_enemies(w: &World, input: TickInput) -> Seq<EnemyEntity> {
    Seq::new(w.enemies@.len(), |i: int| chased(&w.game_map, moved_player(w, input).pos, w.enemies@[i]))
}

/// The live bullets after their motion step.
pub open spec fn moved_bullets(w: &World) -> Seq<BulletEntity> {
    Seq::new(w.bullets@.len(), |i: int| bullet_moved(w.bullets@[i]))
}

impl World {
    /// Runs one tick: movement (player, then enemies), contact damage,
    /// shooting, cooldowns, bullet motion and collision, timers, removal of
    /// expired enemies and the game-over check, room progression, power-ups
    /// and pickups; entities created during the tick join at its end.
    pub fn tick(&mut self, input: &TickInput) -> (r: TickReport)
        requires
            old(self).wf(),
            input.wf(),
        ensures
            final(self).wf(),
            final(self).new_bullets@.len() == 0,
            final(self).new_items@.len() == 0,
            old(self).game_over ==> final(self).game_over,
            r.contact_hit == (touches_enemy(
                moved_player(old(self), *input),
                chased_enemies(old(self), *input),
                old(self).enemies@.len() as int,
            ) && old(self).player.player.invincible_time == 0),
            r.player_shot == (old(self).player.shooter.current_cooldown == 0 && direction_spec(
                input.shoot_left,
                input.shoot_right,
                input.shoot_up,
                input.shoot_down,
            ) != ShootDirection::NoShot),
            r.enemy_shots == enemy_shots(
                chased_enemies(old(self), *input),
                moved_player(old(self), *input).pos,
                old(self).enemies@.len() as int,
            ).len(),
            r.bullet_hit == (enemy_bullet_hits_player(
                moved_bullets(old(self)),
                moved_player(old(self), *input),
                old(self).bullets@.len() as int,
            ) && old(self).player.player.invincible_time == 0 && !r.contact_hit),
            r.enemies_died + r.enemies_left == old(self).enemies@.len(),
            r.room_changed == (r.enemies_left == 0 && player_tile(moved_player(old(self), *input))
                == old(self).game_map.ending_spot),
            r.room_changed ==> {
                &&& built_from(
                    &final(self).game_map,
                    old(self).levels@,
                    final(self).game_map.current_level as int,
                )
                &&& (old(self).levels@.len() > 1 ==> final(self).game_map.current_level
                    != old(self).game_map.current_level)
                &&& final(self).floors_visited == (if old(self).floors_visited == u32::MAX {
                    u32::MAX
                } else {
                    (old(self).floors_visited + 1) as u32
                })
                &&& final(self).enemies@.len() == roster_size_spec(
                    old(self).floors_visited,
                    input.roster_sample,
                )
                &&& forall|k: int|
                    0 <= k < final(self).enemies@.len() ==> spawned_on(
                        &final(self).game_map,
                        #[trigger] final(self).enemies@[k],
                        old(self).floors_visited,
                    )
                &&& final(self).player.pos == GamePosition::from_tile_spec(
                    final(self).game_map.player_start,
                )
            },
            !r.room_changed ==> {
                &&& final(self).floors_visited == old(self).floors_visited
                &&& final(self).game_map.map == old(self).game_map.map
                &&& final(self).game_map.current_level == old(self).game_map.current_level
                &&& final(self).player.pos == moved_player(old(self), *input).pos
            },
    {
        let ghost w0 = *self;
        MovePlayerSystem.run(self, input.move_x, input.move_y);
        MoveBadGuys.run(self);
        proof {
            assert(self.enemies@ =~= chased_enemies(&w0, *input));
        }
        let contact_hit = PlayerBadGuyCollide.run(self);
        let player_shot = PlayerShoot.run(
            self,
            input.shoot_left,
            input.shoot_right,
            input.shoot_up,
            input.shoot_down,
        );
        let enemy_shots = EnemyShoot.run(self);
        DecrementPlayerCoolDowns.run(self, input.delta_ms);
        MoveBullets.run(self);
        proof {
            assert(self.bullets@ =~= moved_bullets(&w0));
        }
        let bullet_hit = CheckBulletCollide.run(self);
        DecrementTime.run(self, input.delta_ms);
        let enemies_died = RemoveOutOfTimeBadGuys.run(self);
        let enemies_left = self.num_enemies_left;
        let room_changed = CheckForNextRoom.run(self, input.roster_sample);
        let ghost w_room = *self;
        CreatePowerUps.run(self);
        let ghost w_items = *self;
        PickupItem.run(self);
        proof {
            lemma_pickup_keeps_place(
                w_items.player,
                w_items.items@,
                player_tile(w_items.player),
                w_items.items@.len() as int,
            );
        }
        self.maintain();
        TickReport {
            contact_hit,
            player_shot,
            enemy_shots,
            bullet_hit,
            enemies_died,
            enemies_left,
            room_changed,
        }
    }
}

} // verus!
