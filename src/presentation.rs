use vstd::prelude::*;

use crate::components::{ItemType, PowerUps};
use crate::random::random_range;

verus! {

use vstd::arithmetic::div_mod::{lemma_mod_self_0, lemma_small_mod};

/// A looping sequence of sprite frames, each shown for `time_per_frame`
/// milliseconds.
#[derive(Debug)]
pub struct Animation {
    pub time_per_frame: u64,
    /// Milliseconds until the next frame is due.
    pub cooldown: u64,
    pub frames: Vec<usize>,
    /// Index of the next frame to show.
    pub next: usize,
}

impl Animation {
    pub open spec fn wf(&self) -> bool {
        self.frames@.len() > 0 && self.next < self.frames@.len()
    }

    /// An animation over `frames` whose first frame is due after a random
    /// delay below `time_per_frame`, so that animations do not run in step.
    pub fn new(time_per_frame: u64, frames: Vec<usize>) -> (r: Animation)
        requires
            time_per_frame > 0,
            frames@.len() > 0,
        ensures
            r.wf(),
            r.time_per_frame == time_per_frame,
            r.cooldown < time_per_frame,
            r.frames@ == frames@,
            r.next == 0,
    {
        let cooldown = random_range(0, time_per_frame);
        Animation { time_per_frame, cooldown, frames, next: 0 }
    }

    /// Lets `delta` milliseconds pass.
    pub fn cool_down(&mut self, delta: u64)
        ensures
            final(self).cooldown == (if old(self).cooldown > delta {
                old(self).cooldown - delta
            } else {
                0
            }),
            final(self).time_per_frame == old(self).time_per_frame,
            final(self).frames == old(self).frames,
            final(self).next == old(self).next,
    {
        if self.cooldown > delta {
            self.cooldown = self.cooldown - delta;
        } else {
            self.cooldown = 0;
        }
    }

    /// The frame to show now, when one is due: it restarts the frame timer
    /// and moves on to the following frame, wrapping round at the end.
    pub fn advance(&mut self) -> (r: Option<usize>)
        requires
            old(self).wf(),
        ensures
            final(self).wf(),
            final(self).frames == old(self).frames,
            final(self).time_per_frame == old(self).time_per_frame,
            old(self).cooldown == 0 ==> {
                &&& r == Some(old(self).frames@[old(self).next as int])
                &&& final(self).next == (old(self).next + 1) % (old(self).frames@.len() as int)
                &&& final(self).cooldown == old(self).time_per_frame
            },
            old(self).cooldown != 0 ==> r is None && final(self).next == old(self).next
                && final(self).cooldown == old(self).cooldown,
    {
        if self.cooldown != 0 {
            return None;
        }
        let frame = self.frames[self.next];
        let len = self.frames.len();
        proof {
            lemma_mod_self_0(len as int);
            if self.next + 1 < len {
                lemma_small_mod((self.next + 1) as nat, len as nat);
            }
        }
        self.next = if self.next == len - 1 { 0 } else { self.next + 1 };
        self.cooldown = self.time_per_frame;
        Some(frame)
    }
}

/// Milliseconds per frame of an item's animation.
pub const ITEM_FRAME_MS: u64 = 200;

impl ItemType {
    /// The frames an item of this kind cycles through.
    pub fn anim_frames(&self) -> (r: Vec<usize>)
        ensures
            r@.len() > 0,
    {
        match self {
            ItemType::PowerUp(PowerUps::Speed) => vec![36, 37, 38, 39, 40, 41],
            ItemType::PowerUp(PowerUps::Damage) => vec![1, 2, 3, 4, 5, 6],
            ItemType::PowerUp(PowerUps::ProjectileSpeed) => vec![24, 25, 26, 27, 28, 29],
            ItemType::PowerUp(PowerUps::ShootRate) => vec![30, 31, 32, 33, 34, 35],
            ItemType::PlusTime(_) => vec![11, 11, 12],
        }
    }

    /// The animation of an item of this kind.
    pub fn get_anim(&self) -> (r: Animation)
        ensures
            r.wf(),
            r.time_per_frame == ITEM_FRAME_MS,
    {
        Animation::new(ITEM_FRAME_MS, self.anim_frames())
    }
}

/// A sound the simulation asks to be played.
#[derive(Clone, Copy, Debug, PartialEq, Eq, Structural)]
pub enum SoundEffect {
    PlayerShoot,
    EnemyShoot,
    PlayerHit,
    EnemyDie,
}

/// How urgent the player's timer looks.
#[derive(Clone, Copy, Debug, PartialEq, Eq, Structural)]
pub enum TimerColor {
    White,
    Yellow,
    Red,
}

/// Seconds below which the timer turns yellow, and red.
pub const TIMER_YELLOW_BELOW: u64 = 90;

pub const TIMER_RED_BELOW: u64 = 45;

/// What the timer readout shows for `remaining` milliseconds: whole
/// seconds, tenths, and its colour.
pub fn timer_readout(remaining: u64) -> (r: (u64, u64, TimerColor))
    ensures
        r.0 == remaining / 1000,
        r.1 == (remaining % 1000) / 100,
        r.2 == (if remaining / 1000 < TIMER_RED_BELOW {
            TimerColor::Red
        } else if remaining / 1000 < TIMER_YELLOW_BELOW {
            TimerColor::Yellow
        } else {
            TimerColor::White
        }),
{
    let secs = remaining / 1000;
    let color = if secs < TIMER_RED_BELOW {
        TimerColor::Red
    } else if secs < TIMER_YELLOW_BELOW {
        TimerColor::Yellow
    } else {
        TimerColor::White
    };
    (secs, (remaining % 1000) / 100, color)
}

} // verus!
