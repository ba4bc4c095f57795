use ld44::{
    timer_readout, Animation, Item, ItemType, Player, PowerUps, ShootDirection, Shooter, TimeLeft,
    TimerColor,
};

fn power_up(kind: PowerUps) -> Item {
    Item::new((1, 1), ItemType::PowerUp(kind), 0)
}

#[test]
fn timer_starts_full() {
    let t = TimeLeft::new(180);
    assert_eq!(t.remaining, 180000);
    assert_eq!(t.max, 180000);
}

#[test]
fn timer_subtract_stops_at_zero() {
    let mut t = TimeLeft::new(10);
    t.subtract(4000);
    assert_eq!(t.remaining, 6000);
    t.subtract(6001);
    assert_eq!(t.remaining, 0);
    t.subtract(5);
    assert_eq!(t.remaining, 0);
    assert_eq!(t.max, 10000);
}

#[test]
fn timer_add_stops_at_max() {
    let mut t = TimeLeft { remaining: 170000, max: 180000 };
    t.add(5000);
    assert_eq!(t.remaining, 175000);
    t.add(20000);
    assert_eq!(t.remaining, 180000);
    t.add(u64::MAX);
    assert_eq!(t.remaining, 180000);
}

#[test]
fn plus_time_item_adds_then_costs() {
    let mut t = TimeLeft { remaining: 20000, max: 180000 };
    let item = Item::new((3, 4), ItemType::PlusTime(10), 5);
    t.apply_item(&item);
    assert_eq!(t.remaining, 25000);
}

#[test]
fn plus_time_item_is_capped_before_cost() {
    let mut t = TimeLeft { remaining: 178000, max: 180000 };
    t.apply_item(&Item::new((0, 0), ItemType::PlusTime(10), 5));
    assert_eq!(t.remaining, 175000);
}

#[test]
fn power_up_item_only_costs_time() {
    let mut t = TimeLeft { remaining: 20000, max: 180000 };
    t.apply_item(&Item::new((0, 0), ItemType::PowerUp(PowerUps::Damage), 15));
    assert_eq!(t.remaining, 5000);
    t.apply_item(&Item::new((0, 0), ItemType::PowerUp(PowerUps::Speed), 15));
    assert_eq!(t.remaining, 0);
}

#[test]
fn shooter_starts_with_dithered_cooldown() {
    let s = Shooter::new(2, 7000);
    assert_eq!(s.shoot_rate, 2000);
    assert!(s.current_cooldown >= 2000 && s.current_cooldown <= 2300);
    assert_eq!(s.speed, 7000);
    assert_eq!(s.upgrades, 0);
}

#[test]
fn rate_upgrades_follow_table_then_stop() {
    let mut s = Shooter::new(1, 5000);
    let item = power_up(PowerUps::ShootRate);
    let expected = [800u64, 600, 500, 400, 300, 250, 200, 150, 125, 100, 75, 75, 75];
    for want in expected.iter() {
        s.apply_item(&item);
        assert_eq!(s.shoot_rate, *want);
    }
    assert_eq!(s.upgrades, 11);
}

#[test]
fn rate_upgrade_never_goes_below_zero() {
    let mut s = Shooter { shoot_rate: 150, current_cooldown: 0, speed: 0, upgrades: 0 };
    s.apply_item(&power_up(PowerUps::ShootRate));
    assert_eq!(s.shoot_rate, 0);
    assert_eq!(s.upgrades, 1);
}

#[test]
fn projectile_speed_upgrade() {
    let mut s = Shooter::new(1, 5000);
    s.apply_item(&power_up(PowerUps::ProjectileSpeed));
    assert_eq!(s.speed, 7000);
    s.apply_item(&power_up(PowerUps::Damage));
    assert_eq!(s.speed, 7000);
}

#[test]
fn cooldown_set_and_decay() {
    let mut s = Shooter { shoot_rate: 1000, current_cooldown: 0, speed: 0, upgrades: 0 };
    s.set_cooldown();
    assert_eq!(s.current_cooldown, 1000);
    s.cool_down(300);
    assert_eq!(s.current_cooldown, 700);
    s.cool_down(5000);
    assert_eq!(s.current_cooldown, 0);
}

#[test]
fn player_upgrades() {
    let mut p = Player::default();
    assert_eq!(p.damage, 10);
    assert_eq!(p.speed_multi, 4000);
    p.apply_item(&power_up(PowerUps::Damage));
    assert_eq!(p.damage, 20);
    p.apply_item(&power_up(PowerUps::Speed));
    assert_eq!(p.speed_multi, 5000);
    p.apply_item(&Item::new((0, 0), ItemType::PlusTime(10), 0));
    assert_eq!(p.damage, 20);
    assert_eq!(p.speed_multi, 5000);
}

#[test]
fn second_hit_in_window_is_ignored() {
    let mut p = Player::default();
    let mut t = TimeLeft::new(180);
    p.take_hit(&mut t);
    assert_eq!(t.remaining, 165000);
    assert_eq!(p.invincible_time, 1000);
    p.take_hit(&mut t);
    assert_eq!(t.remaining, 165000);
    p.decay_invincibility(600);
    p.take_hit(&mut t);
    assert_eq!(t.remaining, 165000);
    p.decay_invincibility(400);
    assert_eq!(p.invincible_time, 0);
    p.take_hit(&mut t);
    assert_eq!(t.remaining, 150000);
}

#[test]
fn shoot_direction_from_signals() {
    assert_eq!(ShootDirection::from_buttons(true, false, true, false), ShootDirection::UpLeft);
    assert_eq!(ShootDirection::from_buttons(true, false, false, false), ShootDirection::Left);
    assert_eq!(ShootDirection::from_buttons(false, true, false, true), ShootDirection::DownRight);
    assert_eq!(ShootDirection::from_buttons(false, false, true, false), ShootDirection::Up);
    assert_eq!(ShootDirection::from_buttons(true, true, false, false), ShootDirection::NoShot);
    assert_eq!(ShootDirection::from_buttons(false, false, true, true), ShootDirection::NoShot);
    assert_eq!(ShootDirection::from_buttons(false, false, false, false), ShootDirection::NoShot);
}

#[test]
fn shot_velocities() {
    assert_eq!(ShootDirection::UpLeft.velocity(5000), (-3535, 3535));
    assert_eq!(ShootDirection::DownRight.velocity(5000), (3535, -3535));
    assert_eq!(ShootDirection::DownLeft.velocity(5000), (-3535, -3535));
    assert_eq!(ShootDirection::Right.velocity(5000), (5000, 0));
    assert_eq!(ShootDirection::Down.velocity(5000), (0, -5000));
    assert_eq!(ShootDirection::NoShot.velocity(5000), (0, 0));
}

#[test]
fn item_sprites() {
    assert_eq!(ItemType::PlusTime(3).to_sprite_sheet_num(), 11);
    assert_eq!(ItemType::PowerUp(PowerUps::Speed).to_sprite_sheet_num(), 36);
    assert_eq!(ItemType::PowerUp(PowerUps::Damage).to_sprite_sheet_num(), 1);
}

#[test]
fn random_power_ups_vary() {
    let mut seen = [false; 4];
    for _ in 0..400 {
        let i = match PowerUps::get_random() {
            PowerUps::Speed => 0,
            PowerUps::ShootRate => 1,
            PowerUps::ProjectileSpeed => 2,
            PowerUps::Damage => 3,
        };
        seen[i] = true;
    }
    assert!(seen.iter().all(|s| *s));
}

#[test]
fn animation_cycles_frames() {
    let mut a = Animation::new(200, vec![1, 2, 3]);
    assert!(a.cooldown < 200);
    assert_eq!(a.next, 0);
    a.cool_down(200);
    assert_eq!(a.advance(), Some(1));
    assert_eq!(a.cooldown, 200);
    assert_eq!(a.advance(), None);
    let mut shown = Vec::new();
    for _ in 0..4 {
        a.cool_down(250);
        shown.push(a.advance().unwrap());
    }
    assert_eq!(shown, vec![2, 3, 1, 2]);
}

#[test]
fn item_animations() {
    let a = ItemType::PlusTime(10).get_anim();
    assert_eq!(a.frames, vec![11, 11, 12]);
    assert_eq!(a.time_per_frame, 200);
    let b = ItemType::PowerUp(PowerUps::ShootRate).get_anim();
    assert_eq!(b.frames, vec![30, 31, 32, 33, 34, 35]);
}

#[test]
fn timer_readout_and_colours() {
    assert_eq!(timer_readout(95400), (95, 4, TimerColor::White));
    assert_eq!(timer_readout(90000), (90, 0, TimerColor::White));
    assert_eq!(timer_readout(60050), (60, 0, TimerColor::Yellow));
    assert_eq!(timer_readout(44999), (44, 9, TimerColor::Red));
    assert_eq!(timer_readout(0), (0, 0, TimerColor::Red));
}

#[test]
fn component_defaults() {
    assert_eq!(ShootDirection::default(), ShootDirection::NoShot);
    assert!(ld44::EnemyFlag::default().moves);
    assert!(!ld44::EnemyFlag::new_stationary().moves);
    assert_eq!(ld44::GameMapTile::default(), ld44::GameMapTile::Nothing);
    assert_eq!(ld44::GamePosition::default(), ld44::GamePosition { x: 0, y: 0 });
    let p = Player::default();
    assert_eq!(p.invincible_time, 0);
    assert_eq!((p.speed_x, p.speed_y), (0, 0));
}

#[test]
fn power_up_numbers() {
    assert_eq!(PowerUps::power_up_from(0), PowerUps::Speed);
    assert_eq!(PowerUps::power_up_from(1), PowerUps::ShootRate);
    assert_eq!(PowerUps::power_up_from(2), PowerUps::ProjectileSpeed);
    assert_eq!(PowerUps::power_up_from(3), PowerUps::Damage);
}
