use ld44::game_scale::{enemy_variant, roster_size};
use ld44::{
    gen_enemy_list, get_enemy_bullet_speed, get_enemy_speed, get_enemy_time, get_powerup_cost,
    Enemies,
};

#[test]
fn floor_zero_scaling() {
    assert_eq!(get_enemy_time(0), 25);
    assert_eq!(get_enemy_bullet_speed(0), 3000);
    assert_eq!(get_powerup_cost(0), 10);
    assert_eq!(roster_size(0, 0), 1);
}

#[test]
fn scaling_formulas_on_later_floors() {
    assert_eq!(get_enemy_time(3), 40);
    assert_eq!(get_enemy_time(10), 75);
    assert_eq!(get_powerup_cost(4), 10);
    assert_eq!(get_powerup_cost(5), 15);
    assert_eq!(get_powerup_cost(12), 20);
    assert_eq!(get_enemy_bullet_speed(2), 3000);
    assert_eq!(get_enemy_bullet_speed(3), 4000);
    assert_eq!(get_enemy_bullet_speed(7), 5000);
    assert_eq!(get_enemy_speed(2), 2000);
    assert_eq!(get_enemy_speed(5), 2000);
    assert_eq!(get_enemy_speed(8), 2900);
}

#[test]
fn largest_floor_stays_in_range() {
    assert_eq!(get_enemy_time(u32::MAX), (u32::MAX as u64) * 5 + 25);
    assert_eq!(get_enemy_bullet_speed(u32::MAX), ((u32::MAX / 3) as i64 + 3) * 1000);
    assert_eq!(roster_size(u32::MAX, 0), (u32::MAX / 2) as u64 + 1);
}

#[test]
fn roster_draw_kept_when_above_lower_bound() {
    assert_eq!(roster_size(4, 10), 10);
    assert_eq!(roster_size(4, 3), 3);
    assert_eq!(roster_size(4, 2), 3);
    assert_eq!(roster_size(9, 0), 5);
}

#[test]
fn roster_lower_bound_never_falls() {
    for f in 0u32..60 {
        let next = roster_size(f + 1, 0);
        assert!(next >= ((f + 1) / 2) as u64 + 1);
        assert!(roster_size(f, 0) <= next);
    }
}

#[test]
fn variant_coin_flips_compound() {
    assert_eq!(enemy_variant(true, true), Enemies::Stationary);
    assert_eq!(enemy_variant(true, false), Enemies::Stationary);
    assert_eq!(enemy_variant(false, true), Enemies::NoShoot);
    assert_eq!(enemy_variant(false, false), Enemies::Full);
}

#[test]
fn roster_list_has_roster_size() {
    assert_eq!(gen_enemy_list(0, 0).len(), 1);
    assert_eq!(gen_enemy_list(3, 0).len(), 2);
    assert_eq!(gen_enemy_list(0, 7).len(), 7);
}

#[test]
fn roster_variants_vary() {
    let list = gen_enemy_list(0, 300);
    let stationary = list.iter().filter(|e| **e == Enemies::Stationary).count();
    let no_shoot = list.iter().filter(|e| **e == Enemies::NoShoot).count();
    let full = list.iter().filter(|e| **e == Enemies::Full).count();
    assert_eq!(stationary + no_shoot + full, 300);
    assert!(stationary > 0);
    assert!(no_shoot > 0);
    assert!(full > 0);
}
