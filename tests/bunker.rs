use cannonland::bunker::{Bunker, ANGLE_PI, ANGLE_TWO_PI, ANGLE_UP};
use cannonland::color::Color;
use cannonland::weapon_depot::ShotType;

#[test]
fn new_bunker_defaults() {
    let b = Bunker::new(Color::BunkerRed, 30, 40);
    assert_eq!(b.get_color(), Color::BunkerRed);
    assert_eq!((b.x_pos, b.y_pos), (30, 40));
    assert_eq!(b.get_radius(), 10);
    assert_eq!(b.get_cannon_length(), 20);
    assert_eq!(b.get_angle_radians(), ANGLE_UP);
    assert_eq!(b.get_charge(), 0);
    assert_eq!(b.get_max_charge(), 100);
    assert_eq!(b.get_health(), 100);
    assert_eq!(b.get_max_health(), 100);
    assert_eq!(b.get_current_weapon(), ShotType::CANNON);
    assert!(b.is_alive());
    assert!(!b.player_active);
}

#[test]
fn bunker_at_nowhere() {
    let b = Bunker::new_at_nowhere(Color::BunkerGrey);
    assert_eq!((b.x_pos, b.y_pos), (4096, 4096));
    assert_eq!(b.get_color(), Color::BunkerGrey);
    assert_eq!(b.get_rgba(), Color::BunkerGrey.get_rgba());
}

#[test]
fn harm_stops_at_the_sum_of_radii() {
    let mut b = Bunker::new(Color::BunkerBlue, 100, 100);
    assert!(!b.would_harm_in_radius(115, 100, 5));
    b.harm_if_in_radius(115, 100, 5, 30);
    assert_eq!(b.get_health(), 100);
    assert!(b.would_harm_in_radius(114, 100, 5));
    b.harm_if_in_radius(114, 100, 5, 30);
    assert_eq!(b.get_health(), 70);
    // 9 * 9 + 12 * 12 == 15 * 15
    b.harm_if_in_radius(109, 88, 5, 30);
    assert_eq!(b.get_health(), 70);
}

#[test]
fn harm_from_below_is_excluded() {
    let b = Bunker::new(Color::BunkerBlue, 100, 100);
    assert!(!b.would_harm_in_radius(100, 106, 5));
    assert!(b.would_harm_in_radius(100, 105, 5));
    assert!(b.would_harm_in_radius(100, 90, 5));
}

#[test]
fn harm_saturates_at_zero() {
    let mut b = Bunker::new(Color::BunkerBlue, 0, 0);
    b.harm_if_in_radius(0, 0, 1, 250);
    assert_eq!(b.get_health(), 0);
    assert!(!b.is_alive());
    b.harm_if_in_radius(0, 0, 1, 1);
    assert_eq!(b.get_health(), 0);
}

#[test]
fn heal_caps_at_max_health() {
    let mut b = Bunker::new(Color::BunkerBlue, 0, 0);
    b.harm_if_in_radius(0, 0, 1, 30);
    b.heal(10);
    assert_eq!(b.get_health(), 80);
    b.heal(50);
    assert_eq!(b.get_health(), 100);
    b.heal(255);
    assert_eq!(b.get_health(), 100);
}

#[test]
fn charge_saturates_and_resets() {
    let mut b = Bunker::new(Color::BunkerBlue, 0, 0);
    let mut seen = vec![];
    for _ in 0..5 {
        b.increment_charge(30);
        assert!(b.get_charge() <= b.get_max_charge());
        seen.push(b.get_charge());
    }
    assert_eq!(seen, vec![30, 60, 90, 100, 100]);
    b.increment_charge(255);
    assert_eq!(b.get_charge(), 100);
    b.reset_charge();
    assert_eq!(b.get_charge(), 0);
    b.reset_charge();
    assert_eq!(b.get_charge(), 0);
}

#[test]
fn angle_clamps_to_upper_half_turn() {
    let mut b = Bunker::new(Color::BunkerBlue, 0, 0);
    b.change_angle_radians_trim_overflow(10_000_000);
    assert_eq!(b.get_angle_radians(), ANGLE_TWO_PI);
    b.change_angle_radians_trim_overflow(-10_000_000);
    assert_eq!(b.get_angle_radians(), ANGLE_PI);
    b.change_angle_radians_trim_overflow(1000);
    assert_eq!(b.get_angle_radians(), ANGLE_PI + 1000);
    b.change_angle_radians_trim_overflow(i32::MIN);
    assert_eq!(b.get_angle_radians(), ANGLE_PI);
    b.change_angle_radians_trim_overflow(i32::MAX);
    assert_eq!(b.get_angle_radians(), ANGLE_TWO_PI);
}

#[test]
fn angle_constants() {
    assert_eq!(ANGLE_PI, 3_141_593);
    assert_eq!(ANGLE_TWO_PI, 6_283_186);
    assert_eq!(ANGLE_UP, 4_712_389);
}

#[test]
fn bunker_cycles_weapons() {
    let mut b = Bunker::new(Color::BunkerBlue, 0, 0);
    b.next_weapon();
    assert_eq!(b.get_current_weapon(), ShotType::ROCKET);
    b.prev_weapon();
    b.prev_weapon();
    assert_eq!(b.get_current_weapon(), ShotType::SNOW);
}
