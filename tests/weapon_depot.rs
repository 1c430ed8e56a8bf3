use cannonland::color::Color;
use cannonland::weapon_depot::{ShotType, WeaponDepot};

fn depot() -> WeaponDepot {
    WeaponDepot::new(vec![ShotType::CANNON, ShotType::ROCKET, ShotType::SNOW])
}

#[test]
fn depot_starts_at_first_weapon() {
    assert_eq!(depot().get_current(), ShotType::CANNON);
}

#[test]
fn depot_next_cycles_modulo_length() {
    let mut d = depot();
    d.next();
    assert_eq!(d.get_current(), ShotType::ROCKET);
    d.next();
    d.next();
    assert_eq!(d.get_current(), ShotType::CANNON);
    d.next();
    assert_eq!(d.get_current(), ShotType::ROCKET);
}

#[test]
fn depot_prev_wraps_below_first() {
    let mut d = depot();
    d.prev();
    assert_eq!(d.get_current(), ShotType::SNOW);
    d.prev();
    assert_eq!(d.get_current(), ShotType::ROCKET);
}

#[test]
fn depot_survives_many_steps() {
    let mut d = depot();
    for _ in 0..1000 {
        d.next();
    }
    // 1000 mod 3 == 1
    assert_eq!(d.get_current(), ShotType::ROCKET);
    for _ in 0..1001 {
        d.prev();
    }
    assert_eq!(d.get_current(), ShotType::SNOW);
}

#[test]
fn depot_of_one_weapon() {
    let mut d = WeaponDepot::new(vec![ShotType::SNOW]);
    d.next();
    d.prev();
    d.prev();
    assert_eq!(d.get_current(), ShotType::SNOW);
}

#[test]
fn color_classes() {
    assert!(Color::DIRT.can_fall());
    assert!(!Color::ROCK.can_fall());
    assert!(Color::EMPTY.can_move_into());
    assert!(!Color::WATER.can_move_into());
    assert!(Color::BunkerOrange.is_bunker());
    assert!(!Color::BETON.is_bunker());
    assert_eq!(Color::EMPTY.get_rgba().3, 0);
}
