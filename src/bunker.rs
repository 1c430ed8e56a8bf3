use vstd::prelude::*;

use crate::color::Color;
use crate::weapon_depot::{ShotType, WeaponDepot};

verus! {

/// Half a turn, in microradians (the unit of every angle here).
pub const ANGLE_PI: i32 = 3_141_593;

/// A full turn, in microradians.
pub const ANGLE_TWO_PI: i32 = 2 * ANGLE_PI;

/// Straight up in the grid's downward-y convention: three quarters of a turn
/// (`ANGLE_PI` plus its half, rounded down).
pub const ANGLE_UP: i32 = 4_712_389;

/// Where a bunker that has not been placed yet stands, far outside any grid.
pub const NOWHERE: i16 = 4096;

/// A combat structure: position, aim, charge, health and a weapon selection.
/// Its marker color in the grid never changes.
#[derive(Clone, Debug)]
pub struct Bunker {
    particle_type: Color,
    pub x_pos: i16,
    pub y_pos: i16,
    radius: u8,
    angle: i32,
    cannon_length: i16,
    charge: u8,
    max_charge: u8,
    health: u8,
    max_health: u8,
    weapons: WeaponDepot,
    pub player_active: bool,
}

/// Whether a blast of radius `r` at `(x, y)` reaches a bunker of radius `br` at
/// `(bx, by)`: the bunker's y is at least the blast's y minus `r` (y grows downward, so
/// blasts centered further below are ignored), and the centers are strictly closer than
/// the sum of the radii.
pub open spec fn blast_reaches(bx: int, by: int, br: int, x: int, y: int, r: int) -> bool {
    by >= y - r && (bx - x) * (bx - x) + (by - y) * (by - y) < (br + r) * (br + r)
}

pub open spec fn clamp(v: int, lo: int, hi: int) -> int {
    if v < lo {
        lo
    } else if v > hi {
        hi
    } else {
        v
    }
}

pub open spec fn capped_add(a: int, b: int, cap: int) -> int {
    if a + b > cap {
        cap
    } else {
        a + b
    }
}

impl Bunker {
    pub closed spec fn spec_color(&self) -> Color {
        self.particle_type
    }

    pub closed spec fn spec_x(&self) -> i16 {
        self.x_pos
    }

    pub closed spec fn spec_y(&self) -> i16 {
        self.y_pos
    }

    pub closed spec fn spec_player_active(&self) -> bool {
        self.player_active
    }

    pub closed spec fn spec_radius(&self) -> u8 {
        self.radius
    }

    /// Aim in microradians.
    pub closed spec fn spec_angle(&self) -> i32 {
        self.angle
    }

    pub closed spec fn spec_cannon_length(&self) -> i16 {
        self.cannon_length
    }

    pub closed spec fn spec_charge(&self) -> u8 {
        self.charge
    }

    pub closed spec fn spec_max_charge(&self) -> u8 {
        self.max_charge
    }

    pub closed spec fn spec_health(&self) -> u8 {
        self.health
    }

    pub closed spec fn spec_max_health(&self) -> u8 {
        self.max_health
    }

    pub closed spec fn spec_weapons(&self) -> WeaponDepot {
        self.weapons
    }

    pub open spec fn wf(&self) -> bool {
        &&& self.spec_charge() <= self.spec_max_charge()
        &&& self.spec_health() <= self.spec_max_health()
        &&& ANGLE_PI <= self.spec_angle() <= ANGLE_TWO_PI
        &&& self.spec_weapons().wf()
    }

    /// Everything but the position agrees.
    pub open spec fn same_state(&self, other: &Bunker) -> bool {
        &&& self.spec_color() == other.spec_color()
        &&& self.spec_radius() == other.spec_radius()
        &&& self.spec_angle() == other.spec_angle()
        &&& self.spec_cannon_length() == other.spec_cannon_length()
        &&& self.spec_charge() == other.spec_charge()
        &&& self.spec_max_charge() == other.spec_max_charge()
        &&& self.spec_health() == other.spec_health()
        &&& self.spec_max_health() == other.spec_max_health()
        &&& self.spec_weapons() == other.spec_weapons()
        &&& self.spec_player_active() == other.spec_player_active()
    }

    /// Everything but health agrees.
    pub open spec fn same_but_health(&self, other: &Bunker) -> bool {
        &&& self.spec_color() == other.spec_color()
        &&& self.spec_x() == other.spec_x()
        &&& self.spec_y() == other.spec_y()
        &&& self.spec_radius() == other.spec_radius()
        &&& self.spec_angle() == other.spec_angle()
        &&& self.spec_cannon_length() == other.spec_cannon_length()
        &&& self.spec_charge() == other.spec_charge()
        &&& self.spec_max_charge() == other.spec_max_charge()
        &&& self.spec_max_health() == other.spec_max_health()
        &&& self.spec_weapons() == other.spec_weapons()
        &&& self.spec_player_active() == other.spec_player_active()
    }

    /// Whether a blast at `(x, y)` of radius `r` would damage this bunker.
    pub open spec fn harmed_by(&self, x: int, y: int, r: int) -> bool {
        blast_reaches(
            self.spec_x() as int,
            self.spec_y() as int,
            self.spec_radius() as int,
            x,
            y,
            r,
        )
    }

    /// A bunker that has not been placed yet.
    pub fn new_at_nowhere(particle_type: Color) -> (r: Bunker)
        ensures
            r.wf(),
            r.spec_color() == particle_type,
            r.spec_x() == NOWHERE,
            r.spec_y() == NOWHERE,
            r.spec_radius() == 10,
            r.spec_angle() == ANGLE_UP,
            r.spec_cannon_length() == 20,
            r.spec_charge() == 0,
            r.spec_max_charge() == 100,
            r.spec_health() == 100,
            r.spec_max_health() == 100,
            r.spec_weapons().weapons() == seq![ShotType::CANNON, ShotType::ROCKET, ShotType::SNOW],
            r.spec_weapons().index() == 0,
            !r.spec_player_active(),
    {
        Bunker::new(particle_type, NOWHERE, NOWHERE)
    }

    pub fn is_alive(&self) -> (r: bool)
        ensures
            r == (self.spec_health() > 0),
    {
        self.health > 0
    }

    /// A fresh bunker at `(x_pos, y_pos)`: aiming straight up, no charge, full health,
    /// and the cannon, rocket and snow weapons with the cannon selected.
    pub fn new(particle_type: Color, x_pos: i16, y_pos: i16) -> (r: Bunker)
        ensures
            r.wf(),
            r.spec_color() == particle_type,
            r.spec_x() == x_pos,
            r.spec_y() == y_pos,
            r.spec_radius() == 10,
            r.spec_angle() == ANGLE_UP,
            r.spec_cannon_length() == 20,
            r.spec_charge() == 0,
            r.spec_max_charge() == 100,
            r.spec_health() == 100,
            r.spec_max_health() == 100,
            r.spec_weapons().weapons() == seq![ShotType::CANNON, ShotType::ROCKET, ShotType::SNOW],
            r.spec_weapons().index() == 0,
            !r.spec_player_active(),
    {
        let weapons = vec![ShotType::CANNON, ShotType::ROCKET, ShotType::SNOW];
        assert(weapons@ =~= seq![ShotType::CANNON, ShotType::ROCKET, ShotType::SNOW]);
        Bunker {
            particle_type,
            x_pos,
            y_pos,
            radius: 10,
            angle: ANGLE_UP,
            cannon_length: 20,
            charge: 0,
            max_charge: 100,
            health: 100,
            max_health: 100,
            weapons: WeaponDepot::new(weapons),
            player_active: false,
        }
    }

    pub fn get_rgba(&self) -> (r: (u8, u8, u8, u8))
        ensures
            r.3 == 0 <==> (self.spec_color() == Color::EMPTY || self.spec_color() == Color::BLUR),
    {
        self.particle_type.get_rgba()
    }

    pub fn get_color(&self) -> (r: Color)
        ensures
            r == self.spec_color(),
    {
        self.particle_type
    }

    pub fn get_radius(&self) -> (r: u8)
        ensures
            r == self.spec_radius(),
    {
        self.radius
    }

    pub fn get_cannon_length(&self) -> (r: i16)
        ensures
            r == self.spec_cannon_length(),
    {
        self.cannon_length
    }

    /// The aim, in microradians.
    pub fn get_angle_radians(&self) -> (r: i32)
        ensures
            r == self.spec_angle(),
    {
        self.angle
    }

    /// Turns the aim by `angle_change` microradians, clamped into the upper half-turn
    /// `[ANGLE_PI, ANGLE_TWO_PI]`.
    pub fn change_angle_radians_trim_overflow(&mut self, angle_change: i32)
        requires
            old(self).wf(),
        ensures
            final(self).wf(),
            final(self).spec_angle() == clamp(
                old(self).spec_angle() + angle_change,
                ANGLE_PI as int,
                ANGLE_TWO_PI as int,
            ),
            final(self).spec_x() == old(self).spec_x(),
            final(self).spec_y() == old(self).spec_y(),
            final(self).spec_color() == old(self).spec_color(),
            final(self).spec_charge() == old(self).spec_charge(),
            final(self).spec_health() == old(self).spec_health(),
            final(self).spec_max_charge() == old(self).spec_max_charge(),
            final(self).spec_max_health() == old(self).spec_max_health(),
            final(self).spec_weapons() == old(self).spec_weapons(),
    {
        let turned: i64 = self.angle as i64 + angle_change as i64;
        if turned < ANGLE_PI as i64 {
            self.angle = ANGLE_PI;
        } else if turned > ANGLE_TWO_PI as i64 {
            self.angle = ANGLE_TWO_PI;
        } else {
            self.angle = turned as i32;
        }
    }

    pub fn get_charge(&self) -> (r: u8)
        ensures
            r == self.spec_charge(),
    {
        self.charge
    }

    /// Adds to the charge, saturating at the maximum charge.
    pub fn increment_charge(&mut self, charge_amount: u8)
        requires
            old(self).wf(),
        ensures
            final(self).wf(),
            final(self).spec_charge() == capped_add(
                old(self).spec_charge() as int,
                charge_amount as int,
                old(self).spec_max_charge() as int,
            ),
            final(self).spec_charge() <= final(self).spec_max_charge(),
            final(self).spec_max_charge() == old(self).spec_max_charge(),
            final(self).spec_health() == old(self).spec_health(),
            final(self).spec_angle() == old(self).spec_angle(),
            final(self).spec_weapons() == old(self).spec_weapons(),
    {
        if charge_amount >= self.max_charge - self.charge {
            self.charge = self.max_charge;
        } else {
            self.charge = self.charge + charge_amount;
        }
    }

    pub fn reset_charge(&mut self)
        requires
            old(self).wf(),
        ensures
            final(self).wf(),
            final(self).spec_charge() == 0,
            final(self).spec_max_charge() == old(self).spec_max_charge(),
            final(self).spec_health() == old(self).spec_health(),
            final(self).spec_angle() == old(self).spec_angle(),
            final(self).spec_weapons() == old(self).spec_weapons(),
    {
        self.charge = 0;
    }

    pub fn get_max_charge(&self) -> (r: u8)
        ensures
            r == self.spec_max_charge(),
    {
        self.max_charge
    }

    pub fn get_health(&self) -> (r: u8)
        ensures
            r == self.spec_health(),
    {
        self.health
    }

    /// Whether a blast of radius `radius` at `(x_pos, y_pos)` would damage this bunker.
    pub fn would_harm_in_radius(&self, x_pos: i16, y_pos: i16, radius: u8) -> (r: bool)
        ensures
            r == self.harmed_by(x_pos as int, y_pos as int, radius as int),
    {
        let dx: i64 = self.x_pos as i64 - x_pos as i64;
        let dy: i64 = self.y_pos as i64 - y_pos as i64;
        let reach: i64 = self.radius as i64 + radius as i64;
        assert(dx * dx <= 65536 * 65536) by (nonlinear_arith)
            requires
                -65536 <= dx <= 65536,
        ;
        assert(dy * dy <= 65536 * 65536) by (nonlinear_arith)
            requires
                -65536 <= dy <= 65536,
        ;
        assert(0 <= reach * reach <= 512 * 512) by (nonlinear_arith)
            requires
                0 <= reach <= 512,
        ;
        assert(dx * dx >= 0 && dy * dy >= 0) by (nonlinear_arith);
        self.y_pos as i64 >= y_pos as i64 - radius as i64 && dx * dx + dy * dy < reach * reach
    }

    /// Damages the bunker by `harm_amount` if the blast reaches it.
    pub fn harm_if_in_radius(&mut self, x_pos: i16, y_pos: i16, radius: u8, harm_amount: u8)
        requires
            old(self).wf(),
        ensures
            final(self).wf(),
            final(self).same_but_health(old(self)),
            final(self).spec_health() == if old(self).harmed_by(
                x_pos as int,
                y_pos as int,
                radius as int,
            ) {
                if old(self).spec_health() >= harm_amount {
                    old(self).spec_health() - harm_amount
                } else {
                    0
                }
            } else {
                old(self).spec_health() as int
            },
    {
        if self.would_harm_in_radius(x_pos, y_pos, radius) {
            self.harm(harm_amount);
        }
    }

    fn harm(&mut self, harm_amount: u8)
        requires
            old(self).wf(),
        ensures
            final(self).wf(),
            final(self).same_but_health(old(self)),
            final(self).spec_health() == if old(self).spec_health() >= harm_amount {
                old(self).spec_health() - harm_amount
            } else {
                0
            },
    {
        if self.health >= harm_amount {
            self.health = self.health - harm_amount;
        } else {
            self.health = 0;
        }
    }

    /// Restores health, saturating at the maximum health.
    pub fn heal(&mut self, heal_amount: u8)
        requires
            old(self).wf(),
        ensures
            final(self).wf(),
            final(self).same_but_health(old(self)),
            final(self).spec_health() == capped_add(
                old(self).spec_health() as int,
                heal_amount as int,
                old(self).spec_max_health() as int,
            ),
    {
        if heal_amount >= self.max_health - self.health {
            self.health = self.max_health;
        } else {
            self.health = self.health + heal_amount;
        }
    }

    pub fn get_max_health(&self) -> (r: u8)
        ensures
            r == self.spec_max_health(),
    {
        self.max_health
    }

    pub fn next_weapon(&mut self)
        requires
            old(self).wf(),
        ensures
            final(self).wf(),
            final(self).spec_weapons().weapons() == old(self).spec_weapons().weapons(),
            final(self).spec_weapons().index() as int == (old(self).spec_weapons().index() + 1) as int
                % (old(self).spec_weapons().weapons().len() as int),
            final(self).spec_health() == old(self).spec_health(),
            final(self).spec_charge() == old(self).spec_charge(),
            final(self).spec_angle() == old(self).spec_angle(),
    {
        self.weapons.next();
    }

    pub fn prev_weapon(&mut self)
        requires
            old(self).wf(),
        ensures
            final(self).wf(),
            final(self).spec_weapons().weapons() == old(self).spec_weapons().weapons(),
            final(self).spec_weapons().index() as int == (old(self).spec_weapons().index()
                + old(self).spec_weapons().weapons().len() - 1) as int % (old(
                self,
            ).spec_weapons().weapons().len() as int),
            final(self).spec_health() == old(self).spec_health(),
            final(self).spec_charge() == old(self).spec_charge(),
            final(self).spec_angle() == old(self).spec_angle(),
    {
        self.weapons.prev();
    }

    pub fn get_current_weapon(&self) -> (r: ShotType)
        requires
            self.wf(),
        ensures
            r == self.spec_weapons().current(),
    {
        self.weapons.get_current()
    }

    /// Moves the bunker to `(x, y)`, keeping everything else.
    pub fn place(&mut self, x: i16, y: i16)
        ensures
            final(self).spec_x() == x,
            final(self).spec_y() == y,
            final(self).same_state(old(self)),
    {
        self.x_pos = x;
        self.y_pos = y;
    }
}

/// A blast whose center lies exactly at the sum of the radii away does no harm.
pub proof fn lemma_harm_boundary(b: Bunker, x: int, y: int, r: int)
    requires
        (b.spec_x() - x) * (b.spec_x() - x) + (b.spec_y() - y) * (b.spec_y() - y) == (b.spec_radius() + r) * (
        b.spec_radius() + r),
    ensures
        !b.harmed_by(x, y, r),
{
}

} // verus!
