use vstd::arithmetic::div_mod::{lemma_mod_add_multiples_vanish, lemma_mod_self_0, lemma_small_mod};
use vstd::prelude::*;

verus! {

/// The kinds of shot a bunker can fire.
#[derive(Clone, Copy, Debug, PartialEq, Eq, Structural)]
pub enum ShotType {
    CANNON,
    ROCKET,
    SNOW,
}

/// A non-empty, fixed list of weapons with a cyclic selection.
///
/// The selection index is kept reduced modulo the list length on every change,
/// so it can neither overflow nor underflow.
#[derive(Clone, Debug)]
pub struct WeaponDepot {
    current_index: usize,
    weapons: Vec<ShotType>,
}

impl WeaponDepot {
    pub closed spec fn index(&self) -> nat {
        self.current_index as nat
    }

    pub closed spec fn weapons(&self) -> Seq<ShotType> {
        self.weapons@
    }

    pub open spec fn wf(&self) -> bool {
        self.weapons().len() > 0 && self.index() < self.weapons().len()
    }

    /// The weapon that the selection points at.
    pub open spec fn current(&self) -> ShotType {
        self.weapons()[self.index() as int]
    }

    /// Starts with the first weapon selected.
    pub fn new(weapons: Vec<ShotType>) -> (r: WeaponDepot)
        requires
            weapons@.len() > 0,
        ensures
            r.wf(),
            r.weapons() == weapons@,
            r.index() == 0,
    {
        WeaponDepot { current_index: 0, weapons }
    }

    pub fn get_current(&self) -> (r: ShotType)
        requires
            self.wf(),
        ensures
            r == self.current(),
    {
        self.weapons[self.current_index]
    }

    /// Selects the previous weapon, wrapping from the first to the last.
    pub fn prev(&mut self)
        requires
            old(self).wf(),
        ensures
            final(self).wf(),
            final(self).weapons() == old(self).weapons(),
            final(self).index() as int == (old(self).index() + old(self).weapons().len() - 1) as int
                % (old(self).weapons().len() as int),
    {
        let len = self.weapons.len();
        if self.current_index == 0 {
            self.current_index = len - 1;
        } else {
            self.current_index = self.current_index - 1;
            proof {
                lemma_mod_add_multiples_vanish(self.current_index as int, len as int);
            }
        }
        proof {
            lemma_small_mod(self.current_index as nat, len as nat);
        }
    }

    /// Selects the next weapon, wrapping from the last to the first.
    pub fn next(&mut self)
        requires
            old(self).wf(),
        ensures
            final(self).wf(),
            final(self).weapons() == old(self).weapons(),
            final(self).index() as int == (old(self).index() + 1) as int % (old(self).weapons().len() as int),
    {
        let len = self.weapons.len();
        if self.current_index == len - 1 {
            self.current_index = 0;
            proof {
                lemma_mod_self_0(len as int);
            }
        } else {
            self.current_index = self.current_index + 1;
            proof {
                lemma_small_mod(self.current_index as nat, len as nat);
            }
        }
    }
}

} // verus!
