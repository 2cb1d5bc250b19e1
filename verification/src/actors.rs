//! Weapons and enemies.

use vstd::prelude::*;

verus! {

#[derive(Clone, Copy, PartialEq, Eq, Debug)]
pub enum Weapon {
    Default,
    Spread,
    Laser,
    Machine,
    Fireball,
}

#[derive(Clone, Copy, PartialEq, Eq, Debug)]
pub enum EnemyType {
    Soldier,
    Sniper,
    Turret,
    Runner,
    Boss,
}

} // verus!
