//! Combat data shapes. Present as inert data only: the kernel never
//! resolves combat.

use vstd::prelude::*;
use crate::types::DieRoll;

verus! {

#[derive(PartialEq, Eq, Clone, Debug)]
pub enum DamageType {
    Slice,
    Pierce,
    Blunt,
    Fire,
}

#[derive(PartialEq, Eq, Clone, Debug)]
pub struct Damage {
    pub damage_type: DamageType,
    pub damage: DieRoll,
}

#[derive(PartialEq, Eq, Clone, Debug)]
pub enum PotionEffect {
    Heal(DieRoll),
    Poison(DieRoll),
}

} // verus!
