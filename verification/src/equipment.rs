//! Equipment and inventory data shapes. Inert to the kernel: items are
//! entities like any other and never block movement or vision.

use vstd::prelude::*;
use crate::combat::Damage;
use crate::combat::PotionEffect;
use crate::entity::EntityId;

verus! {

pub struct Armor {}

pub enum HandsEquipment {
    TwoHanded(Option<EntityId>),
    OneHanded { left: Option<EntityId>, right: Option<EntityId> },
}

pub struct Equipment {
    pub armor: Armor,
    pub hands: HandsEquipment,
}

pub struct Inventory {
    pub items: Vec<EntityId>,
}

#[derive(PartialEq, Eq, Clone, Debug)]
pub enum ItemKind {
    Weapon { damage: Vec<Damage> },
    Armor { defense: u64 },
    Potion { effect: PotionEffect },
}

} // verus!
