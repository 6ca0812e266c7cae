//! Kinds of entities and the items a robot can carry, with the decoders for
//! the numeric codes used on the wire.

use vstd::prelude::*;

verus! {

/// A numeric code that names no entity kind or no item.
#[derive(Clone, Copy, Debug, PartialEq, Eq, Hash, Structural)]
pub enum DecodeError {
    /// The code is none of the four entity kinds.
    UnknownEntityType(u32),
    /// The code is none of the three items.
    UnknownItem(i32),
}

/// Entity types.
#[derive(Clone, Copy, Debug, PartialEq, Eq, Hash, Structural)]
pub enum EntityType {
    Miner,
    OpponentMiner,
    BurriedRadar,
    BurriedTrap,
}

impl EntityType {
    /// The entity kind that a code stands for, if any.
    pub open spec fn decode(value: u32) -> Option<EntityType> {
        if value == 0 {
            Some(EntityType::Miner)
        } else if value == 1 {
            Some(EntityType::OpponentMiner)
        } else if value == 2 {
            Some(EntityType::BurriedRadar)
        } else if value == 3 {
            Some(EntityType::BurriedTrap)
        } else {
            None
        }
    }

    /// Decode an entity kind: 0 is an owned robot, 1 an opponent robot, 2 a
    /// buried radar, 3 a buried trap. Any other code is an error that carries
    /// the code.
    pub fn try_from(value: u32) -> (r: Result<EntityType, DecodeError>)
        ensures
            r == match Self::decode(value) {
                Some(t) => Ok::<EntityType, DecodeError>(t),
                None => Err::<EntityType, DecodeError>(DecodeError::UnknownEntityType(value)),
            },
    {
        match value {
            0 => Ok(EntityType::Miner),
            1 => Ok(EntityType::OpponentMiner),
            2 => Ok(EntityType::BurriedRadar),
            3 => Ok(EntityType::BurriedTrap),
            _ => Err(DecodeError::UnknownEntityType(value)),
        }
    }
}

/// Entity, as the registry knows it: robots carry their index in the list of
/// their team.
#[derive(Clone, Copy, Debug, PartialEq, Eq, Hash, Structural)]
pub enum Entity {
    Miner(usize),
    OpponentMiner(usize),
    BurriedRadar,
    BurriedTrap,
}

/// Possible items a miner can hold.
#[derive(Clone, Copy, Debug, PartialEq, Eq, Hash, Structural)]
pub enum Item {
    Radar,
    Trap,
    Ore,
}

impl Item {
    /// The item that a code stands for, if any.
    pub open spec fn decode(value: i32) -> Option<Item> {
        if value == 2 {
            Some(Item::Radar)
        } else if value == 3 {
            Some(Item::Trap)
        } else if value == 4 {
            Some(Item::Ore)
        } else {
            None
        }
    }

    /// Decode an item: 2 is a radar, 3 a trap, 4 ore. Any other code,
    /// including the -1 that stands for empty hands, is an error that carries
    /// the code.
    pub fn try_from(value: i32) -> (r: Result<Item, DecodeError>)
        ensures
            r == match Self::decode(value) {
                Some(i) => Ok::<Item, DecodeError>(i),
                None => Err::<Item, DecodeError>(DecodeError::UnknownItem(value)),
            },
    {
        match value {
            2 => Ok(Item::Radar),
            3 => Ok(Item::Trap),
            4 => Ok(Item::Ore),
            _ => Err(DecodeError::UnknownItem(value)),
        }
    }

    /// What a robot holds according to an item code: the decoded item, or
    /// nothing where the code names none.
    pub fn carried(value: i32) -> (item: Option<Item>)
        ensures
            item == Self::decode(value),
    {
        match Item::try_from(value) {
            Ok(i) => Some(i),
            Err(_) => None,
        }
    }
}

} // verus!
