//! The ship catalog: the closed set of ship types and the length of each.

use crate::text::same_text;
use vstd::prelude::*;

verus! {

pub const CARRIER_LENGTH: usize = 5;
pub const BATTLESHIP_LENGTH: usize = 4;
pub const CRUISER_LENGTH: usize = 3;
pub const SUBMARINE_LENGTH: usize = 3;
pub const DESTROYER_LENGTH: usize = 2;

/// Number of ship types in the catalog; a complete fleet holds one ship of each.
pub const FLEET_SIZE: usize = 5;

/// Cells covered by a complete fleet.
pub const FLEET_CELLS: usize = 17;

#[derive(Clone, Copy, Debug, PartialEq, Eq, Structural, Hash)]
pub enum ShipType {
    Carrier,
    Battleship,
    Cruiser,
    Submarine,
    Destroyer,
}

/// The catalog entry that a wire name denotes, if any.
pub open spec fn ship_type_named(name: Seq<char>) -> Option<ShipType> {
    if name == "carrier"@ {
        Some(ShipType::Carrier)
    } else if name == "battleship"@ {
        Some(ShipType::Battleship)
    } else if name == "cruiser"@ {
        Some(ShipType::Cruiser)
    } else if name == "submarine"@ {
        Some(ShipType::Submarine)
    } else if name == "destroyer"@ {
        Some(ShipType::Destroyer)
    } else {
        None
    }
}

impl ShipType {
    pub open spec fn spec_length(self) -> nat {
        match self {
            ShipType::Carrier => 5,
            ShipType::Battleship => 4,
            ShipType::Cruiser => 3,
            ShipType::Submarine => 3,
            ShipType::Destroyer => 2,
        }
    }

    /// Number of cells a ship of this type covers.
    pub fn length(self) -> (n: usize)
        ensures
            n == self.spec_length(),
    {
        match self {
            ShipType::Carrier => CARRIER_LENGTH,
            ShipType::Battleship => BATTLESHIP_LENGTH,
            ShipType::Cruiser => CRUISER_LENGTH,
            ShipType::Submarine => SUBMARINE_LENGTH,
            ShipType::Destroyer => DESTROYER_LENGTH,
        }
    }

    /// Position of the type in the catalog, from 0.
    pub open spec fn spec_slot(self) -> int {
        match self {
            ShipType::Carrier => 0,
            ShipType::Battleship => 1,
            ShipType::Cruiser => 2,
            ShipType::Submarine => 3,
            ShipType::Destroyer => 4,
        }
    }

    pub fn slot(self) -> (i: usize)
        ensures
            i == self.spec_slot(),
            i < FLEET_SIZE,
    {
        match self {
            ShipType::Carrier => 0,
            ShipType::Battleship => 1,
            ShipType::Cruiser => 2,
            ShipType::Submarine => 3,
            ShipType::Destroyer => 4,
        }
    }

    /// The type at a position of the catalog.
    pub open spec fn spec_at(slot: int) -> ShipType {
        if slot == 0 {
            ShipType::Carrier
        } else if slot == 1 {
            ShipType::Battleship
        } else if slot == 2 {
            ShipType::Cruiser
        } else if slot == 3 {
            ShipType::Submarine
        } else {
            ShipType::Destroyer
        }
    }

    pub fn at(slot: usize) -> (t: ShipType)
        requires
            slot < FLEET_SIZE,
        ensures
            t == Self::spec_at(slot as int),
            t.spec_slot() == slot,
    {
        if slot == 0 {
            ShipType::Carrier
        } else if slot == 1 {
            ShipType::Battleship
        } else if slot == 2 {
            ShipType::Cruiser
        } else if slot == 3 {
            ShipType::Submarine
        } else {
            ShipType::Destroyer
        }
    }

    /// Parses the lower-case wire name of a ship type.
    pub fn from_name(name: &str) -> (r: Option<ShipType>)
        ensures
            r == ship_type_named(name@),
    {
        if same_text(name, "carrier") {
            Some(ShipType::Carrier)
        } else if same_text(name, "battleship") {
            Some(ShipType::Battleship)
        } else if same_text(name, "cruiser") {
            Some(ShipType::Cruiser)
        } else if same_text(name, "submarine") {
            Some(ShipType::Submarine)
        } else if same_text(name, "destroyer") {
            Some(ShipType::Destroyer)
        } else {
            None
        }
    }
}

} // verus!
