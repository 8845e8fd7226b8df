//! A player's fleet: at most one ship of each type of the catalog.

use crate::board::Cell;
use crate::catalog::ShipType;
use crate::catalog::FLEET_SIZE;
use crate::ship::Ship;
use vstd::prelude::*;

verus! {

/// A fleet as a mapping from the placed types to the cells of their ships.
pub type FleetModel = Map<ShipType, Seq<Cell>>;

/// One ship of every type is placed.
pub open spec fn fleet_complete(fleet: FleetModel) -> bool {
    forall|t: ShipType| fleet.dom().contains(t)
}

/// Cells that the ship of one type covers; none while the type is not placed.
pub open spec fn placed_cells(fleet: FleetModel, t: ShipType) -> nat {
    if fleet.dom().contains(t) {
        fleet[t].len()
    } else {
        0
    }
}

/// Cells that the placed ships cover together, counted ship by ship.
pub open spec fn fleet_cells(fleet: FleetModel) -> nat {
    placed_cells(fleet, ShipType::Carrier) + placed_cells(fleet, ShipType::Battleship)
        + placed_cells(fleet, ShipType::Cruiser) + placed_cells(fleet, ShipType::Submarine)
        + placed_cells(fleet, ShipType::Destroyer)
}

/// Number of ship types that are placed.
pub open spec fn placed_count(fleet: FleetModel) -> nat {
    (if fleet.dom().contains(ShipType::Carrier) { 1nat } else { 0nat })
        + (if fleet.dom().contains(ShipType::Battleship) { 1nat } else { 0nat })
        + (if fleet.dom().contains(ShipType::Cruiser) { 1nat } else { 0nat })
        + (if fleet.dom().contains(ShipType::Submarine) { 1nat } else { 0nat })
        + (if fleet.dom().contains(ShipType::Destroyer) { 1nat } else { 0nat })
}

/// A fleet is complete exactly when five distinct types are placed.
pub proof fn lemma_complete_iff_five(fleet: FleetModel)
    ensures
        fleet_complete(fleet) <==> placed_count(fleet) == FLEET_SIZE,
        placed_count(fleet) <= FLEET_SIZE,
{
    if placed_count(fleet) == FLEET_SIZE {
        assert forall|t: ShipType| fleet.dom().contains(t) by {
            match t {
                ShipType::Carrier => {},
                ShipType::Battleship => {},
                ShipType::Cruiser => {},
                ShipType::Submarine => {},
                ShipType::Destroyer => {},
            }
        }
    }
}

/// The ships of a player, held by type.
#[derive(Debug)]
pub struct Fleet {
    slots: Vec<Option<Ship>>,
}

impl View for Fleet {
    type V = FleetModel;

    closed spec fn view(&self) -> FleetModel {
        Map::new(
            |t: ShipType| self.slots@[t.spec_slot()] is Some,
            |t: ShipType| self.slots@[t.spec_slot()]->0.cells@,
        )
    }
}

impl Fleet {
    /// One slot for each type of the catalog; a ship sits in the slot of its type.
    pub closed spec fn wf(&self) -> bool {
        &&& self.slots@.len() == FLEET_SIZE
        &&& forall|i: int|
            0 <= i < self.slots@.len() ==> (#[trigger] self.slots@[i] matches Some(ship)
                ==> ship.ship_type.spec_slot() == i)
    }

    /// A fleet with no ship placed.
    pub fn new() -> (f: Fleet)
        ensures
            f.wf(),
            f@ == Map::<ShipType, Seq<Cell>>::empty(),
    {
        let mut slots: Vec<Option<Ship>> = Vec::new();
        let mut i: usize = 0;
        while i < FLEET_SIZE
            invariant
                i <= FLEET_SIZE,
                slots@.len() == i,
                forall|k: int| 0 <= k < i ==> slots@[k] is None,
            decreases FLEET_SIZE - i,
        {
            slots.push(None);
            i += 1;
        }
        let f = Fleet { slots };
        assert(f@ =~= Map::<ShipType, Seq<Cell>>::empty());
        f
    }

    /// Whether a ship of the type is placed.
    pub fn contains(&self, ship_type: ShipType) -> (r: bool)
        requires
            self.wf(),
        ensures
            r == self@.dom().contains(ship_type),
    {
        self.slots[ship_type.slot()].is_some()
    }

    /// The ship of a type, if it is placed.
    pub fn get(&self, ship_type: ShipType) -> (r: Option<&Ship>)
        requires
            self.wf(),
        ensures
            match r {
                Some(ship) => self@.dom().contains(ship_type) && ship.ship_type == ship_type
                    && ship.cells@ == self@[ship_type],
                None => !self@.dom().contains(ship_type),
            },
    {
        self.slots[ship_type.slot()].as_ref()
    }

    /// Records a ship under its type, in place of any ship of that type.
    pub fn insert(&mut self, ship: Ship)
        requires
            old(self).wf(),
        ensures
            final(self).wf(),
            final(self)@ == old(self)@.insert(ship.ship_type, ship.cells@),
    {
        let ghost t = ship.ship_type;
        let ghost cells = ship.cells@;
        let i = ship.ship_type.slot();
        self.slots.set(i, Some(ship));
        assert(self@ =~= old(self)@.insert(t, cells));
    }

    /// Number of ship types that are placed.
    pub fn len(&self) -> (n: usize)
        requires
            self.wf(),
        ensures
            n == placed_count(self@),
    {
        let mut n: usize = 0;
        if self.contains(ShipType::Carrier) {
            n += 1;
        }
        if self.contains(ShipType::Battleship) {
            n += 1;
        }
        if self.contains(ShipType::Cruiser) {
            n += 1;
        }
        if self.contains(ShipType::Submarine) {
            n += 1;
        }
        if self.contains(ShipType::Destroyer) {
            n += 1;
        }
        n
    }

    /// Whether one ship of every type is placed.
    pub fn is_complete(&self) -> (r: bool)
        requires
            self.wf(),
        ensures
            r == fleet_complete(self@),
    {
        proof {
            lemma_complete_iff_five(self@);
        }
        self.len() == FLEET_SIZE
    }
}

} // verus!
