//! The snapshot applier: one turn's observations, merged into the world
//! model.

use crate::entity::{DecodeError, Entity, EntityType, Item};
use crate::order::Order;
use crate::rng::{in_field, random_target};
use crate::world::{
    lemma_index_in_range, lemma_wf_frame, Cell, GameState, Miner, Opponent, StateError, World, UID,
};
use vstd::prelude::*;

verus! {

/// The coordinate, on both axes, that the game reports for a robot that is
/// gone.
pub const GONE: i32 = -1;

/// What one turn reports of one cell.
#[derive(Clone, Copy, Debug, PartialEq, Eq, Hash, Structural)]
pub struct CellReport {
    pub x: usize,
    pub y: usize,
    /// Amount of ore seen in the cell; `None` where the game reports it as
    /// unknown.
    pub ore_amount: Option<usize>,
    pub has_hole: bool,
}

/// What one turn reports of one entity, with the kind and the carried item
/// still as the codes of the wire.
#[derive(Clone, Copy, Debug, PartialEq, Eq, Hash, Structural)]
pub struct EntityReport {
    pub uid: UID,
    pub entity_type: u32,
    pub x: i32,
    pub y: i32,
    pub item: i32,
}

/// One turn's complete observation.
#[derive(Clone, Debug, PartialEq, Eq)]
pub struct Snapshot {
    pub my_score: u32,
    pub opponent_score: u32,
    pub cells: Vec<CellReport>,
    pub radar_cooldown: u32,
    pub trap_cooldown: u32,
    pub entities: Vec<EntityReport>,
}

/// Why one record of a snapshot was left out. The rest of the snapshot is
/// applied all the same.
#[derive(Clone, Copy, Debug, PartialEq, Eq, Hash, Structural)]
pub enum SnapshotError {
    /// A code of the record names nothing.
    Decode(DecodeError),
    /// The record speaks of an entity the state does not hold in that
    /// category.
    State(StateError),
    /// The record speaks of a cell that is not on the grid.
    OffGrid(usize, usize),
}

impl EntityReport {
    /// Whether the report gives the position that stands for a robot that is
    /// gone.
    pub open spec fn is_gone(self) -> bool {
        self.x == GONE && self.y == GONE
    }

    /// The owned robot this report introduces, exploring towards `target`.
    pub open spec fn new_miner(self, target: (i32, i32)) -> Miner {
        Miner {
            x: self.x,
            y: self.y,
            item: Item::decode(self.item),
            uid: self.uid,
            alive: true,
            order: Order::GoTo(target.0, target.1),
        }
    }

    /// The opponent robot this report introduces.
    pub open spec fn new_opponent(self) -> Opponent {
        Opponent {
            x: self.x,
            y: self.y,
            item: Item::decode(self.item),
            uid: self.uid,
            alive: true,
        }
    }
}

impl World {
    /// The model after a report on a cell: the report replaces whatever was
    /// known of the cell. A report on a cell off the grid changes nothing.
    pub open spec fn charted(self, report: CellReport) -> World {
        if report.x < self.width && report.y < self.height {
            self.with_cell(
                report.x as int,
                report.y as int,
                Cell { ore_amount: report.ore_amount, has_hole: report.has_hole },
            )
        } else {
            self
        }
    }

    /// Why a report on a cell is left out, if it is.
    pub open spec fn chart_fault(self, report: CellReport) -> Option<SnapshotError> {
        if report.x < self.width && report.y < self.height {
            None
        } else {
            Some(SnapshotError::OffGrid(report.x, report.y))
        }
    }

    /// The model after the first sighting of an entity of kind `kind`.
    pub open spec fn registered(self, kind: EntityType, report: EntityReport, target: (i32, i32)) -> World {
        match kind {
            EntityType::Miner => World {
                miners: self.miners.push(report.new_miner(target)),
                entities: self.entities.insert(
                    report.uid,
                    Entity::Miner(self.miners.len() as usize),
                ),
                ..self
            },
            EntityType::OpponentMiner => World {
                opponent_miners: self.opponent_miners.push(report.new_opponent()),
                entities: self.entities.insert(
                    report.uid,
                    Entity::OpponentMiner(self.opponent_miners.len() as usize),
                ),
                ..self
            },
            EntityType::BurriedRadar => World {
                entities: self.entities.insert(report.uid, Entity::BurriedRadar),
                burried_radars: self.burried_radars.insert(report.uid, (report.x, report.y)),
                ..self
            },
            EntityType::BurriedTrap => World {
                entities: self.entities.insert(report.uid, Entity::BurriedTrap),
                burried_traps: self.burried_traps.insert(report.uid, (report.x, report.y)),
                ..self
            },
        }
    }

    /// The model after a new sighting of an entity, reported as of kind
    /// `kind`, whose identifier is in the registry.
    ///
    /// A robot reported gone is marked dead and otherwise left as it was;
    /// any other report on a robot overwrites its position and its item. A
    /// report on a buried item overwrites its position. A report that finds
    /// no entity of its kind under the identifier changes nothing.
    pub open spec fn refreshed(self, kind: EntityType, report: EntityReport) -> World {
        match kind {
            EntityType::Miner | EntityType::OpponentMiner => if report.is_gone() {
                self.killed(report.uid)
            } else {
                self.moved(report.uid, report.x, report.y).holding(
                    report.uid,
                    Item::decode(report.item),
                )
            },
            EntityType::BurriedRadar => if self.burried_radars.contains_key(report.uid) {
                World {
                    burried_radars: self.burried_radars.insert(report.uid, (report.x, report.y)),
                    ..self
                }
            } else {
                self
            },
            EntityType::BurriedTrap => if self.burried_traps.contains_key(report.uid) {
                World {
                    burried_traps: self.burried_traps.insert(report.uid, (report.x, report.y)),
                    ..self
                }
            } else {
                self
            },
        }
    }

    /// The model after a report on an entity, with `target` the cell an
    /// owned robot explores first if the report introduces one. A report
    /// whose kind code names nothing changes nothing.
    pub open spec fn observed(self, report: EntityReport, target: (i32, i32)) -> World {
        match EntityType::decode(report.entity_type) {
            None => self,
            Some(kind) => if self.entities.contains_key(report.uid) {
                self.refreshed(kind, report)
            } else {
                self.registered(kind, report, target)
            },
        }
    }

    /// Why a report on an entity is left out, if it is: its kind code names
    /// nothing, or its identifier is in the registry but no entity of the
    /// reported kind is held under it.
    pub open spec fn fault(self, report: EntityReport) -> Option<SnapshotError> {
        match EntityType::decode(report.entity_type) {
            None => Some(
                SnapshotError::Decode(DecodeError::UnknownEntityType(report.entity_type)),
            ),
            Some(kind) => if !self.entities.contains_key(report.uid) {
                None
            } else {
                match kind {
                    EntityType::Miner | EntityType::OpponentMiner => if self.is_robot(
                        report.uid,
                    ) {
                        None
                    } else {
                        Some(SnapshotError::State(StateError::NotAMiner(report.uid)))
                    },
                    EntityType::BurriedRadar => if self.burried_radars.contains_key(
                        report.uid,
                    ) {
                        None
                    } else {
                        Some(SnapshotError::State(StateError::NotARadar(report.uid)))
                    },
                    EntityType::BurriedTrap => if self.burried_traps.contains_key(report.uid) {
                        None
                    } else {
                        Some(SnapshotError::State(StateError::NotATrap(report.uid)))
                    },
                }
            },
        }
    }

    /// The model after a list of reports on cells, applied in order.
    pub open spec fn charted_all(self, reports: Seq<CellReport>) -> World
        decreases reports.len(),
    {
        if reports.len() == 0 {
            self
        } else {
            self.charted_all(reports.drop_last()).charted(reports.last())
        }
    }

    /// The reports on cells that are left out, in order.
    pub open spec fn chart_faults(self, reports: Seq<CellReport>) -> Seq<SnapshotError>
        decreases reports.len(),
    {
        if reports.len() == 0 {
            Seq::empty()
        } else {
            let earlier = self.chart_faults(reports.drop_last());
            match self.chart_fault(reports.last()) {
                Some(e) => earlier.push(e),
                None => earlier,
            }
        }
    }

    /// The model after a list of reports on entities, applied in order,
    /// report `k` with `targets[k]`.
    pub open spec fn observed_all(self, reports: Seq<EntityReport>, targets: Seq<(i32, i32)>) -> World
        decreases reports.len(),
    {
        if reports.len() == 0 {
            self
        } else {
            self.observed_all(reports.drop_last(), targets).observed(
                reports.last(),
                targets[reports.len() - 1],
            )
        }
    }

    /// The reports on entities that are left out, in order.
    pub open spec fn observe_faults(
        self,
        reports: Seq<EntityReport>,
        targets: Seq<(i32, i32)>,
    ) -> Seq<SnapshotError>
        decreases reports.len(),
    {
        if reports.len() == 0 {
            Seq::empty()
        } else {
            let earlier = self.observe_faults(reports.drop_last(), targets);
            match self.observed_all(reports.drop_last(), targets).fault(reports.last()) {
                Some(e) => earlier.push(e),
                None => earlier,
            }
        }
    }

    /// The model with the scores and cooldowns of a snapshot.
    pub open spec fn scored(self, snapshot: Snapshot) -> World {
        World {
            my_score: snapshot.my_score,
            opponent_score: snapshot.opponent_score,
            radar_cooldown: snapshot.radar_cooldown,
            trap_cooldown: snapshot.trap_cooldown,
            ..self
        }
    }

    /// The model after a whole snapshot: scores and cooldowns, then the
    /// cells, then the entities.
    pub open spec fn applied(self, snapshot: Snapshot, targets: Seq<(i32, i32)>) -> World {
        self.scored(snapshot).charted_all(snapshot.cells@).observed_all(
            snapshot.entities@,
            targets,
        )
    }

    /// The records of a snapshot that are left out: those on cells, then
    /// those on entities.
    pub open spec fn faults(self, snapshot: Snapshot, targets: Seq<(i32, i32)>) -> Seq<
        SnapshotError,
    > {
        self.chart_faults(snapshot.cells@) + self.scored(snapshot).charted_all(
            snapshot.cells@,
        ).observe_faults(snapshot.entities@, targets)
    }
}

impl GameState {
    /// Apply a report on a cell: it replaces whatever was known of the
    /// cell. A report on a cell off the grid is an error and changes nothing.
    pub fn chart(&mut self, report: CellReport) -> (r: Result<(), SnapshotError>)
        requires
            old(self).wf(),
        ensures
            final(self)@ == old(self)@.charted(report),
            r == match old(self)@.chart_fault(report) {
                Some(e) => Err::<(), SnapshotError>(e),
                None => Ok::<(), SnapshotError>(()),
            },
            final(self).wf(),
    {
        if report.x < self.width && report.y < self.height {
            proof {
                lemma_index_in_range(self@, report.x as int, report.y as int);
            }
            self.set_ore(report.x, report.y, report.ore_amount);
            assert(self@.cells.len() == old(self)@.cells.len());
            self.set_hole(report.x, report.y, report.has_hole);
            proof {
                assert(self@.cells =~= old(self)@.charted(report).cells);
                assert(self@ =~= old(self)@.charted(report));
                lemma_wf_frame(old(self)@, self@);
            }
            Ok(())
        } else {
            Err(SnapshotError::OffGrid(report.x, report.y))
        }
    }

    /// Apply a report on an entity. `target` is the cell an owned robot
    /// explores first if the report introduces one.
    ///
    /// An identifier seen for the first time is registered with a record of
    /// the reported kind. A known identifier has its record updated: a robot
    /// reported at the position that stands for "gone" is marked dead, any
    /// other report on a robot overwrites its position and item, and a
    /// report on a buried item overwrites its position. A code that names no
    /// item means empty hands. The report is an error, and changes nothing,
    /// where its kind code names nothing or where the state holds no entity
    /// of the reported kind under the identifier.
    pub fn observe_with(&mut self, report: EntityReport, target: (i32, i32)) -> (r: Result<
        (),
        SnapshotError,
    >)
        requires
            old(self).wf(),
        ensures
            final(self)@ == old(self)@.observed(report, target),
            r == match old(self)@.fault(report) {
                Some(e) => Err::<(), SnapshotError>(e),
                None => Ok::<(), SnapshotError>(()),
            },
            final(self).wf(),
    {
        let kind = match EntityType::try_from(report.entity_type) {
            Ok(kind) => kind,
            Err(e) => {
                return Err(SnapshotError::Decode(e));
            },
        };
        let uid = report.uid;
        let item = Item::carried(report.item);
        // check if we need to update our entities
        if !self.entity_exists(uid) {
            match kind {
                EntityType::Miner => {
                    let miner_index = self.add_miner(
                        Miner {
                            x: report.x,
                            y: report.y,
                            item,
                            uid,
                            alive: true,
                            order: Order::GoTo(target.0, target.1),
                        },
                    );
                    self.add_entity(uid, Entity::Miner(miner_index));
                },
                EntityType::OpponentMiner => {
                    let opponent_index = self.add_opponent_miner(
                        Opponent { x: report.x, y: report.y, item, uid, alive: true },
                    );
                    self.add_entity(uid, Entity::OpponentMiner(opponent_index));
                },
                EntityType::BurriedRadar => {
                    self.add_entity(uid, Entity::BurriedRadar);
                    self.burry_radar(uid, report.x, report.y);
                    proof {
                        lemma_wf_frame(
                            (World {
                                entities: old(self)@.entities.insert(uid, Entity::BurriedRadar),
                                ..old(self)@
                            }),
                            self@,
                        );
                    }
                },
                EntityType::BurriedTrap => {
                    self.add_entity(uid, Entity::BurriedTrap);
                    self.burry_trap(uid, report.x, report.y);
                    proof {
                        lemma_wf_frame(
                            (World {
                                entities: old(self)@.entities.insert(uid, Entity::BurriedTrap),
                                ..old(self)@
                            }),
                            self@,
                        );
                    }
                },
            }
            Ok(())
        } else {
            let updated = match kind {
                EntityType::Miner | EntityType::OpponentMiner => {
                    if report.x == GONE && report.y == GONE {
                        // this miner is dead
                        self.kill(uid)
                    } else {
                        match self.update_position(uid, report.x, report.y) {
                            Ok(()) => self.update_item(uid, item),
                            Err(e) => Err(e),
                        }
                    }
                },
                EntityType::BurriedRadar => {
                    // position of this radar has changed
                    let r = self.update_radar_position(uid, report.x, report.y);
                    proof {
                        lemma_wf_frame(old(self)@, self@);
                    }
                    r
                },
                EntityType::BurriedTrap => {
                    // position of this trap has changed
                    let r = self.update_trap_position(uid, report.x, report.y);
                    proof {
                        lemma_wf_frame(old(self)@, self@);
                    }
                    r
                },
            };
            match updated {
                Ok(()) => Ok(()),
                Err(e) => Err(SnapshotError::State(e)),
            }
        }
    }

    /// Apply a report on an entity. An owned robot seen for the first time
    /// starts out exploring a random cell off the home column.
    pub fn observe(&mut self, report: EntityReport) -> (r: Result<(), SnapshotError>)
        requires
            old(self)@.has_field(),
            old(self).wf(),
        ensures
            exists|target: (i32, i32)|
                in_field(
                    target.0 as int,
                    target.1 as int,
                    old(self)@.width as int,
                    old(self)@.height as int,
                ) && final(self)@ == #[trigger] old(self)@.observed(report, target),
            r == match old(self)@.fault(report) {
                Some(e) => Err::<(), SnapshotError>(e),
                None => Ok::<(), SnapshotError>(()),
            },
            final(self).wf(),
    {
        let target = random_target(self.width as i32, self.height as i32);
        self.observe_with(report, target)
    }
}

} // verus!
