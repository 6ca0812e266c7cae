//! The world model: the grid, the robots of both teams, the registry of
//! entity identifiers and the positions of buried items.

use crate::entity::{Entity, Item};
use crate::order::Order;
use std::collections::HashMap;
use vstd::prelude::*;

verus! {

broadcast use vstd::std_specs::hash::group_hash_axioms;

/// Unique ID for all entities in the game.
pub type UID = u32;

/// Describe a single cell on the grid.
#[derive(Clone, Copy, Debug, PartialEq, Eq, Hash, Structural)]
pub struct Cell {
    /// Amount of ore believed to be in the cell; `None` while unknown.
    pub ore_amount: Option<usize>,
    pub has_hole: bool,
}

impl Default for Cell {
    /// A cell nothing is known about: unknown ore, no hole.
    fn default() -> (cell: Cell)
        ensures
            cell == (Cell { ore_amount: None, has_hole: false }),
    {
        Cell { ore_amount: None, has_hole: false }
    }
}

/// An owned robot.
#[derive(Clone, Copy, Debug, PartialEq, Eq, Hash, Structural)]
pub struct Miner {
    pub x: i32,
    pub y: i32,
    pub item: Option<Item>,
    pub uid: UID,
    pub alive: bool,
    pub order: Order,
}

/// A robot of the other team. It is tracked for its position only and has no
/// order.
#[derive(Clone, Copy, Debug, PartialEq, Eq, Hash, Structural)]
pub struct Opponent {
    pub x: i32,
    pub y: i32,
    pub item: Option<Item>,
    pub uid: UID,
    pub alive: bool,
}

/// Everything the agent remembers from one turn to the next.
#[derive(Debug)]
pub struct GameState {
    // informational
    pub width: usize,
    pub height: usize,
    pub my_score: u32,
    pub opponent_score: u32,
    pub cells: Vec<Cell>,
    pub miners: Vec<Miner>,
    pub opponent_miners: Vec<Opponent>,
    pub entities: HashMap<UID, Entity>,
    pub burried_radars: HashMap<UID, (i32, i32)>,
    pub burried_traps: HashMap<UID, (i32, i32)>,
    pub radar_cooldown: u32,
    pub trap_cooldown: u32,
    // tactical
    pub miner_with_radar: Option<usize>,
}

/// The mathematical content of a [`GameState`].
#[verifier::ext_equal]
pub struct World {
    pub width: nat,
    pub height: nat,
    pub my_score: u32,
    pub opponent_score: u32,
    /// The cells in row-major order: cell `(x, y)` is at `y * width + x`.
    pub cells: Seq<Cell>,
    pub miners: Seq<Miner>,
    pub opponent_miners: Seq<Opponent>,
    pub entities: Map<UID, Entity>,
    pub burried_radars: Map<UID, (i32, i32)>,
    pub burried_traps: Map<UID, (i32, i32)>,
    pub radar_cooldown: u32,
    pub trap_cooldown: u32,
    pub miner_with_radar: Option<usize>,
}

impl World {
    /// Whether `(x, y)` is a cell of the grid.
    pub open spec fn on_grid(self, x: int, y: int) -> bool {
        0 <= x < self.width && 0 <= y < self.height
    }

    /// Position of cell `(x, y)` in `cells`.
    pub open spec fn index(self, x: int, y: int) -> int {
        y * self.width + x
    }

    /// What is known of cell `(x, y)`, or `None` off the grid.
    pub open spec fn cell_at(self, x: int, y: int) -> Option<Cell> {
        if self.on_grid(x, y) && self.index(x, y) < self.cells.len() {
            Some(self.cells[self.index(x, y)])
        } else {
            None
        }
    }

    /// The sides of the grid fit the `i32` coordinates that orders and
    /// actions use, and there is one record per cell.
    pub open spec fn grid_wf(self) -> bool {
        &&& self.width <= i32::MAX
        &&& self.height <= i32::MAX
        &&& self.cells.len() == self.width * self.height
    }

    /// Whether the grid has a cell off the home column: a place to send a
    /// robot exploring.
    pub open spec fn has_field(self) -> bool {
        2 <= self.width && 1 <= self.height
    }

    /// Every robot in the registry exists and carries the identifier it is
    /// registered under.
    pub open spec fn registry_wf(self) -> bool {
        forall|uid: UID|
            #![trigger self.entities.contains_key(uid)]
            self.entities.contains_key(uid) ==> match self.entities[uid] {
                Entity::Miner(i) => i < self.miners.len() && self.miners[i as int].uid == uid,
                Entity::OpponentMiner(i) => i < self.opponent_miners.len()
                    && self.opponent_miners[i as int].uid == uid,
                Entity::BurriedRadar => true,
                Entity::BurriedTrap => true,
            }
    }

    /// Whether owned robot `i` has the radar mission as its order.
    pub open spec fn on_radar_mission(self, i: int) -> bool {
        0 <= i < self.miners.len() && self.miners[i].order is DeployRadarAt
    }

    /// The recorded holder of the radar mission is a robot whose order is that
    /// mission, and no other robot has that order: at most one robot is on
    /// the radar mission.
    pub open spec fn radar_wf(self) -> bool {
        &&& self.miner_with_radar matches Some(h) ==> self.on_radar_mission(h as int)
        &&& forall|i: int|
            #![trigger self.on_radar_mission(i)]
            self.on_radar_mission(i) ==> self.miner_with_radar == Some(i as usize)
    }

    /// The robots of each team can be counted in a `usize`, as the indices
    /// in the registry require.
    pub open spec fn sizes_wf(self) -> bool {
        &&& self.miners.len() <= usize::MAX
        &&& self.opponent_miners.len() <= usize::MAX
    }

    /// Well-formedness of the whole model.
    pub open spec fn wf(self) -> bool {
        &&& self.grid_wf()
        &&& self.sizes_wf()
        &&& self.registry_wf()
        &&& self.radar_wf()
    }
}

/// An update that names an entity the state does not hold in the expected
/// category. The state is left as it was.
#[derive(Clone, Copy, Debug, PartialEq, Eq, Hash, Structural)]
pub enum StateError {
    /// The identifier is not that of a known robot.
    NotAMiner(UID),
    /// The identifier is not that of a known buried radar.
    NotARadar(UID),
    /// The identifier is not that of a known buried trap.
    NotATrap(UID),
}

impl World {
    /// The registry entry of `uid`, if it has one.
    pub open spec fn entity(self, uid: UID) -> Option<Entity> {
        if self.entities.contains_key(uid) {
            Some(self.entities[uid])
        } else {
            None
        }
    }

    /// Index of the owned robot registered under `uid`, if there is one.
    pub open spec fn miner_index(self, uid: UID) -> Option<int> {
        match self.entity(uid) {
            Some(Entity::Miner(i)) if i < self.miners.len() => Some(i as int),
            _ => None,
        }
    }

    /// Index of the opponent robot registered under `uid`, if there is one.
    pub open spec fn opponent_index(self, uid: UID) -> Option<int> {
        match self.entity(uid) {
            Some(Entity::OpponentMiner(i)) if i < self.opponent_miners.len() => Some(i as int),
            _ => None,
        }
    }

    /// Whether `uid` is registered as a robot of either team.
    pub open spec fn is_robot(self, uid: UID) -> bool {
        self.miner_index(uid) is Some || self.opponent_index(uid) is Some
    }

    /// The model with owned robot `i` replaced by `miner`.
    pub open spec fn with_miner(self, i: int, miner: Miner) -> World {
        World { miners: self.miners.update(i, miner), ..self }
    }

    /// The model with opponent robot `i` replaced by `opponent`.
    pub open spec fn with_opponent(self, i: int, opponent: Opponent) -> World {
        World { opponent_miners: self.opponent_miners.update(i, opponent), ..self }
    }

    /// The model after the robot registered under `uid` moved to `(px, py)`;
    /// the model itself where `uid` is no robot.
    pub open spec fn moved(self, uid: UID, px: i32, py: i32) -> World {
        if let Some(i) = self.miner_index(uid) {
            self.with_miner(i, Miner { x: px, y: py, ..self.miners[i] })
        } else if let Some(i) = self.opponent_index(uid) {
            self.with_opponent(i, Opponent { x: px, y: py, ..self.opponent_miners[i] })
        } else {
            self
        }
    }

    /// The model after the robot registered under `uid` was seen holding
    /// `item`; the model itself where `uid` is no robot.
    pub open spec fn holding(self, uid: UID, item: Option<Item>) -> World {
        if let Some(i) = self.miner_index(uid) {
            self.with_miner(i, Miner { item, ..self.miners[i] })
        } else if let Some(i) = self.opponent_index(uid) {
            self.with_opponent(i, Opponent { item, ..self.opponent_miners[i] })
        } else {
            self
        }
    }

    /// The model after the robot registered under `uid` died; the model
    /// itself where `uid` is no robot.
    pub open spec fn killed(self, uid: UID) -> World {
        if let Some(i) = self.miner_index(uid) {
            self.with_miner(i, Miner { alive: false, ..self.miners[i] })
        } else if let Some(i) = self.opponent_index(uid) {
            self.with_opponent(i, Opponent { alive: false, ..self.opponent_miners[i] })
        } else {
            self
        }
    }

    /// The model with cell `(x, y)` replaced by `cell`.
    pub open spec fn with_cell(self, x: int, y: int, cell: Cell) -> World {
        World { cells: self.cells.update(self.index(x, y), cell), ..self }
    }

    /// Whether registering `entity` under `uid` keeps the registry
    /// consistent: a robot entry must point at an existing robot that
    /// carries `uid`.
    pub open spec fn admits(self, uid: UID, entity: Entity) -> bool {
        match entity {
            Entity::Miner(i) => i < self.miners.len() && self.miners[i as int].uid == uid,
            Entity::OpponentMiner(i) => i < self.opponent_miners.len()
                && self.opponent_miners[i as int].uid == uid,
            Entity::BurriedRadar => true,
            Entity::BurriedTrap => true,
        }
    }
}


impl View for GameState {
    type V = World;

    open spec fn view(&self) -> World {
        World {
            width: self.width as nat,
            height: self.height as nat,
            my_score: self.my_score,
            opponent_score: self.opponent_score,
            cells: self.cells@,
            miners: self.miners@,
            opponent_miners: self.opponent_miners@,
            entities: self.entities@,
            burried_radars: self.burried_radars@,
            burried_traps: self.burried_traps@,
            radar_cooldown: self.radar_cooldown,
            trap_cooldown: self.trap_cooldown,
            miner_with_radar: self.miner_with_radar,
        }
    }
}

/// The cell `(x, y)` of a well-formed grid has a record.
pub proof fn lemma_index_in_range(w: World, x: int, y: int)
    requires
        w.grid_wf(),
        w.on_grid(x, y),
    ensures
        0 <= w.index(x, y) < w.cells.len(),
{
    assert(y * w.width + x < w.width * w.height) by (nonlinear_arith)
        requires
            0 <= x < w.width,
            0 <= y < w.height,
    ;
    assert(0 <= y * w.width) by (nonlinear_arith)
        requires
            0 <= y,
            0 <= w.width,
    ;
}

/// Well-formedness depends only on the sides of the grid, the number of
/// cells, the robots, the registry and the holder of the radar mission.
pub proof fn lemma_wf_frame(a: World, b: World)
    requires
        a.wf(),
        b.width == a.width,
        b.height == a.height,
        b.cells.len() == a.cells.len(),
        b.miners == a.miners,
        b.opponent_miners == a.opponent_miners,
        b.entities == a.entities,
        b.miner_with_radar == a.miner_with_radar,
    ensures
        b.wf(),
{
    assert forall|i: int| #![trigger b.on_radar_mission(i)] b.on_radar_mission(i) implies b.miner_with_radar
        == Some(i as usize) by {
        assert(a.on_radar_mission(i));
    }
    if let Some(h) = b.miner_with_radar {
        assert(a.on_radar_mission(h as int));
    }
}

/// Distinct cells of the grid have distinct records.
pub proof fn lemma_index_injective(w: World, x1: int, y1: int, x2: int, y2: int)
    requires
        w.on_grid(x1, y1),
        w.on_grid(x2, y2),
        w.index(x1, y1) == w.index(x2, y2),
    ensures
        x1 == x2,
        y1 == y2,
{
    let n = w.width as int;
    if y1 < y2 {
        assert((y2 - y1) * n >= n) by (nonlinear_arith)
            requires
                y2 - y1 >= 1,
                n >= 0,
        ;
        assert((y2 - y1) * n == y2 * n - y1 * n) by (nonlinear_arith);
    } else if y2 < y1 {
        assert((y1 - y2) * n >= n) by (nonlinear_arith)
            requires
                y1 - y2 >= 1,
                n >= 0,
        ;
        assert((y1 - y2) * n == y1 * n - y2 * n) by (nonlinear_arith);
    }
}

impl GameState {
    /// Well-formedness of the state: that of its model.
    pub open spec fn wf(&self) -> bool {
        self@.wf()
    }

    /// A fresh state for a `width` by `height` grid: nothing is known of any
    /// cell, no entity has been seen, scores and cooldowns are zero, and no
    /// robot holds the radar mission.
    pub fn new(width: usize, height: usize) -> (state: GameState)
        requires
            width <= i32::MAX,
            height <= i32::MAX,
            width * height <= usize::MAX,
        ensures
            state@ == (World {
                width: width as nat,
                height: height as nat,
                my_score: 0,
                opponent_score: 0,
                cells: Seq::new(
                    (width * height) as nat,
                    |i: int| Cell { ore_amount: None, has_hole: false },
                ),
                miners: Seq::empty(),
                opponent_miners: Seq::empty(),
                entities: Map::empty(),
                burried_radars: Map::empty(),
                burried_traps: Map::empty(),
                radar_cooldown: 0,
                trap_cooldown: 0,
                miner_with_radar: None,
            }),
            state.wf(),
    {
        let cells = vec![Cell::default(); width * height];
        let state = GameState {
            width,
            height,
            my_score: 0,
            opponent_score: 0,
            cells,
            miners: Vec::new(),
            opponent_miners: Vec::new(),
            entities: HashMap::new(),
            burried_radars: HashMap::new(),
            burried_traps: HashMap::new(),
            radar_cooldown: 0,
            trap_cooldown: 0,
            miner_with_radar: None,
        };
        assert(state@.cells =~= Seq::new(
            (width * height) as nat,
            |i: int| Cell { ore_amount: None, has_hole: false },
        ));
        state
    }

    /// Record the amount of ore delivered by the owned robots.
    pub fn set_my_score(&mut self, score: u32)
        ensures
            final(self)@ == (World { my_score: score, ..old(self)@ }),
    {
        self.my_score = score;
    }

    /// Record the amount of ore delivered by the opponent.
    pub fn set_opponent_score(&mut self, score: u32)
        ensures
            final(self)@ == (World { opponent_score: score, ..old(self)@ }),
    {
        self.opponent_score = score;
    }

    /// Record the turns left until a new radar can be requested.
    pub fn set_radar_cooldown(&mut self, cooldown: u32)
        ensures
            final(self)@ == (World { radar_cooldown: cooldown, ..old(self)@ }),
    {
        self.radar_cooldown = cooldown;
    }

    /// Record the turns left until a new trap can be requested.
    pub fn set_trap_cooldown(&mut self, cooldown: u32)
        ensures
            final(self)@ == (World { trap_cooldown: cooldown, ..old(self)@ }),
    {
        self.trap_cooldown = cooldown;
    }

    /// Record the amount of ore in cell `(x, y)`; `None` makes it unknown
    /// again, whatever was known before.
    pub fn set_ore(&mut self, x: usize, y: usize, ore_amount: Option<usize>)
        requires
            old(self)@.grid_wf(),
            x < old(self).width,
            y < old(self).height,
        ensures
            final(self)@ == old(self)@.with_cell(
                x as int,
                y as int,
                Cell { ore_amount, ..old(self)@.cells[old(self)@.index(x as int, y as int)] },
            ),
    {
        proof {
            lemma_index_in_range(self@, x as int, y as int);
            assert(0 <= y * self.width) by (nonlinear_arith)
                requires
                    0 <= y,
                    0 <= self.width,
            ;
            assert(self.cells@.len() == self.cells.len());
            assert(self@.index(x as int, y as int) == y * self.width + x);
        }
        let i: usize = y * self.width + x;
        let mut cell = self.cells[i];
        cell.ore_amount = ore_amount;
        self.cells.set(i, cell);
    }

    /// Record whether cell `(x, y)` has a hole.
    pub fn set_hole(&mut self, x: usize, y: usize, hole: bool)
        requires
            old(self)@.grid_wf(),
            x < old(self).width,
            y < old(self).height,
        ensures
            final(self)@ == old(self)@.with_cell(
                x as int,
                y as int,
                Cell { has_hole: hole, ..old(self)@.cells[old(self)@.index(x as int, y as int)] },
            ),
    {
        proof {
            lemma_index_in_range(self@, x as int, y as int);
            assert(0 <= y * self.width) by (nonlinear_arith)
                requires
                    0 <= y,
                    0 <= self.width,
            ;
            assert(self.cells@.len() == self.cells.len());
            assert(self@.index(x as int, y as int) == y * self.width + x);
        }
        let i: usize = y * self.width + x;
        let mut cell = self.cells[i];
        cell.has_hole = hole;
        self.cells.set(i, cell);
    }

    /// Register `entity` under `uid`, replacing any earlier entry.
    pub fn add_entity(&mut self, uid: UID, entity: Entity)
        ensures
            final(self)@ == (World {
                entities: old(self)@.entities.insert(uid, entity),
                ..old(self)@
            }),
            old(self).wf() && old(self)@.admits(uid, entity) ==> final(self).wf(),
    {
        self.entities.insert(uid, entity);
        proof {
            if old(self).wf() && old(self)@.admits(uid, entity) {
                assert forall|i: int| #![trigger self@.on_radar_mission(i)]
                    self@.on_radar_mission(i) implies self@.miner_with_radar == Some(
                    i as usize,
                ) by {
                    assert(old(self)@.on_radar_mission(i));
                }
            }
        }
    }

    /// Whether `uid` has an entry in the registry.
    pub fn entity_exists(&self, uid: UID) -> (known: bool)
        ensures
            known == self@.entities.contains_key(uid),
    {
        self.entities.contains_key(&uid)
    }

    /// The registry entry of `uid`, if it has one.
    pub fn entity(&self, uid: UID) -> (entity: Option<Entity>)
        ensures
            entity == self@.entity(uid),
    {
        match self.entities.get(&uid) {
            Some(e) => Some(*e),
            None => None,
        }
    }

    /// Index of the owned robot registered under `uid`, if there is one.
    pub fn miner_index(&self, uid: UID) -> (index: Option<usize>)
        ensures
            match index {
                Some(i) => self@.miner_index(uid) == Some(i as int),
                None => self@.miner_index(uid) is None,
            },
    {
        match self.entity(uid) {
            Some(Entity::Miner(i)) => if i < self.miners.len() {
                Some(i)
            } else {
                None
            },
            _ => None,
        }
    }

    /// Index of the opponent robot registered under `uid`, if there is one.
    pub fn opponent_index(&self, uid: UID) -> (index: Option<usize>)
        ensures
            match index {
                Some(i) => self@.opponent_index(uid) == Some(i as int),
                None => self@.opponent_index(uid) is None,
            },
    {
        match self.entity(uid) {
            Some(Entity::OpponentMiner(i)) => if i < self.opponent_miners.len() {
                Some(i)
            } else {
                None
            },
            _ => None,
        }
    }

    /// Append an owned robot and return its index.
    pub fn add_miner(&mut self, miner: Miner) -> (index: usize)
        ensures
            index == old(self)@.miners.len(),
            final(self)@ == (World { miners: old(self)@.miners.push(miner), ..old(self)@ }),
            old(self).wf() && !(miner.order is DeployRadarAt) ==> final(self).wf(),
    {
        let index = self.miners.len();
        self.miners.push(miner);
        proof {
            assert(self.miners@.len() == self.miners.len());
            if old(self).wf() && !(miner.order is DeployRadarAt) {
                assert forall|i: int| #![trigger self@.on_radar_mission(i)]
                    self@.on_radar_mission(i) implies self@.miner_with_radar == Some(
                    i as usize,
                ) by {
                    assert(old(self)@.on_radar_mission(i));
                }
            }
        }
        index
    }

    /// Append an opponent robot and return its index.
    pub fn add_opponent_miner(&mut self, miner: Opponent) -> (index: usize)
        ensures
            index == old(self)@.opponent_miners.len(),
            final(self)@ == (World {
                opponent_miners: old(self)@.opponent_miners.push(miner),
                ..old(self)@
            }),
            old(self).wf() ==> final(self).wf(),
    {
        let index = self.opponent_miners.len();
        self.opponent_miners.push(miner);
        proof {
            assert(self.opponent_miners@.len() == self.opponent_miners.len());
            if old(self).wf() {
                assert forall|i: int| #![trigger self@.on_radar_mission(i)]
                    self@.on_radar_mission(i) implies self@.miner_with_radar == Some(
                    i as usize,
                ) by {
                    assert(old(self)@.on_radar_mission(i));
                }
            }
        }
        index
    }

    /// Move the robot registered under `uid` to `(px, py)`. Fails, and
    /// changes nothing, where `uid` is not a known robot.
    pub fn update_position(&mut self, uid: UID, px: i32, py: i32) -> (r: Result<(), StateError>)
        ensures
            final(self)@ == old(self)@.moved(uid, px, py),
            r is Ok <==> old(self)@.is_robot(uid),
            r is Err ==> r == Err::<(), StateError>(StateError::NotAMiner(uid)),
            old(self).wf() ==> final(self).wf(),
    {
        if let Some(index) = self.miner_index(uid) {
            let mut miner = self.miners[index];
            miner.x = px;
            miner.y = py;
            self.put_miner(index, miner);
            Ok(())
        } else if let Some(index) = self.opponent_index(uid) {
            let mut miner = self.opponent_miners[index];
            miner.x = px;
            miner.y = py;
            self.put_opponent(index, miner);
            Ok(())
        } else {
            Err(StateError::NotAMiner(uid))
        }
    }

    /// Record what the robot registered under `uid` holds. Fails, and
    /// changes nothing, where `uid` is not a known robot.
    pub fn update_item(&mut self, uid: UID, item: Option<Item>) -> (r: Result<(), StateError>)
        ensures
            final(self)@ == old(self)@.holding(uid, item),
            r is Ok <==> old(self)@.is_robot(uid),
            r is Err ==> r == Err::<(), StateError>(StateError::NotAMiner(uid)),
            old(self).wf() ==> final(self).wf(),
    {
        if let Some(index) = self.miner_index(uid) {
            let mut miner = self.miners[index];
            miner.item = item;
            self.put_miner(index, miner);
            Ok(())
        } else if let Some(index) = self.opponent_index(uid) {
            let mut miner = self.opponent_miners[index];
            miner.item = item;
            self.put_opponent(index, miner);
            Ok(())
        } else {
            Err(StateError::NotAMiner(uid))
        }
    }

    /// Mark the robot registered under `uid` as dead. Fails, and changes
    /// nothing, where `uid` is not a known robot.
    pub fn kill(&mut self, uid: UID) -> (r: Result<(), StateError>)
        ensures
            final(self)@ == old(self)@.killed(uid),
            r is Ok <==> old(self)@.is_robot(uid),
            r is Err ==> r == Err::<(), StateError>(StateError::NotAMiner(uid)),
            old(self).wf() ==> final(self).wf(),
    {
        if let Some(index) = self.miner_index(uid) {
            let mut miner = self.miners[index];
            miner.alive = false;
            self.put_miner(index, miner);
            Ok(())
        } else if let Some(index) = self.opponent_index(uid) {
            let mut miner = self.opponent_miners[index];
            miner.alive = false;
            self.put_opponent(index, miner);
            Ok(())
        } else {
            Err(StateError::NotAMiner(uid))
        }
    }

    /// Replace owned robot `index` by a robot with the same identifier and
    /// the same order.
    fn put_miner(&mut self, index: usize, miner: Miner)
        requires
            index < old(self).miners.len(),
            miner.uid == old(self).miners[index as int].uid,
            miner.order == old(self).miners[index as int].order,
        ensures
            final(self)@ == old(self)@.with_miner(index as int, miner),
            old(self).wf() ==> final(self).wf(),
    {
        self.miners.set(index, miner);
        proof {
            if old(self).wf() {
                assert forall|i: int| #![trigger self@.on_radar_mission(i)]
                    self@.on_radar_mission(i) implies self@.miner_with_radar == Some(
                    i as usize,
                ) by {
                    assert(old(self)@.on_radar_mission(i));
                }
            }
        }
    }

    /// Replace opponent robot `index` by a robot with the same identifier.
    fn put_opponent(&mut self, index: usize, opponent: Opponent)
        requires
            index < old(self).opponent_miners.len(),
            opponent.uid == old(self).opponent_miners[index as int].uid,
        ensures
            final(self)@ == old(self)@.with_opponent(index as int, opponent),
            old(self).wf() ==> final(self).wf(),
    {
        self.opponent_miners.set(index, opponent);
        proof {
            if old(self).wf() {
                assert forall|i: int| #![trigger self@.on_radar_mission(i)]
                    self@.on_radar_mission(i) implies self@.miner_with_radar == Some(
                    i as usize,
                ) by {
                    assert(old(self)@.on_radar_mission(i));
                }
            }
        }
    }

    /// Record a buried radar at `(x, y)` under `uid`.
    pub fn burry_radar(&mut self, uid: UID, x: i32, y: i32)
        ensures
            final(self)@ == (World {
                burried_radars: old(self)@.burried_radars.insert(uid, (x, y)),
                ..old(self)@
            }),
    {
        self.burried_radars.insert(uid, (x, y));
    }

    /// Record a buried trap at `(x, y)` under `uid`.
    pub fn burry_trap(&mut self, uid: UID, x: i32, y: i32)
        ensures
            final(self)@ == (World {
                burried_traps: old(self)@.burried_traps.insert(uid, (x, y)),
                ..old(self)@
            }),
    {
        self.burried_traps.insert(uid, (x, y));
    }

    /// Correct the position of the buried radar `uid`. Fails, and changes
    /// nothing, where no radar is recorded under `uid`.
    pub fn update_radar_position(&mut self, uid: UID, x: i32, y: i32) -> (r: Result<
        (),
        StateError,
    >)
        ensures
            r == (if old(self)@.burried_radars.contains_key(uid) {
                Ok::<(), StateError>(())
            } else {
                Err::<(), StateError>(StateError::NotARadar(uid))
            }),
            r is Ok ==> final(self)@ == (World {
                burried_radars: old(self)@.burried_radars.insert(uid, (x, y)),
                ..old(self)@
            }),
            r is Err ==> final(self)@ == old(self)@,
    {
        if self.burried_radars.contains_key(&uid) {
            self.burried_radars.insert(uid, (x, y));
            Ok(())
        } else {
            Err(StateError::NotARadar(uid))
        }
    }

    /// Correct the position of the buried trap `uid`. Fails, and changes
    /// nothing, where no trap is recorded under `uid`.
    pub fn update_trap_position(&mut self, uid: UID, x: i32, y: i32) -> (r: Result<
        (),
        StateError,
    >)
        ensures
            r == (if old(self)@.burried_traps.contains_key(uid) {
                Ok::<(), StateError>(())
            } else {
                Err::<(), StateError>(StateError::NotATrap(uid))
            }),
            r is Ok ==> final(self)@ == (World {
                burried_traps: old(self)@.burried_traps.insert(uid, (x, y)),
                ..old(self)@
            }),
            r is Err ==> final(self)@ == old(self)@,
    {
        if self.burried_traps.contains_key(&uid) {
            self.burried_traps.insert(uid, (x, y));
            Ok(())
        } else {
            Err(StateError::NotATrap(uid))
        }
    }

    /// The owned robots, in the order in which they were first seen.
    pub fn miners(&self) -> (miners: &Vec<Miner>)
        ensures
            miners@ == self@.miners,
    {
        &self.miners
    }

    /// What is known of cell `(x, y)`, or `None` off the grid.
    pub fn cell(&self, x: i32, y: i32) -> (cell: Option<&Cell>)
        ensures
            match cell {
                Some(c) => self@.cell_at(x as int, y as int) == Some(*c),
                None => self@.cell_at(x as int, y as int) is None,
            },
    {
        if x < 0 || y < 0 {
            return None;
        }
        let ux: usize = x as usize;
        let uy: usize = y as usize;
        if ux >= self.width || uy >= self.height {
            return None;
        }
        assert(self.cells@.len() == self.cells.len());
        assert(self@.index(x as int, y as int) == uy * self.width + ux);
        match uy.checked_mul(self.width) {
            Some(row) => match row.checked_add(ux) {
                Some(i) => if i < self.cells.len() {
                    Some(&self.cells[i])
                } else {
                    None
                },
                None => None,
            },
            None => None,
        }
    }
}

} // verus!
