//! Radar assignment: which robot, if any, carries the single radar mission.

use crate::entity::Entity;
use crate::geometry::gap;
use crate::order::Order;
use crate::rng::{in_field, random_target};
use crate::world::{GameState, Miner, World};
use vstd::prelude::*;

verus! {

impl World {
    /// Whether some owned robot is alive.
    pub open spec fn any_alive(self) -> bool {
        exists|i: int| 0 <= i < self.miners.len() && (#[trigger] self.miners[i]).alive
    }

    /// How far owned robot `i` is, vertically, from the middle row
    /// `height / 2`.
    pub open spec fn off_centre(self, i: int) -> int {
        gap(self.miners[i].y as int, self.height as int / 2)
    }

    /// Whether owned robot `i` is the one to take the radar mission: it is
    /// alive, no living robot is closer to the middle row, and none that is
    /// as close comes earlier in the list.
    pub open spec fn is_radar_candidate(self, i: int) -> bool {
        &&& 0 <= i < self.miners.len()
        &&& self.miners[i].alive
        &&& forall|j: int|
            0 <= j < self.miners.len() && (#[trigger] self.miners[j]).alive ==> self.off_centre(i)
                < self.off_centre(j) || (self.off_centre(i) == self.off_centre(j) && i <= j)
    }

    /// The model after owned robot `i` took the radar mission `order`.
    pub open spec fn with_radar_mission(self, i: int, order: Order) -> World {
        World {
            miners: self.miners.update(i, Miner { order, ..self.miners[i] }),
            miner_with_radar: Some(i as usize),
            ..self
        }
    }

    /// The model after the radar mission to `target` was handed to the robot
    /// best placed for it; the model itself where no owned robot is alive.
    pub open spec fn radar_assigned(self, target: (i32, i32)) -> World {
        if exists|i: int| self.is_radar_candidate(i) {
            self.with_radar_mission(
                choose|i: int| self.is_radar_candidate(i),
                Order::DeployRadarAt(target.0, target.1),
            )
        } else {
            self
        }
    }
}

/// At most one robot is the radar candidate.
pub proof fn lemma_radar_candidate_unique(w: World, i: int, j: int)
    requires
        w.is_radar_candidate(i),
        w.is_radar_candidate(j),
    ensures
        i == j,
{
}

/// At most one owned robot is on the radar mission, and it is the recorded
/// holder.
pub proof fn lemma_single_radar_holder(w: World, i: int, j: int)
    requires
        w.wf(),
        w.on_radar_mission(i),
        w.on_radar_mission(j),
    ensures
        i == j,
        w.miner_with_radar == Some(i as usize),
{
}

/// Once the radar mission has been assigned in a state where nobody held it
/// and some owned robot was alive, exactly one robot is on the mission.
pub proof fn lemma_radar_assigned_has_one_holder(w: World, target: (i32, i32))
    requires
        w.wf(),
        w.miner_with_radar is None,
        w.any_alive(),
    ensures
        w.radar_assigned(target).wf(),
        exists|h: int| #[trigger]
            w.radar_assigned(target).on_radar_mission(h) && forall|i: int| #[trigger]
                w.radar_assigned(target).on_radar_mission(i) ==> i == h,
{
    let n = w.miners.len() as int;
    lemma_candidate_exists(w, n);
    lemma_radar_assigned_wf(w, target);
    let best = choose|best: Option<usize>| candidate_among(w, best, n);
    let living = choose|i: int| 0 <= i < w.miners.len() && (#[trigger] w.miners[i]).alive;
    assert(w.miners[living].alive);
    assert(best is Some);
    assert(w.is_radar_candidate(best->0 as int));
    let after = w.radar_assigned(target);
    let h = choose|i: int| w.is_radar_candidate(i);
    assert(after.on_radar_mission(h));
}

/// Handing out the radar mission while nobody holds it keeps the model
/// well-formed.
pub proof fn lemma_radar_assigned_wf(w: World, target: (i32, i32))
    requires
        w.wf(),
        w.miner_with_radar is None,
    ensures
        w.radar_assigned(target).wf(),
{
    let after = w.radar_assigned(target);
    if exists|i: int| w.is_radar_candidate(i) {
        let h = choose|i: int| w.is_radar_candidate(i);
        assert(after.on_radar_mission(h));
        assert forall|i: int| #![trigger after.on_radar_mission(i)] after.on_radar_mission(i) implies after.miner_with_radar == Some(i as usize) by {
            if i != h {
                assert(w.on_radar_mission(i));
            }
        }
        assert forall|uid: u32| #![trigger after.entities.contains_key(uid)] after.entities.contains_key(uid) implies match after.entities[uid] {
            Entity::Miner(i) => i < after.miners.len() && after.miners[i as int].uid == uid,
            Entity::OpponentMiner(i) => i < after.opponent_miners.len()
                && after.opponent_miners[i as int].uid == uid,
            Entity::BurriedRadar => true,
            Entity::BurriedTrap => true,
        } by {
            assert(w.entities.contains_key(uid));
        }
    }
}

/// Whether `best` is the radar candidate among the first `n` owned robots.
pub open spec fn candidate_among(w: World, best: Option<usize>, n: int) -> bool {
    match best {
        Some(b) => {
            &&& 0 <= b < n
            &&& w.miners[b as int].alive
            &&& forall|j: int|
                0 <= j < n && (#[trigger] w.miners[j]).alive ==> w.off_centre(b as int)
                    < w.off_centre(j) || (w.off_centre(b as int) == w.off_centre(j) && b <= j)
        },
        None => forall|j: int| 0 <= j < n ==> !(#[trigger] w.miners[j]).alive,
    }
}

/// Among the first `n` owned robots, if one is alive then one is the best
/// placed of them.
proof fn lemma_candidate_exists(w: World, n: int)
    requires
        0 <= n <= w.miners.len() <= usize::MAX,
    ensures
        exists|best: Option<usize>| candidate_among(w, best, n),
    decreases n,
{
    if n == 0 {
        assert(candidate_among(w, None, n));
    } else {
        let last = n - 1;
        lemma_candidate_exists(w, last);
        let prev = choose|best: Option<usize>| candidate_among(w, best, last);
        if !w.miners[last].alive {
            assert(candidate_among(w, prev, n));
        } else {
            match prev {
                Some(b) => {
                    if w.off_centre(last) < w.off_centre(b as int) {
                        assert(candidate_among(w, Some(last as usize), n));
                    } else {
                        assert(candidate_among(w, prev, n));
                    }
                },
                None => {
                    assert(candidate_among(w, Some(last as usize), n));
                },
            }
        }
    }
}

impl GameState {
    /// The robot to take the radar mission: among the living owned robots,
    /// the one closest to the middle row, the earliest in the list among
    /// equals. `None` where no owned robot is alive.
    pub fn radar_candidate(&self) -> (best: Option<usize>)
        requires
            self@.grid_wf(),
        ensures
            match best {
                Some(i) => self@.is_radar_candidate(i as int),
                None => !self@.any_alive(),
            },
    {
        let middle: i64 = (self.height / 2) as i64;
        let mut found: Option<(usize, i64)> = None;
        let mut index: usize = 0;
        while index < self.miners.len()
            invariant
                self@.grid_wf(),
                index <= self.miners.len(),
                middle == self@.height as int / 2,
                candidate_among(
                    self@,
                    match found {
                        Some(f) => Some(f.0),
                        None => None,
                    },
                    index as int,
                ),
                found matches Some(f) ==> f.1 == self@.off_centre(f.0 as int),
            decreases self.miners.len() - index,
        {
            let miner = &self.miners[index];
            if miner.alive {
                let delta: i64 = miner.y as i64 - middle;
                let dist: i64 = if delta < 0 {
                    -delta
                } else {
                    delta
                };
                match found {
                    Some(f) => {
                        if dist < f.1 {
                            found = Some((index, dist));
                        }
                    },
                    None => {
                        found = Some((index, dist));
                    },
                }
            }
            index = index + 1;
        }
        match found {
            Some(f) => Some(f.0),
            None => None,
        }
    }

    /// Hand the radar mission, with `target` as the cell to bury the radar
    /// in, to the robot best placed for it. Nothing changes where no owned
    /// robot is alive.
    pub fn assign_radar_to(&mut self, target: (i32, i32))
        requires
            old(self).wf(),
            old(self).miner_with_radar is None,
        ensures
            final(self)@ == old(self)@.radar_assigned(target),
            final(self).wf(),
            final(self).miner_with_radar is Some <==> old(self)@.any_alive(),
    {
        proof {
            lemma_radar_assigned_wf(self@, target);
        }
        match self.radar_candidate() {
            Some(index) => {
                proof {
                    let c = choose|i: int| self@.is_radar_candidate(i);
                    lemma_radar_candidate_unique(self@, index as int, c);
                }
                let mut miner = self.miners[index];
                miner.order = Order::DeployRadarAt(target.0, target.1);
                self.miner_with_radar = Some(index);
                self.miners.set(index, miner);
            },
            None => {
                assert forall|i: int| !self@.is_radar_candidate(i) by {
                    if self@.is_radar_candidate(i) {
                        assert(self@.miners[i].alive);
                    }
                }
            },
        }
    }

    /// Hand the radar mission to the robot best placed for it, with a random
    /// cell off the home column as the place to bury the radar. Nothing
    /// changes where no owned robot is alive.
    pub fn assign_radar(&mut self)
        requires
            old(self)@.has_field(),
            old(self).wf(),
            old(self).miner_with_radar is None,
        ensures
            exists|target: (i32, i32)|
                in_field(
                    target.0 as int,
                    target.1 as int,
                    old(self)@.width as int,
                    old(self)@.height as int,
                ) && final(self)@ == #[trigger] old(self)@.radar_assigned(target),
            final(self).wf(),
            final(self).miner_with_radar is Some <==> old(self)@.any_alive(),
    {
        let target = random_target(self.width as i32, self.height as i32);
        self.assign_radar_to(target);
    }
}

} // verus!
