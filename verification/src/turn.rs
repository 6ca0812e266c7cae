//! A whole turn: apply the snapshot, hand out the radar mission if nobody
//! holds it, and let every owned robot act.

use crate::engine::{lemma_after_turns_wf, remarks_of};
use crate::request::{Remark, RequestComment};
use crate::rng::{all_in_field, in_field, random_target, random_targets};
use crate::snapshot::{CellReport, EntityReport, Snapshot, SnapshotError};
use crate::world::{lemma_wf_frame, GameState, World};
use vstd::prelude::*;

verus! {

/// What a turn produces.
#[derive(Debug)]
pub struct TurnReport {
    /// One action per owned robot, in the order of the robots.
    pub actions: Vec<RequestComment>,
    /// The records of the snapshot that were left out.
    pub errors: Vec<SnapshotError>,
}

impl World {
    /// The model once the radar mission to `target` has been handed out, if
    /// nobody held it.
    pub open spec fn radar_settled(self, target: (i32, i32)) -> World {
        if self.miner_with_radar is None {
            self.radar_assigned(target)
        } else {
            self
        }
    }

    /// The model as the robots find it when they act: the snapshot is
    /// applied and the radar mission is in somebody's hands if that can be.
    pub open spec fn briefed(
        self,
        snapshot: Snapshot,
        arrivals: Seq<(i32, i32)>,
        radar_target: (i32, i32),
    ) -> World {
        self.applied(snapshot, arrivals).radar_settled(radar_target)
    }

    /// The model after a whole turn. `arrivals[k]` is where an owned robot
    /// introduced by entity report `k` explores first, `radar_target` where
    /// a radar mission handed out this turn leads, and `fallbacks[i]` where
    /// owned robot `i` explores if it needs a new order while no ore is
    /// known.
    pub open spec fn stepped(
        self,
        snapshot: Snapshot,
        arrivals: Seq<(i32, i32)>,
        radar_target: (i32, i32),
        fallbacks: Seq<(i32, i32)>,
    ) -> World {
        let ready = self.briefed(snapshot, arrivals, radar_target);
        ready.after_turns(ready.miners.len(), fallbacks)
    }

    /// The actions of a whole turn, one per owned robot.
    pub open spec fn step_remarks(
        self,
        snapshot: Snapshot,
        arrivals: Seq<(i32, i32)>,
        radar_target: (i32, i32),
        fallbacks: Seq<(i32, i32)>,
    ) -> Seq<Remark> {
        let ready = self.briefed(snapshot, arrivals, radar_target);
        ready.remarks(ready.miners.len(), fallbacks)
    }
}

/// Entity reports add at most one owned robot each and remove none.
pub proof fn lemma_observed_all_count(w: World, reports: Seq<EntityReport>, targets: Seq<(i32, i32)>)
    ensures
        w.miners.len() <= w.observed_all(reports, targets).miners.len() <= w.miners.len()
            + reports.len(),
    decreases reports.len(),
{
    if reports.len() > 0 {
        lemma_observed_all_count(w, reports.drop_last(), targets);
    }
}

impl GameState {
    /// Merge a snapshot into the state: scores and cooldowns, then the
    /// reports on cells, then the reports on entities, each in order.
    /// `targets[k]` is the cell an owned robot explores first if entity
    /// report `k` introduces one. Returns the records that were left out;
    /// every other record is applied.
    pub fn apply_snapshot_with(&mut self, snapshot: &Snapshot, targets: &Vec<(i32, i32)>) -> (errors:
        Vec<SnapshotError>)
        requires
            old(self).wf(),
            targets.len() == snapshot.entities.len(),
        ensures
            final(self)@ == old(self)@.applied(*snapshot, targets@),
            errors@ == old(self)@.faults(*snapshot, targets@),
            final(self).wf(),
    {
        let mut errors: Vec<SnapshotError> = Vec::new();
        self.set_my_score(snapshot.my_score);
        self.set_opponent_score(snapshot.opponent_score);
        self.set_radar_cooldown(snapshot.radar_cooldown);
        self.set_trap_cooldown(snapshot.trap_cooldown);
        proof {
            lemma_wf_frame(old(self)@, self@);
        }
        let ghost start = old(self)@;
        let ghost scored = self@;
        assert(scored == start.scored(*snapshot));
        let mut k: usize = 0;
        while k < snapshot.cells.len()
            invariant
                k <= snapshot.cells.len(),
                self.wf(),
                scored.width == start.width,
                scored.height == start.height,
                self@.width == start.width,
                self@.height == start.height,
                self@ == scored.charted_all(snapshot.cells@.take(k as int)),
                errors@ == start.chart_faults(snapshot.cells@.take(k as int)),
            decreases snapshot.cells.len() - k,
        {
            let report = snapshot.cells[k];
            proof {
                let next = snapshot.cells@.take(k + 1);
                assert(next.drop_last() =~= snapshot.cells@.take(k as int));
                assert(next.last() == report);
            }
            match self.chart(report) {
                Ok(()) => {},
                Err(e) => {
                    errors.push(e);
                },
            }
            k = k + 1;
        }
        assert(snapshot.cells@.take(k as int) =~= snapshot.cells@);
        let ghost charted = self@;
        let ghost cell_faults = errors@;
        let mut k: usize = 0;
        while k < snapshot.entities.len()
            invariant
                k <= snapshot.entities.len(),
                targets.len() == snapshot.entities.len(),
                self.wf(),
                self@ == charted.observed_all(snapshot.entities@.take(k as int), targets@),
                errors@ == cell_faults + charted.observe_faults(
                    snapshot.entities@.take(k as int),
                    targets@,
                ),
            decreases snapshot.entities.len() - k,
        {
            let report = snapshot.entities[k];
            proof {
                let next = snapshot.entities@.take(k + 1);
                assert(next.drop_last() =~= snapshot.entities@.take(k as int));
                assert(next.last() == report);
            }
            match self.observe_with(report, targets[k]) {
                Ok(()) => {},
                Err(e) => {
                    errors.push(e);
                },
            }
            k = k + 1;
        }
        assert(snapshot.entities@.take(k as int) =~= snapshot.entities@);
        errors
    }

    /// Let every owned robot take its turn, in the order of the list, and
    /// collect one action per robot. `fallbacks[i]` is the cell robot `i`
    /// explores if it needs a new order while no ore is known.
    pub fn run_orders_with(&mut self, fallbacks: &Vec<(i32, i32)>) -> (actions: Vec<RequestComment>)
        requires
            old(self).wf(),
            fallbacks.len() >= old(self).miners.len(),
        ensures
            final(self)@ == old(self)@.after_turns(old(self)@.miners.len(), fallbacks@),
            remarks_of(actions@) == old(self)@.remarks(old(self)@.miners.len(), fallbacks@),
            actions.len() == old(self).miners.len(),
            final(self).miners.len() == old(self).miners.len(),
            final(self).wf(),
    {
        let ghost start = self@;
        let mut actions: Vec<RequestComment> = Vec::new();
        let count: usize = self.miners.len();
        let mut miner_index: usize = 0;
        while miner_index < count
            invariant
                miner_index <= count,
                count == start.miners.len(),
                count == self.miners.len(),
                fallbacks.len() >= count,
                start.wf(),
                self.wf(),
                self@ == start.after_turns(miner_index as nat, fallbacks@),
                actions.len() == miner_index,
                remarks_of(actions@) == start.remarks(miner_index as nat, fallbacks@),
            decreases count - miner_index,
        {
            let ghost earlier = remarks_of(actions@);
            let action = self.miner_turn_with(miner_index, fallbacks[miner_index]);
            actions.push(action);
            proof {
                lemma_after_turns_wf(start, (miner_index + 1) as nat, fallbacks@);
                assert(remarks_of(actions@) =~= earlier.push(action@));
            }
            miner_index = miner_index + 1;
        }
        actions
    }

    /// Play one turn with every random choice supplied by the caller.
    ///
    /// The snapshot is applied; the radar mission is handed out if nobody
    /// holds it; then every owned robot takes its turn. The report holds one
    /// action per owned robot, dead ones included, and the records of the
    /// snapshot that were left out.
    pub fn step_with(
        &mut self,
        snapshot: &Snapshot,
        arrivals: &Vec<(i32, i32)>,
        radar_target: (i32, i32),
        fallbacks: &Vec<(i32, i32)>,
    ) -> (report: TurnReport)
        requires
            old(self).wf(),
            arrivals.len() == snapshot.entities.len(),
            fallbacks.len() >= old(self).miners.len() + snapshot.entities.len(),
        ensures
            final(self)@ == old(self)@.stepped(*snapshot, arrivals@, radar_target, fallbacks@),
            remarks_of(report.actions@) == old(self)@.step_remarks(
                *snapshot,
                arrivals@,
                radar_target,
                fallbacks@,
            ),
            report.errors@ == old(self)@.faults(*snapshot, arrivals@),
            report.actions.len() == final(self).miners.len(),
            final(self).wf(),
    {
        proof {
            lemma_observed_all_count(
                old(self)@.scored(*snapshot).charted_all(snapshot.cells@),
                snapshot.entities@,
                arrivals@,
            );
            lemma_charted_all_keeps_robots(old(self)@.scored(*snapshot), snapshot.cells@);
        }
        let errors = self.apply_snapshot_with(snapshot, arrivals);
        // select a miner to carry radar if not already there
        if self.miner_with_radar.is_none() {
            self.assign_radar_to(radar_target);
        }
        let actions = self.run_orders_with(fallbacks);
        TurnReport { actions, errors }
    }

    /// Play one turn: apply the snapshot, hand out the radar mission if
    /// nobody holds it, and let every owned robot take its turn. Every
    /// random choice is a cell off the home column.
    ///
    /// The report holds one action per owned robot, dead ones included, and
    /// the records of the snapshot that were left out.
    pub fn step(&mut self, snapshot: &Snapshot) -> (report: TurnReport)
        requires
            old(self)@.has_field(),
            old(self).wf(),
        ensures
            exists|arrivals: Seq<(i32, i32)>, radar_target: (i32, i32), fallbacks: Seq<(i32, i32)>|
                {
                    &&& arrivals.len() == snapshot.entities.len()
                    &&& all_in_field(
                        arrivals,
                        old(self)@.width as int,
                        old(self)@.height as int,
                    )
                    &&& in_field(
                        radar_target.0 as int,
                        radar_target.1 as int,
                        old(self)@.width as int,
                        old(self)@.height as int,
                    )
                    &&& all_in_field(
                        fallbacks,
                        old(self)@.width as int,
                        old(self)@.height as int,
                    )
                    &&& final(self)@ == #[trigger] old(self)@.stepped(
                        *snapshot,
                        arrivals,
                        radar_target,
                        fallbacks,
                    )
                    &&& remarks_of(report.actions@) == old(self)@.step_remarks(
                        *snapshot,
                        arrivals,
                        radar_target,
                        fallbacks,
                    )
                    &&& report.errors@ == old(self)@.faults(*snapshot, arrivals)
                },
            report.actions.len() == final(self).miners.len(),
            final(self).wf(),
    {
        let width: i32 = self.width as i32;
        let height: i32 = self.height as i32;
        let arrivals = random_targets(snapshot.entities.len(), width, height);
        let errors = self.apply_snapshot_with(snapshot, &arrivals);
        let radar_target = random_target(width, height);
        if self.miner_with_radar.is_none() {
            self.assign_radar_to(radar_target);
        }
        let fallbacks = random_targets(self.miners.len(), width, height);
        let actions = self.run_orders_with(&fallbacks);
        proof {
            assert(self@ == old(self)@.stepped(*snapshot, arrivals@, radar_target, fallbacks@));
        }
        TurnReport { actions, errors }
    }
}

/// Reports on cells leave the robots alone.
pub proof fn lemma_charted_all_keeps_robots(w: World, reports: Seq<CellReport>)
    ensures
        w.charted_all(reports).miners == w.miners,
        w.charted_all(reports).width == w.width,
        w.charted_all(reports).height == w.height,
    decreases reports.len(),
{
    if reports.len() > 0 {
        lemma_charted_all_keeps_robots(w, reports.drop_last());
    }
}

} // verus!
