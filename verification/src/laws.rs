//! Laws of the snapshot applier: what a report leaves behind, and what
//! applying a snapshot a second time does.

use crate::entity::{Entity, EntityType};
use crate::engine::lemma_after_turns_wf;
use crate::radar::lemma_radar_assigned_wf;
use crate::request::Request;
use crate::rng::{all_in_field, in_field};
use crate::target::lemma_nearest_ore_is_target;
use crate::turn::{lemma_charted_all_keeps_robots, lemma_observed_all_count};
use crate::snapshot::{CellReport, EntityReport, Snapshot};
use crate::world::{
    lemma_index_in_range, lemma_index_injective, lemma_wf_frame, Cell, Miner, Opponent, World,
};
use vstd::prelude::*;

verus! {

/// A report on a cell of the grid reads back as reported: afterwards the
/// cell holds exactly the reported ore estimate and hole flag. In particular
/// a cell reported as unknown is unknown afterwards and no longer counts as
/// holding ore, whatever was known of it before.
pub proof fn lemma_chart_reads_back(w: World, report: CellReport)
    requires
        w.grid_wf(),
        w.on_grid(report.x as int, report.y as int),
    ensures
        w.charted(report).cell_at(report.x as int, report.y as int) == Some(
            Cell { ore_amount: report.ore_amount, has_hole: report.has_hole },
        ),
        report.ore_amount is None ==> !w.charted(report).has_ore(
            report.x as int,
            report.y as int,
        ),
{
    lemma_index_in_range(w, report.x as int, report.y as int);
}

/// A report on a cell leaves every other cell as it was.
pub proof fn lemma_chart_leaves_others(w: World, report: CellReport, x: int, y: int)
    requires
        w.grid_wf(),
        w.on_grid(x, y),
        x != report.x || y != report.y,
    ensures
        w.charted(report).cell_at(x, y) == w.cell_at(x, y),
{
    lemma_index_in_range(w, x, y);
    if w.on_grid(report.x as int, report.y as int) {
        lemma_index_in_range(w, report.x as int, report.y as int);
        if w.index(x, y) == w.index(report.x as int, report.y as int) {
            lemma_index_injective(w, x, y, report.x as int, report.y as int);
        }
    }
}

/// A robot reported gone is dead afterwards, keeps everything else, and a
/// second report of the same kind changes nothing more.
pub proof fn lemma_gone_robot_stays_dead(
    w: World,
    report: EntityReport,
    first: (i32, i32),
    second: (i32, i32),
)
    requires
        report.is_gone(),
        w.is_robot(report.uid),
        EntityType::decode(report.entity_type) == Some(EntityType::Miner) || EntityType::decode(
            report.entity_type,
        ) == Some(EntityType::OpponentMiner),
    ensures
        w.observed(report, first) == w.killed(report.uid),
        match w.miner_index(report.uid) {
            Some(i) => w.observed(report, first).miners == w.miners.update(
                i,
                Miner { alive: false, ..w.miners[i] },
            ),
            None => w.observed(report, first).opponent_miners == w.opponent_miners.update(
                w.opponent_index(report.uid)->0,
                Opponent { alive: false, ..w.opponent_miners[w.opponent_index(report.uid)->0] },
            ),
        },
        w.observed(report, first).observed(report, second) == w.observed(report, first),
{
    let after = w.observed(report, first);
    assert(after == w.killed(report.uid));
    assert(after.entities == w.entities);
    assert(after.miner_index(report.uid) == w.miner_index(report.uid));
    assert(after.opponent_index(report.uid) == w.opponent_index(report.uid));
    assert(after.killed(report.uid) =~= after);
}

/// Whether two models are the same but for what is known of cell `(x, y)`.
pub open spec fn same_but_cell(a: World, b: World, x: int, y: int) -> bool {
    &&& a.grid_wf()
    &&& b.grid_wf()
    &&& a.cells.len() == b.cells.len()
    &&& forall|i: int| 0 <= i < a.cells.len() && i != a.index(x, y) ==> a.cells[i] == b.cells[i]
    &&& a == (World { cells: a.cells, ..b })
}

/// Reports on cells, applied in order, keep two models the same but for one
/// cell if they were so before.
proof fn lemma_charted_all_same_but_cell(a: World, b: World, x: int, y: int, reports: Seq<CellReport>)
    requires
        same_but_cell(a, b, x, y),
    ensures
        same_but_cell(a.charted_all(reports), b.charted_all(reports), x, y),
    decreases reports.len(),
{
    if reports.len() > 0 {
        lemma_charted_all_same_but_cell(a, b, x, y, reports.drop_last());
        let a1 = a.charted_all(reports.drop_last());
        let b1 = b.charted_all(reports.drop_last());
        let r = reports.last();
        if r.x < a1.width && r.y < a1.height {
            lemma_index_in_range(a1, r.x as int, r.y as int);
            lemma_index_in_range(b1, r.x as int, r.y as int);
        }
        assert(a1.charted(r).cells.len() == b1.charted(r).cells.len());
        assert(a1.charted(r) =~= (World { cells: a1.charted(r).cells, ..b1.charted(r) }));
    }
}

/// Applying a list of reports on cells a second time changes nothing: each
/// cell already holds what the last report on it says.
pub proof fn lemma_charted_all_twice(w: World, reports: Seq<CellReport>)
    requires
        w.grid_wf(),
    ensures
        w.charted_all(reports).charted_all(reports) == w.charted_all(reports),
        w.charted_all(reports).grid_wf(),
        w.charted_all(reports) == (World { cells: w.charted_all(reports).cells, ..w }),
    decreases reports.len(),
{
    if reports.len() > 0 {
        let earlier = reports.drop_last();
        let r = reports.last();
        lemma_charted_all_twice(w, earlier);
        let v = w.charted_all(earlier);
        let u = v.charted(r);
        assert(u == w.charted_all(reports));
        assert(u =~= (World { cells: u.cells, ..w }));
        if r.x < w.width && r.y < w.height {
            lemma_index_in_range(v, r.x as int, r.y as int);
            assert(same_but_cell(u, v, r.x as int, r.y as int));
            lemma_charted_all_same_but_cell(u, v, r.x as int, r.y as int, earlier);
            let again = u.charted_all(earlier);
            assert(same_but_cell(again, v, r.x as int, r.y as int));
            assert(again.charted(r) =~= u);
        }
    }
}

/// What a list of reports on cells makes of the grid depends on the grid
/// alone, and nothing but the grid changes.
pub proof fn lemma_charted_all_frame(a: World, b: World, reports: Seq<CellReport>)
    requires
        a.cells == b.cells,
        a.width == b.width,
        a.height == b.height,
    ensures
        a.charted_all(reports) == (World { cells: b.charted_all(reports).cells, ..a }),
        b.charted_all(reports).width == b.width,
        b.charted_all(reports).height == b.height,
    decreases reports.len(),
{
    if reports.len() > 0 {
        lemma_charted_all_frame(a, b, reports.drop_last());
        let a1 = a.charted_all(reports.drop_last());
        let b1 = b.charted_all(reports.drop_last());
        let r = reports.last();
        assert(a1.charted(r) =~= (World { cells: b1.charted(r).cells, ..a }));
    } else {
        assert(a =~= (World { cells: b.cells, ..a }));
    }
}

/// Whether a report on an entity has nothing left to say to the model:
/// applying it changes nothing.
pub open spec fn settled(w: World, report: EntityReport) -> bool {
    match EntityType::decode(report.entity_type) {
        None => true,
        Some(kind) => w.entities.contains_key(report.uid) && w.refreshed(kind, report) == w,
    }
}

/// A report on an entity keeps the model well-formed, adds at most one robot
/// to each team and removes none.
pub proof fn lemma_observed_wf(w: World, report: EntityReport, target: (i32, i32))
    requires
        w.wf(),
        w.miners.len() < usize::MAX,
        w.opponent_miners.len() < usize::MAX,
    ensures
        w.observed(report, target).wf(),
        w.miners.len() <= w.observed(report, target).miners.len() <= w.miners.len() + 1,
        w.opponent_miners.len() <= w.observed(report, target).opponent_miners.len()
            <= w.opponent_miners.len() + 1,
{
    let u = w.observed(report, target);
    assert forall|i: int| #![trigger u.on_radar_mission(i)] u.on_radar_mission(i) implies u.miner_with_radar
        == Some(i as usize) by {
        assert(w.on_radar_mission(i));
    }
    if let Some(h) = u.miner_with_radar {
        assert(w.on_radar_mission(h as int));
        assert(u.on_radar_mission(h as int));
    }
    assert forall|uid: u32| #![trigger u.entities.contains_key(uid)] u.entities.contains_key(uid) implies match u.entities[uid] {
        Entity::Miner(i) => i < u.miners.len() && u.miners[i as int].uid == uid,
        Entity::OpponentMiner(i) => i < u.opponent_miners.len() && u.opponent_miners[i as int].uid
            == uid,
        Entity::BurriedRadar => true,
        Entity::BurriedTrap => true,
    } by {
        if uid != report.uid || w.entities.contains_key(report.uid) {
            assert(w.entities.contains_key(uid));
        }
    }
}

/// Once a report on an entity is applied, it is settled, unless it reports
/// a robot as gone.
pub proof fn lemma_observed_settles(w: World, report: EntityReport, target: (i32, i32))
    requires
        w.sizes_wf(),
        !report.is_gone(),
    ensures
        settled(w.observed(report, target), report),
{
    let u = w.observed(report, target);
    if let Some(kind) = EntityType::decode(report.entity_type) {
        assert(u.entities.contains_key(report.uid));
        assert(u.refreshed(kind, report) =~= u);
    }
}

/// Whether no report of the list reports a robot as gone.
pub open spec fn none_gone(reports: Seq<EntityReport>) -> bool {
    forall|i: int| 0 <= i < reports.len() ==> !(#[trigger] reports[i]).is_gone()
}

/// Reports on entities touch nothing but the robots, the registry and the
/// buried items.
pub proof fn lemma_observed_all_frame(
    w: World,
    reports: Seq<EntityReport>,
    targets: Seq<(i32, i32)>,
)
    ensures
        ({
            let u = w.observed_all(reports, targets);
            &&& u.width == w.width
            &&& u.height == w.height
            &&& u.cells == w.cells
            &&& u.my_score == w.my_score
            &&& u.opponent_score == w.opponent_score
            &&& u.radar_cooldown == w.radar_cooldown
            &&& u.trap_cooldown == w.trap_cooldown
            &&& u.miner_with_radar == w.miner_with_radar
        }),
    decreases reports.len(),
{
    if reports.len() > 0 {
        lemma_observed_all_frame(w, reports.drop_last(), targets);
    }
}

/// A list of reports on entities keeps the model well-formed and adds at
/// most one robot per report to each team.
pub proof fn lemma_observed_all_wf(w: World, reports: Seq<EntityReport>, targets: Seq<(i32, i32)>)
    requires
        w.wf(),
        w.miners.len() + reports.len() <= usize::MAX,
        w.opponent_miners.len() + reports.len() <= usize::MAX,
    ensures
        w.observed_all(reports, targets).wf(),
        w.observed_all(reports, targets).miners.len() <= w.miners.len() + reports.len(),
        w.observed_all(reports, targets).opponent_miners.len() <= w.opponent_miners.len()
            + reports.len(),
    decreases reports.len(),
{
    if reports.len() > 0 {
        lemma_observed_all_wf(w, reports.drop_last(), targets);
        lemma_observed_wf(
            w.observed_all(reports.drop_last(), targets),
            reports.last(),
            targets[reports.len() - 1],
        );
    }
}

/// A snapshot keeps the model well-formed, whatever it holds.
pub proof fn lemma_applied_wf(w: World, snapshot: Snapshot, targets: Seq<(i32, i32)>)
    requires
        w.wf(),
        w.miners.len() + snapshot.entities@.len() <= usize::MAX,
        w.opponent_miners.len() + snapshot.entities@.len() <= usize::MAX,
    ensures
        w.applied(snapshot, targets).wf(),
{
    let s = w.scored(snapshot);
    let c = s.charted_all(snapshot.cells@);
    lemma_wf_frame(w, s);
    lemma_charted_all_twice(s, snapshot.cells@);
    lemma_wf_frame(s, c);
    lemma_observed_all_wf(c, snapshot.entities@, targets);
}

/// A turn yields exactly one action per owned robot, dead ones included,
/// and leaves the model well-formed: in particular at most one robot is on
/// the radar mission afterwards.
pub proof fn lemma_one_action_per_robot(
    w: World,
    snapshot: Snapshot,
    arrivals: Seq<(i32, i32)>,
    radar_target: (i32, i32),
    fallbacks: Seq<(i32, i32)>,
)
    requires
        w.wf(),
        w.miners.len() + snapshot.entities@.len() <= usize::MAX,
        w.opponent_miners.len() + snapshot.entities@.len() <= usize::MAX,
    ensures
        w.step_remarks(snapshot, arrivals, radar_target, fallbacks).len() == w.stepped(
            snapshot,
            arrivals,
            radar_target,
            fallbacks,
        ).miners.len(),
        w.stepped(snapshot, arrivals, radar_target, fallbacks).wf(),
{
    lemma_applied_wf(w, snapshot, arrivals);
    let seen = w.applied(snapshot, arrivals);
    if seen.miner_with_radar is None {
        lemma_radar_assigned_wf(seen, radar_target);
    }
    let ready = w.briefed(snapshot, arrivals, radar_target);
    lemma_after_turns_wf(ready, ready.miners.len(), fallbacks);
}

/// What a report does to an entity that is already there: the model after
/// the report, as if its identifier were in the registry.
pub open spec fn updated(w: World, report: EntityReport) -> World {
    match EntityType::decode(report.entity_type) {
        None => w,
        Some(kind) => w.refreshed(kind, report),
    }
}

/// The model after a list of reports, each taken as a report on an entity
/// that is already there.
pub open spec fn updated_all(w: World, reports: Seq<EntityReport>) -> World
    decreases reports.len(),
{
    if reports.len() == 0 {
        w
    } else {
        updated(updated_all(w, reports.drop_last()), reports.last())
    }
}

/// Whether a report speaks of a robot.
pub open spec fn about_robot(report: EntityReport) -> bool {
    EntityType::decode(report.entity_type) == Some(EntityType::Miner) || EntityType::decode(
        report.entity_type,
    ) == Some(EntityType::OpponentMiner)
}

/// Whether two reports write to the same record of the model: the same
/// robot, the same buried radar or the same buried trap.
pub open spec fn same_record(w: World, a: EntityReport, b: EntityReport) -> bool {
    if about_robot(a) && about_robot(b) {
        if w.miner_index(a.uid) is Some || w.miner_index(b.uid) is Some {
            w.miner_index(a.uid) == w.miner_index(b.uid)
        } else {
            w.opponent_index(a.uid) is Some && w.opponent_index(a.uid) == w.opponent_index(b.uid)
        }
    } else {
        &&& EntityType::decode(a.entity_type) is Some
        &&& !about_robot(a)
        &&& EntityType::decode(a.entity_type) == EntityType::decode(b.entity_type)
        &&& a.uid == b.uid
    }
}

/// An update leaves the registry, the grid and the number of robots alone,
/// and keeps the model well-formed.
pub proof fn lemma_updated_frame(w: World, report: EntityReport)
    ensures
        updated(w, report).entities == w.entities,
        updated(w, report).miners.len() == w.miners.len(),
        updated(w, report).opponent_miners.len() == w.opponent_miners.len(),
        w.wf() ==> updated(w, report).wf(),
{
    let u = updated(w, report);
    if w.wf() {
        assert forall|i: int| #![trigger u.on_radar_mission(i)] u.on_radar_mission(i) implies u.miner_with_radar
            == Some(i as usize) by {
            assert(w.on_radar_mission(i));
        }
        if let Some(h) = u.miner_with_radar {
            assert(w.on_radar_mission(h as int));
            assert(u.on_radar_mission(h as int));
        }
        assert forall|uid: u32| #![trigger u.entities.contains_key(uid)] u.entities.contains_key(uid) implies match u.entities[uid] {
            Entity::Miner(i) => i < u.miners.len() && u.miners[i as int].uid == uid,
            Entity::OpponentMiner(i) => i < u.opponent_miners.len() && u.opponent_miners[i as int].uid
                == uid,
            Entity::BurriedRadar => true,
            Entity::BurriedTrap => true,
        } by {
            assert(w.entities.contains_key(uid));
        }
    }
}

/// Of two updates, neither of a robot gone, the later one either wipes out
/// the earlier one, where both write to the same record, or the two can
/// change places.
pub proof fn lemma_later_update_wins(w: World, earlier: EntityReport, later: EntityReport)
    requires
        !earlier.is_gone(),
        !later.is_gone(),
    ensures
        same_record(w, later, earlier) ==> updated(updated(w, earlier), later) == updated(
            w,
            later,
        ),
        !same_record(w, later, earlier) ==> updated(updated(w, earlier), later) == updated(
            updated(w, later),
            earlier,
        ),
{
    let a = updated(w, earlier);
    let b = updated(w, later);
    lemma_updated_frame(w, earlier);
    lemma_updated_frame(w, later);
    assert(a.miner_index(later.uid) == w.miner_index(later.uid));
    assert(a.opponent_index(later.uid) == w.opponent_index(later.uid));
    assert(b.miner_index(earlier.uid) == w.miner_index(earlier.uid));
    assert(b.opponent_index(earlier.uid) == w.opponent_index(earlier.uid));
    if same_record(w, later, earlier) {
        assert(updated(a, later) =~= b);
    } else {
        assert(updated(a, later) =~= updated(b, earlier));
    }
}

/// Two models that an update makes equal are still made equal by it after
/// both went through another update.
proof fn lemma_equal_after_update(a: World, b: World, report: EntityReport, other: EntityReport)
    requires
        !report.is_gone(),
        !other.is_gone(),
        updated(a, report) == updated(b, report),
    ensures
        updated(updated(a, other), report) == updated(updated(b, other), report),
{
    lemma_updated_frame(a, report);
    lemma_updated_frame(b, report);
    assert(a.entities == b.entities);
    assert(a.miners.len() == b.miners.len());
    assert(a.opponent_miners.len() == b.opponent_miners.len());
    assert(same_record(a, report, other) == same_record(b, report, other));
    lemma_later_update_wins(a, other, report);
    lemma_later_update_wins(b, other, report);
}

/// Two models that an update makes equal are still made equal by it after
/// both went through the same list of updates.
proof fn lemma_equal_after_updates(
    a: World,
    b: World,
    report: EntityReport,
    others: Seq<EntityReport>,
)
    requires
        !report.is_gone(),
        none_gone(others),
        updated(a, report) == updated(b, report),
    ensures
        updated(updated_all(a, others), report) == updated(updated_all(b, others), report),
    decreases others.len(),
{
    if others.len() > 0 {
        let earlier = others.drop_last();
        assert(none_gone(earlier)) by {
            assert forall|i: int| 0 <= i < earlier.len() implies !(#[trigger] earlier[i]).is_gone() by {
                assert(!others[i].is_gone());
            }
        }
        assert(!others[others.len() - 1].is_gone());
        lemma_equal_after_updates(a, b, report, earlier);
        lemma_equal_after_update(
            updated_all(a, earlier),
            updated_all(b, earlier),
            report,
            others.last(),
        );
    }
}

/// A list of updates leaves the registry and the number of robots alone and
/// keeps the model well-formed.
proof fn lemma_updated_all_frame(w: World, reports: Seq<EntityReport>)
    ensures
        updated_all(w, reports).entities == w.entities,
        updated_all(w, reports).miners.len() == w.miners.len(),
        updated_all(w, reports).opponent_miners.len() == w.opponent_miners.len(),
        w.wf() ==> updated_all(w, reports).wf(),
    decreases reports.len(),
{
    if reports.len() > 0 {
        lemma_updated_all_frame(w, reports.drop_last());
        lemma_updated_frame(updated_all(w, reports.drop_last()), reports.last());
    }
}

/// Whether every report of the list that names an entity kind speaks of an
/// entity in the registry.
pub open spec fn all_known(w: World, reports: Seq<EntityReport>) -> bool {
    forall|k: int|
        0 <= k < reports.len() && EntityType::decode((#[trigger] reports[k]).entity_type) is Some
            ==> w.entities.contains_key(reports[k].uid)
}

/// The registry only grows: a report leaves every entry as it was, and adds
/// one for its own entity if it names a kind.
pub proof fn lemma_registry_grows(w: World, report: EntityReport, target: (i32, i32))
    ensures
        forall|uid: u32| #[trigger]
            w.entities.contains_key(uid) ==> w.observed(report, target).entities.contains_key(uid)
                && w.observed(report, target).entities[uid] == w.entities[uid],
        EntityType::decode(report.entity_type) is Some ==> w.observed(
            report,
            target,
        ).entities.contains_key(report.uid),
{
}

/// After a list of reports, the registry holds every entity it held before
/// and every entity that a report of the list names with a kind.
pub proof fn lemma_known_after(w: World, reports: Seq<EntityReport>, targets: Seq<(i32, i32)>)
    ensures
        all_known(w.observed_all(reports, targets), reports),
        forall|uid: u32| #[trigger]
            w.entities.contains_key(uid) ==> w.observed_all(reports, targets).entities.contains_key(
                uid,
            ),
    decreases reports.len(),
{
    if reports.len() > 0 {
        let earlier = reports.drop_last();
        let v = w.observed_all(earlier, targets);
        let target = targets[reports.len() - 1];
        lemma_known_after(w, earlier, targets);
        lemma_registry_grows(v, reports.last(), target);
        let u = v.observed(reports.last(), target);
        assert forall|k: int|
            0 <= k < reports.len() && EntityType::decode(
                (#[trigger] reports[k]).entity_type,
            ) is Some implies u.entities.contains_key(reports[k].uid) by {
            if k < reports.len() - 1 {
                assert(earlier[k] == reports[k]);
                assert(v.entities.contains_key(earlier[k].uid));
            }
        }
        assert forall|uid: u32| #[trigger] w.entities.contains_key(uid) implies u.entities.contains_key(
            uid,
        ) by {
            assert(v.entities.contains_key(uid));
        }
    }
}

/// Where every entity of a list of reports is in the registry, applying the
/// list is a list of updates.
proof fn lemma_replay_is_update(u: World, reports: Seq<EntityReport>, targets: Seq<(i32, i32)>)
    requires
        all_known(u, reports),
    ensures
        u.observed_all(reports, targets) == updated_all(u, reports),
    decreases reports.len(),
{
    if reports.len() > 0 {
        let earlier = reports.drop_last();
        assert(all_known(u, earlier)) by {
            assert forall|k: int|
                0 <= k < earlier.len() && EntityType::decode(
                    (#[trigger] earlier[k]).entity_type,
                ) is Some implies u.entities.contains_key(earlier[k].uid) by {
                assert(earlier[k] == reports[k]);
            }
        }
        lemma_replay_is_update(u, earlier, targets);
        lemma_updated_all_frame(u, earlier);
        let last = reports[reports.len() - 1];
        assert(EntityType::decode(last.entity_type) is Some ==> u.entities.contains_key(last.uid));
    }
}

/// Whether no report of the list that names an entity kind speaks of the
/// entity `uid`.
pub open spec fn none_about(reports: Seq<EntityReport>, uid: u32) -> bool {
    forall|k: int|
        0 <= k < reports.len() && EntityType::decode((#[trigger] reports[k]).entity_type) is Some
            ==> reports[k].uid != uid
}

/// The first sighting of an entity and an update of another entity can
/// change places.
proof fn lemma_first_sighting_commutes(
    w: World,
    report: EntityReport,
    target: (i32, i32),
    other: EntityReport,
)
    requires
        w.wf(),
        !w.entities.contains_key(report.uid),
        EntityType::decode(other.entity_type) is Some ==> other.uid != report.uid,
    ensures
        updated(w.observed(report, target), other) == updated(w, other).observed(report, target),
{
    lemma_updated_frame(w, other);
    let created = w.observed(report, target);
    let moved = updated(w, other);
    if EntityType::decode(other.entity_type) is Some {
        assert(w.entities.contains_key(other.uid) ==> created.entities[other.uid]
            == w.entities[other.uid]);
        assert(created.miner_index(other.uid) == w.miner_index(other.uid));
        assert(created.opponent_index(other.uid) == w.opponent_index(other.uid));
    }
    assert(updated(created, other) =~= moved.observed(report, target));
}

/// The first sighting of an entity and a list of updates of other entities
/// can change places.
proof fn lemma_first_sighting_commutes_all(
    w: World,
    report: EntityReport,
    target: (i32, i32),
    others: Seq<EntityReport>,
)
    requires
        w.wf(),
        !w.entities.contains_key(report.uid),
        none_about(others, report.uid),
    ensures
        updated_all(w.observed(report, target), others) == updated_all(w, others).observed(
            report,
            target,
        ),
    decreases others.len(),
{
    if others.len() > 0 {
        let earlier = others.drop_last();
        assert(none_about(earlier, report.uid)) by {
            assert forall|k: int|
                0 <= k < earlier.len() && EntityType::decode(
                    (#[trigger] earlier[k]).entity_type,
                ) is Some implies earlier[k].uid != report.uid by {
                assert(earlier[k] == others[k]);
            }
        }
        lemma_first_sighting_commutes_all(w, report, target, earlier);
        lemma_updated_all_frame(w, earlier);
        let last = others[others.len() - 1];
        assert(EntityType::decode(last.entity_type) is Some ==> last.uid != report.uid);
        lemma_first_sighting_commutes(updated_all(w, earlier), report, target, last);
    }
}

/// After a list of reports, none of a robot gone, updating the model by the
/// same list changes nothing: every record already holds what the last
/// report on it says.
proof fn lemma_updates_settled(w: World, reports: Seq<EntityReport>, targets: Seq<(i32, i32)>)
    requires
        w.wf(),
        w.miners.len() + reports.len() <= usize::MAX,
        w.opponent_miners.len() + reports.len() <= usize::MAX,
        none_gone(reports),
    ensures
        updated_all(w.observed_all(reports, targets), reports) == w.observed_all(
            reports,
            targets,
        ),
    decreases reports.len(),
{
    if reports.len() > 0 {
        let earlier = reports.drop_last();
        let last = reports[reports.len() - 1];
        let target = targets[reports.len() - 1];
        let v = w.observed_all(earlier, targets);
        let u = v.observed(last, target);
        assert(none_gone(earlier)) by {
            assert forall|i: int| 0 <= i < earlier.len() implies !(#[trigger] earlier[i]).is_gone() by {
                assert(!reports[i].is_gone());
            }
        }
        assert(!last.is_gone());
        lemma_updates_settled(w, earlier, targets);
        lemma_observed_all_wf(w, earlier, targets);
        lemma_observed_settles(v, last, target);
        assert(updated(u, last) == u);
        if EntityType::decode(last.entity_type) is None {
            assert(u == v);
        } else if v.entities.contains_key(last.uid) {
            assert(u == updated(v, last));
            lemma_equal_after_updates(u, v, last, earlier);
        } else {
            lemma_known_after(w, earlier, targets);
            assert(none_about(earlier, last.uid)) by {
                assert forall|k: int|
                    0 <= k < earlier.len() && EntityType::decode(
                        (#[trigger] earlier[k]).entity_type,
                    ) is Some implies earlier[k].uid != last.uid by {
                    assert(v.entities.contains_key(earlier[k].uid));
                }
            }
            lemma_first_sighting_commutes_all(v, last, target, earlier);
        }
    }
}

/// Applying a snapshot a second time changes nothing, provided that it
/// reports no robot as gone: every record of the model already holds what
/// the last report on it says.
///
/// The targets handed to the two applications may differ: the second one
/// meets no new robot and uses none of them.
pub proof fn lemma_snapshot_twice(
    w: World,
    snapshot: Snapshot,
    first: Seq<(i32, i32)>,
    second: Seq<(i32, i32)>,
)
    requires
        w.wf(),
        w.miners.len() + snapshot.entities@.len() <= usize::MAX,
        w.opponent_miners.len() + snapshot.entities@.len() <= usize::MAX,
        none_gone(snapshot.entities@),
    ensures
        w.applied(snapshot, first).wf(),
        w.applied(snapshot, first).applied(snapshot, second) == w.applied(snapshot, first),
{
    let cells = snapshot.cells@;
    let reports = snapshot.entities@;
    let s = w.scored(snapshot);
    let c = s.charted_all(cells);
    let u = c.observed_all(reports, first);
    lemma_wf_frame(w, s);
    lemma_charted_all_twice(s, cells);
    lemma_wf_frame(s, c);
    lemma_observed_all_frame(c, reports, first);
    lemma_observed_all_wf(c, reports, first);
    assert(u.scored(snapshot) =~= u);
    lemma_charted_all_frame(u, c, cells);
    assert(u.charted_all(cells) =~= u);
    lemma_updates_settled(c, reports, first);
    lemma_known_after(c, reports, first);
    lemma_replay_is_update(u, reports, second);
}

/// Whether every owned robot's order points at a cell of the grid.
pub open spec fn orders_on_grid(w: World) -> bool {
    forall|i: int|
        0 <= i < w.miners.len() ==> w.on_grid(
            (#[trigger] w.miners[i]).order.target().0,
            w.miners[i].order.target().1,
        )
}

/// Whether an action names no cell, or a cell of the grid.
pub open spec fn request_on_grid(w: World, request: Request) -> bool {
    match request {
        Request::Move(x, y) => w.on_grid(x as int, y as int),
        Request::Dig(x, y) => w.on_grid(x as int, y as int),
        Request::Wait => true,
        Request::Item(_) => true,
    }
}

/// A report on an entity keeps every order on the grid, given that the
/// target for a new robot is on the field.
pub proof fn lemma_observed_keeps_orders(w: World, report: EntityReport, target: (i32, i32))
    requires
        orders_on_grid(w),
        in_field(target.0 as int, target.1 as int, w.width as int, w.height as int),
    ensures
        orders_on_grid(w.observed(report, target)),
{
    let u = w.observed(report, target);
    assert forall|i: int| 0 <= i < u.miners.len() implies u.on_grid(
        (#[trigger] u.miners[i]).order.target().0,
        u.miners[i].order.target().1,
    ) by {
        if i < w.miners.len() {
            assert(u.miners[i].order == w.miners[i].order);
        }
    }
}

/// A list of reports on entities keeps every order on the grid, given that
/// the targets for new robots are on the field.
pub proof fn lemma_observed_all_keeps_orders(
    w: World,
    reports: Seq<EntityReport>,
    targets: Seq<(i32, i32)>,
)
    requires
        orders_on_grid(w),
        targets.len() >= reports.len(),
        all_in_field(targets, w.width as int, w.height as int),
    ensures
        orders_on_grid(w.observed_all(reports, targets)),
    decreases reports.len(),
{
    if reports.len() > 0 {
        lemma_observed_all_keeps_orders(w, reports.drop_last(), targets);
        lemma_observed_all_frame(w, reports.drop_last(), targets);
        let target = targets[reports.len() - 1];
        lemma_observed_keeps_orders(
            w.observed_all(reports.drop_last(), targets),
            reports.last(),
            target,
        );
    }
}

/// Handing out the radar mission keeps every order on the grid, given that
/// the radar is to be buried on the field.
pub proof fn lemma_radar_keeps_orders(w: World, target: (i32, i32))
    requires
        orders_on_grid(w),
        in_field(target.0 as int, target.1 as int, w.width as int, w.height as int),
    ensures
        orders_on_grid(w.radar_settled(target)),
{
    let u = w.radar_settled(target);
    assert forall|i: int| 0 <= i < u.miners.len() implies u.on_grid(
        (#[trigger] u.miners[i]).order.target().0,
        u.miners[i].order.target().1,
    ) by {
        assert(w.on_grid(w.miners[i].order.target().0, w.miners[i].order.target().1));
    }
}

/// A robot's turn keeps every order on the grid, given that the fallback is
/// on the field; and the action of a robot that stands on the grid names no
/// cell off the grid.
pub proof fn lemma_turn_keeps_orders(w: World, i: int, fallback: (i32, i32))
    requires
        orders_on_grid(w),
        0 <= i < w.miners.len(),
        in_field(fallback.0 as int, fallback.1 as int, w.width as int, w.height as int),
    ensures
        orders_on_grid(w.after_turn(i, fallback)),
        w.on_grid(w.miners[i].x as int, w.miners[i].y as int) ==> request_on_grid(
            w,
            w.verdict(i, fallback).request,
        ),
{
    let miner = w.miners[i];
    let u = w.after_turn(i, fallback);
    lemma_nearest_ore_is_target(w, miner.x as int, miner.y as int);
    let fresh = w.fresh_order(miner.x as int, miner.y as int, fallback);
    assert(w.on_grid(fresh.target().0, fresh.target().1));
    assert(w.on_grid(miner.order.target().0, miner.order.target().1));
    assert forall|j: int| 0 <= j < u.miners.len() implies u.on_grid(
        (#[trigger] u.miners[j]).order.target().0,
        u.miners[j].order.target().1,
    ) by {
        assert(w.on_grid(w.miners[j].order.target().0, w.miners[j].order.target().1));
    }
}

/// The turns of the first `n` robots keep every order on the grid, given
/// that the fallbacks are on the field.
pub proof fn lemma_turns_keep_orders(w: World, n: nat, fallbacks: Seq<(i32, i32)>)
    requires
        orders_on_grid(w),
        n <= w.miners.len(),
        n <= fallbacks.len(),
        all_in_field(fallbacks, w.width as int, w.height as int),
    ensures
        orders_on_grid(w.after_turns(n, fallbacks)),
        w.after_turns(n, fallbacks).miners.len() == w.miners.len(),
        w.after_turns(n, fallbacks).width == w.width,
        w.after_turns(n, fallbacks).height == w.height,
    decreases n,
{
    if n > 0 {
        lemma_turns_keep_orders(w, (n - 1) as nat, fallbacks);
        let fallback = fallbacks[n - 1];
        lemma_turn_keeps_orders(w.after_turns((n - 1) as nat, fallbacks), n - 1, fallback);
    }
}

/// A whole turn keeps every order on the grid, given that every cell it is
/// handed for exploring and for the radar is on the field.
pub proof fn lemma_step_keeps_orders(
    w: World,
    snapshot: Snapshot,
    arrivals: Seq<(i32, i32)>,
    radar_target: (i32, i32),
    fallbacks: Seq<(i32, i32)>,
)
    requires
        orders_on_grid(w),
        arrivals.len() >= snapshot.entities@.len(),
        fallbacks.len() >= w.miners.len() + snapshot.entities@.len(),
        all_in_field(arrivals, w.width as int, w.height as int),
        in_field(radar_target.0 as int, radar_target.1 as int, w.width as int, w.height as int),
        all_in_field(fallbacks, w.width as int, w.height as int),
    ensures
        orders_on_grid(w.stepped(snapshot, arrivals, radar_target, fallbacks)),
{
    let s = w.scored(snapshot);
    let c = s.charted_all(snapshot.cells@);
    lemma_charted_all_keeps_robots(s, snapshot.cells@);
    assert(orders_on_grid(c)) by {
        assert forall|i: int| 0 <= i < c.miners.len() implies c.on_grid(
            (#[trigger] c.miners[i]).order.target().0,
            c.miners[i].order.target().1,
        ) by {
            assert(w.on_grid(w.miners[i].order.target().0, w.miners[i].order.target().1));
        }
    }
    lemma_observed_all_keeps_orders(c, snapshot.entities@, arrivals);
    lemma_observed_all_frame(c, snapshot.entities@, arrivals);
    lemma_observed_all_count(c, snapshot.entities@, arrivals);
    let seen = w.applied(snapshot, arrivals);
    lemma_radar_keeps_orders(seen, radar_target);
    let ready = w.briefed(snapshot, arrivals, radar_target);
    assert(ready.miners.len() == seen.miners.len());
    lemma_turns_keep_orders(ready, ready.miners.len(), fallbacks);
}

} // verus!
