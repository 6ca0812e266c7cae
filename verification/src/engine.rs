//! The order engine: what each owned robot does this turn, and which order
//! it holds afterwards.

use crate::entity::{Entity, Item};
use crate::geometry::manh_dist;
use crate::order::Order;
use crate::request::{Remark, Request, RequestComment, RequestItem};
use crate::rng::{in_field, random_target};
use crate::world::{Cell, GameState, Miner, World};
use vstd::prelude::*;

verus! {

/// The outcome of one robot's turn.
pub struct Decision {
    /// The order the robot holds after the turn.
    pub order: Order,
    /// The action it performs this turn.
    pub request: Request,
    /// Whether the robot gives up the radar mission.
    pub releases_radar: bool,
    /// The comment attached to the action.
    pub comment: Option<Seq<char>>,
}

impl Decision {
    /// The action with its comment.
    pub open spec fn remark(self) -> Remark {
        Remark { req: self.request, comment: self.comment }
    }
}

/// The robot keeps its order and performs `request`.
pub open spec fn carry_on(miner: Miner, request: Request) -> Decision {
    Decision { order: miner.order, request, releases_radar: false, comment: None }
}

/// The robot takes up `order` and moves towards the cell it points at.
pub open spec fn set_out(order: Order, comment: Option<Seq<char>>) -> Decision {
    Decision {
        order,
        request: Request::Move(order.cell().0, order.cell().1),
        releases_radar: false,
        comment,
    }
}

/// What the holder of the radar mission does, with `(x, y)` the cell to bury
/// the radar in and `fresh` the order it would take up next.
///
/// With the radar in hand it buries it on arrival, which ends the mission,
/// and travels otherwise. Without it, it goes to the home column and asks
/// for one there.
pub open spec fn radar_verdict(miner: Miner, x: i32, y: i32, fresh: Order) -> Decision {
    if miner.item == Some(Item::Radar) {
        if x == miner.x && y == miner.y {
            Decision {
                order: fresh,
                request: Request::Dig(x, y),
                releases_radar: true,
                comment: None,
            }
        } else {
            carry_on(miner, Request::Move(x, y))
        }
    } else if miner.x != 0 {
        carry_on(miner, Request::Move(0, miner.y))
    } else {
        carry_on(miner, Request::Item(RequestItem::Radar))
    }
}

/// What a robot does that travels to `(x, y)` to explore or dig, with `cell`
/// what is known of that cell and `fresh` the order it would take up next.
///
/// On the way, it turns to the nearest ore as soon as some is known. On
/// arrival, it heads home if it carries ore, probes a cell that is unknown
/// and intact, digs a cell known to hold ore and heads home from there, and
/// takes up a fresh order where the cell has nothing left to give. Where the
/// cell is off the grid it waits.
pub open spec fn travel_verdict(
    miner: Miner,
    x: i32,
    y: i32,
    cell: Option<Cell>,
    fresh: Order,
) -> Decision {
    if x == miner.x && y == miner.y {
        match cell {
            None => carry_on(miner, Request::Wait),
            Some(cell) => if miner.item == Some(Item::Ore) {
                Decision {
                    order: Order::Deliver(x, y),
                    request: Request::Move(0, y),
                    releases_radar: false,
                    comment: None,
                }
            } else if cell.ore_amount is None && !cell.has_hole {
                carry_on(miner, Request::Dig(x, y))
            } else if cell.ore_amount matches Some(n) && n > 0 {
                Decision {
                    order: Order::Deliver(x, y),
                    request: Request::Dig(x, y),
                    releases_radar: false,
                    comment: None,
                }
            } else {
                set_out(fresh, None)
            },
        }
    } else if fresh is DigAt {
        set_out(fresh, None)
    } else {
        carry_on(miner, Request::Move(x, y))
    }
}

/// What a robot does that brings ore home from the dig site `(x, y)`, with
/// `fresh` the order it would take up next: it moves to the home column
/// along the row of the dig site, and takes up a fresh order once there.
pub open spec fn deliver_verdict(miner: Miner, x: i32, y: i32, fresh: Order) -> Decision {
    if miner.x != 0 {
        Decision {
            order: miner.order,
            request: Request::Move(0, y),
            releases_radar: false,
            comment: Some("going back to HQ!"@),
        }
    } else {
        set_out(fresh, Some("changing order!"@))
    }
}

impl World {
    /// What owned robot `i` does this turn, with `fallback` the cell to
    /// explore if it needs a new order while no ore is known.
    ///
    /// A dead robot waits. The holder of the radar mission follows
    /// [`radar_verdict`]; any other robot follows the verdict for its order.
    pub open spec fn verdict(self, i: int, fallback: (i32, i32)) -> Decision {
        let miner = self.miners[i];
        let fresh = self.fresh_order(miner.x as int, miner.y as int, fallback);
        if !miner.alive {
            carry_on(miner, Request::Wait)
        } else if self.miner_with_radar == Some(i as usize) {
            match miner.order {
                Order::DeployRadarAt(x, y) => radar_verdict(miner, x, y, fresh),
                _ => carry_on(miner, Request::Wait),
            }
        } else {
            match miner.order {
                Order::GoTo(x, y) => travel_verdict(
                    miner,
                    x,
                    y,
                    self.cell_at(x as int, y as int),
                    fresh,
                ),
                Order::DigAt(x, y) => travel_verdict(
                    miner,
                    x,
                    y,
                    self.cell_at(x as int, y as int),
                    fresh,
                ),
                Order::Deliver(x, y) => deliver_verdict(miner, x, y, fresh),
                Order::DeployRadarAt(_, _) => carry_on(miner, Request::Wait),
            }
        }
    }

    /// The model after owned robot `i` took its turn.
    pub open spec fn after_turn(self, i: int, fallback: (i32, i32)) -> World {
        let decision = self.verdict(i, fallback);
        World {
            miners: self.miners.update(i, Miner { order: decision.order, ..self.miners[i] }),
            miner_with_radar: if decision.releases_radar {
                None
            } else {
                self.miner_with_radar
            },
            ..self
        }
    }

    /// The model after the first `n` owned robots took their turns, one
    /// after the other, robot `k` with `fallbacks[k]`.
    pub open spec fn after_turns(self, n: nat, fallbacks: Seq<(i32, i32)>) -> World
        decreases n,
    {
        if n == 0 {
            self
        } else {
            self.after_turns((n - 1) as nat, fallbacks).after_turn(n - 1, fallbacks[n - 1])
        }
    }

    /// The actions of the first `n` owned robots, in the order of the robots.
    pub open spec fn remarks(self, n: nat, fallbacks: Seq<(i32, i32)>) -> Seq<Remark>
        decreases n,
    {
        if n == 0 {
            Seq::empty()
        } else {
            self.remarks((n - 1) as nat, fallbacks).push(
                self.after_turns((n - 1) as nat, fallbacks).verdict(
                    n - 1,
                    fallbacks[n - 1],
                ).remark(),
            )
        }
    }
}

/// The contents of a list of actions.
pub open spec fn remarks_of(actions: Seq<RequestComment>) -> Seq<Remark> {
    Seq::new(actions.len(), |k: int| actions[k]@)
}

/// A robot's turn keeps the model well-formed: in particular a robot that
/// was not on the radar mission is not on it afterwards, and the holder that
/// buries the radar leaves the mission to nobody.
pub proof fn lemma_after_turn_wf(w: World, i: int, fallback: (i32, i32))
    requires
        w.wf(),
        0 <= i < w.miners.len(),
    ensures
        w.after_turn(i, fallback).wf(),
        w.after_turn(i, fallback).miners.len() == w.miners.len(),
{
    let after = w.after_turn(i, fallback);
    let miner = w.miners[i];
    let decision = w.verdict(i, fallback);
    let fresh = w.fresh_order(miner.x as int, miner.y as int, fallback);
    assert(!(fresh is DeployRadarAt));
    assert(w.on_radar_mission(i) ==> w.miner_with_radar == Some(i as usize));
    assert(w.miner_with_radar == Some(i as usize) ==> w.on_radar_mission(i));
    assert(after.on_radar_mission(i) <==> !decision.releases_radar && w.on_radar_mission(i));
    assert forall|j: int| #![trigger after.on_radar_mission(j)] after.on_radar_mission(j) implies after.miner_with_radar == Some(j as usize) by {
        if j != i {
            assert(w.on_radar_mission(j));
        }
    }
    if let Some(h) = after.miner_with_radar {
        assert(w.on_radar_mission(h as int));
        assert(after.on_radar_mission(h as int));
    }
    assert forall|uid: u32| #![trigger after.entities.contains_key(uid)] after.entities.contains_key(uid) implies match after.entities[uid] {
        Entity::Miner(k) => k < after.miners.len() && after.miners[k as int].uid == uid,
        Entity::OpponentMiner(k) => k < after.opponent_miners.len()
            && after.opponent_miners[k as int].uid == uid,
        Entity::BurriedRadar => true,
        Entity::BurriedTrap => true,
    } by {
        assert(w.entities.contains_key(uid));
    }
}

/// The turns of the first `n` robots keep the model well-formed and the
/// number of robots unchanged, and yield one action per robot.
pub proof fn lemma_after_turns_wf(w: World, n: nat, fallbacks: Seq<(i32, i32)>)
    requires
        w.wf(),
        n <= w.miners.len(),
    ensures
        w.after_turns(n, fallbacks).wf(),
        w.after_turns(n, fallbacks).miners.len() == w.miners.len(),
        w.remarks(n, fallbacks).len() == n,
    decreases n,
{
    if n > 0 {
        lemma_after_turns_wf(w, (n - 1) as nat, fallbacks);
        lemma_after_turn_wf(w.after_turns((n - 1) as nat, fallbacks), n - 1, fallbacks[n - 1]);
    }
}

impl GameState {
    /// Let owned robot `miner_index` take its turn: update its order and
    /// return its action. `fallback` is the cell to explore if the robot
    /// needs a new order while no ore is known.
    pub fn miner_turn_with(&mut self, miner_index: usize, fallback: (i32, i32)) -> (action:
        RequestComment)
        requires
            old(self).wf(),
            miner_index < old(self).miners.len(),
        ensures
            final(self)@ == old(self)@.after_turn(miner_index as int, fallback),
            action@ == old(self)@.verdict(miner_index as int, fallback).remark(),
            final(self).wf(),
    {
        proof {
            lemma_after_turn_wf(self@, miner_index as int, fallback);
        }
        let miner = self.miners[miner_index];
        let ghost before = self@;
        if !miner.alive {
            assert(self@ =~= before.after_turn(miner_index as int, fallback));
            return RequestComment::from(Request::Wait);
        }
        let holds_radar: bool = match self.miner_with_radar {
            Some(holder) => holder == miner_index,
            None => false,
        };
        let action = if holds_radar {
            assert(before.on_radar_mission(miner_index as int));
            match miner.order {
                Order::DeployRadarAt(x, y) => {
                    if miner.item == Some(Item::Radar) {
                        // if that unit has already the radar
                        if manh_dist([x, y], [miner.x, miner.y]) == 0 {
                            // if we arrived at destination, just burry the radar
                            let order = self.choose_order_or(miner_index, fallback);
                            self.miner_with_radar = None;
                            self.set_order(miner_index, order);
                            RequestComment::from(Request::Dig(x, y))
                        } else {
                            // otherwise, go there
                            RequestComment::from(Request::Move(x, y))
                        }
                    } else if miner.x != 0 {
                        // go home to ask for a radar
                        RequestComment::from(Request::back_to_hq([miner.x, miner.y]))
                    } else {
                        // ask a radar
                        RequestComment::from(Request::Item(RequestItem::Radar))
                    }
                },
                _ => vstd::pervasive::unreached(),
            }
        } else {
            assert(!before.on_radar_mission(miner_index as int));
            match miner.order {
                Order::GoTo(x, y) => self.travel_turn(miner_index, x, y, fallback),
                Order::DigAt(x, y) => self.travel_turn(miner_index, x, y, fallback),
                Order::Deliver(x, y) => {
                    if miner.x != 0 {
                        Request::back_to_hq([x, y]).comment("going back to HQ!".to_owned())
                    } else {
                        let order = self.choose_order_or(miner_index, fallback);
                        let d = order.destination();
                        self.set_order(miner_index, order);
                        Request::Move(d[0], d[1]).comment("changing order!".to_owned())
                    }
                },
                Order::DeployRadarAt(_, _) => vstd::pervasive::unreached(),
            }
        };
        assert(self@ =~= before.after_turn(miner_index as int, fallback));
        action
    }

    /// The turn of a robot that travels to `(x, y)` to explore or dig.
    fn travel_turn(&mut self, miner_index: usize, x: i32, y: i32, fallback: (i32, i32)) -> (action:
        RequestComment)
        requires
            old(self)@.grid_wf(),
            miner_index < old(self).miners.len(),
        ensures
            ({
                let miner = old(self).miners[miner_index as int];
                let decision = travel_verdict(
                    miner,
                    x,
                    y,
                    old(self)@.cell_at(x as int, y as int),
                    old(self)@.fresh_order(miner.x as int, miner.y as int, fallback),
                );
                &&& action@ == decision.remark()
                &&& final(self)@ == old(self)@.with_miner(
                    miner_index as int,
                    Miner { order: decision.order, ..miner },
                )
            }),
    {
        let miner = self.miners[miner_index];
        let ghost before = self@;
        let request = if manh_dist([x, y], [miner.x, miner.y]) == 0 {
            // we arrived at our destination, so let's inspect the cell
            let known: Option<Cell> = match self.cell(x, y) {
                Some(cell) => Some(*cell),
                None => None,
            };
            match known {
                None => Request::Wait,
                Some(cell) => {
                    if miner.item == Some(Item::Ore) {
                        // we just digged some ore; get back to the HQ
                        self.set_order(miner_index, Order::Deliver(x, y));
                        Request::back_to_hq([x, y])
                    } else if cell.ore_amount.is_none() && !cell.has_hole {
                        // an unknown cell with no hole; we are there so we just dig to check
                        Request::Dig(x, y)
                    } else if cell.ore_amount.unwrap_or(0) > 0 {
                        // the current cell has some ore so we dig it
                        self.set_order(miner_index, Order::Deliver(x, y));
                        Request::Dig(x, y)
                    } else {
                        // the current cell has no ore and is already digged; get another order
                        let order = self.choose_order_or(miner_index, fallback);
                        let d = order.destination();
                        self.set_order(miner_index, order);
                        Request::Move(d[0], d[1])
                    }
                },
            }
        } else {
            // we still have to travel to our cell, but we still look for a better solution:
            // maybe a radar has been burried since and some ore is now in sight
            let other_order = self.choose_order_or(miner_index, fallback);
            if other_order.is_digging_order() {
                let d = other_order.destination();
                self.set_order(miner_index, other_order);
                Request::Move(d[0], d[1])
            } else {
                // we haven't found a better solution so let's keep going
                Request::Move(x, y)
            }
        };
        assert(self@ =~= before.with_miner(
            miner_index as int,
            Miner { order: self.miners[miner_index as int].order, ..miner },
        ));
        RequestComment::from(request)
    }

    /// Give owned robot `miner_index` the order `order`.
    fn set_order(&mut self, miner_index: usize, order: Order)
        requires
            miner_index < old(self).miners.len(),
        ensures
            final(self)@ == old(self)@.with_miner(
                miner_index as int,
                Miner { order, ..old(self).miners[miner_index as int] },
            ),
    {
        let mut miner = self.miners[miner_index];
        miner.order = order;
        self.miners.set(miner_index, miner);
    }

    /// Let owned robot `miner_index` take its turn: update its order and
    /// return its action. Where the robot needs a new order while no ore is
    /// known, it explores a random cell off the home column.
    pub fn miner_turn(&mut self, miner_index: usize) -> (action: RequestComment)
        requires
            old(self)@.has_field(),
            old(self).wf(),
            miner_index < old(self).miners.len(),
        ensures
            exists|fallback: (i32, i32)|
                in_field(
                    fallback.0 as int,
                    fallback.1 as int,
                    old(self)@.width as int,
                    old(self)@.height as int,
                ) && final(self)@ == #[trigger] old(self)@.after_turn(miner_index as int, fallback)
                    && action@ == old(self)@.verdict(miner_index as int, fallback).remark(),
            final(self).wf(),
    {
        let fallback = random_target(self.width as i32, self.height as i32);
        self.miner_turn_with(miner_index, fallback)
    }
}

} // verus!
