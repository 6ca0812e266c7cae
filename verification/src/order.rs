//! Orders: the multi-turn intention of an owned robot.

use crate::rng::{in_field, random_target};
use vstd::prelude::*;

verus! {

/// What an owned robot is currently trying to do.
#[derive(Clone, Copy, Debug, PartialEq, Eq, Hash, Structural)]
pub enum Order {
    /// Move to a given cell.
    ///
    /// This is an exploration mode. If a better alternative is found, the
    /// robot aborts this order.
    GoTo(i32, i32),
    /// Move to a cell to dig from.
    DigAt(i32, i32),
    /// Carry the radar to a cell and bury it there.
    DeployRadarAt(i32, i32),
    /// Bring ore back to the home column; the coordinates are the dig site.
    Deliver(i32, i32),
}

impl Order {
    /// The cell this order points at.
    pub open spec fn cell(self) -> (i32, i32) {
        match self {
            Order::GoTo(x, y) => (x, y),
            Order::DigAt(x, y) => (x, y),
            Order::DeployRadarAt(x, y) => (x, y),
            Order::Deliver(x, y) => (x, y),
        }
    }

    /// The cell this order points at, as mathematical integers.
    pub open spec fn target(self) -> (int, int) {
        (self.cell().0 as int, self.cell().1 as int)
    }

    /// An exploration order to a random cell off the home column.
    pub fn go_to_random(width: i32, height: i32) -> (order: Order)
        requires
            1 < width,
            0 < height,
        ensures
            order is GoTo,
            in_field(order.target().0, order.target().1, width as int, height as int),
    {
        let t = random_target(width, height);
        Order::GoTo(t.0, t.1)
    }

    /// A radar mission to a random cell off the home column.
    pub fn deploy_radar_to_random(width: i32, height: i32) -> (order: Order)
        requires
            1 < width,
            0 < height,
        ensures
            order is DeployRadarAt,
            in_field(order.target().0, order.target().1, width as int, height as int),
    {
        let t = random_target(width, height);
        Order::DeployRadarAt(t.0, t.1)
    }

    /// The cell this order points at.
    pub fn destination(&self) -> (d: [i32; 2])
        ensures
            (d[0], d[1]) == self.cell(),
    {
        match *self {
            Order::GoTo(x, y) => [x, y],
            Order::DigAt(x, y) => [x, y],
            Order::DeployRadarAt(x, y) => [x, y],
            Order::Deliver(x, y) => [x, y],
        }
    }

    /// Whether the robot is committed to digging a specific cell.
    pub fn is_digging_order(&self) -> (b: bool)
        ensures
            b == (*self is DigAt),
    {
        if let Order::DigAt(..) = *self {
            true
        } else {
            false
        }
    }
}

} // verus!
