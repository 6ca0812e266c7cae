//! Target selection: the nearest cell known to hold ore, with exploration as
//! the fallback.

use crate::geometry::{manh_dist, manhattan};
use crate::order::Order;
use crate::rng::{in_field, random_target};
use crate::world::{GameState, World};
use vstd::prelude::*;

verus! {

/// Whether `(x1, y1)` comes strictly before `(x2, y2)` when the grid is
/// scanned row by row, each row from the home column outwards.
pub open spec fn scanned_before(x1: int, y1: int, x2: int, y2: int) -> bool {
    y1 < y2 || (y1 == y2 && x1 < x2)
}

/// Whether, seen from `(px, py)`, the cell `(x1, y1)` is at least as good a
/// target as `(x2, y2)`: it is nearer, or as near and not scanned later.
pub open spec fn preferred(px: int, py: int, x1: int, y1: int, x2: int, y2: int) -> bool {
    let d1 = manhattan(x1, y1, px, py);
    let d2 = manhattan(x2, y2, px, py);
    d1 < d2 || (d1 == d2 && !scanned_before(x2, y2, x1, y1))
}

impl World {
    /// Whether `(x, y)` is a cell whose ore estimate is known and positive.
    pub open spec fn has_ore(self, x: int, y: int) -> bool {
        match self.cell_at(x, y) {
            Some(cell) => cell.ore_amount matches Some(n) && n > 0,
            None => false,
        }
    }

    /// Whether some cell is known to hold ore.
    pub open spec fn ore_known(self) -> bool {
        exists|x: int, y: int| self.has_ore(x, y)
    }

    /// Whether `(x, y)` is the target for a robot at `(px, py)`: a cell with
    /// ore that is preferred to every cell with ore.
    pub open spec fn is_nearest_ore(self, px: int, py: int, x: int, y: int) -> bool {
        &&& self.has_ore(x, y)
        &&& forall|x2: int, y2: int|
            #![trigger self.has_ore(x2, y2)]
            self.has_ore(x2, y2) ==> preferred(px, py, x, y, x2, y2)
    }

    /// The target for a robot at `(px, py)`: the nearest cell with ore, the
    /// first in scan order among the nearest; `None` where no cell is known
    /// to hold ore.
    pub open spec fn nearest_ore(self, px: int, py: int) -> Option<(i32, i32)> {
        if exists|c: (i32, i32)| self.is_nearest_ore(px, py, c.0 as int, c.1 as int) {
            Some(choose|c: (i32, i32)| self.is_nearest_ore(px, py, c.0 as int, c.1 as int))
        } else {
            None
        }
    }

    /// The order a robot at `(px, py)` takes up when it needs a new one: dig
    /// at the nearest ore, or explore towards `fallback` where no ore is
    /// known.
    pub open spec fn fresh_order(self, px: int, py: int, fallback: (i32, i32)) -> Order {
        match self.nearest_ore(px, py) {
            Some(c) => Order::DigAt(c.0, c.1),
            None => Order::GoTo(fallback.0, fallback.1),
        }
    }

    /// Whether `best` is the target among the cells scanned before `(x, y)`.
    pub open spec fn best_before(
        self,
        px: int,
        py: int,
        best: Option<(i32, i32)>,
        x: int,
        y: int,
    ) -> bool {
        match best {
            Some(b) => {
                &&& self.has_ore(b.0 as int, b.1 as int)
                &&& scanned_before(b.0 as int, b.1 as int, x, y)
                &&& forall|x2: int, y2: int|
                    #![trigger self.has_ore(x2, y2)]
                    self.has_ore(x2, y2) && scanned_before(x2, y2, x, y) ==> preferred(
                        px,
                        py,
                        b.0 as int,
                        b.1 as int,
                        x2,
                        y2,
                    )
            },
            None => forall|x2: int, y2: int|
                #![trigger self.has_ore(x2, y2)]
                self.has_ore(x2, y2) ==> !scanned_before(x2, y2, x, y),
        }
    }
}

/// There is at most one target: two cells that are both preferred to every
/// cell with ore are the same cell.
pub proof fn lemma_nearest_ore_unique(w: World, px: int, py: int, a: (int, int), b: (int, int))
    requires
        w.is_nearest_ore(px, py, a.0, a.1),
        w.is_nearest_ore(px, py, b.0, b.1),
    ensures
        a == b,
{
    assert(preferred(px, py, a.0, a.1, b.0, b.1));
    assert(preferred(px, py, b.0, b.1, a.0, a.1));
}

/// The target is the cell that [`World::is_nearest_ore`] singles out, and
/// there is none exactly where no ore is known.
pub proof fn lemma_nearest_ore_is_target(w: World, px: int, py: int)
    ensures
        match w.nearest_ore(px, py) {
            Some(c) => w.is_nearest_ore(px, py, c.0 as int, c.1 as int),
            None => forall|c: (i32, i32)| !w.is_nearest_ore(px, py, c.0 as int, c.1 as int),
        },
{
}

impl GameState {
    /// Find the nearest cell known to hold ore, seen from `(px, py)`.
    ///
    /// The grid is scanned row by row; among cells at the same distance the
    /// first one scanned wins.
    pub fn nearest_ore(&self, px: i32, py: i32) -> (found: Option<(i32, i32)>)
        requires
            self@.grid_wf(),
        ensures
            found == self@.nearest_ore(px as int, py as int),
            found is None <==> !self@.ore_known(),
    {
        let mut best: Option<(i32, i32)> = None;
        let mut y: usize = 0;
        while y < self.height
            invariant
                self@.grid_wf(),
                y <= self.height,
                self@.best_before(px as int, py as int, best, 0, y as int),
            decreases self.height - y,
        {
            let mut x: usize = 0;
            while x < self.width
                invariant
                    self@.grid_wf(),
                    y < self.height,
                    x <= self.width,
                    self@.best_before(px as int, py as int, best, x as int, y as int),
                decreases self.width - x,
            {
                let cx: i32 = x as i32;
                let cy: i32 = y as i32;
                let rich: bool = match self.cell(cx, cy) {
                    Some(cell) => match cell.ore_amount {
                        Some(ore_amount) => ore_amount > 0,
                        None => false,
                    },
                    None => false,
                };
                assert(rich == self@.has_ore(x as int, y as int));
                if rich {
                    match best {
                        Some(b) => {
                            if manh_dist([cx, cy], [px, py]) < manh_dist([b.0, b.1], [px, py]) {
                                best = Some((cx, cy));
                            }
                        },
                        None => {
                            best = Some((cx, cy));
                        },
                    }
                }
                x = x + 1;
            }
            y = y + 1;
        }
        proof {
            let w = self@;
            match best {
                Some(b) => {
                    assert(w.is_nearest_ore(px as int, py as int, b.0 as int, b.1 as int));
                    let c = choose|c: (i32, i32)|
                        w.is_nearest_ore(px as int, py as int, c.0 as int, c.1 as int);
                    lemma_nearest_ore_unique(
                        w,
                        px as int,
                        py as int,
                        (b.0 as int, b.1 as int),
                        (c.0 as int, c.1 as int),
                    );
                },
                None => {
                    assert forall|x: int, y: int| !w.has_ore(x, y) by {
                        if w.has_ore(x, y) {
                            assert(!scanned_before(x, y, 0, self.height as int));
                        }
                    }
                },
            }
        }
        best
    }

    /// The order robot `miner_index` takes up when it needs a new one, with
    /// `fallback` as the cell to explore where no ore is known.
    pub fn choose_order_or(&self, miner_index: usize, fallback: (i32, i32)) -> (order: Order)
        requires
            self@.grid_wf(),
            miner_index < self.miners.len(),
        ensures
            order == self@.fresh_order(
                self.miners[miner_index as int].x as int,
                self.miners[miner_index as int].y as int,
                fallback,
            ),
    {
        let miner = &self.miners[miner_index];
        match self.nearest_ore(miner.x, miner.y) {
            Some(c) => Order::DigAt(c.0, c.1),
            None => Order::GoTo(fallback.0, fallback.1),
        }
    }

    /// Find the most appealing order to follow.
    ///
    /// If some ore is known, the miner digs at the nearest place that has
    /// some. If no ore is known, the miner explores a random cell off the
    /// home column.
    pub fn choose_order(&self, miner_index: usize) -> (order: Order)
        requires
            self@.has_field(),
            self@.grid_wf(),
            miner_index < self.miners.len(),
        ensures
            exists|fallback: (i32, i32)|
                in_field(
                    fallback.0 as int,
                    fallback.1 as int,
                    self@.width as int,
                    self@.height as int,
                ) && order == #[trigger] self@.fresh_order(
                    self.miners[miner_index as int].x as int,
                    self.miners[miner_index as int].y as int,
                    fallback,
                ),
    {
        let fallback = random_target(self.width as i32, self.height as i32);
        self.choose_order_or(miner_index, fallback)
    }
}

} // verus!
