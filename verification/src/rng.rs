//! The random source behind exploration targets.

use rand::rngs::ThreadRng;
use rand::Rng;
use vstd::prelude::*;

verus! {

/// `rand::rngs::ThreadRng`, the handle to the thread-local generator. Its
/// contents are opaque to the verifier.
#[verifier::external_type_specification]
#[verifier::external_body]
pub struct ExThreadRng(ThreadRng);

/// `rand::thread_rng` hands out the calling thread's generator, seeding it
/// from the operating system on first use. Nothing is claimed about the
/// handle it returns. The call takes no argument; it panics only where the
/// operating system cannot provide a seed.
pub assume_specification[ rand::thread_rng ]() -> (rng: ThreadRng)
;

/// `rand::Rng::gen_range` on a `ThreadRng`, at type `i32`: a draw from the
/// half-open range `low..high`. The call panics unless `low < high`, which
/// the precondition rules out. Only the range of the draw is claimed, since
/// the value itself is a matter of chance.
#[verifier::external_body]
fn gen_range(rng: &mut ThreadRng, low: i32, high: i32) -> (value: i32)
    requires
        low < high,
    ensures
        low <= value < high,
{
    rng.gen_range(low, high)
}

/// Whether `(x, y)` is a cell of a `width` by `height` grid that lies off the
/// home column `x = 0`.
pub open spec fn in_field(x: int, y: int, width: int, height: int) -> bool {
    1 <= x < width && 0 <= y < height
}

/// Whether every cell of `targets` lies on a `width` by `height` grid, off
/// the home column.
pub open spec fn all_in_field(targets: Seq<(i32, i32)>, width: int, height: int) -> bool {
    forall|k: int|
        0 <= k < targets.len() ==> in_field(
            (#[trigger] targets[k]).0 as int,
            targets[k].1 as int,
            width,
            height,
        )
}

/// Draw a cell of the grid, off the home column, uniformly at random.
pub fn random_target(width: i32, height: i32) -> (t: (i32, i32))
    requires
        1 < width,
        0 < height,
    ensures
        in_field(t.0 as int, t.1 as int, width as int, height as int),
{
    let mut rng = rand::thread_rng();
    let x: i32 = gen_range(&mut rng, 1, width);
    let y: i32 = gen_range(&mut rng, 0, height);
    (x, y)
}

/// Draw `count` cells of the grid, off the home column, each uniformly at
/// random.
pub fn random_targets(count: usize, width: i32, height: i32) -> (targets: Vec<(i32, i32)>)
    requires
        1 < width,
        0 < height,
    ensures
        targets.len() == count,
        all_in_field(targets@, width as int, height as int),
{
    let mut targets: Vec<(i32, i32)> = Vec::new();
    let mut k: usize = 0;
    while k < count
        invariant
            1 < width,
            0 < height,
            k <= count,
            targets.len() == k,
            all_in_field(targets@, width as int, height as int),
        decreases count - k,
    {
        let t = random_target(width, height);
        targets.push(t);
        k = k + 1;
    }
    targets
}

} // verus!
