use vstd::prelude::*;

use rand::Rng;

use crate::timer::{tick_view, RepeatingTimer};

verus! {

/// Draws an index below `len` uniformly at random with `rand`'s
/// `Rng::random_range(0..len)` on the thread-local generator. The contract
/// claims only what holds of every outcome: the index is in range.
/// `random_range` panics on an empty range, hence the `requires`.
#[verifier::external_body]
fn random_below(len: usize) -> (i: usize)
    requires
        len > 0,
    ensures
        i < len,
{
    rand::rng().random_range(0..len)
}

/// Picks a colour out of a palette of `palette_len` colours at random, as a
/// new fire or water bubble does.
pub fn pick_palette_index(palette_len: usize) -> (i: usize)
    requires
        palette_len > 0,
    ensures
        i < palette_len,
{
    random_below(palette_len)
}

/// The three vertex indices of triangle `k` in a flat index list.
pub open spec fn triangle_at(indices: Seq<u32>, k: int) -> (u32, u32, u32) {
    (indices[3 * k], indices[3 * k + 1], indices[3 * k + 2])
}

/// Triangle `k` of a fan over a centre vertex 0 and outline vertices
/// `1..=n`: the centre, outline vertex `k + 1` and the next outline vertex,
/// wrapping around to vertex 1.
pub open spec fn fan_triangle(n: nat, k: nat) -> (u32, u32, u32) {
    (0u32, (k + 1) as u32, if k + 1 == n { 1u32 } else { (k + 2) as u32 })
}

/// Index list of the triangle fan that fills a flame outline of `n`
/// vertices around its centre.
pub fn flame_fan_indices(n: u32) -> (indices: Vec<u32>)
    ensures
        indices@.len() == 3 * n,
        forall|k: int| 0 <= k < n ==> #[trigger] triangle_at(indices@, k) == fan_triangle(n as nat, k as nat),
{
    let mut indices: Vec<u32> = Vec::new();
    let mut k: u32 = 0;
    while k < n
        invariant
            k <= n,
            indices@.len() == 3 * k,
            forall|j: int| 0 <= j < k ==> #[trigger] triangle_at(indices@, j) == fan_triangle(n as nat, j as nat),
        decreases n - k,
    {
        let ghost before = indices@;
        indices.push(0);
        indices.push(k + 1);
        indices.push(if k + 1 == n { 1 } else { k + 2 });
        proof {
            assert forall|j: int| 0 <= j < k + 1 implies #[trigger] triangle_at(indices@, j) == fan_triangle(
                n as nat,
                j as nat,
            ) by {
                if j < k {
                    assert(triangle_at(before, j) == fan_triangle(n as nat, j as nat));
                    assert(indices@[3 * j] == before[3 * j]);
                    assert(indices@[3 * j + 1] == before[3 * j + 1]);
                    assert(indices@[3 * j + 2] == before[3 * j + 2]);
                }
            }
        }
        k = k + 1;
    }
    indices
}

/// Every vertex a flame triangle uses exists: indices stay within `0..=n`.
pub proof fn law_fan_indices_in_range(n: nat, k: nat)
    requires
        k < n,
        n <= u32::MAX,
    ensures
        fan_triangle(n, k).0 <= n,
        1 <= fan_triangle(n, k).1 <= n,
        1 <= fan_triangle(n, k).2 <= n,
{
}

/// The flicker of a fire: a repeating timer, and a fresh random colour each
/// time it completes a period.
pub struct FireFlicker {
    pub timer: RepeatingTimer,
}

impl FireFlicker {
    /// A flicker that changes colour every `interval_ns` nanoseconds.
    pub fn new(interval_ns: u64) -> (f: FireFlicker)
        ensures
            f.timer@.duration == interval_ns,
            f.timer@.elapsed == 0,
            f.timer@.times_finished == 0,
    {
        FireFlicker { timer: RepeatingTimer::new(interval_ns) }
    }

    /// Advances the flicker by `delta_ns` nanoseconds; when the timer
    /// completes a period, picks a new colour out of `palette_len`.
    pub fn flicker(&mut self, delta_ns: u64, palette_len: usize) -> (pick: Option<usize>)
        requires
            old(self).timer@.elapsed + delta_ns <= u64::MAX,
            tick_view(old(self).timer@, delta_ns as nat).times_finished > 0 ==> palette_len > 0,
        ensures
            final(self).timer@ == tick_view(old(self).timer@, delta_ns as nat),
            pick is Some <==> final(self).timer@.times_finished > 0,
            pick matches Some(i) ==> i < palette_len,
    {
        self.timer.tick(delta_ns);
        if self.timer.just_finished() {
            Some(pick_palette_index(palette_len))
        } else {
            None
        }
    }
}

} // verus!
