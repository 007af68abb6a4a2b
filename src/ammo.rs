use vstd::prelude::*;

use crate::fixed::lemma_div_at_most;

verus! {

/// The value `v` brought into `[lo, hi]`.
pub open spec fn clamp_int(v: int, lo: int, hi: int) -> int {
    if v < lo {
        lo
    } else if v > hi {
        hi
    } else {
        v
    }
}

/// Rounds held by the paddle's gun, always within `[0, capacity]`.
pub struct PaddleAmmo {
    ammo: usize,
    capacity: usize,
}

impl PaddleAmmo {
    /// Rounds currently held.
    pub closed spec fn amount(&self) -> int {
        self.ammo as int
    }

    /// Largest number of rounds the paddle can hold.
    pub closed spec fn max_amount(&self) -> int {
        self.capacity as int
    }

    pub open spec fn wf(&self) -> bool {
        0 <= self.amount() <= self.max_amount()
    }

    /// An empty magazine of the given capacity.
    pub fn new(capacity: usize) -> (r: PaddleAmmo)
        ensures
            r.wf(),
            r.amount() == 0,
            r.max_amount() == capacity,
    {
        PaddleAmmo { ammo: 0, capacity }
    }

    /// A magazine holding `ammo` rounds, or `capacity` where `ammo` exceeds it.
    pub fn with_ammo(ammo: usize, capacity: usize) -> (r: PaddleAmmo)
        ensures
            r.wf(),
            r.amount() == clamp_int(ammo as int, 0, capacity as int),
            r.max_amount() == capacity,
    {
        let a = if ammo > capacity { capacity } else { ammo };
        PaddleAmmo { ammo: a, capacity }
    }

    pub fn ammo(&self) -> (r: usize)
        ensures
            r == self.amount(),
    {
        self.ammo
    }

    pub fn capacity(&self) -> (r: usize)
        ensures
            r == self.max_amount(),
    {
        self.capacity
    }

    /// Adds `delta` rounds (removes them where it is negative), clamped to `[0, capacity]`.
    pub fn offset(&mut self, delta: isize)
        requires
            old(self).wf(),
        ensures
            final(self).wf(),
            final(self).max_amount() == old(self).max_amount(),
            final(self).amount() == clamp_int(
                old(self).amount() + delta,
                0,
                old(self).max_amount(),
            ),
    {
        if delta < 0 {
            let take: usize = if delta == isize::MIN {
                (isize::MAX as usize) + 1
            } else {
                (-delta) as usize
            };
            if take >= self.ammo {
                self.ammo = 0;
            } else {
                self.ammo = self.ammo - take;
            }
        } else {
            let add = delta as usize;
            if add >= self.capacity - self.ammo {
                self.ammo = self.capacity;
            } else {
                self.ammo = self.ammo + add;
            }
        }
    }

    /// Fill level in thousandths: `1000 * ammo / capacity`, rounded down; 0 for no capacity.
    pub fn factor(&self) -> (r: u64)
        requires
            self.wf(),
        ensures
            self.max_amount() == 0 ==> r == 0,
            self.max_amount() > 0 ==> r == (1000 * self.amount()) / self.max_amount(),
            r <= 1000,
    {
        if self.capacity == 0 {
            0
        } else {
            let a = self.ammo as u128;
            let c = self.capacity as u128;
            proof {
                lemma_div_at_most(a * 1000, 1000, c as int);
            }
            ((a * 1000) / c) as u64
        }
    }
}

} // verus!
