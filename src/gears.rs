use vstd::prelude::*;

use crate::enemy::{Enemy, DEBRIS_DAMPING};

verus! {

/// Number of gears still active.
pub open spec fn count_active(s: Seq<(u64, bool)>) -> int
    decreases s.len(),
{
    if s.len() == 0 {
        0
    } else {
        count_active(s.drop_last()) + if s.last().1 {
            1int
        } else {
            0
        }
    }
}

/// Index of the first gear still active, if any.
pub open spec fn first_active(s: Seq<(u64, bool)>) -> Option<int> {
    if exists|i: int| 0 <= i < s.len() && (#[trigger] s[i]).1 {
        Some(choose|i: int| 0 <= i < s.len() && (#[trigger] s[i]).1 && forall|j: int| 0 <= j < i ==> !s[j].1)
    } else {
        None
    }
}

/// The gears after a hit: the first active one is deactivated.
pub open spec fn damaged(s: Seq<(u64, bool)>) -> Seq<(u64, bool)> {
    match first_active(s) {
        Some(i) => s.update(i, (s[i].0, false)),
        None => s,
    }
}

/// The result of a hit on the core.
#[derive(Clone, Copy, Debug, PartialEq, Eq, Structural)]
pub struct CoreDamage {
    /// The gear that was deactivated.
    pub gear: u64,
    /// The last gear went: the game is over.
    pub game_over: bool,
}

/// The core: gears whose number still active is its health.
pub struct CoreGears {
    gears: Vec<(u64, bool)>,
    health: u8,
}

proof fn lemma_count_bounds(s: Seq<(u64, bool)>)
    ensures
        0 <= count_active(s) <= s.len(),
    decreases s.len(),
{
    if s.len() > 0 {
        lemma_count_bounds(s.drop_last());
    }
}

proof fn lemma_count_update_off(s: Seq<(u64, bool)>, i: int, id: u64)
    requires
        0 <= i < s.len(),
        s[i].1,
    ensures
        count_active(s.update(i, (id, false))) == count_active(s) - 1,
    decreases s.len(),
{
    let t = s.update(i, (id, false));
    if i == s.len() - 1 {
        assert(t.drop_last() =~= s.drop_last());
    } else {
        assert(t.drop_last() =~= s.drop_last().update(i, (id, false)));
        lemma_count_update_off(s.drop_last(), i, id);
    }
}

proof fn lemma_first_active_exists(s: Seq<(u64, bool)>, k: int)
    requires
        0 <= k < s.len(),
        s[k].1,
    ensures
        first_active(s) is Some,
{
    assert(exists|i: int| 0 <= i < s.len() && (#[trigger] s[i]).1);
    lemma_least_active(s, k);
}

proof fn lemma_least_active(s: Seq<(u64, bool)>, k: int)
    requires
        0 <= k < s.len(),
        s[k].1,
    ensures
        exists|i: int| 0 <= i < s.len() && (#[trigger] s[i]).1 && forall|j: int| 0 <= j < i ==> !s[j].1,
    decreases k,
{
    if exists|j: int| 0 <= j < k && s[j].1 {
        let j = choose|j: int| 0 <= j < k && s[j].1;
        lemma_least_active(s, j);
    } else {
        assert(s[k].1 && forall|j: int| 0 <= j < k ==> !s[j].1);
    }
}

proof fn lemma_first_active_is_least(s: Seq<(u64, bool)>)
    ensures
        first_active(s) matches Some(i) ==> 0 <= i < s.len() && s[i].1 && forall|j: int|
            0 <= j < i ==> !s[j].1,
        first_active(s) is None ==> forall|i: int| 0 <= i < s.len() ==> !(#[trigger] s[i]).1,
{
    if exists|i: int| 0 <= i < s.len() && (#[trigger] s[i]).1 {
        let k = choose|i: int| 0 <= i < s.len() && (#[trigger] s[i]).1;
        lemma_least_active(s, k);
    }
}

proof fn lemma_all_inactive(s: Seq<(u64, bool)>)
    requires
        forall|i: int| 0 <= i < s.len() ==> !(#[trigger] s[i]).1,
    ensures
        count_active(s) == 0,
    decreases s.len(),
{
    if s.len() > 0 {
        lemma_all_inactive(s.drop_last());
    }
}

proof fn lemma_some_active(s: Seq<(u64, bool)>)
    requires
        count_active(s) > 0,
    ensures
        first_active(s) is Some,
{
    if forall|i: int| 0 <= i < s.len() ==> !(#[trigger] s[i]).1 {
        lemma_all_inactive(s);
    } else {
        let k = choose|i: int| 0 <= i < s.len() && (#[trigger] s[i]).1;
        lemma_first_active_exists(s, k);
    }
}

impl CoreGears {
    pub closed spec fn gears_view(&self) -> Seq<(u64, bool)> {
        self.gears@
    }

    pub closed spec fn health_view(&self) -> int {
        self.health as int
    }

    pub open spec fn wf(&self) -> bool {
        self.health_view() == count_active(self.gears_view())
    }

    /// A core whose gears are `gear_ids` in reverse order, all active.
    pub fn new(gear_ids: Vec<u64>) -> (r: CoreGears)
        requires
            gear_ids@.len() <= 255,
        ensures
            r.wf(),
            r.health_view() == gear_ids@.len(),
            r.gears_view().len() == gear_ids@.len(),
            forall|i: int|
                0 <= i < gear_ids@.len() ==> #[trigger] r.gears_view()[i] == (
                    gear_ids@[gear_ids@.len() - 1 - i],
                    true,
                ),
    {
        let mut gears: Vec<(u64, bool)> = Vec::new();
        let n = gear_ids.len();
        let mut k: usize = n;
        while k > 0
            invariant
                k <= n,
                n == gear_ids@.len(),
                n <= 255,
                gears@.len() == n - k,
                count_active(gears@) == n - k,
                forall|i: int| 0 <= i < n - k ==> #[trigger] gears@[i] == (gear_ids@[n - 1 - i], true),
            decreases k,
        {
            k = k - 1;
            let ghost before = gears@;
            gears.push((gear_ids[k], true));
            assert(gears@.drop_last() =~= before);
        }
        CoreGears { gears, health: n as u8 }
    }

    pub fn health(&self) -> (r: u8)
        ensures
            r == self.health_view(),
    {
        self.health
    }

    /// Whether the gear at `i` is still active.
    pub fn is_active(&self, i: usize) -> (r: bool)
        requires
            i < self.gears_view().len(),
        ensures
            r == self.gears_view()[i as int].1,
    {
        self.gears[i].1
    }

    /// A hit on the core deactivates the first gear still active and takes one hit point;
    /// taking the last one ends the game. With no gear active the hit is ignored.
    pub fn take_damage(&mut self) -> (r: Option<CoreDamage>)
        requires
            old(self).wf(),
        ensures
            final(self).wf(),
            final(self).gears_view() == damaged(old(self).gears_view()),
            (old(self).health_view() == 0) <==> r.is_none(),
            r.is_none() ==> final(self).health_view() == 0,
            r matches Some(d) ==> {
                &&& final(self).health_view() == old(self).health_view() - 1
                &&& d.game_over == (final(self).health_view() == 0)
                &&& first_active(old(self).gears_view()) matches Some(i) && d.gear == old(
                    self,
                ).gears_view()[i].0
            },
    {
        let ghost s = self.gears@;
        let mut i: usize = 0;
        while i < self.gears.len()
            invariant
                self.gears@ == s,
                self.health as int == count_active(s),
                s == old(self).gears@,
                old(self).health as int == count_active(s),
                i <= s.len(),
                forall|j: int| 0 <= j < i ==> !s[j].1,
            decreases s.len() - i,
        {
            if self.gears[i].1 {
                let id = self.gears[i].0;
                proof {
                    lemma_first_active_exists(s, i as int);
                    let c = choose|c: int|
                        0 <= c < s.len() && (#[trigger] s[c]).1 && forall|j: int| 0 <= j < c ==> !s[j].1;
                    assert(c == i) by {
                        if c < i {
                            assert(!s[c].1);
                        }
                        if c > i {
                            assert(!s[i as int].1);
                        }
                    }
                    lemma_count_update_off(s, i as int, id);
                    lemma_count_positive(s, i as int);
                }
                self.gears.set(i, (id, false));
                self.health = self.health - 1;
                return Some(CoreDamage { gear: id, game_over: self.health == 0 });
            }
            i = i + 1;
        }
        proof {
            lemma_all_inactive(s);
        }
        None
    }
}

impl CoreGears {
    /// An enemy touches the core: the enemy turns to debris and the core takes a hit.
    pub fn on_enemy_contact(&mut self, enemy: &mut Enemy) -> (r: Option<CoreDamage>)
        requires
            old(self).wf(),
            old(enemy).wf(),
        ensures
            final(self).wf(),
            final(enemy).wf(),
            !final(enemy).active,
            final(enemy).damping == Some(DEBRIS_DAMPING),
            final(self).gears_view() == damaged(old(self).gears_view()),
            (old(self).health_view() == 0) <==> r.is_none(),
            r matches Some(d) ==> final(self).health_view() == old(self).health_view() - 1
                && d.game_over == (final(self).health_view() == 0),
    {
        enemy.despawn();
        self.take_damage()
    }
}

/// A hit on a core with `k >= 1` active gears deactivates exactly one of them (the first
/// active one) and leaves `k - 1`; when `k == 1` it ends the game, and a further hit
/// changes nothing, so the game ends only once.
pub proof fn lemma_damage_takes_one_gear(s: Seq<(u64, bool)>)
    requires
        count_active(s) >= 1,
    ensures
        count_active(damaged(s)) == count_active(s) - 1,
        first_active(s) matches Some(i) && s[i].1 && !damaged(s)[i].1 && forall|j: int|
            0 <= j < s.len() && j != i ==> #[trigger] damaged(s)[j] == s[j],
        damaged(s).len() == s.len(),
        count_active(s) == 1 ==> count_active(damaged(s)) == 0 && first_active(damaged(s))
            is None && damaged(damaged(s)) == damaged(s),
{
    lemma_some_active(s);
    lemma_first_active_is_least(s);
    let i = first_active(s)->Some_0;
    lemma_count_update_off(s, i, s[i].0);
    let d = damaged(s);
    if count_active(s) == 1 {
        lemma_first_active_is_least(d);
        if first_active(d) is Some {
            let c = first_active(d)->Some_0;
            lemma_count_positive(d, c);
        }
    }
}

proof fn lemma_count_positive(s: Seq<(u64, bool)>, k: int)
    requires
        0 <= k < s.len(),
        s[k].1,
    ensures
        count_active(s) >= 1,
    decreases s.len(),
{
    if k == s.len() - 1 {
        lemma_count_bounds(s.drop_last());
    } else {
        lemma_count_positive(s.drop_last(), k);
    }
}

} // verus!
