//! A timing wheel: a ring of buckets that reports the keys nobody has touched
//! for one full turn.

use std::collections::HashSet;
use vstd::prelude::*;

verus! {

broadcast use vstd::std_specs::hash::group_hash_axioms;

/// The mathematical model of a timing wheel.
pub struct WheelModel {
    /// The keys in each bucket.
    pub slots: Seq<Set<usize>>,
    /// The freshest bucket: the one that new keys go to.
    pub current: int,
}

impl WheelModel {
    /// The ring has a bucket and the cursor points at one.
    pub open spec fn wf(self) -> bool {
        0 <= self.current < self.slots.len()
    }

    /// The bucket that the next tick reports.
    pub open spec fn oldest(self) -> int {
        (self.current + 1) % (self.slots.len() as int)
    }

    /// Whether some bucket holds `key`.
    pub open spec fn contains(self, key: usize) -> bool {
        exists|i: int| 0 <= i < self.slots.len() && #[trigger] self.slots[i].contains(key)
    }

    /// Whether the bucket `slot` holds `key` and no other bucket does.
    pub open spec fn holds_only_in(self, key: usize, slot: int) -> bool {
        &&& 0 <= slot < self.slots.len()
        &&& forall|i: int|
            0 <= i < self.slots.len() ==> (#[trigger] self.slots[i].contains(key) <==> i == slot)
    }

    /// The wheel after `key` was put into the freshest bucket.
    pub open spec fn insert(self, key: usize) -> WheelModel {
        WheelModel {
            slots: self.slots.update(self.current, self.slots[self.current].insert(key)),
            current: self.current,
        }
    }

    /// The wheel after `key` was taken out of the bucket `slot`.
    pub open spec fn remove(self, key: usize, slot: int) -> WheelModel {
        WheelModel {
            slots: self.slots.update(slot, self.slots[slot].remove(key)),
            current: self.current,
        }
    }

    /// The keys that the next tick reports.
    pub open spec fn expired(self) -> Set<usize> {
        self.slots[self.oldest()]
    }

    /// The wheel after one tick: the oldest bucket is emptied and becomes the
    /// freshest.
    pub open spec fn expire(self) -> WheelModel {
        WheelModel { slots: self.slots.update(self.oldest(), Set::empty()), current: self.oldest() }
    }

    /// The wheel after `n` ticks.
    pub open spec fn expire_n(self, n: nat) -> WheelModel
        decreases n,
    {
        if n == 0 {
            self
        } else {
            self.expire_n((n - 1) as nat).expire()
        }
    }

    /// The wheel after `key`, held in `slot`, proved alive: it moves to the
    /// freshest bucket.
    pub open spec fn reset(self, key: usize, slot: int) -> WheelModel {
        self.remove(key, slot).insert(key)
    }

    /// The number of ticks after which the bucket `slot` is reported: 1 for
    /// the oldest bucket, the number of buckets for the freshest.
    pub open spec fn ticks_until(self, slot: int) -> int {
        if slot > self.current {
            slot - self.current
        } else {
            slot - self.current + self.slots.len()
        }
    }

    /// The keys that the tick of round `n` reports, where in each round `key`
    /// first proves alive and then a tick passes. `slot` is the bucket that
    /// holds `key` before the first round; rounds count from 1.
    pub open spec fn reported_in_round(self, key: usize, slot: int, n: nat) -> Set<usize>
        decreases n,
    {
        if n <= 1 {
            self.reset(key, slot).expired()
        } else {
            self.reset(key, slot).expire().reported_in_round(key, self.current, (n - 1) as nat)
        }
    }
}

/// The bucket after `current` in a ring of `n` buckets.
pub proof fn lemma_next_slot(current: int, n: int)
    requires
        0 <= current < n,
    ensures
        (current + 1) % n == if current + 1 == n {
            0
        } else {
            current + 1
        },
{
    if current + 1 == n {
        vstd::arithmetic::div_mod::lemma_mod_self_0(n);
    } else {
        vstd::arithmetic::div_mod::lemma_small_mod((current + 1) as nat, n as nat);
    }
}

/// One tick brings every bucket but the oldest one tick closer to its report.
pub proof fn lemma_tick_ages_buckets(w: WheelModel, slot: int)
    requires
        w.wf(),
        0 <= slot < w.slots.len(),
    ensures
        w.expire().wf(),
        w.expire().slots.len() == w.slots.len(),
        w.ticks_until(slot) == 1 <==> slot == w.oldest(),
        slot != w.oldest() ==> w.expire().ticks_until(slot) == w.ticks_until(slot) - 1,
        slot != w.oldest() ==> w.expire().slots[slot] == w.slots[slot],
{
    lemma_next_slot(w.current, w.slots.len() as int);
}

/// A key that no bucket holds is in none after any number of ticks.
pub proof fn lemma_absent_key_stays_absent(w: WheelModel, key: usize, n: nat)
    requires
        w.wf(),
        !w.contains(key),
    ensures
        w.expire_n(n).wf(),
        w.expire_n(n).slots.len() == w.slots.len(),
        !w.expire_n(n).contains(key),
    decreases n,
{
    if n > 0 {
        let before = w.expire_n((n - 1) as nat);
        lemma_absent_key_stays_absent(w, key, (n - 1) as nat);
        lemma_next_slot(before.current, before.slots.len() as int);
        let after = before.expire();
        assert forall|i: int| 0 <= i < after.slots.len() implies !(#[trigger] after.slots[i]).contains(
            key,
        ) by {
            assert(!before.slots[i].contains(key));
        }
    }
}

/// Where a key sits while nobody touches it: after `n` ticks, fewer than the
/// wheel has buckets, it is still in the bucket it was put into and in no
/// other, and that bucket is `n` ticks closer to its report.
pub proof fn lemma_silent_key_position(w: WheelModel, key: usize, n: nat)
    requires
        w.wf(),
        !w.contains(key),
        n < w.slots.len(),
    ensures
        w.insert(key).expire_n(n).wf(),
        w.insert(key).expire_n(n).slots.len() == w.slots.len(),
        w.insert(key).expire_n(n).holds_only_in(key, w.current),
        w.insert(key).expire_n(n).ticks_until(w.current) == w.slots.len() - n,
    decreases n,
{
    let w0 = w.insert(key);
    if n == 0 {
        assert forall|i: int| 0 <= i < w0.slots.len() implies (#[trigger] w0.slots[i].contains(key)
            <==> i == w.current) by {
            assert(!w.slots[i].contains(key));
        }
    } else {
        let before = w0.expire_n((n - 1) as nat);
        lemma_silent_key_position(w, key, (n - 1) as nat);
        lemma_tick_ages_buckets(before, w.current);
        let after = before.expire();
        assert forall|i: int| 0 <= i < after.slots.len() implies (#[trigger] after.slots[i].contains(
            key,
        ) <==> i == w.current) by {
            assert(before.slots[i].contains(key) <==> i == w.current);
        }
    }
}

/// Liveness of the wheel: a key that is put in and not touched again is
/// reported by exactly one tick, the one whose number after the insertion is
/// the number of buckets.
pub proof fn lemma_silent_key_expires_once(w: WheelModel, key: usize, k: nat)
    requires
        w.wf(),
        !w.contains(key),
        k >= 1,
    ensures
        w.insert(key).expire_n((k - 1) as nat).expired().contains(key) <==> k == w.slots.len(),
{
    let n = w.slots.len();
    let before = w.insert(key).expire_n((k - 1) as nat);
    if k <= n {
        lemma_silent_key_position(w, key, (k - 1) as nat);
        lemma_tick_ages_buckets(before, w.current);
        lemma_next_slot(before.current, before.slots.len() as int);
        assert(before.slots[before.oldest()].contains(key) <==> before.oldest() == w.current);
    } else {
        lemma_silent_key_position(w, key, (n - 1) as nat);
        let last = w.insert(key).expire_n((n - 1) as nat);
        lemma_tick_ages_buckets(last, w.current);
        lemma_next_slot(last.current, last.slots.len() as int);
        let gone = last.expire();
        assert(gone == w.insert(key).expire_n(n));
        assert forall|i: int| 0 <= i < gone.slots.len() implies !(#[trigger] gone.slots[i]).contains(
            key,
        ) by {
            assert(last.slots[i].contains(key) <==> i == w.current);
        }
        lemma_expire_n_splits(w.insert(key), n, (k - 1 - n) as nat);
        lemma_absent_key_stays_absent(gone, key, (k - 1 - n) as nat);
        let late = gone.expire_n((k - 1 - n) as nat);
        lemma_next_slot(late.current, late.slots.len() as int);
        assert(!late.slots[late.oldest()].contains(key));
    }
}

/// Ticks add up.
pub proof fn lemma_expire_n_splits(w: WheelModel, a: nat, b: nat)
    ensures
        w.expire_n(a + b) == w.expire_n(a).expire_n(b),
    decreases b,
{
    if b > 0 {
        lemma_expire_n_splits(w, a, (b - 1) as nat);
        assert(w.expire_n(a + b) == w.expire_n((a + b - 1) as nat).expire());
    }
}

/// A key that proves alive before every tick is never reported, in a wheel of
/// at least two buckets.
pub proof fn lemma_reset_key_never_expires(w: WheelModel, key: usize, slot: int, n: nat)
    requires
        w.wf(),
        w.slots.len() >= 2,
        w.holds_only_in(key, slot),
        n >= 1,
    ensures
        !w.reported_in_round(key, slot, n).contains(key),
    decreases n,
{
    let fresh = w.reset(key, slot);
    lemma_next_slot(w.current, w.slots.len() as int);
    assert forall|i: int| 0 <= i < fresh.slots.len() implies (#[trigger] fresh.slots[i].contains(
        key,
    ) <==> i == w.current) by {
        assert(w.slots[i].contains(key) <==> i == slot);
    }
    assert(!fresh.slots[fresh.oldest()].contains(key));
    if n > 1 {
        let after = fresh.expire();
        assert forall|i: int| 0 <= i < after.slots.len() implies (#[trigger] after.slots[i].contains(
            key,
        ) <==> i == w.current) by {
            assert(fresh.slots[i].contains(key) <==> i == w.current);
        }
        lemma_reset_key_never_expires(after, key, w.current, (n - 1) as nat);
    }
}

/// A timing wheel over connection identifiers.
pub struct TimerWheel {
    slots: Vec<HashSet<usize>>,
    current: usize,
}

impl View for TimerWheel {
    type V = WheelModel;

    closed spec fn view(&self) -> WheelModel {
        WheelModel {
            slots: Seq::new(self.slots@.len(), |i: int| self.slots@[i]@),
            current: self.current as int,
        }
    }
}

impl TimerWheel {
    /// The wheel has a bucket and its cursor points at one.
    pub open spec fn wf(&self) -> bool {
        self@.wf()
    }

    /// A wheel of `num_slots` empty buckets. A key that is put in and never
    /// touched again is reported by the tick number `num_slots` after that.
    pub fn new(num_slots: usize) -> (w: TimerWheel)
        requires
            num_slots > 0,
        ensures
            w.wf(),
            w@.current == 0,
            w@.slots == Seq::new(num_slots as nat, |i: int| Set::<usize>::empty()),
    {
        let mut slots: Vec<HashSet<usize>> = Vec::new();
        let mut i: usize = 0;
        while i < num_slots
            invariant
                i <= num_slots,
                slots@.len() == i,
                forall|j: int| 0 <= j < i ==> (#[trigger] slots@[j])@ == Set::<usize>::empty(),
            decreases num_slots - i,
        {
            slots.push(HashSet::new());
            i = i + 1;
        }
        let w = TimerWheel { slots, current: 0 };
        proof {
            assert(w@.slots =~= Seq::new(num_slots as nat, |i: int| Set::<usize>::empty()));
        }
        w
    }

    /// The number of buckets.
    pub fn num_slots(&self) -> (n: usize)
        ensures
            n == self@.slots.len(),
    {
        self.slots.len()
    }

    /// Puts `key` into the freshest bucket and returns that bucket's index.
    pub fn insert(&mut self, key: usize) -> (slot: usize)
        requires
            old(self).wf(),
        ensures
            final(self).wf(),
            slot == old(self)@.current,
            final(self)@ == old(self)@.insert(key),
    {
        let slot = self.current;
        let bucket = &mut self.slots[slot];
        bucket.insert(key);
        proof {
            assert(self@.slots =~= old(self)@.insert(key).slots);
        }
        slot
    }

    /// Takes `key` out of the bucket `slot`; nothing changes where that bucket
    /// does not hold it.
    pub fn remove(&mut self, key: usize, slot: usize)
        requires
            old(self).wf(),
            slot < old(self)@.slots.len(),
        ensures
            final(self).wf(),
            final(self)@ == old(self)@.remove(key, slot as int),
    {
        let bucket = &mut self.slots[slot];
        bucket.remove(&key);
        proof {
            assert(self@.slots =~= old(self)@.remove(key, slot as int).slots);
        }
    }

    /// Advances the wheel by one tick and returns the keys of the bucket that
    /// has become the oldest; that bucket is emptied and is now the freshest.
    pub fn expire(&mut self) -> (expired: HashSet<usize>)
        requires
            old(self).wf(),
        ensures
            final(self).wf(),
            expired@ == old(self)@.expired(),
            final(self)@ == old(self)@.expire(),
    {
        let n = self.slots.len();
        let next = if self.current + 1 == n {
            0
        } else {
            self.current + 1
        };
        proof {
            lemma_next_slot(self.current as int, n as int);
        }
        let mut expired: HashSet<usize> = HashSet::new();
        let bucket = &mut self.slots[next];
        std::mem::swap(bucket, &mut expired);
        self.current = next;
        proof {
            assert(self@.slots =~= old(self)@.expire().slots);
        }
        expired
    }
}

} // verus!
