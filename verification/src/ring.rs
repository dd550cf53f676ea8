use vstd::prelude::*;

verus! {

// A bounded ring of recent signal levels. Levels are normalized amplitudes
// expressed in permille (0 ..= 1000); the ring keeps the newest 240 of them,
// evicting the oldest first.

/// Greatest number of level entries the ring retains.
pub const RING_CAPACITY: usize = 240;

pub open spec fn clamp_level(level: u16) -> u16 {
    if level > 1000 {
        1000u16
    } else {
        level
    }
}

pub open spec fn clamp_levels(q: Seq<u16>) -> Seq<u16> {
    q.map_values(|l: u16| clamp_level(l))
}

/// The ring contents after one level is appended.
pub open spec fn ring_push_spec(e: Seq<u16>, level: u16) -> Seq<u16> {
    let pushed = e.push(clamp_level(level));
    if pushed.len() > 240 {
        pushed.skip(pushed.len() - 240)
    } else {
        pushed
    }
}

/// The ring contents after a whole sequence of levels is appended in order.
pub open spec fn ring_after(e: Seq<u16>, q: Seq<u16>) -> Seq<u16>
    decreases q.len(),
{
    if q.len() == 0 {
        e
    } else {
        ring_after(ring_push_spec(e, q[0]), q.drop_first())
    }
}

/// A bounded FIFO of the most recent normalized levels.
pub struct LevelRing {
    entries: Vec<u16>,
}

impl LevelRing {
    pub closed spec fn view(&self) -> Seq<u16> {
        self.entries@
    }

    pub open spec fn wf(&self) -> bool {
        self@.len() <= 240
    }

    pub fn new() -> (r: LevelRing)
        ensures
            r@ == Seq::<u16>::empty(),
            r.wf(),
    {
        LevelRing { entries: Vec::new() }
    }

    pub fn clear(&mut self)
        ensures
            final(self)@ == Seq::<u16>::empty(),
            final(self).wf(),
    {
        self.entries.clear();
    }

    pub fn len(&self) -> (r: usize)
        ensures
            r == self@.len(),
    {
        self.entries.len()
    }

    /// A copy of the retained levels, oldest first.
    pub fn to_vec(&self) -> (r: Vec<u16>)
        ensures
            r@ == self@,
    {
        self.entries.clone()
    }

    /// Append one level, clamped to the permille range, evicting the oldest
    /// entry when the ring is full.
    pub fn push(&mut self, level: u16)
        requires
            old(self).wf(),
        ensures
            final(self)@ == ring_push_spec(old(self)@, level),
            final(self).wf(),
            final(self)@.len() <= 240,
    {
        let clamped = if level > 1000 {
            1000
        } else {
            level
        };
        self.entries.push(clamped);
        if self.entries.len() > RING_CAPACITY {
            self.entries.remove(0);
            proof {
                assert(self@ =~= ring_push_spec(old(self)@, level));
            }
        }
    }
}

proof fn lemma_skip_concat<T>(a: Seq<T>, b: Seq<T>, k: int)
    requires
        0 <= k <= a.len(),
    ensures
        a.skip(k) + b == (a + b).skip(k),
{
    assert(a.skip(k) + b =~= (a + b).skip(k));
}

/// After appending any sequence of levels the ring never exceeds 240
/// entries, and its contents are exactly the newest levels: the tail of
/// everything appended so far (clamped), truncated to the last 240.
/// In particular, once 240 or more levels were appended, the ring holds
/// precisely the last 240 of them, in order.
pub proof fn lemma_recent_levels_window(e: Seq<u16>, q: Seq<u16>)
    requires
        e.len() <= 240,
    ensures
        ring_after(e, q).len() <= 240,
        ring_after(e, q) == {
            let cat = e + clamp_levels(q);
            if cat.len() > 240 {
                cat.skip(cat.len() - 240)
            } else {
                cat
            }
        },
        q.len() >= 240 ==> ring_after(e, q) == clamp_levels(q).skip(q.len() - 240),
    decreases q.len(),
{
    let cat = e + clamp_levels(q);
    if q.len() == 0 {
        assert(clamp_levels(q) =~= Seq::<u16>::empty());
        assert(cat =~= e);
    } else {
        let e2 = ring_push_spec(e, q[0]);
        let rest = q.drop_first();
        lemma_recent_levels_window(e2, rest);
        let cat2 = e2 + clamp_levels(rest);
        // Push is itself a window of e + the first clamped level.
        let head = e.push(clamp_level(q[0]));
        let k: int = if head.len() > 240 {
            head.len() - 240
        } else {
            0
        };
        assert(e2 == head.skip(k)) by {
            if head.len() <= 240 {
                assert(head.skip(0) =~= head);
            }
        }
        lemma_skip_concat(head, clamp_levels(rest), k);
        assert(head + clamp_levels(rest) =~= cat) by {
            assert(clamp_levels(q) =~= seq![clamp_level(q[0])] + clamp_levels(rest));
        }
        assert(cat2 == cat.skip(k));
        // Compose the inner window with the outer skip.
        let m: int = if cat2.len() > 240 {
            cat2.len() - 240
        } else {
            0
        };
        assert(ring_after(e, q) == cat2.skip(m)) by {
            if cat2.len() <= 240 {
                assert(cat2.skip(0) =~= cat2);
            }
        }
        assert(cat2.skip(m) =~= cat.skip(k + m));
        let w: int = if cat.len() > 240 {
            cat.len() - 240
        } else {
            0
        };
        assert(k + m == w);
        if q.len() >= 240 {
            assert(clamp_levels(q).skip(q.len() - 240) =~= cat.skip(cat.len() - 240));
        }
    }
}

} // verus!
