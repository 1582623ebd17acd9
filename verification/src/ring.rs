//! The ring of price observations.
//!
//! A ring holds the last [`RING_BUFFER_SIZE`] observations. Writing never
//! fails and never moves anything: it overwrites the slot under the cursor and
//! advances the cursor by one, wrapping at the end. Read from the cursor on,
//! the slots are therefore a sliding window over everything ever written.

use vstd::prelude::*;

verus! {

/// Number of slots in a [`PriceRing`].
pub const RING_BUFFER_SIZE: usize = 512;

/// One observation: the slot at which it was taken and the price, in
/// fixed point with six decimal places.
#[derive(Clone, Copy, Debug, PartialEq, Eq, Structural)]
pub struct PricePoint {
    pub slot: u64,
    pub price: u64,
}

impl PricePoint {
    /// The all-zero observation that fills a ring before anything is written.
    pub open spec fn zero() -> PricePoint {
        PricePoint { slot: 0, price: 0 }
    }
}

impl Default for PricePoint {
    fn default() -> (p: PricePoint)
        ensures
            p == PricePoint::zero(),
    {
        PricePoint { slot: 0, price: 0 }
    }
}

/// A fixed-capacity circular log of observations.
///
/// `head` is the slot that the next write lands on. `bump` is set once, when
/// the ring is set up, and identifies the address the ring lives at. `_pad`
/// keeps the observations eight-byte aligned in the stored record.
#[derive(Clone, Copy, Debug)]
pub struct PriceRing {
    pub head: u16,
    pub bump: u8,
    pub _pad: [u8; 5],
    pub points: [PricePoint; RING_BUFFER_SIZE],
}

/// What a [`PriceRing`] holds, as plain mathematics.
pub ghost struct PriceRingView {
    pub head: int,
    pub bump: u8,
    pub pad: Seq<u8>,
    pub points: Seq<PricePoint>,
}

impl View for PriceRing {
    type V = PriceRingView;

    open spec fn view(&self) -> PriceRingView {
        PriceRingView {
            head: self.head as int,
            bump: self.bump,
            pad: self._pad@,
            points: self.points@,
        }
    }
}

impl PriceRingView {
    /// The cursor points at a slot, and there are exactly
    /// [`RING_BUFFER_SIZE`] of them.
    pub open spec fn well_formed(self) -> bool {
        &&& 0 <= self.head < RING_BUFFER_SIZE as int
        &&& self.points.len() == RING_BUFFER_SIZE as nat
        &&& self.pad.len() == 5
    }

    /// A ring right after set-up: cursor at the first slot, every slot zero.
    pub open spec fn fresh(bump: u8) -> PriceRingView {
        PriceRingView {
            head: 0,
            bump,
            pad: Seq::new(5, |i: int| 0u8),
            points: Seq::new(RING_BUFFER_SIZE as nat, |i: int| PricePoint::zero()),
        }
    }

    /// The slot that the next write lands on.
    pub open spec fn cursor(self) -> int {
        self.head % (RING_BUFFER_SIZE as int)
    }

    /// The ring after one write: the slot under the cursor holds `p`, the
    /// cursor has moved on by one, and nothing else has changed.
    pub open spec fn append(self, p: PricePoint) -> PriceRingView {
        PriceRingView {
            head: (self.head + 1) % (RING_BUFFER_SIZE as int),
            points: self.points.update(self.cursor(), p),
            ..self
        }
    }

    /// The ring after writing `samples` one after the other, first to last.
    pub open spec fn append_all(self, samples: Seq<PricePoint>) -> PriceRingView
        decreases samples.len(),
    {
        if samples.len() == 0 {
            self
        } else {
            self.append_all(samples.drop_last()).append(samples.last())
        }
    }

    /// The slots read from the cursor on, wrapping at the end. The first
    /// entry is the next to be overwritten, the last is the newest.
    pub open spec fn in_cursor_order(self) -> Seq<PricePoint> {
        Seq::new(
            RING_BUFFER_SIZE as nat,
            |i: int| self.points[(self.cursor() + i) % (RING_BUFFER_SIZE as int)],
        )
    }
}

/// One write slides the window: read in cursor order, the ring after
/// a write is the ring before it without its oldest entry and with the new
/// observation at the end.
pub proof fn lemma_append_slides_window(ring: PriceRingView, p: PricePoint)
    requires
        ring.well_formed(),
    ensures
        ring.append(p).well_formed(),
        ring.append(p).in_cursor_order() == ring.in_cursor_order().drop_first().push(p),
{
    let n = RING_BUFFER_SIZE as int;
    let after = ring.append(p);
    let expected = ring.in_cursor_order().drop_first().push(p);
    assert(after.in_cursor_order().len() == expected.len());
    assert forall|i: int| 0 <= i < n implies after.in_cursor_order()[i] == expected[i] by {
        if i < n - 1 {
            assert((after.cursor() + i) % n == (ring.cursor() + (i + 1)) % n);
            assert((ring.cursor() + (i + 1)) % n != ring.cursor());
        } else {
            assert((after.cursor() + i) % n == ring.cursor());
        }
    }
    assert(after.in_cursor_order() =~= expected);
}

/// Any number of writes slide the window by as many places: read in cursor
/// order, the ring holds the last [`RING_BUFFER_SIZE`] entries of what it
/// held before followed by what was written. The cursor has advanced by the
/// number of writes, wrapping, and nothing else has changed.
pub proof fn lemma_append_all_slides_window(ring: PriceRingView, samples: Seq<PricePoint>)
    requires
        ring.well_formed(),
    ensures
        ring.append_all(samples).well_formed(),
        ring.append_all(samples).head == (ring.head + samples.len()) % (RING_BUFFER_SIZE as int),
        ring.append_all(samples).bump == ring.bump,
        ring.append_all(samples).pad == ring.pad,
        ring.append_all(samples).in_cursor_order() == (ring.in_cursor_order() + samples).subrange(
            samples.len() as int,
            samples.len() + RING_BUFFER_SIZE as int,
        ),
    decreases samples.len(),
{
    let n = RING_BUFFER_SIZE as int;
    let len = samples.len() as int;
    if len == 0 {
        assert(ring.append_all(samples).in_cursor_order() =~= (ring.in_cursor_order()
            + samples).subrange(0, n));
    } else {
        let earlier = samples.drop_last();
        let before = ring.append_all(earlier);
        lemma_append_all_slides_window(ring, earlier);
        lemma_append_slides_window(before, samples.last());
        let all = ring.in_cursor_order() + samples;
        assert(ring.in_cursor_order() + earlier =~= all.subrange(0, n + len - 1));
        assert(before.in_cursor_order().drop_first().push(samples.last()) =~= all.subrange(
            len,
            len + n,
        ));
    }
}

/// Wraparound: after `RING_BUFFER_SIZE + k` writes to a ring fresh from
/// set-up, with `k` below the capacity, the cursor stands at `k` and the ring
/// holds, in cursor order, exactly the last [`RING_BUFFER_SIZE`] observations
/// that were written.
pub proof fn lemma_wraparound(bump: u8, samples: Seq<PricePoint>, k: int)
    requires
        0 <= k < RING_BUFFER_SIZE as int,
        samples.len() == RING_BUFFER_SIZE as int + k,
    ensures
        PriceRingView::fresh(bump).append_all(samples).head == k,
        PriceRingView::fresh(bump).append_all(samples).in_cursor_order() == samples.subrange(
            k,
            k + RING_BUFFER_SIZE as int,
        ),
{
    let fresh = PriceRingView::fresh(bump);
    lemma_append_all_slides_window(fresh, samples);
    assert((fresh.in_cursor_order() + samples).subrange(
        samples.len() as int,
        samples.len() + RING_BUFFER_SIZE as int,
    ) =~= samples.subrange(k, k + RING_BUFFER_SIZE as int));
}

/// Nothing recent is lost: after any number of writes to a ring fresh from
/// set-up, the newest entries in cursor order are the most recent
/// observations, as many as were written or as the ring has room for,
/// whichever is less. The entries before them are still zero.
pub proof fn lemma_recent_samples_kept(bump: u8, samples: Seq<PricePoint>)
    ensures
        ({
            let n = RING_BUFFER_SIZE as int;
            let written = samples.len() as int;
            let kept = if written < n { written } else { n };
            let ring = PriceRingView::fresh(bump).append_all(samples);
            &&& ring.well_formed()
            &&& ring.head == written % n
            &&& ring.in_cursor_order().subrange(n - kept, n) == samples.subrange(
                written - kept,
                written,
            )
            &&& forall|i: int| 0 <= i < n - kept ==> ring.in_cursor_order()[i] == PricePoint::zero()
        }),
{
    let n = RING_BUFFER_SIZE as int;
    let written = samples.len() as int;
    let kept = if written < n { written } else { n };
    let fresh = PriceRingView::fresh(bump);
    let ring = fresh.append_all(samples);
    lemma_append_all_slides_window(fresh, samples);
    assert(ring.in_cursor_order().subrange(n - kept, n) =~= samples.subrange(
        written - kept,
        written,
    ));
}

impl PriceRing {
    /// The cursor points at a slot. Set-up establishes this and every write
    /// keeps it; a write also repairs a ring that was loaded with a cursor
    /// out of range.
    pub open spec fn well_formed(&self) -> bool {
        self@.well_formed()
    }

    /// A ring as set-up leaves it.
    pub fn new(bump: u8) -> (ring: PriceRing)
        ensures
            ring@ == PriceRingView::fresh(bump),
            ring.well_formed(),
    {
        let ring = PriceRing {
            head: 0,
            bump,
            _pad: [0u8; 5],
            points: [PricePoint { slot: 0, price: 0 }; RING_BUFFER_SIZE],
        };
        assert(ring@.pad =~= PriceRingView::fresh(bump).pad);
        assert(ring@.points =~= PriceRingView::fresh(bump).points);
        ring
    }

    /// Sets the ring up in place: cursor at the first slot, `bump` recorded,
    /// every slot zero. Whatever the storage held before is gone.
    pub fn initialize(&mut self, bump: u8)
        ensures
            final(self)@ == PriceRingView::fresh(bump),
            final(self).well_formed(),
    {
        self.head = 0;
        self.bump = bump;
        self._pad = [0u8; 5];
        self.points = [PricePoint { slot: 0, price: 0 }; RING_BUFFER_SIZE];
        assert(self@.pad =~= PriceRingView::fresh(bump).pad);
        assert(self@.points =~= PriceRingView::fresh(bump).points);
    }

    /// Writes one observation over the slot under the cursor and advances the
    /// cursor by one, wrapping at the end. Exactly one slot changes.
    pub fn append(&mut self, slot: u64, price: u64)
        ensures
            final(self)@ == old(self)@.append(PricePoint { slot, price }),
            final(self).well_formed(),
            forall|i: int|
                0 <= i < RING_BUFFER_SIZE as int && i != old(self)@.cursor()
                    ==> final(self).points@[i] == old(self).points@[i],
            final(self).points@[old(self)@.cursor()] == (PricePoint { slot, price }),
    {
        let idx: usize = self.head as usize % RING_BUFFER_SIZE;
        self.points[idx] = PricePoint { slot, price };
        self.head = ((idx + 1) % RING_BUFFER_SIZE) as u16;
    }

    /// The bump that was recorded at set-up.
    pub fn owner_token(&self) -> (bump: u8)
        ensures
            bump == self.bump,
    {
        self.bump
    }
}

} // verus!
