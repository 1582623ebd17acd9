//! The stored form of a ring.
//!
//! A ring is stored as 8200 bytes: the cursor in two bytes, the bump in one,
//! five bytes of padding, and the 512 observations in slot order, each as
//! its slot and its price in eight bytes each. Numbers are stored least
//! significant byte first. The layout never changes; a write to the ring
//! changes the cursor and the bytes of one observation.

use vstd::prelude::*;
use crate::ring::{PricePoint, PriceRing, PriceRingView, RING_BUFFER_SIZE};

verus! {

/// Bytes of a stored observation.
pub const POINT_LEN: usize = 16;

/// Bytes of a stored ring before its observations.
pub const RING_HEADER_LEN: usize = 8;

/// Bytes of a stored ring.
pub const RING_LEN: usize = RING_HEADER_LEN + RING_BUFFER_SIZE * POINT_LEN;

/// The two bytes of `x`, least significant first.
pub open spec fn le16(x: int) -> Seq<u8> {
    seq![(x % 256) as u8, (x / 256 % 256) as u8]
}

/// The eight bytes of `x`, least significant first.
pub open spec fn le64(x: u64) -> Seq<u8> {
    seq![
        (x % 256) as u8,
        (x / 0x100 % 256) as u8,
        (x / 0x1_0000 % 256) as u8,
        (x / 0x100_0000 % 256) as u8,
        (x / 0x1_0000_0000 % 256) as u8,
        (x / 0x100_0000_0000 % 256) as u8,
        (x / 0x1_0000_0000_0000 % 256) as u8,
        (x / 0x100_0000_0000_0000 % 256) as u8,
    ]
}

/// The number that eight bytes stand for, least significant first.
pub open spec fn le64_value(bytes: Seq<u8>) -> int {
    bytes[0] + bytes[1] * 0x100 + bytes[2] * 0x1_0000 + bytes[3] * 0x100_0000 + bytes[4]
        * 0x1_0000_0000 + bytes[5] * 0x100_0000_0000 + bytes[6] * 0x1_0000_0000_0000 + bytes[7]
        * 0x100_0000_0000_0000
}

/// The stored form of an observation: slot, then price.
pub open spec fn point_bytes(point: PricePoint) -> Seq<u8> {
    le64(point.slot) + le64(point.price)
}

/// The stored form of a ring.
pub open spec fn ring_bytes(ring: PriceRingView) -> Seq<u8> {
    le16(ring.head) + seq![ring.bump] + ring.pad + Seq::new(
        (RING_BUFFER_SIZE * POINT_LEN) as nat,
        |i: int| point_bytes(ring.points[i / POINT_LEN as int])[i % POINT_LEN as int],
    )
}

/// Eight bytes are the stored form of the number they stand for, and of no
/// other.
pub proof fn lemma_le64_inverse(bytes: Seq<u8>, x: u64)
    requires
        bytes.len() == 8,
    ensures
        0 <= le64_value(bytes) <= u64::MAX,
        le64(le64_value(bytes) as u64) == bytes,
        le64_value(le64(x)) == x,
        le64(x) == bytes ==> x == le64_value(bytes),
{
    let b0 = bytes[0];
    let b1 = bytes[1];
    let b2 = bytes[2];
    let b3 = bytes[3];
    let b4 = bytes[4];
    let b5 = bytes[5];
    let b6 = bytes[6];
    let b7 = bytes[7];
    assert({
        let v = b0 + b1 * 0x100 + b2 * 0x1_0000 + b3 * 0x100_0000 + b4 * 0x1_0000_0000 + b5
            * 0x100_0000_0000 + b6 * 0x1_0000_0000_0000 + b7 * 0x100_0000_0000_0000;
        &&& v <= 0xffff_ffff_ffff_ffff
        &&& v % 256 == b0
        &&& v / 0x100 % 256 == b1
        &&& v / 0x1_0000 % 256 == b2
        &&& v / 0x100_0000 % 256 == b3
        &&& v / 0x1_0000_0000 % 256 == b4
        &&& v / 0x100_0000_0000 % 256 == b5
        &&& v / 0x1_0000_0000_0000 % 256 == b6
        &&& v / 0x100_0000_0000_0000 % 256 == b7
    }) by (bit_vector);
    assert(x % 256 + (x / 0x100 % 256) * 0x100 + (x / 0x1_0000 % 256) * 0x1_0000 + (x / 0x100_0000
        % 256) * 0x100_0000 + (x / 0x1_0000_0000 % 256) * 0x1_0000_0000 + (x / 0x100_0000_0000
        % 256) * 0x100_0000_0000 + (x / 0x1_0000_0000_0000 % 256) * 0x1_0000_0000_0000 + (x
        / 0x100_0000_0000_0000 % 256) * 0x100_0000_0000_0000 == x) by (bit_vector);
    assert(le64(le64_value(bytes) as u64) =~= bytes);
}

/// The stored form tells rings apart: two rings with the same stored form
/// hold the same. Reading back what was stored therefore gives the ring that
/// was stored.
pub proof fn lemma_ring_bytes_injective(a: PriceRing, b: PriceRing)
    requires
        ring_bytes(a@) == ring_bytes(b@),
    ensures
        a@ == b@,
{
    let stored_a = ring_bytes(a@);
    let stored_b = ring_bytes(b@);
    assert(a.head == b.head) by {
        assert(stored_a[0] == stored_b[0]);
        assert(stored_a[1] == stored_b[1]);
    }
    assert(a.bump == b.bump) by {
        assert(stored_a[2] == stored_b[2]);
    }
    assert(a._pad@ =~= b._pad@) by {
        assert forall|j: int| 0 <= j < 5 implies a._pad@[j] == b._pad@[j] by {
            assert(stored_a[3 + j] == stored_b[3 + j]);
        }
    }
    assert(a.points@ =~= b.points@) by {
        assert forall|i: int| 0 <= i < RING_BUFFER_SIZE implies a.points@[i] == b.points@[i] by {
            let pa = a.points@[i];
            let pb = b.points@[i];
            assert forall|j: int| 0 <= j < POINT_LEN implies point_bytes(pa)[j] == point_bytes(
                pb,
            )[j] by {
                let k = POINT_LEN * i + j;
                assert(k / POINT_LEN as int == i);
                assert(k % POINT_LEN as int == j);
                assert(stored_a[RING_HEADER_LEN + k] == stored_b[RING_HEADER_LEN + k]);
            }
            assert(le64(pa.slot) =~= le64(pb.slot)) by {
                assert forall|j: int| 0 <= j < 8 implies le64(pa.slot)[j] == le64(pb.slot)[j] by {
                    assert(point_bytes(pa)[j] == point_bytes(pb)[j]);
                }
            }
            assert(le64(pa.price) =~= le64(pb.price)) by {
                assert forall|j: int| 0 <= j < 8 implies le64(pa.price)[j] == le64(
                    pb.price,
                )[j] by {
                    assert(point_bytes(pa)[8 + j] == point_bytes(pb)[8 + j]);
                }
            }
            lemma_le64_inverse(le64(pa.slot), pa.slot);
            lemma_le64_inverse(le64(pb.slot), pb.slot);
            lemma_le64_inverse(le64(pa.price), pa.price);
            lemma_le64_inverse(le64(pb.price), pb.price);
        }
    }
}

/// Where each part of a ring lies in its stored form.
pub proof fn lemma_ring_bytes_parts(ring: PriceRingView)
    requires
        ring.pad.len() == 5,
    ensures
        ring_bytes(ring).len() == RING_LEN,
        ring_bytes(ring).subrange(0, 2) == le16(ring.head),
        ring_bytes(ring)[2] == ring.bump,
        ring_bytes(ring).subrange(3, 8) == ring.pad,
        forall|i: int|
            0 <= i < RING_BUFFER_SIZE ==> #[trigger] ring_bytes(ring).subrange(
                RING_HEADER_LEN + POINT_LEN * i,
                RING_HEADER_LEN + POINT_LEN * (i + 1),
            ) == point_bytes(ring.points[i]),
{
    let stored = ring_bytes(ring);
    assert(stored.subrange(0, 2) =~= le16(ring.head));
    assert(stored.subrange(3, 8) =~= ring.pad);
    assert forall|i: int| 0 <= i < RING_BUFFER_SIZE implies #[trigger] stored.subrange(
        RING_HEADER_LEN + POINT_LEN * i,
        RING_HEADER_LEN + POINT_LEN * (i + 1),
    ) == point_bytes(ring.points[i]) by {
        let at = RING_HEADER_LEN + POINT_LEN * i;
        assert forall|j: int| 0 <= j < POINT_LEN implies stored[at + j] == point_bytes(
            ring.points[i],
        )[j] by {
            let k = POINT_LEN * i + j;
            assert(k / POINT_LEN as int == i);
            assert(k % POINT_LEN as int == j);
        }
        assert(stored.subrange(at, at + POINT_LEN) =~= point_bytes(ring.points[i]));
    }
}

/// A write is local in the stored form too: it changes the two bytes of the
/// cursor and the sixteen bytes of the observation under it, and no byte
/// besides. The length never changes.
pub proof fn lemma_append_rewrites_cursor_and_one_point(ring: PriceRingView, point: PricePoint)
    requires
        ring.well_formed(),
    ensures
        ring_bytes(ring).len() == RING_LEN,
        ring_bytes(ring.append(point)).len() == RING_LEN,
        ring_bytes(ring.append(point)).subrange(0, 2) == le16(
            (ring.head + 1) % (RING_BUFFER_SIZE as int),
        ),
        ring_bytes(ring.append(point)).subrange(
            RING_HEADER_LEN + POINT_LEN * ring.head,
            RING_HEADER_LEN + POINT_LEN * (ring.head + 1),
        ) == point_bytes(point),
        forall|j: int|
            2 <= j < RING_LEN && !(RING_HEADER_LEN + POINT_LEN * ring.head <= j < RING_HEADER_LEN
                + POINT_LEN * (ring.head + 1)) ==> ring_bytes(ring.append(point))[j]
                == ring_bytes(ring)[j],
{
    let written = ring.append(point);
    let before = ring_bytes(ring);
    let after = ring_bytes(written);
    let at = RING_HEADER_LEN + POINT_LEN * ring.head;
    lemma_ring_bytes_parts(ring);
    lemma_ring_bytes_parts(written);
    assert(after.subrange(at, at + POINT_LEN) == point_bytes(written.points[ring.head]));
    assert forall|j: int|
        2 <= j < RING_LEN && !(at <= j < at + POINT_LEN) implies after[j] == before[j] by {
        if j == 2 {
        } else if j < RING_HEADER_LEN {
            assert(after[j] == after.subrange(3, 8)[j - 3]);
            assert(before[j] == before.subrange(3, 8)[j - 3]);
        } else {
            let i = (j - RING_HEADER_LEN) / POINT_LEN as int;
            let from = RING_HEADER_LEN + POINT_LEN * i;
            assert(0 <= i < RING_BUFFER_SIZE && i != ring.head);
            assert(from <= j < from + POINT_LEN);
            assert(written.points[i] == ring.points[i]);
            assert(after[j] == after.subrange(from, from + POINT_LEN)[j - from]);
            assert(before[j] == before.subrange(from, from + POINT_LEN)[j - from]);
        }
    }
}

/// Appends the stored form of `x`.
fn push_le64(out: &mut Vec<u8>, x: u64)
    ensures
        final(out)@ == old(out)@ + le64(x),
{
    out.push((x % 256) as u8);
    out.push((x / 0x100 % 256) as u8);
    out.push((x / 0x1_0000 % 256) as u8);
    out.push((x / 0x100_0000 % 256) as u8);
    out.push((x / 0x1_0000_0000 % 256) as u8);
    out.push((x / 0x100_0000_0000 % 256) as u8);
    out.push((x / 0x1_0000_0000_0000 % 256) as u8);
    out.push((x / 0x100_0000_0000_0000 % 256) as u8);
    assert(out@ =~= old(out)@ + le64(x));
}

/// Reads the number stored in the eight bytes from `at` on.
fn read_le64(bytes: &[u8], at: usize) -> (x: u64)
    requires
        at + 8 <= bytes@.len(),
    ensures
        le64(x) == bytes@.subrange(at as int, at + 8),
        x == le64_value(bytes@.subrange(at as int, at + 8)),
{
    let ghost stored = bytes@.subrange(at as int, at + 8);
    proof {
        lemma_le64_inverse(stored, 0);
    }
    let x: u64 = bytes[at] as u64 + bytes[at + 1] as u64 * 0x100 + bytes[at + 2] as u64 * 0x1_0000
        + bytes[at + 3] as u64 * 0x100_0000 + bytes[at + 4] as u64 * 0x1_0000_0000 + bytes[at
        + 5] as u64 * 0x100_0000_0000 + bytes[at + 6] as u64 * 0x1_0000_0000_0000 + bytes[at
        + 7] as u64 * 0x100_0000_0000_0000;
    assert(x == le64_value(stored));
    x
}

impl PriceRing {
    /// The stored form of the ring.
    pub fn to_bytes(&self) -> (bytes: Vec<u8>)
        ensures
            bytes@ == ring_bytes(self@),
            bytes@.len() == RING_LEN,
    {
        let ghost stored = ring_bytes(self@);
        let mut bytes: Vec<u8> = Vec::with_capacity(RING_LEN);
        bytes.push((self.head % 256) as u8);
        bytes.push((self.head / 256 % 256) as u8);
        bytes.push(self.bump);
        bytes.push(self._pad[0]);
        bytes.push(self._pad[1]);
        bytes.push(self._pad[2]);
        bytes.push(self._pad[3]);
        bytes.push(self._pad[4]);
        assert(bytes@ =~= stored.subrange(0, RING_HEADER_LEN as int));
        let mut i: usize = 0;
        while i < RING_BUFFER_SIZE
            invariant
                i <= RING_BUFFER_SIZE,
                stored == ring_bytes(self@),
                bytes@ == stored.subrange(0, RING_HEADER_LEN + POINT_LEN * i),
            decreases RING_BUFFER_SIZE - i,
        {
            let point = self.points[i];
            let ghost before = bytes@;
            push_le64(&mut bytes, point.slot);
            push_le64(&mut bytes, point.price);
            proof {
                let next = stored.subrange(0, RING_HEADER_LEN + POINT_LEN * (i + 1));
                assert(bytes@ == before + point_bytes(point)) by {
                    assert(bytes@ =~= before + (le64(point.slot) + le64(point.price)));
                }
                assert(bytes@.len() == next.len());
                assert forall|j: int| 0 <= j < next.len() implies bytes@[j] == next[j] by {
                    if j >= RING_HEADER_LEN + POINT_LEN * i {
                        let k = j - RING_HEADER_LEN as int;
                        assert(k / POINT_LEN as int == i);
                        assert(k % POINT_LEN as int == j - (RING_HEADER_LEN + POINT_LEN * i));
                    }
                }
                assert(bytes@ =~= next);
            }
            i += 1;
        }
        assert(bytes@ =~= stored);
        bytes
    }

    /// The ring that is stored in `bytes`, if they have the length of a
    /// stored ring. Any bytes of that length are the stored form of exactly
    /// one ring; its cursor may be out of range, which the next write
    /// repairs.
    pub fn from_bytes(bytes: &[u8]) -> (ring: Option<PriceRing>)
        ensures
            ring is Some <==> bytes@.len() == RING_LEN,
            ring is Some ==> ring_bytes(ring->0@) == bytes@,
    {
        if bytes.len() != RING_LEN {
            return None;
        }
        let mut ring = PriceRing {
            head: bytes[0] as u16 + bytes[1] as u16 * 256,
            bump: bytes[2],
            _pad: [bytes[3], bytes[4], bytes[5], bytes[6], bytes[7]],
            points: [PricePoint { slot: 0, price: 0 }; RING_BUFFER_SIZE],
        };
        let mut i: usize = 0;
        while i < RING_BUFFER_SIZE
            invariant
                i <= RING_BUFFER_SIZE,
                bytes@.len() == RING_LEN,
                ring.head == bytes@[0] + bytes@[1] * 256,
                ring.bump == bytes@[2],
                ring._pad@ == bytes@.subrange(3, 8),
                forall|j: int|
                    0 <= j < i ==> point_bytes(#[trigger] ring.points@[j]) == bytes@.subrange(
                        RING_HEADER_LEN + POINT_LEN * j,
                        RING_HEADER_LEN + POINT_LEN * (j + 1),
                    ),
            decreases RING_BUFFER_SIZE - i,
        {
            let at: usize = RING_HEADER_LEN + POINT_LEN * i;
            let slot = read_le64(bytes, at);
            let price = read_le64(bytes, at + 8);
            ring.points[i] = PricePoint { slot, price };
            proof {
                assert(point_bytes(ring.points@[i as int]) =~= bytes@.subrange(
                    RING_HEADER_LEN + POINT_LEN * i,
                    RING_HEADER_LEN + POINT_LEN * (i + 1),
                )) by {
                    assert(bytes@.subrange(at as int, at + 16) =~= bytes@.subrange(
                        at as int,
                        at + 8,
                    ) + bytes@.subrange(at + 8, at + 16));
                }
            }
            i += 1;
        }
        proof {
            let stored = ring_bytes(ring@);
            assert(stored.len() == bytes@.len());
            assert forall|j: int| 0 <= j < stored.len() implies stored[j] == bytes@[j] by {
                if j >= RING_HEADER_LEN {
                    let k = j - RING_HEADER_LEN as int;
                    let p = k / POINT_LEN as int;
                    assert(0 <= p < RING_BUFFER_SIZE);
                    assert(point_bytes(ring.points@[p]) == bytes@.subrange(
                        RING_HEADER_LEN + POINT_LEN * p,
                        RING_HEADER_LEN + POINT_LEN * (p + 1),
                    ));
                    assert(k % POINT_LEN as int == j - (RING_HEADER_LEN + POINT_LEN * p));
                } else if j >= 3 {
                    assert(ring._pad@[j - 3] == bytes@.subrange(3, 8)[j - 3]);
                }
            }
            assert(stored =~= bytes@);
        }
        Some(ring)
    }
}

} // verus!
