//! The contents of a slot's backing store under positional writes: a write
//! overwrites the bytes it covers, extends the store when it ends past the
//! end, and fills any gap it leaves before its start with zero bytes. The
//! store's length is a high-water mark, not a record of the ranges written.
use vstd::prelude::*;

verus! {

/// The contents after writing `d` starting at offset `p`.
pub open spec fn after_write(c: Seq<u8>, p: nat, d: Seq<u8>) -> Seq<u8> {
    let end = if c.len() > p + d.len() {
        c.len()
    } else {
        p + d.len()
    };
    Seq::new(
        end as nat,
        |i: int|
            if p <= i < p + d.len() {
                d[i - p]
            } else if i < c.len() {
                c[i]
            } else {
                0u8
            },
    )
}

/// An in-memory image of one slot's backing store.
pub struct SlotImage {
    bytes: Vec<u8>,
}

impl View for SlotImage {
    type V = Seq<u8>;

    closed spec fn view(&self) -> Seq<u8> {
        self.bytes@
    }
}

impl SlotImage {
    /// A freshly allocated slot: empty.
    pub fn new() -> (r: SlotImage)
        ensures
            r@ == Seq::<u8>::empty(),
    {
        SlotImage { bytes: Vec::new() }
    }

    /// The store's current length.
    pub fn size(&self) -> (r: usize)
        ensures
            r == self@.len(),
    {
        self.bytes.len()
    }

    /// The store's bytes.
    pub fn contents(&self) -> (r: &[u8])
        ensures
            r@ == self@,
    {
        self.bytes.as_slice()
    }

    /// Writes `data` starting at offset `pos`.
    pub fn write_at(&mut self, pos: usize, data: &[u8])
        requires
            pos + data@.len() <= usize::MAX,
        ensures
            final(self)@ == after_write(old(self)@, pos as nat, data@),
    {
        let ghost c = self@;
        let ghost target = after_write(c, pos as nat, data@);
        while self.bytes.len() < pos
            invariant
                c.len() <= self@.len() <= pos || self@.len() == c.len(),
                forall|i: int| 0 <= i < c.len() ==> self@[i] == c[i],
                forall|i: int| c.len() <= i < self@.len() ==> self@[i] == 0u8,
            decreases pos - self@.len(),
        {
            self.bytes.push(0u8);
        }
        let mut k: usize = 0;
        while k < data.len()
            invariant
                pos + data@.len() <= usize::MAX,
                k <= data@.len(),
                target == after_write(c, pos as nat, data@),
                self@.len() == if c.len() > pos + k {
                    c.len()
                } else {
                    (pos + k) as nat
                },
                forall|i: int|
                    0 <= i < self@.len() ==> #[trigger] self@[i] == if pos <= i < pos + k {
                        data@[i - pos]
                    } else if i < c.len() {
                        c[i]
                    } else {
                        0u8
                    },
            decreases data@.len() - k,
        {
            let at = pos + k;
            if at < self.bytes.len() {
                self.bytes.set(at, data[k]);
            } else {
                self.bytes.push(data[k]);
            }
            k = k + 1;
        }
        assert(self@ =~= target);
    }
}

/// Writing `d` at `p` leaves the store as long as the larger of its previous
/// length and the end of the write.
pub proof fn lemma_size_after_write(c: Seq<u8>, p: nat, d: Seq<u8>)
    ensures
        after_write(c, p, d).len() == if c.len() > p + d.len() {
            c.len()
        } else {
            p + d.len()
        },
{
}

/// A write from offset zero puts its bytes at the start of the store, over
/// whatever was there, and keeps the bytes past its end.
pub proof fn lemma_write_from_start(c: Seq<u8>, d: Seq<u8>)
    ensures
        after_write(c, 0, d).subrange(0, d.len() as int) == d,
        forall|i: int|
            d.len() <= i < c.len() ==> #[trigger] after_write(c, 0, d)[i] == c[i],
{
    assert(after_write(c, 0, d).subrange(0, d.len() as int) =~= d);
}

/// Two writes to disjoint ranges give the same contents in either order, and
/// each range then holds the bytes written to it, while the bytes outside both
/// ranges are those of the store before.
pub proof fn lemma_disjoint_writes(c: Seq<u8>, a: nat, x: Seq<u8>, b: nat, y: Seq<u8>)
    requires
        a + x.len() <= b,
    ensures
        after_write(after_write(c, a, x), b, y) == after_write(after_write(c, b, y), a, x),
        after_write(after_write(c, a, x), b, y).subrange(a as int, (a + x.len()) as int) == x,
        after_write(after_write(c, a, x), b, y).subrange(b as int, (b + y.len()) as int) == y,
        forall|i: int|
            0 <= i < c.len() && !(a <= i < (a + x.len()) as int) && !(b <= i < (b + y.len()) as int) ==> #[trigger] after_write(
                after_write(c, a, x),
                b,
                y,
            )[i] == c[i],
{
    let s1 = after_write(after_write(c, a, x), b, y);
    let s2 = after_write(after_write(c, b, y), a, x);
    assert(s1 =~= s2);
    assert(s1.subrange(a as int, (a + x.len()) as int) =~= x);
    assert(s1.subrange(b as int, (b + y.len()) as int) =~= y);
}

} // verus!
