use vstd::prelude::*;
use zeroize::Zeroize;

verus! {

/// A fixed-capacity byte region for key material.
///
/// Its length never changes after creation. `erase` overwrites every byte with zero, and
/// so does releasing the buffer. The bytes live on the ordinary heap: they are neither
/// locked against swapping nor kept out of core dumps, as a guarded allocator would do.
pub struct SecureBuffer {
    bytes: Vec<u8>,
}

/// Relies on zeroize's `Zeroize` for `[u8]`: every byte is overwritten with zero
/// by writes that the compiler does not elide.
#[verifier::external_body]
pub(crate) fn zeroize_bytes(b: &mut Vec<u8>)
    ensures
        final(b)@ == Seq::new(old(b)@.len(), |_i: int| 0u8),
    opens_invariants none
    no_unwind
{
    b.as_mut_slice().zeroize();
}

/// Copies `src` into `dst` starting at position `at`.
pub(crate) fn copy_into(dst: &mut [u8], at: usize, src: &[u8])
    requires
        at + src@.len() <= old(dst)@.len(),
    ensures
        final(dst)@ == old(dst)@.subrange(0, at as int) + src@ + old(dst)@.subrange(
            at + src@.len(),
            old(dst)@.len() as int,
        ),
{
    let ghost orig = dst@;
    let n: usize = dst.len();
    let mut i: usize = 0;
    while i < src.len()
        invariant
            at + src@.len() <= orig.len(),
            n == orig.len(),
            i <= src@.len(),
            dst@.len() == orig.len(),
            forall|k: int| 0 <= k < at ==> #[trigger] dst@[k] == orig[k],
            forall|k: int| at <= k < at + i ==> #[trigger] dst@[k] == src@[k - at],
            forall|k: int| at + i <= k < orig.len() ==> #[trigger] dst@[k] == orig[k],
        decreases src@.len() - i,
    {
        dst[at + i] = src[i];
        i = i + 1;
    }
    assert(dst@ =~= orig.subrange(0, at as int) + src@ + orig.subrange(
        at + src@.len(),
        orig.len() as int,
    ));
}

impl View for SecureBuffer {
    type V = Seq<u8>;

    closed spec fn view(&self) -> Seq<u8> {
        self.bytes@
    }
}

impl SecureBuffer {
    /// A buffer of `capacity` zero bytes.
    pub fn new(capacity: usize) -> (r: SecureBuffer)
        ensures
            r@ == Seq::new(capacity as nat, |_i: int| 0u8),
    {
        let mut bytes: Vec<u8> = Vec::with_capacity(capacity);
        let mut i: usize = 0;
        while i < capacity
            invariant
                i <= capacity,
                bytes@ == Seq::new(i as nat, |_j: int| 0u8),
            decreases capacity - i,
        {
            bytes.push(0u8);
            i = i + 1;
            assert(bytes@ =~= Seq::new(i as nat, |_j: int| 0u8));
        }
        SecureBuffer { bytes }
    }

    /// The fixed number of bytes in the buffer.
    pub fn capacity(&self) -> (r: usize)
        ensures
            r == self@.len(),
    {
        self.bytes.len()
    }

    /// The byte at position `i`.
    pub fn get(&self, i: usize) -> (r: u8)
        requires
            i < self@.len(),
        ensures
            r == self@[i as int],
    {
        self.bytes[i]
    }

    /// Overwrites the byte at position `i`.
    pub fn set(&mut self, i: usize, b: u8)
        requires
            i < old(self)@.len(),
        ensures
            final(self)@ == old(self)@.update(i as int, b),
    {
        self.bytes.set(i, b);
    }

    /// Copies `src` into the buffer starting at position `at`.
    pub fn copy_in(&mut self, at: usize, src: &[u8])
        requires
            at + src@.len() <= old(self)@.len(),
        ensures
            final(self)@ == old(self)@.subrange(0, at as int) + src@ + old(self)@.subrange(
                at + src@.len(),
                old(self)@.len() as int,
            ),
    {
        copy_into(self.bytes.as_mut_slice(), at, src);
    }

    /// The bytes from position `start` up to, not including, `end`.
    pub fn slice(&self, start: usize, end: usize) -> (r: &[u8])
        requires
            start <= end <= self@.len(),
        ensures
            r@ == self@.subrange(start as int, end as int),
    {
        vstd::slice::slice_subrange(self.bytes.as_slice(), start, end)
    }

    /// Overwrites the whole buffer with zeros; the capacity stays.
    pub fn erase(&mut self)
        ensures
            final(self)@ == Seq::new(old(self)@.len(), |_i: int| 0u8),
    {
        zeroize_bytes(&mut self.bytes);
    }
}

impl Drop for SecureBuffer {
    /// Erases the contents when the buffer is released.
    fn drop(&mut self)
        opens_invariants none
        no_unwind
    {
        zeroize_bytes(&mut self.bytes);
    }
}

} // verus!
