//! The address codec: a chunk index and a row index packed into one `u64`.
use vstd::prelude::*;

verus! {

/// The low `bits` bits set: the part of an address that holds the chunk index.
pub open spec fn chunk_mask(bits: u64) -> u64 {
    !(u64::MAX << bits)
}

/// The address of one row of a chunked column, or the null address.
///
/// The low `B` bits hold the chunk index, the bits above them the row index
/// within that chunk. The all-ones pattern is the null address.
#[derive(Clone, Copy, Debug)]
pub struct ChunkId<const B: u64> {
    swizzled: u64,
}

impl<const B: u64> View for ChunkId<B> {
    type V = Option<(u32, u32)>;

    /// `None` for the null address, else the chunk index and the row index.
    open spec fn view(&self) -> Option<(u32, u32)> {
        if self.is_null_spec() {
            None
        } else {
            Some((self.chunk_spec(), self.row_spec()))
        }
    }
}

impl<const B: u64> ChunkId<B> {
    /// The packed value.
    pub closed spec fn inner(self) -> u64 {
        self.swizzled
    }

    pub open spec fn is_null_spec(self) -> bool {
        self.inner() == u64::MAX
    }

    /// The chunk index: the low `B` bits of the packed value.
    pub open spec fn chunk_spec(self) -> u32 {
        (self.inner() & chunk_mask(B)) as u32
    }

    /// The row index: the bits above the low `B`.
    pub open spec fn row_spec(self) -> u32 {
        (self.inner() >> B) as u32
    }

    /// The pairs that an address of this width can hold without loss: the
    /// chunk index is below the all-ones chunk field and no bit of the row
    /// index is shifted out.
    pub open spec fn fits(chunk: u32, row: u32) -> bool {
        &&& B < 64
        &&& (chunk as u64) < chunk_mask(B)
        &&& (row as u64) <= (u64::MAX >> B)
    }

    /// The null address.
    pub fn null() -> (id: Self)
        ensures
            id@ is None,
            id.inner() == u64::MAX,
    {
        ChunkId { swizzled: u64::MAX }
    }

    pub fn is_null(&self) -> (b: bool)
        ensures
            b == self.is_null_spec(),
            b == (self@ is None),
    {
        self.swizzled == u64::MAX
    }

    /// Packs a chunk index and a row index.
    pub fn store(chunk: u32, row: u32) -> (id: Self)
        requires
            Self::fits(chunk, row),
        ensures
            id@ == Some((chunk, row)),
            id.inner() == ((row as u64) << B) | (chunk as u64),
    {
        let swizzled: u64 = ((row as u64) << B) | (chunk as u64);
        proof {
            lemma_pack_unpack(B, chunk, row);
        }
        ChunkId { swizzled }
    }

    /// Unpacks the chunk index and the row index. On the null address the
    /// pair is the two all-ones fields, cut to 32 bits each.
    pub fn extract(self) -> (pair: (u32, u32))
        requires
            B < 64,
        ensures
            pair == (self.chunk_spec(), self.row_spec()),
            self@ matches Some(p) ==> pair == p,
    {
        let bits: u64 = B;
        let row: u32 = #[verifier::truncate] ((self.swizzled >> bits) as u32);
        assert((1u64 << bits) >= 1 && ((1u64 << bits) - 1) as u64 == !(u64::MAX << bits))
            by (bit_vector)
            requires
                bits < 64,
        ;
        let mask: u64 = (1u64 << bits) - 1;
        let chunk: u32 = #[verifier::truncate] ((self.swizzled & mask) as u32);
        (chunk, row)
    }

    /// `None` for the null address, else the chunk index and the row index.
    pub fn decode(self) -> (r: Option<(u32, u32)>)
        requires
            B < 64,
        ensures
            r == self@,
    {
        if self.is_null() {
            None
        } else {
            Some(self.extract())
        }
    }

    pub fn from_inner(inner: u64) -> (id: Self)
        ensures
            id.inner() == inner,
    {
        ChunkId { swizzled: inner }
    }

    pub fn into_inner(self) -> (inner: u64)
        ensures
            inner == self.inner(),
    {
        self.swizzled
    }
}

/// Packing a pair that fits and unpacking it again gives the pair back, and
/// the packed value is not the null pattern.
pub proof fn lemma_pack_unpack(bits: u64, chunk: u32, row: u32)
    requires
        bits < 64,
        (chunk as u64) < chunk_mask(bits),
        (row as u64) <= (u64::MAX >> bits),
    ensures
        ((((row as u64) << bits) | (chunk as u64)) & chunk_mask(bits)) as u32 == chunk,
        ((((row as u64) << bits) | (chunk as u64)) >> bits) as u32 == row,
        (((row as u64) << bits) | (chunk as u64)) != u64::MAX,
{
    let c = chunk as u64;
    let r = row as u64;
    assert((((r << bits) | c) & !(u64::MAX << bits)) == c && (((r << bits) | c) >> bits) == r && ((
    r << bits) | c) != u64::MAX) by (bit_vector)
        requires
            bits < 64,
            c < !(u64::MAX << bits),
            r <= (u64::MAX >> bits),
    ;
}

} // verus!
