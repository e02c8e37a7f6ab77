//! Columns of fixed-width values.
use crate::chunk_id::ChunkId;
use crate::rows::all_in_bounds;
use crate::rows::decoded;
use crate::rows::gathered;
use crate::rows::addresses_usable;
use crate::rows::in_bounds;
use crate::rows::lemma_usable_in_bounds;
use crate::rows::lengths_of;
use crate::rows::none_null;
use crate::rows::picked;
use crate::sorted::IsSorted;
use crate::sorted::gather_sorted_flag;
use crate::sorted::update_gather_sorted_flag;
use crate::validity::bitmap_bits;
use crate::validity::builder_bits;
use crate::validity::covers;
use crate::validity::has_null_bit;
use crate::validity::is_null_at;
use crate::validity::is_valid_at;
use crate::validity::some_null;
use crate::validity::validity_covers;
use polars_arrow::bitmap::Bitmap;
use polars_arrow::bitmap::BitmapBuilder;
use vstd::prelude::*;

verus! {

/// One chunk: the values of its rows and their validity. What stands in the
/// value of a null row says nothing.
pub struct PrimitiveArray<T> {
    pub values: Vec<T>,
    pub validity: Option<Bitmap>,
}

impl<T: Copy> PrimitiveArray<T> {
    /// The validity has one bit per row.
    pub open spec fn wf(&self) -> bool {
        validity_covers(self.validity, self.values@.len())
    }

    /// Row `i`: `None` where it is null, else its value.
    pub open spec fn slot(&self, i: int) -> Option<T> {
        if is_valid_at(self.validity, i) {
            Some(self.values@[i])
        } else {
            None
        }
    }

    /// The rows.
    pub open spec fn slots(&self) -> Seq<Option<T>> {
        Seq::new(self.values@.len(), |i: int| self.slot(i))
    }

    /// Checks that the chunk is well formed.
    pub fn is_wf(&self) -> (ok: bool)
        ensures
            ok == self.wf(),
    {
        covers(&self.validity, self.values.len())
    }

    /// The number of rows.
    pub fn len(&self) -> (n: usize)
        ensures
            n == self.values@.len(),
    {
        self.values.len()
    }

    /// Whether some row is null.
    pub fn has_nulls(&self) -> (nulls: bool)
        ensures
            nulls == some_null(self.validity),
    {
        has_null_bit(&self.validity)
    }

    /// Whether row `i` is null.
    pub fn is_null(&self, i: usize) -> (null: bool)
        requires
            self.wf(),
            i < self.values@.len(),
        ensures
            null == (self.slot(i as int) is None),
    {
        is_null_at(&self.validity, i)
    }

    /// Row `i`.
    pub fn get(&self, i: usize) -> (row: Option<T>)
        requires
            self.wf(),
            i < self.values@.len(),
        ensures
            row == self.slot(i as int),
    {
        if is_null_at(&self.validity, i) {
            None
        } else {
            Some(self.values[i])
        }
    }
}

/// Chunks as chunks of rows.
pub open spec fn rows_of<T: Copy>(chunks: Seq<PrimitiveArray<T>>) -> Seq<Seq<Option<T>>> {
    Seq::new(chunks.len(), |c: int| chunks[c].slots())
}

/// A column of fixed-width values: a name, chunks, and the sortedness flag.
pub struct ChunkedArray<T> {
    pub name: String,
    pub chunks: Vec<PrimitiveArray<T>>,
    pub sorted: IsSorted,
}

impl<T: Copy> ChunkedArray<T> {
    /// Every chunk is well formed.
    pub open spec fn wf(&self) -> bool {
        forall|c: int| 0 <= c < self.chunks@.len() ==> (#[trigger] self.chunks@[c]).wf()
    }

    /// The column as chunks of rows.
    pub open spec fn rows(&self) -> Seq<Seq<Option<T>>> {
        rows_of(self.chunks@)
    }

    /// Whether some row of some chunk is null.
    pub open spec fn some_null(&self) -> bool {
        exists|c: int| 0 <= c < self.chunks@.len() && some_null((#[trigger] self.chunks@[c]).validity)
    }

    /// A column of the one chunk `array`, not known to be sorted.
    pub fn with_chunk(name: String, array: PrimitiveArray<T>) -> (ca: ChunkedArray<T>)
        ensures
            ca.name == name,
            ca.chunks@ == seq![array],
            ca.sorted == IsSorted::Not,
    {
        let mut chunks: Vec<PrimitiveArray<T>> = Vec::with_capacity(1);
        chunks.push(array);
        ChunkedArray { name, chunks, sorted: IsSorted::Not }
    }

    /// The number of chunks.
    pub fn n_chunks(&self) -> (n: usize)
        ensures
            n == self.chunks@.len(),
    {
        self.chunks.len()
    }

    /// Checks that every chunk is well formed.
    pub fn is_wf(&self) -> (ok: bool)
        ensures
            ok == self.wf(),
    {
        let mut c: usize = 0;
        while c < self.chunks.len()
            invariant
                c <= self.chunks@.len(),
                forall|d: int| 0 <= d < c ==> (#[trigger] self.chunks@[d]).wf(),
            decreases self.chunks@.len() - c,
        {
            if !self.chunks[c].is_wf() {
                return false;
            }
            c += 1;
        }
        true
    }

    /// The number of rows of each chunk.
    pub fn chunk_lengths(&self) -> (lens: Vec<usize>)
        ensures
            lengths_of(self.rows(), lens@),
    {
        let mut lens: Vec<usize> = Vec::with_capacity(self.chunks.len());
        let mut c: usize = 0;
        while c < self.chunks.len()
            invariant
                c <= self.chunks@.len(),
                lens@.len() == c,
                forall|d: int| 0 <= d < c ==> (#[trigger] lens@[d]) == self.chunks@[d].values@.len(),
            decreases self.chunks@.len() - c,
        {
            lens.push(self.chunks[c].len());
            c += 1;
        }
        lens
    }

    /// Checks addresses against the rows of the column: whether each is null
    /// or names a row and, unless `allow_null`, none is null.
    pub fn can_take<const B: u64>(&self, by: &[ChunkId<B>], allow_null: bool) -> (ok: bool)
        requires
            B < 64,
        ensures
            ok == (all_in_bounds(self.rows(), decoded(by@)) && (allow_null || none_null(
                decoded(by@),
            ))),
    {
        let lens = self.chunk_lengths();
        proof {
            lemma_usable_in_bounds(self.rows(), lens@, decoded(by@), allow_null);
        }
        addresses_usable(&lens, by, allow_null)
    }

    /// Whether some row of some chunk is null.
    pub fn has_nulls(&self) -> (nulls: bool)
        ensures
            nulls == self.some_null(),
    {
        let mut c: usize = 0;
        while c < self.chunks.len()
            invariant
                c <= self.chunks@.len(),
                forall|d: int| 0 <= d < c ==> !some_null((#[trigger] self.chunks@[d]).validity),
            decreases self.chunks@.len() - c,
        {
            if self.chunks[c].has_nulls() {
                return true;
            }
            c += 1;
        }
        false
    }
}

/// The values that `by` picks, for a column without a null row and addresses
/// without a null address.
fn pick_values_plain<T: Copy, const B: u64>(
    ca: &ChunkedArray<T>,
    by: &[ChunkId<B>],
) -> (values: Vec<T>)
    requires
        B < 64,
        ca.wf(),
        all_in_bounds(ca.rows(), decoded(by@)),
        none_null(decoded(by@)),
        !ca.some_null(),
    ensures
        values@.len() == by@.len(),
        forall|k: int|
            0 <= k < by@.len() ==> Some(values@[k]) == picked(
                ca.rows(),
                #[trigger] decoded(by@)[k],
            ),
{
    let mut values: Vec<T> = Vec::with_capacity(by.len());
    let mut k: usize = 0;
    while k < by.len()
        invariant
            B < 64,
            ca.wf(),
            all_in_bounds(ca.rows(), decoded(by@)),
            none_null(decoded(by@)),
            !ca.some_null(),
            k <= by@.len(),
            values@.len() == k,
            forall|j: int|
                0 <= j < k ==> Some(values@[j]) == picked(
                    ca.rows(),
                    #[trigger] decoded(by@)[j],
                ),
        decreases by@.len() - k,
    {
        let id = by[k];
        assert(in_bounds(ca.rows(), decoded(by@)[k as int]));
        let (chunk_idx, array_idx) = id.extract();
        let arr = &ca.chunks[chunk_idx as usize];
        values.push(arr.values[array_idx as usize]);
        k += 1;
    }
    values
}

/// The values and the validity that `by` picks. A null address gives a null
/// row with the default value in it, an address of a null row a null row
/// with what stood in that row. `nulls` says whether `ca` may have a null row.
fn pick_values_masked<T: Copy + Default, const B: u64>(
    ca: &ChunkedArray<T>,
    by: &[ChunkId<B>],
    nulls: bool,
) -> (out: (Vec<T>, Bitmap))
    requires
        B < 64,
        ca.wf(),
        all_in_bounds(ca.rows(), decoded(by@)),
        !nulls ==> !ca.some_null(),
    ensures
        out.0@.len() == by@.len(),
        bitmap_bits(out.1).len() == by@.len(),
        forall|k: int|
            0 <= k < by@.len() ==> (if bitmap_bits(out.1)[k] {
                Some(out.0@[k])
            } else {
                None
            }) == picked(ca.rows(), #[trigger] decoded(by@)[k]),
{
    let mut values: Vec<T> = Vec::with_capacity(by.len());
    let mut validity = BitmapBuilder::with_capacity(by.len());
    let mut k: usize = 0;
    while k < by.len()
        invariant
            B < 64,
            ca.wf(),
            all_in_bounds(ca.rows(), decoded(by@)),
            !nulls ==> !ca.some_null(),
            k <= by@.len(),
            values@.len() == k,
            builder_bits(validity).len() == k,
            forall|j: int|
                0 <= j < k ==> (if builder_bits(validity)[j] {
                    Some(values@[j])
                } else {
                    None
                }) == picked(ca.rows(), #[trigger] decoded(by@)[j]),
        decreases by@.len() - k,
    {
        let id = by[k];
        assert(in_bounds(ca.rows(), decoded(by@)[k as int]));
        if id.is_null() {
            values.push(T::default());
            validity.push(false);
        } else {
            let (chunk_idx, array_idx) = id.extract();
            let arr = &ca.chunks[chunk_idx as usize];
            let valid = if nulls {
                !arr.is_null(array_idx as usize)
            } else {
                true
            };
            values.push(arr.values[array_idx as usize]);
            validity.push(valid);
        }
        k += 1;
    }
    (values, validity.freeze())
}

impl<T: Copy + Default> ChunkedArray<T> {
    /// Gathers the rows that `by` names into a column of one chunk.
    ///
    /// No address may be null, and each must name a row that the column has.
    pub fn take_chunked_unchecked<const B: u64>(
        &self,
        by: &[ChunkId<B>],
        sorted: IsSorted,
    ) -> (out: Self)
        requires
            B < 64,
            self.wf(),
            all_in_bounds(self.rows(), decoded(by@)),
            none_null(decoded(by@)),
        ensures
            out.wf(),
            out.name == self.name,
            out.sorted == gather_sorted_flag(self.sorted, sorted),
            out.chunks@.len() == 1,
            out.rows() == seq![gathered(self.rows(), decoded(by@))],
            out.chunks@[0].validity is Some <==> self.some_null(),
    {
        let arr = if self.has_nulls() {
            let (values, validity) = pick_values_masked(self, by, true);
            PrimitiveArray { values, validity: Some(validity) }
        } else {
            let values = pick_values_plain(self, by);
            PrimitiveArray { values, validity: None }
        };
        assert(arr.slots() =~= gathered(self.rows(), decoded(by@)));
        let mut out = ChunkedArray::with_chunk(self.name.clone(), arr);
        out.sorted = update_gather_sorted_flag(self.sorted, sorted);
        out
    }

    /// Gathers the rows that `by` names into a column of one chunk, with a
    /// null row for each null address.
    ///
    /// Each address that is not null must name a row that the column has. The
    /// new column always has a validity and is not flagged as sorted.
    pub fn take_opt_chunked_unchecked<const B: u64>(&self, by: &[ChunkId<B>]) -> (out: Self)
        requires
            B < 64,
            self.wf(),
            all_in_bounds(self.rows(), decoded(by@)),
        ensures
            out.wf(),
            out.name == self.name,
            out.sorted == IsSorted::Not,
            out.chunks@.len() == 1,
            out.rows() == seq![gathered(self.rows(), decoded(by@))],
            out.chunks@[0].validity is Some,
    {
        let nulls = self.has_nulls();
        let (values, validity) = pick_values_masked(self, by, nulls);
        let arr = PrimitiveArray { values, validity: Some(validity) };
        assert(arr.slots() =~= gathered(self.rows(), decoded(by@)));
        let out = ChunkedArray::with_chunk(self.name.clone(), arr);
        out
    }
}

impl<T: Copy + Default> ChunkedArray<T> {
    /// As `take_chunked_unchecked`, for any input: `None` where an address is
    /// null or names no row, where the column is not well formed, or where
    /// the address width is not below 64.
    pub fn take_chunked<const B: u64>(
        &self,
        by: &[ChunkId<B>],
        sorted: IsSorted,
    ) -> (out: Option<Self>)
        ensures
            out is Some <==> B < 64 && self.wf() && all_in_bounds(self.rows(), decoded(by@))
                && none_null(decoded(by@)),
            out matches Some(ca) ==> ca.wf() && ca.name == self.name && ca.sorted
                == gather_sorted_flag(self.sorted, sorted) && ca.chunks@.len() == 1 && ca.rows()
                == seq![gathered(self.rows(), decoded(by@))],
    {
        if B < 64 && self.is_wf() && self.can_take(by, false) {
            Some(self.take_chunked_unchecked(by, sorted))
        } else {
            None
        }
    }

    /// As `take_opt_chunked_unchecked`, for any input: `None` where an address
    /// that is not null names no row, where the column is not well formed, or
    /// where the address width is not below 64.
    pub fn take_opt_chunked<const B: u64>(&self, by: &[ChunkId<B>]) -> (out: Option<Self>)
        ensures
            out is Some <==> B < 64 && self.wf() && all_in_bounds(self.rows(), decoded(by@)),
            out matches Some(ca) ==> ca.wf() && ca.name == self.name && ca.sorted == IsSorted::Not
                && ca.chunks@.len() == 1 && ca.rows() == seq![gathered(self.rows(), decoded(by@))],
    {
        if B < 64 && self.is_wf() && self.can_take(by, true) {
            Some(self.take_opt_chunked_unchecked(by))
        } else {
            None
        }
    }
}

} // verus!
