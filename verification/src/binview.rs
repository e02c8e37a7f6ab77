//! Columns of variable-length values stored as views into shared buffers.
use crate::buffer::BufferKey;
use crate::buffer::BufferTable;
use crate::buffer::buffer_bytes;
use crate::buffer::SharedBuffer;
use crate::buffer::table_entries;
use crate::chunk_id::ChunkId;
use crate::rows::Address;
use crate::rows::addresses_usable;
use crate::rows::all_in_bounds;
use crate::rows::lemma_usable_in_bounds;
use crate::rows::lengths_of;
use crate::rows::decoded;
use crate::rows::gathered;
use crate::rows::in_bounds;
use crate::rows::none_null;
use crate::sorted::IsSorted;
use crate::sorted::gather_sorted_flag;
use crate::sorted::update_gather_sorted_flag;
use crate::validity::bitmap_bits;
use crate::validity::builder_bits;
use crate::validity::covers;
use crate::validity::has_null_bit;
use crate::validity::is_null_at;
use crate::validity::is_valid_at;
use crate::validity::some_null;
use crate::validity::validity_covers;
use polars_arrow::bitmap::Bitmap;
use polars_arrow::bitmap::BitmapBuilder;
use std::sync::Arc;
use vstd::prelude::*;

verus! {

/// The longest value that a view holds in itself.
pub const MAX_INLINE_SIZE: u32 = 12;

/// The descriptor of one variable-length value.
///
/// A value of at most `MAX_INLINE_SIZE` bytes lies in the three fields behind
/// `length`. A longer one lies in buffer `buffer_idx` of the pool that
/// belongs to the view, from byte `offset` on, and `prefix` repeats its first
/// four bytes.
#[derive(Clone, Copy, Debug, PartialEq, Eq, Structural)]
pub struct ViewDescriptor {
    pub length: u32,
    pub prefix: u32,
    pub buffer_idx: u32,
    pub offset: u32,
}

impl ViewDescriptor {
    /// The view that stands in a null row.
    pub open spec fn zeroed() -> ViewDescriptor {
        ViewDescriptor { length: 0, prefix: 0, buffer_idx: 0, offset: 0 }
    }

    /// Whether the value lies in the view itself.
    pub open spec fn is_inline(self) -> bool {
        self.length <= MAX_INLINE_SIZE
    }

    /// Whether the view can be read against `pool`: a view that is not inline
    /// names a buffer of the pool and a range inside that buffer.
    pub open spec fn fits_pool(self, pool: Seq<SharedBuffer>) -> bool {
        !self.is_inline() ==> {
            &&& self.buffer_idx < pool.len()
            &&& self.offset + self.length <= pool[self.buffer_idx as int].len_spec()
        }
    }
}

impl Default for ViewDescriptor {
    fn default() -> (view: ViewDescriptor)
        ensures
            view == ViewDescriptor::zeroed(),
    {
        ViewDescriptor { length: 0, prefix: 0, buffer_idx: 0, offset: 0 }
    }
}

/// What a view denotes, whatever pool it is read against: the view itself
/// where the value is inline, else the buffer by its key and the range in it.
pub enum Slot {
    Inline(ViewDescriptor),
    Stored { buffer: BufferKey, offset: u32, length: u32, prefix: u32 },
}

/// What `view` denotes when read against `pool`.
pub open spec fn resolve(view: ViewDescriptor, pool: Seq<SharedBuffer>) -> Slot {
    if view.is_inline() {
        Slot::Inline(view)
    } else {
        Slot::Stored {
            buffer: pool[view.buffer_idx as int].key(),
            offset: view.offset,
            length: view.length,
            prefix: view.prefix,
        }
    }
}

/// One chunk: the views of its rows, the buffer pool that they point into,
/// and the validity of the rows. Chunks can share one pool.
pub struct BinaryViewArray {
    pub views: Vec<ViewDescriptor>,
    pub buffers: Arc<Vec<SharedBuffer>>,
    pub validity: Option<Bitmap>,
}

impl BinaryViewArray {
    /// The validity has one bit per row, and the view of every row that is
    /// not null can be read against the pool.
    pub open spec fn wf(&self) -> bool {
        &&& validity_covers(self.validity, self.views@.len())
        &&& forall|i: int|
            0 <= i < self.views@.len() && is_valid_at(self.validity, i) ==> (#[trigger] self.views@[i]).fits_pool(
                self.buffers@,
            )
    }

    /// Row `i`: `None` where it is null, else what its view denotes.
    pub open spec fn slot(&self, i: int) -> Option<Slot> {
        if is_valid_at(self.validity, i) {
            Some(resolve(self.views@[i], self.buffers@))
        } else {
            None
        }
    }

    /// The rows.
    pub open spec fn slots(&self) -> Seq<Option<Slot>> {
        Seq::new(self.views@.len(), |i: int| self.slot(i))
    }

    /// For each row, whether it is valid.
    pub open spec fn valid_bits(&self) -> Seq<bool> {
        Seq::new(self.views@.len(), |i: int| is_valid_at(self.validity, i))
    }

    /// Checks that the chunk is well formed.
    pub fn is_wf(&self) -> (ok: bool)
        ensures
            ok == self.wf(),
    {
        if !covers(&self.validity, self.views.len()) {
            return false;
        }
        let mut i: usize = 0;
        while i < self.views.len()
            invariant
                validity_covers(self.validity, self.views@.len()),
                i <= self.views@.len(),
                forall|j: int|
                    0 <= j < i && is_valid_at(self.validity, j) ==> (#[trigger] self.views@[j]).fits_pool(
                        self.buffers@,
                    ),
            decreases self.views@.len() - i,
        {
            let view = self.views[i];
            if view.length > MAX_INLINE_SIZE && !is_null_at(&self.validity, i) {
                if view.buffer_idx as usize >= self.buffers.len() {
                    return false;
                }
                let room = self.buffers[view.buffer_idx as usize].len();
                if view.offset as u64 + view.length as u64 > room as u64 {
                    return false;
                }
            }
            i += 1;
        }
        true
    }

    /// The number of rows.
    pub fn len(&self) -> (n: usize)
        ensures
            n == self.views@.len(),
    {
        self.views.len()
    }

    /// Whether some row is null.
    pub fn has_nulls(&self) -> (nulls: bool)
        ensures
            nulls == some_null(self.validity),
    {
        has_null_bit(&self.validity)
    }

    /// Whether row `i` is null.
    pub fn is_null(&self, i: usize) -> (null: bool)
        requires
            self.wf(),
            i < self.views@.len(),
        ensures
            null == (self.slot(i as int) is None),
    {
        is_null_at(&self.validity, i)
    }
}

/// Chunks as chunks of rows.
pub open spec fn rows_of(chunks: Seq<BinaryViewArray>) -> Seq<Seq<Option<Slot>>> {
    Seq::new(chunks.len(), |c: int| chunks[c].slots())
}

/// A column of view-encoded values: a name, chunks, and the sortedness flag.
pub struct BinaryViewChunked {
    pub name: String,
    pub chunks: Vec<BinaryViewArray>,
    pub sorted: IsSorted,
}

impl BinaryViewChunked {
    /// Every chunk is well formed.
    pub open spec fn wf(&self) -> bool {
        forall|c: int| 0 <= c < self.chunks@.len() ==> (#[trigger] self.chunks@[c]).wf()
    }

    /// The column as chunks of rows.
    pub open spec fn rows(&self) -> Seq<Seq<Option<Slot>>> {
        rows_of(self.chunks@)
    }

    /// Whether some row of some chunk is null.
    pub open spec fn some_null(&self) -> bool {
        exists|c: int| 0 <= c < self.chunks@.len() && some_null((#[trigger] self.chunks@[c]).validity)
    }

    /// A column of the one chunk `array`, not known to be sorted.
    pub fn with_chunk(name: String, array: BinaryViewArray) -> (ca: BinaryViewChunked)
        ensures
            ca.name == name,
            ca.chunks@ == seq![array],
            ca.sorted == IsSorted::Not,
    {
        let mut chunks: Vec<BinaryViewArray> = Vec::with_capacity(1);
        chunks.push(array);
        BinaryViewChunked { name, chunks, sorted: IsSorted::Not }
    }

    /// The number of chunks.
    pub fn n_chunks(&self) -> (n: usize)
        ensures
            n == self.chunks@.len(),
    {
        self.chunks.len()
    }

    /// Checks that every chunk is well formed.
    pub fn is_wf(&self) -> (ok: bool)
        ensures
            ok == self.wf(),
    {
        let mut c: usize = 0;
        while c < self.chunks.len()
            invariant
                c <= self.chunks@.len(),
                forall|d: int| 0 <= d < c ==> (#[trigger] self.chunks@[d]).wf(),
            decreases self.chunks@.len() - c,
        {
            if !self.chunks[c].is_wf() {
                return false;
            }
            c += 1;
        }
        true
    }

    /// The number of rows of each chunk.
    pub fn chunk_lengths(&self) -> (lens: Vec<usize>)
        ensures
            lengths_of(self.rows(), lens@),
    {
        let mut lens: Vec<usize> = Vec::with_capacity(self.chunks.len());
        let mut c: usize = 0;
        while c < self.chunks.len()
            invariant
                c <= self.chunks@.len(),
                lens@.len() == c,
                forall|d: int| 0 <= d < c ==> (#[trigger] lens@[d]) == self.chunks@[d].views@.len(),
            decreases self.chunks@.len() - c,
        {
            lens.push(self.chunks[c].len());
            c += 1;
        }
        lens
    }

    /// Checks addresses against the rows of the column: whether each is null
    /// or names a row and, unless `allow_null`, none is null.
    pub fn can_take<const B: u64>(&self, by: &[ChunkId<B>], allow_null: bool) -> (ok: bool)
        requires
            B < 64,
        ensures
            ok == (all_in_bounds(self.rows(), decoded(by@)) && (allow_null || none_null(
                decoded(by@),
            ))),
    {
        let lens = self.chunk_lengths();
        proof {
            lemma_usable_in_bounds(self.rows(), lens@, decoded(by@), allow_null);
        }
        addresses_usable(&lens, by, allow_null)
    }

    /// Whether some row of some chunk is null.
    pub fn has_nulls(&self) -> (nulls: bool)
        ensures
            nulls == self.some_null(),
    {
        let mut c: usize = 0;
        while c < self.chunks.len()
            invariant
                c <= self.chunks@.len(),
                forall|d: int| 0 <= d < c ==> !some_null((#[trigger] self.chunks@[d]).validity),
            decreases self.chunks@.len() - c,
        {
            if self.chunks[c].has_nulls() {
                return true;
            }
            c += 1;
        }
        false
    }
}

/// The table knows exactly the buffers of the pool, each under its key and
/// with its position. So no two buffers of the pool have the same key.
pub open spec fn pool_indexed(table: Map<BufferKey, u32>, pool: Seq<SharedBuffer>) -> bool {
    &&& forall|p: int|
        0 <= p < pool.len() ==> table.contains_key((#[trigger] pool[p]).key()) && table[pool[p].key()] == p
    &&& forall|key: BufferKey| #[trigger]
        table.contains_key(key) ==> table[key] < pool.len() && pool[table[key] as int].key() == key
}

/// `longer` begins with the buffers of `pool`, in the same order.
pub open spec fn extends(pool: Seq<SharedBuffer>, longer: Seq<SharedBuffer>) -> bool {
    &&& pool.len() <= longer.len()
    &&& forall|p: int| 0 <= p < pool.len() ==> longer[p] == pool[p]
}

/// Whether row `k` of a gathered chunk is right: where the address is null or
/// names a null row, the row is null and its view zeroed; else the row is
/// valid, and its view, read against the new pool, denotes what the view of
/// the addressed row denotes in its own chunk.
pub open spec fn row_matches(
    chunks: Seq<BinaryViewArray>,
    address: Address,
    view: ViewDescriptor,
    pool: Seq<SharedBuffer>,
    valid: bool,
) -> bool {
    if picked_is_null(chunks, address) {
        !valid && view == ViewDescriptor::zeroed()
    } else {
        let (chunk, row) = address->0;
        let source = chunks[chunk as int];
        &&& valid
        &&& view.fits_pool(pool)
        &&& resolve(view, pool) == resolve(source.views@[row as int], source.buffers@)
    }
}

/// Whether the address is null or names a null row.
pub open spec fn picked_is_null(chunks: Seq<BinaryViewArray>, address: Address) -> bool {
    match address {
        None => true,
        Some((chunk, row)) => !is_valid_at(chunks[chunk as int].validity, row as int),
    }
}

/// Whether row `k` of a chunk gathered from the one chunk `arr` is right:
/// null and zeroed where the address is null or names a null row, else
/// valid, with the view of the addressed row as it is.
pub open spec fn row_copied(
    arr: BinaryViewArray,
    address: Address,
    view: ViewDescriptor,
    valid: bool,
) -> bool {
    match address {
        Some((chunk, row)) if is_valid_at(arr.validity, row as int) => valid && view
            == arr.views@[row as int],
        _ => !valid && view == ViewDescriptor::zeroed(),
    }
}

/// `rows` bits, all set.
pub open spec fn all_valid(rows: nat) -> Seq<bool> {
    Seq::new(rows, |k: int| true)
}

/// Whether some valid row has a view that points into buffer `p`.
pub open spec fn points_into(views: Seq<ViewDescriptor>, valid: Seq<bool>, p: int) -> bool {
    exists|k: int|
        0 <= k < views.len() && valid[k] && !(#[trigger] views[k]).is_inline() && views[k].buffer_idx
            == p
}

/// The pool holds no buffer twice and none that no valid row points into.
pub open spec fn pool_minimal(
    views: Seq<ViewDescriptor>,
    valid: Seq<bool>,
    pool: Seq<SharedBuffer>,
) -> bool {
    &&& forall|p: int, q: int|
        0 <= p < q < pool.len() ==> (#[trigger] pool[p]).key() != (#[trigger] pool[q]).key()
    &&& forall|p: int| 0 <= p < pool.len() ==> #[trigger] points_into(views, valid, p)
}

/// Whether `buffer` is one of the buffers of `chunks`.
pub open spec fn is_buffer_of(chunks: Seq<BinaryViewArray>, buffer: SharedBuffer) -> bool {
    exists|c: int, i: int|
        0 <= c < chunks.len() && 0 <= i < chunks[c].buffers@.len() && #[trigger] chunks[c].buffers@[i]
            == buffer
}

/// Every buffer of the pool is one of the buffers of `chunks`.
pub open spec fn drawn_from(pool: Seq<SharedBuffer>, chunks: Seq<BinaryViewArray>) -> bool {
    forall|p: int| 0 <= p < pool.len() ==> is_buffer_of(chunks, #[trigger] pool[p])
}

/// A view that can be read against a pool denotes the same against a pool
/// that begins with it.
pub proof fn lemma_resolve_extended(
    view: ViewDescriptor,
    pool: Seq<SharedBuffer>,
    longer: Seq<SharedBuffer>,
)
    requires
        view.fits_pool(pool),
        extends(pool, longer),
    ensures
        view.fits_pool(longer),
        resolve(view, longer) == resolve(view, pool),
{
}

/// Makes a view of one pool a view of another, taking the buffer that it
/// points into over into that pool unless a buffer with the same key is there
/// already. An inline view points into no buffer and is handed back as it is.
pub fn update_view(
    view: ViewDescriptor,
    orig_buffers: &Vec<SharedBuffer>,
    buffer_idxs: &mut BufferTable,
    buffers: &mut Vec<SharedBuffer>,
) -> (updated: ViewDescriptor)
    requires
        view.fits_pool(orig_buffers@),
        pool_indexed(table_entries(*old(buffer_idxs)), old(buffers)@),
        old(buffers)@.len() < u32::MAX,
    ensures
        pool_indexed(table_entries(*final(buffer_idxs)), final(buffers)@),
        updated.fits_pool(final(buffers)@),
        resolve(updated, final(buffers)@) == resolve(view, orig_buffers@),
        updated == (ViewDescriptor { buffer_idx: updated.buffer_idx, ..view }),
        view.is_inline() ==> updated == view,
        extends(old(buffers)@, final(buffers)@),
        final(buffers)@.len() <= old(buffers)@.len() + 1,
        final(buffers)@.len() > old(buffers)@.len() ==> updated.buffer_idx == old(buffers)@.len()
            && !updated.is_inline(),
        ({
            let key = orig_buffers@[view.buffer_idx as int].key();
            let known = table_entries(*old(buffer_idxs)).contains_key(key);
            if view.is_inline() || known {
                &&& final(buffers)@ == old(buffers)@
                &&& table_entries(*final(buffer_idxs)) == table_entries(*old(buffer_idxs))
            } else {
                &&& final(buffers)@ == old(buffers)@.push(orig_buffers@[view.buffer_idx as int])
                &&& updated.buffer_idx == old(buffers)@.len()
            }
        }),
{
    if view.length > MAX_INLINE_SIZE {
        let orig_buffer = &orig_buffers[view.buffer_idx as usize];
        let key = orig_buffer.key_of();
        let buffer_idx: u32 = match buffer_idxs.get(key) {
            Some(known) => known,
            None => {
                let buffer_idx: u32 = buffers.len() as u32;
                buffers.push(orig_buffer.share());
                buffer_idxs.insert(key, buffer_idx);
                buffer_idx
            },
        };
        ViewDescriptor { length: view.length, prefix: view.prefix, buffer_idx, offset: view.offset }
    } else {
        view
    }
}

/// The rows that `by` picks from the chunks of `ca`, for a column with null
/// rows or for addresses that may be null. Buffers are taken over into a
/// new pool, each once. `nulls` says whether `ca` may have a null row.
fn pool_views_masked<const B: u64>(
    ca: &BinaryViewChunked,
    by: &[ChunkId<B>],
    nulls: bool,
) -> (out: (Vec<ViewDescriptor>, Vec<SharedBuffer>, Bitmap))
    requires
        B < 64,
        ca.wf(),
        by@.len() <= u32::MAX,
        all_in_bounds(ca.rows(), decoded(by@)),
        !nulls ==> !ca.some_null(),
    ensures
        out.0@.len() == by@.len(),
        bitmap_bits(out.2).len() == by@.len(),
        forall|k: int|
            0 <= k < by@.len() ==> row_matches(
                ca.chunks@,
                #[trigger] decoded(by@)[k],
                out.0@[k],
                out.1@,
                bitmap_bits(out.2)[k],
            ),
        pool_minimal(out.0@, bitmap_bits(out.2), out.1@),
        drawn_from(out.1@, ca.chunks@),
{
    let mut views: Vec<ViewDescriptor> = Vec::with_capacity(by.len());
    let mut validity = BitmapBuilder::with_capacity(by.len());
    let mut buffer_idxs = BufferTable::new();
    let mut buffers: Vec<SharedBuffer> = Vec::with_capacity(8);
    let mut k: usize = 0;
    while k < by.len()
        invariant
            B < 64,
            ca.wf(),
            by@.len() <= u32::MAX,
            all_in_bounds(ca.rows(), decoded(by@)),
            !nulls ==> !ca.some_null(),
            k <= by@.len(),
            views@.len() == k,
            builder_bits(validity).len() == k,
            buffers@.len() <= k,
            pool_indexed(table_entries(buffer_idxs), buffers@),
            forall|j: int|
                0 <= j < k ==> row_matches(
                    ca.chunks@,
                    #[trigger] decoded(by@)[j],
                    views@[j],
                    buffers@,
                    builder_bits(validity)[j],
                ),
            forall|p: int|
                0 <= p < buffers@.len() ==> #[trigger] points_into(views@, builder_bits(validity), p),
            drawn_from(buffers@, ca.chunks@),
        decreases by@.len() - k,
    {
        let id = by[k];
        assert(in_bounds(ca.rows(), decoded(by@)[k as int]));
        let ghost old_views = views@;
        let ghost old_bits = builder_bits(validity);
        let ghost old_pool = buffers@;
        let mut null = id.is_null();
        if !null {
            let (chunk_idx, array_idx) = id.extract();
            let arr = &ca.chunks[chunk_idx as usize];
            if nulls {
                null = arr.is_null(array_idx as usize);
            }
            if !null {
                let view = arr.views[array_idx as usize];
                let updated = update_view(view, &arr.buffers, &mut buffer_idxs, &mut buffers);
                proof {
                    lemma_pool_stays_drawn(
                        old_pool,
                        buffers@,
                        ca.chunks@,
                        chunk_idx as int,
                        view.buffer_idx as int,
                    );
                }
                views.push(updated);
                validity.push(true);
            }
        }
        if null {
            views.push(ViewDescriptor::default());
            validity.push(false);
        }
        proof {
            let new_bits = builder_bits(validity);
            assert forall|j: int| 0 <= j < k + 1 implies row_matches(
                ca.chunks@,
                #[trigger] decoded(by@)[j],
                views@[j],
                buffers@,
                new_bits[j],
            ) by {
                if j < k {
                    assert(row_matches(ca.chunks@, decoded(by@)[j], old_views[j], old_pool, old_bits[j]));
                    lemma_resolve_extended(old_views[j], old_pool, buffers@);
                }
            }
            assert forall|p: int| 0 <= p < buffers@.len() implies #[trigger] points_into(
                views@,
                new_bits,
                p,
            ) by {
                if p < old_pool.len() {
                    assert(points_into(old_views, old_bits, p));
                    let w = choose|w: int|
                        0 <= w < old_views.len() && old_bits[w] && !(#[trigger] old_views[w]).is_inline()
                            && old_views[w].buffer_idx == p;
                    assert(views@[w] == old_views[w]);
                }
            }
        }
        k += 1;
    }
    proof {
        lemma_indexed_pool_distinct(table_entries(buffer_idxs), buffers@);
    }
    (views, buffers, validity.freeze())
}

/// A pool drawn from `chunks` stays so when nothing or one of their buffers
/// is appended.
proof fn lemma_pool_stays_drawn(
    pool: Seq<SharedBuffer>,
    longer: Seq<SharedBuffer>,
    chunks: Seq<BinaryViewArray>,
    chunk: int,
    buffer: int,
)
    requires
        drawn_from(pool, chunks),
        longer == pool || (0 <= chunk < chunks.len() && 0 <= buffer < chunks[chunk].buffers@.len()
            && longer == pool.push(chunks[chunk].buffers@[buffer])),
    ensures
        drawn_from(longer, chunks),
{
}

/// The pool of a chunk is drawn from the chunks that the chunk is one of.
proof fn lemma_own_pool_drawn(chunks: Seq<BinaryViewArray>, chunk: int)
    requires
        0 <= chunk < chunks.len(),
    ensures
        drawn_from(chunks[chunk].buffers@, chunks),
{
}

/// A pool that a table knows as `pool_indexed` says holds no key twice.
pub proof fn lemma_indexed_pool_distinct(table: Map<BufferKey, u32>, pool: Seq<SharedBuffer>)
    requires
        pool_indexed(table, pool),
    ensures
        forall|p: int, q: int|
            0 <= p < q < pool.len() ==> (#[trigger] pool[p]).key() != (#[trigger] pool[q]).key(),
{
}

/// As `pool_views_masked`, for a column without a null row and addresses
/// without a null address: every row is valid and no validity is built.
fn pool_views_plain<const B: u64>(
    ca: &BinaryViewChunked,
    by: &[ChunkId<B>],
) -> (out: (Vec<ViewDescriptor>, Vec<SharedBuffer>))
    requires
        B < 64,
        ca.wf(),
        by@.len() <= u32::MAX,
        all_in_bounds(ca.rows(), decoded(by@)),
        none_null(decoded(by@)),
        !ca.some_null(),
    ensures
        out.0@.len() == by@.len(),
        forall|k: int|
            0 <= k < by@.len() ==> row_matches(
                ca.chunks@,
                #[trigger] decoded(by@)[k],
                out.0@[k],
                out.1@,
                true,
            ),
        pool_minimal(out.0@, all_valid(by@.len()), out.1@),
        drawn_from(out.1@, ca.chunks@),
{
    let mut views: Vec<ViewDescriptor> = Vec::with_capacity(by.len());
    let mut buffer_idxs = BufferTable::new();
    let mut buffers: Vec<SharedBuffer> = Vec::with_capacity(8);
    let mut k: usize = 0;
    while k < by.len()
        invariant
            B < 64,
            ca.wf(),
            by@.len() <= u32::MAX,
            all_in_bounds(ca.rows(), decoded(by@)),
            none_null(decoded(by@)),
            !ca.some_null(),
            k <= by@.len(),
            views@.len() == k,
            buffers@.len() <= k,
            pool_indexed(table_entries(buffer_idxs), buffers@),
            forall|j: int|
                0 <= j < k ==> row_matches(
                    ca.chunks@,
                    #[trigger] decoded(by@)[j],
                    views@[j],
                    buffers@,
                    true,
                ),
            forall|p: int|
                0 <= p < buffers@.len() ==> #[trigger] points_into(views@, all_valid(by@.len()), p),
            drawn_from(buffers@, ca.chunks@),
        decreases by@.len() - k,
    {
        let id = by[k];
        assert(in_bounds(ca.rows(), decoded(by@)[k as int]));
        let ghost old_views = views@;
        let ghost old_pool = buffers@;
        let (chunk_idx, array_idx) = id.extract();
        let arr = &ca.chunks[chunk_idx as usize];
        let view = arr.views[array_idx as usize];
        let updated = update_view(view, &arr.buffers, &mut buffer_idxs, &mut buffers);
        views.push(updated);
        proof {
            lemma_pool_stays_drawn(
                old_pool,
                buffers@,
                ca.chunks@,
                chunk_idx as int,
                view.buffer_idx as int,
            );
            assert forall|j: int| 0 <= j < k + 1 implies row_matches(
                ca.chunks@,
                #[trigger] decoded(by@)[j],
                views@[j],
                buffers@,
                true,
            ) by {
                if j < k {
                    assert(row_matches(ca.chunks@, decoded(by@)[j], old_views[j], old_pool, true));
                    lemma_resolve_extended(old_views[j], old_pool, buffers@);
                }
            }
            assert forall|p: int| 0 <= p < buffers@.len() implies #[trigger] points_into(
                views@,
                all_valid(by@.len()),
                p,
            ) by {
                if p < old_pool.len() {
                    assert(points_into(old_views, all_valid(by@.len()), p));
                    let w = choose|w: int|
                        0 <= w < old_views.len() && all_valid(by@.len())[w] && !(
                        #[trigger] old_views[w]).is_inline() && old_views[w].buffer_idx == p;
                    assert(views@[w] == old_views[w]);
                }
            }
        }
        k += 1;
    }
    proof {
        lemma_indexed_pool_distinct(table_entries(buffer_idxs), buffers@);
    }
    (views, buffers)
}

/// The rows that `by` picks from the one chunk `arr`, for a chunk with null
/// rows or for addresses that may be null. The views are copied as they are:
/// they stay views into the pool of `arr`. `nulls` says whether `arr` may
/// have a null row.
fn copy_views_masked<const B: u64>(
    arr: &BinaryViewArray,
    by: &[ChunkId<B>],
    nulls: bool,
) -> (out: (Vec<ViewDescriptor>, Bitmap))
    requires
        B < 64,
        arr.wf(),
        all_in_bounds(rows_of(seq![*arr]), decoded(by@)),
        !nulls ==> !some_null(arr.validity),
    ensures
        out.0@.len() == by@.len(),
        bitmap_bits(out.1).len() == by@.len(),
        forall|k: int|
            0 <= k < by@.len() ==> row_copied(
                *arr,
                #[trigger] decoded(by@)[k],
                out.0@[k],
                bitmap_bits(out.1)[k],
            ),
{
    let mut views: Vec<ViewDescriptor> = Vec::with_capacity(by.len());
    let mut validity = BitmapBuilder::with_capacity(by.len());
    let mut k: usize = 0;
    while k < by.len()
        invariant
            B < 64,
            arr.wf(),
            all_in_bounds(rows_of(seq![*arr]), decoded(by@)),
            !nulls ==> !some_null(arr.validity),
            k <= by@.len(),
            views@.len() == k,
            builder_bits(validity).len() == k,
            forall|j: int|
                0 <= j < k ==> row_copied(
                    *arr,
                    #[trigger] decoded(by@)[j],
                    views@[j],
                    builder_bits(validity)[j],
                ),
        decreases by@.len() - k,
    {
        let id = by[k];
        assert(in_bounds(rows_of(seq![*arr]), decoded(by@)[k as int]));
        let mut null = id.is_null();
        if !null {
            let (chunk_idx, array_idx) = id.extract();
            if nulls {
                null = arr.is_null(array_idx as usize);
            }
            if !null {
                views.push(arr.views[array_idx as usize]);
                validity.push(true);
            }
        }
        if null {
            views.push(ViewDescriptor::default());
            validity.push(false);
        }
        k += 1;
    }
    (views, validity.freeze())
}

/// As `copy_views_masked`, for a chunk without a null row and addresses
/// without a null address.
fn copy_views_plain<const B: u64>(
    arr: &BinaryViewArray,
    by: &[ChunkId<B>],
) -> (views: Vec<ViewDescriptor>)
    requires
        B < 64,
        arr.wf(),
        all_in_bounds(rows_of(seq![*arr]), decoded(by@)),
        none_null(decoded(by@)),
        !some_null(arr.validity),
    ensures
        views@.len() == by@.len(),
        forall|k: int|
            0 <= k < by@.len() ==> row_copied(*arr, #[trigger] decoded(by@)[k], views@[k], true),
{
    let mut views: Vec<ViewDescriptor> = Vec::with_capacity(by.len());
    let mut k: usize = 0;
    while k < by.len()
        invariant
            B < 64,
            arr.wf(),
            all_in_bounds(rows_of(seq![*arr]), decoded(by@)),
            none_null(decoded(by@)),
            !some_null(arr.validity),
            k <= by@.len(),
            views@.len() == k,
            forall|j: int|
                0 <= j < k ==> row_copied(*arr, #[trigger] decoded(by@)[j], views@[j], true),
        decreases by@.len() - k,
    {
        let id = by[k];
        assert(in_bounds(rows_of(seq![*arr]), decoded(by@)[k as int]));
        let (chunk_idx, array_idx) = id.extract();
        views.push(arr.views[array_idx as usize]);
        k += 1;
    }
    views
}

/// `<Arc<_> as Clone>::clone` of std: a second handle on the same pool.
#[verifier::external_body]
fn share_pool(pool: &Arc<Vec<SharedBuffer>>) -> (shared: Arc<Vec<SharedBuffer>>)
    ensures
        shared == *pool,
{
    pool.clone()
}

/// What a chunk gathered from `chunks` by `by` owes: it is well formed, its
/// rows are the rows that the addresses pick, and its null rows hold the
/// zeroed view.
pub open spec fn is_gather_of(
    out: BinaryViewArray,
    chunks: Seq<BinaryViewArray>,
    by: Seq<Address>,
) -> bool {
    &&& out.wf()
    &&& out.slots() == gathered(rows_of(chunks), by)
    &&& forall|k: int|
        0 <= k < by.len() && !is_valid_at(out.validity, k) ==> #[trigger] out.views@[k]
            == ViewDescriptor::zeroed()
}

/// A chunk whose rows all match is a gather.
pub proof fn lemma_matching_rows_gather(
    out: BinaryViewArray,
    chunks: Seq<BinaryViewArray>,
    by: Seq<Address>,
)
    requires
        all_in_bounds(rows_of(chunks), by),
        out.views@.len() == by.len(),
        validity_covers(out.validity, by.len()),
        forall|k: int|
            0 <= k < by.len() ==> row_matches(
                chunks,
                #[trigger] by[k],
                out.views@[k],
                out.buffers@,
                is_valid_at(out.validity, k),
            ),
    ensures
        is_gather_of(out, chunks, by),
{
    let rows = rows_of(chunks);
    assert forall|k: int| 0 <= k < by.len() implies out.slots()[k] == gathered(rows, by)[k]
        && (is_valid_at(out.validity, k) ==> out.views@[k].fits_pool(out.buffers@)) && (
    !is_valid_at(out.validity, k) ==> out.views@[k] == ViewDescriptor::zeroed()) by {
        assert(in_bounds(rows, by[k]));
    }
    assert(out.slots() =~= gathered(rows, by));
}

/// The fast path: gathers from the one chunk `arr`. The new chunk shares the
/// whole pool of `arr` and its views are copies. With `opt` the addresses may
/// hold the null address, and the new chunk has a validity in any case.
pub fn gather_single_chunk<const B: u64>(
    arr: &BinaryViewArray,
    by: &[ChunkId<B>],
    opt: bool,
) -> (out: BinaryViewArray)
    requires
        B < 64,
        arr.wf(),
        all_in_bounds(rows_of(seq![*arr]), decoded(by@)),
        !opt ==> none_null(decoded(by@)),
    ensures
        is_gather_of(out, seq![*arr], decoded(by@)),
        out.views@.len() == by@.len(),
        out.buffers@ == arr.buffers@,
        out.validity is Some <==> opt || some_null(arr.validity),
        forall|k: int|
            0 <= k < by@.len() ==> row_copied(
                *arr,
                #[trigger] decoded(by@)[k],
                out.views@[k],
                is_valid_at(out.validity, k),
            ),
{
    let nulls = arr.has_nulls();
    let buffers = share_pool(&arr.buffers);
    let out = if opt || nulls {
        let (views, validity) = copy_views_masked(arr, by, nulls);
        BinaryViewArray { views, buffers, validity: Some(validity) }
    } else {
        let views = copy_views_plain(arr, by);
        BinaryViewArray { views, buffers, validity: None }
    };
    proof {
        let chunks = seq![*arr];
        let addresses = decoded(by@);
        assert forall|k: int| 0 <= k < addresses.len() implies row_matches(
            chunks,
            #[trigger] addresses[k],
            out.views@[k],
            out.buffers@,
            is_valid_at(out.validity, k),
        ) by {
            assert(row_copied(*arr, addresses[k], out.views@[k], is_valid_at(out.validity, k)));
        }
        lemma_matching_rows_gather(out, chunks, addresses);
    }
    out
}

/// The general path: gathers from the chunks of `ca`, whatever their number.
/// The pool of the new chunk holds the buffers that its valid rows point
/// into, each once, and no other. With `opt` the addresses may hold the null
/// address, and the new chunk has a validity in any case.
pub fn gather_many_chunks<const B: u64>(
    ca: &BinaryViewChunked,
    by: &[ChunkId<B>],
    opt: bool,
) -> (out: BinaryViewArray)
    requires
        B < 64,
        ca.wf(),
        by@.len() <= u32::MAX,
        all_in_bounds(ca.rows(), decoded(by@)),
        !opt ==> none_null(decoded(by@)),
    ensures
        is_gather_of(out, ca.chunks@, decoded(by@)),
        out.views@.len() == by@.len(),
        pool_minimal(out.views@, out.valid_bits(), out.buffers@),
        drawn_from(out.buffers@, ca.chunks@),
        out.validity is Some <==> opt || ca.some_null(),
{
    let nulls = ca.has_nulls();
    let out = if opt || nulls {
        let (views, buffers, validity) = pool_views_masked(ca, by, nulls);
        BinaryViewArray { views, buffers: Arc::new(buffers), validity: Some(validity) }
    } else {
        let (views, buffers) = pool_views_plain(ca, by);
        BinaryViewArray { views, buffers: Arc::new(buffers), validity: None }
    };
    proof {
        assert(out.valid_bits() =~= match out.validity {
            Some(bitmap) => bitmap_bits(bitmap),
            None => all_valid(by@.len()),
        });
        lemma_matching_rows_gather(out, ca.chunks@, decoded(by@));
    }
    out
}

/// Gathers the rows that `by` names into a column of one chunk.
///
/// No address may be null, and each must name a row that `ca` has. A column
/// of one chunk hands its pool on as it is; of a column of several chunks
/// only the buffers that are pointed into are kept, each once.
pub fn take_unchecked_binview<const B: u64>(
    ca: &BinaryViewChunked,
    by: &[ChunkId<B>],
    sorted: IsSorted,
) -> (out: BinaryViewChunked)
    requires
        B < 64,
        ca.wf(),
        by@.len() <= u32::MAX,
        all_in_bounds(ca.rows(), decoded(by@)),
        none_null(decoded(by@)),
    ensures
        out.wf(),
        out.name == ca.name,
        out.sorted == gather_sorted_flag(ca.sorted, sorted),
        out.chunks@.len() == 1,
        out.rows() == seq![gathered(ca.rows(), decoded(by@))],
        is_gather_of(out.chunks@[0], ca.chunks@, decoded(by@)),
        out.chunks@[0].validity is Some <==> ca.some_null(),
        drawn_from(out.chunks@[0].buffers@, ca.chunks@),
        ca.chunks@.len() == 1 ==> out.chunks@[0].buffers@ == ca.chunks@[0].buffers@,
        ca.chunks@.len() != 1 ==> pool_minimal(
            out.chunks@[0].views@,
            out.chunks@[0].valid_bits(),
            out.chunks@[0].buffers@,
        ),
{
    let arr = if ca.n_chunks() == 1 {
        assert(ca.chunks@ == seq![ca.chunks@[0]]);
        let arr = gather_single_chunk(&ca.chunks[0], by, false);
        assert(drawn_from(arr.buffers@, ca.chunks@)) by {
            lemma_own_pool_drawn(ca.chunks@, 0);
        }
        arr
    } else {
        gather_many_chunks(ca, by, false)
    };
    let mut out = BinaryViewChunked::with_chunk(ca.name.clone(), arr);
    out.sorted = update_gather_sorted_flag(ca.sorted, sorted);
    out
}

/// Gathers the rows that `by` names into a column of one chunk, with a null
/// row for each null address.
///
/// Each address that is not null must name a row that `ca` has. The new
/// column always has a validity and is not flagged as sorted.
pub fn take_unchecked_binview_opt<const B: u64>(
    ca: &BinaryViewChunked,
    by: &[ChunkId<B>],
) -> (out: BinaryViewChunked)
    requires
        B < 64,
        ca.wf(),
        by@.len() <= u32::MAX,
        all_in_bounds(ca.rows(), decoded(by@)),
    ensures
        out.wf(),
        out.name == ca.name,
        out.sorted == IsSorted::Not,
        out.chunks@.len() == 1,
        out.rows() == seq![gathered(ca.rows(), decoded(by@))],
        is_gather_of(out.chunks@[0], ca.chunks@, decoded(by@)),
        out.chunks@[0].validity is Some,
        drawn_from(out.chunks@[0].buffers@, ca.chunks@),
        ca.chunks@.len() == 1 ==> out.chunks@[0].buffers@ == ca.chunks@[0].buffers@,
        ca.chunks@.len() != 1 ==> pool_minimal(
            out.chunks@[0].views@,
            out.chunks@[0].valid_bits(),
            out.chunks@[0].buffers@,
        ),
{
    let arr = if ca.n_chunks() == 1 {
        assert(ca.chunks@ == seq![ca.chunks@[0]]);
        let arr = gather_single_chunk(&ca.chunks[0], by, true);
        assert(drawn_from(arr.buffers@, ca.chunks@)) by {
            lemma_own_pool_drawn(ca.chunks@, 0);
        }
        arr
    } else {
        gather_many_chunks(ca, by, true)
    };
    let out = BinaryViewChunked::with_chunk(ca.name.clone(), arr);
    out
}

/// The key of the buffer that a row lies in, where it lies in one.
pub open spec fn stored_in(slot: Option<Slot>) -> Option<BufferKey> {
    match slot {
        Some(Slot::Stored { buffer, .. }) => Some(buffer),
        _ => None,
    }
}

/// As `take_unchecked_binview`, for any input: `None` where an address is null
/// or names no row, where the column is not well formed, where there are more
/// addresses than a `u32` counts, or where the address width is not below 64.
pub fn take_binview<const B: u64>(
    ca: &BinaryViewChunked,
    by: &[ChunkId<B>],
    sorted: IsSorted,
) -> (out: Option<BinaryViewChunked>)
    ensures
        out is Some <==> B < 64 && ca.wf() && by@.len() <= u32::MAX && all_in_bounds(
            ca.rows(),
            decoded(by@),
        ) && none_null(decoded(by@)),
        out matches Some(taken) ==> taken.wf() && taken.name == ca.name && taken.sorted
            == gather_sorted_flag(ca.sorted, sorted) && taken.chunks@.len() == 1 && taken.rows()
            == seq![gathered(ca.rows(), decoded(by@))],
{
    if B < 64 && by.len() <= u32::MAX as usize && ca.is_wf() && ca.can_take(by, false) {
        Some(take_unchecked_binview(ca, by, sorted))
    } else {
        None
    }
}

/// As `take_unchecked_binview_opt`, for any input: `None` where an address
/// that is not null names no row, where the column is not well formed, where
/// there are more addresses than a `u32` counts, or where the address width is
/// not below 64.
pub fn take_binview_opt<const B: u64>(
    ca: &BinaryViewChunked,
    by: &[ChunkId<B>],
) -> (out: Option<BinaryViewChunked>)
    ensures
        out is Some <==> B < 64 && ca.wf() && by@.len() <= u32::MAX && all_in_bounds(
            ca.rows(),
            decoded(by@),
        ),
        out matches Some(taken) ==> taken.wf() && taken.name == ca.name && taken.sorted
            == IsSorted::Not && taken.chunks@.len() == 1 && taken.rows()
            == seq![gathered(ca.rows(), decoded(by@))],
{
    if B < 64 && by.len() <= u32::MAX as usize && ca.is_wf() && ca.can_take(by, true) {
        Some(take_unchecked_binview_opt(ca, by))
    } else {
        None
    }
}

/// Byte `i` of an inline value: the twelve bytes behind the length are the
/// three fields `prefix`, `buffer_idx` and `offset`, each with its low byte
/// first.
pub open spec fn inline_byte(view: ViewDescriptor, i: int) -> u8 {
    let word = if i < 4 {
        view.prefix
    } else if i < 8 {
        view.buffer_idx
    } else {
        view.offset
    };
    ((word >> ((8 * (i % 4)) as u32)) & 0xff) as u8
}

/// The bytes of the value that `view` denotes when read against `pool`.
pub open spec fn value_bytes(view: ViewDescriptor, pool: Seq<SharedBuffer>) -> Seq<u8> {
    if view.is_inline() {
        Seq::new(view.length as nat, |i: int| inline_byte(view, i))
    } else {
        buffer_bytes(pool[view.buffer_idx as int].storage()).subrange(
            view.offset as int,
            view.offset + view.length,
        )
    }
}

/// Whether the key of a buffer of `chunks` tells its bytes: two buffers with
/// the same key hold the same bytes. It holds wherever keys are taken from
/// where the bytes lie.
pub open spec fn keys_tell_bytes(chunks: Seq<BinaryViewArray>) -> bool {
    forall|a: SharedBuffer, b: SharedBuffer|
        #[trigger] is_buffer_of(chunks, a) && #[trigger] is_buffer_of(chunks, b) && a.key() == b.key()
            ==> buffer_bytes(a.storage()) == buffer_bytes(b.storage())
}

/// Where keys tell bytes, a gathered row holds the bytes of the row that its
/// address names.
pub proof fn lemma_gathered_bytes(
    chunks: Seq<BinaryViewArray>,
    by: Seq<Address>,
    out: BinaryViewArray,
    k: int,
)
    requires
        forall|c: int| 0 <= c < chunks.len() ==> (#[trigger] chunks[c]).wf(),
        all_in_bounds(rows_of(chunks), by),
        is_gather_of(out, chunks, by),
        drawn_from(out.buffers@, chunks),
        keys_tell_bytes(chunks),
        0 <= k < by.len(),
        is_valid_at(out.validity, k),
    ensures
        by[k] is Some,
        ({
            let (chunk, row) = by[k]->0;
            &&& is_valid_at(chunks[chunk as int].validity, row as int)
            &&& value_bytes(out.views@[k], out.buffers@) == value_bytes(
                chunks[chunk as int].views@[row as int],
                chunks[chunk as int].buffers@,
            )
        }),
{
    let rows = rows_of(chunks);
    assert(out.slots().len() == gathered(rows, by).len());
    assert(out.slots()[k] == gathered(rows, by)[k]);
    let (chunk, row) = by[k]->0;
    let source = chunks[chunk as int];
    let taken = out.views@[k];
    let view = source.views@[row as int];
    if !taken.is_inline() {
        let kept = out.buffers@[taken.buffer_idx as int];
        let held = source.buffers@[view.buffer_idx as int];
        assert(is_buffer_of(chunks, held));
    }
}

/// The keys of the buffers that some valid row of `arr` lies in.
pub open spec fn referenced_keys(arr: BinaryViewArray) -> Set<BufferKey> {
    Set::new(
        |key: BufferKey|
            exists|i: int|
                0 <= i < arr.views@.len() && stored_in(#[trigger] arr.slot(i)) == Some(key),
    )
}

/// A minimal pool holds as many buffers as there are different buffers that
/// some valid row lies in: no buffer is kept twice, and none that no row
/// needs.
pub proof fn lemma_minimal_pool_count(arr: BinaryViewArray)
    requires
        arr.wf(),
        pool_minimal(arr.views@, arr.valid_bits(), arr.buffers@),
    ensures
        referenced_keys(arr).finite(),
        arr.buffers@.len() == referenced_keys(arr).len(),
{
    let pool = arr.buffers@;
    let keys = Seq::new(pool.len(), |p: int| pool[p].key());
    keys.unique_seq_to_set();
    assert forall|key: BufferKey| keys.to_set().contains(key) implies referenced_keys(arr).contains(
        key,
    ) by {
        let p = choose|p: int| 0 <= p < keys.len() && keys[p] == key;
        assert(points_into(arr.views@, arr.valid_bits(), p));
        let i = choose|i: int|
            0 <= i < arr.views@.len() && arr.valid_bits()[i] && !(#[trigger] arr.views@[i]).is_inline()
                && arr.views@[i].buffer_idx == p;
        assert(stored_in(arr.slot(i)) == Some(key));
    }
    assert forall|key: BufferKey| referenced_keys(arr).contains(key) implies keys.to_set().contains(
        key,
    ) by {
        let i = choose|i: int|
            0 <= i < arr.views@.len() && stored_in(#[trigger] arr.slot(i)) == Some(key);
        let p = arr.views@[i].buffer_idx as int;
        assert(keys[p] == key);
    }
    assert(keys.to_set() =~= referenced_keys(arr));
}

/// The fast path and the general path agree: of a column of one chunk both
/// give the same rows, and in both a null row holds the zeroed view.
pub proof fn lemma_paths_agree(
    arr: BinaryViewArray,
    by: Seq<Address>,
    fast: BinaryViewArray,
    general: BinaryViewArray,
)
    requires
        is_gather_of(fast, seq![arr], by),
        is_gather_of(general, seq![arr], by),
    ensures
        fast.slots() == general.slots(),
        fast.views@.len() == general.views@.len(),
        forall|k: int|
            0 <= k < by.len() ==> is_valid_at(fast.validity, k) == is_valid_at(general.validity, k),
        forall|k: int|
            0 <= k < by.len() && !is_valid_at(fast.validity, k) ==> fast.views@[k]
                == general.views@[k],
{
    assert(fast.slots().len() == general.slots().len());
    assert forall|k: int| 0 <= k < by.len() implies is_valid_at(fast.validity, k) == is_valid_at(
        general.validity,
        k,
    ) by {
        assert(fast.slots()[k] == general.slots()[k]);
    }
}

} // verus!
