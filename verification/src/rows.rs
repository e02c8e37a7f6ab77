//! The logical content of a chunked column, and what a gather makes of it.
//!
//! A column is a sequence of chunks and a chunk a sequence of rows. A row is
//! `None` where it is null. Contracts speak of columns in this form.
use crate::chunk_id::ChunkId;
use vstd::prelude::*;

verus! {

/// A decoded address: `None` for the null address, else chunk and row.
pub type Address = Option<(u32, u32)>;

/// The addresses that a list of packed addresses stands for.
pub open spec fn decoded<const B: u64>(by: Seq<ChunkId<B>>) -> Seq<Address> {
    Seq::new(by.len(), |k: int| by[k]@)
}

/// Whether an address is null or names a row that `rows` has.
pub open spec fn in_bounds<V>(rows: Seq<Seq<V>>, address: Address) -> bool {
    match address {
        None => true,
        Some((chunk, row)) => chunk < rows.len() && row < rows[chunk as int].len(),
    }
}

/// Whether every address of `by` is null or names a row that `rows` has.
pub open spec fn all_in_bounds<V>(rows: Seq<Seq<V>>, by: Seq<Address>) -> bool {
    forall|k: int| 0 <= k < by.len() ==> in_bounds(rows, #[trigger] by[k])
}

/// Whether no address of `by` is null.
pub open spec fn none_null(by: Seq<Address>) -> bool {
    forall|k: int| 0 <= k < by.len() ==> (#[trigger] by[k]) is Some
}

/// The row that an address picks: null for the null address.
pub open spec fn picked<V>(rows: Seq<Seq<Option<V>>>, address: Address) -> Option<V> {
    match address {
        None => None,
        Some((chunk, row)) => rows[chunk as int][row as int],
    }
}

/// The rows that a list of addresses picks, in the order of the list.
pub open spec fn gathered<V>(rows: Seq<Seq<Option<V>>>, by: Seq<Address>) -> Seq<Option<V>> {
    Seq::new(by.len(), |k: int| picked(rows, by[k]))
}

/// The number of rows in the chunks before chunk `chunk`.
pub open spec fn chunk_start<V>(rows: Seq<Seq<V>>, chunk: int) -> int
    decreases chunk,
{
    if chunk <= 0 {
        0
    } else {
        chunk_start(rows, chunk - 1) + rows[chunk - 1].len()
    }
}

/// The chunks laid end to end: the column as one chunk.
pub open spec fn flattened<V>(rows: Seq<Seq<V>>) -> Seq<V>
    decreases rows.len(),
{
    if rows.len() == 0 {
        Seq::empty()
    } else {
        flattened(rows.drop_last()) + rows.last()
    }
}

/// The addresses of all rows of `rows`, chunk by chunk and row by row.
pub open spec fn identity_addresses<V>(rows: Seq<Seq<V>>) -> Seq<Address>
    decreases rows.len(),
{
    if rows.len() == 0 {
        Seq::empty()
    } else {
        identity_addresses(rows.drop_last()) + Seq::new(
            rows.last().len(),
            |row: int| Some(((rows.len() - 1) as u32, row as u32)),
        )
    }
}

/// The flattened column has the rows of all chunks, and row `row` of chunk
/// `chunk` stands in it at `chunk_start(rows, chunk) + row`.
pub proof fn lemma_flattened_index<V>(rows: Seq<Seq<V>>, chunk: int, row: int)
    requires
        0 <= chunk < rows.len(),
        0 <= row < rows[chunk].len(),
    ensures
        flattened(rows).len() == chunk_start(rows, rows.len() as int),
        0 <= chunk_start(rows, chunk),
        chunk_start(rows, chunk) + row < flattened(rows).len(),
        flattened(rows)[chunk_start(rows, chunk) + row] == rows[chunk][row],
    decreases rows.len(),
{
    let front = rows.drop_last();
    let last = rows.len() - 1;
    lemma_flattened_len(front);
    lemma_chunk_start_prefix(rows, front, last);
    if chunk < last {
        lemma_flattened_index(front, chunk, row);
        lemma_chunk_start_prefix(rows, front, chunk);
    } else {
        lemma_chunk_start_nonnegative(rows, chunk);
    }
}

/// The flattened column is as long as all chunks together.
pub proof fn lemma_flattened_len<V>(rows: Seq<Seq<V>>)
    ensures
        flattened(rows).len() == chunk_start(rows, rows.len() as int),
    decreases rows.len(),
{
    if rows.len() > 0 {
        let front = rows.drop_last();
        lemma_flattened_len(front);
        lemma_chunk_start_prefix(rows, front, rows.len() - 1);
    }
}

/// Where the row that an address names stands in the flattened column.
/// `None` for the null address.
pub open spec fn flat_position<V>(rows: Seq<Seq<V>>, address: Address) -> Option<int> {
    match address {
        None => None,
        Some((chunk, row)) => Some(chunk_start(rows, chunk as int) + row),
    }
}

/// The positions in the flattened column of the rows that `by` names.
pub open spec fn flat_positions<V>(rows: Seq<Seq<V>>, by: Seq<Address>) -> Seq<Option<int>> {
    Seq::new(by.len(), |k: int| flat_position(rows, by[k]))
}

/// The plain take by position from a column of one chunk: the row at each
/// position, and a null row where there is no position.
pub open spec fn flat_take<V>(flat: Seq<Option<V>>, positions: Seq<Option<int>>) -> Seq<Option<V>> {
    Seq::new(
        positions.len(),
        |k: int|
            match positions[k] {
                None => None,
                Some(position) => flat[position],
            },
    )
}

/// A column of one chunk, flattened, is that chunk.
pub proof fn lemma_one_chunk_flattened<V>(chunk: Seq<V>)
    ensures
        flattened(seq![chunk]) == chunk,
{
    assert(flattened(seq![chunk].drop_last()) =~= Seq::<V>::empty());
}

/// Whether `position` is a position of `flat` and `row` the row there.
pub open spec fn has_row_at<V>(
    flat: Seq<Option<V>>,
    position: Option<int>,
    row: Option<V>,
) -> bool {
    match position {
        None => false,
        Some(p) => 0 <= p < flat.len() && flat[p] == row,
    }
}

/// A gather by addresses without a null address is the plain take from the
/// flattened column: every address has a position in it, and the gathered
/// rows are the rows at these positions, in the order of the addresses.
pub proof fn lemma_gather_is_flat_take<V>(rows: Seq<Seq<Option<V>>>, by: Seq<Address>)
    requires
        all_in_bounds(rows, by),
        none_null(by),
    ensures
        forall|k: int|
            0 <= k < by.len() ==> has_row_at(
                flattened(rows),
                #[trigger] flat_positions(rows, by)[k],
                gathered(rows, by)[k],
            ),
        gathered(rows, by) == flat_take(flattened(rows), flat_positions(rows, by)),
        flattened(seq![gathered(rows, by)]) == flat_take(flattened(rows), flat_positions(rows, by)),
{
    lemma_gather_opt_is_flat_take(rows, by);
    assert forall|k: int| 0 <= k < by.len() implies has_row_at(
        flattened(rows),
        #[trigger] flat_positions(rows, by)[k],
        gathered(rows, by)[k],
    ) by {
        let (chunk, row) = by[k]->0;
        lemma_flattened_index(rows, chunk as int, row as int);
    }
}

/// A gather by addresses that may be null is the plain take from the
/// flattened column with a null row at each null address. A row that is null
/// in the column is null where it is gathered.
pub proof fn lemma_gather_opt_is_flat_take<V>(rows: Seq<Seq<Option<V>>>, by: Seq<Address>)
    requires
        all_in_bounds(rows, by),
    ensures
        gathered(rows, by) == flat_take(flattened(rows), flat_positions(rows, by)),
        flattened(seq![gathered(rows, by)]) == flat_take(flattened(rows), flat_positions(rows, by)),
        forall|k: int| 0 <= k < by.len() && (#[trigger] by[k]) is None ==> gathered(rows, by)[k] is None,
        forall|k: int|
            0 <= k < by.len() ==> ((#[trigger] flat_positions(rows, by)[k]) matches Some(position)
                ==> 0 <= position < flattened(rows).len()),
{
    let taken = flat_take(flattened(rows), flat_positions(rows, by));
    assert forall|k: int| 0 <= k < by.len() implies gathered(rows, by)[k] == taken[k] && ((
    #[trigger] flat_positions(rows, by)[k]) matches Some(position) ==> 0 <= position < flattened(
        rows,
    ).len()) by {
        if let Some((chunk, row)) = by[k] {
            lemma_flattened_index(rows, chunk as int, row as int);
        }
    }
    lemma_one_chunk_flattened(gathered(rows, by));
}

/// Gathering by the addresses of all rows, in their order, gives the column
/// back as one chunk.
pub proof fn lemma_identity_gather<V>(rows: Seq<Seq<Option<V>>>)
    requires
        rows.len() <= u32::MAX,
        forall|c: int| 0 <= c < rows.len() ==> (#[trigger] rows[c]).len() <= u32::MAX,
    ensures
        all_in_bounds(rows, identity_addresses(rows)),
        none_null(identity_addresses(rows)),
        gathered(rows, identity_addresses(rows)) == flattened(rows),
        flattened(seq![gathered(rows, identity_addresses(rows))]) == flattened(rows),
    decreases rows.len(),
{
    lemma_one_chunk_flattened(gathered(rows, identity_addresses(rows)));
    if rows.len() > 0 {
        let front = rows.drop_last();
        lemma_identity_gather(front);
        let by = identity_addresses(rows);
        let front_by = identity_addresses(front);
        assert forall|k: int| 0 <= k < by.len() implies in_bounds(rows, #[trigger] by[k]) && by[k] is Some
            && picked(rows, by[k]) == (flattened(front) + rows.last())[k] by {
            if k < front_by.len() {
                assert(picked(rows, by[k]) == picked(front, front_by[k]));
            }
        }
    }
}

/// Whether `lens` holds the number of rows of each chunk of `rows`.
pub open spec fn lengths_of<V>(rows: Seq<Seq<V>>, lens: Seq<usize>) -> bool {
    &&& lens.len() == rows.len()
    &&& forall|c: int| 0 <= c < rows.len() ==> (#[trigger] lens[c]) == rows[c].len()
}

/// Whether an address is null or names a row of chunks of the given lengths.
pub open spec fn within(lens: Seq<usize>, address: Address) -> bool {
    match address {
        None => true,
        Some((chunk, row)) => chunk < lens.len() && row < lens[chunk as int],
    }
}

/// Whether addresses may be used on chunks of the given lengths: each is
/// null or names a row, and none is null unless `allow_null`.
pub open spec fn usable(lens: Seq<usize>, by: Seq<Address>, allow_null: bool) -> bool {
    forall|k: int| 0 <= k < by.len() ==> within(lens, #[trigger] by[k]) && (allow_null || by[k] is Some)
}

/// Addresses are usable on the lengths of a column exactly if they are in
/// bounds of the column and, unless null addresses are allowed, none is null.
pub proof fn lemma_usable_in_bounds<V>(
    rows: Seq<Seq<V>>,
    lens: Seq<usize>,
    by: Seq<Address>,
    allow_null: bool,
)
    requires
        lengths_of(rows, lens),
    ensures
        usable(lens, by, allow_null) == (all_in_bounds(rows, by) && (allow_null || none_null(by))),
{
}

/// Checks that no address is null.
pub fn no_null_address<const B: u64>(by: &[ChunkId<B>]) -> (ok: bool)
    ensures
        ok == none_null(decoded(by@)),
{
    let mut k: usize = 0;
    while k < by.len()
        invariant
            k <= by@.len(),
            forall|j: int| 0 <= j < k ==> (#[trigger] decoded(by@)[j]) is Some,
        decreases by@.len() - k,
    {
        if by[k].is_null() {
            assert(decoded(by@)[k as int] is None);
            return false;
        }
        k += 1;
    }
    true
}

/// Checks addresses against the lengths of the chunks of a column.
pub fn addresses_usable<const B: u64>(
    lens: &Vec<usize>,
    by: &[ChunkId<B>],
    allow_null: bool,
) -> (ok: bool)
    requires
        B < 64,
    ensures
        ok == usable(lens@, decoded(by@), allow_null),
{
    let mut k: usize = 0;
    while k < by.len()
        invariant
            B < 64,
            k <= by@.len(),
            forall|j: int|
                0 <= j < k ==> within(lens@, #[trigger] decoded(by@)[j]) && (allow_null || decoded(
                    by@,
                )[j] is Some),
        decreases by@.len() - k,
    {
        match by[k].decode() {
            None => {
                if !allow_null {
                    assert(decoded(by@)[k as int] is None);
                    return false;
                }
            },
            Some((chunk, row)) => {
                if chunk as usize >= lens.len() || row as usize >= lens[chunk as usize] {
                    assert(!within(lens@, decoded(by@)[k as int]));
                    return false;
                }
            },
        }
        k += 1;
    }
    true
}

proof fn lemma_chunk_start_prefix<V>(rows: Seq<Seq<V>>, front: Seq<Seq<V>>, chunk: int)
    requires
        front.len() <= rows.len(),
        forall|c: int| 0 <= c < front.len() ==> front[c] == rows[c],
        chunk <= front.len(),
    ensures
        chunk_start(front, chunk) == chunk_start(rows, chunk),
    decreases chunk,
{
    if chunk > 0 {
        lemma_chunk_start_prefix(rows, front, chunk - 1);
    }
}

proof fn lemma_chunk_start_nonnegative<V>(rows: Seq<Seq<V>>, chunk: int)
    ensures
        0 <= chunk_start(rows, chunk),
    decreases chunk,
{
    if chunk > 0 {
        lemma_chunk_start_nonnegative(rows, chunk - 1);
    }
}

} // verus!
