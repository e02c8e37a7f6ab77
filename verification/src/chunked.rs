//! Gathering by chunk addresses, as a capability of columns and tables.
use crate::array::ChunkedArray;
use crate::chunk_id::ChunkId;
use crate::frame::Column;
use crate::frame::DataFrame;
use crate::frame::take_column;
use crate::frame::take_opt_column;
use crate::rows::Address;
use crate::rows::all_in_bounds;
use crate::rows::decoded;
use crate::rows::none_null;
use crate::series::Series;
use crate::series::column_gathered;
use crate::sorted::IsSorted;
use vstd::prelude::*;

verus! {

/// Gather by [`ChunkId`].
///
/// Neither method checks an address against the rows that exist: the caller
/// owes that every address that is not null names a row.
pub trait TakeChunked: Sized {
    /// Whether the value is well formed.
    spec fn well_formed(&self) -> bool;

    /// Whether every address of `by` is null or names a row that exists.
    spec fn addressable_by(&self, by: Seq<Address>) -> bool;

    /// Whether `out` is the gather by `by`. `hint` is the order of the
    /// addresses, or `None` for the gather that takes null addresses.
    spec fn gather_of(&self, by: Seq<Address>, hint: Option<IsSorted>, out: Self) -> bool;

    /// Gathers the rows that `by` names. No address may be null. `sorted` is
    /// the order of the addresses.
    fn take_chunked_unchecked<const B: u64>(
        &self,
        by: &[ChunkId<B>],
        sorted: IsSorted,
    ) -> (out: Self)
        requires
            B < 64,
            self.well_formed(),
            by@.len() <= u32::MAX,
            self.addressable_by(decoded(by@)),
            none_null(decoded(by@)),
        ensures
            out.well_formed(),
            self.gather_of(decoded(by@), Some(sorted), out),
    ;

    /// Gathers the rows that `by` names, with a null row for each null
    /// address.
    fn take_opt_chunked_unchecked<const B: u64>(&self, by: &[ChunkId<B>]) -> (out: Self)
        requires
            B < 64,
            self.well_formed(),
            by@.len() <= u32::MAX,
            self.addressable_by(decoded(by@)),
        ensures
            out.well_formed(),
            self.gather_of(decoded(by@), None, out),
    ;
}

impl TakeChunked for DataFrame {
    open spec fn well_formed(&self) -> bool {
        self.columns_wf()
    }

    open spec fn addressable_by(&self, by: Seq<Address>) -> bool {
        self.addressable(by)
    }

    open spec fn gather_of(&self, by: Seq<Address>, hint: Option<IsSorted>, out: Self) -> bool {
        self.gathers_to(by, hint, out)
    }

    fn take_chunked_unchecked<const B: u64>(
        &self,
        idx: &[ChunkId<B>],
        sorted: IsSorted,
    ) -> (out: DataFrame) {
        DataFrame::take_chunked_unchecked(self, idx, sorted)
    }

    fn take_opt_chunked_unchecked<const B: u64>(&self, idx: &[ChunkId<B>]) -> (out: DataFrame) {
        DataFrame::take_opt_chunked_unchecked(self, idx)
    }
}

impl TakeChunked for Column {
    open spec fn well_formed(&self) -> bool {
        self.series.wf()
    }

    open spec fn addressable_by(&self, by: Seq<Address>) -> bool {
        self.series.addressable(by)
    }

    open spec fn gather_of(&self, by: Seq<Address>, hint: Option<IsSorted>, out: Self) -> bool {
        self.series.gathers_to(by, hint, out.series)
    }

    fn take_chunked_unchecked<const B: u64>(
        &self,
        by: &[ChunkId<B>],
        sorted: IsSorted,
    ) -> (out: Self) {
        take_column(self, by, sorted)
    }

    fn take_opt_chunked_unchecked<const B: u64>(&self, by: &[ChunkId<B>]) -> (out: Self) {
        take_opt_column(self, by)
    }
}

impl TakeChunked for Series {
    open spec fn well_formed(&self) -> bool {
        self.wf()
    }

    open spec fn addressable_by(&self, by: Seq<Address>) -> bool {
        self.addressable(by)
    }

    open spec fn gather_of(&self, by: Seq<Address>, hint: Option<IsSorted>, out: Self) -> bool {
        self.gathers_to(by, hint, out)
    }

    fn take_chunked_unchecked<const B: u64>(
        &self,
        by: &[ChunkId<B>],
        sorted: IsSorted,
    ) -> (out: Self) {
        Series::take_chunked_unchecked(self, by, sorted)
    }

    fn take_opt_chunked_unchecked<const B: u64>(&self, by: &[ChunkId<B>]) -> (out: Self) {
        Series::take_opt_chunked_unchecked(self, by)
    }
}

impl<T: Copy + Default> TakeChunked for ChunkedArray<T> {
    open spec fn well_formed(&self) -> bool {
        self.wf()
    }

    open spec fn addressable_by(&self, by: Seq<Address>) -> bool {
        all_in_bounds(self.rows(), by)
    }

    open spec fn gather_of(&self, by: Seq<Address>, hint: Option<IsSorted>, out: Self) -> bool {
        column_gathered(*self, by, hint, out)
    }

    fn take_chunked_unchecked<const B: u64>(
        &self,
        by: &[ChunkId<B>],
        sorted: IsSorted,
    ) -> (out: Self) {
        ChunkedArray::take_chunked_unchecked(self, by, sorted)
    }

    fn take_opt_chunked_unchecked<const B: u64>(&self, by: &[ChunkId<B>]) -> (out: Self) {
        ChunkedArray::take_opt_chunked_unchecked(self, by)
    }
}

/// Gather by [`ChunkId`] for tables whose columns may be gathered side by
/// side. The columns do not depend on one another, so the result is that of
/// [`TakeChunked`] in whatever order the columns are worked on.
pub trait TakeChunkedHorPar: Sized {
    /// Whether the table is well formed.
    spec fn well_formed(&self) -> bool;

    /// Whether every address of `idx` is null or names a row that exists.
    spec fn addressable_by(&self, idx: Seq<Address>) -> bool;

    /// Whether `out` is the gather by `idx`.
    spec fn gather_of(&self, idx: Seq<Address>, hint: Option<IsSorted>, out: DataFrame) -> bool;

    /// Gathers every column by `idx`. No address may be null.
    fn _take_chunked_unchecked_hor_par<const B: u64>(
        &self,
        idx: &[ChunkId<B>],
        sorted: IsSorted,
    ) -> (out: DataFrame)
        requires
            B < 64,
            self.well_formed(),
            idx@.len() <= u32::MAX,
            self.addressable_by(decoded(idx@)),
            none_null(decoded(idx@)),
        ensures
            out.wf(),
            self.gather_of(decoded(idx@), Some(sorted), out),
    ;

    /// Gathers every column by `idx`, with a null row for each null address.
    fn _take_opt_chunked_unchecked_hor_par<const B: u64>(
        &self,
        idx: &[ChunkId<B>],
    ) -> (out: DataFrame)
        requires
            B < 64,
            self.well_formed(),
            idx@.len() <= u32::MAX,
            self.addressable_by(decoded(idx@)),
        ensures
            out.wf(),
            self.gather_of(decoded(idx@), None, out),
    ;
}

impl TakeChunkedHorPar for DataFrame {
    open spec fn well_formed(&self) -> bool {
        self.columns_wf()
    }

    open spec fn addressable_by(&self, idx: Seq<Address>) -> bool {
        self.addressable(idx)
    }

    open spec fn gather_of(
        &self,
        idx: Seq<Address>,
        hint: Option<IsSorted>,
        out: DataFrame,
    ) -> bool {
        self.gathers_to(idx, hint, out)
    }

    fn _take_chunked_unchecked_hor_par<const B: u64>(
        &self,
        idx: &[ChunkId<B>],
        sorted: IsSorted,
    ) -> (out: DataFrame) {
        DataFrame::take_chunked_unchecked(self, idx, sorted)
    }

    fn _take_opt_chunked_unchecked_hor_par<const B: u64>(
        &self,
        idx: &[ChunkId<B>],
    ) -> (out: DataFrame) {
        DataFrame::take_opt_chunked_unchecked(self, idx)
    }
}

} // verus!
