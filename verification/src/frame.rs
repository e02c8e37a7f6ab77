//! Tables: columns of one height, gathered column by column.
use crate::chunk_id::ChunkId;
use crate::rows::Address;
use crate::rows::decoded;
use crate::rows::no_null_address;
use crate::rows::none_null;
use crate::series::Series;
use crate::series::lemma_gathered_row_count;
use crate::sorted::IsSorted;
use vstd::prelude::*;

verus! {

/// A column of a table.
pub struct Column {
    pub series: Series,
}

impl Column {
    /// The column as a series.
    pub fn as_materialized_series(&self) -> (s: &Series)
        ensures
            *s == self.series,
    {
        &self.series
    }
}

impl Series {
    /// The series as a column of a table.
    pub fn into_column(self) -> (column: Column)
        ensures
            column.series == self,
    {
        Column { series: self }
    }
}

/// A table: named columns in order, all of `height` rows.
pub struct DataFrame {
    pub height: usize,
    pub columns: Vec<Column>,
}

impl DataFrame {
    /// Every column is well formed.
    pub open spec fn columns_wf(&self) -> bool {
        forall|c: int| 0 <= c < self.columns@.len() ==> (#[trigger] self.columns@[c]).series.wf()
    }

    /// Every column is well formed and has `height` rows.
    pub open spec fn wf(&self) -> bool {
        &&& self.columns_wf()
        &&& forall|c: int|
            0 <= c < self.columns@.len() ==> (#[trigger] self.columns@[c]).series.row_count()
                == self.height
    }

    /// Checks that every column is well formed.
    pub fn is_columns_wf(&self) -> (ok: bool)
        ensures
            ok == self.columns_wf(),
    {
        let mut c: usize = 0;
        while c < self.columns.len()
            invariant
                c <= self.columns@.len(),
                forall|d: int| 0 <= d < c ==> (#[trigger] self.columns@[d]).series.wf(),
            decreases self.columns@.len() - c,
        {
            if !self.columns[c].series.is_wf() {
                return false;
            }
            c += 1;
        }
        true
    }

    /// Checks addresses against the rows of every column.
    pub fn can_take<const B: u64>(&self, idx: &[ChunkId<B>]) -> (ok: bool)
        requires
            B < 64,
        ensures
            ok == self.addressable(decoded(idx@)),
    {
        let mut c: usize = 0;
        while c < self.columns.len()
            invariant
                B < 64,
                c <= self.columns@.len(),
                forall|d: int|
                    0 <= d < c ==> (#[trigger] self.columns@[d]).series.addressable(decoded(idx@)),
            decreases self.columns@.len() - c,
        {
            if !self.columns[c].series.can_take(idx) {
                return false;
            }
            c += 1;
        }
        true
    }

    /// As `take_chunked_unchecked`, for any input: `None` where an address is
    /// null or names no row of some column, where a column is not well
    /// formed, where there are more addresses than a `u32` counts, or where
    /// the address width is not below 64.
    pub fn take_chunked<const B: u64>(
        &self,
        idx: &[ChunkId<B>],
        sorted: IsSorted,
    ) -> (out: Option<DataFrame>)
        ensures
            out is Some <==> B < 64 && self.columns_wf() && idx@.len() <= u32::MAX
                && self.addressable(decoded(idx@)) && none_null(decoded(idx@)),
            out matches Some(taken) ==> taken.wf() && self.gathers_to(
                decoded(idx@),
                Some(sorted),
                taken,
            ),
    {
        if B < 64 && idx.len() <= u32::MAX as usize && self.is_columns_wf() && self.can_take(idx)
            && no_null_address(idx) {
            Some(self.take_chunked_unchecked(idx, sorted))
        } else {
            None
        }
    }

    /// As `take_opt_chunked_unchecked`, for any input: `None` where an address
    /// that is not null names no row of some column, where a column is not
    /// well formed, where there are more addresses than a `u32` counts, or
    /// where the address width is not below 64.
    pub fn take_opt_chunked<const B: u64>(&self, idx: &[ChunkId<B>]) -> (out: Option<DataFrame>)
        ensures
            out is Some <==> B < 64 && self.columns_wf() && idx@.len() <= u32::MAX
                && self.addressable(decoded(idx@)),
            out matches Some(taken) ==> taken.wf() && self.gathers_to(decoded(idx@), None, taken),
    {
        if B < 64 && idx.len() <= u32::MAX as usize && self.is_columns_wf() && self.can_take(idx) {
            Some(self.take_opt_chunked_unchecked(idx))
        } else {
            None
        }
    }

    /// Whether every address of `by` is null or names a row that every
    /// column has.
    pub open spec fn addressable(&self, by: Seq<Address>) -> bool {
        forall|c: int|
            0 <= c < self.columns@.len() ==> (#[trigger] self.columns@[c]).series.addressable(by)
    }

    /// Whether `out` is the gather of this table by `by`: as many rows as
    /// addresses and, column for column in the same order, the gather of the
    /// column, under its name.
    pub open spec fn gathers_to(
        &self,
        by: Seq<Address>,
        hint: Option<IsSorted>,
        out: DataFrame,
    ) -> bool {
        &&& out.wf()
        &&& out.height == by.len()
        &&& out.columns@.len() == self.columns@.len()
        &&& forall|c: int|
            0 <= c < self.columns@.len() ==> (#[trigger] self.columns@[c]).series.gathers_to(
                by,
                hint,
                out.columns@[c].series,
            )
    }

    /// A table of `columns`, which must all have `height` rows.
    pub fn new_no_checks(height: usize, columns: Vec<Column>) -> (df: DataFrame)
        ensures
            df.height == height,
            df.columns == columns,
    {
        DataFrame { height, columns }
    }

    /// Gathers every column by the same addresses, one column after the
    /// other. No address may be null.
    pub fn take_chunked_unchecked<const B: u64>(
        &self,
        idx: &[ChunkId<B>],
        sorted: IsSorted,
    ) -> (out: DataFrame)
        requires
            B < 64,
            self.columns_wf(),
            idx@.len() <= u32::MAX,
            self.addressable(decoded(idx@)),
            none_null(decoded(idx@)),
        ensures
            out.wf(),
            self.gathers_to(decoded(idx@), Some(sorted), out),
    {
        let mut cols: Vec<Column> = Vec::with_capacity(self.columns.len());
        let mut c: usize = 0;
        while c < self.columns.len()
            invariant
                B < 64,
                self.columns_wf(),
                idx@.len() <= u32::MAX,
                self.addressable(decoded(idx@)),
                none_null(decoded(idx@)),
                c <= self.columns@.len(),
                cols@.len() == c,
                forall|d: int|
                    0 <= d < c ==> (#[trigger] cols@[d]).series.wf() && cols@[d].series.row_count()
                        == idx@.len() && self.columns@[d].series.gathers_to(
                        decoded(idx@),
                        Some(sorted),
                        cols@[d].series,
                    ),
            decreases self.columns@.len() - c,
        {
            let column = take_column(&self.columns[c], idx, sorted);
            cols.push(column);
            c += 1;
        }
        DataFrame::new_no_checks(idx.len(), cols)
    }

    /// Gathers every column by the same addresses, one column after the
    /// other, with a null row for each null address.
    pub fn take_opt_chunked_unchecked<const B: u64>(&self, idx: &[ChunkId<B>]) -> (out: DataFrame)
        requires
            B < 64,
            self.columns_wf(),
            idx@.len() <= u32::MAX,
            self.addressable(decoded(idx@)),
        ensures
            out.wf(),
            self.gathers_to(decoded(idx@), None, out),
    {
        let mut cols: Vec<Column> = Vec::with_capacity(self.columns.len());
        let mut c: usize = 0;
        while c < self.columns.len()
            invariant
                B < 64,
                self.columns_wf(),
                idx@.len() <= u32::MAX,
                self.addressable(decoded(idx@)),
                c <= self.columns@.len(),
                cols@.len() == c,
                forall|d: int|
                    0 <= d < c ==> (#[trigger] cols@[d]).series.wf() && cols@[d].series.row_count()
                        == idx@.len() && self.columns@[d].series.gathers_to(
                        decoded(idx@),
                        None,
                        cols@[d].series,
                    ),
            decreases self.columns@.len() - c,
        {
            let column = take_opt_column(&self.columns[c], idx);
            cols.push(column);
            c += 1;
        }
        DataFrame::new_no_checks(idx.len(), cols)
    }
}

/// Gathers one column. No address may be null.
pub fn take_column<const B: u64>(
    column: &Column,
    by: &[ChunkId<B>],
    sorted: IsSorted,
) -> (out: Column)
    requires
        B < 64,
        column.series.wf(),
        by@.len() <= u32::MAX,
        column.series.addressable(decoded(by@)),
        none_null(decoded(by@)),
    ensures
        out.series.wf(),
        out.series.row_count() == by@.len(),
        column.series.gathers_to(decoded(by@), Some(sorted), out.series),
{
    let s = column.as_materialized_series();
    let s = s.take_chunked_unchecked(by, sorted);
    proof {
        lemma_gathered_row_count(column.series, decoded(by@), Some(sorted), s);
    }
    s.into_column()
}

/// Gathers one column, with a null row for each null address.
pub fn take_opt_column<const B: u64>(column: &Column, by: &[ChunkId<B>]) -> (out: Column)
    requires
        B < 64,
        column.series.wf(),
        by@.len() <= u32::MAX,
        column.series.addressable(decoded(by@)),
    ensures
        out.series.wf(),
        out.series.row_count() == by@.len(),
        column.series.gathers_to(decoded(by@), None, out.series),
{
    let s = column.as_materialized_series();
    let s = s.take_opt_chunked_unchecked(by);
    proof {
        lemma_gathered_row_count(column.series, decoded(by@), None, s);
    }
    s.into_column()
}

} // verus!
