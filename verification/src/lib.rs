//! Gathering rows out of chunked columns by compact `(chunk, row)` addresses.
//!
//! A column is stored as a list of chunks. A [`ChunkId`] names one row of one
//! chunk, or no row at all. Gathering a column by a list of such addresses
//! produces a single-chunk column that holds the addressed rows in the order
//! of the list.
//!
//! - [`chunk_id`]: the address and its packing into one word.
//! - [`rows`]: columns as sequences of rows, what a gather makes of them, and
//!   how that relates to taking rows from the flattened column.
//! - [`sorted`]: the sortedness flag and what a gather leaves of it.
//! - [`validity`], [`buffer`]: validity bitmaps and shared byte buffers.
//! - [`array`]: columns of fixed-width values.
//! - [`binview`]: columns of variable-length values, stored as views into
//!   buffers; gathering them keeps each buffer that is needed once.
//! - [`series`]: columns of any type, gathered by physical encoding.
//! - [`frame`]: tables, gathered column by column.
//! - [`chunked`]: the gather as a trait of all of these.
//!
//! The functions named `..._unchecked` ask of their caller that every address
//! names a row. Those without the suffix check it and return `None` where it
//! does not hold.
pub mod array;
pub mod binview;
pub mod buffer;
pub mod chunk_id;
pub mod chunked;
pub mod frame;
pub mod rows;
pub mod series;
pub mod sorted;
pub mod validity;

pub use chunk_id::ChunkId;
pub use chunked::TakeChunked;
pub use chunked::TakeChunkedHorPar;
pub use sorted::IsSorted;
