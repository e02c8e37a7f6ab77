//! Columns of any type: the dispatch of a gather over the physical encodings.
use crate::array::ChunkedArray;
use crate::array::PrimitiveArray;
use crate::binview::BinaryViewChunked;
use crate::binview::take_unchecked_binview;
use crate::binview::take_unchecked_binview_opt;
use crate::chunk_id::ChunkId;
use crate::rows::Address;
use crate::rows::all_in_bounds;
use crate::rows::chunk_start;
use crate::rows::decoded;
use crate::rows::flattened;
use crate::rows::gathered;
use crate::rows::identity_addresses;
use crate::rows::lemma_identity_gather;
use crate::rows::in_bounds;
use crate::rows::no_null_address;
use crate::rows::none_null;
use crate::sorted::IsSorted;
use crate::sorted::gathered_flag;
use crate::validity::builder_bits;
use polars_arrow::bitmap::BitmapBuilder;
use vstd::prelude::*;

verus! {

/// One row of a list column: a run of child values, named by the child
/// array that holds them and its place in it. The children themselves are
/// not looked at.
#[derive(Clone, Copy, Debug, PartialEq, Eq, Structural)]
pub struct ListSlice {
    pub values: usize,
    pub offset: usize,
    pub length: usize,
}

impl Default for ListSlice {
    fn default() -> (slice: ListSlice)
        ensures
            slice == (ListSlice { values: 0, offset: 0, length: 0 }),
    {
        ListSlice { values: 0, offset: 0, length: 0 }
    }
}

/// One row of an object column: the handle of a value that is registered
/// elsewhere.
#[derive(Clone, Copy, Debug, PartialEq, Eq, Structural)]
pub struct ObjectRef {
    pub id: usize,
}

impl Default for ObjectRef {
    fn default() -> (object: ObjectRef)
        ensures
            object == (ObjectRef { id: 0 }),
    {
        ObjectRef { id: 0 }
    }
}

/// The type of a column as its user sees it.
#[derive(Clone, Copy, Debug)]
pub enum DataType {
    Boolean,
    UInt8,
    UInt16,
    UInt32,
    UInt64,
    Int8,
    Int16,
    Int32,
    Int64,
    Int128,
    Float32,
    Float64,
    /// Precision and scale.
    Decimal(Option<usize>, Option<usize>),
    String,
    Binary,
    Date,
    Datetime,
    Duration,
    Time,
    /// The width of each row.
    Array(usize),
    List,
    Object,
    Null,
    Categorical,
    Enum,
    Struct,
}

impl DataType {
    /// The type that the values are stored as.
    pub open spec fn physical(self) -> DataType {
        match self {
            DataType::Date => DataType::Int32,
            DataType::Datetime => DataType::Int64,
            DataType::Duration => DataType::Int64,
            DataType::Time => DataType::Int64,
            DataType::Decimal(_, _) => DataType::Int128,
            DataType::Categorical => DataType::UInt32,
            DataType::Enum => DataType::UInt32,
            other => other,
        }
    }

    /// The type that the values are stored as.
    pub fn to_physical(&self) -> (dtype: DataType)
        ensures
            dtype == self.physical(),
    {
        match self {
            DataType::Date => DataType::Int32,
            DataType::Datetime => DataType::Int64,
            DataType::Duration => DataType::Int64,
            DataType::Time => DataType::Int64,
            DataType::Decimal(_, _) => DataType::Int128,
            DataType::Categorical => DataType::UInt32,
            DataType::Enum => DataType::UInt32,
            other => *other,
        }
    }

    /// Whether a column of this type holds columns or runs of values.
    pub fn is_nested(&self) -> (nested: bool)
        ensures
            nested == (self is List || self is Struct || self is Array),
    {
        match self {
            DataType::List => true,
            DataType::Struct => true,
            DataType::Array(_) => true,
            _ => false,
        }
    }
}

/// The stored values of a column, by physical encoding.
pub enum Storage {
    Int8(ChunkedArray<i8>),
    Int16(ChunkedArray<i16>),
    Int32(ChunkedArray<i32>),
    Int64(ChunkedArray<i64>),
    Int128(ChunkedArray<i128>),
    UInt8(ChunkedArray<u8>),
    UInt16(ChunkedArray<u16>),
    UInt32(ChunkedArray<u32>),
    UInt64(ChunkedArray<u64>),
    /// Floating-point values, each by its bits.
    Float32(ChunkedArray<u32>),
    /// Floating-point values, each by its bits.
    Float64(ChunkedArray<u64>),
    Boolean(ChunkedArray<bool>),
    Binary(BinaryViewChunked),
    String(BinaryViewChunked),
    List(ChunkedArray<ListSlice>),
    /// Rows of a fixed width.
    Array(ChunkedArray<ListSlice>, usize),
    /// The fields, each a column of its own, and the number of rows.
    Struct(Vec<Series>, usize),
    Object(ChunkedArray<ObjectRef>),
    /// No values, only a number of rows.
    Null(usize),
}

impl Storage {
    /// The physical type of what is stored.
    pub open spec fn dtype(self) -> DataType {
        match self {
            Storage::Int8(_) => DataType::Int8,
            Storage::Int16(_) => DataType::Int16,
            Storage::Int32(_) => DataType::Int32,
            Storage::Int64(_) => DataType::Int64,
            Storage::Int128(_) => DataType::Int128,
            Storage::UInt8(_) => DataType::UInt8,
            Storage::UInt16(_) => DataType::UInt16,
            Storage::UInt32(_) => DataType::UInt32,
            Storage::UInt64(_) => DataType::UInt64,
            Storage::Float32(_) => DataType::Float32,
            Storage::Float64(_) => DataType::Float64,
            Storage::Boolean(_) => DataType::Boolean,
            Storage::List(_) => DataType::List,
            Storage::Binary(_) => DataType::Binary,
            Storage::String(_) => DataType::String,
            Storage::Array(_, width) => DataType::Array(width),
            Storage::Struct(_, _) => DataType::Struct,
            Storage::Object(_) => DataType::Object,
            Storage::Null(_) => DataType::Null,
        }
    }

    /// Checks that what is stored is of the physical type `dtype`.
    pub fn has_dtype(&self, dtype: &DataType) -> (ok: bool)
        ensures
            ok == (self.dtype() == *dtype),
    {
        match (self, dtype) {
            (Storage::Int8(_), DataType::Int8) => true,
            (Storage::Int16(_), DataType::Int16) => true,
            (Storage::Int32(_), DataType::Int32) => true,
            (Storage::Int64(_), DataType::Int64) => true,
            (Storage::Int128(_), DataType::Int128) => true,
            (Storage::UInt8(_), DataType::UInt8) => true,
            (Storage::UInt16(_), DataType::UInt16) => true,
            (Storage::UInt32(_), DataType::UInt32) => true,
            (Storage::UInt64(_), DataType::UInt64) => true,
            (Storage::Float32(_), DataType::Float32) => true,
            (Storage::Float64(_), DataType::Float64) => true,
            (Storage::Boolean(_), DataType::Boolean) => true,
            (Storage::List(_), DataType::List) => true,
            (Storage::Binary(_), DataType::Binary) => true,
            (Storage::String(_), DataType::String) => true,
            (Storage::Array(_, width), DataType::Array(other)) => *width == *other,
            (Storage::Struct(_, _), DataType::Struct) => true,
            (Storage::Object(_), DataType::Object) => true,
            (Storage::Null(_), DataType::Null) => true,
            _ => false,
        }
    }
}

/// A named column of any type.
pub struct Series {
    pub name: String,
    pub dtype: DataType,
    pub storage: Storage,
}

/// What a column gathered from `src` by `by` owes: the name of `src`, the
/// flag that the gather leaves, and one chunk that holds the rows that the
/// addresses pick.
pub open spec fn column_gathered<T: Copy>(
    src: ChunkedArray<T>,
    by: Seq<Address>,
    hint: Option<IsSorted>,
    out: ChunkedArray<T>,
) -> bool {
    &&& out.wf()
    &&& out.name == src.name
    &&& out.sorted == gathered_flag(src.sorted, hint)
    &&& out.chunks@.len() == 1
    &&& out.rows() == seq![gathered(src.rows(), by)]
}

/// As `column_gathered`, for a column of views.
pub open spec fn views_gathered(
    src: BinaryViewChunked,
    by: Seq<Address>,
    hint: Option<IsSorted>,
    out: BinaryViewChunked,
) -> bool {
    &&& out.wf()
    &&& out.name == src.name
    &&& out.sorted == gathered_flag(src.sorted, hint)
    &&& out.chunks@.len() == 1
    &&& out.rows() == seq![gathered(src.rows(), by)]
}

impl Series {
    /// The stored values are well formed and of the physical type of `dtype`.
    pub open spec fn wf(&self) -> bool
        decreases self,
    {
        &&& self.dtype.physical() == self.storage.dtype()
        &&& match self.storage {
            Storage::Int8(ca) => ca.wf(),
            Storage::Int16(ca) => ca.wf(),
            Storage::Int32(ca) => ca.wf(),
            Storage::Int64(ca) => ca.wf(),
            Storage::Int128(ca) => ca.wf(),
            Storage::UInt8(ca) => ca.wf(),
            Storage::UInt16(ca) => ca.wf(),
            Storage::UInt32(ca) => ca.wf(),
            Storage::UInt64(ca) => ca.wf(),
            Storage::Float32(ca) => ca.wf(),
            Storage::Float64(ca) => ca.wf(),
            Storage::Boolean(ca) => ca.wf(),
            Storage::List(ca) => ca.wf(),
            Storage::Binary(ca) => ca.wf(),
            Storage::String(ca) => ca.wf(),
            Storage::Array(ca, _) => ca.wf(),
            Storage::Struct(fields, _) => forall|f: int|
                0 <= f < fields@.len() ==> (#[trigger] fields@[f]).wf(),
            Storage::Object(ca) => ca.wf(),
            Storage::Null(_) => true,
        }
    }

    /// The number of rows.
    pub open spec fn row_count(&self) -> int {
        match self.storage {
            Storage::Int8(ca) => chunk_start(ca.rows(), ca.rows().len() as int),
            Storage::Int16(ca) => chunk_start(ca.rows(), ca.rows().len() as int),
            Storage::Int32(ca) => chunk_start(ca.rows(), ca.rows().len() as int),
            Storage::Int64(ca) => chunk_start(ca.rows(), ca.rows().len() as int),
            Storage::Int128(ca) => chunk_start(ca.rows(), ca.rows().len() as int),
            Storage::UInt8(ca) => chunk_start(ca.rows(), ca.rows().len() as int),
            Storage::UInt16(ca) => chunk_start(ca.rows(), ca.rows().len() as int),
            Storage::UInt32(ca) => chunk_start(ca.rows(), ca.rows().len() as int),
            Storage::UInt64(ca) => chunk_start(ca.rows(), ca.rows().len() as int),
            Storage::Float32(ca) => chunk_start(ca.rows(), ca.rows().len() as int),
            Storage::Float64(ca) => chunk_start(ca.rows(), ca.rows().len() as int),
            Storage::Boolean(ca) => chunk_start(ca.rows(), ca.rows().len() as int),
            Storage::List(ca) => chunk_start(ca.rows(), ca.rows().len() as int),
            Storage::Binary(ca) => chunk_start(ca.rows(), ca.rows().len() as int),
            Storage::String(ca) => chunk_start(ca.rows(), ca.rows().len() as int),
            Storage::Array(ca, _) => chunk_start(ca.rows(), ca.rows().len() as int),
            Storage::Struct(_, rows) => rows as int,
            Storage::Object(ca) => chunk_start(ca.rows(), ca.rows().len() as int),
            Storage::Null(rows) => rows as int,
        }
    }

    /// Whether every address of `by` is null or names a row that the column
    /// has. A struct column has the row if each field has it; a null column
    /// is never read.
    pub open spec fn addressable(&self, by: Seq<Address>) -> bool
        decreases self,
    {
        match self.storage {
            Storage::Int8(ca) => all_in_bounds(ca.rows(), by),
            Storage::Int16(ca) => all_in_bounds(ca.rows(), by),
            Storage::Int32(ca) => all_in_bounds(ca.rows(), by),
            Storage::Int64(ca) => all_in_bounds(ca.rows(), by),
            Storage::Int128(ca) => all_in_bounds(ca.rows(), by),
            Storage::UInt8(ca) => all_in_bounds(ca.rows(), by),
            Storage::UInt16(ca) => all_in_bounds(ca.rows(), by),
            Storage::UInt32(ca) => all_in_bounds(ca.rows(), by),
            Storage::UInt64(ca) => all_in_bounds(ca.rows(), by),
            Storage::Float32(ca) => all_in_bounds(ca.rows(), by),
            Storage::Float64(ca) => all_in_bounds(ca.rows(), by),
            Storage::Boolean(ca) => all_in_bounds(ca.rows(), by),
            Storage::List(ca) => all_in_bounds(ca.rows(), by),
            Storage::Binary(ca) => all_in_bounds(ca.rows(), by),
            Storage::String(ca) => all_in_bounds(ca.rows(), by),
            Storage::Array(ca, _) => all_in_bounds(ca.rows(), by),
            Storage::Struct(fields, _) => forall|f: int|
                0 <= f < fields@.len() ==> (#[trigger] fields@[f]).addressable(by),
            Storage::Object(ca) => all_in_bounds(ca.rows(), by),
            Storage::Null(_) => true,
        }
    }

    /// Whether `out` is the gather of this column by `by`: the same name and
    /// type, the same encoding, and the rows that the addresses pick. A struct
    /// column is gathered field by field, a null column gives as many null
    /// rows as there are addresses. `hint` is the order of the addresses, or
    /// `None` where the gather takes null addresses and leaves no flag.
    pub open spec fn gathers_to(
        &self,
        by: Seq<Address>,
        hint: Option<IsSorted>,
        out: Series,
    ) -> bool
        decreases self,
    {
        &&& out.name == self.name
        &&& out.dtype == self.dtype
        &&& match (self.storage, out.storage) {
            (Storage::Int8(src), Storage::Int8(dst)) => column_gathered(src, by, hint, dst),
            (Storage::Int16(src), Storage::Int16(dst)) => column_gathered(src, by, hint, dst),
            (Storage::Int32(src), Storage::Int32(dst)) => column_gathered(src, by, hint, dst),
            (Storage::Int64(src), Storage::Int64(dst)) => column_gathered(src, by, hint, dst),
            (Storage::Int128(src), Storage::Int128(dst)) => column_gathered(src, by, hint, dst),
            (Storage::UInt8(src), Storage::UInt8(dst)) => column_gathered(src, by, hint, dst),
            (Storage::UInt16(src), Storage::UInt16(dst)) => column_gathered(src, by, hint, dst),
            (Storage::UInt32(src), Storage::UInt32(dst)) => column_gathered(src, by, hint, dst),
            (Storage::UInt64(src), Storage::UInt64(dst)) => column_gathered(src, by, hint, dst),
            (Storage::Float32(src), Storage::Float32(dst)) => column_gathered(src, by, hint, dst),
            (Storage::Float64(src), Storage::Float64(dst)) => column_gathered(src, by, hint, dst),
            (Storage::Boolean(src), Storage::Boolean(dst)) => column_gathered(src, by, hint, dst),
            (Storage::List(src), Storage::List(dst)) => column_gathered(src, by, hint, dst),
            (Storage::Binary(src), Storage::Binary(dst)) => views_gathered(src, by, hint, dst),
            (Storage::String(src), Storage::String(dst)) => views_gathered(src, by, hint, dst),
            (Storage::Array(src, width), Storage::Array(dst, dst_width)) => dst_width == width
                && column_gathered(src, by, hint, dst),
            (Storage::Struct(fields, _), Storage::Struct(dst_fields, rows)) => {
                &&& rows == by.len()
                &&& dst_fields@.len() == fields@.len()
                &&& forall|f: int|
                    0 <= f < fields@.len() ==> (#[trigger] fields@[f]).gathers_to(
                        by,
                        hint,
                        dst_fields@[f],
                    )
            },
            (Storage::Object(src), Storage::Object(dst)) => column_gathered(
                src,
                by,
                None,
                dst,
            ),
            (Storage::Null(_), Storage::Null(rows)) => rows == by.len(),
            _ => false,
        }
    }
}

/// A column seen as its stored values: the name and the values of the
/// column itself, under the physical type.
pub struct Physical<'a> {
    pub name: &'a String,
    pub dtype: DataType,
    pub storage: &'a Storage,
}

/// The column as its stored values. Nothing is copied or rechunked: the
/// addresses that name rows of the column name the same rows of what is
/// handed back.
pub fn prepare_series(s: &Series) -> (phys: Physical<'_>)
    ensures
        *phys.name == s.name,
        phys.dtype == s.dtype.physical(),
        *phys.storage == s.storage,
{
    let dtype = if s.dtype.is_nested() {
        s.dtype
    } else {
        s.dtype.to_physical()
    };
    Physical { name: &s.name, dtype, storage: &s.storage }
}

/// Collects the rows of an object column one by one.
pub struct ObjectBuilder {
    name: String,
    values: Vec<ObjectRef>,
    validity: BitmapBuilder,
}

impl ObjectBuilder {
    /// One validity bit per value.
    pub closed spec fn inv(&self) -> bool {
        builder_bits(self.validity).len() == self.values@.len()
    }

    /// The rows appended so far.
    pub closed spec fn rows(&self) -> Seq<Option<ObjectRef>> {
        Seq::new(
            self.values@.len(),
            |i: int|
                if builder_bits(self.validity)[i] {
                    Some(self.values@[i])
                } else {
                    None
                },
        )
    }

    /// The name that the column will have.
    pub closed spec fn name(&self) -> String {
        self.name
    }

    /// A builder without a row.
    pub fn new(name: String, capacity: usize) -> (builder: ObjectBuilder)
        ensures
            builder.inv(),
            builder.name() == name,
            builder.rows() == Seq::<Option<ObjectRef>>::empty(),
    {
        ObjectBuilder {
            name,
            values: Vec::with_capacity(capacity),
            validity: BitmapBuilder::with_capacity(capacity),
        }
    }

    /// Appends a row: a value, or null for `None`.
    pub fn append_option(&mut self, value: Option<ObjectRef>)
        requires
            old(self).inv(),
            old(self).rows().len() < usize::MAX,
        ensures
            final(self).inv(),
            final(self).name() == old(self).name(),
            final(self).rows() == old(self).rows().push(value),
    {
        match value {
            Some(object) => {
                self.values.push(object);
                self.validity.push(true);
            },
            None => {
                self.values.push(ObjectRef::default());
                self.validity.push(false);
            },
        }
    }

    /// Appends a null row.
    pub fn append_null(&mut self)
        requires
            old(self).inv(),
            old(self).rows().len() < usize::MAX,
        ensures
            final(self).inv(),
            final(self).name() == old(self).name(),
            final(self).rows() == old(self).rows().push(None),
    {
        self.append_option(None)
    }

    /// The column of the rows appended: one chunk, with a validity.
    pub fn to_series(self) -> (out: Series)
        requires
            self.inv(),
        ensures
            out.wf(),
            out.name == self.name(),
            out.dtype == DataType::Object,
            out.storage matches Storage::Object(ca) && ca.wf() && ca.name == self.name()
                && ca.sorted == IsSorted::Not && ca.chunks@.len() == 1 && ca.rows()
                == seq![self.rows()],
    {
        let ghost rows = self.rows();
        let name = self.name.clone();
        let array = PrimitiveArray { values: self.values, validity: Some(self.validity.freeze()) };
        assert(array.slots() =~= rows);
        let ca = ChunkedArray::with_chunk(self.name, array);
        Series { name, dtype: DataType::Object, storage: Storage::Object(ca) }
    }
}

/// Gathers the rows of an object column that `by` names, appending them one
/// by one. No address may be null; the order of the addresses leaves no flag.
pub fn take_unchecked_object<const B: u64>(
    s: &Series,
    by: &[ChunkId<B>],
    _sorted: IsSorted,
) -> (out: Series)
    requires
        B < 64,
        s.wf(),
        s.storage is Object,
        s.addressable(decoded(by@)),
        none_null(decoded(by@)),
    ensures
        out.wf(),
        s.gathers_to(decoded(by@), Some(_sorted), out),
{
    let ca = match &s.storage {
        Storage::Object(ca) => ca,
        _ => {
            assert(false);
            return Series::new_null(s.name.clone(), 0);
        },
    };
    let mut builder = ObjectBuilder::new(ca.name.clone(), by.len());
    let mut k: usize = 0;
    while k < by.len()
        invariant
            B < 64,
            ca.wf(),
            all_in_bounds(ca.rows(), decoded(by@)),
            none_null(decoded(by@)),
            k <= by@.len(),
            builder.inv(),
            builder.name() == ca.name,
            builder.rows() == gathered(ca.rows(), decoded(by@)).take(k as int),
        decreases by@.len() - k,
    {
        assert(in_bounds(ca.rows(), decoded(by@)[k as int]));
        let (chunk_idx, array_idx) = by[k].extract();
        let arr = &ca.chunks[chunk_idx as usize];
        let object = arr.get(array_idx as usize);
        builder.append_option(object);
        k += 1;
    }
    assert(gathered(ca.rows(), decoded(by@)).take(by@.len() as int) =~= gathered(
        ca.rows(),
        decoded(by@),
    ));
    let built = builder.to_series();
    Series { name: s.name.clone(), dtype: s.dtype, storage: built.storage }
}

/// As `take_unchecked_object`, with a null row for each null address.
pub fn take_opt_unchecked_object<const B: u64>(s: &Series, by: &[ChunkId<B>]) -> (out: Series)
    requires
        B < 64,
        s.wf(),
        s.storage is Object,
        s.addressable(decoded(by@)),
    ensures
        out.wf(),
        s.gathers_to(decoded(by@), None, out),
{
    let ca = match &s.storage {
        Storage::Object(ca) => ca,
        _ => {
            assert(false);
            return Series::new_null(s.name.clone(), 0);
        },
    };
    let mut builder = ObjectBuilder::new(ca.name.clone(), by.len());
    let mut k: usize = 0;
    while k < by.len()
        invariant
            B < 64,
            ca.wf(),
            all_in_bounds(ca.rows(), decoded(by@)),
            k <= by@.len(),
            builder.inv(),
            builder.name() == ca.name,
            builder.rows() == gathered(ca.rows(), decoded(by@)).take(k as int),
        decreases by@.len() - k,
    {
        assert(in_bounds(ca.rows(), decoded(by@)[k as int]));
        let chunk_id = by[k];
        if chunk_id.is_null() {
            builder.append_null();
        } else {
            let (chunk_idx, array_idx) = chunk_id.extract();
            let arr = &ca.chunks[chunk_idx as usize];
            let object = arr.get(array_idx as usize);
            builder.append_option(object);
        }
        k += 1;
    }
    assert(gathered(ca.rows(), decoded(by@)).take(by@.len() as int) =~= gathered(
        ca.rows(),
        decoded(by@),
    ));
    let built = builder.to_series();
    Series { name: s.name.clone(), dtype: s.dtype, storage: built.storage }
}

impl Series {
    /// A column of `rows` null rows and no values.
    pub fn new_null(name: String, rows: usize) -> (out: Series)
        ensures
            out.wf(),
            out.name == name,
            out.dtype == DataType::Null,
            out.storage == Storage::Null(rows),
    {
        Series { name, dtype: DataType::Null, storage: Storage::Null(rows) }
    }

    /// The same stored values under the type `dtype`, which must be stored the
    /// way they are.
    pub fn from_physical_unchecked(self, dtype: DataType) -> (out: Series)
        requires
            dtype.physical() == self.storage.dtype(),
        ensures
            out.name == self.name,
            out.dtype == dtype,
            out.storage == self.storage,
    {
        Series { name: self.name, dtype, storage: self.storage }
    }

    /// Gathers the rows that `by` names into a column of one chunk.
    ///
    /// No address may be null, and each must name a row that the column has.
    /// The values are gathered in their physical encoding, each encoding in
    /// its own way and a struct column field by field, and the result gets
    /// the type of this column back.
    pub fn take_chunked_unchecked<const B: u64>(
        &self,
        by: &[ChunkId<B>],
        sorted: IsSorted,
    ) -> (out: Series)
        requires
            B < 64,
            self.wf(),
            by@.len() <= u32::MAX,
            self.addressable(decoded(by@)),
            none_null(decoded(by@)),
        ensures
            out.wf(),
            self.gathers_to(decoded(by@), Some(sorted), out),
        decreases self,
    {
        let phys = prepare_series(self);
        let storage = match phys.storage {
            Storage::Int8(ca) => Storage::Int8(ca.take_chunked_unchecked(by, sorted)),
            Storage::Int16(ca) => Storage::Int16(ca.take_chunked_unchecked(by, sorted)),
            Storage::Int32(ca) => Storage::Int32(ca.take_chunked_unchecked(by, sorted)),
            Storage::Int64(ca) => Storage::Int64(ca.take_chunked_unchecked(by, sorted)),
            Storage::Int128(ca) => Storage::Int128(ca.take_chunked_unchecked(by, sorted)),
            Storage::UInt8(ca) => Storage::UInt8(ca.take_chunked_unchecked(by, sorted)),
            Storage::UInt16(ca) => Storage::UInt16(ca.take_chunked_unchecked(by, sorted)),
            Storage::UInt32(ca) => Storage::UInt32(ca.take_chunked_unchecked(by, sorted)),
            Storage::UInt64(ca) => Storage::UInt64(ca.take_chunked_unchecked(by, sorted)),
            Storage::Float32(ca) => Storage::Float32(ca.take_chunked_unchecked(by, sorted)),
            Storage::Float64(ca) => Storage::Float64(ca.take_chunked_unchecked(by, sorted)),
            Storage::Boolean(ca) => Storage::Boolean(ca.take_chunked_unchecked(by, sorted)),
            Storage::List(ca) => Storage::List(ca.take_chunked_unchecked(by, sorted)),
            Storage::Binary(ca) => Storage::Binary(take_unchecked_binview(ca, by, sorted)),
            Storage::String(ca) => Storage::String(take_unchecked_binview(ca, by, sorted)),
            Storage::Array(ca, width) => Storage::Array(ca.take_chunked_unchecked(by, sorted), *width),
            Storage::Struct(fields, _) => {
                let mut gathered_fields: Vec<Series> = Vec::with_capacity(fields.len());
                let mut f: usize = 0;
                while f < fields.len()
                    invariant
                        B < 64,
                        by@.len() <= u32::MAX,
                        self.wf(),
                        self.addressable(decoded(by@)),
                        none_null(decoded(by@)),
                        self.storage is Struct,
                        self.storage->Struct_0 == *fields,
                        f <= fields@.len(),
                        gathered_fields@.len() == f,
                        forall|g: int|
                            0 <= g < f ==> (#[trigger] gathered_fields@[g]).wf() && fields@[g].gathers_to(
                                decoded(by@),
                                Some(sorted),
                                gathered_fields@[g],
                            ),
                    decreases fields@.len() - f,
                {
                    proof {
                        vstd::std_specs::vec::axiom_vec_index_decreases(*fields, f as int);
                    }
                    gathered_fields.push(fields[f].take_chunked_unchecked(by, sorted));
                    f += 1;
                }
                Storage::Struct(gathered_fields, by.len())
            },
            Storage::Object(_) => {
                return take_unchecked_object(self, by, sorted);
            },
            Storage::Null(_) => {
                return Series::new_null(self.name.clone(), by.len()).from_physical_unchecked(
                    self.dtype,
                );
            },
        };
        let out = Series { name: self.name.clone(), dtype: phys.dtype, storage };
        out.from_physical_unchecked(self.dtype)
    }

    /// Gathers the rows that `by` names into a column of one chunk, with a
    /// null row for each null address.
    ///
    /// Each address that is not null must name a row that the column has.
    /// The values are gathered in their physical encoding, each encoding in
    /// its own way and a struct column field by field, and the result gets
    /// the type of this column back.
    pub fn take_opt_chunked_unchecked<const B: u64>(&self, by: &[ChunkId<B>]) -> (out: Series)
        requires
            B < 64,
            self.wf(),
            by@.len() <= u32::MAX,
            self.addressable(decoded(by@)),
        ensures
            out.wf(),
            self.gathers_to(decoded(by@), None, out),
        decreases self,
    {
        let phys = prepare_series(self);
        let storage = match phys.storage {
            Storage::Int8(ca) => Storage::Int8(ca.take_opt_chunked_unchecked(by)),
            Storage::Int16(ca) => Storage::Int16(ca.take_opt_chunked_unchecked(by)),
            Storage::Int32(ca) => Storage::Int32(ca.take_opt_chunked_unchecked(by)),
            Storage::Int64(ca) => Storage::Int64(ca.take_opt_chunked_unchecked(by)),
            Storage::Int128(ca) => Storage::Int128(ca.take_opt_chunked_unchecked(by)),
            Storage::UInt8(ca) => Storage::UInt8(ca.take_opt_chunked_unchecked(by)),
            Storage::UInt16(ca) => Storage::UInt16(ca.take_opt_chunked_unchecked(by)),
            Storage::UInt32(ca) => Storage::UInt32(ca.take_opt_chunked_unchecked(by)),
            Storage::UInt64(ca) => Storage::UInt64(ca.take_opt_chunked_unchecked(by)),
            Storage::Float32(ca) => Storage::Float32(ca.take_opt_chunked_unchecked(by)),
            Storage::Float64(ca) => Storage::Float64(ca.take_opt_chunked_unchecked(by)),
            Storage::Boolean(ca) => Storage::Boolean(ca.take_opt_chunked_unchecked(by)),
            Storage::List(ca) => Storage::List(ca.take_opt_chunked_unchecked(by)),
            Storage::Binary(ca) => Storage::Binary(take_unchecked_binview_opt(ca, by)),
            Storage::String(ca) => Storage::String(take_unchecked_binview_opt(ca, by)),
            Storage::Array(ca, width) => Storage::Array(ca.take_opt_chunked_unchecked(by), *width),
            Storage::Struct(fields, _) => {
                let mut gathered_fields: Vec<Series> = Vec::with_capacity(fields.len());
                let mut f: usize = 0;
                while f < fields.len()
                    invariant
                        B < 64,
                        by@.len() <= u32::MAX,
                        self.wf(),
                        self.addressable(decoded(by@)),
                        self.storage is Struct,
                        self.storage->Struct_0 == *fields,
                        f <= fields@.len(),
                        gathered_fields@.len() == f,
                        forall|g: int|
                            0 <= g < f ==> (#[trigger] gathered_fields@[g]).wf() && fields@[g].gathers_to(
                                decoded(by@),
                                None,
                                gathered_fields@[g],
                            ),
                    decreases fields@.len() - f,
                {
                    proof {
                        vstd::std_specs::vec::axiom_vec_index_decreases(*fields, f as int);
                    }
                    gathered_fields.push(fields[f].take_opt_chunked_unchecked(by));
                    f += 1;
                }
                Storage::Struct(gathered_fields, by.len())
            },
            Storage::Object(_) => {
                return take_opt_unchecked_object(self, by);
            },
            Storage::Null(_) => {
                return Series::new_null(self.name.clone(), by.len()).from_physical_unchecked(
                    self.dtype,
                );
            },
        };
        let out = Series { name: self.name.clone(), dtype: phys.dtype, storage };
        out.from_physical_unchecked(self.dtype)
    }
}

impl Series {
    /// Checks that the column is well formed.
    pub fn is_wf(&self) -> (ok: bool)
        ensures
            ok == self.wf(),
        decreases self,
    {
        if !self.storage.has_dtype(&self.dtype.to_physical()) {
            return false;
        }
        match &self.storage {
            Storage::Int8(ca) => ca.is_wf(),
            Storage::Int16(ca) => ca.is_wf(),
            Storage::Int32(ca) => ca.is_wf(),
            Storage::Int64(ca) => ca.is_wf(),
            Storage::Int128(ca) => ca.is_wf(),
            Storage::UInt8(ca) => ca.is_wf(),
            Storage::UInt16(ca) => ca.is_wf(),
            Storage::UInt32(ca) => ca.is_wf(),
            Storage::UInt64(ca) => ca.is_wf(),
            Storage::Float32(ca) => ca.is_wf(),
            Storage::Float64(ca) => ca.is_wf(),
            Storage::Boolean(ca) => ca.is_wf(),
            Storage::List(ca) => ca.is_wf(),
            Storage::Binary(ca) => ca.is_wf(),
            Storage::String(ca) => ca.is_wf(),
            Storage::Array(ca, _) => ca.is_wf(),
            Storage::Struct(fields, _) => {
                let mut f: usize = 0;
                while f < fields.len()
                    invariant
                        self.storage is Struct,
                        self.storage->Struct_0 == *fields,
                        f <= fields@.len(),
                        forall|g: int| 0 <= g < f ==> (#[trigger] fields@[g]).wf(),
                    decreases fields@.len() - f,
                {
                    proof {
                        vstd::std_specs::vec::axiom_vec_index_decreases(*fields, f as int);
                    }
                    if !fields[f].is_wf() {
                        return false;
                    }
                    f += 1;
                }
                true
            },
            Storage::Object(ca) => ca.is_wf(),
            Storage::Null(_) => true,
        }
    }

    /// Checks addresses against the rows of the column: whether each is null
    /// or names a row.
    pub fn can_take<const B: u64>(&self, by: &[ChunkId<B>]) -> (ok: bool)
        requires
            B < 64,
        ensures
            ok == self.addressable(decoded(by@)),
        decreases self,
    {
        match &self.storage {
            Storage::Int8(ca) => ca.can_take(by, true),
            Storage::Int16(ca) => ca.can_take(by, true),
            Storage::Int32(ca) => ca.can_take(by, true),
            Storage::Int64(ca) => ca.can_take(by, true),
            Storage::Int128(ca) => ca.can_take(by, true),
            Storage::UInt8(ca) => ca.can_take(by, true),
            Storage::UInt16(ca) => ca.can_take(by, true),
            Storage::UInt32(ca) => ca.can_take(by, true),
            Storage::UInt64(ca) => ca.can_take(by, true),
            Storage::Float32(ca) => ca.can_take(by, true),
            Storage::Float64(ca) => ca.can_take(by, true),
            Storage::Boolean(ca) => ca.can_take(by, true),
            Storage::List(ca) => ca.can_take(by, true),
            Storage::Binary(ca) => ca.can_take(by, true),
            Storage::String(ca) => ca.can_take(by, true),
            Storage::Array(ca, _) => ca.can_take(by, true),
            Storage::Struct(fields, _) => {
                let mut f: usize = 0;
                while f < fields.len()
                    invariant
                        B < 64,
                        self.storage is Struct,
                        self.storage->Struct_0 == *fields,
                        f <= fields@.len(),
                        forall|g: int| 0 <= g < f ==> (#[trigger] fields@[g]).addressable(decoded(by@)),
                    decreases fields@.len() - f,
                {
                    proof {
                        vstd::std_specs::vec::axiom_vec_index_decreases(*fields, f as int);
                    }
                    if !fields[f].can_take(by) {
                        return false;
                    }
                    f += 1;
                }
                true
            },
            Storage::Object(ca) => ca.can_take(by, true),
            Storage::Null(_) => true,
        }
    }
}

impl Series {
    /// As `take_chunked_unchecked`, for any input: `None` where an address is
    /// null or names no row, where the column is not well formed, where
    /// there are more addresses than a `u32` counts, or where the address
    /// width is not below 64.
    pub fn take_chunked<const B: u64>(
        &self,
        by: &[ChunkId<B>],
        sorted: IsSorted,
    ) -> (out: Option<Series>)
        ensures
            out is Some <==> B < 64 && self.wf() && by@.len() <= u32::MAX && self.addressable(
                decoded(by@),
            ) && none_null(decoded(by@)),
            out matches Some(taken) ==> taken.wf() && self.gathers_to(
                decoded(by@),
                Some(sorted),
                taken,
            ),
    {
        if B < 64 && by.len() <= u32::MAX as usize && self.is_wf() && self.can_take(by)
            && no_null_address(by) {
            Some(self.take_chunked_unchecked(by, sorted))
        } else {
            None
        }
    }

    /// As `take_opt_chunked_unchecked`, for any input: `None` where an address
    /// that is not null names no row, where the column is not well formed,
    /// where there are more addresses than a `u32` counts, or where the
    /// address width is not below 64.
    pub fn take_opt_chunked<const B: u64>(&self, by: &[ChunkId<B>]) -> (out: Option<Series>)
        ensures
            out is Some <==> B < 64 && self.wf() && by@.len() <= u32::MAX && self.addressable(
                decoded(by@),
            ),
            out matches Some(taken) ==> taken.wf() && self.gathers_to(decoded(by@), None, taken),
    {
        if B < 64 && by.len() <= u32::MAX as usize && self.is_wf() && self.can_take(by) {
            Some(self.take_opt_chunked_unchecked(by))
        } else {
            None
        }
    }
}

/// The round trip: a column gathered by the addresses of all its rows, with
/// the addresses given as ascending, is the column again, in one chunk and
/// under the flag it had.
pub proof fn lemma_identity_round_trip<T: Copy>(src: ChunkedArray<T>, out: ChunkedArray<T>)
    requires
        src.rows().len() <= u32::MAX,
        forall|c: int| 0 <= c < src.rows().len() ==> (#[trigger] src.rows()[c]).len() <= u32::MAX,
        column_gathered(src, identity_addresses(src.rows()), Some(IsSorted::Ascending), out),
    ensures
        flattened(out.rows()) == flattened(src.rows()),
        out.sorted == src.sorted,
        out.name == src.name,
{
    lemma_identity_gather(src.rows());
}

/// The round trip for a column of views.
pub proof fn lemma_identity_round_trip_views(src: BinaryViewChunked, out: BinaryViewChunked)
    requires
        src.rows().len() <= u32::MAX,
        forall|c: int| 0 <= c < src.rows().len() ==> (#[trigger] src.rows()[c]).len() <= u32::MAX,
        views_gathered(src, identity_addresses(src.rows()), Some(IsSorted::Ascending), out),
    ensures
        flattened(out.rows()) == flattened(src.rows()),
        out.sorted == src.sorted,
        out.name == src.name,
{
    lemma_identity_gather(src.rows());
}

/// A gathered column has one row for each address.
pub proof fn lemma_gathered_row_count(
    src: Series,
    by: Seq<Address>,
    hint: Option<IsSorted>,
    out: Series,
)
    requires
        src.gathers_to(by, hint, out),
    ensures
        out.row_count() == by.len(),
{
    lemma_one_chunk_rows::<i8>();
    lemma_one_chunk_rows::<i16>();
    lemma_one_chunk_rows::<i32>();
    lemma_one_chunk_rows::<i64>();
    lemma_one_chunk_rows::<i128>();
    lemma_one_chunk_rows::<u8>();
    lemma_one_chunk_rows::<u16>();
    lemma_one_chunk_rows::<u32>();
    lemma_one_chunk_rows::<u64>();
    lemma_one_chunk_rows::<bool>();
    lemma_one_chunk_rows::<ListSlice>();
    lemma_one_chunk_rows::<ObjectRef>();
    lemma_one_chunk_rows::<crate::binview::Slot>();
}

/// A column of one chunk has the rows of that chunk.
pub proof fn lemma_one_chunk_rows<V>()
    ensures
        forall|rows: Seq<Option<V>>| #[trigger] chunk_start(seq![rows], 1) == rows.len(),
{
    assert forall|rows: Seq<Option<V>>| #[trigger] chunk_start(seq![rows], 1) == rows.len() by {
        assert(chunk_start(seq![rows], 0) == 0);
    }
}

} // verus!
