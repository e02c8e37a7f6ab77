use chunked_gather::array::ChunkedArray as Chunks;
use chunked_gather::array::PrimitiveArray as Chunk;
use chunked_gather::binview::BinaryViewArray;
use chunked_gather::binview::BinaryViewChunked;
use chunked_gather::binview::ViewDescriptor;
use chunked_gather::buffer::SharedBuffer;
use chunked_gather::chunk_id::ChunkId;
use chunked_gather::chunked::TakeChunked;
use chunked_gather::series::DataType as ColumnType;
use chunked_gather::series::Series as Column;
use chunked_gather::series::Storage;
use chunked_gather::sorted::IsSorted;
use polars_arrow::array::Array;
use polars_arrow::array::PrimitiveArray;
use polars_arrow::array::Utf8ViewArray;
use polars_arrow::array::View;
use polars_arrow::datatypes::ArrowDataType;
use polars_core::prelude::IdxCa;
use polars_core::prelude::Int32Chunked;
use polars_core::prelude::IntoSeries;
use polars_core::prelude::NamedFrom;
use polars_core::prelude::Series;
use polars_core::prelude::StringChunked;
use std::sync::Arc;
fn flag_from(flag: polars_core::series::IsSorted) -> IsSorted {
    match flag {
        polars_core::series::IsSorted::Ascending => IsSorted::Ascending,
        polars_core::series::IsSorted::Descending => IsSorted::Descending,
        polars_core::series::IsSorted::Not => IsSorted::Not,
    }
}

fn column_of(s: &Series) -> Column {
    let ca = s.str().unwrap();
    let chunks = ca
        .downcast_iter()
        .map(|arr| BinaryViewArray {
            views: arr
                .views()
                .iter()
                .map(|v| ViewDescriptor {
                    length: v.length,
                    prefix: v.prefix,
                    buffer_idx: v.buffer_idx,
                    offset: v.offset,
                })
                .collect(),
            buffers: Arc::new(
                arr.data_buffers()
                    .iter()
                    .map(|b| SharedBuffer::new(b.clone()))
                    .collect(),
            ),
            validity: arr.validity().cloned(),
        })
        .collect();
    let name = s.name().to_string();
    Column {
        name: name.clone(),
        dtype: ColumnType::String,
        storage: Storage::String(BinaryViewChunked {
            name,
            chunks,
            sorted: flag_from(ca.is_sorted_flag()),
        }),
    }
}

fn series_of(column: &Column) -> Series {
    let Storage::String(ca) = &column.storage else {
        panic!("a string column was expected");
    };
    let arrays = ca.chunks.iter().map(|arr| {
        let views: Vec<View> = arr
            .views
            .iter()
            .map(|v| View {
                length: v.length,
                prefix: v.prefix,
                buffer_idx: v.buffer_idx,
                offset: v.offset,
            })
            .collect();
        let buffers: Vec<_> = arr.buffers.iter().map(|b| b.bytes().clone()).collect();
        Utf8ViewArray::try_new(
            ArrowDataType::Utf8View,
            views.into(),
            buffers.into(),
            arr.validity.clone(),
        )
        .unwrap()
    });
    StringChunked::from_chunk_iter(column.name.as_str().into(), arrays).into_series()
}

#[test]
fn test_binview_chunked_gather() {
    // # Series without nulls;
    let mut s_1 = Series::new(
        "a".into(),
        &["1 loooooooooooong string", "2 loooooooooooong string"],
    );
    let s_2 = Series::new(
        "a".into(),
        &["11 loooooooooooong string", "22 loooooooooooong string"],
    );
    let s_3 = Series::new(
        "a".into(),
        &[
            "111 loooooooooooong string",
            "222 loooooooooooong string",
            "small", // this tests we don't mess with the inlined view
        ],
    );
    s_1.append(&s_2).unwrap();
    s_1.append(&s_3).unwrap();

    assert_eq!(s_1.n_chunks(), 3);

    // ## Ids without nulls;
    let by: [ChunkId<24>; 7] = [
        ChunkId::store(0, 0),
        ChunkId::store(0, 1),
        ChunkId::store(1, 1),
        ChunkId::store(1, 0),
        ChunkId::store(2, 0),
        ChunkId::store(2, 1),
        ChunkId::store(2, 2),
    ];

    let out = series_of(&TakeChunked::take_chunked_unchecked(
        &column_of(&s_1),
        &by,
        IsSorted::Not,
    ));
    let idx = IdxCa::new("".into(), [0, 1, 3, 2, 4, 5, 6]);
    let expected = s_1.rechunk().take(&idx).unwrap();
    assert!(out.equals(&expected));

    // ## Ids with nulls;
    let by: [ChunkId<24>; 4] = [
        ChunkId::null(),
        ChunkId::store(0, 1),
        ChunkId::store(1, 1),
        ChunkId::store(1, 0),
    ];
    let out = series_of(&TakeChunked::take_opt_chunked_unchecked(&column_of(&s_1), &by));

    let idx = IdxCa::new("".into(), [None, Some(1), Some(3), Some(2)]);
    let expected = s_1.rechunk().take(&idx).unwrap();
    assert!(out.equals_missing(&expected));

    // # Series with nulls;
    let mut s_1 = Series::new(
        "a".into(),
        &["1 loooooooooooong string 1", "2 loooooooooooong string 2"],
    );
    let s_2 = Series::new("a".into(), &[Some("11 loooooooooooong string 11"), None]);
    s_1.append(&s_2).unwrap();

    // ## Ids without nulls;
    let by: [ChunkId<24>; 4] = [
        ChunkId::store(0, 0),
        ChunkId::store(0, 1),
        ChunkId::store(1, 1),
        ChunkId::store(1, 0),
    ];

    let out = series_of(&TakeChunked::take_chunked_unchecked(
        &column_of(&s_1),
        &by,
        IsSorted::Not,
    ));
    let idx = IdxCa::new("".into(), [0, 1, 3, 2]);
    let expected = s_1.rechunk().take(&idx).unwrap();
    assert!(out.equals_missing(&expected));

    // ## Ids with nulls;
    let by: [ChunkId<24>; 4] = [
        ChunkId::null(),
        ChunkId::store(0, 1),
        ChunkId::store(1, 1),
        ChunkId::store(1, 0),
    ];
    let out = series_of(&TakeChunked::take_opt_chunked_unchecked(&column_of(&s_1), &by));

    let idx = IdxCa::new("".into(), [None, Some(1), Some(3), Some(2)]);
    let expected = s_1.rechunk().take(&idx).unwrap();
    assert!(out.equals_missing(&expected));
}

fn ints_of(s: &Series) -> Chunks<i32> {
    let ca = s.i32().unwrap();
    Chunks {
        name: s.name().to_string(),
        chunks: ca
            .downcast_iter()
            .map(|arr| Chunk { values: arr.values().to_vec(), validity: arr.validity().cloned() })
            .collect(),
        sorted: flag_from(ca.is_sorted_flag()),
    }
}

fn series_of_ints(ca: &Chunks<i32>) -> Series {
    let arrays = ca.chunks.iter().map(|chunk| {
        PrimitiveArray::new(
            ArrowDataType::Int32,
            chunk.values.clone().into(),
            chunk.validity.clone(),
        )
    });
    Int32Chunked::from_chunk_iter(ca.name.as_str().into(), arrays).into_series()
}

#[test]
fn numbers_in_chunks_against_the_plain_take() {
    let mut s_1 = Series::new("n".into(), &[Some(1i32), None, Some(3)]);
    let s_2 = Series::new("n".into(), &[Some(4i32), Some(5)]);
    let s_3 = Series::new("n".into(), &[None, Some(7i32)]);
    s_1.append(&s_2).unwrap();
    s_1.append(&s_3).unwrap();
    assert_eq!(s_1.n_chunks(), 3);

    let by: [ChunkId<24>; 6] = [
        ChunkId::store(2, 1),
        ChunkId::store(0, 1),
        ChunkId::store(1, 0),
        ChunkId::store(0, 0),
        ChunkId::store(2, 0),
        ChunkId::store(1, 1),
    ];
    let out = series_of_ints(&ints_of(&s_1).take_chunked_unchecked(&by, IsSorted::Not));
    let idx = IdxCa::new("".into(), [6, 1, 3, 0, 5, 4]);
    let expected = s_1.rechunk().take(&idx).unwrap();
    assert!(out.equals_missing(&expected));

    let by: [ChunkId<24>; 5] = [
        ChunkId::store(1, 1),
        ChunkId::null(),
        ChunkId::store(0, 1),
        ChunkId::store(2, 1),
        ChunkId::null(),
    ];
    let out = series_of_ints(&ints_of(&s_1).take_opt_chunked_unchecked(&by));
    let idx = IdxCa::new("".into(), [Some(4), None, Some(1), Some(6), None]);
    let expected = s_1.rechunk().take(&idx).unwrap();
    assert!(out.equals_missing(&expected));
    assert_eq!(out.null_count(), 3);
}
