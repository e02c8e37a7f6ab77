use chunked_gather::array::ChunkedArray;
use chunked_gather::array::PrimitiveArray;
use chunked_gather::binview::BinaryViewArray;
use chunked_gather::binview::BinaryViewChunked;
use chunked_gather::binview::ViewDescriptor;
use chunked_gather::chunk_id::ChunkId;
use chunked_gather::chunked::TakeChunked;
use chunked_gather::chunked::TakeChunkedHorPar;
use chunked_gather::frame::Column;
use chunked_gather::frame::DataFrame;
use chunked_gather::series::prepare_series;
use chunked_gather::series::take_opt_unchecked_object;
use chunked_gather::series::take_unchecked_object;
use chunked_gather::series::DataType;
use chunked_gather::series::ListSlice;
use chunked_gather::series::ObjectBuilder;
use chunked_gather::series::ObjectRef;
use chunked_gather::series::Series;
use chunked_gather::series::Storage;
use chunked_gather::sorted::IsSorted;
use polars_arrow::array::View;
use polars_arrow::bitmap::Bitmap;
use std::sync::Arc;

fn chunked<T: Copy>(name: &str, chunks: &[&[T]]) -> ChunkedArray<T> {
    ChunkedArray {
        name: name.to_string(),
        chunks: chunks
            .iter()
            .map(|rows| PrimitiveArray { values: rows.to_vec(), validity: None })
            .collect(),
        sorted: IsSorted::Not,
    }
}

fn rows<T: Copy>(ca: &ChunkedArray<T>) -> Vec<Option<T>> {
    let mut out = Vec::new();
    for arr in &ca.chunks {
        for i in 0..arr.len() {
            out.push(arr.get(i));
        }
    }
    out
}

fn ints(name: &str) -> Series {
    Series {
        name: name.to_string(),
        dtype: DataType::Int32,
        storage: Storage::Int32(chunked(name, &[&[1, 2], &[3], &[4, 5]])),
    }
}

fn flags(name: &str) -> Series {
    Series {
        name: name.to_string(),
        dtype: DataType::Boolean,
        storage: Storage::Boolean(chunked(name, &[&[true, false], &[true], &[false, false]])),
    }
}

fn short_texts(name: &str) -> Series {
    let chunk = |texts: &[&str]| BinaryViewArray {
        views: texts
            .iter()
            .map(|text| {
                let view = View::new_inline(text.as_bytes());
                ViewDescriptor {
                    length: view.length,
                    prefix: view.prefix,
                    buffer_idx: view.buffer_idx,
                    offset: view.offset,
                }
            })
            .collect(),
        buffers: Arc::new(Vec::new()),
        validity: None,
    };
    Series {
        name: name.to_string(),
        dtype: DataType::String,
        storage: Storage::String(BinaryViewChunked {
            name: name.to_string(),
            chunks: vec![chunk(&["a", "b"]), chunk(&["c"]), chunk(&["d", "e"])],
            sorted: IsSorted::Not,
        }),
    }
}

fn first_bytes(s: &Series) -> Vec<u32> {
    match &s.storage {
        Storage::String(ca) => {
            ca.chunks.iter().flat_map(|arr| arr.views.iter().map(|v| v.prefix)).collect()
        },
        _ => panic!("a string column was expected"),
    }
}

fn by_all() -> [ChunkId<24>; 4] {
    [
        ChunkId::store(2, 1),
        ChunkId::store(0, 0),
        ChunkId::store(1, 0),
        ChunkId::store(0, 1),
    ]
}

fn by_some() -> [ChunkId<24>; 3] {
    [ChunkId::store(2, 0), ChunkId::null(), ChunkId::store(0, 1)]
}

#[test]
fn a_numeric_column_is_gathered_under_its_type() {
    let out = ints("n").take_chunked_unchecked(&by_all(), IsSorted::Not);
    assert_eq!(out.name, "n");
    assert!(matches!(out.dtype, DataType::Int32));
    let Storage::Int32(ca) = &out.storage else {
        panic!("the encoding changed");
    };
    assert_eq!(rows(ca), vec![Some(5), Some(1), Some(3), Some(2)]);
    assert!(out.is_wf());
}

#[test]
fn a_boolean_column_is_gathered_with_nulls_for_null_addresses() {
    let out = flags("f").take_opt_chunked_unchecked(&by_some());
    let Storage::Boolean(ca) = &out.storage else {
        panic!("the encoding changed");
    };
    assert_eq!(rows(ca), vec![Some(false), None, Some(false)]);
}

#[test]
fn a_logical_type_comes_back_on_the_gathered_values() {
    let date = Series {
        name: "d".to_string(),
        dtype: DataType::Date,
        storage: Storage::Int32(chunked("d", &[&[100, 200], &[300]])),
    };
    assert!(date.is_wf());
    let by: [ChunkId<24>; 2] = [ChunkId::store(1, 0), ChunkId::store(0, 1)];
    let out = date.take_chunked_unchecked(&by, IsSorted::Not);
    assert!(matches!(out.dtype, DataType::Date));
    let Storage::Int32(ca) = &out.storage else {
        panic!("the encoding changed");
    };
    assert_eq!(rows(ca), vec![Some(300), Some(200)]);
}

#[test]
fn a_decimal_column_keeps_precision_and_scale() {
    let amounts = Series {
        name: "amount".to_string(),
        dtype: DataType::Decimal(Some(10), Some(2)),
        storage: Storage::Int128(chunked("amount", &[&[12345i128], &[-1, 99]])),
    };
    assert!(amounts.is_wf());
    let by: [ChunkId<24>; 3] = [
        ChunkId::store(1, 1),
        ChunkId::store(0, 0),
        ChunkId::null(),
    ];
    let out = amounts.take_opt_chunked_unchecked(&by);
    assert!(matches!(out.dtype, DataType::Decimal(Some(10), Some(2))));
    let Storage::Int128(ca) = &out.storage else {
        panic!("the encoding changed");
    };
    assert_eq!(rows(ca), vec![Some(99), Some(12345), None]);
}

#[test]
fn the_physical_type_of_each_logical_type() {
    assert!(matches!(DataType::Date.to_physical(), DataType::Int32));
    assert!(matches!(DataType::Datetime.to_physical(), DataType::Int64));
    assert!(matches!(DataType::Duration.to_physical(), DataType::Int64));
    assert!(matches!(DataType::Time.to_physical(), DataType::Int64));
    assert!(matches!(DataType::Decimal(None, Some(3)).to_physical(), DataType::Int128));
    assert!(matches!(DataType::Categorical.to_physical(), DataType::UInt32));
    assert!(matches!(DataType::Enum.to_physical(), DataType::UInt32));
    assert!(matches!(DataType::String.to_physical(), DataType::String));
    assert!(matches!(DataType::Array(3).to_physical(), DataType::Array(3)));
    assert!(DataType::List.is_nested());
    assert!(DataType::Struct.is_nested());
    assert!(DataType::Array(2).is_nested());
    assert!(!DataType::Int8.is_nested());
}

#[test]
fn prepare_series_shows_the_stored_values_under_the_physical_type() {
    let date = Series {
        name: "d".to_string(),
        dtype: DataType::Date,
        storage: Storage::Int32(chunked("d", &[&[100, 200], &[300]])),
    };
    let physical = prepare_series(&date);
    assert!(matches!(physical.dtype, DataType::Int32));
    assert_eq!(physical.name, "d");
    let Storage::Int32(ca) = physical.storage else {
        panic!("the encoding changed");
    };
    assert_eq!(ca.n_chunks(), 2);
}

#[test]
fn a_struct_column_is_gathered_field_by_field() {
    let pair = Series {
        name: "pair".to_string(),
        dtype: DataType::Struct,
        storage: Storage::Struct(vec![ints("left"), flags("right"), short_texts("text")], 5),
    };
    assert!(pair.is_wf());
    let out = pair.take_chunked_unchecked(&by_all(), IsSorted::Not);
    assert_eq!(out.name, "pair");
    let Storage::Struct(fields, height) = &out.storage else {
        panic!("the encoding changed");
    };
    assert_eq!(*height, 4);
    assert_eq!(fields.len(), 3);
    assert_eq!(fields[0].name, "left");
    assert_eq!(fields[1].name, "right");
    assert_eq!(fields[2].name, "text");
    let Storage::Int32(left) = &fields[0].storage else {
        panic!("the encoding changed");
    };
    assert_eq!(rows(left), vec![Some(5), Some(1), Some(3), Some(2)]);
    let Storage::Boolean(right) = &fields[1].storage else {
        panic!("the encoding changed");
    };
    assert_eq!(rows(right), vec![Some(false), Some(true), Some(true), Some(false)]);
    let letters: Vec<u32> = ["e", "a", "c", "b"].iter().map(|t| t.as_bytes()[0] as u32).collect();
    assert_eq!(first_bytes(&fields[2]), letters);
}

#[test]
fn a_struct_in_a_struct_is_gathered_all_the_way_down() {
    let inner = Series {
        name: "inner".to_string(),
        dtype: DataType::Struct,
        storage: Storage::Struct(vec![ints("deep")], 5),
    };
    let outer = Series {
        name: "outer".to_string(),
        dtype: DataType::Struct,
        storage: Storage::Struct(vec![inner, flags("flat")], 5),
    };
    let out = outer.take_opt_chunked_unchecked(&by_some());
    let Storage::Struct(fields, height) = &out.storage else {
        panic!("the encoding changed");
    };
    assert_eq!(*height, 3);
    let Storage::Struct(inner_fields, inner_height) = &fields[0].storage else {
        panic!("the encoding changed");
    };
    assert_eq!(*inner_height, 3);
    let Storage::Int32(deep) = &inner_fields[0].storage else {
        panic!("the encoding changed");
    };
    assert_eq!(rows(deep), vec![Some(4), None, Some(2)]);
}

#[test]
fn a_null_column_gives_as_many_rows_as_addresses() {
    let nothing = Series::new_null("nothing".to_string(), 5);
    let out = nothing.take_chunked_unchecked(&by_all(), IsSorted::Not);
    assert_eq!(out.name, "nothing");
    assert!(matches!(out.storage, Storage::Null(4)));
    let out = nothing.take_opt_chunked_unchecked(&by_some());
    assert!(matches!(out.storage, Storage::Null(3)));
    assert!(matches!(out.dtype, DataType::Null));
}

#[test]
fn a_list_column_carries_its_runs_along() {
    let run = |offset: usize, length: usize| ListSlice { values: 7, offset, length };
    let lists = Series {
        name: "l".to_string(),
        dtype: DataType::List,
        storage: Storage::List(chunked("l", &[&[run(0, 2), run(2, 0)], &[run(2, 5)]])),
    };
    let by: [ChunkId<24>; 3] = [
        ChunkId::store(1, 0),
        ChunkId::store(0, 0),
        ChunkId::store(1, 0),
    ];
    let out = lists.take_chunked_unchecked(&by, IsSorted::Not);
    let Storage::List(ca) = &out.storage else {
        panic!("the encoding changed");
    };
    assert_eq!(rows(ca), vec![Some(run(2, 5)), Some(run(0, 2)), Some(run(2, 5))]);

    let arrays = Series {
        name: "w".to_string(),
        dtype: DataType::Array(2),
        storage: Storage::Array(chunked("w", &[&[run(0, 2)], &[run(2, 2)]]), 2),
    };
    assert!(arrays.is_wf());
    let by: [ChunkId<24>; 2] = [ChunkId::null(), ChunkId::store(1, 0)];
    let out = arrays.take_opt_chunked_unchecked(&by);
    let Storage::Array(ca, width) = &out.storage else {
        panic!("the encoding changed");
    };
    assert_eq!(*width, 2);
    assert_eq!(rows(ca), vec![None, Some(run(2, 2))]);
}

fn objects() -> Series {
    let mut ca = chunked("o", &[&[ObjectRef { id: 1 }, ObjectRef { id: 2 }], &[ObjectRef { id: 3 }]]);
    ca.chunks[0].validity = Some(Bitmap::from_iter([true, false]));
    Series { name: "o".to_string(), dtype: DataType::Object, storage: Storage::Object(ca) }
}

#[test]
fn an_object_column_is_built_row_by_row() {
    let by: [ChunkId<24>; 3] = [
        ChunkId::store(1, 0),
        ChunkId::store(0, 1),
        ChunkId::store(0, 0),
    ];
    let out = take_unchecked_object(&objects(), &by, IsSorted::Ascending);
    assert_eq!(out.name, "o");
    let Storage::Object(ca) = &out.storage else {
        panic!("the encoding changed");
    };
    assert_eq!(rows(ca), vec![Some(ObjectRef { id: 3 }), None, Some(ObjectRef { id: 1 })]);
    assert_eq!(ca.sorted, IsSorted::Not);

    let by: [ChunkId<24>; 3] = [
        ChunkId::null(),
        ChunkId::store(1, 0),
        ChunkId::store(0, 1),
    ];
    let out = take_opt_unchecked_object(&objects(), &by);
    let Storage::Object(ca) = &out.storage else {
        panic!("the encoding changed");
    };
    assert_eq!(rows(ca), vec![None, Some(ObjectRef { id: 3 }), None]);

    let out = objects().take_opt_chunked_unchecked(&by);
    let Storage::Object(ca) = &out.storage else {
        panic!("the encoding changed");
    };
    assert_eq!(rows(ca), vec![None, Some(ObjectRef { id: 3 }), None]);
}

#[test]
fn the_object_builder_appends_values_and_nulls() {
    let mut builder = ObjectBuilder::new("built".to_string(), 3);
    builder.append_option(Some(ObjectRef { id: 9 }));
    builder.append_null();
    builder.append_option(None);
    builder.append_option(Some(ObjectRef { id: 4 }));
    let out = builder.to_series();
    assert_eq!(out.name, "built");
    let Storage::Object(ca) = &out.storage else {
        panic!("the encoding changed");
    };
    assert_eq!(ca.n_chunks(), 1);
    assert_eq!(
        rows(ca),
        vec![Some(ObjectRef { id: 9 }), None, None, Some(ObjectRef { id: 4 })]
    );
}

fn table() -> DataFrame {
    DataFrame::new_no_checks(
        5,
        vec![
            ints("n").into_column(),
            short_texts("t").into_column(),
            flags("f").into_column(),
        ],
    )
}

fn int_rows(column: &Column) -> Vec<Option<i32>> {
    match &column.as_materialized_series().storage {
        Storage::Int32(ca) => rows(ca),
        _ => panic!("an integer column was expected"),
    }
}

#[test]
fn a_table_is_gathered_column_by_column() {
    let out = TakeChunked::take_chunked_unchecked(&table(), &by_all(), IsSorted::Not);
    assert_eq!(out.height, 4);
    let names: Vec<&str> = out.columns.iter().map(|c| c.series.name.as_str()).collect();
    assert_eq!(names, vec!["n", "t", "f"]);
    assert_eq!(int_rows(&out.columns[0]), vec![Some(5), Some(1), Some(3), Some(2)]);
    let letters: Vec<u32> = ["e", "a", "c", "b"].iter().map(|t| t.as_bytes()[0] as u32).collect();
    assert_eq!(first_bytes(&out.columns[1].series), letters);

    let out = TakeChunked::take_opt_chunked_unchecked(&table(), &by_some());
    assert_eq!(out.height, 3);
    assert_eq!(out.columns.len(), 3);
    assert_eq!(int_rows(&out.columns[0]), vec![Some(4), None, Some(2)]);
}

#[test]
fn a_table_without_columns_has_as_many_rows_as_addresses() {
    let empty = DataFrame::new_no_checks(0, Vec::new());
    let out = empty.take_chunked_unchecked(&by_all(), IsSorted::Not);
    assert_eq!(out.height, 4);
    assert!(out.columns.is_empty());
}

#[test]
fn side_by_side_gives_what_one_after_the_other_gives() {
    let one = TakeChunked::take_chunked_unchecked(&table(), &by_all(), IsSorted::Not);
    let two = table()._take_chunked_unchecked_hor_par(&by_all(), IsSorted::Not);
    assert_eq!(one.height, two.height);
    assert_eq!(int_rows(&one.columns[0]), int_rows(&two.columns[0]));
    assert_eq!(first_bytes(&one.columns[1].series), first_bytes(&two.columns[1].series));

    let one = TakeChunked::take_opt_chunked_unchecked(&table(), &by_some());
    let two = table()._take_opt_chunked_unchecked_hor_par(&by_some());
    assert_eq!(one.height, two.height);
    assert_eq!(int_rows(&one.columns[0]), int_rows(&two.columns[0]));
}

#[test]
fn a_column_of_a_table_is_gathered_as_its_series() {
    let column = ints("n").into_column();
    let out = TakeChunked::take_chunked_unchecked(&column, &by_all(), IsSorted::Not);
    assert_eq!(int_rows(&out), vec![Some(5), Some(1), Some(3), Some(2)]);
    let out = TakeChunked::take_opt_chunked_unchecked(&column, &by_some());
    assert_eq!(int_rows(&out), vec![Some(4), None, Some(2)]);
}

#[test]
fn the_checked_gather_of_a_series_says_when_it_cannot_gather() {
    let pair = Series {
        name: "pair".to_string(),
        dtype: DataType::Struct,
        storage: Storage::Struct(vec![ints("left"), flags("right")], 5),
    };
    assert!(pair.take_chunked(&by_all(), IsSorted::Not).is_some());
    assert!(pair.take_chunked(&by_some(), IsSorted::Not).is_none());
    assert!(pair.take_opt_chunked(&by_some()).is_some());
    let beyond: [ChunkId<24>; 1] = [ChunkId::store(1, 1)];
    assert!(pair.take_chunked(&beyond, IsSorted::Not).is_none());
    assert!(pair.take_opt_chunked(&beyond).is_none());

    let mislabelled = Series {
        name: "n".to_string(),
        dtype: DataType::Int64,
        storage: Storage::Int32(chunked("n", &[&[1, 2]])),
    };
    assert!(!mislabelled.is_wf());
    let by: [ChunkId<24>; 1] = [ChunkId::store(0, 0)];
    assert!(mislabelled.take_chunked(&by, IsSorted::Not).is_none());
}

#[test]
fn the_checked_gather_of_a_table_says_when_it_cannot_gather() {
    let out = table().take_chunked(&by_all(), IsSorted::Not).unwrap();
    assert_eq!(out.height, 4);
    assert!(table().take_chunked(&by_some(), IsSorted::Not).is_none());
    let out = table().take_opt_chunked(&by_some()).unwrap();
    assert_eq!(int_rows(&out.columns[0]), vec![Some(4), None, Some(2)]);
    let beyond: [ChunkId<24>; 1] = [ChunkId::store(3, 0)];
    assert!(table().take_opt_chunked(&beyond).is_none());
}
