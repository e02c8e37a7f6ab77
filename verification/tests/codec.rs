use chunked_gather::chunk_id::ChunkId;

#[test]
fn store_then_extract_gives_the_pair_back() {
    let id: ChunkId<24> = ChunkId::store(213908, 813457);
    assert_eq!(id.extract(), (213908, 813457));
    assert!(!id.is_null());
}

#[test]
fn the_packed_value_holds_the_row_above_the_chunk() {
    let id: ChunkId<24> = ChunkId::store(5, 3);
    assert_eq!(id.into_inner(), (3u64 << 24) | 5);
    let id: ChunkId<8> = ChunkId::store(0x12, 0x3456);
    assert_eq!(id.into_inner(), 0x34_5612);
}

#[test]
fn the_null_address_is_all_ones_and_decodes_to_none() {
    let id: ChunkId<24> = ChunkId::null();
    assert!(id.is_null());
    assert_eq!(id.into_inner(), u64::MAX);
    assert_eq!(id.decode(), None);
}

#[test]
fn a_stored_address_decodes_to_its_pair() {
    let id: ChunkId<24> = ChunkId::store(2, 7);
    assert_eq!(id.decode(), Some((2, 7)));
    let id: ChunkId<24> = ChunkId::store(0, 0);
    assert_eq!(id.decode(), Some((0, 0)));
    assert!(!id.is_null());
}

#[test]
fn the_largest_pair_of_a_width_is_not_null() {
    // 24 bits of chunk: the chunk index stays below the all-ones field.
    let chunk = (1u32 << 24) - 2;
    let row = u32::MAX;
    let id: ChunkId<24> = ChunkId::store(chunk, row);
    assert!(!id.is_null());
    assert_eq!(id.extract(), (chunk, row));
    // 32 bits of chunk and 32 bits of row fill the whole word.
    let id: ChunkId<32> = ChunkId::store(u32::MAX - 1, u32::MAX);
    assert!(!id.is_null());
    assert_eq!(id.decode(), Some((u32::MAX - 1, u32::MAX)));
}

#[test]
fn extract_of_null_gives_the_all_ones_fields() {
    let id: ChunkId<24> = ChunkId::null();
    assert_eq!(id.extract(), ((1u32 << 24) - 1, u32::MAX));
}

#[test]
fn an_address_goes_through_its_packed_value_unchanged() {
    let id: ChunkId<16> = ChunkId::store(9, 1000);
    let again: ChunkId<16> = ChunkId::from_inner(id.into_inner());
    assert_eq!(again.decode(), Some((9, 1000)));
    let null: ChunkId<16> = ChunkId::from_inner(u64::MAX);
    assert!(null.is_null());
}

#[test]
fn a_narrow_chunk_field_leaves_room_for_the_row() {
    let id: ChunkId<1> = ChunkId::store(0, 123456);
    assert_eq!(id.decode(), Some((0, 123456)));
    assert_eq!(id.into_inner(), 123456u64 << 1);
}

#[test]
fn the_packing_is_that_of_polars() {
    let pairs = [
        (0u32, 0u32),
        (1, 0),
        (0, 1),
        (213908, 813457),
        ((1 << 24) - 2, u32::MAX),
        (77, 1 << 31),
    ];
    for (chunk, row) in pairs {
        let ours: ChunkId<24> = ChunkId::store(chunk, row);
        let theirs: polars_utils::index::ChunkId<24> =
            polars_utils::index::ChunkId::store(chunk, row);
        assert_eq!(ours.into_inner(), theirs.into_inner());
        assert_eq!(ours.extract(), theirs.extract());
        assert_eq!(ours.is_null(), theirs.is_null());
    }
    let ours: ChunkId<24> = ChunkId::null();
    let theirs: polars_utils::index::ChunkId<24> = polars_utils::index::ChunkId::null();
    assert_eq!(ours.into_inner(), theirs.into_inner());
    assert_eq!(ours.extract(), theirs.extract());
}
