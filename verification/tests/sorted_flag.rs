use chunked_gather::sorted::update_gather_sorted_flag;
use chunked_gather::sorted::IsSorted;

#[test]
fn unknown_order_of_either_side_gives_not_sorted() {
    for flag in [IsSorted::Ascending, IsSorted::Descending, IsSorted::Not] {
        assert_eq!(update_gather_sorted_flag(flag, IsSorted::Not), IsSorted::Not);
        assert_eq!(update_gather_sorted_flag(IsSorted::Not, flag), IsSorted::Not);
    }
}

#[test]
fn ascending_addresses_keep_the_direction() {
    assert_eq!(
        update_gather_sorted_flag(IsSorted::Ascending, IsSorted::Ascending),
        IsSorted::Ascending
    );
    assert_eq!(
        update_gather_sorted_flag(IsSorted::Descending, IsSorted::Ascending),
        IsSorted::Descending
    );
}

#[test]
fn descending_addresses_turn_the_direction_round() {
    assert_eq!(
        update_gather_sorted_flag(IsSorted::Ascending, IsSorted::Descending),
        IsSorted::Descending
    );
    assert_eq!(
        update_gather_sorted_flag(IsSorted::Descending, IsSorted::Descending),
        IsSorted::Ascending
    );
}
