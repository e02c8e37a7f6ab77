//! The sortedness flag of a column and how a gather changes it.
use polars_core::chunked_array::ops::gather::_update_gather_sorted_flag;
use polars_core::series::IsSorted as OutsideFlag;
use vstd::prelude::*;

verus! {

/// What is known of a column's order. It is a hint that is carried along,
/// never checked against the values.
#[derive(Clone, Copy, Debug, PartialEq, Eq, Structural)]
pub enum IsSorted {
    Ascending,
    Descending,
    Not,
}

/// The flag of a gathered column, from the flag of the source and the order
/// of the addresses. Without knowledge of either the result is `Not`.
/// Addresses in ascending order keep the direction of the source, addresses
/// in descending order turn it round.
pub open spec fn gather_sorted_flag(source: IsSorted, addresses: IsSorted) -> IsSorted {
    match (source, addresses) {
        (_, IsSorted::Not) => IsSorted::Not,
        (IsSorted::Not, _) => IsSorted::Not,
        (IsSorted::Ascending, IsSorted::Ascending) => IsSorted::Ascending,
        (IsSorted::Ascending, IsSorted::Descending) => IsSorted::Descending,
        (IsSorted::Descending, IsSorted::Ascending) => IsSorted::Descending,
        (IsSorted::Descending, IsSorted::Descending) => IsSorted::Ascending,
    }
}

/// Addresses in ascending order leave the flag of the source as it is.
pub proof fn lemma_ascending_keeps_flag(source: IsSorted)
    ensures
        gather_sorted_flag(source, IsSorted::Ascending) == source,
        gathered_flag(source, Some(IsSorted::Ascending)) == source,
{
}

/// The flag that a gather leaves: with the order of the addresses given, the
/// merged flag; without it, `Not`.
pub open spec fn gathered_flag(source: IsSorted, hint: Option<IsSorted>) -> IsSorted {
    match hint {
        Some(addresses) => gather_sorted_flag(source, addresses),
        None => IsSorted::Not,
    }
}

/// `_update_gather_sorted_flag` of polars-core, which is a table over its two
/// arguments; the contract is that table.
#[verifier::external_body]
fn outside_gather_sorted_flag(source: IsSorted, addresses: IsSorted) -> (flag: IsSorted)
    ensures
        flag == gather_sorted_flag(source, addresses),
{
    let source = match source {
        IsSorted::Ascending => OutsideFlag::Ascending,
        IsSorted::Descending => OutsideFlag::Descending,
        IsSorted::Not => OutsideFlag::Not,
    };
    let addresses = match addresses {
        IsSorted::Ascending => OutsideFlag::Ascending,
        IsSorted::Descending => OutsideFlag::Descending,
        IsSorted::Not => OutsideFlag::Not,
    };
    match _update_gather_sorted_flag(source, addresses) {
        OutsideFlag::Ascending => IsSorted::Ascending,
        OutsideFlag::Descending => IsSorted::Descending,
        OutsideFlag::Not => IsSorted::Not,
    }
}

/// The flag of a gathered column.
pub fn update_gather_sorted_flag(source: IsSorted, addresses: IsSorted) -> (flag: IsSorted)
    ensures
        flag == gather_sorted_flag(source, addresses),
        addresses == IsSorted::Ascending ==> flag == source,
        (source == IsSorted::Not || addresses == IsSorted::Not) ==> flag == IsSorted::Not,
{
    outside_gather_sorted_flag(source, addresses)
}

} // verus!
