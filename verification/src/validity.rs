//! Validity bitmaps: one bit per row, set where the row holds a value.
use polars_arrow::bitmap::Bitmap;
use polars_arrow::bitmap::BitmapBuilder;
use vstd::prelude::*;

verus! {

#[verifier::external_type_specification]
#[verifier::external_body]
pub struct ExBitmap(Bitmap);

#[verifier::external_type_specification]
#[verifier::external_body]
pub struct ExBitmapBuilder(BitmapBuilder);

/// The bits that a bitmap holds, first to last.
pub uninterp spec fn bitmap_bits(bitmap: Bitmap) -> Seq<bool>;

/// The bits pushed into a builder so far, first to last.
pub uninterp spec fn builder_bits(builder: BitmapBuilder) -> Seq<bool>;

/// `BitmapBuilder::with_capacity`: the new builder holds no bit.
pub assume_specification[ BitmapBuilder::with_capacity ](bits: usize) -> (builder: BitmapBuilder)
    ensures
        builder_bits(builder) == Seq::<bool>::empty(),
;

/// `BitmapBuilder::push`: the bit is appended behind those pushed before.
pub assume_specification[ BitmapBuilder::push ](builder: &mut BitmapBuilder, x: bool)
    requires
        builder_bits(*old(builder)).len() < usize::MAX,
    ensures
        builder_bits(*final(builder)) == builder_bits(*old(builder)).push(x),
;

/// `BitmapBuilder::freeze`: the bitmap holds the pushed bits, in the order
/// they were pushed.
pub assume_specification[ BitmapBuilder::freeze ](builder: BitmapBuilder) -> (bitmap: Bitmap)
    ensures
        bitmap_bits(bitmap) == builder_bits(builder),
;

/// `Bitmap::len`: the number of bits.
pub assume_specification[ Bitmap::len ](bitmap: &Bitmap) -> (n: usize)
    ensures
        n == bitmap_bits(*bitmap).len(),
;

/// `Bitmap::get_bit`: the bit at `i`. The outside function panics past the end.
pub assume_specification[ Bitmap::get_bit ](bitmap: &Bitmap, i: usize) -> (bit: bool)
    requires
        i < bitmap_bits(*bitmap).len(),
    ensures
        bit == bitmap_bits(*bitmap)[i as int],
;

/// The number of bits of `bits` that are not set.
pub open spec fn unset_count(bits: Seq<bool>) -> nat
    decreases bits.len(),
{
    if bits.len() == 0 {
        0
    } else {
        unset_count(bits.drop_last()) + if bits.last() {
            0nat
        } else {
            1nat
        }
    }
}

/// No bit is counted as unset exactly when every bit is set.
pub proof fn lemma_unset_count_zero(bits: Seq<bool>)
    ensures
        unset_count(bits) <= bits.len(),
        (unset_count(bits) == 0) == (forall|i: int| 0 <= i < bits.len() ==> bits[i]),
    decreases bits.len(),
{
    if bits.len() > 0 {
        let front = bits.drop_last();
        lemma_unset_count_zero(front);
        if unset_count(bits) == 0 {
            assert forall|i: int| 0 <= i < bits.len() implies bits[i] by {
                if i < front.len() {
                    assert(front[i]);
                }
            }
        } else if bits.last() {
            let i = choose|i: int| 0 <= i < front.len() && !front[i];
        }
    }
}

/// `Bitmap::unset_bits`: the number of bits that are not set.
pub assume_specification[ Bitmap::unset_bits ](bitmap: &Bitmap) -> (n: usize)
    ensures
        n == unset_count(bitmap_bits(*bitmap)),
;

/// Whether row `i` holds a value, for a column whose validity is `validity`.
/// A column without a bitmap has no null row.
pub open spec fn is_valid_at(validity: Option<Bitmap>, i: int) -> bool {
    match validity {
        None => true,
        Some(bitmap) => bitmap_bits(bitmap)[i],
    }
}

/// A validity bitmap, where there is one, has one bit per row.
pub open spec fn validity_covers(validity: Option<Bitmap>, rows: nat) -> bool {
    match validity {
        None => true,
        Some(bitmap) => bitmap_bits(bitmap).len() == rows,
    }
}

/// Whether row `i` is null. `None` means that the column has no null row.
pub fn is_null_at(validity: &Option<Bitmap>, i: usize) -> (null: bool)
    requires
        validity matches Some(bitmap) ==> i < bitmap_bits(*bitmap).len(),
    ensures
        null == !is_valid_at(*validity, i as int),
{
    match validity {
        None => false,
        Some(bitmap) => !bitmap.get_bit(i),
    }
}

/// Checks that a validity bitmap, where there is one, has one bit per row.
pub fn covers(validity: &Option<Bitmap>, rows: usize) -> (ok: bool)
    ensures
        ok == validity_covers(*validity, rows as nat),
{
    match validity {
        None => true,
        Some(bitmap) => bitmap.len() == rows,
    }
}

/// Whether some row is null.
pub open spec fn some_null(validity: Option<Bitmap>) -> bool {
    match validity {
        None => false,
        Some(bitmap) => exists|i: int| 0 <= i < bitmap_bits(bitmap).len() && !bitmap_bits(bitmap)[i],
    }
}

/// Whether the column has a null row.
pub fn has_null_bit(validity: &Option<Bitmap>) -> (nulls: bool)
    ensures
        nulls == some_null(*validity),
{
    match validity {
        None => false,
        Some(bitmap) => {
            proof {
                lemma_unset_count_zero(bitmap_bits(*bitmap));
            }
            bitmap.unset_bits() > 0
        },
    }
}

} // verus!
