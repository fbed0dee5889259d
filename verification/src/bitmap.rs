//! What is taken on trust of the `roaring` crate's compressed bitmap, which
//! holds the blacklisted keys.

use vstd::prelude::*;
use vstd::set_lib::*;

verus! {

/// `roaring::RoaringBitmap`, a compressed set of 32-bit integers. Nothing of
/// its layout is known here.
#[verifier::external_type_specification]
#[verifier::external_body]
pub struct ExRoaringBitmap(roaring::RoaringBitmap);

/// The integers that a bitmap holds.
pub uninterp spec fn bitmap_values(bitmap: roaring::RoaringBitmap) -> Set<u32>;

/// `RoaringBitmap::new` makes an empty bitmap.
pub assume_specification[ roaring::RoaringBitmap::new ]() -> (bitmap: roaring::RoaringBitmap)
    ensures
        bitmap_values(bitmap) == Set::<u32>::empty(),
;

/// `RoaringBitmap::insert` adds `value` to the set and leaves every other
/// member as it was; it returns whether `value` was absent before.
pub assume_specification[ roaring::RoaringBitmap::insert ](
    bitmap: &mut roaring::RoaringBitmap,
    value: u32,
) -> (added: bool)
    ensures
        bitmap_values(*final(bitmap)) == bitmap_values(*old(bitmap)).insert(value),
        added == !bitmap_values(*old(bitmap)).contains(value),
;

/// `RoaringBitmap::contains` tells whether `value` is in the set.
pub assume_specification[ roaring::RoaringBitmap::contains ](
    bitmap: &roaring::RoaringBitmap,
    value: u32,
) -> (found: bool)
    ensures
        found == bitmap_values(*bitmap).contains(value),
;

/// `RoaringBitmap::len` counts the distinct integers in the set.
pub assume_specification[ roaring::RoaringBitmap::len ](
    bitmap: &roaring::RoaringBitmap,
) -> (count: u64)
    ensures
        count == bitmap_values(*bitmap).len(),
;

/// A set of 32-bit keys is finite, whatever it holds.
pub proof fn lemma_key_set_finite(keys: Set<u32>)
    ensures
        keys.finite(),
{
    let range = set_int_range(0, 0x1_0000_0000);
    let narrow = |i: int| i as u32;
    lemma_int_range(0, 0x1_0000_0000);
    range.lemma_map_finite(narrow);
    assert forall|key: u32| keys.contains(key) implies range.map(narrow).contains(key) by {
        assert(range.contains(key as int) && narrow(key as int) == key);
    }
    lemma_set_subset_finite(range.map(narrow), keys);
}

} // verus!
