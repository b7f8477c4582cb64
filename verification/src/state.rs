use vstd::prelude::*;

use crate::bits::{
    lemma_mask_test_reads_bit, lemma_split_location, lemma_with_bit_preserves_others,
    lemma_with_bit_reads_back, lemma_with_bit_round_trip, lemma_zero_byte_clear, nth_bit, with_bit,
};
use crate::errors::StatusListError;
use crate::types::ListPurpose;

verus! {

/// Largest backing-array size, in bytes, a status list may be created with.
pub const MAX_SIZE: u16 = 512;

/// A fixed-capacity, bit-packed status registry. Bit `i` lives in byte
/// `i / 8` at offset `i % 8` (least-significant bit first) and records
/// the state of one credential slot.
#[derive(Debug)]
pub struct StatusList {
    /// The backing bytes; always exactly `size` of them.
    pub list: Vec<u8>,
    /// Declared capacity in bytes, so `size * 8` addressable bits.
    pub size: u16,
    /// The mutation policy, fixed at creation.
    pub purpose: ListPurpose,
}

impl StatusList {
    /// The structural invariant: the backing array matches the declared
    /// size, and the size respects the creation-time ceiling.
    pub open spec fn wf(self) -> bool {
        &&& self.list@.len() == self.size as nat
        &&& self.size <= MAX_SIZE
    }

    /// Number of addressable bit locations.
    pub open spec fn bit_len(self) -> int {
        (self.size as int) * 8
    }

    /// The value of the bit at `location`, read from the packed bytes.
    pub open spec fn bit_set(self, location: int) -> bool {
        nth_bit(self.list@[location / 8], (location % 8) as u8)
    }

    /// Builds a list of `size` zeroed bytes, refusing sizes over the ceiling.
    /// Every location of a fresh list therefore reads as false.
    pub fn new(size: u16, purpose: ListPurpose) -> (r: Result<StatusList, StatusListError>)
        ensures
            size > MAX_SIZE ==> r == Err::<StatusList, StatusListError>(
                StatusListError::SizeTooLarge,
            ),
            size <= MAX_SIZE ==> match r {
                Ok(l) => {
                    &&& l.wf()
                    &&& l.size == size
                    &&& l.purpose == purpose
                    &&& forall|k: int| 0 <= k < size as int ==> l.list@[k] == 0u8
                    &&& forall|j: int| 0 <= j < l.bit_len() ==> !l.bit_set(j)
                },
                Err(_) => false,
            },
    {
        if size > MAX_SIZE {
            return Err(StatusListError::SizeTooLarge);
        }
        let mut list: Vec<u8> = Vec::new();
        let mut i: u16 = 0;
        while i < size
            invariant
                i <= size,
                list@.len() == i as nat,
                forall|k: int| 0 <= k < i as int ==> list@[k] == 0u8,
            decreases size - i,
        {
            list.push(0u8);
            i = i + 1;
        }
        let l = StatusList { list, size, purpose };
        proof {
            assert forall|j: int| 0 <= j < l.bit_len() implies !l.bit_set(j) by {
                assert(0 <= j / 8 < size as int);
                assert(0 <= j % 8 < 8);
                lemma_zero_byte_clear((j % 8) as u8);
            }
        }
        Ok(l)
    }

    /// Accepts exactly the locations below `size * 8`; the arithmetic is
    /// done in 32 bits so the bit count cannot wrap for any `u16` size.
    fn require_in_bounds(&self, location: u16) -> (r: Result<(), StatusListError>)
        ensures
            r == (if (location as int) < self.bit_len() {
                Ok::<(), StatusListError>(())
            } else {
                Err::<(), StatusListError>(StatusListError::OutOfBounds)
            }),
    {
        let bit_len: u32 = (self.size as u32) << 3;
        proof {
            let s: u32 = self.size as u32;
            assert(s << 3 == s * 8) by (bit_vector)
                requires
                    s <= 0xFFFF,
            ;
        }
        if (location as u32) < bit_len {
            Ok(())
        } else {
            Err(StatusListError::OutOfBounds)
        }
    }

    /// Reads the bit at `location`. Pure: the list is never changed.
    pub fn get(&self, location: u16) -> (r: Result<bool, StatusListError>)
        requires
            self.wf(),
        ensures
            r == (if (location as int) < self.bit_len() {
                Ok::<bool, StatusListError>(self.bit_set(location as int))
            } else {
                Err::<bool, StatusListError>(StatusListError::OutOfBounds)
            }),
    {
        self.require_in_bounds(location)?;

        let position: u16 = location >> 3;
        proof {
            lemma_split_location(location, self.size);
        }
        let flag: u8 = 1u8 << (location & 0b111);
        proof {
            lemma_mask_test_reads_bit(self.list@[location as int / 8], (location & 7) as u8);
        }
        Ok(self.list[position as usize] & flag != 0)
    }

    /// Writes `value` into the bit at `location`, leaving every other
    /// location's bit untouched. Private: `toggle` is the only mutation
    /// the list exposes.
    fn set(&mut self, location: u16, value: bool)
        requires
            old(self).wf(),
            (location as int) < old(self).bit_len(),
        ensures
            final(self).wf(),
            final(self).size == old(self).size,
            final(self).purpose == old(self).purpose,
            final(self).list@ == old(self).list@.update(
                location as int / 8,
                with_bit(
                    old(self).list@[location as int / 8],
                    (location as int % 8) as u8,
                    value,
                ),
            ),
            final(self).bit_set(location as int) == value,
            forall|j: int|
                0 <= j < old(self).bit_len() && j != location as int ==> final(self).bit_set(j)
                    == old(self).bit_set(j),
    {
        let position: u16 = location >> 3;
        proof {
            lemma_split_location(location, self.size);
        }
        let flag: u8 = 1u8 << (location & 0b111);
        let v: u8 = self.list[position as usize];
        let w: u8 = if value {
            v | flag
        } else {
            v & !flag
        };
        self.list.set(position as usize, w);
        proof {
            let p = location as int / 8;
            let k = (location as int % 8) as u8;
            assert(w == with_bit(old(self).list@[p], k, value));
            lemma_with_bit_reads_back(old(self).list@[p], k, value);
            assert forall|j: int|
                0 <= j < old(self).bit_len() && j != location as int implies self.bit_set(j)
                == old(self).bit_set(j) by {
                vstd::arithmetic::div_mod::lemma_fundamental_div_mod(j, 8);
                vstd::arithmetic::div_mod::lemma_fundamental_div_mod(location as int, 8);
                if j / 8 == p {
                    assert((j % 8) as u8 != k);
                    lemma_with_bit_preserves_others(old(self).list@[p], k, (j % 8) as u8, value);
                }
            }
        }
    }

    /// Flips the bit at `location`, subject to the list's policy: under
    /// `Revocation` a set bit is final and the flip is refused; under
    /// `Suspension` every in-bounds flip succeeds. On any failure the
    /// list is left exactly as it was.
    pub fn toggle(&mut self, location: u16) -> (r: Result<(), StatusListError>)
        requires
            old(self).wf(),
        ensures
            final(self).wf(),
            final(self).size == old(self).size,
            final(self).purpose == old(self).purpose,
            (location as int) >= old(self).bit_len() ==> r == Err::<(), StatusListError>(
                StatusListError::OutOfBounds,
            ) && final(self).list@ == old(self).list@,
            (location as int) < old(self).bit_len() && old(self).purpose
                == ListPurpose::Revocation && old(self).bit_set(location as int) ==> r == Err::<
                (),
                StatusListError,
            >(StatusListError::StatusNotReversible) && final(self).list@ == old(self).list@,
            (location as int) < old(self).bit_len() && !(old(self).purpose
                == ListPurpose::Revocation && old(self).bit_set(location as int)) ==> r == Ok::<
                (),
                StatusListError,
            >(()) && toggled(*old(self), *final(self), location) && final(self).bit_set(
                location as int,
            ) == !old(self).bit_set(location as int) && forall|j: int|
                0 <= j < old(self).bit_len() && j != location as int ==> final(self).bit_set(j)
                    == old(self).bit_set(j),
    {
        let value = match self.get(location) {
            Ok(v) => v,
            Err(e) => {
                return Err(e);
            },
        };

        if self.purpose == ListPurpose::Revocation && value {
            return Err(StatusListError::StatusNotReversible);
        }

        self.set(location, !value);

        Ok(())
    }
}

impl PartialEq for StatusList {
    /// Structural equality: same declared size, same purpose, same bytes.
    fn eq(&self, other: &StatusList) -> (r: bool) {
        if self.size != other.size || !(self.purpose == other.purpose) {
            return false;
        }
        if self.list.len() != other.list.len() {
            return false;
        }
        let mut i: usize = 0;
        while i < self.list.len()
            invariant
                i <= self.list@.len(),
                self.list@.len() == other.list@.len(),
                forall|k: int| 0 <= k < i as int ==> self.list@[k] == other.list@[k],
            decreases self.list@.len() - i,
        {
            if self.list[i] != other.list[i] {
                return false;
            }
            i = i + 1;
        }
        proof {
            assert(self.list@ =~= other.list@);
        }
        true
    }
}

impl vstd::std_specs::cmp::PartialEqSpecImpl for StatusList {
    open spec fn obeys_eq_spec() -> bool {
        true
    }

    open spec fn eq_spec(&self, other: &StatusList) -> bool {
        &&& self.size == other.size
        &&& self.purpose == other.purpose
        &&& self.list@ == other.list@
    }
}

/// How one successful `toggle` of `location` rewrites the list: the byte
/// holding the bit has that bit inverted, and nothing else changes. All
/// of the success case of `toggle`'s contract is gathered here, so that
/// facts about chains of toggles can be stated over it.
pub open spec fn toggled(pre: StatusList, post: StatusList, location: u16) -> bool {
    &&& post.size == pre.size
    &&& post.purpose == pre.purpose
    &&& post.list@ == pre.list@.update(
        location as int / 8,
        with_bit(
            pre.list@[location as int / 8],
            (location as int % 8) as u8,
            !pre.bit_set(location as int),
        ),
    )
}

/// Immediately after creation every valid location reads as false: `new`
/// hands out only zeroed bytes, and `get` reports exactly the stored bit,
/// so the two contracts meet in this statement.
pub proof fn lemma_fresh_list_reads_false(l: StatusList, location: u16)
    requires
        l.wf(),
        forall|k: int| 0 <= k < l.size as int ==> l.list@[k] == 0u8,
        (location as int) < l.bit_len(),
    ensures
        !l.bit_set(location as int),
{
    lemma_zero_byte_clear((location as int % 8) as u8);
}

/// Toggling is its own inverse where the policy allows it: two successful
/// toggles of the same location leave the list byte-for-byte as it began.
/// Under `Suspension` the second toggle is always allowed, so the pair of
/// `toggled` steps below is exactly what two calls of `toggle` produce.
pub proof fn lemma_toggle_round_trip(
    before: StatusList,
    mid: StatusList,
    after: StatusList,
    location: u16,
)
    requires
        before.wf(),
        (location as int) < before.bit_len(),
        toggled(before, mid, location),
        toggled(mid, after, location),
    ensures
        after.size == before.size,
        after.purpose == before.purpose,
        after.list@ == before.list@,
{
    let p = location as int / 8;
    let k = (location as int % 8) as u8;
    let b = before.list@[p];
    assert(0 <= p < before.list@.len());
    lemma_with_bit_reads_back(b, k, !nth_bit(b, k));
    assert(mid.bit_set(location as int) == !before.bit_set(location as int));
    lemma_with_bit_round_trip(b, k);
    assert(after.list@ =~= before.list@);
}

} // verus!
