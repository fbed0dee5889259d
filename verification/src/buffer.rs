//! Handing a text to a caller who owns the buffer and declares its size:
//! the text is cut to fit and always ends in a zero byte.

use vstd::prelude::*;

verus! {

/// How much of a buffer may be written: what the caller declares, as far
/// as the buffer really reaches.
pub open spec fn capacity_of(buffer_len: nat, max_len: usize) -> nat {
    if max_len <= buffer_len {
        max_len as nat
    } else {
        buffer_len
    }
}

/// How many bytes of a text of `text_len` bytes, counted with its
/// terminator, are copied under `capacity`: one byte is held back for the
/// final zero.
pub open spec fn copied_len(capacity: nat, text_len: nat) -> nat
    recommends
        capacity >= 1,
{
    if capacity - 1 <= text_len + 1 {
        (capacity - 1) as nat
    } else {
        text_len + 1
    }
}

/// What a buffer holds after `text` was copied into it under `capacity`:
/// the text with its terminator, cut to one byte less than the capacity,
/// then a zero; every byte behind that zero is as it was.
pub open spec fn terminated_copy(before: Seq<u8>, capacity: nat, text: Seq<u8>) -> Seq<u8>
    recommends
        1 <= capacity <= before.len(),
{
    let source = text.push(0u8);
    let copied = copied_len(capacity, text.len());
    Seq::new(
        before.len(),
        |i: int|
            if i < copied {
                source[i]
            } else if i == copied {
                0u8
            } else {
                before[i]
            },
    )
}

/// Whether `bytes` holds a zero byte.
pub open spec fn has_nul(bytes: Seq<u8>) -> bool {
    exists|i: int| 0 <= i < bytes.len() && #[trigger] bytes[i] == 0
}

/// Whether `bytes` holds a zero byte.
pub fn contains_nul(bytes: &[u8]) -> (found: bool)
    ensures
        found == has_nul(bytes@),
{
    let mut i: usize = 0;
    while i < bytes.len()
        invariant
            i <= bytes.len(),
            forall|k: int| 0 <= k < i ==> #[trigger] bytes@[k] != 0,
        decreases bytes.len() - i,
    {
        if bytes[i] == 0 {
            return true;
        }
        i += 1;
    }
    false
}

/// Copies `text` into `buffer` as a zero-terminated string, under the size
/// `max_len` that the caller declares.
///
/// Nothing is written, and the result is `false`, where the text holds a
/// zero byte of its own or where there is no room for even the terminator.
/// Else the text is cut to fit, a zero follows it, and the result is `true`:
/// a text too long for the buffer is no failure.
pub fn copy_terminated(buffer: &mut [u8], max_len: usize, text: &[u8]) -> (written: bool)
    ensures
        written == (capacity_of(old(buffer)@.len(), max_len) >= 1 && !has_nul(text@)),
        written ==> final(buffer)@ == terminated_copy(
            old(buffer)@,
            capacity_of(old(buffer)@.len(), max_len),
            text@,
        ),
        !written ==> final(buffer)@ == old(buffer)@,
{
    let capacity: usize = if max_len <= buffer.len() {
        max_len
    } else {
        buffer.len()
    };
    if capacity == 0 || contains_nul(text) {
        return false;
    }
    let copied: usize = if capacity - 1 <= text.len() {
        capacity - 1
    } else {
        text.len()
    };
    let ghost source = text@.push(0u8);
    let mut i: usize = 0;
    while i < copied
        invariant
            i <= copied,
            copied <= text.len(),
            copied < buffer.len(),
            buffer@.len() == old(buffer)@.len(),
            source == text@.push(0u8),
            forall|k: int| 0 <= k < i ==> buffer@[k] == source[k],
            forall|k: int| i <= k < buffer@.len() ==> buffer@[k] == old(buffer)@[k],
        decreases copied - i,
    {
        buffer[i] = text[i];
        i += 1;
    }
    buffer[copied] = 0;
    if copied < capacity - 1 {
        buffer[copied + 1] = 0;
    }
    assert(buffer@ =~= terminated_copy(old(buffer)@, capacity as nat, text@));
    true
}

/// The buffer contract. A copy under a capacity of at least one never
/// writes at or behind the capacity, keeps the buffer's length, and leaves
/// a zero byte within the capacity; what stands before the first zero is
/// the text, or as much of it as fits.
pub proof fn lemma_copy_stays_within(before: Seq<u8>, capacity: nat, text: Seq<u8>)
    requires
        1 <= capacity <= before.len(),
        !has_nul(text),
    ensures
        terminated_copy(before, capacity, text).len() == before.len(),
        forall|i: int|
            capacity <= i < before.len() ==> #[trigger] terminated_copy(before, capacity, text)[i]
                == before[i],
        ({
            let kept = if capacity - 1 <= text.len() {
                capacity - 1
            } else {
                text.len() as int
            };
            &&& kept < capacity
            &&& terminated_copy(before, capacity, text)[kept] == 0
            &&& terminated_copy(before, capacity, text).subrange(0, kept) == text.subrange(0, kept)
            &&& forall|i: int|
                0 <= i < kept ==> #[trigger] terminated_copy(before, capacity, text)[i] != 0
        }),
{
    let after = terminated_copy(before, capacity, text);
    let kept = if capacity - 1 <= text.len() {
        capacity - 1
    } else {
        text.len() as int
    };
    assert(after.subrange(0, kept) =~= text.subrange(0, kept));
    assert forall|i: int| 0 <= i < kept implies #[trigger] after[i] != 0 by {
        assert(text[i] != 0);
    }
}

} // verus!
