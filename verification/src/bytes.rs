//! Byte strings: looking for one in another, and appending.

use vstd::prelude::*;

verus! {

/// Whether `text` holds `key` from position `pos` on.
pub open spec fn holds_key_at(text: Seq<u8>, pos: int, key: Seq<u8>) -> bool {
    &&& 0 <= pos
    &&& pos + key.len() <= text.len()
    &&& text.subrange(pos, pos + key.len()) == key
}

/// Whether `text` holds `key` from position `pos` on.
pub fn holds_at(text: &[u8], pos: usize, key: &[u8]) -> (found: bool)
    ensures
        found == holds_key_at(text@, pos as int, key@),
{
    if pos > text.len() || key.len() > text.len() - pos {
        return false;
    }
    let mut i: usize = 0;
    while i < key.len()
        invariant
            0 <= i <= key.len(),
            pos + key.len() <= text.len(),
            text@.subrange(pos as int, pos + i) == key@.take(i as int),
        decreases key.len() - i,
    {
        if text[pos + i] != key[i] {
            assert(text@.subrange(pos as int, pos + key.len())[i as int] != key@[i as int]);
            return false;
        }
        assert(text@.subrange(pos as int, pos + i + 1) =~= text@.subrange(pos as int, pos + i).push(
            text@[pos + i],
        ));
        assert(key@.take(i + 1) =~= key@.take(i as int).push(key@[i as int]));
        i += 1;
    }
    assert(key@.take(i as int) =~= key@);
    true
}

/// Appends `bytes` to `out`.
pub fn push_bytes(out: &mut Vec<u8>, bytes: &[u8])
    ensures
        final(out)@ == old(out)@ + bytes@,
{
    let mut i: usize = 0;
    while i < bytes.len()
        invariant
            0 <= i <= bytes.len(),
            out@ == old(out)@ + bytes@.take(i as int),
        decreases bytes.len() - i,
    {
        out.push(bytes[i]);
        assert(bytes@.take(i + 1) =~= bytes@.take(i as int).push(bytes@[i as int]));
        i += 1;
    }
    assert(bytes@.take(i as int) =~= bytes@);
}

} // verus!
