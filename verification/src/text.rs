//! Text and its bytes: where plain ASCII stands in the UTF-8 bytes of a text,
//! the same characters stand in the text.

use vstd::prelude::*;
use vstd::utf8::*;

verus! {

/// Whether `text` holds the characters of `key` from position `pos` on.
pub open spec fn holds_text_at(text: Seq<char>, pos: int, key: Seq<char>) -> bool {
    &&& 0 <= pos
    &&& pos + key.len() <= text.len()
    &&& text.subrange(pos, pos + key.len()) == key
}

/// Whether the `len` bytes of `bytes` from position `pos` on are ASCII.
pub open spec fn is_ascii_run(bytes: Seq<u8>, pos: int, len: int) -> bool {
    &&& 0 <= pos
    &&& 0 <= len
    &&& pos + len <= bytes.len()
    &&& forall|k: int| pos <= k < pos + len ==> #[trigger] bytes[k] < 0x80
}

/// Whether the `len` characters of `text` from position `at` on are the
/// `len` bytes of `bytes` from position `pos` on, one for one.
pub open spec fn same_run(text: Seq<char>, at: int, bytes: Seq<u8>, pos: int, len: int) -> bool {
    &&& 0 <= at
    &&& at + len <= text.len()
    &&& forall|k: int| 0 <= k < len ==> #[trigger] text[at + k] as u32 == bytes[pos + k] as u32
}

/// A character of one byte is that byte, and every byte of a longer
/// character lies beyond ASCII.
proof fn lemma_scalar_bytes(scalar: u32)
    requires
        is_scalar(scalar),
    ensures
        1 <= encode_scalar(scalar).len() <= 4,
        has_width_1_encoding(scalar) ==> encode_scalar(scalar).len() == 1 && encode_scalar(
            scalar,
        )[0] as u32 == scalar,
        !has_width_1_encoding(scalar) ==> forall|k: int|
            0 <= k < encode_scalar(scalar).len() ==> #[trigger] encode_scalar(scalar)[k] >= 0x80,
{
    assert(scalar <= 0x7F ==> ((scalar & 0x7F) as u8) as u32 == scalar) by (bit_vector);
    assert(0xC0u8 | (((scalar >> 6) & 0x1F) as u8) >= 0x80u8) by (bit_vector);
    assert(0xE0u8 | (((scalar >> 12) & 0x0F) as u8) >= 0x80u8) by (bit_vector);
    assert(0xF0u8 | (((scalar >> 18) & 0x7) as u8) >= 0x80u8) by (bit_vector);
    assert(0x80u8 | ((scalar & 0x3F) as u8) >= 0x80u8) by (bit_vector);
    assert(0x80u8 | (((scalar >> 6) & 0x3F) as u8) >= 0x80u8) by (bit_vector);
    assert(0x80u8 | (((scalar >> 12) & 0x3F) as u8) >= 0x80u8) by (bit_vector);
}

/// Where the bytes of a text begin with ASCII, the text begins with the same
/// characters.
pub proof fn lemma_ascii_prefix_is_text(text: Seq<char>, len: int)
    requires
        is_ascii_run(encode_utf8(text), 0, len),
    ensures
        same_run(text, 0, encode_utf8(text), 0, len),
    decreases text.len(),
{
    let bytes = encode_utf8(text);
    if len > 0 {
        assert(text.len() > 0);
        let first = text[0] as u32;
        let rest = text.drop_first();
        char_is_scalar(text[0]);
        lemma_scalar_bytes(first);
        assert(bytes[0] == encode_scalar(first)[0]);
        assert(bytes[0] < 0x80);
        assert(has_width_1_encoding(first));
        assert(encode_utf8(rest) =~= bytes.subrange(1, bytes.len() as int));
        assert forall|k: int| 0 <= k < len - 1 implies #[trigger] encode_utf8(rest)[k] < 0x80 by {
            assert(encode_utf8(rest)[k] == bytes[k + 1]);
        }
        lemma_ascii_prefix_is_text(rest, len - 1);
        assert forall|k: int| 0 <= k < len implies #[trigger] text[0 + k] as u32 == bytes[0 + k] as u32 by {
            if k > 0 {
                assert(text[k] == rest[0 + (k - 1)]);
                assert(bytes[k] == encode_utf8(rest)[0 + (k - 1)]);
            }
        }
    }
}

/// Where the bytes of a text hold ASCII, the text holds the same characters:
/// a byte of ASCII is never a part of a longer character.
pub proof fn lemma_ascii_run_is_text(text: Seq<char>, pos: int, len: int)
    requires
        is_ascii_run(encode_utf8(text), pos, len),
        len > 0,
    ensures
        exists|at: int| #[trigger] same_run(text, at, encode_utf8(text), pos, len),
    decreases text.len(),
{
    let bytes = encode_utf8(text);
    assert(text.len() > 0);
    let first = text[0] as u32;
    let rest = text.drop_first();
    let width = encode_scalar(first).len() as int;
    char_is_scalar(text[0]);
    lemma_scalar_bytes(first);
    assert(encode_utf8(rest) =~= bytes.subrange(width, bytes.len() as int));
    if pos >= width {
        assert forall|k: int| pos - width <= k < pos - width + len implies #[trigger] encode_utf8(
            rest,
        )[k] < 0x80 by {
            assert(encode_utf8(rest)[k] == bytes[k + width]);
        }
        let shifted = pos - width;
        lemma_ascii_run_is_text(rest, shifted, len);
        let at = choose|at: int| #[trigger] same_run(rest, at, encode_utf8(rest), shifted, len);
        assert forall|k: int| 0 <= k < len implies #[trigger] text[at + 1 + k] as u32 == bytes[pos
            + k] as u32 by {
            assert(text[at + 1 + k] == rest[at + k]);
            assert(bytes[pos + k] == encode_utf8(rest)[pos - width + k]);
        }
        assert(same_run(text, at + 1, bytes, pos, len));
    } else {
        assert(bytes[pos] == encode_scalar(first)[pos]);
        assert(bytes[pos] < 0x80);
        assert(pos == 0);
        lemma_ascii_prefix_is_text(text, len);
    }
}

} // verus!
