//! The codec: the fixed, versionless binary representation of a question.
//!
//! A question is stored as one flat byte string: the identifier (4 bytes,
//! little endian), the author (32 bytes), the text's byte length (2 bytes,
//! little endian) followed by the text in UTF-8, the category discriminant
//! (1 byte), the creation timestamp (8 bytes, little endian) and the two
//! vote counters (4 bytes each, little endian). Decoding rejects every byte
//! string that this layout does not produce: a wrong total length, text that
//! is not UTF-8 or longer than the creation-time cap, or an unknown category
//! discriminant.

use vstd::bytes::{
    lemma_auto_spec_u16_to_from_le_bytes, lemma_auto_spec_u32_to_from_le_bytes,
    lemma_auto_spec_u64_to_from_le_bytes, spec_u16_from_le_bytes, spec_u16_to_le_bytes,
    spec_u32_from_le_bytes, spec_u32_to_le_bytes, spec_u64_from_le_bytes, spec_u64_to_le_bytes,
    u16_from_le_bytes, u16_to_le_bytes, u32_from_le_bytes, u32_to_le_bytes, u64_from_le_bytes,
    u64_to_le_bytes,
};
use vstd::prelude::*;
use vstd::slice::{slice_index_get, slice_subrange, spec_slice_len};
use vstd::string::{StrSliceExecFns, StringSliceAdditionalSpecFns};
use vstd::utf8::{
    decode_utf8, encode_scalar, encode_utf8, encode_utf8_decode_utf8, encode_utf8_valid_utf8,
    valid_utf8,
};

use crate::record::{
    spec_category_code, spec_category_from_code, AccountId, Category, Question, QuestionView,
    TEXT_LIMIT,
};

verus! {

/// Bytes that precede the text: identifier (4), author (32), text length (2).
pub const HEADER_LEN: usize = 38;

/// Bytes that follow the text: category (1), timestamp (8), counters (4 + 4).
pub const TRAILER_LEN: usize = 17;

/// The encoding of a question: every valid question has exactly this one
/// byte string as its representation.
pub open spec fn spec_encode(q: QuestionView) -> Seq<u8>
    recommends
        q.wf(),
{
    spec_u32_to_le_bytes(q.id) + q.author + spec_u16_to_le_bytes(
        encode_utf8(q.text).len() as u16,
    ) + encode_utf8(q.text) + seq![spec_category_code(q.category)] + spec_u64_to_le_bytes(
        q.created_at,
    ) + spec_u32_to_le_bytes(q.upvotes) + spec_u32_to_le_bytes(q.downvotes)
}

/// The question a byte string represents, or `None` when the bytes are not
/// the encoding of any well-formed question.
pub open spec fn spec_decode(b: Seq<u8>) -> Option<QuestionView> {
    if b.len() < HEADER_LEN {
        None
    } else {
        let tlen = spec_u16_from_le_bytes(b.subrange(36, 38)) as int;
        if b.len() != HEADER_LEN + TRAILER_LEN + tlen {
            None
        } else {
            let text_bytes = b.subrange(38, 38 + tlen);
            if !valid_utf8(text_bytes) {
                None
            } else if decode_utf8(text_bytes).len() > TEXT_LIMIT {
                None
            } else {
                match spec_category_from_code(b[38 + tlen]) {
                    None => None,
                    Some(category) => Some(
                        QuestionView {
                            id: spec_u32_from_le_bytes(b.subrange(0, 4)),
                            author: b.subrange(4, 36),
                            text: decode_utf8(text_bytes),
                            category,
                            created_at: spec_u64_from_le_bytes(
                                b.subrange(39 + tlen, 47 + tlen),
                            ),
                            upvotes: spec_u32_from_le_bytes(b.subrange(47 + tlen, 51 + tlen)),
                            downvotes: spec_u32_from_le_bytes(b.subrange(51 + tlen, 55 + tlen)),
                        },
                    ),
                }
            }
        }
    }
}

/// A UTF-8 encoding never takes more than four bytes per character.
pub proof fn lemma_encode_utf8_len(t: Seq<char>)
    ensures
        encode_utf8(t).len() <= 4 * t.len(),
    decreases t.len(),
{
    if t.len() == 0 {
    } else {
        lemma_encode_utf8_len(t.drop_first());
        assert(encode_scalar(t[0] as u32).len() <= 4);
    }
}

/// Relies on core::str::from_utf8: it returns `Ok` exactly on UTF-8 input,
/// and the returned slice borrows the very bytes it was given.
#[verifier::external_body]
fn utf8_to_str(bytes: &[u8]) -> (r: Option<&str>)
    ensures
        r is Some <==> valid_utf8(bytes@),
        r matches Some(s) ==> s.spec_bytes() == bytes@,
{
    core::str::from_utf8(bytes).ok()
}

/// Serializes a question into its binary representation.
pub fn encode(q: &Question) -> (out: Vec<u8>)
    requires
        q.wf(),
    ensures
        out@ == spec_encode(q@),
        out@.len() == HEADER_LEN + TRAILER_LEN + encode_utf8(q@.text).len(),
{
    proof {
        lemma_encode_utf8_len(q@.text);
    }
    let mut out = u32_to_le_bytes(q.id);
    let mut i: usize = 0;
    while i < 32
        invariant
            i <= 32,
            q.author@.len() == 32,
            out@ == spec_u32_to_le_bytes(q.id) + q.author@.take(i as int),
        decreases 32 - i,
    {
        out.push(q.author[i]);
        proof {
            assert(spec_u32_to_le_bytes(q.id) + q.author@.take(i + 1) =~= (spec_u32_to_le_bytes(
                q.id,
            ) + q.author@.take(i as int)).push(q.author@[i as int]));
        }
        i = i + 1;
    }
    proof {
        assert(q.author@.take(32) =~= q.author@);
    }
    let text_bytes: &[u8] = q.text.as_str().as_bytes();
    let tlen = text_bytes.len();
    let mut len_bytes = u16_to_le_bytes(tlen as u16);
    out.append(&mut len_bytes);
    let mut text_vec = vstd::slice::slice_to_vec(text_bytes);
    out.append(&mut text_vec);
    out.push(q.category.code());
    let mut ts_bytes = u64_to_le_bytes(q.created_at);
    out.append(&mut ts_bytes);
    let mut up_bytes = u32_to_le_bytes(q.upvotes);
    out.append(&mut up_bytes);
    let mut down_bytes = u32_to_le_bytes(q.downvotes);
    out.append(&mut down_bytes);
    proof {
        lemma_auto_spec_u16_to_from_le_bytes();
        lemma_auto_spec_u32_to_from_le_bytes();
        lemma_auto_spec_u64_to_from_le_bytes();
        assert(out@ =~= spec_encode(q@));
    }
    out
}

/// Reads 32 bytes starting at `off` into a fresh identity value.
fn read_account(bytes: &[u8], off: usize) -> (a: AccountId)
    requires
        off + 32 <= bytes@.len(),
    ensures
        a@ == bytes@.subrange(off as int, off as int + 32),
{
    proof {
        broadcast use vstd::slice::axiom_spec_len;

        assert(spec_slice_len(bytes) == bytes@.len());
        assert(off + 32 <= usize::MAX);
    }
    let mut a: AccountId = [0u8; 32];
    let mut i: usize = 0;
    while i < 32
        invariant
            i <= 32,
            off + 32 <= usize::MAX,
            off + 32 <= bytes@.len(),
            a@.len() == 32,
            forall|j: int| 0 <= j < i ==> a@[j] == bytes@[off + j],
        decreases 32 - i,
    {
        a[i] = *slice_index_get(bytes, off + i);
        i = i + 1;
    }
    proof {
        assert(a@ =~= bytes@.subrange(off as int, off as int + 32));
    }
    a
}

/// Deserializes a question from its binary representation; `None` on any
/// malformed input.
pub fn decode(bytes: &[u8]) -> (r: Option<Question>)
    ensures
        r is Some <==> spec_decode(bytes@) is Some,
        r matches Some(q) ==> Some(q@) == spec_decode(bytes@) && q.wf(),
{
    broadcast use encode_utf8_decode_utf8;

    if bytes.len() < HEADER_LEN {
        return None;
    }
    let tlen = u16_from_le_bytes(slice_subrange(bytes, 36, 38)) as usize;
    if bytes.len() != HEADER_LEN + TRAILER_LEN + tlen {
        return None;
    }
    let text_slice = slice_subrange(bytes, HEADER_LEN, HEADER_LEN + tlen);
    let s = match utf8_to_str(text_slice) {
        Some(s) => s,
        None => {
            return None;
        },
    };
    if s.unicode_len() > TEXT_LIMIT {
        return None;
    }
    let category = match Category::from_code(*slice_index_get(bytes, HEADER_LEN + tlen)) {
        Some(c) => c,
        None => {
            return None;
        },
    };
    let id = u32_from_le_bytes(slice_subrange(bytes, 0, 4));
    let author = read_account(bytes, 4);
    let created_at = u64_from_le_bytes(
        slice_subrange(bytes, HEADER_LEN + tlen + 1, HEADER_LEN + tlen + 9),
    );
    let upvotes = u32_from_le_bytes(
        slice_subrange(bytes, HEADER_LEN + tlen + 9, HEADER_LEN + tlen + 13),
    );
    let downvotes = u32_from_le_bytes(
        slice_subrange(bytes, HEADER_LEN + tlen + 13, HEADER_LEN + tlen + 17),
    );
    let text = s.to_owned();
    let q = Question { id, author, text, category, created_at, upvotes, downvotes };
    Some(q)
}

/// Round-trip: decoding the encoding of any well-formed question gives back
/// exactly that question.
pub proof fn lemma_encode_decode(q: QuestionView)
    requires
        q.wf(),
    ensures
        spec_decode(spec_encode(q)) == Some(q),
{
    broadcast use encode_utf8_decode_utf8, encode_utf8_valid_utf8;

    lemma_auto_spec_u16_to_from_le_bytes();
    lemma_auto_spec_u32_to_from_le_bytes();
    lemma_auto_spec_u64_to_from_le_bytes();
    lemma_encode_utf8_len(q.text);
    let b = spec_encode(q);
    let tb = encode_utf8(q.text);
    let tlen = tb.len() as int;
    assert(b.len() == HEADER_LEN + TRAILER_LEN + tlen);
    assert(b.subrange(36, 38) =~= spec_u16_to_le_bytes(tb.len() as u16));
    assert(spec_u16_from_le_bytes(b.subrange(36, 38)) as int == tlen);
    assert(b.subrange(38, 38 + tlen) =~= tb);
    assert(b.subrange(0, 4) =~= spec_u32_to_le_bytes(q.id));
    assert(b.subrange(4, 36) =~= q.author);
    assert(b[38 + tlen] == spec_category_code(q.category));
    assert(b.subrange(39 + tlen, 47 + tlen) =~= spec_u64_to_le_bytes(q.created_at));
    assert(b.subrange(47 + tlen, 51 + tlen) =~= spec_u32_to_le_bytes(q.upvotes));
    assert(b.subrange(51 + tlen, 55 + tlen) =~= spec_u32_to_le_bytes(q.downvotes));
    assert(spec_decode(b) == Some(q));
}

/// The inverse round-trip: a byte string that decodes at all is exactly the
/// encoding of the question it decodes to. With `lemma_encode_decode` this
/// makes the codec a bijection between decodable byte strings and
/// well-formed questions.
pub proof fn lemma_decode_encode(b: Seq<u8>)
    requires
        spec_decode(b) is Some,
    ensures
        spec_encode(spec_decode(b).unwrap()) == b,
{
    broadcast use vstd::utf8::decode_utf8_encode_utf8;

    lemma_auto_spec_u16_to_from_le_bytes();
    lemma_auto_spec_u32_to_from_le_bytes();
    lemma_auto_spec_u64_to_from_le_bytes();
    let q = spec_decode(b).unwrap();
    let tlen = spec_u16_from_le_bytes(b.subrange(36, 38)) as int;
    let tb = b.subrange(38, 38 + tlen);
    assert(encode_utf8(q.text) == tb);
    assert(spec_u16_to_le_bytes(tb.len() as u16) =~= b.subrange(36, 38));
    assert(spec_u32_to_le_bytes(q.id) =~= b.subrange(0, 4));
    assert(seq![spec_category_code(q.category)] =~= b.subrange(38 + tlen, 39 + tlen));
    assert(spec_u64_to_le_bytes(q.created_at) =~= b.subrange(39 + tlen, 47 + tlen));
    assert(spec_u32_to_le_bytes(q.upvotes) =~= b.subrange(47 + tlen, 51 + tlen));
    assert(spec_u32_to_le_bytes(q.downvotes) =~= b.subrange(51 + tlen, 55 + tlen));
    assert(spec_encode(q) =~= b);
}

/// Corruption tolerance for truncation: no strict prefix of a decodable byte
/// string decodes; cutting an encoding anywhere makes it malformed.
pub proof fn lemma_decode_prefix_fails(b: Seq<u8>, n: int)
    requires
        spec_decode(b) is Some,
        0 <= n < b.len(),
    ensures
        spec_decode(b.take(n)) is None,
{
    let p = b.take(n);
    if n >= HEADER_LEN {
        assert(p.subrange(36, 38) =~= b.subrange(36, 38));
    }
}

} // verus!
