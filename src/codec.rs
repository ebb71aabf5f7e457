//! The canonical byte encoding of a product.
//!
//! Layout, integers little-endian: id (8 bytes), name length (4) and name
//! (UTF-8), description length (4) and description (UTF-8), price (8),
//! cashback percentage (1), creation time (8), then a tag byte, 0 for no
//! update time or 1 followed by the update time (8).
use vstd::bytes::{
    lemma_auto_spec_u32_to_from_le_bytes, lemma_auto_spec_u64_to_from_le_bytes,
    spec_u32_from_le_bytes, spec_u32_to_le_bytes, spec_u64_from_le_bytes, spec_u64_to_le_bytes,
    u32_from_le_bytes, u32_to_le_bytes, u64_from_le_bytes, u64_to_le_bytes,
};
use vstd::prelude::*;
use vstd::slice::slice_subrange;
use vstd::utf8::{
    decode_utf8, encode_utf8, encode_utf8_decode_utf8, encode_utf8_valid_utf8, valid_utf8,
};

use crate::record::{PayloadView, Product, ProductPayload, ProductView};

verus! {

/// The largest number of bytes that an encoded product may take.
pub const MAX_SIZE: usize = 1024;

/// The bytes of a text: its UTF-8 length in four bytes, then its UTF-8 bytes.
pub open spec fn text_bytes(s: Seq<char>) -> Seq<u8> {
    spec_u32_to_le_bytes(encode_utf8(s).len() as u32) + encode_utf8(s)
}

/// The bytes of an optional time: a tag byte, then the time if there is one.
pub open spec fn stamp_bytes(t: Option<u64>) -> Seq<u8> {
    match t {
        None => seq![0u8],
        Some(x) => seq![1u8] + spec_u64_to_le_bytes(x),
    }
}

/// The bytes that follow the two texts.
pub open spec fn tail_bytes(v: ProductView) -> Seq<u8> {
    spec_u64_to_le_bytes(v.price) + (seq![v.cashback_percentage] + (spec_u64_to_le_bytes(
        v.created_at,
    ) + stamp_bytes(v.updated_at)))
}

/// The canonical encoding of a product.
pub open spec fn encode_view(v: ProductView) -> Seq<u8> {
    spec_u64_to_le_bytes(v.id) + (text_bytes(v.name) + (text_bytes(v.description) + tail_bytes(v)))
}

/// A product is valid when its encoding fits within the size bound.
pub open spec fn fits(v: ProductView) -> bool {
    encode_view(v).len() <= MAX_SIZE
}

/// The bytes that an encoding takes besides its two texts, at most.
pub const FIXED_SIZE: usize = 42;

/// A payload is within bound when any product made of it fits.
pub open spec fn payload_within_bound(v: PayloadView) -> bool {
    encode_utf8(v.name).len() + encode_utf8(v.description).len() <= MAX_SIZE - FIXED_SIZE
}

/// The product made of a payload and the fields that the store sets.
pub open spec fn product_of(
    id: u64,
    pl: PayloadView,
    created_at: u64,
    updated_at: Option<u64>,
) -> ProductView {
    ProductView {
        id,
        name: pl.name,
        description: pl.description,
        price: pl.price,
        cashback_percentage: pl.cashback_percentage,
        created_at,
        updated_at,
    }
}

/// Every product made of a payload within bound fits.
pub proof fn lemma_payload_fits(id: u64, pl: PayloadView, created_at: u64, updated_at: Option<u64>)
    requires
        payload_within_bound(pl),
    ensures
        fits(product_of(id, pl, created_at, updated_at)),
        encode_utf8(pl.name).len() <= u32::MAX,
        encode_utf8(pl.description).len() <= u32::MAX,
{
    lemma_auto_spec_u64_to_from_le_bytes();
    lemma_auto_spec_u32_to_from_le_bytes();
}

/// Whether a payload is within bound.
pub fn payload_fits(p: &ProductPayload) -> (r: bool)
    ensures
        r == payload_within_bound(p@),
{
    let a = p.name.as_str().as_bytes().len();
    let b = p.description.as_str().as_bytes().len();
    a <= MAX_SIZE - FIXED_SIZE && b <= MAX_SIZE - FIXED_SIZE - a
}

/// What the bytes from `at` on say of the fields after the two texts, with the
/// fields before them given.
pub open spec fn parse_tail(
    b: Seq<u8>,
    at: int,
    id: u64,
    name: Seq<char>,
    description: Seq<char>,
) -> Option<ProductView> {
    if b.len() < at + 18 {
        None
    } else {
        let head = ProductView {
            id,
            name,
            description,
            price: spec_u64_from_le_bytes(b.subrange(at, at + 8)),
            cashback_percentage: b[at + 8],
            created_at: spec_u64_from_le_bytes(b.subrange(at + 9, at + 17)),
            updated_at: None,
        };
        if b[at + 17] == 0 && b.len() == at + 18 {
            Some(head)
        } else if b[at + 17] == 1 && b.len() == at + 26 {
            Some(
                ProductView {
                    updated_at: Some(spec_u64_from_le_bytes(b.subrange(at + 18, at + 26))),
                    ..head
                },
            )
        } else {
            None
        }
    }
}

/// The product that bytes encode, read field by field; `None` where they are
/// not a complete encoding.
pub open spec fn parse(b: Seq<u8>) -> Option<ProductView> {
    if b.len() < 12 {
        None
    } else {
        let n1 = spec_u32_from_le_bytes(b.subrange(8, 12)) as int;
        let name_end = 12 + n1;
        if b.len() < name_end + 4 || !valid_utf8(b.subrange(12, name_end)) {
            None
        } else {
            let n2 = spec_u32_from_le_bytes(b.subrange(name_end, name_end + 4)) as int;
            let texts_end = name_end + 4 + n2;
            if b.len() < texts_end || !valid_utf8(b.subrange(name_end + 4, texts_end)) {
                None
            } else {
                parse_tail(
                    b,
                    texts_end,
                    spec_u64_from_le_bytes(b.subrange(0, 8)),
                    decode_utf8(b.subrange(12, name_end)),
                    decode_utf8(b.subrange(name_end + 4, texts_end)),
                )
            }
        }
    }
}

/// Decoding the encoding of a valid product gives that product back.
pub proof fn lemma_round_trip(v: ProductView)
    requires
        fits(v),
    ensures
        parse(encode_view(v)) == Some(v),
{
    lemma_auto_spec_u64_to_from_le_bytes();
    lemma_auto_spec_u32_to_from_le_bytes();
    encode_utf8_valid_utf8(v.name);
    encode_utf8_valid_utf8(v.description);
    encode_utf8_decode_utf8(v.name);
    encode_utf8_decode_utf8(v.description);
    let b = encode_view(v);
    let nb = encode_utf8(v.name);
    let db = encode_utf8(v.description);
    let n1 = nb.len() as int;
    let n2 = db.len() as int;
    let name_end = 12 + n1;
    let texts_end = name_end + 4 + n2;
    let t = tail_bytes(v);
    assert(b.len() == texts_end + t.len());
    assert(n1 < 1024 && n2 < 1024);
    assert(b.subrange(0, 8) =~= spec_u64_to_le_bytes(v.id));
    assert(b.subrange(8, 12) =~= spec_u32_to_le_bytes(n1 as u32));
    assert(b.subrange(12, name_end) =~= nb);
    assert(b.subrange(name_end, name_end + 4) =~= spec_u32_to_le_bytes(n2 as u32));
    assert(b.subrange(name_end + 4, texts_end) =~= db);
    assert(b.subrange(texts_end, b.len() as int) =~= t);
    assert(b.subrange(texts_end, texts_end + 8) =~= spec_u64_to_le_bytes(v.price));
    assert(b[texts_end + 8] == v.cashback_percentage);
    assert(b.subrange(texts_end + 9, texts_end + 17) =~= spec_u64_to_le_bytes(v.created_at));
    match v.updated_at {
        None => {
            assert(b[texts_end + 17] == 0);
        },
        Some(x) => {
            assert(b[texts_end + 17] == 1);
            assert(b.subrange(texts_end + 18, texts_end + 26) =~= spec_u64_to_le_bytes(x));
        },
    }
}

/// Relies on `std::str::from_utf8`: it succeeds exactly on valid UTF-8, and
/// the text it returns is made of the given bytes.
#[verifier::external_body]
fn text_from_utf8(b: &[u8]) -> (r: Option<String>)
    ensures
        r is Some <==> valid_utf8(b@),
        r matches Some(s) ==> encode_utf8(s@) == b@,
{
    std::str::from_utf8(b).ok().map(String::from)
}

fn append_bytes(out: &mut Vec<u8>, src: &[u8])
    ensures
        final(out)@ == old(out)@ + src@,
{
    let ghost start = out@;
    let mut i: usize = 0;
    while i < src.len()
        invariant
            i <= src@.len(),
            out@ == start + src@.subrange(0, i as int),
        decreases src@.len() - i,
    {
        out.push(src[i]);
        i = i + 1;
        assert(out@ =~= start + src@.subrange(0, i as int));
    }
    assert(src@.subrange(0, i as int) =~= src@);
}

/// Appends a text in its encoded form: length, then UTF-8 bytes.
fn append_text(out: &mut Vec<u8>, s: &String)
    requires
        encode_utf8(s@).len() <= u32::MAX,
    ensures
        final(out)@ == old(out)@ + text_bytes(s@),
{
    let bytes = s.as_str().as_bytes();
    let len = u32_to_le_bytes(bytes.len() as u32);
    append_bytes(out, len.as_slice());
    append_bytes(out, bytes);
    assert(final(out)@ =~= old(out)@ + text_bytes(s@));
}

/// The canonical encoding of a product.
pub fn encode_product(p: &Product) -> (r: Vec<u8>)
    requires
        encode_utf8(p.name@).len() <= u32::MAX,
        encode_utf8(p.description@).len() <= u32::MAX,
    ensures
        r@ == encode_view(p@),
{
    let mut out: Vec<u8> = Vec::new();
    append_bytes(&mut out, u64_to_le_bytes(p.id).as_slice());
    append_text(&mut out, &p.name);
    append_text(&mut out, &p.description);
    append_bytes(&mut out, u64_to_le_bytes(p.price).as_slice());
    out.push(p.cashback_percentage);
    append_bytes(&mut out, u64_to_le_bytes(p.created_at).as_slice());
    match p.updated_at {
        None => out.push(0u8),
        Some(t) => {
            out.push(1u8);
            append_bytes(&mut out, u64_to_le_bytes(t).as_slice());
        },
    }
    assert(out@ =~= encode_view(p@));
    out
}

/// Reads a product back from its encoding; `None` where the bytes are not a
/// complete encoding.
pub fn decode_product(b: &[u8]) -> (r: Option<Product>)
    ensures
        match r {
            Some(p) => parse(b@) == Some(p@),
            None => parse(b@) is None,
        },
{
    if b.len() < 12 {
        return None;
    }
    let id = u64_from_le_bytes(slice_subrange(b, 0, 8));
    let n1 = u32_from_le_bytes(slice_subrange(b, 8, 12)) as usize;
    if b.len() - 12 < n1 || b.len() - 12 - n1 < 4 {
        return None;
    }
    let name_end = 12 + n1;
    let name = match text_from_utf8(slice_subrange(b, 12, name_end)) {
        Some(s) => s,
        None => return None,
    };
    proof {
        encode_utf8_decode_utf8(name@);
    }
    let n2 = u32_from_le_bytes(slice_subrange(b, name_end, name_end + 4)) as usize;
    if b.len() - name_end - 4 < n2 {
        return None;
    }
    let texts_end = name_end + 4 + n2;
    let description = match text_from_utf8(slice_subrange(b, name_end + 4, texts_end)) {
        Some(s) => s,
        None => return None,
    };
    proof {
        encode_utf8_decode_utf8(description@);
    }
    if b.len() - texts_end < 18 {
        return None;
    }
    let price = u64_from_le_bytes(slice_subrange(b, texts_end, texts_end + 8));
    let cashback_percentage = b[texts_end + 8];
    let created_at = u64_from_le_bytes(slice_subrange(b, texts_end + 9, texts_end + 17));
    let tag = b[texts_end + 17];
    let updated_at = if tag == 0 && b.len() - texts_end == 18 {
        None
    } else if tag == 1 && b.len() - texts_end == 26 {
        Some(u64_from_le_bytes(slice_subrange(b, texts_end + 18, texts_end + 26)))
    } else {
        return None;
    };
    Some(
        Product {
            id,
            name,
            description,
            price,
            cashback_percentage,
            created_at,
            updated_at,
        },
    )
}

} // verus!
