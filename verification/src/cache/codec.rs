//! The byte layout of the metadata stored with each cache entry, and its
//! decoding.
//!
//! Layout: `created_at`, a tag byte (1 when there is an expiry, 0 otherwise),
//! `expires_at` (0 when there is none), `access_count`, `last_accessed_at` and
//! `size_bytes`, each a little-endian `u64`, then the entry's scope in UTF-8.
use vstd::prelude::*;
use crate::cache::types::CacheEntryMetadata;

verus! {

/// Metadata of an entry together with the scope it was stored under.
#[derive(Debug, Clone)]
pub struct StoredMeta {
    /// Times, counts and size.
    pub meta: CacheEntryMetadata,
    /// Scope the entry was stored under.
    pub scope: String,
}

/// What stored metadata holds.
pub struct StoredMetaView {
    /// Times, counts and size.
    pub meta: CacheEntryMetadata,
    /// Scope.
    pub scope: Seq<char>,
}

impl View for StoredMeta {
    type V = StoredMetaView;

    open spec fn view(&self) -> StoredMetaView {
        StoredMetaView { meta: self.meta, scope: self.scope@ }
    }
}

/// The eight little-endian bytes of `v`.
pub open spec fn le_bytes(v: u64) -> Seq<u8> {
    seq![
        (v & 0xff) as u8,
        ((v >> 8u64) & 0xff) as u8,
        ((v >> 16u64) & 0xff) as u8,
        ((v >> 24u64) & 0xff) as u8,
        ((v >> 32u64) & 0xff) as u8,
        ((v >> 40u64) & 0xff) as u8,
        ((v >> 48u64) & 0xff) as u8,
        ((v >> 56u64) & 0xff) as u8,
    ]
}

/// The `u64` of eight little-endian bytes starting at `at`.
pub open spec fn le_value(b: Seq<u8>, at: int) -> u64 {
    (b[at] as u64) | ((b[at + 1] as u64) << 8u64) | ((b[at + 2] as u64) << 16u64)
        | ((b[at + 3] as u64) << 24u64) | ((b[at + 4] as u64) << 32u64)
        | ((b[at + 5] as u64) << 40u64) | ((b[at + 6] as u64) << 48u64) | ((b[at + 7] as u64) << 56u64)
}

/// Length of the fixed part of the layout.
pub const HEADER_LEN: usize = 41;

/// The bytes of stored metadata.
pub open spec fn encoding(m: StoredMetaView) -> Seq<u8> {
    le_bytes(m.meta.created_at)
        + seq![if m.meta.expires_at is Some { 1u8 } else { 0u8 }]
        + le_bytes(match m.meta.expires_at { Some(e) => e, None => 0 })
        + le_bytes(m.meta.access_count)
        + le_bytes(m.meta.last_accessed_at)
        + le_bytes(m.meta.size_bytes as u64)
        + vstd::utf8::encode_utf8(m.scope)
}

/// What decoding bytes gives: metadata when the header is whole, the tag is 0 or
/// 1, the size fits a `usize` and the rest is UTF-8.
pub open spec fn decoding(b: Seq<u8>) -> Option<StoredMetaView> {
    if b.len() < HEADER_LEN || !(b[8] == 0 || b[8] == 1) || le_value(b, 33) > usize::MAX
        || !vstd::utf8::valid_utf8(b.subrange(HEADER_LEN as int, b.len() as int)) {
        None
    } else {
        Some(StoredMetaView {
            meta: CacheEntryMetadata {
                created_at: le_value(b, 0),
                expires_at: if b[8] == 1 { Some(le_value(b, 9)) } else { None },
                access_count: le_value(b, 17),
                last_accessed_at: le_value(b, 25),
                size_bytes: le_value(b, 33) as usize,
            },
            scope: vstd::utf8::decode_utf8(b.subrange(HEADER_LEN as int, b.len() as int)),
        })
    }
}

proof fn lemma_le_roundtrip(v: u64)
    ensures
        le_value(le_bytes(v), 0) == v,
{
    let b0 = (v & 0xff) as u8;
    let b1 = ((v >> 8u64) & 0xff) as u8;
    let b2 = ((v >> 16u64) & 0xff) as u8;
    let b3 = ((v >> 24u64) & 0xff) as u8;
    let b4 = ((v >> 32u64) & 0xff) as u8;
    let b5 = ((v >> 40u64) & 0xff) as u8;
    let b6 = ((v >> 48u64) & 0xff) as u8;
    let b7 = ((v >> 56u64) & 0xff) as u8;
    assert(le_bytes(v)[0] == b0 && le_bytes(v)[1] == b1 && le_bytes(v)[2] == b2 && le_bytes(v)[3] == b3);
    assert(le_bytes(v)[4] == b4 && le_bytes(v)[5] == b5 && le_bytes(v)[6] == b6 && le_bytes(v)[7] == b7);
    assert((b0 as u64) | ((b1 as u64) << 8u64) | ((b2 as u64) << 16u64) | ((b3 as u64) << 24u64)
        | ((b4 as u64) << 32u64) | ((b5 as u64) << 40u64) | ((b6 as u64) << 48u64) | ((b7 as u64) << 56u64) == v)
        by (bit_vector)
        requires
            b0 == (v & 0xff) as u8,
            b1 == ((v >> 8u64) & 0xff) as u8,
            b2 == ((v >> 16u64) & 0xff) as u8,
            b3 == ((v >> 24u64) & 0xff) as u8,
            b4 == ((v >> 32u64) & 0xff) as u8,
            b5 == ((v >> 40u64) & 0xff) as u8,
            b6 == ((v >> 48u64) & 0xff) as u8,
            b7 == ((v >> 56u64) & 0xff) as u8;
}

proof fn lemma_le_at(b: Seq<u8>, at: int, v: u64)
    requires
        0 <= at,
        at + 8 <= b.len(),
        b.subrange(at, at + 8) == le_bytes(v),
    ensures
        le_value(b, at) == v,
{
    lemma_le_roundtrip(v);
    assert(b[at] == le_bytes(v)[0]);
    assert(b[at + 1] == le_bytes(v)[1]);
    assert(b[at + 2] == le_bytes(v)[2]);
    assert(b[at + 3] == le_bytes(v)[3]);
    assert(b[at + 4] == le_bytes(v)[4]);
    assert(b[at + 5] == le_bytes(v)[5]);
    assert(b[at + 6] == le_bytes(v)[6]);
    assert(b[at + 7] == le_bytes(v)[7]);
}

/// Decoding the encoding of metadata gives the metadata back.
pub proof fn law_metadata_roundtrip(m: StoredMetaView)
    ensures
        decoding(encoding(m)) == Some(m),
{
    let e = encoding(m);
    let exp = match m.meta.expires_at { Some(x) => x, None => 0u64 };
    let scope_bytes = vstd::utf8::encode_utf8(m.scope);
    assert(e.subrange(0, 8) =~= le_bytes(m.meta.created_at));
    assert(e.subrange(9, 17) =~= le_bytes(exp));
    assert(e.subrange(17, 25) =~= le_bytes(m.meta.access_count));
    assert(e.subrange(25, 33) =~= le_bytes(m.meta.last_accessed_at));
    assert(e.subrange(33, 41) =~= le_bytes(m.meta.size_bytes as u64));
    assert(e.subrange(HEADER_LEN as int, e.len() as int) =~= scope_bytes);
    lemma_le_at(e, 0, m.meta.created_at);
    lemma_le_at(e, 9, exp);
    lemma_le_at(e, 17, m.meta.access_count);
    lemma_le_at(e, 25, m.meta.last_accessed_at);
    lemma_le_at(e, 33, m.meta.size_bytes as u64);
    vstd::utf8::encode_utf8_valid_utf8(m.scope);
    vstd::utf8::encode_utf8_decode_utf8(m.scope);
    let d = decoding(e).unwrap();
    assert(d.meta == m.meta);
    assert(d.scope == m.scope);
}

/// Appends the eight little-endian bytes of `v`.
fn push_le(out: &mut Vec<u8>, v: u64)
    ensures
        final(out)@ == old(out)@ + le_bytes(v),
{
    out.push((v & 0xff) as u8);
    out.push(((v >> 8) & 0xff) as u8);
    out.push(((v >> 16) & 0xff) as u8);
    out.push(((v >> 24) & 0xff) as u8);
    out.push(((v >> 32) & 0xff) as u8);
    out.push(((v >> 40) & 0xff) as u8);
    out.push(((v >> 48) & 0xff) as u8);
    out.push(((v >> 56) & 0xff) as u8);
    assert(out@ =~= old(out)@ + le_bytes(v));
}

/// Reads the `u64` of eight little-endian bytes starting at `at`.
fn read_le(b: &[u8], at: usize) -> (v: u64)
    requires
        at + 8 <= b@.len(),
    ensures
        v == le_value(b@, at as int),
{
    (b[at] as u64) | ((b[at + 1] as u64) << 8) | ((b[at + 2] as u64) << 16) | ((b[at + 3] as u64) << 24)
        | ((b[at + 4] as u64) << 32) | ((b[at + 5] as u64) << 40) | ((b[at + 6] as u64) << 48)
        | ((b[at + 7] as u64) << 56)
}

/// The string of UTF-8 bytes (`String::from_utf8`): text exactly when the bytes
/// are valid UTF-8, and then the characters they encode.
#[verifier::external_body]
fn string_from_utf8(bytes: Vec<u8>) -> (r: Option<String>)
    ensures
        r is Some <==> vstd::utf8::valid_utf8(bytes@),
        r matches Some(s) ==> s@ == vstd::utf8::decode_utf8(bytes@),
{
    String::from_utf8(bytes).ok()
}

/// Encodes stored metadata.
pub fn encode_meta(m: &StoredMeta) -> (b: Vec<u8>)
    ensures
        b@ == encoding(m@),
{
    let mut out: Vec<u8> = Vec::new();
    push_le(&mut out, m.meta.created_at);
    match m.meta.expires_at {
        Some(e) => {
            out.push(1u8);
            push_le(&mut out, e);
        },
        None => {
            out.push(0u8);
            push_le(&mut out, 0);
        },
    }
    push_le(&mut out, m.meta.access_count);
    push_le(&mut out, m.meta.last_accessed_at);
    push_le(&mut out, m.meta.size_bytes as u64);
    let scope_bytes = m.scope.as_str().as_bytes();
    let mut i: usize = 0;
    let ghost head = out@;
    while i < scope_bytes.len()
        invariant
            i <= scope_bytes@.len(),
            out@ == head + scope_bytes@.subrange(0, i as int),
        decreases scope_bytes.len() - i,
    {
        out.push(scope_bytes[i]);
        i = i + 1;
        assert(out@ =~= head + scope_bytes@.subrange(0, i as int));
    }
    assert(scope_bytes@.subrange(0, i as int) =~= scope_bytes@);
    assert(out@ =~= encoding(m@));
    out
}

/// Decodes stored metadata; `None` for bytes that are no encoding.
pub fn decode_meta(b: &[u8]) -> (r: Option<StoredMeta>)
    ensures
        match decoding(b@) {
            Some(v) => r matches Some(m) && m@ == v,
            None => r is None,
        },
{
    if b.len() < HEADER_LEN {
        return None;
    }
    let tag = b[8];
    if tag != 0 && tag != 1 {
        return None;
    }
    let size = read_le(b, 33);
    if size > usize::MAX as u64 {
        return None;
    }
    let mut rest: Vec<u8> = Vec::new();
    let mut i: usize = HEADER_LEN;
    while i < b.len()
        invariant
            HEADER_LEN <= i <= b@.len(),
            rest@ == b@.subrange(HEADER_LEN as int, i as int),
        decreases b.len() - i,
    {
        rest.push(b[i]);
        i = i + 1;
        assert(rest@ =~= b@.subrange(HEADER_LEN as int, i as int));
    }
    let scope = match string_from_utf8(rest) {
        Some(s) => s,
        None => return None,
    };
    let meta = CacheEntryMetadata {
        created_at: read_le(b, 0),
        expires_at: if tag == 1 { Some(read_le(b, 9)) } else { None },
        access_count: read_le(b, 17),
        last_accessed_at: read_le(b, 25),
        size_bytes: size as usize,
    };
    Some(StoredMeta { meta, scope })
}

} // verus!
