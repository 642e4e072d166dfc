//! The vector store's plain parts: its errors, the embedder that has no model,
//! the check of a vector's dimension and the metadata kept with a document.
use vstd::prelude::*;
use sha2::Digest;
use crate::text::{concat2, decimal, owned, str_eq, usize_to_decimal};

verus! {

/// An error of the vector store, with its code (3000 to 3010).
#[derive(Debug, Clone)]
pub enum TFError {
    /// A vector has another dimension than the store.
    VectorDimensionMismatch {
        /// The store's dimension.
        expected: usize,
        /// The vector's.
        actual: usize,
    },
    /// A lock could not be taken for reading.
    LockError,
    /// A lock could not be taken for writing.
    WriteLockError,
    /// The store failed, with its message.
    VecStoreError(String),
    /// The file system failed, with its message.
    FileSystemError(String),
    /// No such document.
    DocumentNotFound(String),
    /// A Python callback failed, with its message.
    PythonCallbackError(String),
    /// JSON could not be made or read, with the message.
    JsonError(String),
    /// A parameter is not acceptable.
    InvalidParameter(String),
    /// Setting up failed.
    InitializationError(String),
    /// Anything else, with its message.
    GenericError(String),
}

/// The kind of Python exception an error becomes.
#[derive(Debug, Clone, Copy, PartialEq, Eq, Structural)]
pub enum PyErrorKind {
    /// `ValueError`.
    ValueError,
    /// `KeyError`.
    KeyError,
    /// `RuntimeError`.
    RuntimeError,
}

impl TFError {
    /// The message of the error, led by its code.
    pub open spec fn message(&self) -> Seq<char> {
        match self {
            TFError::VectorDimensionMismatch { expected, actual } => "3000: Vector dimension mismatch. Expected "@
                + decimal(*expected as nat) + ", got "@ + decimal(*actual as nat),
            TFError::LockError => "3001: Lock error"@,
            TFError::WriteLockError => "3002: Write lock error"@,
            TFError::VecStoreError(m) => "3003: Vector store error: "@ + m@,
            TFError::FileSystemError(m) => "3004: File system error: "@ + m@,
            TFError::DocumentNotFound(m) => "3005: Document not found: "@ + m@,
            TFError::PythonCallbackError(m) => "3006: Python callback error: "@ + m@,
            TFError::JsonError(m) => "3007: JSON serialization error: "@ + m@,
            TFError::InvalidParameter(m) => "3008: Invalid parameter: "@ + m@,
            TFError::InitializationError(m) => "3009: Initialization error: "@ + m@,
            TFError::GenericError(m) => "3010: Generic error: "@ + m@,
        }
    }

    /// The message of the error, led by its code.
    pub fn to_string(&self) -> (s: String)
        ensures
            s@ == self.message(),
    {
        match self {
            TFError::VectorDimensionMismatch { expected, actual } => {
                let e = usize_to_decimal(*expected);
                let a = usize_to_decimal(*actual);
                let mut s = concat2("3000: Vector dimension mismatch. Expected ", e.as_str());
                s.append(", got ");
                s.append(a.as_str());
                s
            },
            TFError::LockError => owned("3001: Lock error"),
            TFError::WriteLockError => owned("3002: Write lock error"),
            TFError::VecStoreError(m) => concat2("3003: Vector store error: ", m.as_str()),
            TFError::FileSystemError(m) => concat2("3004: File system error: ", m.as_str()),
            TFError::DocumentNotFound(m) => concat2("3005: Document not found: ", m.as_str()),
            TFError::PythonCallbackError(m) => concat2("3006: Python callback error: ", m.as_str()),
            TFError::JsonError(m) => concat2("3007: JSON serialization error: ", m.as_str()),
            TFError::InvalidParameter(m) => concat2("3008: Invalid parameter: ", m.as_str()),
            TFError::InitializationError(m) => concat2("3009: Initialization error: ", m.as_str()),
            TFError::GenericError(m) => concat2("3010: Generic error: ", m.as_str()),
        }
    }

    /// The Python exception the error becomes: a dimension mismatch or an
    /// invalid parameter a `ValueError`, a missing document a `KeyError`, the
    /// rest a `RuntimeError`.
    pub fn python_kind(&self) -> (k: PyErrorKind)
        ensures
            k == (match self {
                TFError::VectorDimensionMismatch { .. } => PyErrorKind::ValueError,
                TFError::InvalidParameter(_) => PyErrorKind::ValueError,
                TFError::DocumentNotFound(_) => PyErrorKind::KeyError,
                _ => PyErrorKind::RuntimeError,
            }),
    {
        match self {
            TFError::VectorDimensionMismatch { .. } => PyErrorKind::ValueError,
            TFError::InvalidParameter(_) => PyErrorKind::ValueError,
            TFError::DocumentNotFound(_) => PyErrorKind::KeyError,
            _ => PyErrorKind::RuntimeError,
        }
    }
}

/// An embedder with a dimension and no model: embedding is left to a callback
/// from outside, so asking it to embed fails.
#[derive(Debug, Clone, Copy)]
pub struct DefaultEmbedder {
    dimension: usize,
}

impl DefaultEmbedder {
    /// The dimension of its vectors.
    pub closed spec fn dim(&self) -> usize {
        self.dimension
    }

    /// An embedder of vectors of `dimension` numbers.
    pub fn new(dimension: usize) -> (e: Self)
        ensures
            e.dim() == dimension,
    {
        DefaultEmbedder { dimension }
    }

    /// The dimension of its vectors.
    pub fn dimension(&self) -> (d: usize)
        ensures
            d == self.dim(),
    {
        self.dimension
    }

    /// Why it cannot embed `text`: it has no model.
    pub fn embedding_unavailable(&self, _text: &str) -> (e: TFError)
        ensures
            e matches TFError::InvalidParameter(m) && m@ == "DefaultEmbedder does not implement actual embedding logic"@,
    {
        TFError::InvalidParameter(owned("DefaultEmbedder does not implement actual embedding logic"))
    }
}

/// Accepts a vector of `actual` numbers for a store of dimension `expected`:
/// a mismatch is an error that names both.
pub fn check_dimension(expected: usize, actual: usize) -> (r: Result<(), TFError>)
    ensures
        r is Ok <==> actual == expected,
        r matches Err(e) ==> e == (TFError::VectorDimensionMismatch { expected, actual }),
{
    if actual != expected {
        Err(TFError::VectorDimensionMismatch { expected, actual })
    } else {
        Ok(())
    }
}

/// What SHA-256 makes of some bytes: the 32-byte digest.
pub uninterp spec fn sha256_of(data: Seq<u8>) -> Seq<u8>;

/// The SHA-256 digest of `data` (`sha2::Sha256::digest`), 32 bytes long; the
/// digest is named `sha256_of`.
#[verifier::external_body]
fn sha256(data: &[u8]) -> (r: Vec<u8>)
    ensures
        r@ == sha256_of(data@),
        r@.len() == 32,
{
    sha2::Sha256::digest(data).to_vec()
}

/// The lower-case hexadecimal digits.
pub open spec fn hex_digits() -> Seq<char> {
    "0123456789abcdef"@
}

/// Each byte as two lower-case hexadecimal digits, high first (as `{:x}`
/// prints a digest).
pub open spec fn hex_of(b: Seq<u8>) -> Seq<char>
    decreases b.len(),
{
    if b.len() == 0 {
        Seq::empty()
    } else {
        hex_of(b.drop_last()) + seq![hex_digits()[(b.last() / 16) as int], hex_digits()[(b.last() % 16) as int]]
    }
}

/// The bytes as lower-case hexadecimal digits.
pub fn to_hex(b: &Vec<u8>) -> (s: String)
    ensures
        s@ == hex_of(b@),
{
    let digits = "0123456789abcdef";
    proof { reveal_strlit("0123456789abcdef"); }
    assert(digits@.len() == 16);
    let mut out = String::new();
    let mut i: usize = 0;
    assert(b@.take(0) =~= Seq::<u8>::empty());
    while i < b.len()
        invariant
            i <= b@.len(),
            digits@ == hex_digits(),
            digits@.len() == 16,
            out@ == hex_of(b@.take(i as int)),
        decreases b@.len() - i,
    {
        let x = b[i];
        let hi = (x / 16) as usize;
        let lo = (x % 16) as usize;
        let ghost before = out@;
        out.append(digits.substring_char(hi, hi + 1));
        out.append(digits.substring_char(lo, lo + 1));
        proof {
            let t = b@.take(i + 1);
            assert(t.drop_last() =~= b@.take(i as int));
            assert(t.last() == x);
            assert(digits@.subrange(hi as int, hi + 1) =~= seq![hex_digits()[(x / 16) as int]]);
            assert(digits@.subrange(lo as int, lo + 1) =~= seq![hex_digits()[(x % 16) as int]]);
            assert(out@ =~= before + seq![hex_digits()[(x / 16) as int], hex_digits()[(x % 16) as int]]);
        }
        i = i + 1;
    }
    assert(b@.take(i as int) =~= b@);
    out
}

/// The fingerprint of a document's metadata: SHA-256 of its title, address
/// and summary one after another, in hexadecimal.
pub open spec fn content_hash_of(title: Seq<char>, url: Seq<char>, summary: Seq<char>) -> Seq<char> {
    hex_of(sha256_of(vstd::utf8::encode_utf8(title) + vstd::utf8::encode_utf8(url) + vstd::utf8::encode_utf8(summary)))
}

/// Appends the bytes of `s`.
fn push_bytes(out: &mut Vec<u8>, s: &str)
    ensures
        final(out)@ == old(out)@ + vstd::utf8::encode_utf8(s@),
{
    let b = s.as_bytes();
    let ghost head = out@;
    let mut i: usize = 0;
    while i < b.len()
        invariant
            i <= b@.len(),
            b@ == vstd::utf8::encode_utf8(s@),
            out@ == head + b@.subrange(0, i as int),
        decreases b@.len() - i,
    {
        out.push(b[i]);
        i = i + 1;
        assert(out@ =~= head + b@.subrange(0, i as int));
    }
    assert(b@.subrange(0, i as int) =~= b@);
}

/// The fingerprint of a document's metadata, by which a change of title,
/// address or summary is seen.
pub fn content_hash(title: &str, url: &str, summary: &str) -> (h: String)
    ensures
        h@ == content_hash_of(title@, url@, summary@),
{
    let mut data: Vec<u8> = Vec::new();
    push_bytes(&mut data, title);
    push_bytes(&mut data, url);
    push_bytes(&mut data, summary);
    assert(data@ =~= vstd::utf8::encode_utf8(title@) + vstd::utf8::encode_utf8(url@) + vstd::utf8::encode_utf8(summary@));
    let digest = sha256(data.as_slice());
    to_hex(&digest)
}

/// A field after an update: the new text when one is given, else the stored one.
pub open spec fn merged(new: Option<&str>, stored: Seq<char>) -> Seq<char> {
    match new {
        Some(x) => x@,
        None => stored,
    }
}

/// What updating a document changes: its merged title, address and summary,
/// their fingerprint, and whether a new address differs from the stored one.
#[derive(Debug, Clone)]
pub struct DocumentUpdate {
    /// The title after the update.
    pub title: String,
    /// The address after the update.
    pub url: String,
    /// The summary after the update.
    pub summary: String,
    /// The fingerprint of the three.
    pub hash: String,
    /// Whether a new address was given that differs from the stored one.
    pub url_changed: bool,
}

/// The update of a document with the stored title, address, summary and
/// fingerprint by the fields given: each given field replaces the stored one.
/// `None` when the fingerprint of the merged fields equals the stored one, so
/// that nothing changes.
pub fn plan_document_update(
    stored_title: &str,
    stored_url: &str,
    stored_summary: &str,
    stored_hash: &str,
    title: Option<&str>,
    url: Option<&str>,
    summary: Option<&str>,
) -> (r: Option<DocumentUpdate>)
    ensures
        r is None <==> content_hash_of(merged(title, stored_title@), merged(url, stored_url@),
            merged(summary, stored_summary@)) == stored_hash@,
        r matches Some(d) ==> {
            &&& d.title@ == merged(title, stored_title@)
            &&& d.url@ == merged(url, stored_url@)
            &&& d.summary@ == merged(summary, stored_summary@)
            &&& d.hash@ == content_hash_of(d.title@, d.url@, d.summary@)
            &&& d.url_changed == (url matches Some(x) && x@ != stored_url@)
        },
{
    let t = match title {
        Some(x) => x,
        None => stored_title,
    };
    let u = match url {
        Some(x) => x,
        None => stored_url,
    };
    let s = match summary {
        Some(x) => x,
        None => stored_summary,
    };
    let hash = content_hash(t, u, s);
    if str_eq(hash.as_str(), stored_hash) {
        return None;
    }
    let url_changed = match url {
        Some(x) => !str_eq(x, stored_url),
        None => false,
    };
    Some(DocumentUpdate { title: owned(t), url: owned(u), summary: owned(s), hash, url_changed })
}

/// The metadata kept with a document: its title, address, summary (empty when
/// there is none) and the fingerprint of the three.
pub fn document_metadata(title: &str, url: &str, summary: Option<&str>) -> (m: Vec<(String, String)>)
    ensures
        m@.len() == 4,
        m@[0].0@ == "title"@ && m@[0].1@ == title@,
        m@[1].0@ == "url"@ && m@[1].1@ == url@,
        m@[2].0@ == "summary"@ && m@[2].1@ == (match summary { Some(s) => s@, None => Seq::<char>::empty() }),
        m@[3].0@ == "hash"@ && m@[3].1@ == content_hash_of(title@, url@, m@[2].1@),
{
    let s = match summary {
        Some(s) => s,
        None => "",
    };
    proof { reveal_strlit(""); }
    let hash = content_hash(title, url, s);
    vec![
        (owned("title"), owned(title)),
        (owned("url"), owned(url)),
        (owned("summary"), owned(s)),
        (owned("hash"), hash),
    ]
}

} // verus!
