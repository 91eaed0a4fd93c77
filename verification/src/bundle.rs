//! The deployable bundle: the archive bytes, their SHA-256 and their 64 KiB chunks.

use vstd::prelude::*;
use sha2::{Digest, Sha256};
use crate::archive::{zip_tree, zip_listing, tree_listing, tree_packs, slashes_spec, ArchiveError, TreeEntry};

verus! {

broadcast use vstd::array::group_array_axioms;

#[verifier::external_type_specification]
#[verifier::external_body]
pub struct ExFromHexError(hex::FromHexError);

/// Size of one uploaded chunk: 64 KiB.
pub const CHUNK_SIZE: usize = 65_536;

/// The SHA-256 digest of `data`.
pub uninterp spec fn sha256_spec(data: Seq<u8>) -> Seq<u8>;

/// SHA-256 of `data`.
///
/// Calls `sha2::Sha256::digest`, which hashes `data` in one pass. The contract claims
/// only that the 32 output bytes are a function of `data` alone, named `sha256_spec`.
#[verifier::external_body]
pub(crate) fn sha256_digest(data: &[u8]) -> (res: [u8; 32])
    ensures
        res@ == sha256_spec(data@),
{
    let out: [u8; 32] = Sha256::digest(data).into();
    out
}

/// The lowercase hexadecimal digit for `n` (0 to 15).
pub open spec fn hex_digit(n: nat) -> char {
    if n < 10 {
        digit_ascii(n)
    } else if n == 10 { 'a' } else if n == 11 { 'b' } else if n == 12 { 'c' }
    else if n == 13 { 'd' } else if n == 14 { 'e' } else { 'f' }
}

/// The decimal digit for `n` (0 to 9).
pub open spec fn digit_ascii(n: nat) -> char {
    crate::text::digit_char(n)
}

/// Lowercase hexadecimal spelling of `data`: two digits per byte, high nibble first.
pub open spec fn hex_spec(data: Seq<u8>) -> Seq<char>
    decreases data.len(),
{
    if data.len() == 0 {
        Seq::empty()
    } else {
        hex_spec(data.drop_last()) + seq![hex_digit((data.last() / 16) as nat), hex_digit((data.last() % 16) as nat)]
    }
}

/// Lowercase hexadecimal encoding of `data`.
///
/// Calls `hex::encode`, which maps each byte to its high and then its low nibble
/// through the table `0123456789abcdef`.
#[verifier::external_body]
pub(crate) fn hex_encode(data: &[u8]) -> (res: String)
    ensures
        res@ == hex_spec(data@),
{
    hex::encode(data)
}

/// `s` with every ASCII capital letter made lowercase.
pub open spec fn ascii_lower(s: Seq<char>) -> Seq<char> {
    s.map_values(|c: char| if 'A' <= c <= 'Z' { ((c as u32) + 32) as char } else { c })
}

/// Whether `c` is a hexadecimal digit of either case.
pub open spec fn is_hex_char(c: char) -> bool {
    ('0' <= c <= '9') || ('a' <= c <= 'f') || ('A' <= c <= 'F')
}

/// Whether `s` spells bytes in hexadecimal: an even number of hex digits.
pub open spec fn is_hex_text(s: Seq<char>) -> bool {
    s.len() % 2 == 0 && forall|i: int| 0 <= i < s.len() ==> is_hex_char(#[trigger] s[i])
}

/// Decodes a hexadecimal string.
///
/// Calls `hex::decode`, which reads two digits per byte, high nibble first, in either
/// case, and refuses an odd length or a character that is not a hex digit. On success
/// the lowercase spelling of the bytes is the input with its capitals made lowercase.
#[verifier::external_body]
pub(crate) fn hex_decode(s: &str) -> (res: Result<Vec<u8>, hex::FromHexError>)
    ensures
        res is Ok <==> is_hex_text(s@),
        res matches Ok(b) ==> hex_spec(b@) == ascii_lower(s@),
{
    hex::decode(s)
}

/// Whether `c` is a lowercase hexadecimal digit.
pub open spec fn is_lower_hex(c: char) -> bool {
    ('0' <= c <= '9') || ('a' <= c <= 'f')
}

/// The hex spelling has two lowercase hex digits per byte; a 32-byte content hash
/// is spelled with 64.
pub proof fn lemma_hex_shape(data: Seq<u8>)
    ensures
        hex_spec(data).len() == 2 * data.len(),
        forall|i: int| 0 <= i < hex_spec(data).len() ==> is_lower_hex(#[trigger] hex_spec(data)[i]),
    decreases data.len(),
{
    if data.len() > 0 {
        lemma_hex_shape(data.drop_last());
        let hi = (data.last() / 16) as nat;
        let lo = (data.last() % 16) as nat;
        assert(is_lower_hex(hex_digit(hi)));
        assert(is_lower_hex(hex_digit(lo)));
        let prev = hex_spec(data.drop_last());
        assert forall|i: int| 0 <= i < hex_spec(data).len() implies is_lower_hex(#[trigger] hex_spec(data)[i]) by {
            if i < prev.len() {
                assert(hex_spec(data)[i] == prev[i]);
            }
        }
    }
}

/// The number of chunks that `len` bytes split into.
pub open spec fn chunk_count_spec(len: nat) -> nat {
    if len % (CHUNK_SIZE as nat) == 0 {
        len / (CHUNK_SIZE as nat)
    } else {
        len / (CHUNK_SIZE as nat) + 1
    }
}

/// Chunk `i` of `b`: bytes `i * CHUNK_SIZE` up to the next boundary or the end.
pub open spec fn chunk_at(b: Seq<u8>, i: int) -> Seq<u8> {
    let start = i * CHUNK_SIZE;
    let end = if start + CHUNK_SIZE <= b.len() { start + CHUNK_SIZE } else { b.len() as int };
    b.subrange(start, end)
}

/// `b` split into consecutive pieces of `CHUNK_SIZE` bytes, the last one possibly shorter.
pub open spec fn chunks_spec(b: Seq<u8>) -> Seq<Seq<u8>> {
    Seq::new(chunk_count_spec(b.len()), |i: int| chunk_at(b, i))
}

/// The chunks of a bundle, each taken by its bytes.
pub open spec fn chunks_view(c: Seq<Vec<u8>>) -> Seq<Seq<u8>> {
    c.map_values(|v: Vec<u8>| v@)
}

/// The pieces of `s` joined end to end.
pub open spec fn flatten(s: Seq<Seq<u8>>) -> Seq<u8>
    decreases s.len(),
{
    if s.len() == 0 {
        Seq::empty()
    } else {
        flatten(s.drop_last()) + s.last()
    }
}

pub struct Bundle {
    /// Raw ZIP bytes (plaintext).
    pub bytes: Vec<u8>,
    /// SHA-256 of `bytes`.
    pub content_hash: [u8; 32],
    /// `bytes` split into CHUNK_SIZE pieces.
    pub chunks: Vec<Vec<u8>>,
}

impl Bundle {
    /// The hash and the chunks are those of `bytes`.
    pub open spec fn wf(&self) -> bool {
        &&& self.content_hash@ == sha256_spec(self.bytes@)
        &&& chunks_view(self.chunks@) == chunks_spec(self.bytes@)
    }

    /// Hash `bytes` and split them into chunks.
    pub fn from_bytes(bytes: Vec<u8>) -> (res: Bundle)
        ensures
            res.wf(),
            res.bytes@ == bytes@,
    {
        let content_hash = sha256_digest(bytes.as_slice());
        let chunks = split_chunks(bytes.as_slice());
        Bundle { bytes, content_hash, chunks }
    }

    /// Create a Bundle by zipping the walked contents of a dist directory.
    /// Every file is stored under its path relative to the directory: reading the
    /// archive back lists exactly the walked entries. Packing succeeds whenever the
    /// entries can be packed (distinct names, within the ZIP limits).
    pub fn from_dir(entries: &Vec<TreeEntry>) -> (res: Result<Bundle, ArchiveError>)
        ensures
            res matches Ok(b) ==> b.wf() && zip_listing(b.bytes@) == tree_listing(entries@),
            tree_packs(entries@) ==> res is Ok,
            res matches Err(ArchiveError::Entry { name, .. }) ==> exists|i: int|
                0 <= i < entries@.len() && name@ == slashes_spec(#[trigger] entries@[i].relative_path@),
    {
        match zip_tree(entries) {
            Ok(bytes) => Ok(Self::from_bytes(bytes)),
            Err(e) => Err(e),
        }
    }

    pub fn chunk_count(&self) -> (n: usize)
        ensures
            n == self.chunks@.len(),
            self.wf() ==> n == chunk_count_spec(self.bytes@.len()),
    {
        proof {
            if self.wf() {
                assert(chunks_view(self.chunks@).len() == self.chunks@.len());
            }
        }
        self.chunks.len()
    }

    /// Hex-encode `content_hash` for use as a manifest variable.
    pub fn content_hash_hex(&self) -> (res: String)
        ensures
            res@ == hex_spec(self.content_hash@),
            self.wf() ==> res@ == hex_spec(sha256_spec(self.bytes@)),
    {
        hex_encode(vstd::array::array_as_slice(&self.content_hash))
    }

    /// Hex-encode chunk `i` for use as a manifest variable.
    pub fn chunk_hex(&self, i: usize) -> (res: String)
        requires
            i < self.chunks@.len(),
        ensures
            res@ == hex_spec(self.chunks@[i as int]@),
            self.wf() ==> res@ == hex_spec(chunk_at(self.bytes@, i as int)),
    {
        proof {
            if self.wf() {
                assert(chunks_view(self.chunks@).len() == self.chunks@.len());
                assert(chunks_view(self.chunks@)[i as int] == self.chunks@[i as int]@);
                assert(chunks_spec(self.bytes@)[i as int] == chunk_at(self.bytes@, i as int));
            }
        }
        hex_encode(self.chunks[i].as_slice())
    }
}

/// Split `b` into consecutive `CHUNK_SIZE` pieces.
pub fn split_chunks(b: &[u8]) -> (res: Vec<Vec<u8>>)
    ensures
        chunks_view(res@) == chunks_spec(b@),
{
    let mut res: Vec<Vec<u8>> = Vec::new();
    let mut start: usize = 0;
    let len = b.len();
    while start < len
        invariant
            len == b@.len(),
            start <= len,
            start < len ==> start == res@.len() * CHUNK_SIZE,
            start < len ==> res@.len() < chunk_count_spec(len as nat),
            start >= len ==> res@.len() == chunk_count_spec(len as nat),
            forall|k: int| 0 <= k < res@.len() ==> #[trigger] res@[k]@ == chunk_at(b@, k),
        decreases len - start,
    {
        let end = if len - start > CHUNK_SIZE { start + CHUNK_SIZE } else { len };
        let piece = vstd::slice::slice_to_vec(&b[start..end]);
        let ghost k = res@.len() as int;
        assert(piece@ == chunk_at(b@, k));
        res.push(piece);
        start = end;
    }
    assert(chunks_view(res@) =~= chunks_spec(b@));
    res
}


proof fn lemma_count_bounds(len: nat)
    ensures
        chunk_count_spec(len) * CHUNK_SIZE >= len,
        chunk_count_spec(len) > 0 ==> (chunk_count_spec(len) - 1) * CHUNK_SIZE < len,
{
    let c = CHUNK_SIZE as nat;
    assert(len == c * (len / c) + len % c) by (nonlinear_arith)
        requires c > 0;
    assert(len % c < c) by (nonlinear_arith)
        requires c > 0;
}

proof fn lemma_flatten_prefix(b: Seq<u8>, k: nat)
    requires
        k <= chunk_count_spec(b.len()),
    ensures
        flatten(chunks_spec(b).take(k as int)) == b.take(
            if k * CHUNK_SIZE <= b.len() { k * CHUNK_SIZE } else { b.len() as int },
        ),
    decreases k,
{
    lemma_count_bounds(b.len());
    let cs = chunks_spec(b);
    if k == 0 {
        assert(cs.take(0) =~= Seq::<Seq<u8>>::empty());
        assert(b.take(0) =~= Seq::<u8>::empty());
    } else {
        lemma_flatten_prefix(b, (k - 1) as nat);
        assert(cs.take(k as int).drop_last() =~= cs.take(k - 1));
        assert(cs.take(k as int).last() == chunk_at(b, k - 1));
        let start = (k - 1) * CHUNK_SIZE;
        let end = if start + CHUNK_SIZE <= b.len() { start + CHUNK_SIZE } else { b.len() as int };
        assert(b.take(start) + b.subrange(start, end) =~= b.take(end));
    }
}

/// Splitting into chunks loses and adds nothing: joined end to end, the chunks are the
/// bytes they were cut from, and each chunk holds between one and `CHUNK_SIZE` bytes.
pub proof fn lemma_chunks_partition(b: Seq<u8>)
    ensures
        flatten(chunks_spec(b)) == b,
        chunks_spec(b).len() == chunk_count_spec(b.len()),
        forall|i: int| 0 <= i < chunks_spec(b).len() ==>
            0 < (#[trigger] chunks_spec(b)[i]).len() <= CHUNK_SIZE,
{
    let n = chunk_count_spec(b.len());
    lemma_count_bounds(b.len());
    lemma_flatten_prefix(b, n);
    assert(chunks_spec(b).take(n as int) =~= chunks_spec(b));
    assert(b.take(b.len() as int) =~= b);
    assert forall|i: int| 0 <= i < chunks_spec(b).len() implies
        0 < (#[trigger] chunks_spec(b)[i]).len() <= CHUNK_SIZE by {
        assert(i <= n - 1);
        assert(i * CHUNK_SIZE <= (n - 1) * CHUNK_SIZE);
    }
}

/// A bundle's chunks, joined end to end, are its bytes, and there are
/// `ceil(len / CHUNK_SIZE)` of them.
pub proof fn lemma_bundle_chunks_reassemble(b: &Bundle)
    requires
        b.wf(),
    ensures
        flatten(chunks_view(b.chunks@)) == b.bytes@,
        b.chunks@.len() == chunk_count_spec(b.bytes@.len()),
        forall|i: int| 0 <= i < b.chunks@.len() ==> 0 < (#[trigger] b.chunks@[i])@.len() <= CHUNK_SIZE,
{
    lemma_chunks_partition(b.bytes@);
    assert(chunks_view(b.chunks@).len() == b.chunks@.len());
    assert forall|i: int| 0 <= i < b.chunks@.len() implies 0 < (#[trigger] b.chunks@[i])@.len() <= CHUNK_SIZE by {
        assert(chunks_view(b.chunks@)[i] == b.chunks@[i]@);
        assert(chunks_spec(b.bytes@)[i] == b.chunks@[i]@);
    }
}

} // verus!
