//! The on-disk thumbnail cache's verified core.
//!
//! A cache entry is a file under the cache root whose relative path is the
//! hex digest of a key derived from the requested thumbnail size and the
//! file's identity (size, modification time, device, inode) — or from the
//! display path when metadata is unavailable.  The entry holds the raw
//! compressed payload; dimensions are recovered from the payload's own
//! header.  Reading and writing the entry files is I/O and stays with the
//! caller; everything that derives keys and interprets entry bytes is here.

use vstd::prelude::*;
use vstd::utf8::encode_utf8;
use crate::images::{image_dims, Thumbnail};
use sha2::Digest;

verus! {

/// File identity taken from metadata: size in bytes, modification time,
/// device id and inode number.  A proxy for "unchanged since last run",
/// not a content hash.
#[derive(PartialEq, Eq, Structural, Clone, Copy, Debug)]
pub struct FileMeta {
    pub len: u64,
    pub mtime: i64,
    pub dev: u64,
    pub ino: u64,
}

/// A `u32` as four little-endian bytes.
pub open spec fn spec_u32_le(n: u32) -> Seq<u8> {
    seq![
        (n & 0xff) as u8,
        ((n >> 8) & 0xff) as u8,
        ((n >> 16) & 0xff) as u8,
        ((n >> 24) & 0xff) as u8,
    ]
}

/// A `u64` as eight little-endian bytes.
pub open spec fn spec_u64_le(n: u64) -> Seq<u8> {
    seq![
        (n & 0xff) as u8,
        ((n >> 8) & 0xff) as u8,
        ((n >> 16) & 0xff) as u8,
        ((n >> 24) & 0xff) as u8,
        ((n >> 32) & 0xff) as u8,
        ((n >> 40) & 0xff) as u8,
        ((n >> 48) & 0xff) as u8,
        ((n >> 56) & 0xff) as u8,
    ]
}

/// The byte sequence hashed into a cache key: the requested thumbnail
/// size, then either the four fixed-width identity fields, or the display
/// path's bytes when no metadata is available.
pub open spec fn spec_key_input(size: u32, meta: Option<FileMeta>, path: Seq<char>) -> Seq<u8> {
    spec_u32_le(size) + match meta {
        Some(m) => spec_u64_le(m.len) + spec_u64_le(m.mtime as u64) + spec_u64_le(m.dev)
            + spec_u64_le(m.ino),
        None => encode_utf8(path),
    }
}

fn push_u32_le(out: &mut Vec<u8>, n: u32)
    ensures
        final(out)@ == old(out)@ + spec_u32_le(n),
{
    out.push((n & 0xff) as u8);
    out.push(((n >> 8) & 0xff) as u8);
    out.push(((n >> 16) & 0xff) as u8);
    out.push(((n >> 24) & 0xff) as u8);
    proof {
        assert(final(out)@ =~= old(out)@ + spec_u32_le(n));
    }
}

fn push_u64_le(out: &mut Vec<u8>, n: u64)
    ensures
        final(out)@ == old(out)@ + spec_u64_le(n),
{
    out.push((n & 0xff) as u8);
    out.push(((n >> 8) & 0xff) as u8);
    out.push(((n >> 16) & 0xff) as u8);
    out.push(((n >> 24) & 0xff) as u8);
    out.push(((n >> 32) & 0xff) as u8);
    out.push(((n >> 40) & 0xff) as u8);
    out.push(((n >> 48) & 0xff) as u8);
    out.push(((n >> 56) & 0xff) as u8);
    proof {
        assert(final(out)@ =~= old(out)@ + spec_u64_le(n));
    }
}

/// Build the bytes to hash for one cache lookup.
pub fn key_input(size: u32, meta: &Option<FileMeta>, path: &str) -> (r: Vec<u8>)
    ensures
        r@ == spec_key_input(size, *meta, path@),
{
    let mut out: Vec<u8> = Vec::new();
    push_u32_le(&mut out, size);
    match meta {
        Some(m) => {
            push_u64_le(&mut out, m.len);
            push_u64_le(&mut out, m.mtime as u64);
            push_u64_le(&mut out, m.dev);
            push_u64_le(&mut out, m.ino);
        },
        None => {
            let bytes = path.as_bytes();
            let n = bytes.len();
            let mut i: usize = 0;
            while i < n
                invariant
                    i <= n,
                    n == bytes@.len(),
                    out@ == spec_u32_le(size) + bytes@.take(i as int),
                decreases n - i,
            {
                out.push(bytes[i]);
                proof {
                    assert(bytes@.take(i + 1) =~= bytes@.take(i as int).push(bytes@[i as int]));
                }
                i = i + 1;
            }
            proof {
                assert(bytes@.take(n as int) =~= bytes@);
            }
        },
    }
    proof {
        assert(Seq::<u8>::empty() + spec_u32_le(size) =~= spec_u32_le(size));
        assert(out@ =~= spec_key_input(size, *meta, path@));
    }
    out
}

/// What the SHA-224 digest of a byte sequence is.  The digest is a
/// function of the input alone, the same in every process.
pub uninterp spec fn sha224_of(data: Seq<u8>) -> Seq<u8>;

/// Relies on `sha2::Sha224`: the digest is deterministic in the input and
/// is 28 bytes long.
#[verifier::external_body]
fn sha224(data: &[u8]) -> (r: Vec<u8>)
    ensures
        r@ == sha224_of(data@),
        r@.len() == 28,
{
    sha2::Sha224::digest(data).to_vec()
}

/// A nibble as a lower-case hex character.
pub open spec fn hex_digit(n: u8) -> char
    recommends
        n < 16,
{
    if n < 10 {
        (48 + n) as char
    } else {
        (87 + n) as char
    }
}

/// Lower-case hex encoding, two characters per byte, high nibble first.
pub open spec fn spec_hex_lower(bytes: Seq<u8>) -> Seq<char> {
    Seq::new(
        2 * bytes.len(),
        |i: int|
            if i % 2 == 0 {
                hex_digit(bytes[i / 2] >> 4)
            } else {
                hex_digit(bytes[i / 2] & 0x0f)
            },
    )
}

/// Relies on `hex::encode`: lower-case hex, two digits per byte, high
/// nibble first; the output is ASCII.
#[verifier::external_body]
fn hex_encode(data: &[u8]) -> (r: String)
    ensures
        r@ == spec_hex_lower(data@),
        vstd::string::string_is_ascii(&r),
{
    hex::encode(data)
}

/// The entry path relative to the cache root: the first two hex digits of
/// the key form a subdirectory, the remaining digits the file name.
pub open spec fn spec_entry_rel_path(size: u32, meta: Option<FileMeta>, path: Seq<char>) -> Seq<
    char,
> {
    let h = spec_hex_lower(sha224_of(spec_key_input(size, meta, path)));
    h.take(2) + seq!['/'] + h.skip(2)
}

/// What a stored entry's bytes decode to: the dimensions its header
/// records, alongside the bytes themselves — or nothing, when no header
/// can be read.
pub open spec fn spec_decode_entry(data: Seq<u8>) -> Option<(u32, u32, Seq<u8>)> {
    match image_dims(data) {
        Some(d) => Some((d.0, d.1, data)),
        None => None,
    }
}

/// The verified core of the thumbnail cache: key derivation and entry
/// interpretation for a given requested size.  The root directory is
/// chosen by the caller once per run.
pub struct Cache {
    pub thumbnail_size: u32,
    pub cache_dir: String,
}

impl Cache {
    /// A cache addressing entries for one requested thumbnail size under
    /// the given root directory.
    pub fn new(thumbnail_size: u32, cache_dir: String) -> (c: Cache)
        ensures
            c.thumbnail_size == thumbnail_size,
            c.cache_dir == cache_dir,
    {
        Cache { thumbnail_size, cache_dir }
    }

    /// The entry path for a display path and its metadata, relative to the
    /// cache root.
    pub fn entry_rel_path(&self, path: &str, meta: &Option<FileMeta>) -> (r: String)
        ensures
            r@ == spec_entry_rel_path(self.thumbnail_size, *meta, path@),
    {
        let input = key_input(self.thumbnail_size, meta, path);
        let digest = sha224(input.as_slice());
        let h = hex_encode(digest.as_slice());
        assert(h@.len() == 56);
        let prefix = h.as_str().substring_ascii(0, 2);
        let rest = h.as_str().substring_ascii(2, 56);
        let mut r = prefix.to_owned();
        r.append("/");
        r.append(rest);
        proof {
            reveal_strlit("/");
            assert(("/")@ =~= seq!['/']);
            assert(h@.take(2) =~= h@.subrange(0, 2));
            assert(h@.skip(2) =~= h@.subrange(2, 56));
        }
        r
    }

    /// Interpret the bytes of a stored entry: recover the dimensions from
    /// the payload's header; any unreadable header is a miss.
    pub fn decode_entry(&self, data: Vec<u8>) -> (r: Option<Thumbnail>)
        ensures
            match r {
                Some(t) => spec_decode_entry(data@) == Some((t.width, t.height, t.pixels@))
                    && t.wf(),
                None => spec_decode_entry(data@) is None,
            },
    {
        match crate::images::read_image_dims(data.as_slice()) {
            Some(dims) => Some(Thumbnail { width: dims.0, height: dims.1, pixels: data }),
            None => None,
        }
    }
}

/// Cache round trip: a well-formed thumbnail's stored payload decodes back
/// to the same pixel dimensions and the same payload bytes.
pub proof fn lemma_cache_round_trip(t: Thumbnail)
    requires
        t.wf(),
    ensures
        spec_decode_entry(t.pixels@) == Some((t.width, t.height, t.pixels@)),
{
}

proof fn lemma_u64_le_injective(a: u64, b: u64)
    requires
        spec_u64_le(a) == spec_u64_le(b),
    ensures
        a == b,
{
    assert(spec_u64_le(a)[0] == spec_u64_le(b)[0]);
    assert(spec_u64_le(a)[1] == spec_u64_le(b)[1]);
    assert(spec_u64_le(a)[2] == spec_u64_le(b)[2]);
    assert(spec_u64_le(a)[3] == spec_u64_le(b)[3]);
    assert(spec_u64_le(a)[4] == spec_u64_le(b)[4]);
    assert(spec_u64_le(a)[5] == spec_u64_le(b)[5]);
    assert(spec_u64_le(a)[6] == spec_u64_le(b)[6]);
    assert(spec_u64_le(a)[7] == spec_u64_le(b)[7]);
    assert(a == b) by (bit_vector)
        requires
            (a & 0xff) as u8 == (b & 0xff) as u8,
            ((a >> 8) & 0xff) as u8 == ((b >> 8) & 0xff) as u8,
            ((a >> 16) & 0xff) as u8 == ((b >> 16) & 0xff) as u8,
            ((a >> 24) & 0xff) as u8 == ((b >> 24) & 0xff) as u8,
            ((a >> 32) & 0xff) as u8 == ((b >> 32) & 0xff) as u8,
            ((a >> 40) & 0xff) as u8 == ((b >> 40) & 0xff) as u8,
            ((a >> 48) & 0xff) as u8 == ((b >> 48) & 0xff) as u8,
            ((a >> 56) & 0xff) as u8 == ((b >> 56) & 0xff) as u8,
    ;
}

proof fn lemma_i64_as_u64_injective(a: i64, b: i64)
    requires
        a as u64 == b as u64,
    ensures
        a == b,
{
    assert(a == b) by (bit_vector)
        requires
            a as u64 == b as u64,
    ;
}

/// Cache invalidation, the provable half: identities that differ in size
/// or modification time hash different inputs, because the fixed-width
/// encoding of an identity is injective.  That the SHA-224 digests of the
/// two inputs differ as well is the collision resistance the cache relies
/// on, which no proof here can supply.
pub proof fn lemma_key_input_distinct(size: u32, m1: FileMeta, m2: FileMeta, path: Seq<char>)
    requires
        m1.len != m2.len || m1.mtime != m2.mtime,
    ensures
        spec_key_input(size, Some(m1), path) != spec_key_input(size, Some(m2), path),
{
    let k1 = spec_key_input(size, Some(m1), path);
    let k2 = spec_key_input(size, Some(m2), path);
    if k1 == k2 {
        assert(k1.subrange(4, 12) =~= spec_u64_le(m1.len));
        assert(k2.subrange(4, 12) =~= spec_u64_le(m2.len));
        assert(k1.subrange(12, 20) =~= spec_u64_le(m1.mtime as u64));
        assert(k2.subrange(12, 20) =~= spec_u64_le(m2.mtime as u64));
        lemma_u64_le_injective(m1.len, m2.len);
        lemma_u64_le_injective(m1.mtime as u64, m2.mtime as u64);
        lemma_i64_as_u64_injective(m1.mtime, m2.mtime);
    }
}

} // verus!
