//! Framing of cache blobs and fingerprints of source texts.
//!
//! A cache blob starts with a 12-byte header (8 magic bytes, then the format
//! version as a little-endian `u32`) followed by the serialized payload.

use vstd::prelude::*;
use vstd::string::*;
use crate::text::{push_char, push_str, string_of, u64_text, nat_text};
use sha2::Digest;

verus! {

/// Current cache format version. Increment when the serialized format changes.
pub const CACHE_VERSION: u32 = 1;

/// Header size: 8 (magic) + 4 (version).
pub const HEADER_SIZE: usize = 12;

/// The magic bytes `WLEDGER\0` that start every cache blob.
pub open spec fn magic_spec() -> Seq<u8> {
    seq![87u8, 76u8, 69u8, 68u8, 71u8, 69u8, 82u8, 0u8]
}

/// The little-endian bytes of a `u32`.
pub open spec fn le_bytes(v: u32) -> Seq<u8> {
    seq![
        (v % 256) as u8,
        ((v / 256) % 256) as u8,
        ((v / 65536) % 256) as u8,
        ((v / 16777216) % 256) as u8,
    ]
}

/// The `u32` that four little-endian bytes encode.
pub open spec fn le_value(b: Seq<u8>) -> u32 {
    (b[0] as int + 256 * b[1] as int + 65536 * b[2] as int + 16777216 * b[3] as int) as u32
}

/// The header that every blob of the current version starts with.
pub open spec fn header_spec() -> Seq<u8> {
    magic_spec() + le_bytes(CACHE_VERSION)
}

/// A blob: the header followed by the payload.
pub open spec fn prepend_spec(data: Seq<u8>) -> Seq<u8> {
    header_spec() + data
}

/// The payload of a blob, or why the blob is refused.
pub open spec fn strip_spec(bytes: Seq<u8>) -> Result<Seq<u8>, Seq<char>> {
    if bytes.len() < 12 {
        Err("Invalid cache: data too short"@)
    } else if bytes.subrange(0, 8) != magic_spec() {
        Err("Invalid cache: unrecognized magic bytes"@)
    } else if le_value(bytes.subrange(8, 12)) != CACHE_VERSION {
        Err(
            "Cache version mismatch: expected "@ + nat_text(CACHE_VERSION as nat) + ", got "@
                + nat_text(le_value(bytes.subrange(8, 12)) as nat)
                + ". Re-parse the ledger."@,
        )
    } else {
        Ok(bytes.subrange(12, bytes.len() as int))
    }
}

/// A result by the characters of its error.
pub open spec fn result_chars<T>(r: Result<T, String>) -> Result<T, Seq<char>> {
    match r {
        Ok(v) => Ok(v),
        Err(e) => Err(e@),
    }
}

/// The magic bytes that start every cache blob.
pub fn cache_magic() -> (res: Vec<u8>)
    ensures
        res@ == magic_spec(),
{
    let mut v: Vec<u8> = Vec::new();
    v.push(87u8);
    v.push(76u8);
    v.push(69u8);
    v.push(68u8);
    v.push(71u8);
    v.push(69u8);
    v.push(82u8);
    v.push(0u8);
    assert(v@ =~= magic_spec());
    v
}

/// Validate and strip the cache header, returning the payload data slice.
pub fn strip_header(bytes: &[u8]) -> (res: Result<&[u8], String>)
    ensures
        match (res, strip_spec(bytes@)) {
            (Ok(d), Ok(e)) => d@ == e,
            (Err(m), Err(e)) => m@ == e,
            _ => false,
        },
{
    if bytes.len() < HEADER_SIZE {
        return Err(string_of("Invalid cache: data too short"));
    }
    let (header, data) = bytes.split_at(HEADER_SIZE);
    let magic = cache_magic();
    let mut k: usize = 0;
    while k < 8
        invariant
            bytes@.len() >= 12,
            header@ == bytes@.subrange(0, 12),
            magic@ == magic_spec(),
            k <= 8,
            forall|j: int| 0 <= j < k ==> header@[j] == magic_spec()[j],
        decreases 8 - k,
    {
        if header[k] != magic[k] {
            assert(bytes@.subrange(0, 8)[k as int] != magic_spec()[k as int]);
            assert(bytes@.subrange(0, 8) != magic_spec());
            return Err(string_of("Invalid cache: unrecognized magic bytes"));
        }
        k = k + 1;
    }
    assert(bytes@.subrange(0, 8) =~= magic_spec());
    let version: u32 = (header[8] as u32) + 256 * (header[9] as u32) + 65536 * (header[10] as u32)
        + 16777216 * (header[11] as u32);
    assert(bytes@.subrange(8, 12)[0] == header@[8]);
    assert(bytes@.subrange(8, 12)[1] == header@[9]);
    assert(bytes@.subrange(8, 12)[2] == header@[10]);
    assert(bytes@.subrange(8, 12)[3] == header@[11]);
    assert(version == le_value(bytes@.subrange(8, 12)));
    if version != CACHE_VERSION {
        let mut msg = string_of("Cache version mismatch: expected ");
        let expected = u64_text(CACHE_VERSION as u64);
        push_str(&mut msg, expected.as_str());
        push_str(&mut msg, ", got ");
        let got = u64_text(version as u64);
        push_str(&mut msg, got.as_str());
        push_str(&mut msg, ". Re-parse the ledger.");
        return Err(msg);
    }
    assert(data@ =~= bytes@.subrange(12, bytes@.len() as int));
    Ok(data)
}

/// Prepend the cache header to serialized data.
pub fn prepend_header(data: &[u8]) -> (res: Vec<u8>)
    ensures
        res@ == prepend_spec(data@),
{
    let mut result = cache_magic();
    let v = CACHE_VERSION;
    result.push((v % 256) as u8);
    result.push(((v / 256) % 256) as u8);
    result.push(((v / 65536) % 256) as u8);
    result.push(((v / 16777216) % 256) as u8);
    assert(result@ =~= header_spec());
    let n = data.len();
    let mut i: usize = 0;
    while i < n
        invariant
            n == data@.len(),
            i <= n,
            result@ =~= header_spec() + data@.subrange(0, i as int),
        decreases n - i,
    {
        result.push(data[i]);
        assert(data@.subrange(0, i + 1) =~= data@.subrange(0, i as int).push(data@[i as int]));
        i = i + 1;
    }
    assert(data@.subrange(0, n as int) =~= data@);
    result
}

/// Stripping the header of a blob made by `prepend_header` gives the data back.
pub proof fn law_strip_prepend_roundtrip(data: Seq<u8>)
    ensures
        strip_spec(prepend_spec(data)) == Ok::<Seq<u8>, Seq<char>>(data),
{
    let b = prepend_spec(data);
    assert(b.subrange(0, 8) =~= magic_spec());
    assert(b.subrange(8, 12) =~= le_bytes(CACHE_VERSION));
    assert(le_value(le_bytes(CACHE_VERSION)) == CACHE_VERSION);
    assert(b.subrange(12, b.len() as int) =~= data);
}

/// A blob that the header check accepts is the header followed by its payload.
pub proof fn law_strip_accepts_only_framed(bytes: Seq<u8>)
    requires
        strip_spec(bytes) is Ok,
    ensures
        bytes.subrange(0, 12) == header_spec(),
        prepend_spec(strip_spec(bytes)->Ok_0) == bytes,
{
    let v = le_value(bytes.subrange(8, 12));
    let h = bytes.subrange(8, 12);
    assert(v == 1);
    assert(h[0] as int + 256 * h[1] as int + 65536 * h[2] as int + 16777216 * h[3] as int == 1);
    assert(h =~= le_bytes(CACHE_VERSION));
    assert(bytes.subrange(0, 12) =~= bytes.subrange(0, 8) + bytes.subrange(8, 12));
    assert(prepend_spec(strip_spec(bytes)->Ok_0) =~= bytes);
}

/// The SHA-256 digest of a byte string.
pub uninterp spec fn sha256_spec(data: Seq<u8>) -> Seq<u8>;

/// Calls `sha2::Sha256::digest`. The digest is named `sha256_spec`; the crate's
/// output type is 32 bytes long, which is stated.
#[verifier::external_body]
fn sha256(data: &[u8]) -> (res: Vec<u8>)
    ensures
        res@ == sha256_spec(data@),
        res@.len() == 32,
{
    sha2::Sha256::digest(data).to_vec()
}

/// The bytes that are hashed for a list of sources: each source's UTF-8 bytes
/// followed by a NUL byte.
pub open spec fn fingerprint_input(sources: Seq<Seq<u8>>) -> Seq<u8>
    decreases sources.len(),
{
    if sources.len() == 0 {
        Seq::empty()
    } else {
        fingerprint_input(sources.drop_last()) + sources.last() + seq![0u8]
    }
}

/// The lowercase hex digit of a number below sixteen.
pub open spec fn hex_digit(d: int) -> char {
    if d < 10 {
        ((48 + d) as u32) as char
    } else {
        ((87 + d) as u32) as char
    }
}

/// Lowercase hex text of bytes, two digits per byte.
pub open spec fn hex_spec(b: Seq<u8>) -> Seq<char>
    decreases b.len(),
{
    if b.len() == 0 {
        Seq::empty()
    } else {
        hex_spec(b.drop_last()) + seq![hex_digit((b.last() / 16) as int), hex_digit((b.last() % 16) as int)]
    }
}

proof fn lemma_hex_len(b: Seq<u8>)
    ensures
        hex_spec(b).len() == 2 * b.len(),
    decreases b.len(),
{
    if b.len() > 0 {
        lemma_hex_len(b.drop_last());
    }
}

/// The UTF-8 bytes of each source.
pub open spec fn source_bytes(sources: Seq<&str>) -> Seq<Seq<u8>> {
    sources.map_values(|s: &str| s.spec_bytes())
}

/// No source holds a zero byte.
pub open spec fn no_nul(sources: Seq<Seq<u8>>) -> bool {
    forall|i: int, j: int| 0 <= i < sources.len() && 0 <= j < sources[i].len() ==> #[trigger] sources[i][j] != 0
}

/// Sources without zero bytes are told apart by the bytes that are hashed:
/// two lists that give the same bytes are the same list (so `["ab", "c"]`
/// and `["a", "bc"]` hash different bytes).
pub proof fn law_fingerprint_injective(a: Seq<Seq<u8>>, b: Seq<Seq<u8>>)
    requires
        no_nul(a),
        no_nul(b),
        fingerprint_input(a) == fingerprint_input(b),
    ensures
        a == b,
    decreases a.len(),
{
    if a.len() == 0 || b.len() == 0 {
        if a.len() > 0 {
            assert(fingerprint_input(a).len() > 0);
        }
        if b.len() > 0 {
            assert(fingerprint_input(b).len() > 0);
        }
        assert(a =~= b);
    } else {
        let pa = fingerprint_input(a.drop_last());
        let pb = fingerprint_input(b.drop_last());
        let sa = a.last();
        let sb = b.last();
        let x = fingerprint_input(a);
        assert(x == pa + sa + seq![0u8]);
        assert(x == pb + sb + seq![0u8]);
        assert(pa + sa =~= x.drop_last());
        assert(pb + sb =~= x.drop_last());
        let y = x.drop_last();
        if pa.len() < pb.len() {
            assert(b.drop_last().len() > 0);
            let k = pb.len() - 1;
            assert(pb[k] == 0);
            assert(y[k] == pb[k]);
            assert(y[k] == sa[k - pa.len()]);
            assert(a[a.len() - 1][k - pa.len()] != 0);
            assert(false);
        }
        if pb.len() < pa.len() {
            assert(a.drop_last().len() > 0);
            let k = pa.len() - 1;
            assert(pa[k] == 0);
            assert(y[k] == pa[k]);
            assert(y[k] == sb[k - pb.len()]);
            assert(b[b.len() - 1][k - pb.len()] != 0);
            assert(false);
        }
        assert(pa =~= y.subrange(0, pa.len() as int));
        assert(pb =~= y.subrange(0, pb.len() as int));
        assert(sa =~= y.subrange(pa.len() as int, y.len() as int));
        assert(sb =~= y.subrange(pb.len() as int, y.len() as int));
        assert forall|i: int, j: int|
            0 <= i < a.drop_last().len() && 0 <= j < a.drop_last()[i].len() implies #[trigger] a.drop_last()[i][j]
            != 0 by {
            assert(a.drop_last()[i] == a[i]);
        }
        assert forall|i: int, j: int|
            0 <= i < b.drop_last().len() && 0 <= j < b.drop_last()[i].len() implies #[trigger] b.drop_last()[i][j]
            != 0 by {
            assert(b.drop_last()[i] == b[i]);
        }
        law_fingerprint_injective(a.drop_last(), b.drop_last());
        assert(a =~= a.drop_last().push(sa));
        assert(b =~= b.drop_last().push(sb));
    }
}

/// Lowercase hex text of bytes.
pub fn to_hex(b: &[u8]) -> (res: String)
    ensures
        res@ == hex_spec(b@),
{
    let mut res = String::new();
    let n = b.len();
    let mut i: usize = 0;
    while i < n
        invariant
            n == b@.len(),
            i <= n,
            res@ == hex_spec(b@.subrange(0, i as int)),
        decreases n - i,
    {
        let byte = b[i];
        let hi = byte / 16;
        let lo = byte % 16;
        let ch = if hi < 10 { (48 + hi) as char } else { (87 + hi) as char };
        let cl = if lo < 10 { (48 + lo) as char } else { (87 + lo) as char };
        assert(b@.subrange(0, i + 1).drop_last() =~= b@.subrange(0, i as int));
        push_char(&mut res, ch);
        push_char(&mut res, cl);
        assert(res@ =~= hex_spec(b@.subrange(0, i + 1)));
        i = i + 1;
    }
    assert(b@.subrange(0, n as int) =~= b@);
    res
}

/// Compute a SHA-256 fingerprint of one or more source strings.
///
/// Returns the hash as a lowercase hex string. Sources are separated by NUL
/// bytes so `["ab", "c"]` differs from `["a", "bc"]`.
pub fn hash_sources(sources: &[&str]) -> (res: String)
    ensures
        res@ == hex_spec(sha256_spec(fingerprint_input(source_bytes(sources@)))),
        res@.len() == 64,
{
    let mut input: Vec<u8> = Vec::new();
    let n = sources.len();
    let mut i: usize = 0;
    while i < n
        invariant
            n == sources@.len(),
            i <= n,
            input@ == fingerprint_input(source_bytes(sources@).subrange(0, i as int)),
        decreases n - i,
    {
        let bytes = sources[i].as_bytes();
        let m = bytes.len();
        let mut j: usize = 0;
        let ghost before = input@;
        while j < m
            invariant
                m == bytes@.len(),
                j <= m,
                input@ == before + bytes@.subrange(0, j as int),
            decreases m - j,
        {
            input.push(bytes[j]);
            assert(bytes@.subrange(0, j + 1) =~= bytes@.subrange(0, j as int).push(bytes@[j as int]));
            j = j + 1;
        }
        input.push(0u8);
        assert(bytes@.subrange(0, m as int) =~= bytes@);
        assert(source_bytes(sources@).subrange(0, i + 1).drop_last() =~= source_bytes(sources@).subrange(0, i as int));
        assert(source_bytes(sources@)[i as int] == sources@[i as int].spec_bytes());
        assert(input@ =~= fingerprint_input(source_bytes(sources@).subrange(0, i + 1)));
        i = i + 1;
    }
    assert(source_bytes(sources@).subrange(0, n as int) =~= source_bytes(sources@));
    let digest = sha256(input.as_slice());
    let res = to_hex(digest.as_slice());
    proof {
        lemma_hex_len(digest@);
    }
    res
}

} // verus!
