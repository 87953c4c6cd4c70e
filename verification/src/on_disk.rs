//! The verified core of the on-disk tier: deterministic key-to-file-name
//! derivation, the artifact codec (engine-compatibility marker plus opaque
//! blob), and the policy that turns a raw disk read into a load outcome.
//!
//! The file access itself (read, staged write, atomic rename) is I/O and
//! lives with the runtime that assembles the chain; it hands the raw bytes
//! to `read_outcome` and writes what `encode_artifact` produces.  Staging a
//! write to a temporary file and renaming it into place keeps a concurrent
//! reader from ever observing a partially written artifact; that rename is
//! the filesystem's job and is not modelled here.

use vstd::prelude::*;

use crate::types::{compatible, CacheError, Engine, Module, ModuleView};
use vstd::string::StrSliceExecFns;

verus! {

/// Little-endian bytes of the engine-configuration marker that prefixes
/// every stored artifact.
pub open spec fn config_marker(config: u64) -> Seq<u8> {
    seq![
        (config & 0xff) as u8,
        ((config >> 8) & 0xff) as u8,
        ((config >> 16) & 0xff) as u8,
        ((config >> 24) & 0xff) as u8,
        ((config >> 32) & 0xff) as u8,
        ((config >> 40) & 0xff) as u8,
        ((config >> 48) & 0xff) as u8,
        ((config >> 56) & 0xff) as u8,
    ]
}

/// The configuration a marker denotes.
pub open spec fn marker_value(b: Seq<u8>) -> u64
    recommends
        b.len() == 8,
{
    (b[0] as u64) | ((b[1] as u64) << 8) | ((b[2] as u64) << 16) | ((b[3] as u64) << 24) | ((
    b[4] as u64) << 32) | ((b[5] as u64) << 40) | ((b[6] as u64) << 48) | ((b[7] as u64) << 56)
}

/// The serialized artifact: the marker, then the opaque blob.
pub open spec fn artifact_bytes(m: ModuleView) -> Seq<u8> {
    config_marker(m.config) + m.bytes
}

/// What decoding file content on behalf of an engine yields: `None` (a
/// miss) on truncated content or an engine mismatch, the stored module
/// otherwise.
pub open spec fn decoded(bytes: Seq<u8>, engine: Engine) -> Option<ModuleView> {
    if bytes.len() < 8 {
        None
    } else if marker_value(bytes.take(8)) != engine.config {
        None
    } else {
        Some(ModuleView { config: engine.config, bytes: bytes.skip(8) })
    }
}

proof fn lemma_marker_round_trip(c: u64)
    ensures
        marker_value(config_marker(c)) == c,
{
    assert((((c & 0xff) as u8) as u64) | ((((c >> 8) & 0xff) as u8) as u64) << 8 | ((((c >> 16)
        & 0xff) as u8) as u64) << 16 | ((((c >> 24) & 0xff) as u8) as u64) << 24 | ((((c >> 32)
        & 0xff) as u8) as u64) << 32 | ((((c >> 40) & 0xff) as u8) as u64) << 40 | ((((c >> 48)
        & 0xff) as u8) as u64) << 48 | ((((c >> 56) & 0xff) as u8) as u64) << 56 == c)
        by (bit_vector);
}

/// Storing an artifact and reading it back behaves as the cache policy
/// demands: a compatible engine gets the module back, an incompatible one
/// sees a miss (never a failure).
pub proof fn lemma_artifact_round_trip(m: ModuleView, e: Engine)
    ensures
        compatible(m, e) ==> decoded(artifact_bytes(m), e) == Some(m),
        !compatible(m, e) ==> decoded(artifact_bytes(m), e) is None,
{
    lemma_marker_round_trip(m.config);
    assert(artifact_bytes(m).take(8) =~= config_marker(m.config));
    assert(artifact_bytes(m).skip(8) =~= m.bytes);
}

/// Serializes a module for storage: the engine-compatibility marker, then
/// the opaque blob, exactly `artifact_bytes` of the module.
pub fn encode_artifact(m: &Module) -> (r: Vec<u8>)
    ensures
        r@ == artifact_bytes(m@),
{
    let c = m.config();
    let mut out: Vec<u8> = Vec::new();
    out.push((c & 0xff) as u8);
    out.push(((c >> 8) & 0xff) as u8);
    out.push(((c >> 16) & 0xff) as u8);
    out.push(((c >> 24) & 0xff) as u8);
    out.push(((c >> 32) & 0xff) as u8);
    out.push(((c >> 40) & 0xff) as u8);
    out.push(((c >> 48) & 0xff) as u8);
    out.push(((c >> 56) & 0xff) as u8);
    proof {
        assert(out@ =~= config_marker(m@.config));
    }
    let blob = m.bytes();
    let mut i: usize = 0;
    while i < blob.len()
        invariant
            i <= blob@.len(),
            blob@ == m@.bytes,
            out@ == config_marker(m@.config) + m@.bytes.take(i as int),
        decreases blob@.len() - i,
    {
        out.push(blob[i]);
        i = i + 1;
        proof {
            assert(out@ =~= config_marker(m@.config) + m@.bytes.take(i as int));
        }
    }
    proof {
        assert(out@ =~= artifact_bytes(m@));
    }
    out
}

/// Deserializes stored bytes on behalf of an engine.  Truncated content and
/// an engine mismatch read as `NotFound` — a corrupt or stale entry should
/// trigger silent regeneration and overwrite, not a hard failure.
pub fn decode_artifact(bytes: &Vec<u8>, engine: &Engine) -> (r: Result<Module, CacheError>)
    ensures
        r matches Ok(m) ==> decoded(bytes@, *engine) == Some(m@),
        r matches Err(e) ==> e is NotFound && decoded(bytes@, *engine) is None,
{
    if bytes.len() < 8 {
        return Err(CacheError::NotFound);
    }
    let c: u64 = (bytes[0] as u64) | ((bytes[1] as u64) << 8) | ((bytes[2] as u64) << 16) | ((
    bytes[3] as u64) << 24) | ((bytes[4] as u64) << 32) | ((bytes[5] as u64) << 40) | ((
    bytes[6] as u64) << 48) | ((bytes[7] as u64) << 56);
    proof {
        assert(bytes@.take(8)[0] == bytes@[0]);
        assert(bytes@.take(8)[1] == bytes@[1]);
        assert(bytes@.take(8)[2] == bytes@[2]);
        assert(bytes@.take(8)[3] == bytes@[3]);
        assert(bytes@.take(8)[4] == bytes@[4]);
        assert(bytes@.take(8)[5] == bytes@[5]);
        assert(bytes@.take(8)[6] == bytes@[6]);
        assert(bytes@.take(8)[7] == bytes@[7]);
        assert(c == marker_value(bytes@.take(8)));
    }
    if c != engine.config {
        return Err(CacheError::NotFound);
    }
    let mut blob: Vec<u8> = Vec::new();
    let mut i: usize = 8;
    while i < bytes.len()
        invariant
            8 <= i <= bytes@.len(),
            blob@ == bytes@.subrange(8, i as int),
        decreases bytes@.len() - i,
    {
        blob.push(bytes[i]);
        i = i + 1;
        proof {
            assert(blob@ =~= bytes@.subrange(8, i as int));
        }
    }
    proof {
        assert(blob@ =~= bytes@.skip(8));
    }
    Ok(Module::new(engine.config, blob))
}

/// What a single attempt to read the artifact file produced; the runtime's
/// I/O layer reports it and `read_outcome` decides what it means.
pub enum DiskRead {
    /// No file exists under the derived name.
    Missing,
    /// The file was read in full.
    Content(Vec<u8>),
    /// An infrastructure failure unrelated to content (permission denied,
    /// a disk I/O error), with its description.
    Failure(String),
}

/// Decides a load outcome from a raw disk read: a missing file is a miss;
/// corrupted or engine-mismatched content is a miss, so the caller
/// regenerates and overwrites; only an infrastructure failure surfaces as
/// `Other`.
pub fn read_outcome(read: DiskRead, engine: &Engine) -> (r: Result<Module, CacheError>)
    ensures
        read is Missing ==> (r matches Err(e) && e is NotFound),
        read matches DiskRead::Content(b) ==> (r matches Ok(m) ==> decoded(b@, *engine) == Some(
            m@,
        )) && (r matches Err(e) ==> e is NotFound && decoded(b@, *engine) is None),
        read matches DiskRead::Failure(msg) ==> (r matches Err(e) && e matches CacheError::Other(
            m2,
        ) && m2@ == msg@),
{
    match read {
        DiskRead::Missing => Err(CacheError::NotFound),
        DiskRead::Content(b) => decode_artifact(&b, engine),
        DiskRead::Failure(msg) => Err(CacheError::Other(msg)),
    }
}

/// One lowercase ASCII hex digit.
pub open spec fn hex_digit(n: u8) -> u8
    recommends
        n < 16,
{
    if n < 10 {
        (48 + n) as u8
    } else {
        (87 + n) as u8
    }
}

/// Eight ASCII hex digits for one character of the key, highest nibble
/// first.
pub open spec fn hex_of_char(c: char) -> Seq<u8> {
    seq![
        hex_digit((((c as u32) >> 28) & 0xf) as u8),
        hex_digit((((c as u32) >> 24) & 0xf) as u8),
        hex_digit((((c as u32) >> 20) & 0xf) as u8),
        hex_digit((((c as u32) >> 16) & 0xf) as u8),
        hex_digit((((c as u32) >> 12) & 0xf) as u8),
        hex_digit((((c as u32) >> 8) & 0xf) as u8),
        hex_digit((((c as u32) >> 4) & 0xf) as u8),
        hex_digit(((c as u32) & 0xf) as u8),
    ]
}

/// The file name a key resolves to: the hex expansion of its characters,
/// ASCII, filesystem-safe, and the same for the same key every time.
pub open spec fn file_name_bytes(key: Seq<char>) -> Seq<u8>
    decreases key.len(),
{
    if key.len() == 0 {
        Seq::empty()
    } else {
        file_name_bytes(key.drop_last()) + hex_of_char(key.last())
    }
}

proof fn lemma_hex_digit_inj(a: u8, b: u8)
    requires
        a < 16,
        b < 16,
        hex_digit(a) == hex_digit(b),
    ensures
        a == b,
{
}

proof fn lemma_hex_of_char_inj(c1: char, c2: char)
    requires
        hex_of_char(c1) == hex_of_char(c2),
    ensures
        c1 == c2,
{
    let v1 = c1 as u32;
    let v2 = c2 as u32;
    assert(((v1 >> 28) & 0xf) < 16 && ((v1 >> 24) & 0xf) < 16 && ((v1 >> 20) & 0xf) < 16 && ((
    v1 >> 16) & 0xf) < 16 && ((v1 >> 12) & 0xf) < 16 && ((v1 >> 8) & 0xf) < 16 && ((v1 >> 4)
        & 0xf) < 16 && (v1 & 0xf) < 16) by (bit_vector);
    assert(((v2 >> 28) & 0xf) < 16 && ((v2 >> 24) & 0xf) < 16 && ((v2 >> 20) & 0xf) < 16 && ((
    v2 >> 16) & 0xf) < 16 && ((v2 >> 12) & 0xf) < 16 && ((v2 >> 8) & 0xf) < 16 && ((v2 >> 4)
        & 0xf) < 16 && (v2 & 0xf) < 16) by (bit_vector);
    assert(hex_of_char(c1)[0] == hex_of_char(c2)[0]);
    assert(hex_of_char(c1)[1] == hex_of_char(c2)[1]);
    assert(hex_of_char(c1)[2] == hex_of_char(c2)[2]);
    assert(hex_of_char(c1)[3] == hex_of_char(c2)[3]);
    assert(hex_of_char(c1)[4] == hex_of_char(c2)[4]);
    assert(hex_of_char(c1)[5] == hex_of_char(c2)[5]);
    assert(hex_of_char(c1)[6] == hex_of_char(c2)[6]);
    assert(hex_of_char(c1)[7] == hex_of_char(c2)[7]);
    lemma_hex_digit_inj((((c1 as u32) >> 28) & 0xf) as u8, (((c2 as u32) >> 28) & 0xf) as u8);
    lemma_hex_digit_inj((((c1 as u32) >> 24) & 0xf) as u8, (((c2 as u32) >> 24) & 0xf) as u8);
    lemma_hex_digit_inj((((c1 as u32) >> 20) & 0xf) as u8, (((c2 as u32) >> 20) & 0xf) as u8);
    lemma_hex_digit_inj((((c1 as u32) >> 16) & 0xf) as u8, (((c2 as u32) >> 16) & 0xf) as u8);
    lemma_hex_digit_inj((((c1 as u32) >> 12) & 0xf) as u8, (((c2 as u32) >> 12) & 0xf) as u8);
    lemma_hex_digit_inj((((c1 as u32) >> 8) & 0xf) as u8, (((c2 as u32) >> 8) & 0xf) as u8);
    lemma_hex_digit_inj((((c1 as u32) >> 4) & 0xf) as u8, (((c2 as u32) >> 4) & 0xf) as u8);
    lemma_hex_digit_inj(((c1 as u32) & 0xf) as u8, ((c2 as u32) & 0xf) as u8);
    assert(v1 == v2) by (bit_vector)
        requires
            (v1 >> 28) & 0xf == (v2 >> 28) & 0xf,
            (v1 >> 24) & 0xf == (v2 >> 24) & 0xf,
            (v1 >> 20) & 0xf == (v2 >> 20) & 0xf,
            (v1 >> 16) & 0xf == (v2 >> 16) & 0xf,
            (v1 >> 12) & 0xf == (v2 >> 12) & 0xf,
            (v1 >> 8) & 0xf == (v2 >> 8) & 0xf,
            (v1 >> 4) & 0xf == (v2 >> 4) & 0xf,
            v1 & 0xf == v2 & 0xf,
    ;
    assert(c1 == c2);
}

proof fn lemma_file_name_len(k: Seq<char>)
    ensures
        file_name_bytes(k).len() == 8 * k.len(),
    decreases k.len(),
{
    if k.len() != 0 {
        lemma_file_name_len(k.drop_last());
    }
}

/// Distinct keys resolve to distinct file names, so one key's artifact can
/// never overwrite another's.
pub proof fn lemma_file_name_injective(k1: Seq<char>, k2: Seq<char>)
    requires
        file_name_bytes(k1) == file_name_bytes(k2),
    ensures
        k1 == k2,
    decreases k1.len(),
{
    lemma_file_name_len(k1);
    lemma_file_name_len(k2);
    if k1.len() == 0 {
        assert(k1 =~= k2);
    } else {
        let f = file_name_bytes(k1);
        let p1 = file_name_bytes(k1.drop_last());
        let p2 = file_name_bytes(k2.drop_last());
        lemma_file_name_len(k1.drop_last());
        lemma_file_name_len(k2.drop_last());
        assert(p1 =~= f.take(f.len() - 8));
        assert(p2 =~= f.take(f.len() - 8));
        assert(hex_of_char(k1.last()) =~= f.skip(f.len() - 8));
        assert(hex_of_char(k2.last()) =~= f.skip(f.len() - 8));
        lemma_hex_of_char_inj(k1.last(), k2.last());
        lemma_file_name_injective(k1.drop_last(), k2.drop_last());
        assert forall|i: int| 0 <= i < k1.len() implies k1[i] == k2[i] by {
            if i < k1.len() - 1 {
                assert(k1.drop_last()[i] == k2.drop_last()[i]);
                assert(k1.drop_last()[i] == k1[i]);
                assert(k2.drop_last()[i] == k2[i]);
            } else {
                assert(k1[i] == k1.last());
                assert(k2[i] == k2.last());
            }
        }
        assert(k1 =~= k2);
    }
}

fn push_hex_of_char(out: &mut Vec<u8>, c: char)
    ensures
        final(out)@ == old(out)@ + hex_of_char(c),
{
    let v = c as u32;
    proof {
        assert(((v >> 28) & 0xf) < 16 && ((v >> 24) & 0xf) < 16 && ((v >> 20) & 0xf) < 16 && ((
        v >> 16) & 0xf) < 16 && ((v >> 12) & 0xf) < 16 && ((v >> 8) & 0xf) < 16 && ((v >> 4)
            & 0xf) < 16 && (v & 0xf) < 16) by (bit_vector);
    }
    push_hex_digit(out, ((v >> 28) & 0xf) as u8);
    push_hex_digit(out, ((v >> 24) & 0xf) as u8);
    push_hex_digit(out, ((v >> 20) & 0xf) as u8);
    push_hex_digit(out, ((v >> 16) & 0xf) as u8);
    push_hex_digit(out, ((v >> 12) & 0xf) as u8);
    push_hex_digit(out, ((v >> 8) & 0xf) as u8);
    push_hex_digit(out, ((v >> 4) & 0xf) as u8);
    push_hex_digit(out, (v & 0xf) as u8);
    proof {
        assert(out@ =~= old(out)@ + hex_of_char(c));
    }
}

fn push_hex_digit(out: &mut Vec<u8>, n: u8)
    requires
        n < 16,
    ensures
        final(out)@ == old(out)@.push(hex_digit(n)),
{
    if n < 10 {
        out.push(48 + n);
    } else {
        out.push(87 + n);
    }
}

/// Derives the file name (as ASCII bytes) a key's artifact is stored
/// under, inside the configured cache directory.  Deterministic: the same
/// key always resolves to the same name.
pub fn file_name_for_key(key: &str) -> (r: Vec<u8>)
    ensures
        r@ == file_name_bytes(key@),
{
    let mut out: Vec<u8> = Vec::new();
    let n = key.unicode_len();
    let mut i: usize = 0;
    while i < n
        invariant
            i <= n,
            n == key@.len(),
            out@ == file_name_bytes(key@.take(i as int)),
        decreases n - i,
    {
        let c = key.get_char(i);
        push_hex_of_char(&mut out, c);
        i = i + 1;
        proof {
            assert(key@.take(i as int).drop_last() =~= key@.take(i as int - 1));
            assert(key@.take(i as int).last() == key@[i as int - 1]);
        }
    }
    proof {
        assert(key@.take(key@.len() as int) =~= key@);
    }
    out
}

} // verus!
