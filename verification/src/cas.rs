//! Content-addressed storage for incremental builds.
//!
//! Outputs are written only when their content hash (rapidhash) differs
//! from the one recorded at the last build; processed images and fonts are
//! stored as blobs named by a 32-byte hash of their input and the version
//! of the pipeline that made them.

use vstd::prelude::*;
use std::hash::Hasher;
use crate::image::OutputFormat;
use crate::text::{
    append_chars, append_str, chars_to_string, eq_str, parse_unsigned, parse_unsigned_chars,
    slice_chars, split_char, split_chars, str_chars, trim, trim_chars,
};

verus! {

/// Version of the blob store layout; a store of another version is dropped.
pub const CAS_VERSION: u32 = 5;

/// Version of the image pipeline, hashed into image keys so that changing
/// encoding settings invalidates the cached images.
pub const IMAGE_PIPELINE_VERSION: u64 = 1;

/// Version of the font pipeline, hashed into font keys.
pub const FONT_PIPELINE_VERSION: u64 = 1;

// ---------------------------------------------------------------------------
// Hashing
// ---------------------------------------------------------------------------

/// Hashes `data` with rapidhash's fast hasher at its default seed
/// (`rapidhash::fast::RapidHasher::default`, `write`, `finish`). Nothing is
/// stated of the digest: rapidhash documents that this hasher's output may
/// differ between platforms, compiler versions and crate versions.
#[verifier::external_body]
fn rapid_hash(data: &[u8]) -> u64 {
    let mut hasher = rapidhash::fast::RapidHasher::default();
    hasher.write(data);
    hasher.finish()
}

/// Hashes the little-endian bytes of `version`, then `data`, with
/// rapidhash's fast hasher at its default seed. Nothing is stated of the
/// digest, for the reason given at [`rapid_hash`].
#[verifier::external_body]
fn rapid_hash_versioned(version: u64, data: &[u8]) -> u64 {
    let mut hasher = rapidhash::fast::RapidHasher::default();
    hasher.write(&version.to_le_bytes());
    hasher.write(data);
    hasher.finish()
}

/// Hashes `data` with rapidhash's fast hasher created with `seed`
/// (`RapidHasher::new`, `write`, `finish`). Nothing is stated of the
/// digest, for the reason given at [`rapid_hash`].
#[verifier::external_body]
fn rapid_hash_seeded(seed: u64, data: &[u8]) -> u64 {
    let mut hasher = rapidhash::fast::RapidHasher::new(seed);
    hasher.write(data);
    hasher.finish()
}

/// The first `n` little-endian bytes of `x`.
pub open spec fn le_bytes(x: nat, n: nat) -> Seq<u8>
    decreases n,
{
    if n == 0 {
        Seq::empty()
    } else {
        seq![(x % 256) as u8] + le_bytes(x / 256, (n - 1) as nat)
    }
}

/// Appends the eight little-endian bytes of `x` (as `u64::to_le_bytes`).
fn push_le_bytes(out: &mut Vec<u8>, x: u64)
    ensures
        final(out)@ == old(out)@ + le_bytes(x as nat, 8),
{
    let mut rest = x;
    let mut k: usize = 0;
    while k < 8
        invariant
            k <= 8,
            out@ + le_bytes(rest as nat, (8 - k) as nat) == old(out)@ + le_bytes(x as nat, 8),
        decreases 8 - k,
    {
        let ghost before = out@;
        out.push((rest % 256) as u8);
        proof {
            assert(le_bytes(rest as nat, (8 - k) as nat) == seq![(rest % 256) as u8] + le_bytes(
                (rest / 256) as nat,
                (8 - k - 1) as nat,
            ));
            assert(out@ + le_bytes((rest / 256) as nat, (8 - k - 1) as nat) =~= before + (seq![
                (rest % 256) as u8,
            ] + le_bytes((rest / 256) as nat, (8 - k - 1) as nat)));
        }
        rest = rest / 256;
        k += 1;
    }
    proof {
        assert(le_bytes(rest as nat, 0) =~= Seq::<u8>::empty());
        assert(out@ + Seq::<u8>::empty() =~= out@);
    }
}

/// Hash of an input's content, with the pipeline version: 32 bytes.
#[derive(Clone, Copy, Debug)]
pub struct InputHash(pub [u8; 32]);

/// The 32-byte key made of four 64-bit digests, each in little-endian
/// order.
pub open spec fn key_bytes(h1: u64, h2: u64, h3: u64, h4: u64) -> Seq<u8> {
    le_bytes(h1 as nat, 8) + le_bytes(h2 as nat, 8) + le_bytes(h3 as nat, 8) + le_bytes(h4 as nat, 8)
}

proof fn lemma_le_bytes_len(x: nat, n: nat)
    ensures
        le_bytes(x, n).len() == n,
    decreases n,
{
    if n > 0 {
        lemma_le_bytes_len(x / 256, (n - 1) as nat);
    }
}

/// The key made of four digests.
pub fn key_from_digests(h1: u64, h2: u64, h3: u64, h4: u64) -> (r: InputHash)
    ensures
        r.0@ == key_bytes(h1, h2, h3, h4),
{
    let mut bytes: Vec<u8> = Vec::new();
    push_le_bytes(&mut bytes, h1);
    push_le_bytes(&mut bytes, h2);
    push_le_bytes(&mut bytes, h3);
    push_le_bytes(&mut bytes, h4);
    proof {
        lemma_le_bytes_len(h1 as nat, 8);
        lemma_le_bytes_len(h2 as nat, 8);
        lemma_le_bytes_len(h3 as nat, 8);
        lemma_le_bytes_len(h4 as nat, 8);
        assert(bytes@ =~= key_bytes(h1, h2, h3, h4));
    }
    let mut result = [0u8; 32];
    let mut i: usize = 0;
    while i < 32
        invariant
            i <= 32,
            bytes@.len() == 32,
            forall|j: int| 0 <= j < i ==> result@[j] == bytes@[j],
        decreases 32 - i,
    {
        result[i] = bytes[i];
        i += 1;
    }
    assert(result@ =~= bytes@);
    InputHash(result)
}

/// The key of `data` under pipeline `version`: the digest of the version's
/// bytes followed by `data`, then three digests of `data`, each seeded with
/// the one before. The digests are rapidhash's fast hasher, whose values
/// depend on the machine, so only the key's make-up is stated.
fn versioned_key(version: u64, data: &[u8]) -> (r: InputHash)
    ensures
        exists|h1: u64, h2: u64, h3: u64, h4: u64| r.0@ == key_bytes(h1, h2, h3, h4),
{
    let h1 = rapid_hash_versioned(version, data);
    let h2 = rapid_hash_seeded(h1, data);
    let h3 = rapid_hash_seeded(h2, data);
    let h4 = rapid_hash_seeded(h3, data);
    key_from_digests(h1, h2, h3, h4)
}

/// Content hash of an image for its cache key (32 bytes, for collision
/// resistance), including the image pipeline version.
pub fn content_hash_32(data: &[u8]) -> (r: InputHash)
    ensures
        exists|h1: u64, h2: u64, h3: u64, h4: u64| r.0@ == key_bytes(h1, h2, h3, h4),
{
    versioned_key(IMAGE_PIPELINE_VERSION, data)
}

/// Content hash of a font for its cache key, including the font pipeline
/// version.
pub fn font_content_hash(data: &[u8]) -> (r: InputHash)
    ensures
        exists|h1: u64, h2: u64, h3: u64, h4: u64| r.0@ == key_bytes(h1, h2, h3, h4),
{
    versioned_key(FONT_PIPELINE_VERSION, data)
}

/// Key of one variant of an image (format and width).
#[derive(Clone, Copy, Debug)]
pub struct ImageVariantKey {
    /// Hash of the input image content (including the pipeline version)
    pub input_hash: InputHash,
    /// Output format
    pub format: OutputFormat,
    /// Output width in pixels
    pub width: u32,
}

// ---------------------------------------------------------------------------
// Hex names of blobs
// ---------------------------------------------------------------------------

/// The lower-case hex digit for `n` (below 16).
pub open spec fn hex_digit(n: int) -> char {
    if n < 10 {
        (48 + n) as char
    } else {
        (87 + n) as char
    }
}

/// Lower-case hex of `bytes`, two digits per byte, high nibble first.
pub open spec fn hex_of(bytes: Seq<u8>) -> Seq<char>
    decreases bytes.len(),
{
    if bytes.len() == 0 {
        Seq::empty()
    } else {
        let b = bytes.last();
        hex_of(bytes.drop_last()) + seq![hex_digit((b / 16) as int), hex_digit((b % 16) as int)]
    }
}

fn hex_char(n: u8) -> (c: char)
    requires
        n < 16,
    ensures
        c == hex_digit(n as int),
{
    if n < 10 {
        (48 + n) as char
    } else {
        (87 + n) as char
    }
}

/// Encodes bytes as a lower-case hex string.
pub fn hex_encode(bytes: &[u8]) -> (r: String)
    ensures
        r@ == hex_of(bytes@),
{
    let mut out: Vec<char> = Vec::new();
    let mut i: usize = 0;
    while i < bytes.len()
        invariant
            i <= bytes.len(),
            out@ == hex_of(bytes@.take(i as int)),
        decreases bytes.len() - i,
    {
        proof {
            assert(bytes@.take(i + 1).drop_last() =~= bytes@.take(i as int));
        }
        let b = bytes[i];
        out.push(hex_char(b / 16));
        out.push(hex_char(b % 16));
        proof {
            assert(out@ =~= hex_of(bytes@.take(i as int)) + seq![
                hex_digit((b / 16) as int),
                hex_digit((b % 16) as int),
            ]);
        }
        i += 1;
    }
    proof {
        assert(bytes@.take(bytes@.len() as int) =~= bytes@);
    }
    chars_to_string(&out)
}

proof fn lemma_hex_len(bytes: Seq<u8>)
    ensures
        hex_of(bytes).len() == 2 * bytes.len(),
    decreases bytes.len(),
{
    if bytes.len() > 0 {
        lemma_hex_len(bytes.drop_last());
    }
}

/// Hex names are two digits per byte, and different bytes give different
/// names.
pub proof fn lemma_hex_injective(a: Seq<u8>, b: Seq<u8>)
    requires
        hex_of(a) == hex_of(b),
    ensures
        a == b,
        hex_of(a).len() == 2 * a.len(),
    decreases a.len(),
{
    lemma_hex_len(a);
    lemma_hex_len(b);
    if a.len() > 0 {
        let ha = hex_of(a.drop_last());
        let hb = hex_of(b.drop_last());
        lemma_hex_len(a.drop_last());
        lemma_hex_len(b.drop_last());
        let n = hex_of(a).len();
        assert(hex_of(a)[n - 2] == hex_digit((a.last() / 16) as int));
        assert(hex_of(b)[n - 2] == hex_digit((b.last() / 16) as int));
        assert(hex_of(a)[n - 1] == hex_digit((a.last() % 16) as int));
        assert(hex_of(b)[n - 1] == hex_digit((b.last() % 16) as int));
        assert(a.last() / 16 == b.last() / 16);
        assert(a.last() % 16 == b.last() % 16);
        assert(a.last() == b.last());
        assert(ha =~= hex_of(a).subrange(0, n - 2));
        assert(hb =~= hex_of(b).subrange(0, n - 2));
        lemma_hex_injective(a.drop_last(), b.drop_last());
        assert(a =~= a.drop_last().push(a.last()));
        assert(b =~= b.drop_last().push(b.last()));
    } else {
        assert(b.len() == 0);
        assert(a =~= b);
    }
}

/// Where the blob for `hash` with extension `ext` is stored: a
/// subdirectory named by the first two bytes of the hash in hex, and a file
/// named by the whole hash in hex with the extension.
pub fn blob_location(hash: &InputHash, extension: &str) -> (r: (String, String))
    ensures
        r.0@ == hex_of(hash.0@).subrange(0, 4),
        r.1@ == hex_of(hash.0@) + seq!['.'] + extension@,
{
    let hex = hex_encode(hash.0.as_slice());
    let h = str_chars(hex.as_str());
    proof {
        lemma_hex_len(hash.0@);
    }
    let sub = slice_chars(&h, 0, 4);
    let mut name = h;
    name.push('.');
    append_str(&mut name, extension);
    (chars_to_string(&sub), chars_to_string(&name))
}

// ---------------------------------------------------------------------------
// The store of output hashes
// ---------------------------------------------------------------------------

/// Map from entries; a later entry for a path replaces an earlier one.
pub open spec fn hash_map(s: Seq<(String, u64)>) -> Map<Seq<char>, u64>
    decreases s.len(),
{
    if s.len() == 0 {
        Map::empty()
    } else {
        hash_map(s.drop_last()).insert(s.last().0@, s.last().1)
    }
}

/// Content hashes of the written outputs, by output path.
pub struct ContentStore {
    hashes: Vec<(String, u64)>,
}

impl View for ContentStore {
    type V = Map<Seq<char>, u64>;

    closed spec fn view(&self) -> Map<Seq<char>, u64> {
        hash_map(self.hashes@)
    }
}

proof fn lemma_hash_map_absent(s: Seq<(String, u64)>, k: Seq<char>)
    requires
        forall|j: int| 0 <= j < s.len() ==> s[j].0@ != k,
    ensures
        !hash_map(s).contains_key(k),
    decreases s.len(),
{
    if s.len() > 0 {
        lemma_hash_map_absent(s.drop_last(), k);
    }
}

proof fn lemma_hash_map_last(s: Seq<(String, u64)>, k: Seq<char>, i: int)
    requires
        0 <= i < s.len(),
        s[i].0@ == k,
        forall|j: int| i < j < s.len() ==> s[j].0@ != k,
    ensures
        hash_map(s).contains_key(k),
        hash_map(s)[k] == s[i].1,
    decreases s.len(),
{
    if i < s.len() - 1 {
        lemma_hash_map_last(s.drop_last(), k, i);
    }
}

/// The store decides that `path` must be written: its recorded hash is not
/// `hash`, or the file is missing.
pub open spec fn must_write(m: Map<Seq<char>, u64>, path: Seq<char>, hash: u64, exists: bool) -> bool {
    !(m.contains_key(path) && m[path] == hash && exists)
}

impl ContentStore {
    /// An empty store.
    pub fn new() -> (r: ContentStore)
        ensures
            r@ == Map::<Seq<char>, u64>::empty(),
    {
        ContentStore { hashes: Vec::new() }
    }

    /// The rapidhash (fast hasher) of `content`; its value depends on the
    /// machine, so nothing is stated of it.
    pub fn hash(content: &[u8]) -> u64 {
        rapid_hash(content)
    }

    /// Whether content with hash `hash` must be written to `path` (whose file
    /// exists on disk or not): the recorded hash differs, or the file is
    /// missing.
    pub fn needs_write_hash(&self, path: &str, hash: u64, exists_on_disk: bool) -> (r: bool)
        ensures
            r == must_write(self@, path@, hash, exists_on_disk),
    {
        match self.stored_hash(path) {
            Some(old) => !(old == hash && exists_on_disk),
            None => true,
        }
    }

    /// The hash recorded for `path`, if any.
    pub fn stored_hash(&self, path: &str) -> (r: Option<u64>)
        ensures
            r == (if self@.contains_key(path@) {
                Some(self@[path@])
            } else {
                None
            }),
    {
        let p = str_chars(path);
        let mut i: usize = self.hashes.len();
        while i > 0
            invariant
                i <= self.hashes.len(),
                p@ == path@,
                forall|j: int| i <= j < self.hashes@.len() ==> self.hashes@[j].0@ != path@,
            decreases i,
        {
            let e = &self.hashes[i - 1];
            assert(*e == self.hashes@[i - 1]);
            let k = str_chars(e.0.as_str());
            if crate::text::eq_chars(&k, &p) {
                proof {
                    lemma_hash_map_last(self.hashes@, path@, i - 1);
                }
                return Some(e.1);
            }
            i -= 1;
        }
        proof {
            lemma_hash_map_absent(self.hashes@, path@);
        }
        None
    }

    /// Whether `content` must be written to `path` (whose file exists on
    /// disk or not): `Some` with its hash when the recorded hash differs or
    /// the file is missing (see [`ContentStore::needs_write_hash`]), `None`
    /// when the write can be skipped, which needs a recorded hash for `path`
    /// and the file on disk.
    pub fn needs_write(&self, path: &str, content: &[u8], exists_on_disk: bool) -> (r: Option<u64>)
        ensures
            match r {
                Some(h) => must_write(self@, path@, h, exists_on_disk),
                None => self@.contains_key(path@) && exists_on_disk,
            },
    {
        let h = ContentStore::hash(content);
        if self.needs_write_hash(path, h, exists_on_disk) {
            Some(h)
        } else {
            None
        }
    }

    /// Records that `path` now holds content with hash `hash`.
    pub fn record(&mut self, path: String, hash: u64)
        ensures
            final(self)@ == old(self)@.insert(path@, hash),
    {
        self.hashes.push((path, hash));
        proof {
            assert(self.hashes@.drop_last() =~= old(self).hashes@);
        }
    }
}

/// Once a content hash is recorded for a path and the file exists, writing
/// content with the same hash again is skipped.
pub proof fn lemma_unchanged_write_skipped(m: Map<Seq<char>, u64>, path: Seq<char>, hash: u64)
    ensures
        !must_write(m.insert(path, hash), path, hash, true),
{
}

// ---------------------------------------------------------------------------
// The asset cache directory
// ---------------------------------------------------------------------------

/// Some line of `content`, trimmed, is `.cache` or `.cache/`.
pub open spec fn ignores_cache(content: Seq<char>) -> bool {
    exists|i: int|
        0 <= i < split_char(content, '\n').len() && (trim(#[trigger] split_char(content, '\n')[i])
            == ".cache"@ || trim(split_char(content, '\n')[i]) == ".cache/"@)
}

/// Whether a `.gitignore` with text `content` (`None`: missing or
/// unreadable) needs a `.cache` entry.
pub fn gitignore_needs_cache_entry(content: Option<&str>) -> (r: bool)
    ensures
        r == match content {
            Some(c) => !ignores_cache(c@),
            None => true,
        },
{
    match content {
        None => true,
        Some(c) => {
            let chars = str_chars(c);
            let lines = split_chars(&chars, '\n');
            let ghost sp = split_char(c@, '\n');
            let mut i: usize = 0;
            while i < lines.len()
                invariant
                    i <= lines.len(),
                    content == Some(c),
                    lines@.len() == sp.len(),
                    sp == split_char(c@, '\n'),
                    forall|j: int| 0 <= j < lines@.len() ==> #[trigger] lines@[j]@ == sp[j],
                    forall|j: int|
                        0 <= j < i ==> !(trim(#[trigger] sp[j]) == ".cache"@ || trim(sp[j])
                            == ".cache/"@),
                decreases lines.len() - i,
            {
                let t = trim_chars(&lines[i]);
                if eq_str(&t, ".cache") || eq_str(&t, ".cache/") {
                    assert(trim(sp[i as int]) == ".cache"@ || trim(sp[i as int]) == ".cache/"@);
                    assert(split_char(c@, '\n')[i as int] == sp[i as int]);
                    assert(ignores_cache(c@));
                    return false;
                }
                i += 1;
            }
            true
        },
    }
}

/// The text appended to a `.gitignore` whose content is `content` (`None`
/// when it does not exist or cannot be read): the entry on a line of its
/// own.
pub fn gitignore_cache_entry(content: Option<&str>) -> (r: String)
    ensures
        r@ == match content {
            Some(c) => if c@.len() == 0 || c@.last() == '\n' {
                ".cache\n"@
            } else {
                "\n.cache\n"@
            },
            None => ".cache\n"@,
        },
{
    match content {
        Some(c) => {
            let chars = str_chars(c);
            if chars.len() == 0 || chars[chars.len() - 1] == '\n' {
                ".cache\n".to_owned()
            } else {
                "\n.cache\n".to_owned()
            }
        },
        None => ".cache\n".to_owned(),
    }
}

/// Which directory's `.gitignore` to use, searching up from the cache
/// directory's parent: `dirs[k]` tells whether the k-th directory up has a
/// `.git` and whether it has a `.gitignore`. The first directory with
/// either is it; `None` means outside a repository (nothing to do).
pub fn gitignore_dir(dirs: &Vec<(bool, bool)>) -> (r: Option<usize>)
    ensures
        match r {
            Some(k) => k < dirs@.len() && (dirs@[k as int].0 || dirs@[k as int].1) && forall|j: int|
                0 <= j < k ==> !dirs@[j].0 && !dirs@[j].1,
            None => forall|j: int| 0 <= j < dirs@.len() ==> !dirs@[j].0 && !dirs@[j].1,
        },
{
    let mut i: usize = 0;
    while i < dirs.len()
        invariant
            i <= dirs.len(),
            forall|j: int| 0 <= j < i ==> !dirs@[j].0 && !dirs@[j].1,
        decreases dirs.len() - i,
    {
        if dirs[i].0 || dirs[i].1 {
            return Some(i);
        }
        i += 1;
    }
    None
}

/// Whether a version file with text `content` (`None`: missing or
/// unreadable) holds the current store version.
pub fn cas_version_ok(content: Option<&str>) -> (r: bool)
    ensures
        r == match content {
            Some(c) => parse_unsigned(trim(c@), u32::MAX as nat) == Some(CAS_VERSION as nat),
            None => false,
        },
{
    match content {
        Some(c) => {
            let chars = str_chars(c);
            let t = trim_chars(&chars);
            match parse_unsigned_chars(&t, u32::MAX) {
                Some(v) => v == CAS_VERSION,
                None => false,
            }
        },
        None => false,
    }
}

/// The text written to the version file.
pub fn cas_version_text() -> (r: String)
    ensures
        r@ == crate::text::decimal_digits(CAS_VERSION as nat),
{
    let digits = crate::text::decimal_chars(CAS_VERSION as u64);
    chars_to_string(&digits)
}

} // verus!
