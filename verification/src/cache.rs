//! The cache of compiled programs.
//!
//! A program is stored under the key of its source text: the SHA-256 digest
//! of the text, in hexadecimal. The source is kept as `sources/<key>.rs` and
//! the binary as `binaries/<key>`, both under the cache's root. This module
//! computes keys and paths and sums up statistics; reading and writing the
//! directories is the caller's part.

use vstd::prelude::*;
use vstd::string::StringExecFns;
use sha2::{Digest, Sha256};
use crate::error::LobError;
use crate::path::{join, join_path, lemma_join_keeps_names_apart};

verus! {

/// The SHA-256 digest of the UTF-8 encoding of `source`, as `sha2` computes
/// it, in lower-case hexadecimal.
pub uninterp spec fn sha256_hex(source: Seq<char>) -> Seq<char>;

/// `c` is a hexadecimal digit in lower case.
pub open spec fn is_lower_hex(c: char) -> bool {
    (0x30 <= c as u32 <= 0x39) || (0x61 <= c as u32 <= 0x66)
}

/// `key` has the shape of a cache key: 64 hexadecimal digits in lower case.
pub open spec fn is_key(key: Seq<char>) -> bool {
    &&& key.len() == 64
    &&& forall|i: int| 0 <= i < key.len() ==> is_lower_hex(#[trigger] key[i])
}

/// `sha2::Sha256` over the bytes of `source`, formatted with `{:x}`: the
/// digest has 32 bytes, and each is written as two hexadecimal digits in
/// lower case.
#[verifier::external_body]
fn sha256_hex_digest(source: &str) -> (key: String)
    ensures
        key@ == sha256_hex(source@),
        is_key(key@),
{
    let mut hasher = Sha256::new();
    hasher.update(source.as_bytes());
    format!("{:x}", hasher.finalize())
}

/// The directory of `root` that holds the binaries.
pub open spec fn binaries_dir_text(root: Seq<char>) -> Seq<char> {
    join(root, "binaries"@)
}

/// The directory of `root` that holds the sources.
pub open spec fn sources_dir_text(root: Seq<char>) -> Seq<char> {
    join(root, "sources"@)
}

/// Where the binary for `key` is kept under `root`.
pub open spec fn binary_path_text(root: Seq<char>, key: Seq<char>) -> Seq<char> {
    join(binaries_dir_text(root), key)
}

/// Where the source for `key` is kept under `root`.
pub open spec fn source_path_text(root: Seq<char>, key: Seq<char>) -> Seq<char> {
    join(sources_dir_text(root), key + ".rs"@)
}

/// What is to be done to clear the cache.
#[derive(Debug)]
pub struct Clearing {
    /// The directories to remove with all they hold, in order.
    pub remove: Vec<String>,
    /// The directories to make after that, in order.
    pub create: Vec<String>,
}

/// The directories that clearing the cache removes: those of the two that
/// are there, the binaries before the sources.
pub open spec fn removed_dirs(root: Seq<char>, binaries_there: bool, sources_there: bool) -> Seq<
    Seq<char>,
> {
    (if binaries_there {
        seq![binaries_dir_text(root)]
    } else {
        Seq::empty()
    }) + (if sources_there {
        seq![sources_dir_text(root)]
    } else {
        Seq::empty()
    })
}

/// The directories that clearing the cache makes anew: both, the binaries
/// before the sources.
pub open spec fn created_dirs(root: Seq<char>) -> Seq<Seq<char>> {
    seq![binaries_dir_text(root), sources_dir_text(root)]
}

/// An entry of the directory of binaries, as the caller found it.
#[derive(Clone, Copy, Debug, PartialEq, Eq, Structural)]
pub struct Entry {
    /// Whether the entry is a regular file.
    pub is_file: bool,
    /// Its size in bytes.
    pub size: u64,
}

/// How many of the first `n` entries are files.
pub open spec fn file_count(entries: Seq<Entry>, n: int) -> nat
    decreases n,
{
    if n <= 0 {
        0
    } else {
        file_count(entries, n - 1) + if entries[n - 1].is_file {
            1nat
        } else {
            0nat
        }
    }
}

/// The bytes that the files among the first `n` entries hold together.
pub open spec fn file_bytes(entries: Seq<Entry>, n: int) -> nat
    decreases n,
{
    if n <= 0 {
        0
    } else {
        file_bytes(entries, n - 1) + if entries[n - 1].is_file {
            entries[n - 1].size as nat
        } else {
            0nat
        }
    }
}

/// Manages the cache of compiled binaries under one root directory.
#[derive(Debug)]
pub struct Cache {
    cache_dir: String,
}

/// Cache statistics.
#[derive(Clone, Copy, Debug, PartialEq, Eq, Structural)]
pub struct CacheStats {
    /// Number of cached binaries.
    pub binary_count: usize,
    /// Total size of cached binaries in bytes.
    pub total_size: u64,
}

impl Cache {
    /// The cache's root directory.
    pub closed spec fn root(&self) -> Seq<char> {
        self.cache_dir@
    }

    /// The cache under the platform's cache directory `base`, in a directory
    /// of its own. Where the platform has no cache directory there is no
    /// cache.
    pub fn new(base: Option<&str>) -> (r: Result<Self, LobError>)
        ensures
            match base {
                Some(dir) => r matches Ok(cache) && cache.root() == join(dir@, "lob"@),
                None => r matches Err(e) && e matches LobError::Cache(message) && message@
                    == "No cache directory found"@,
            },
    {
        match base {
            Some(dir) => Ok(Cache { cache_dir: join_path(dir, "lob") }),
            None => Err(LobError::Cache(String::from_str("No cache directory found"))),
        }
    }

    /// The cache rooted at `cache_dir`.
    pub fn with_dir(cache_dir: String) -> (cache: Self)
        ensures
            cache.root() == cache_dir@,
    {
        Cache { cache_dir }
    }

    /// The cache's root directory.
    pub fn cache_dir(&self) -> (dir: &String)
        ensures
            dir@ == self.root(),
    {
        &self.cache_dir
    }

    /// The key of a source text.
    pub fn hash_source(&self, source: &str) -> (key: String)
        ensures
            key@ == sha256_hex(source@),
            is_key(key@),
    {
        sha256_hex_digest(source)
    }

    /// The directory that holds the binaries.
    pub fn binaries_dir(&self) -> (path: String)
        ensures
            path@ == binaries_dir_text(self.root()),
    {
        join_path(self.cache_dir.as_str(), "binaries")
    }

    /// The directory that holds the sources.
    pub fn sources_dir(&self) -> (path: String)
        ensures
            path@ == sources_dir_text(self.root()),
    {
        join_path(self.cache_dir.as_str(), "sources")
    }

    /// The cached binary for `hash`: its path if `exists` says that it is
    /// there, nothing otherwise. The binary is not read.
    pub fn get_binary(&self, hash: &str, exists: bool) -> (r: Option<String>)
        ensures
            r is Some <==> exists,
            r matches Some(path) ==> path@ == binary_path_text(self.root(), hash@),
    {
        if exists {
            Some(self.binary_path(hash))
        } else {
            None
        }
    }

    /// Where the source for `hash` is kept, whether it is there or not.
    pub fn source_path(&self, hash: &str) -> (path: String)
        ensures
            path@ == source_path_text(self.root(), hash@),
    {
        let name = String::from_str(hash).concat(".rs");
        join_path(self.sources_dir().as_str(), name.as_str())
    }

    /// Where the binary for `hash` is kept, whether it is there or not.
    pub fn binary_path(&self, hash: &str) -> (path: String)
        ensures
            path@ == binary_path_text(self.root(), hash@),
    {
        join_path(self.binaries_dir().as_str(), hash)
    }

    /// What clearing the cache comes to. The directories that are there are
    /// removed with all they hold, and then both are made anew: after
    /// clearing, both are there and empty. A directory that is not there is
    /// not removed, so that clearing a cache that is already clear removes
    /// nothing and cannot fail on that.
    pub fn clear(&self, binaries_there: bool, sources_there: bool) -> (plan: Clearing)
        ensures
            plan.remove.deep_view() == removed_dirs(self.root(), binaries_there, sources_there),
            plan.create.deep_view() == created_dirs(self.root()),
    {
        let mut remove: Vec<String> = Vec::new();
        if binaries_there {
            remove.push(self.binaries_dir());
        }
        if sources_there {
            remove.push(self.sources_dir());
        }
        assert(remove.deep_view() =~= removed_dirs(self.root(), binaries_there, sources_there));
        let mut create: Vec<String> = Vec::new();
        create.push(self.binaries_dir());
        create.push(self.sources_dir());
        assert(create.deep_view() =~= created_dirs(self.root()));
        Clearing { remove, create }
    }

    /// The statistics of the cache, from the entries of its directory of
    /// binaries: how many of them are files, and how many bytes these hold.
    /// A total beyond `u64::MAX` is given as `u64::MAX`.
    pub fn stats(&self, entries: &Vec<Entry>) -> (stats: CacheStats)
        ensures
            stats.binary_count == file_count(entries@, entries@.len() as int),
            stats.total_size == if file_bytes(entries@, entries@.len() as int) <= u64::MAX {
                file_bytes(entries@, entries@.len() as int)
            } else {
                u64::MAX as nat
            },
    {
        let mut binary_count: usize = 0;
        let mut total_size: u64 = 0;
        let mut i: usize = 0;
        while i < entries.len()
            invariant
                0 <= i <= entries.len(),
                binary_count == file_count(entries@, i as int),
                binary_count <= i,
                total_size == if file_bytes(entries@, i as int) <= u64::MAX {
                    file_bytes(entries@, i as int)
                } else {
                    u64::MAX as nat
                },
            decreases entries.len() - i,
        {
            if entries[i].is_file {
                binary_count += 1;
                total_size = total_size.saturating_add(entries[i].size);
            }
            i += 1;
        }
        CacheStats { binary_count, total_size }
    }
}

/// Sources that are the same, byte for byte, have the same key.
pub proof fn lemma_same_source_same_key(a: Seq<char>, b: Seq<char>)
    requires
        a == b,
    ensures
        sha256_hex(a) == sha256_hex(b),
{
}

/// One key has one binary path, whenever it is asked for.
pub proof fn lemma_same_source_same_binary(root: Seq<char>, a: Seq<char>, b: Seq<char>)
    requires
        a == b,
    ensures
        binary_path_text(root, sha256_hex(a)) == binary_path_text(root, sha256_hex(b)),
{
}

/// Different keys are kept in different places.
pub proof fn lemma_keys_have_their_own_paths(root: Seq<char>, a: Seq<char>, b: Seq<char>)
    requires
        a != b,
    ensures
        binary_path_text(root, a) != binary_path_text(root, b),
        source_path_text(root, a) != source_path_text(root, b),
{
    lemma_join_keeps_names_apart(binaries_dir_text(root), a, b);
    let ext = ".rs"@;
    assert((a + ext).subrange(0, a.len() as int) =~= a);
    assert((b + ext).subrange(0, b.len() as int) =~= b);
    assert((a + ext).len() == a.len() + ext.len());
    assert((b + ext).len() == b.len() + ext.len());
    lemma_join_keeps_names_apart(sources_dir_text(root), a + ext, b + ext);
}

/// A key names a file and no directory: it holds no path separator.
pub proof fn lemma_key_is_one_component(key: Seq<char>)
    requires
        is_key(key),
    ensures
        !key.contains('/'),
{
    if key.contains('/') {
        let i = choose|i: int| 0 <= i < key.len() && key[i] == '/';
        assert(is_lower_hex(key[i]));
    }
}

/// Clearing a cache whose directories are gone removes nothing, and makes
/// both directories.
pub proof fn lemma_clearing_nothing_removes_nothing(root: Seq<char>)
    ensures
        removed_dirs(root, false, false).len() == 0,
        created_dirs(root).len() == 2,
{
}

/// Whatever is removed is made anew: clearing leaves no directory missing.
pub proof fn lemma_clearing_recreates_what_it_removes(
    root: Seq<char>,
    binaries_there: bool,
    sources_there: bool,
    i: int,
)
    requires
        0 <= i < removed_dirs(root, binaries_there, sources_there).len(),
    ensures
        created_dirs(root).contains(removed_dirs(root, binaries_there, sources_there)[i]),
{
    let made = created_dirs(root);
    assert(made[0] == binaries_dir_text(root));
    assert(made[1] == sources_dir_text(root));
}

/// A directory without files counts as nothing: no binaries and no bytes.
pub proof fn lemma_empty_cache_has_no_statistics(entries: Seq<Entry>)
    requires
        entries.len() == 0,
    ensures
        file_count(entries, entries.len() as int) == 0,
        file_bytes(entries, entries.len() as int) == 0,
{
}

/// The numeral for a single digit.
pub open spec fn digit_text(d: nat) -> Seq<char> {
    if d == 0 {
        "0"@
    } else if d == 1 {
        "1"@
    } else if d == 2 {
        "2"@
    } else if d == 3 {
        "3"@
    } else if d == 4 {
        "4"@
    } else if d == 5 {
        "5"@
    } else if d == 6 {
        "6"@
    } else if d == 7 {
        "7"@
    } else if d == 8 {
        "8"@
    } else {
        "9"@
    }
}

/// `n` in decimal, without leading zeros.
pub open spec fn decimal_text(n: nat) -> Seq<char>
    decreases n,
{
    if n < 10 {
        digit_text(n)
    } else {
        decimal_text(n / 10) + digit_text(n % 10)
    }
}

/// `size / unit` in hundredths, rounded to the nearest; a tie goes to the
/// even hundredth.
pub open spec fn rounded_hundredths(size: nat, unit: nat) -> nat {
    let q = size * 100 / unit;
    let r = size * 100 % unit;
    if 2 * r > unit || (2 * r == unit && q % 2 == 1) {
        q + 1
    } else {
        q
    }
}

/// `size / unit` with two decimals.
pub open spec fn scaled_text(size: nat, unit: nat) -> Seq<char> {
    let h = rounded_hundredths(size, unit);
    decimal_text(h / 100) + "."@ + digit_text(h / 10 % 10) + digit_text(h % 10)
}

/// The bytes in a kilobyte.
pub const KB: u64 = 1024;

/// The bytes in a megabyte.
pub const MB: u64 = 1024 * 1024;

/// The bytes in a gigabyte.
pub const GB: u64 = 1024 * 1024 * 1024;

/// A size in bytes, in the largest unit that it fills: with two decimals in
/// `GB`, `MB` or `KB`, or as a whole number of bytes.
pub open spec fn size_text(size: nat) -> Seq<char> {
    if size >= GB {
        scaled_text(size, GB as nat) + " GB"@
    } else if size >= MB {
        scaled_text(size, MB as nat) + " MB"@
    } else if size >= KB {
        scaled_text(size, KB as nat) + " KB"@
    } else {
        decimal_text(size) + " B"@
    }
}

fn digit(d: u64) -> (s: &'static str)
    requires
        d < 10,
    ensures
        s@ == digit_text(d as nat),
{
    if d == 0 {
        "0"
    } else if d == 1 {
        "1"
    } else if d == 2 {
        "2"
    } else if d == 3 {
        "3"
    } else if d == 4 {
        "4"
    } else if d == 5 {
        "5"
    } else if d == 6 {
        "6"
    } else if d == 7 {
        "7"
    } else if d == 8 {
        "8"
    } else {
        "9"
    }
}

/// Writes `n` in decimal.
pub fn decimal(n: u64) -> (out: String)
    ensures
        out@ == decimal_text(n as nat),
    decreases n,
{
    if n < 10 {
        String::from_str(digit(n))
    } else {
        decimal(n / 10).concat(digit(n % 10))
    }
}

fn scaled(size: u64, unit: u64) -> (out: String)
    requires
        unit == KB || unit == MB || unit == GB,
    ensures
        out@ == scaled_text(size as nat, unit as nat),
{
    let scaled: u128 = size as u128 * 100;
    let wide: u128 = unit as u128;
    let q: u128 = scaled / wide;
    let r: u128 = scaled % wide;
    let h: u128 = if 2 * r > wide || (2 * r == wide && q % 2 == 1) {
        q + 1
    } else {
        q
    };
    let whole: u64 = (h / 100) as u64;
    let tenths: u64 = (h / 10 % 10) as u64;
    let hundredths: u64 = (h % 10) as u64;
    decimal(whole).concat(".").concat(digit(tenths)).concat(digit(hundredths))
}

impl CacheStats {
    /// The total size for a reader: in the largest unit that it fills, with
    /// two decimals, or in bytes. The value is rounded from the exact
    /// quotient, a tie to the even hundredth.
    pub fn format_size(&self) -> (out: String)
        ensures
            out@ == size_text(self.total_size as nat),
    {
        let size = self.total_size;
        if size >= GB {
            scaled(size, GB).concat(" GB")
        } else if size >= MB {
            scaled(size, MB).concat(" MB")
        } else if size >= KB {
            scaled(size, KB).concat(" KB")
        } else {
            decimal(size).concat(" B")
        }
    }
}

} // verus!
