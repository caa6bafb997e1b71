//! The write-once manifest cache. A `(name, vers)` key is cached when
//! its manifest file exists under the key's computed path; `ensure`
//! fetches only on a miss and never invalidates. The store is modeled
//! here over its set of present keys, so the fetch decision and its
//! idempotence are checked; the archive scan that a miss triggers is
//! below as `manifest_from_archive`.

use vstd::prelude::*;
use crate::shard::manifest_file_name;

verus! {

/// Fetching or unpacking a package's archive failed.
#[derive(Debug, Clone, Copy, PartialEq, Eq, Structural)]
pub struct FetchError;

/// Whether the key `(name, vers)` is present among the cached keys.
pub open spec fn cache_has(s: Seq<(Seq<char>, Seq<char>)>, name: Seq<char>, vers: Seq<char>) -> bool {
    exists|i: int| 0 <= i < s.len() && #[trigger] s[i] == (name, vers)
}

/// What one `ensure` does to the cached keys: nothing on a hit; on a
/// miss the key is added and a fetch is reported.
pub open spec fn ensure_spec(s: Seq<(Seq<char>, Seq<char>)>, name: Seq<char>, vers: Seq<char>) -> (
    Seq<(Seq<char>, Seq<char>)>,
    bool,
) {
    if cache_has(s, name, vers) {
        (s, false)
    } else {
        (s.push((name, vers)), true)
    }
}

/// The cache, as the set of keys whose manifest is present. Existence
/// of the key is the hit signal; there is no TTL or invalidation.
pub struct CacheModel {
    pub entries: Vec<(String, String)>,
}

impl View for CacheModel {
    type V = Seq<(Seq<char>, Seq<char>)>;

    open spec fn view(&self) -> Seq<(Seq<char>, Seq<char>)> {
        self.entries.deep_view()
    }
}

impl CacheModel {
    /// An empty cache.
    pub fn new() -> (r: Self)
        ensures
            r@ == Seq::<(Seq<char>, Seq<char>)>::empty(),
    {
        let r = CacheModel { entries: Vec::new() };
        proof {
            assert(r@ =~= Seq::<(Seq<char>, Seq<char>)>::empty());
        }
        r
    }

    /// Whether the manifest for `(name, vers)` is already present.
    pub fn contains(&self, name: &String, vers: &String) -> (r: bool)
        ensures
            r == cache_has(self@, name@, vers@),
    {
        let mut i: usize = 0;
        while i < self.entries.len()
            invariant
                i <= self.entries.len(),
                self@.len() == self.entries@.len(),
                forall|k: int| 0 <= k < i ==> self@[k] != (name@, vers@),
            decreases self.entries.len() - i,
        {
            let entry: &(String, String) = &self.entries[i];
            proof {
                assert(self@[i as int] == (entry.0@, entry.1@));
            }
            if entry.0.eq(name) && entry.1.eq(vers) {
                proof {
                    assert(self@[i as int] == (name@, vers@));
                }
                return true;
            }
            i += 1;
        }
        proof {
            if cache_has(self@, name@, vers@) {
                let k = choose|k: int| 0 <= k < self@.len() && #[trigger] self@[k] == (name@, vers@);
                assert(self@[k] != (name@, vers@));
            }
        }
        false
    }

    /// Makes sure the key is cached, reporting whether a fetch (the
    /// one network round trip) was needed; on a hit nothing changes.
    pub fn ensure(&mut self, name: &String, vers: &String) -> (fetched: bool)
        ensures
            (final(self)@, fetched) == ensure_spec(old(self)@, name@, vers@),
    {
        if self.contains(name, vers) {
            false
        } else {
            let ghost before = self@;
            self.entries.push((name.clone(), vers.clone()));
            proof {
                assert(self@ =~= before.push((name@, vers@)));
            }
            true
        }
    }
}

/// `ensure` is idempotent: after one `ensure` the key is present, so a
/// second `ensure` of the same key is a pure hit — it fetches nothing
/// and changes nothing. Network I/O thus happens at most once per key.
pub proof fn lemma_ensure_idempotent(s: Seq<(Seq<char>, Seq<char>)>, name: Seq<char>, vers: Seq<char>)
    ensures
        cache_has(ensure_spec(s, name, vers).0, name, vers),
        !ensure_spec(ensure_spec(s, name, vers).0, name, vers).1,
        ensure_spec(ensure_spec(s, name, vers).0, name, vers).0 == ensure_spec(s, name, vers).0,
{
    if !cache_has(s, name, vers) {
        assert(s.push((name, vers))[s.len() as int] == (name, vers));
    }
}

/// The manifest entry held by a gzip-compressed tar archive:
/// `Ok(Some(bytes))` when an entry with the given base file name is
/// found, `Ok(None)` when the archive is readable but holds none, and
/// `Err` when it cannot be read at all. Depends on the bytes alone.
pub uninterp spec fn archive_entry_of(archive: Seq<u8>, name: Seq<char>) -> Result<
    Option<Seq<u8>>,
    (),
>;

/// The view under which an extraction result is specified.
pub open spec fn extract_view(r: Result<Option<Vec<u8>>, FetchError>) -> Result<
    Option<Seq<u8>>,
    (),
> {
    match r {
        Ok(Some(b)) => Ok(Some(b@)),
        Ok(None) => Ok(None),
        Err(_) => Err(()),
    }
}

/// Relies on flate2's `read::GzDecoder` and tar's `Archive`: the
/// stream is decompressed and its entries scanned in order; the first
/// entry whose base file name equals `name` is read and returned, and
/// the scan stops there. A stream or entry that cannot be read is an
/// error: corruption is surfaced, not swallowed.
#[verifier::external_body]
fn archive_entry_named(archive: &[u8], name: &str) -> (r: Result<Option<Vec<u8>>, FetchError>)
    ensures
        extract_view(r) == archive_entry_of(archive@, name@),
{
    let mut ar = tar::Archive::new(flate2::read::GzDecoder::new(archive));
    let entries = ar.entries().map_err(|_| FetchError)?;
    for entry in entries {
        let mut e = entry.map_err(|_| FetchError)?;
        let found = match e.path() {
            Ok(p) => p.file_name().and_then(|f| f.to_str()) == Some(name),
            Err(_) => false,
        };
        if found {
            let mut buf = Vec::new();
            std::io::Read::read_to_end(&mut e, &mut buf).map_err(|_| FetchError)?;
            return Ok(Some(buf));
        }
    }
    Ok(None)
}

/// Extracts the one manifest entry from a fetched archive. `Ok(None)`
/// — a readable archive without a manifest entry — is silent success:
/// no file is produced, and classification later treats the absent
/// manifest as a package to skip.
pub fn manifest_from_archive(archive: &Vec<u8>) -> (r: Result<Option<Vec<u8>>, FetchError>)
    ensures
        extract_view(r) == archive_entry_of(archive@, manifest_file_name()),
{
    archive_entry_named(archive.as_slice(), "Cargo.toml")
}

} // verus!
