//! Deterministic sharding of package names into cache subdirectories,
//! and the derived cache paths and download URLs.

use vstd::prelude::*;
use vstd::string::StrSliceExecFns;
use vstd::string::StringExecFns;

verus! {

/// The shard directory (relative to the cache root) for a package name:
/// one-character names go to `1`, two-character names to `2`,
/// three-character names to `3/<first char>`, and longer names to
/// `<first two chars>/<next two chars>`.
pub open spec fn shard_spec(name: Seq<char>) -> Seq<char> {
    if name.len() == 1 {
        seq!['1']
    } else if name.len() == 2 {
        seq!['2']
    } else if name.len() == 3 {
        seq!['3', '/'] + name.subrange(0, 1)
    } else {
        name.subrange(0, 2) + seq!['/'] + name.subrange(2, 4)
    }
}

/// Computes the shard directory for a package name.
pub fn shard_dir(name: &str) -> (r: String)
    requires
        name@.len() >= 1,
    ensures
        r@ == shard_spec(name@),
{
    let n = name.unicode_len();
    if n == 1 {
        let r = String::from_str("1");
        proof {
            reveal_strlit("1");
            assert(r@ =~= shard_spec(name@));
        }
        r
    } else if n == 2 {
        let r = String::from_str("2");
        proof {
            reveal_strlit("2");
            assert(r@ =~= shard_spec(name@));
        }
        r
    } else if n == 3 {
        let mut r = String::from_str("3/");
        r.append(name.substring_char(0, 1));
        proof {
            reveal_strlit("3/");
            assert(r@ =~= shard_spec(name@));
        }
        r
    } else {
        let mut r = String::new();
        r.append(name.substring_char(0, 2));
        r.append("/");
        r.append(name.substring_char(2, 4));
        proof {
            reveal_strlit("/");
            assert(r@ =~= shard_spec(name@));
        }
        r
    }
}

/// The file name under which a package's manifest is cached.
pub open spec fn manifest_file_name() -> Seq<char> {
    "Cargo.toml"@
}

/// The path, relative to the cache root, at which the manifest of the
/// given package version is cached: `<shard>/<name>-<vers>/Cargo.toml`.
pub open spec fn manifest_rel_path_spec(name: Seq<char>, vers: Seq<char>) -> Seq<char> {
    shard_spec(name) + seq!['/'] + name + seq!['-'] + vers + seq!['/'] + manifest_file_name()
}

/// Computes the cache-relative manifest path for a package version.
pub fn manifest_rel_path(name: &str, vers: &str) -> (r: String)
    requires
        name@.len() >= 1,
    ensures
        r@ == manifest_rel_path_spec(name@, vers@),
{
    let mut r = shard_dir(name);
    r.append("/");
    r.append(name);
    r.append("-");
    r.append(vers);
    r.append("/");
    r.append("Cargo.toml");
    proof {
        reveal_strlit("/");
        reveal_strlit("-");
        assert(r@ =~= manifest_rel_path_spec(name@, vers@));
    }
    r
}

/// The URL from which a package version's archive is fetched:
/// `https://static.crates.io/crates/<name>/<name>-<vers>.crate`.
pub open spec fn download_url_spec(name: Seq<char>, vers: Seq<char>) -> Seq<char> {
    "https://static.crates.io/crates/"@ + name + seq!['/'] + name + seq!['-'] + vers
        + ".crate"@
}

/// Computes the archive download URL for a package version.
pub fn download_url(name: &str, vers: &str) -> (r: String)
    ensures
        r@ == download_url_spec(name@, vers@),
{
    let mut r = String::from_str("https://static.crates.io/crates/");
    r.append(name);
    r.append("/");
    r.append(name);
    r.append("-");
    r.append(vers);
    r.append(".crate");
    proof {
        reveal_strlit("/");
        reveal_strlit("-");
        assert(r@ =~= download_url_spec(name@, vers@));
    }
    r
}

} // verus!
