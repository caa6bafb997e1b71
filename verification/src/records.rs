//! Raw index records: one line-delimited JSON record per publication
//! event of a package version.

use vstd::prelude::*;
use vstd::string::StrSliceExecFns;
use vstd::string::StringExecFns;

verus! {

/// Whether a directory entry of the mirrored index tree is a package
/// file: hidden entries (a leading reserved marker) and the registry's
/// control file are not.
pub open spec fn index_file_name_ok(name: Seq<char>) -> bool {
    (name.len() == 0 || name[0] != '.') && name != "config.json"@
}

/// Decides whether a directory entry name belongs to a package file.
pub fn is_index_file_name(name: &str) -> (r: bool)
    ensures
        r == index_file_name_ok(name@),
{
    if name.unicode_len() > 0 && name.get_char(0) == '.' {
        return false;
    }
    let s = String::from_str(name);
    let control = String::from_str("config.json");
    !s.eq(&control)
}

/// One historical record of a package version, as it appears on a line
/// of a package's index file. Fields other than these three are ignored.
#[derive(Debug, PartialEq, Eq)]
pub struct IndexRecord {
    pub name: String,
    pub vers: String,
    pub yanked: bool,
}

/// The record held by one line of an index file: its `name`, `vers` and
/// `yanked` fields, or `None` when the line is not a JSON object with
/// those fields (of those types). The result depends on the line alone.
pub uninterp spec fn index_record_of(line: Seq<char>) -> Option<(Seq<char>, Seq<char>, bool)>;

/// Relies on `serde_json::from_str` to parse one line as JSON, and on
/// `serde_json::Value::{get, as_str, as_bool}` to read its `name`,
/// `vers` and `yanked` fields; any missing or ill-typed piece yields
/// `None`.
#[verifier::external_body]
pub(crate) fn parse_index_line(line: &str) -> (r: Option<IndexRecord>)
    ensures
        r is Some <==> index_record_of(line@) is Some,
        (r matches Some(rec) ==> index_record_of(line@) == Some((rec.name@, rec.vers@, rec.yanked))),
{
    let v: serde_json::Value = serde_json::from_str(line).ok()?;
    let name = v.get("name")?.as_str()?.to_string();
    let vers = v.get("vers")?.as_str()?.to_string();
    let yanked = v.get("yanked")?.as_bool()?;
    Some(IndexRecord { name, vers, yanked })
}

} // verus!
