//! Reducing a package's record history to the single most recent
//! non-yanked version: scan the file's lines from the newest backward
//! and stop at the first record with `yanked == false`.

use vstd::prelude::*;
use crate::records::{IndexRecord, index_record_of, parse_index_line};

verus! {

/// The one version a package's history resolves to.
#[derive(Debug, PartialEq, Eq)]
pub struct ResolvedPackage {
    pub name: String,
    pub vers: String,
}

/// A malformed line was met before a non-yanked record was found.
#[derive(Debug, Clone, Copy, PartialEq, Eq, Structural)]
pub struct ParseError;

/// The views of a file's lines.
pub open spec fn lines_views(lines: Seq<String>) -> Seq<Seq<char>> {
    lines.map_values(|s: String| s@)
}

/// What a file's lines resolve to: scanning from the last line
/// backward, the `(name, vers)` of the first record with
/// `yanked == false`; `Ok(None)` when every line holds a yanked record
/// or there are no lines; `Err` when a malformed line is met first.
pub open spec fn resolve_spec(lines: Seq<Seq<char>>) -> Result<Option<(Seq<char>, Seq<char>)>, ()>
    decreases lines.len(),
{
    if lines.len() == 0 {
        Ok(None)
    } else {
        match index_record_of(lines.last()) {
            None => Err(()),
            Some(rec) => if !rec.2 {
                Ok(Some((rec.0, rec.1)))
            } else {
                resolve_spec(lines.drop_last())
            },
        }
    }
}

/// Resolves one index file, given as its lines, oldest first.
pub fn resolve_file(lines: &Vec<String>) -> (r: Result<Option<ResolvedPackage>, ParseError>)
    ensures
        (r matches Ok(Some(p)) ==> resolve_spec(lines_views(lines@)) == Ok::<_, ()>(
            Some((p.name@, p.vers@)),
        )),
        (r matches Ok(None::<ResolvedPackage>) <==> resolve_spec(lines_views(lines@)) matches Ok(
            None::<(Seq<char>, Seq<char>)>,
        )),
        (r is Err <==> resolve_spec(lines_views(lines@)) is Err),
{
    let ghost lv = lines_views(lines@);
    let mut i: usize = lines.len();
    proof {
        assert(lv.take(i as int) =~= lv);
    }
    while i > 0
        invariant
            i <= lines.len(),
            lv == lines_views(lines@),
            lv.len() == lines@.len(),
            resolve_spec(lv) == resolve_spec(lv.take(i as int)),
        decreases i,
    {
        let line: &String = &lines[i - 1];
        proof {
            assert(lv[i - 1] == lines@[i - 1]@);
            assert(lv.take(i as int).last() == lv[i - 1]);
        }
        match parse_index_line(line.as_str()) {
            None => {
                return Err(ParseError);
            },
            Some(rec) => {
                if !rec.yanked {
                    proof {
                        assert(resolve_spec(lv.take(i as int)) == Ok::<_, ()>(
                            Some((rec.name@, rec.vers@)),
                        ));
                    }
                    return Ok(Some(ResolvedPackage { name: rec.name, vers: rec.vers }));
                }
                proof {
                    assert(lv.take(i as int).drop_last() =~= lv.take(i - 1));
                }
                i = i - 1;
            },
        }
    }
    proof {
        assert(lv.take(0) =~= Seq::<Seq<char>>::empty());
    }
    Ok(None)
}

/// Resolution is deterministic: any two results of resolving the same
/// lines are the same.
pub proof fn lemma_resolve_deterministic(
    lines: Seq<Seq<char>>,
    r1: Result<Option<(Seq<char>, Seq<char>)>, ()>,
    r2: Result<Option<(Seq<char>, Seq<char>)>, ()>,
)
    requires
        r1 == resolve_spec(lines),
        r2 == resolve_spec(lines),
    ensures
        r1 == r2,
{
}

/// A file whose last record is yanked resolves exactly as the file
/// without that record does: a trailing yank never hides an earlier
/// non-yanked record.
pub proof fn lemma_resolve_skips_yanked(lines: Seq<Seq<char>>)
    requires
        lines.len() > 0,
        (index_record_of(lines.last()) matches Some(rec) && rec.2),
    ensures
        resolve_spec(lines) == resolve_spec(lines.drop_last()),
{
}

/// A file whose newest non-yanked record stands at position `i`, with
/// every later line holding a (well-formed) yanked record, resolves to
/// that record's `(name, vers)` — not to "no result".
pub proof fn lemma_resolve_finds_latest(lines: Seq<Seq<char>>, i: int, name: Seq<char>, vers: Seq<char>)
    requires
        0 <= i < lines.len(),
        index_record_of(lines[i]) == Some((name, vers, false)),
        forall|j: int|
            i < j < lines.len() ==> ((#[trigger] index_record_of(lines[j])) matches Some(rec)
                && rec.2),
    ensures
        resolve_spec(lines) == Ok::<_, ()>(Some((name, vers))),
    decreases lines.len(),
{
    if i == lines.len() - 1 {
        assert(lines.last() == lines[i]);
    } else {
        assert(index_record_of(lines.last()) matches Some(rec) && rec.2);
        assert(lines.drop_last()[i] == lines[i]);
        assert(forall|j: int|
            i < j < lines.drop_last().len() ==> lines.drop_last()[j] == lines[j]);
        lemma_resolve_finds_latest(lines.drop_last(), i, name, vers);
    }
}

/// A file that is empty or holds only (well-formed) yanked records
/// yields no resolved package.
pub proof fn lemma_resolve_all_yanked(lines: Seq<Seq<char>>)
    requires
        forall|j: int|
            0 <= j < lines.len() ==> ((#[trigger] index_record_of(lines[j])) matches Some(rec)
                && rec.2),
    ensures
        resolve_spec(lines) == Ok::<_, ()>(None::<(Seq<char>, Seq<char>)>),
    decreases lines.len(),
{
    if lines.len() > 0 {
        assert(index_record_of(lines.last()) matches Some(rec) && rec.2);
        assert(forall|j: int|
            0 <= j < lines.drop_last().len() ==> lines.drop_last()[j] == lines[j]);
        lemma_resolve_all_yanked(lines.drop_last());
    }
}

} // verus!
