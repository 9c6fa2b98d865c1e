//! Targeted-scan results: the wire shape the remote server answers with, its
//! classification into a closed set of outcomes, and the keying that matches
//! a batch answer back to the path it is about.

use vstd::prelude::*;

verus! {

broadcast use vstd::string::group_string_axioms;

/// One per-path result of a targeted scan, single or batch. Field values
/// arrive verbatim from the wire; absent fields arrive empty.
pub struct ScanPathResponse {
    pub item_id: String,
    pub item_name: String,
    pub status: String,
    pub path: String,
    pub message: String,
}

/// The server resolved the path: it now has an index entry for it.
#[derive(Clone, Copy, PartialEq, Eq, Structural, Debug)]
pub enum ResolvedKind {
    Created,
    Refreshed,
    Discovered,
}

/// The server reports the path gone: a terminal no-op, not a failure.
#[derive(Clone, Copy, PartialEq, Eq, Structural, Debug)]
pub enum NotFoundKind {
    PathNotFound,
    ParentNotFound,
}

/// A scan status parsed into a closed set at the boundary, so that no raw
/// status string reaches the decision logic.
#[derive(Debug)]
pub enum StatusClass {
    Resolved(ResolvedKind),
    NotFound(NotFoundKind),
    Unrecognized(String),
}

pub open spec fn is_resolved_status(s: Seq<char>) -> bool {
    s == "Created"@ || s == "Refreshed"@ || s == "Discovered"@
}

pub open spec fn is_not_found_status(s: Seq<char>) -> bool {
    s == "PathNotFound"@ || s == "ParentNotFound"@
}

/// A status that settles its path for good: resolved, or terminally gone.
pub open spec fn is_success_status(s: Seq<char>) -> bool {
    is_resolved_status(s) || is_not_found_status(s)
}

/// Decides `s@ == lit@`.
pub fn str_eq(s: &String, lit: &str) -> (r: bool)
    ensures
        r == (s@ == lit@),
{
    *s == lit.to_owned()
}

/// Parses a raw status string into the closed outcome set.
pub fn classify_status(status: &String) -> (r: StatusClass)
    ensures
        (r matches StatusClass::Resolved(k)) == is_resolved_status(status@),
        (r matches StatusClass::NotFound(k)) == is_not_found_status(status@),
        r matches StatusClass::Unrecognized(raw) ==> raw@ == status@,
        r == StatusClass::Resolved(ResolvedKind::Created) <==> status@ == "Created"@,
        r == StatusClass::Resolved(ResolvedKind::Refreshed) <==> status@ == "Refreshed"@,
        r == StatusClass::Resolved(ResolvedKind::Discovered) <==> status@ == "Discovered"@,
        r == StatusClass::NotFound(NotFoundKind::PathNotFound) <==> status@ == "PathNotFound"@,
        r == StatusClass::NotFound(NotFoundKind::ParentNotFound) <==> status@
            == "ParentNotFound"@,
{
    proof {
        reveal_strlit("Created");
        reveal_strlit("Refreshed");
        reveal_strlit("Discovered");
        reveal_strlit("PathNotFound");
        reveal_strlit("ParentNotFound");
        assert("Created"@.len() == 7);
        assert("Refreshed"@.len() == 9);
        assert("Discovered"@.len() == 10);
        assert("PathNotFound"@.len() == 12);
        assert("ParentNotFound"@.len() == 14);
    }
    if str_eq(status, "Created") {
        StatusClass::Resolved(ResolvedKind::Created)
    } else if str_eq(status, "Refreshed") {
        StatusClass::Resolved(ResolvedKind::Refreshed)
    } else if str_eq(status, "Discovered") {
        StatusClass::Resolved(ResolvedKind::Discovered)
    } else if str_eq(status, "PathNotFound") {
        StatusClass::NotFound(NotFoundKind::PathNotFound)
    } else if str_eq(status, "ParentNotFound") {
        StatusClass::NotFound(NotFoundKind::ParentNotFound)
    } else {
        StatusClass::Unrecognized(status.clone())
    }
}

/// Decides `is_success_status(status@)` through the closed classification.
pub fn status_settles(status: &String) -> (r: bool)
    ensures
        r == is_success_status(status@),
{
    match classify_status(status) {
        StatusClass::Resolved(_) => true,
        StatusClass::NotFound(_) => true,
        StatusClass::Unrecognized(_) => false,
    }
}

/// The key under which a batch answer is matched back to its input path:
/// the result's path field, or, where the server omitted it and left only
/// diagnostic text, the message field.
pub open spec fn result_key(r: ScanPathResponse) -> Seq<char> {
    if r.path@.len() == 0 {
        r.message@
    } else {
        r.path@
    }
}

/// The batch result that answers for `path`: the last one whose key equals
/// it, mirroring a map built front to back where later entries win.
pub open spec fn batch_lookup(results: Seq<ScanPathResponse>, path: Seq<char>) -> Option<
    ScanPathResponse,
>
    decreases results.len(),
{
    if results.len() == 0 {
        Option::None
    } else if result_key(results.last()) == path {
        Option::Some(results.last())
    } else {
        batch_lookup(results.drop_last(), path)
    }
}

/// The batch answer settles `path`: some result answers for it and carries a
/// resolved or terminal-not-found status.
pub open spec fn batch_marks_success(results: Seq<ScanPathResponse>, path: Seq<char>) -> bool {
    match batch_lookup(results, path) {
        Option::Some(r) => is_success_status(r.status@),
        Option::None => false,
    }
}

/// Decides `batch_marks_success(results@, path@)`.
pub fn batch_resolves(results: &Vec<ScanPathResponse>, path: &String) -> (r: bool)
    ensures
        r == batch_marks_success(results@, path@),
{
    proof {
        assert(results@.take(results@.len() as int) =~= results@);
    }
    let mut j: usize = results.len();
    while j > 0
        invariant
            j <= results@.len(),
            batch_lookup(results@, path@) == batch_lookup(results@.take(j as int), path@),
        decreases j,
    {
        j = j - 1;
        proof {
            assert(results@.take(j + 1).last() == results@[j as int]);
            assert(results@.take(j + 1).drop_last() =~= results@.take(j as int));
        }
        let rj = &results[j];
        let key_eq = if rj.path.as_str().is_empty() {
            rj.message == *path
        } else {
            rj.path == *path
        };
        if key_eq {
            return status_settles(&rj.status);
        }
    }
    proof {
        assert(results@.take(0).len() == 0);
    }
    false
}

/// A batch result that reports a terminal not-found for a path settles that
/// path successfully: the file is gone and nothing further is owed for it.
pub proof fn lemma_not_found_marks_success(results: Seq<ScanPathResponse>, path: Seq<char>)
    requires
        batch_lookup(results, path) matches Option::Some(r) && is_not_found_status(r.status@),
    ensures
        batch_marks_success(results, path),
{
}

} // verus!
