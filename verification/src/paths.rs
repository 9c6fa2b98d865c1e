//! Path matching with filesystem component semantics: a library location
//! claims a path when the location's components come first among the path's
//! components. A match never ends inside a name, and repeated or trailing
//! separators are insignificant, as they are to the filesystem.

use vstd::prelude::*;
use crate::model::{Library, LibraryV, library_views};

verus! {

/// A piece between separators that names a real step into a directory: not
/// empty (as between repeated separators or before a trailing one) and not
/// the here-marker `.`.
pub open spec fn is_real_segment(seg: Seq<char>) -> bool {
    seg.len() > 0 && seg != seq!['.']
}

/// Walks a path's characters: the real segments already closed by a
/// separator, and the piece still being read.
pub open spec fn seg_split(s: Seq<char>) -> (Seq<Seq<char>>, Seq<char>)
    decreases s.len(),
{
    if s.len() == 0 {
        (Seq::empty(), Seq::empty())
    } else {
        let (done, cur) = seg_split(s.drop_last());
        if s.last() == '/' {
            ((
                if is_real_segment(cur) {
                    done.push(cur)
                } else {
                    done
                }
            ), Seq::empty())
        } else {
            (done, cur.push(s.last()))
        }
    }
}

/// The real segments of a path, in order.
pub open spec fn path_segments(s: Seq<char>) -> Seq<Seq<char>> {
    let (done, cur) = seg_split(s);
    if is_real_segment(cur) {
        done.push(cur)
    } else {
        done
    }
}

/// The leading marker, as its own component: `/` where the path is absolute,
/// `.` where a relative path names the current directory first, nothing
/// otherwise. An absolute path is never claimed by a relative location, nor
/// the other way round.
pub open spec fn path_lead(s: Seq<char>) -> Seq<Seq<char>> {
    if s.len() > 0 && s[0] == '/' {
        seq![seq!['/']]
    } else if s.len() > 0 && s[0] == '.' && (s.len() == 1 || s[1] == '/') {
        seq![seq!['.']]
    } else {
        Seq::empty()
    }
}

/// The components of a path: its leading marker, then its real segments.
pub open spec fn path_components(s: Seq<char>) -> Seq<Seq<char>> {
    path_lead(s) + path_segments(s)
}

/// `prefix` claims `path` when the components of `prefix` come first among
/// the components of `path`: prefix matching at directory boundaries, never
/// a raw character prefix.
pub open spec fn is_dir_prefix(prefix: Seq<char>, path: Seq<char>) -> bool {
    path_components(prefix).is_prefix_of(path_components(path))
}

/// A library claims a path when any of its root locations is a directory
/// prefix of it.
pub open spec fn library_matches(l: LibraryV, path: Seq<char>) -> bool {
    exists|k: int| 0 <= k < l.locations.len() && is_dir_prefix(l.locations[k], path)
}

/// Some library of the run's catalog claims the path.
pub open spec fn any_library_matches(libs: Seq<LibraryV>, path: Seq<char>) -> bool {
    exists|j: int| 0 <= j < libs.len() && library_matches(libs[j], path)
}

/// The views of a sequence of segment vectors.
pub open spec fn segment_views(segs: Seq<Vec<char>>) -> Seq<Seq<char>> {
    segs.map_values(|v: Vec<char>| v@)
}

/// Decides whether two segments hold the same characters.
fn chars_eq(a: &Vec<char>, b: &Vec<char>) -> (r: bool)
    ensures
        r == (a@ == b@),
{
    if a.len() != b.len() {
        return false;
    }
    let mut i: usize = 0;
    while i < a.len()
        invariant
            i <= a@.len(),
            a@.len() == b@.len(),
            forall|k: int| 0 <= k < i ==> a@[k] == b@[k],
        decreases a@.len() - i,
    {
        if a[i] != b[i] {
            return false;
        }
        i = i + 1;
    }
    proof {
        assert(a@ =~= b@);
    }
    true
}

/// Decides `is_real_segment(seg@)`.
fn is_real_segment_exec(seg: &Vec<char>) -> (r: bool)
    ensures
        r == is_real_segment(seg@),
{
    proof {
        assert(seq!['.'].len() == 1 && seq!['.'][0] == '.');
    }
    if seg.len() == 0 {
        false
    } else if seg.len() == 1 && seg[0] == '.' {
        proof {
            assert(seg@ =~= seq!['.']);
        }
        false
    } else {
        true
    }
}

/// Computes the components of a path.
fn path_components_exec(s: &String) -> (r: Vec<Vec<char>>)
    ensures
        segment_views(r@) == path_components(s@),
{
    let n = s.as_str().unicode_len();
    let mut r: Vec<Vec<char>> = Vec::new();
    if n > 0 {
        let c0 = s.as_str().get_char(0);
        if c0 == '/' {
            let mut m: Vec<char> = Vec::new();
            m.push('/');
            proof {
                assert(m@ =~= seq!['/']);
            }
            r.push(m);
        } else if c0 == '.' && (n == 1 || s.as_str().get_char(1) == '/') {
            let mut m: Vec<char> = Vec::new();
            m.push('.');
            proof {
                assert(m@ =~= seq!['.']);
            }
            r.push(m);
        }
    }
    proof {
        assert(segment_views(r@) =~= path_lead(s@));
    }
    let ghost lead = segment_views(r@);
    let mut cur: Vec<char> = Vec::new();
    let mut i: usize = 0;
    proof {
        assert(s@.take(0).len() == 0);
    }
    while i < n
        invariant
            i <= n,
            n == s@.len(),
            lead == path_lead(s@),
            segment_views(r@) == lead + seg_split(s@.take(i as int)).0,
            cur@ == seg_split(s@.take(i as int)).1,
        decreases n - i,
    {
        proof {
            assert(s@.take(i + 1).drop_last() =~= s@.take(i as int));
            assert(s@.take(i + 1).last() == s@[i as int]);
        }
        let ghost done0 = seg_split(s@.take(i as int)).0;
        let ghost curv = seg_split(s@.take(i as int)).1;
        let ghost r0 = r@;
        let c = s.as_str().get_char(i);
        if c == '/' {
            if is_real_segment_exec(&cur) {
                r.push(cur);
                proof {
                    assert(seg_split(s@.take(i + 1)).0 == done0.push(curv));
                    assert(segment_views(r@) =~= segment_views(r0).push(curv));
                    assert(segment_views(r@) =~= lead + seg_split(s@.take(i + 1)).0);
                }
            } else {
                proof {
                    assert(seg_split(s@.take(i + 1)).0 == done0);
                    assert(segment_views(r@) =~= lead + seg_split(s@.take(i + 1)).0);
                }
            }
            cur = Vec::new();
        } else {
            cur.push(c);
        }
        i = i + 1;
    }
    proof {
        assert(s@.take(n as int) =~= s@);
    }
    let ghost done_end = seg_split(s@).0;
    let ghost cur_end = seg_split(s@).1;
    let ghost r_end = r@;
    if is_real_segment_exec(&cur) {
        r.push(cur);
        proof {
            assert(path_segments(s@) == done_end.push(cur_end));
            assert(segment_views(r@) =~= segment_views(r_end).push(cur_end));
            assert(segment_views(r@) =~= path_lead(s@) + path_segments(s@));
        }
    } else {
        proof {
            assert(path_segments(s@) == done_end);
            assert(segment_views(r@) =~= path_lead(s@) + path_segments(s@));
        }
    }
    r
}

/// Decides `is_dir_prefix(prefix@, path@)`.
pub fn starts_at_boundary(path: &String, prefix: &String) -> (r: bool)
    ensures
        r == is_dir_prefix(prefix@, path@),
{
    let pc = path_components_exec(prefix);
    let tc = path_components_exec(path);
    let ghost pcs = path_components(prefix@);
    let ghost tcs = path_components(path@);
    if pc.len() > tc.len() {
        proof {
            assert(pcs.len() == pc@.len());
            assert(tcs.len() == tc@.len());
        }
        return false;
    }
    let mut i: usize = 0;
    while i < pc.len()
        invariant
            i <= pc@.len(),
            pc@.len() <= tc@.len(),
            pcs == path_components(prefix@),
            tcs == path_components(path@),
            segment_views(pc@) == pcs,
            segment_views(tc@) == tcs,
            forall|k: int| 0 <= k < i ==> pcs[k] == tcs[k],
        decreases pc@.len() - i,
    {
        if !chars_eq(&pc[i], &tc[i]) {
            proof {
                assert(pcs[i as int] == pc@[i as int]@);
                assert(tcs[i as int] == tc@[i as int]@);
                assert(!pcs.is_prefix_of(tcs)) by {
                    if pcs.is_prefix_of(tcs) {
                        assert(pcs[i as int] == tcs.subrange(0, pcs.len() as int)[i as int]);
                    }
                }
            }
            return false;
        }
        i = i + 1;
    }
    proof {
        assert(pcs =~= tcs.subrange(0, pcs.len() as int));
    }
    true
}

/// Decides whether the library claims the path.
pub fn library_claims(l: &Library, path: &String) -> (r: bool)
    ensures
        r == library_matches(l@, path@),
{
    let mut k: usize = 0;
    while k < l.locations.len()
        invariant
            k <= l.locations@.len(),
            l@.locations.len() == l.locations@.len(),
            forall|j: int| 0 <= j < k ==> !is_dir_prefix(l@.locations[j], path@),
        decreases l.locations@.len() - k,
    {
        proof {
            assert(l@.locations[k as int] == l.locations@[k as int]@);
        }
        if starts_at_boundary(path, &l.locations[k]) {
            return true;
        }
        k = k + 1;
    }
    false
}

/// Decides whether any library of the catalog claims the path.
pub fn any_library_claims(libs: &Vec<Library>, path: &String) -> (r: bool)
    ensures
        r == any_library_matches(library_views(libs@), path@),
{
    let mut j: usize = 0;
    while j < libs.len()
        invariant
            j <= libs@.len(),
            forall|i: int| 0 <= i < j ==> !library_matches(library_views(libs@)[i], path@),
        decreases libs@.len() - j,
    {
        proof {
            assert(library_views(libs@)[j as int] == libs@[j as int]@);
        }
        if library_claims(&libs[j], path) {
            return true;
        }
        j = j + 1;
    }
    false
}

} // verus!
