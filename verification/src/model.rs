//! The data the reconciliation run works on: change events, libraries,
//! indexed items, and the per-event disposition.

use vstd::prelude::*;

verus! {

/// A notification that one file path changed and awaits remote
/// acknowledgment. `path` is the canonical remote path: any caller-side
/// rewrite rule has already been applied.
pub struct ChangeEvent {
    /// Unique within one reconciliation run.
    pub id: String,
    pub path: String,
}

/// The final state assigned to one event. `Pending` occurs only while a run
/// is in progress: a finished run leaves every record `Succeeded` or
/// `Failed`.
#[derive(Clone, Copy, PartialEq, Eq, Structural, Debug)]
pub enum Disposition {
    Pending,
    Succeeded,
    Failed,
}

/// Per-event bookkeeping owned by the reconciliation engine.
pub struct EventRecord {
    pub id: String,
    pub path: String,
    pub disposition: Disposition,
}

/// A remote content root: a name, one or more filesystem path prefixes, the
/// server's own identifier, and an optional collection-type tag that drives
/// item-type filtering during enumeration.
pub struct Library {
    pub name: String,
    pub locations: Vec<String>,
    pub item_id: String,
    pub collection_type: Option<String>,
}

/// The mathematical value of a `Library`: every field as a sequence value.
pub ghost struct LibraryV {
    pub name: Seq<char>,
    pub locations: Seq<Seq<char>>,
    pub item_id: Seq<char>,
    pub collection_type: Option<Seq<char>>,
}

impl View for Library {
    type V = LibraryV;

    open spec fn view(&self) -> LibraryV {
        LibraryV {
            name: self.name@,
            locations: self.locations.deep_view(),
            item_id: self.item_id@,
            collection_type: match self.collection_type {
                Option::Some(s) => Option::Some(s@),
                Option::None => Option::None,
            },
        }
    }
}

/// The views of a run's libraries, in catalog order.
pub open spec fn library_views(libs: Seq<Library>) -> Seq<LibraryV> {
    libs.map_values(|l: Library| l@)
}

/// The remote server's indexed record for a file.
pub struct Item {
    pub id: String,
    pub path: Option<String>,
}

/// Copies a vector of strings, element for element.
pub fn clone_strings(v: &Vec<String>) -> (r: Vec<String>)
    ensures
        r@ == v@,
{
    let mut r: Vec<String> = Vec::new();
    let mut i: usize = 0;
    while i < v.len()
        invariant
            i <= v@.len(),
            r@ == v@.take(i as int),
        decreases v@.len() - i,
    {
        r.push(v[i].clone());
        i = i + 1;
        proof {
            assert(r@ =~= v@.take(i as int));
        }
    }
    proof {
        assert(v@.take(v@.len() as int) =~= v@);
    }
    r
}

/// Copies an optional string.
pub fn clone_opt_string(v: &Option<String>) -> (r: Option<String>)
    ensures
        r == v,
{
    match v {
        Option::Some(s) => Option::Some(s.clone()),
        Option::None => Option::None,
    }
}

impl Clone for Library {
    fn clone(&self) -> (r: Self)
        ensures
            r@ == self@,
    {
        let r = Library {
            name: self.name.clone(),
            locations: clone_strings(&self.locations),
            item_id: self.item_id.clone(),
            collection_type: clone_opt_string(&self.collection_type),
        };
        proof {
            assert(r.locations.deep_view() =~= self.locations.deep_view());
        }
        r
    }
}

impl Clone for Item {
    fn clone(&self) -> (r: Self)
        ensures
            r == *self,
    {
        Item { id: self.id.clone(), path: clone_opt_string(&self.path) }
    }
}

} // verus!
