//! The Emby/Jellyfin target: its configuration, the wire names it sends, and
//! the library matching it performs on each event path.

use vstd::prelude::*;
use crate::model::{Library, LibraryV, library_views};
use crate::paths::{library_matches, library_claims};
use crate::scan::str_eq;

verus! {

/// How thoroughly the server re-reads metadata and images on an explicit
/// refresh.
#[derive(Clone, Copy, PartialEq, Eq, Structural, Debug)]
pub enum EmbyMetadataRefreshMode {
    /// Sent on the wire as `None`.
    NoRefresh,
    ValidationOnly,
    Default,
    FullRefresh,
}

impl EmbyMetadataRefreshMode {
    /// The name the server expects for this mode in a query string.
    pub open spec fn name_spec(self) -> Seq<char> {
        match self {
            EmbyMetadataRefreshMode::NoRefresh => "None"@,
            EmbyMetadataRefreshMode::ValidationOnly => "ValidationOnly"@,
            EmbyMetadataRefreshMode::Default => "Default"@,
            EmbyMetadataRefreshMode::FullRefresh => "FullRefresh"@,
        }
    }

    /// Writes the mode as the server expects it.
    pub fn mode_name(&self) -> (r: String)
        ensures
            r@ == self.name_spec(),
    {
        match self {
            EmbyMetadataRefreshMode::NoRefresh => "None".to_owned(),
            EmbyMetadataRefreshMode::ValidationOnly => "ValidationOnly".to_owned(),
            EmbyMetadataRefreshMode::Default => "Default".to_owned(),
            EmbyMetadataRefreshMode::FullRefresh => "FullRefresh".to_owned(),
        }
    }
}

impl Default for EmbyMetadataRefreshMode {
    fn default() -> (r: Self)
        ensures
            r == EmbyMetadataRefreshMode::FullRefresh,
    {
        EmbyMetadataRefreshMode::FullRefresh
    }
}

/// Connection settings for one Emby/Jellyfin server, as the caller
/// configured them.
pub struct Emby {
    /// URL of the server.
    pub url: String,
    /// API token for the server.
    pub token: String,
    /// Metadata refresh mode used by the enumeration fallback.
    pub metadata_refresh_mode: EmbyMetadataRefreshMode,
    /// Whether the enumeration fallback (refresh instead of scan) is wanted.
    pub refresh_metadata: bool,
}

/// The libraries of the catalog that claim `path`, in catalog order.
pub open spec fn matching_libraries(libs: Seq<LibraryV>, path: Seq<char>) -> Seq<LibraryV>
    decreases libs.len(),
{
    if libs.len() == 0 {
        Seq::empty()
    } else {
        let prefix = matching_libraries(libs.drop_last(), path);
        if library_matches(libs.last(), path) {
            prefix.push(libs.last())
        } else {
            prefix
        }
    }
}

/// The item-type filter the server expects for a collection type, or no
/// filter when the library carries no collection-type tag. Unknown tags map
/// to the empty filter.
pub open spec fn item_types_for(collection_type: Option<Seq<char>>) -> Option<Seq<char>> {
    match collection_type {
        Option::None => Option::None,
        Option::Some(t) => Option::Some(
            if t == "tvshows"@ {
                "Episode"@
            } else if t == "books"@ {
                "Book"@
            } else if t == "music"@ {
                "Audio"@
            } else if t == "movie"@ {
                "VideoFile,Movie"@
            } else {
                ""@
            },
        ),
    }
}

/// Writes the item-type filter for a library's collection type.
pub fn include_item_types(l: &Library) -> (r: Option<String>)
    ensures
        r is Some <==> item_types_for(l@.collection_type) is Some,
        r matches Some(s) ==> Option::Some(s@) == item_types_for(l@.collection_type),
{
    match &l.collection_type {
        Option::None => Option::None,
        Option::Some(t) => Option::Some(
            if str_eq(t, "tvshows") {
                "Episode".to_owned()
            } else if str_eq(t, "books") {
                "Book".to_owned()
            } else if str_eq(t, "music") {
                "Audio".to_owned()
            } else if str_eq(t, "movie") {
                "VideoFile,Movie".to_owned()
            } else {
                "".to_owned()
            },
        ),
    }
}

/// The fixed query parameters of one items-page request: a recursive listing
/// with path fields, no images, scoped to the library by its identifier, no
/// total record count, and the library's item-type filter where it carries a
/// collection type. The page's own offset and limit come from the pager.
pub fn items_query(library: &Library) -> (r: Vec<(String, String)>)
    ensures
        library@.collection_type is Some ==> r@.len() == 6,
        library@.collection_type is None ==> r@.len() == 5,
        r@[0].0@ == "Recursive"@ && r@[0].1@ == "true"@,
        r@[1].0@ == "Fields"@ && r@[1].1@ == "Path"@,
        r@[2].0@ == "EnableImages"@ && r@[2].1@ == "false"@,
        r@[3].0@ == "ParentId"@ && r@[3].1@ == library@.item_id,
        r@[4].0@ == "EnableTotalRecordCount"@ && r@[4].1@ == "false"@,
        library@.collection_type is Some ==> r@[5].0@ == "IncludeItemTypes"@ && Option::Some(
            r@[5].1@,
        ) == item_types_for(library@.collection_type),
{
    let mut r: Vec<(String, String)> = Vec::new();
    r.push(("Recursive".to_owned(), "true".to_owned()));
    r.push(("Fields".to_owned(), "Path".to_owned()));
    r.push(("EnableImages".to_owned(), "false".to_owned()));
    r.push(("ParentId".to_owned(), library.item_id.clone()));
    r.push(("EnableTotalRecordCount".to_owned(), "false".to_owned()));
    match include_item_types(library) {
        Option::Some(filter) => {
            r.push(("IncludeItemTypes".to_owned(), filter));
        },
        Option::None => {},
    }
    r
}

impl Emby {
    /// Every library whose any root location is a directory prefix of
    /// `path`, in catalog order.
    pub fn get_libraries(&self, libraries: &Vec<Library>, path: &String) -> (matched: Vec<
        Library,
    >)
        ensures
            library_views(matched@) == matching_libraries(library_views(libraries@), path@),
    {
        let mut matched: Vec<Library> = Vec::new();
        let mut i: usize = 0;
        proof {
            assert(library_views(matched@) =~= matching_libraries(
                library_views(libraries@.take(0)),
                path@,
            ));
        }
        while i < libraries.len()
            invariant
                i <= libraries@.len(),
                library_views(matched@) == matching_libraries(
                    library_views(libraries@.take(i as int)),
                    path@,
                ),
            decreases libraries@.len() - i,
        {
            proof {
                assert(library_views(libraries@.take(i + 1)).drop_last() =~= library_views(
                    libraries@.take(i as int),
                ));
                assert(library_views(libraries@.take(i + 1)).last() == libraries@[i as int]@);
            }
            if library_claims(&libraries[i], path) {
                let ghost before = library_views(matched@);
                matched.push(libraries[i].clone());
                proof {
                    assert(library_views(matched@) =~= before.push(libraries@[i as int]@));
                }
            }
            i = i + 1;
        }
        proof {
            assert(libraries@.take(libraries@.len() as int) =~= libraries@);
        }
        matched
    }

    /// The six query parameters of an explicit item refresh: both refresh
    /// modes set to the configured one, full metadata replacement and
    /// recursion on, image replacement and trickplay regeneration off.
    pub fn refresh_query(&self) -> (r: Vec<(String, String)>)
        ensures
            r@.len() == 6,
            r@[0].0@ == "MetadataRefreshMode"@ && r@[0].1@
                == self.metadata_refresh_mode.name_spec(),
            r@[1].0@ == "ImageRefreshMode"@ && r@[1].1@ == self.metadata_refresh_mode.name_spec(),
            r@[2].0@ == "ReplaceAllMetadata"@ && r@[2].1@ == "true"@,
            r@[3].0@ == "Recursive"@ && r@[3].1@ == "true"@,
            r@[4].0@ == "ReplaceAllImages"@ && r@[4].1@ == "false"@,
            r@[5].0@ == "RegenerateTrickplay"@ && r@[5].1@ == "false"@,
    {
        let mut r: Vec<(String, String)> = Vec::new();
        r.push(("MetadataRefreshMode".to_owned(), self.metadata_refresh_mode.mode_name()));
        r.push(("ImageRefreshMode".to_owned(), self.metadata_refresh_mode.mode_name()));
        r.push(("ReplaceAllMetadata".to_owned(), "true".to_owned()));
        r.push(("Recursive".to_owned(), "true".to_owned()));
        r.push(("ReplaceAllImages".to_owned(), "false".to_owned()));
        r.push(("RegenerateTrickplay".to_owned(), "false".to_owned()));
        r
    }
}

} // verus!
