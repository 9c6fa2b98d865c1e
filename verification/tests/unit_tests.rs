use emby_reconcile::default_true;
use emby_reconcile::emby::{Emby, EmbyMetadataRefreshMode, include_item_types};
use emby_reconcile::model::{Item, Library};
use emby_reconcile::pager::{CatalogScan, Pager, find_item_by_path, PAGE_SIZE};
use emby_reconcile::paths::starts_at_boundary;
use emby_reconcile::scan::{
    batch_resolves, classify_status, status_settles, NotFoundKind, ResolvedKind, ScanPathResponse,
    StatusClass,
};

fn lib(name: &str, locations: &[&str], item_id: &str, collection_type: Option<&str>) -> Library {
    Library {
        name: name.to_owned(),
        locations: locations.iter().map(|l| (*l).to_owned()).collect(),
        item_id: item_id.to_owned(),
        collection_type: collection_type.map(|c| c.to_owned()),
    }
}

fn emby(mode: EmbyMetadataRefreshMode, refresh_metadata: bool) -> Emby {
    Emby {
        url: "http://localhost:8096".to_owned(),
        token: "api-token".to_owned(),
        metadata_refresh_mode: mode,
        refresh_metadata,
    }
}

fn item(id: &str, path: Option<&str>) -> Item {
    Item { id: id.to_owned(), path: path.map(|p| p.to_owned()) }
}

#[test]
fn default_true_is_true() {
    assert!(default_true());
}

#[test]
fn path_prefix_matches_at_directory_boundary() {
    let path = "/media/movies/x.mkv".to_owned();
    assert!(starts_at_boundary(&path, &"/media/movies".to_owned()));
    assert!(starts_at_boundary(&path, &"/media/movies/".to_owned()));
    assert!(starts_at_boundary(&path, &"/media".to_owned()));
    assert!(starts_at_boundary(&path, &"/media/movies/x.mkv".to_owned()));
    assert!(!starts_at_boundary(&path, &"/media/movie".to_owned()));
    assert!(!starts_at_boundary(&path, &"/media/movies/x".to_owned()));
    assert!(!starts_at_boundary(&path, &"/media/shows".to_owned()));
}

/// Separators are insignificant where the filesystem makes them so: a
/// trailing one on the location, repeated ones in either name, and the
/// here-marker all denote the same directory.
#[test]
fn path_prefix_ignores_redundant_separators() {
    // a location with a trailing separator claims the path equal to it
    assert!(starts_at_boundary(&"/media/movies".to_owned(), &"/media/movies/".to_owned()));
    assert!(starts_at_boundary(&"/media/movies/".to_owned(), &"/media/movies".to_owned()));
    // repeated separators collapse on either side
    assert!(starts_at_boundary(&"/media/movies/x.mkv".to_owned(), &"/media//movies".to_owned()));
    assert!(starts_at_boundary(&"/media//movies/x.mkv".to_owned(), &"/media/movies".to_owned()));
    // the root claims every absolute path, and an empty location every path
    assert!(starts_at_boundary(&"/media".to_owned(), &"/".to_owned()));
    assert!(starts_at_boundary(&"/media".to_owned(), &"".to_owned()));
    assert!(starts_at_boundary(&"media".to_owned(), &"".to_owned()));
    // an absolute path is never claimed by a relative location, nor reversed
    assert!(!starts_at_boundary(&"/media/x".to_owned(), &"media".to_owned()));
    assert!(!starts_at_boundary(&"media/x".to_owned(), &"/media".to_owned()));
    // a leading here-marker stays significant, an interior one does not
    assert!(!starts_at_boundary(&"./a/b".to_owned(), &"a".to_owned()));
    assert!(starts_at_boundary(&"./a/b".to_owned(), &"./a".to_owned()));
    assert!(starts_at_boundary(&"a/./b".to_owned(), &"a/b".to_owned()));
}

#[test]
fn get_libraries_returns_matching_in_order() {
    let e = emby(EmbyMetadataRefreshMode::FullRefresh, true);
    let libraries = vec![
        lib("Movies", &["/media/movies"], "1", None),
        lib("Shows", &["/media/shows"], "2", None),
        lib("Mixed", &["/data", "/media/movies/"], "3", None),
    ];
    let matched = e.get_libraries(&libraries, &"/media/movies/x.mkv".to_owned());
    assert_eq!(matched.len(), 2);
    assert_eq!(matched[0].name, "Movies");
    assert_eq!(matched[1].name, "Mixed");
    let none = e.get_libraries(&libraries, &"/other/x.mkv".to_owned());
    assert!(none.is_empty());
}

#[test]
fn classify_status_covers_all_variants() {
    assert!(matches!(
        classify_status(&"Created".to_owned()),
        StatusClass::Resolved(ResolvedKind::Created)
    ));
    assert!(matches!(
        classify_status(&"Refreshed".to_owned()),
        StatusClass::Resolved(ResolvedKind::Refreshed)
    ));
    assert!(matches!(
        classify_status(&"Discovered".to_owned()),
        StatusClass::Resolved(ResolvedKind::Discovered)
    ));
    assert!(matches!(
        classify_status(&"PathNotFound".to_owned()),
        StatusClass::NotFound(NotFoundKind::PathNotFound)
    ));
    assert!(matches!(
        classify_status(&"ParentNotFound".to_owned()),
        StatusClass::NotFound(NotFoundKind::ParentNotFound)
    ));
    match classify_status(&"SomethingElse".to_owned()) {
        StatusClass::Unrecognized(raw) => assert_eq!(raw, "SomethingElse"),
        _ => panic!("expected an unrecognized status"),
    }
    assert!(status_settles(&"Created".to_owned()));
    assert!(status_settles(&"PathNotFound".to_owned()));
    assert!(!status_settles(&"SomethingElse".to_owned()));
}

fn resp(status: &str, path: &str, message: &str) -> ScanPathResponse {
    ScanPathResponse {
        item_id: String::new(),
        item_name: String::new(),
        status: status.to_owned(),
        path: path.to_owned(),
        message: message.to_owned(),
    }
}

#[test]
fn batch_resolves_keys_and_statuses() {
    let results = vec![
        resp("Created", "/a", ""),
        resp("ParentNotFound", "", "/b"),
        resp("Busy", "/c", ""),
    ];
    assert!(batch_resolves(&results, &"/a".to_owned()));
    assert!(batch_resolves(&results, &"/b".to_owned()));
    assert!(!batch_resolves(&results, &"/c".to_owned()));
    assert!(!batch_resolves(&results, &"/d".to_owned()));
}

#[test]
fn mode_names_match_the_wire() {
    assert_eq!(EmbyMetadataRefreshMode::NoRefresh.mode_name(), "None");
    assert_eq!(EmbyMetadataRefreshMode::ValidationOnly.mode_name(), "ValidationOnly");
    assert_eq!(EmbyMetadataRefreshMode::Default.mode_name(), "Default");
    assert_eq!(EmbyMetadataRefreshMode::FullRefresh.mode_name(), "FullRefresh");
    assert_eq!(EmbyMetadataRefreshMode::default(), EmbyMetadataRefreshMode::FullRefresh);
}

#[test]
fn refresh_query_has_the_six_fixed_parameters() {
    let e = emby(EmbyMetadataRefreshMode::ValidationOnly, true);
    let q = e.refresh_query();
    assert_eq!(
        q,
        vec![
            ("MetadataRefreshMode".to_owned(), "ValidationOnly".to_owned()),
            ("ImageRefreshMode".to_owned(), "ValidationOnly".to_owned()),
            ("ReplaceAllMetadata".to_owned(), "true".to_owned()),
            ("Recursive".to_owned(), "true".to_owned()),
            ("ReplaceAllImages".to_owned(), "false".to_owned()),
            ("RegenerateTrickplay".to_owned(), "false".to_owned()),
        ]
    );
}

#[test]
fn item_type_filter_maps_collection_types() {
    let as_filter = |c: Option<&str>| include_item_types(&lib("L", &["/x"], "1", c));
    assert_eq!(as_filter(None), None);
    assert_eq!(as_filter(Some("tvshows")), Some("Episode".to_owned()));
    assert_eq!(as_filter(Some("books")), Some("Book".to_owned()));
    assert_eq!(as_filter(Some("music")), Some("Audio".to_owned()));
    assert_eq!(as_filter(Some("movie")), Some("VideoFile,Movie".to_owned()));
    assert_eq!(as_filter(Some("homevideos")), Some(String::new()));
}

#[test]
fn items_query_has_the_fixed_parameters() {
    let q = emby_reconcile::emby::items_query(&lib("Movies", &["/m"], "77", Some("tvshows")));
    assert_eq!(
        q,
        vec![
            ("Recursive".to_owned(), "true".to_owned()),
            ("Fields".to_owned(), "Path".to_owned()),
            ("EnableImages".to_owned(), "false".to_owned()),
            ("ParentId".to_owned(), "77".to_owned()),
            ("EnableTotalRecordCount".to_owned(), "false".to_owned()),
            ("IncludeItemTypes".to_owned(), "Episode".to_owned()),
        ]
    );
    let bare = emby_reconcile::emby::items_query(&lib("Movies", &["/m"], "78", None));
    assert_eq!(bare.len(), 5);
    assert_eq!(bare[3], ("ParentId".to_owned(), "78".to_owned()));
}

/// A final page of exactly the page size demands one further (empty) page
/// request before the stream terminates.
#[test]
fn pagination_full_final_page_needs_one_more_request() {
    let mut p = Pager::new();
    assert_eq!(p.offset(), 0);
    p.on_page(PAGE_SIZE);
    assert!(!p.finished);
    assert_eq!(p.offset(), PAGE_SIZE);
    p.on_page(0);
    assert!(p.finished);
}

#[test]
fn pagination_short_page_terminates() {
    let mut p = Pager::new();
    p.on_page(PAGE_SIZE);
    p.on_page(999);
    assert!(p.finished);
    assert_eq!(p.offset(), PAGE_SIZE);
}

/// An item whose path equals a wanted path claims that event exactly once,
/// and the scan stops wanting more as soon as the wanted set empties.
#[test]
fn catalog_scan_claims_once_and_stops() {
    let mut scan = CatalogScan::new(vec![(0, "/media/movies/x.mkv".to_owned())]);
    assert!(scan.wants_more());
    scan.on_item(&item("10", Some("/media/movies/other.mkv")));
    assert!(scan.wants_more());
    scan.on_item(&item("42", Some("/media/movies/x.mkv")));
    assert!(!scan.wants_more());
    assert_eq!(scan.found, vec![(0, "42".to_owned())]);
    // an identical later item claims nothing further
    scan.on_item(&item("43", Some("/media/movies/x.mkv")));
    assert_eq!(scan.found, vec![(0, "42".to_owned())]);
}

/// A catalog exhausted without a match leaves the event wanted and pairs it
/// with no item: no refresh will be issued for it.
#[test]
fn catalog_scan_exhausted_without_match() {
    let mut scan = CatalogScan::new(vec![(0, "/media/movies/x.mkv".to_owned())]);
    scan.on_item(&item("10", Some("/media/movies/a.mkv")));
    scan.on_item(&item("11", None));
    assert!(scan.wants_more());
    assert!(scan.found.is_empty());
    assert_eq!(scan.wanted, vec![(0, "/media/movies/x.mkv".to_owned())]);
}

/// The first wanted entry with the path wins when two events share it.
#[test]
fn catalog_scan_claims_first_of_equal_paths() {
    let mut scan = CatalogScan::new(vec![
        (3, "/media/movies/x.mkv".to_owned()),
        (5, "/media/movies/x.mkv".to_owned()),
    ]);
    scan.on_item(&item("42", Some("/media/movies/x.mkv")));
    assert_eq!(scan.found, vec![(3, "42".to_owned())]);
    assert_eq!(scan.wanted, vec![(5, "/media/movies/x.mkv".to_owned())]);
    scan.on_item(&item("43", Some("/media/movies/x.mkv")));
    assert_eq!(scan.found, vec![(3, "42".to_owned()), (5, "43".to_owned())]);
    assert!(!scan.wants_more());
}

#[test]
fn find_item_by_path_takes_the_first_match() {
    let items = vec![
        item("1", None),
        item("2", Some("/a")),
        item("3", Some("/b")),
        item("4", Some("/b")),
    ];
    assert_eq!(find_item_by_path(&items, &"/b".to_owned()), Some(2));
    assert_eq!(find_item_by_path(&items, &"/a".to_owned()), Some(1));
    assert_eq!(find_item_by_path(&items, &"/c".to_owned()), None);
}
