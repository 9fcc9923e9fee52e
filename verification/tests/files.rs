use ambient_runtime::files::{choose_location, locate, Location};
use std::path::{Path, PathBuf};
use url::Url;

fn located(url: &str) -> Option<PathBuf> {
    match locate(&Url::parse(url).unwrap()) {
        Location::Path(path) => Some(path),
        Location::Network => None,
    }
}

#[test]
fn file_urls_are_read_from_the_file_system() {
    assert_eq!(located("file:///tmp/a%20b.toml").as_deref(), Some(Path::new("/tmp/a b.toml")));
    assert_eq!(located("FILE:///tmp/a").as_deref(), Some(Path::new("/tmp/a")));
}

#[test]
fn other_urls_are_read_from_the_network() {
    assert_eq!(located("https://example.com/tmp/a"), None);
    assert_eq!(located("filed:///tmp/a"), None);
    // A file of another host has no path here.
    assert_eq!(located("file://example.com/tmp/a"), None);
}

#[test]
fn locations_follow_from_scheme_and_path() {
    let path = || Some(PathBuf::from("/tmp/a"));
    let is_path = |location: Location| matches!(location, Location::Path(_));
    assert!(is_path(choose_location("file", path())));
    assert!(!is_path(choose_location("http", path())));
    assert!(!is_path(choose_location("file", None)));
    assert!(!is_path(choose_location("File", path())));
}
