//! Where to read a file from that is given by its URL.
use std::path::PathBuf;
use url::Url;
use vstd::prelude::*;

verus! {

/// `url::Url`.
#[verifier::external_type_specification]
#[verifier::external_body]
pub struct ExUrl(url::Url);

/// `std::path::PathBuf`.
#[verifier::external_type_specification]
#[verifier::external_body]
pub struct ExPathBuf(std::path::PathBuf);

/// The scheme of a URL, in lower case and without the colon behind it.
pub uninterp spec fn url_scheme(url: Url) -> Seq<char>;

/// `url::Url::scheme`: the scheme of the URL.
pub assume_specification[ url::Url::scheme ](url: &url::Url) -> (r: &str)
    ensures
        r@ == url_scheme(*url),
;

/// `url::Url::to_file_path`. Which path it is, and whether there is one, depends on the operating
/// system and on whether memory for it can be had, so nothing is claimed of the result.
#[verifier::external_body]
pub fn to_file_path(url: &Url) -> (r: Option<PathBuf>) {
    url.to_file_path().ok()
}

/// Where a file is to be read from.
pub enum Location {
    /// From the file system, at that path.
    Path(PathBuf),
    /// From the network.
    Network,
}

/// Where the file at a URL of that scheme is to be read from, if `path` is the path that the URL
/// stands for.
pub open spec fn located(scheme: Seq<char>, path: Option<PathBuf>) -> Location {
    match path {
        Some(path) => if scheme == "file"@ {
            Location::Path(path)
        } else {
            Location::Network
        },
        None => Location::Network,
    }
}

/// Where the file at a URL of that scheme is to be read from.
pub fn choose_location(scheme: &str, path: Option<PathBuf>) -> (r: Location)
    ensures
        r == located(scheme@, path),
{
    let is_file = scheme.to_owned() == "file".to_owned();
    match path {
        Some(path) => if is_file {
            Location::Path(path)
        } else {
            Location::Network
        },
        None => Location::Network,
    }
}

/// Whether a URL is one of the file system.
pub open spec fn is_file_url(url: Url) -> bool {
    url_scheme(url) == "file"@
}

/// Where the file at a URL is to be read from: the path that the URL stands for, if it is a URL
/// of the file system and stands for one, and the network otherwise.
pub fn locate(url: &Url) -> (r: Location)
    ensures
        is_file_url(*url) ==> exists|path: Option<PathBuf>| #[trigger]
            call_ensures(to_file_path, (url,), path) && r == located(url_scheme(*url), path),
        !is_file_url(*url) ==> r is Network,
{
    let scheme = url.scheme();
    if scheme.to_owned() == "file".to_owned() {
        let convert = to_file_path;
        let path = convert(url);
        choose_location(scheme, path)
    } else {
        Location::Network
    }
}

/// A file is read from the file system if and only if the scheme is `file` and there is a path, and
/// then from that path.
pub proof fn only_files_are_read_from_paths(scheme: Seq<char>, path: Option<PathBuf>, url: Url)
    ensures
        scheme != "file"@ ==> located(scheme, path) is Network,
        path is None ==> located(scheme, path) is Network,
        scheme == "file"@ && path is Some ==> located(scheme, path) == Location::Path(path->0),
        is_file_url(url) <==> url_scheme(url) == "file"@,
{
}

} // verus!
