//! Checks on what the user enters at setup: the API address and the sync folder.
use vstd::prelude::*;

use crate::api::{parse_url, UrlParts};
use crate::paths::is_absolute_path;
use crate::text::str_eq;

verus! {

/// Why a setup value was refused.
#[derive(Debug, Clone, Copy, PartialEq, Eq, Structural)]
pub enum SetupError {
    /// The API address does not parse as a URL.
    InvalidApiUrl,
    /// The API address uses a scheme other than `http` or `https`.
    UnsupportedScheme,
    /// The sync folder is not an absolute path.
    FolderNotAbsolute,
    /// The sync folder does not exist.
    FolderMissing,
    /// The sync folder is not a directory.
    FolderNotDirectory,
}

/// Whether an API address is accepted, given how it parses: it must parse and
/// its scheme must be `https` or `http`.
pub open spec fn url_parts_check(parsed: Option<(Seq<char>, Option<Seq<char>>, Option<u16>)>) -> Result<(), SetupError> {
    match parsed {
        None => Err(SetupError::InvalidApiUrl),
        Some((scheme, _host, _port)) => if scheme == "https"@ || scheme == "http"@ {
            Ok(())
        } else {
            Err(SetupError::UnsupportedScheme)
        },
    }
}

/// Whether an API address is accepted: it parses and its scheme is `https` or
/// `http`.
pub open spec fn api_url_check(url: Seq<char>) -> Result<(), SetupError> {
    url_parts_check(crate::api::parsed_url(url))
}

/// Accepts the parts of a parsed API address whose scheme is `https` or `http`
/// (see `url_parts_check`).
pub fn check_url_parts(parts: &Option<UrlParts>) -> (r: Result<(), SetupError>)
    ensures
        r == url_parts_check(
            match parts {
                Some(u) => Some(crate::api::url_parts_view(*u)),
                None => None,
            },
        ),
{
    match parts {
        None => Err(SetupError::InvalidApiUrl),
        Some(p) => {
            if str_eq(p.scheme.as_str(), "https") || str_eq(p.scheme.as_str(), "http") {
                Ok(())
            } else {
                Err(SetupError::UnsupportedScheme)
            }
        },
    }
}

/// Accepts an API address that parses as a URL with scheme `https` or `http`.
pub fn validate_api_url(url: &str) -> (r: Result<(), SetupError>)
    ensures
        r == api_url_check(url@),
{
    let parts = parse_url(url);
    check_url_parts(&parts)
}

/// Whether a sync folder is accepted, given whether it exists and whether it is
/// a directory: it must be absolute, exist, and be a directory, checked in
/// that order.
pub open spec fn sync_folder_check(path: Seq<char>, exists: bool, is_dir: bool) -> Result<(), SetupError> {
    if !(path.len() > 0 && path[0] == '/') {
        Err(SetupError::FolderNotAbsolute)
    } else if !exists {
        Err(SetupError::FolderMissing)
    } else if !is_dir {
        Err(SetupError::FolderNotDirectory)
    } else {
        Ok(())
    }
}

/// Accepts a sync folder that is an absolute path to an existing directory;
/// `exists` and `is_dir` report what the file system says of the path.
pub fn validate_sync_folder(path: &str, exists: bool, is_dir: bool) -> (r: Result<(), SetupError>)
    ensures
        r == sync_folder_check(path@, exists, is_dir),
{
    if !is_absolute_path(path) {
        return Err(SetupError::FolderNotAbsolute);
    }
    if !exists {
        return Err(SetupError::FolderMissing);
    }
    if !is_dir {
        return Err(SetupError::FolderNotDirectory);
    }
    Ok(())
}

} // verus!
