//! The decisions of the package download command: which registry package a
//! specifier asks for, how the access token is sent, and whether the
//! response carries a package.

use vstd::prelude::*;

use crate::text::str_eq;

verus! {

/// Where a package specifier points.
#[derive(Debug, Clone, PartialEq, Eq)]
pub enum PackageSource {
    /// A package of a registry: `namespace/name` and a version requirement
    /// (`*` for any version).
    Registry { full_name: String, version: String },
    /// A URL.
    Url(String),
    /// A path on the local file system.
    Path(String),
}

/// The mathematical value of a `PackageSource`.
pub enum PackageSourceView {
    Registry { full_name: Seq<char>, version: Seq<char> },
    Url(Seq<char>),
    Path(Seq<char>),
}

impl View for PackageSource {
    type V = PackageSourceView;

    open spec fn view(&self) -> PackageSourceView {
        match self {
            PackageSource::Registry { full_name, version } => PackageSourceView::Registry {
                full_name: full_name@,
                version: version@,
            },
            PackageSource::Url(u) => PackageSourceView::Url(u@),
            PackageSource::Path(p) => PackageSourceView::Path(p@),
        }
    }
}

/// What to fetch for a specifier: a registry package, queried by its full
/// name and, unless any version will do, the version requirement; or the
/// package served at a URL.
#[derive(Debug, Clone, PartialEq, Eq)]
pub enum DownloadTarget {
    Registry { full_name: String, version: Option<String> },
    Url(String),
}

/// The mathematical value of a `DownloadTarget`.
pub enum DownloadTargetView {
    Registry { full_name: Seq<char>, version: Option<Seq<char>> },
    Url(Seq<char>),
}

impl View for DownloadTarget {
    type V = DownloadTargetView;

    open spec fn view(&self) -> DownloadTargetView {
        match self {
            DownloadTarget::Registry { full_name, version } => DownloadTargetView::Registry {
                full_name: full_name@,
                version: version.deep_view(),
            },
            DownloadTarget::Url(u) => DownloadTargetView::Url(u@),
        }
    }
}

/// Why a package cannot be downloaded.
#[derive(Debug, Clone, PartialEq, Eq)]
pub enum DownloadError {
    /// The specifier is a local path.
    PathSource,
    /// The registry gave no download URL for the package.
    NoDownloadUrl,
}

/// The mathematical value of a `DownloadError`.
pub enum DownloadErrorView {
    PathSource,
    NoDownloadUrl,
}

impl View for DownloadError {
    type V = DownloadErrorView;

    open spec fn view(&self) -> DownloadErrorView {
        match self {
            DownloadError::PathSource => DownloadErrorView::PathSource,
            DownloadError::NoDownloadUrl => DownloadErrorView::NoDownloadUrl,
        }
    }
}

/// What a specifier asks to fetch: a registry package is queried by name,
/// with the version requirement unless it is `*`; a URL is fetched as it
/// is; a local path cannot be downloaded.
pub open spec fn target_spec(source: PackageSourceView) -> Result<
    DownloadTargetView,
    DownloadErrorView,
> {
    match source {
        PackageSourceView::Registry { full_name, version } => Ok(
            DownloadTargetView::Registry {
                full_name,
                version: if version == "*"@ {
                    None
                } else {
                    Some(version)
                },
            },
        ),
        PackageSourceView::Url(u) => Ok(DownloadTargetView::Url(u)),
        PackageSourceView::Path(_) => Err(DownloadErrorView::PathSource),
    }
}

/// A registry package keeps its version requirement unless the
/// requirement is exactly `*`, which asks for any version; its full name is
/// kept in either case. A URL is fetched as given.
pub proof fn law_version_dropped_only_for_any(full_name: Seq<char>, version: Seq<char>, url: Seq<char>)
    ensures
        version != "*"@ ==> target_spec(
            PackageSourceView::Registry { full_name, version },
        ) == Ok::<_, DownloadErrorView>(
            DownloadTargetView::Registry { full_name, version: Some(version) },
        ),
        version == "*"@ ==> target_spec(
            PackageSourceView::Registry { full_name, version },
        ) == Ok::<_, DownloadErrorView>(DownloadTargetView::Registry { full_name, version: None }),
        target_spec(PackageSourceView::Url(url)) == Ok::<_, DownloadErrorView>(
            DownloadTargetView::Url(url),
        ),
{
}

/// Decides what a specifier asks to fetch.
pub fn download_target(source: &PackageSource) -> (r: Result<DownloadTarget, DownloadError>)
    ensures
        match r {
            Ok(t) => target_spec(source@) == Ok::<_, DownloadErrorView>(t@),
            Err(e) => target_spec(source@) == Err::<DownloadTargetView, _>(e@),
        },
{
    match source {
        PackageSource::Registry { full_name, version } => {
            let v = if str_eq(version.as_str(), "*") {
                None
            } else {
                Some(version.clone())
            };
            Ok(DownloadTarget::Registry { full_name: full_name.clone(), version: v })
        },
        PackageSource::Url(u) => Ok(DownloadTarget::Url(u.clone())),
        PackageSource::Path(_) => Err(DownloadError::PathSource),
    }
}

/// The download URL the registry reported, or the error for its absence.
pub fn require_download_url(url: Option<String>) -> (r: Result<String, DownloadError>)
    ensures
        match url {
            Some(u) => r == Ok::<String, DownloadError>(u),
            None => r == Err::<String, DownloadError>(DownloadError::NoDownloadUrl),
        },
{
    match url {
        Some(u) => Ok(u),
        None => Err(DownloadError::NoDownloadUrl),
    }
}

/// The value of the `Authorization` header that carries `token`.
pub fn bearer_header(token: &str) -> (r: String)
    ensures
        r@ == "Bearer "@ + token@,
{
    String::from_str("Bearer ").concat(token)
}

/// Whether a response's content type is one a package is served as:
/// `application/webc` or `application/octet-stream`. Any other type only
/// draws a warning.
pub fn is_package_content_type(content_type: &str) -> (r: bool)
    ensures
        r == (content_type@ == "application/webc"@ || content_type@
            == "application/octet-stream"@),
{
    str_eq(content_type, "application/webc") || str_eq(content_type, "application/octet-stream")
}

/// The message that describes a download error.
pub open spec fn download_error_message(e: DownloadErrorView) -> Seq<char> {
    match e {
        DownloadErrorView::PathSource => "cannot download a package from a local path"@,
        DownloadErrorView::NoDownloadUrl => "registry does provide a container download container download URL"@,
    }
}

impl DownloadError {
    /// The message that describes this error.
    pub fn to_string(&self) -> (m: String)
        ensures
            m@ == download_error_message(self@),
    {
        match self {
            DownloadError::PathSource => String::from_str(
                "cannot download a package from a local path",
            ),
            DownloadError::NoDownloadUrl => String::from_str(
                "registry does provide a container download container download URL",
            ),
        }
    }
}

} // verus!
