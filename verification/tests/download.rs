use wasmer_support::download::{
    bearer_header, download_target, is_package_content_type, require_download_url,
    DownloadError, DownloadTarget, PackageSource,
};

#[test]
fn download_any_version_queries_latest() {
    let t = download_target(&PackageSource::Registry {
        full_name: "wasmer/hello".to_string(),
        version: "*".to_string(),
    })
    .unwrap();
    assert_eq!(
        t,
        DownloadTarget::Registry { full_name: "wasmer/hello".to_string(), version: None }
    );
}

#[test]
fn download_pinned_version() {
    let t = download_target(&PackageSource::Registry {
        full_name: "wasmer/hello".to_string(),
        version: "^0.1.0".to_string(),
    })
    .unwrap();
    assert_eq!(
        t,
        DownloadTarget::Registry {
            full_name: "wasmer/hello".to_string(),
            version: Some("^0.1.0".to_string()),
        }
    );
}

#[test]
fn download_fetches_urls_directly() {
    let t = download_target(&PackageSource::Url("https://x/y.webc".to_string())).unwrap();
    assert_eq!(t, DownloadTarget::Url("https://x/y.webc".to_string()));
}

#[test]
fn download_refuses_paths() {
    let e = download_target(&PackageSource::Path("./pkg".to_string())).unwrap_err();
    assert_eq!(e, DownloadError::PathSource);
    assert_eq!(e.to_string(), "cannot download a package from a local path");
}

#[test]
fn download_url_is_required() {
    assert_eq!(require_download_url(Some("u".to_string())), Ok("u".to_string()));
    assert_eq!(require_download_url(None), Err(DownloadError::NoDownloadUrl));
    assert_eq!(
        DownloadError::NoDownloadUrl.to_string(),
        "registry does provide a container download container download URL"
    );
}

#[test]
fn download_bearer_header() {
    assert_eq!(bearer_header("abc"), "Bearer abc");
}

#[test]
fn download_content_types() {
    assert!(is_package_content_type("application/webc"));
    assert!(is_package_content_type("application/octet-stream"));
    assert!(!is_package_content_type("text/html"));
    assert!(!is_package_content_type(""));
}
