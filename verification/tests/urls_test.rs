use libfetch::urls::{
    archive_kind, asset_download_url, get_release_asset_url_by_version, latest_release_api_url,
    url_basename, ArchiveKind,
};

#[test]
fn test_asset_url_by_version() {
    let url = get_release_asset_url_by_version("owner/repo", "asset.zip", "v1.0.0");
    assert_eq!(url, "https://github.com/owner/repo/releases/download/v1.0.0/asset.zip");
}

#[test]
fn api_url_for_repo() {
    let url = latest_release_api_url("ggml-org/llama.cpp");
    assert_eq!(url, "https://api.github.com/repos/ggml-org/llama.cpp/releases/latest");
}

#[test]
fn archive_kind_dispatch() {
    assert_eq!(archive_kind("https://host/x/asset.zip"), ArchiveKind::Zip);
    assert_eq!(archive_kind("https://host/x/asset.tar.gz"), ArchiveKind::TarGz);
    assert_eq!(archive_kind("https://host/x/tool.exe"), ArchiveKind::Raw);
    assert_eq!(archive_kind("https://host/x/archive.zip.tar.gz"), ArchiveKind::TarGz);
    assert_eq!(archive_kind(""), ArchiveKind::Raw);
}

#[test]
fn basename_of_url() {
    assert_eq!(url_basename("https://host/a/b/tool.bin"), "tool.bin");
    assert_eq!(url_basename("tool.bin"), "tool.bin");
    assert_eq!(url_basename("https://host/dir/"), "");
}

#[test]
fn empty_version_asks_for_latest_resolution() {
    assert_eq!(asset_download_url("owner/repo", "asset.zip", ""), None);
    assert_eq!(
        asset_download_url("owner/repo", "asset.zip", "v1.0.0"),
        Some(String::from("https://github.com/owner/repo/releases/download/v1.0.0/asset.zip"))
    );
}
