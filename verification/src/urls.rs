//! URL construction and the suffix-driven archive-kind dispatch.

use vstd::prelude::*;

use crate::text::{chars_end_with, chars_to_string, seq_ends_with, str_chars};

verus! {

/// The metadata query URL for the latest release of `repo`.
pub open spec fn api_url_spec(repo: Seq<char>) -> Seq<char> {
    "https://api.github.com/repos/"@ + repo + "/releases/latest"@
}

/// Build the metadata query URL for the latest release of `repo`.
pub fn latest_release_api_url(repo: &str) -> (r: String)
    ensures
        r@ == api_url_spec(repo@),
{
    let mut out = str_chars("https://api.github.com/repos/");
    let mut mid = str_chars(repo);
    out.append(&mut mid);
    let mut tail = str_chars("/releases/latest");
    out.append(&mut tail);
    proof {
        assert(out@ =~= api_url_spec(repo@));
    }
    chars_to_string(&out)
}

/// The download URL for asset `asset_name` of release `version` of `repo`,
/// constructed client side and never fetched from the metadata API.
pub open spec fn asset_url_spec(repo: Seq<char>, asset_name: Seq<char>, version: Seq<char>) -> Seq<
    char,
> {
    "https://github.com/"@ + repo + "/releases/download/"@ + version + "/"@ + asset_name
}

/// Build the download URL for a named asset of a specific release version.
pub fn get_release_asset_url_by_version(repo: &str, asset_name: &str, version: &str) -> (r: String)
    ensures
        r@ == asset_url_spec(repo@, asset_name@, version@),
{
    let mut out = str_chars("https://github.com/");
    let mut part = str_chars(repo);
    out.append(&mut part);
    let mut mid = str_chars("/releases/download/");
    out.append(&mut mid);
    let mut ver = str_chars(version);
    out.append(&mut ver);
    let mut sep = str_chars("/");
    out.append(&mut sep);
    let mut name = str_chars(asset_name);
    out.append(&mut name);
    proof {
        assert(out@ =~= asset_url_spec(repo@, asset_name@, version@));
    }
    chars_to_string(&out)
}

/// The download URL of an asset when the version is known; `None` when
/// the version is empty, which asks the caller to resolve the remote
/// latest release tag first and build the URL from it.
pub fn asset_download_url(repo: &str, asset_name: &str, version: &str) -> (r: Option<String>)
    ensures
        match r {
            Option::Some(url) => version@.len() > 0 && url@ == asset_url_spec(
                repo@,
                asset_name@,
                version@,
            ),
            Option::None => version@.len() == 0,
        },
{
    if version.is_empty() {
        None
    } else {
        Some(get_release_asset_url_by_version(repo, asset_name, version))
    }
}

/// How a fetched payload is handled, decided from the URL suffix alone.
#[derive(Clone, Copy, PartialEq, Eq, Structural, Debug)]
pub enum ArchiveKind {
    /// Stream straight to a file, no extraction.
    Raw,
    /// Buffer in memory and unpack as a zip archive.
    Zip,
    /// Buffer in memory, inflate, and unpack as a tar archive.
    TarGz,
}

/// The archive kind a URL dispatches to: `.tar.gz` wins over `.zip`, and
/// everything else is a raw file.
pub open spec fn archive_kind_spec(url: Seq<char>) -> ArchiveKind {
    if seq_ends_with(url, ".tar.gz"@) {
        ArchiveKind::TarGz
    } else if seq_ends_with(url, ".zip"@) {
        ArchiveKind::Zip
    } else {
        ArchiveKind::Raw
    }
}

/// Decide the archive kind for a URL.
pub fn archive_kind(url: &str) -> (r: ArchiveKind)
    ensures
        r == archive_kind_spec(url@),
{
    let cs = str_chars(url);
    let targz = str_chars(".tar.gz");
    if chars_end_with(&cs, &targz) {
        ArchiveKind::TarGz
    } else {
        let zip_suffix = str_chars(".zip");
        if chars_end_with(&cs, &zip_suffix) {
            ArchiveKind::Zip
        } else {
            ArchiveKind::Raw
        }
    }
}

/// The part of a URL after its last slash; empty when the URL ends with one.
pub open spec fn basename_spec(s: Seq<char>) -> Seq<char>
    decreases s.len(),
{
    if s.len() == 0 {
        Seq::<char>::empty()
    } else if s[s.len() - 1] == '/' {
        Seq::<char>::empty()
    } else {
        basename_spec(s.drop_last()).push(s[s.len() - 1])
    }
}

/// A suffix with no slash, preceded by a slash or the start, is the basename.
proof fn lemma_basename_suffix(s: Seq<char>, i: int)
    requires
        0 <= i <= s.len(),
        forall|k: int| i <= k < s.len() ==> s[k] != '/',
        i == 0 || s[i - 1] == '/',
    ensures
        basename_spec(s) == s.skip(i),
    decreases s.len() - i,
{
    if s.len() == i {
        if i == 0 {
            assert(s.skip(0) =~= s);
        } else {
            assert(s[s.len() - 1] == '/');
            assert(s.skip(i) =~= Seq::<char>::empty());
        }
    } else {
        assert(s[s.len() - 1] != '/');
        let d = s.drop_last();
        assert(forall|k: int| i <= k < d.len() ==> d[k] == s[k] && s[k] != '/');
        if i > 0 {
            assert(d[i - 1] == s[i - 1]);
        }
        lemma_basename_suffix(d, i);
        assert(basename_spec(s) == basename_spec(d).push(s[s.len() - 1]));
        assert(d.skip(i).push(s[s.len() - 1]) =~= s.skip(i));
    }
}

/// The file name a raw download is stored under: the URL's basename.
pub fn url_basename(url: &str) -> (r: String)
    ensures
        r@ == basename_spec(url@),
{
    let cs = str_chars(url);
    let total: usize = cs.len();
    let mut i: usize = total;
    while i > 0 && cs[i - 1] != '/'
        invariant
            i <= total,
            total == cs@.len(),
            forall|k: int| i <= k < cs@.len() ==> cs@[k] != '/',
        decreases i,
    {
        i = i - 1;
    }
    proof {
        lemma_basename_suffix(cs@, i as int);
    }
    let mut out: Vec<char> = Vec::new();
    let mut j: usize = i;
    while j < total
        invariant
            i <= j <= total,
            total == cs@.len(),
            out@ == cs@.subrange(i as int, j as int),
        decreases total - j,
    {
        out.push(cs[j]);
        proof {
            assert(out@ =~= cs@.subrange(i as int, j + 1));
        }
        j = j + 1;
    }
    proof {
        assert(out@ =~= cs@.skip(i as int));
    }
    chars_to_string(&out)
}

} // verus!
