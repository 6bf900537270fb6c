//! Archive extraction planning.
//!
//! Archive decoding is done by the zip, tar and flate2 crates behind trusted
//! wrappers; everything decided here — which filesystem objects an archive
//! produces and under which destination-relative paths — is verified. The
//! embedding program executes the planned actions under the destination
//! directory.

use vstd::prelude::*;

use crate::errors::Error;
use crate::text::{chars_to_string, seq_ends_with, str_chars};

verus! {

/// The classification of a tar entry that drives unpacking.
#[derive(Clone, Copy, PartialEq, Eq, Structural, Debug)]
pub enum TarEntryKind {
    /// A directory entry: the directory is created.
    Directory,
    /// A symbolic-link entry: the link is recreated, best effort.
    Symlink,
    /// Every other entry type: unpacked as a regular file.
    File,
}

/// One decoded tar entry.
pub struct TarEntry {
    /// The path recorded in the entry header.
    pub path: String,
    /// The link target, for symbolic-link entries that carry one.
    pub link_target: Option<String>,
    /// The entry's classification.
    pub kind: TarEntryKind,
    /// POSIX permission bits recorded in the entry header, when readable.
    pub unix_mode: Option<u32>,
    /// The entry's content.
    pub data: Vec<u8>,
}

/// Mathematical image of a [`TarEntry`].
#[verifier::ext_equal]
pub struct TarEntryView {
    pub path: Seq<char>,
    pub link_target: Option<Seq<char>>,
    pub kind: TarEntryKind,
    pub unix_mode: Option<u32>,
    pub data: Seq<u8>,
}

impl View for TarEntry {
    type V = TarEntryView;

    open spec fn view(&self) -> TarEntryView {
        TarEntryView {
            path: self.path@,
            link_target: opt_str_view(self.link_target),
            kind: self.kind,
            unix_mode: self.unix_mode,
            data: self.data@,
        }
    }
}

/// One decoded zip entry.
pub struct ZipEntry {
    /// The name recorded in the archive; a trailing slash marks a directory.
    pub name: String,
    /// The sanitized path the entry is extracted under, as the zip crate
    /// mangles it to keep it inside the destination.
    pub mangled_path: String,
    /// POSIX permission bits recorded in the entry, when present.
    pub unix_mode: Option<u32>,
    /// The entry's decompressed content.
    pub data: Vec<u8>,
}

/// The view of an optional string.
pub open spec fn opt_str_view(o: Option<String>) -> Option<Seq<char>> {
    match o {
        Option::Some(s) => Option::Some(s@),
        Option::None => Option::None,
    }
}

/// Mathematical image of a [`ZipEntry`].
#[verifier::ext_equal]
pub struct ZipEntryView {
    pub name: Seq<char>,
    pub mangled_path: Seq<char>,
    pub unix_mode: Option<u32>,
    pub data: Seq<u8>,
}

impl View for ZipEntry {
    type V = ZipEntryView;

    open spec fn view(&self) -> ZipEntryView {
        ZipEntryView {
            name: self.name@,
            mangled_path: self.mangled_path@,
            unix_mode: self.unix_mode,
            data: self.data@,
        }
    }
}

/// One filesystem action of an extraction plan. Paths are relative to the
/// destination directory; a write creates missing parent directories first.
pub enum FsAction {
    /// Create a directory (and its parents).
    MakeDir { path: String },
    /// Write a file with the given content, creating parents, and restore
    /// the recorded permission bits when present, best effort.
    WriteFile { path: String, data: Vec<u8>, unix_mode: Option<u32> },
    /// Recreate a symbolic link pointing at `target`, best effort.
    MakeSymlink { path: String, target: String },
}

/// Mathematical image of an [`FsAction`].
pub enum FsActionView {
    MakeDir { path: Seq<char> },
    WriteFile { path: Seq<char>, data: Seq<u8>, unix_mode: Option<u32> },
    MakeSymlink { path: Seq<char>, target: Seq<char> },
}

impl View for FsAction {
    type V = FsActionView;

    open spec fn view(&self) -> FsActionView {
        match self {
            FsAction::MakeDir { path } => FsActionView::MakeDir { path: path@ },
            FsAction::WriteFile { path, data, unix_mode } => (FsActionView::WriteFile {
                path: path@,
                data: data@,
                unix_mode: *unix_mode,
            }),
            FsAction::MakeSymlink { path, target } => (FsActionView::MakeSymlink {
                path: path@,
                target: target@,
            }),
        }
    }
}

/// The views of a sequence of tar entries.
pub open spec fn tar_entries_view(v: Seq<TarEntry>) -> Seq<TarEntryView> {
    v.map_values(|e: TarEntry| e@)
}

/// The views of a sequence of zip entries.
pub open spec fn zip_entries_view(v: Seq<ZipEntry>) -> Seq<ZipEntryView> {
    v.map_values(|e: ZipEntry| e@)
}

/// The views of a sequence of actions.
pub open spec fn actions_view(v: Seq<FsAction>) -> Seq<FsActionView> {
    v.map_values(|a: FsAction| a@)
}

/// Index of the first slash in `s`, or its length when there is none.
pub open spec fn first_slash(s: Seq<char>) -> int
    decreases s.len(),
{
    if s.len() == 0 {
        0
    } else if s[0] == '/' {
        0
    } else {
        1 + first_slash(s.skip(1))
    }
}

/// A stretch without slashes ending at the end or at a slash locates the
/// first slash.
proof fn lemma_first_slash_at(s: Seq<char>, i: int, j: int)
    requires
        0 <= i <= j <= s.len(),
        forall|k: int| i <= k < j ==> s[k] != '/',
        j == s.len() || s[j] == '/',
    ensures
        first_slash(s.skip(i)) == j - i,
    decreases j - i,
{
    if i == j {
        if j == s.len() {
            assert(s.skip(i).len() == 0);
        } else {
            assert(s.skip(i)[0] == s[i]);
        }
    } else {
        assert(s.skip(i)[0] == s[i]);
        assert(s[i] != '/');
        assert(s.skip(i).skip(1) =~= s.skip(i + 1));
        lemma_first_slash_at(s, i + 1, j);
    }
}

/// An entry path with its first component stripped: everything after the
/// first slash, without a trailing slash, or empty when there is no slash
/// (the path was the top-level component itself). An entry whose stripped
/// path is empty produces no filesystem object.
pub open spec fn strip_top_level_spec(path: Seq<char>) -> Seq<char> {
    if first_slash(path) == path.len() {
        Seq::<char>::empty()
    } else {
        let tail = path.skip(first_slash(path) + 1);
        if tail.len() > 0 && tail[tail.len() - 1] == '/' {
            tail.drop_last()
        } else {
            tail
        }
    }
}

/// Strip the first path component of a tar entry path.
pub fn strip_top_level(path: &str) -> (r: String)
    ensures
        r@ == strip_top_level_spec(path@),
{
    let cs = str_chars(path);
    let total: usize = cs.len();
    let mut j: usize = 0;
    while j < total && cs[j] != '/'
        invariant
            j <= total,
            total == cs@.len(),
            forall|k: int| 0 <= k < j ==> cs@[k] != '/',
        decreases total - j,
    {
        j = j + 1;
    }
    proof {
        lemma_first_slash_at(cs@, 0, j as int);
        assert(cs@.skip(0) =~= cs@);
        assert(first_slash(cs@) == j);
    }
    if j == total {
        let empty_out: Vec<char> = Vec::new();
        chars_to_string(&empty_out)
    } else {
        let end: usize = if total > j + 1 && cs[total - 1] == '/' {
            total - 1
        } else {
            total
        };
        let mut out: Vec<char> = Vec::new();
        let mut k: usize = j + 1;
        while k < end
            invariant
                j + 1 <= k <= end <= total,
                total == cs@.len(),
                out@ == cs@.subrange(j + 1, k as int),
            decreases end - k,
        {
            out.push(cs[k]);
            proof {
                assert(out@ =~= cs@.subrange(j + 1, k + 1));
            }
            k = k + 1;
        }
        proof {
            let tail = cs@.skip(j + 1);
            assert(tail.len() == total - j - 1);
            if total > j + 1 && cs@[total - 1] == '/' {
                assert(tail[tail.len() - 1] == cs@[total - 1]);
                assert(out@ =~= tail.drop_last());
            } else {
                assert(out@ =~= tail);
                if tail.len() > 0 {
                    assert(tail[tail.len() - 1] == cs@[total - 1]);
                }
            }
        }
        chars_to_string(&out)
    }
}

/// The actions one tar entry contributes: nothing when stripping empties
/// its path; otherwise a directory, a best-effort symlink (dropped when the
/// entry names no target), or a file write.
pub open spec fn tar_entry_actions(e: TarEntryView) -> Seq<FsActionView> {
    let stripped = strip_top_level_spec(e.path);
    if stripped.len() == 0 {
        Seq::<FsActionView>::empty()
    } else {
        match e.kind {
            TarEntryKind::Directory => seq![FsActionView::MakeDir { path: stripped }],
            TarEntryKind::Symlink => match e.link_target {
                Option::Some(t) => seq![FsActionView::MakeSymlink { path: stripped, target: t }],
                Option::None => Seq::<FsActionView>::empty(),
            },
            TarEntryKind::File => seq![
                FsActionView::WriteFile {
                    path: stripped,
                    data: e.data,
                    unix_mode: e.unix_mode,
                },
            ],
        }
    }
}

/// The whole extraction plan of a tar archive, entry by entry in order.
pub open spec fn plan_tar_spec(entries: Seq<TarEntryView>) -> Seq<FsActionView>
    decreases entries.len(),
{
    if entries.len() == 0 {
        Seq::<FsActionView>::empty()
    } else {
        tar_entry_actions(entries[0]) + plan_tar_spec(entries.skip(1))
    }
}

/// Planning one more entry appends that entry's actions.
proof fn lemma_plan_tar_snoc(entries: Seq<TarEntryView>, e: TarEntryView)
    ensures
        plan_tar_spec(entries.push(e)) == plan_tar_spec(entries) + tar_entry_actions(e),
    decreases entries.len(),
{
    if entries.len() == 0 {
        assert(entries.push(e)[0] == e);
        assert(entries.push(e).skip(1) =~= Seq::<TarEntryView>::empty());
        assert(plan_tar_spec(Seq::<TarEntryView>::empty()) == Seq::<FsActionView>::empty());
        assert(plan_tar_spec(entries.push(e)) =~= plan_tar_spec(entries) + tar_entry_actions(e));
    } else {
        assert(entries.push(e)[0] == entries[0]);
        assert(entries.push(e).skip(1) =~= entries.skip(1).push(e));
        lemma_plan_tar_snoc(entries.skip(1), e);
        assert(plan_tar_spec(entries.push(e)) == tar_entry_actions(entries[0]) + (plan_tar_spec(
            entries.skip(1),
        ) + tar_entry_actions(e)));
        assert(plan_tar_spec(entries) == tar_entry_actions(entries[0]) + plan_tar_spec(
            entries.skip(1),
        ));
        assert(plan_tar_spec(entries.push(e)) =~= plan_tar_spec(entries) + tar_entry_actions(e));
    }
}

/// The actions one zip entry contributes: a directory when its name ends
/// with a slash, else a file write carrying the recorded permission bits.
pub open spec fn zip_entry_actions(e: ZipEntryView) -> Seq<FsActionView> {
    if seq_ends_with(e.name, seq!['/']) {
        seq![FsActionView::MakeDir { path: e.mangled_path }]
    } else {
        seq![
            FsActionView::WriteFile {
                path: e.mangled_path,
                data: e.data,
                unix_mode: e.unix_mode,
            },
        ]
    }
}

/// The whole extraction plan of a zip archive, entry by entry in order.
pub open spec fn plan_zip_spec(entries: Seq<ZipEntryView>) -> Seq<FsActionView>
    decreases entries.len(),
{
    if entries.len() == 0 {
        Seq::<FsActionView>::empty()
    } else {
        zip_entry_actions(entries[0]) + plan_zip_spec(entries.skip(1))
    }
}

/// Planning one more entry appends that entry's actions.
proof fn lemma_plan_zip_snoc(entries: Seq<ZipEntryView>, e: ZipEntryView)
    ensures
        plan_zip_spec(entries.push(e)) == plan_zip_spec(entries) + zip_entry_actions(e),
    decreases entries.len(),
{
    if entries.len() == 0 {
        assert(entries.push(e)[0] == e);
        assert(entries.push(e).skip(1) =~= Seq::<ZipEntryView>::empty());
        assert(plan_zip_spec(Seq::<ZipEntryView>::empty()) == Seq::<FsActionView>::empty());
        assert(plan_zip_spec(entries.push(e)) =~= plan_zip_spec(entries) + zip_entry_actions(e));
    } else {
        assert(entries.push(e)[0] == entries[0]);
        assert(entries.push(e).skip(1) =~= entries.skip(1).push(e));
        lemma_plan_zip_snoc(entries.skip(1), e);
        assert(plan_zip_spec(entries.push(e)) == zip_entry_actions(entries[0]) + (plan_zip_spec(
            entries.skip(1),
        ) + zip_entry_actions(e)));
        assert(plan_zip_spec(entries) == zip_entry_actions(entries[0]) + plan_zip_spec(
            entries.skip(1),
        ));
        assert(plan_zip_spec(entries.push(e)) =~= plan_zip_spec(entries) + zip_entry_actions(e));
    }
}

/// The destination-relative path an action creates or writes.
pub open spec fn action_path(a: FsActionView) -> Seq<char> {
    match a {
        FsActionView::MakeDir { path } => path,
        FsActionView::WriteFile { path, data: _, unix_mode: _ } => path,
        FsActionView::MakeSymlink { path, target: _ } => path,
    }
}

/// Whether the path holds a `..` component, which could climb out of the
/// directory it is joined to.
pub open spec fn has_parent_component(p: Seq<char>) -> bool {
    exists|i: int|
        0 <= i && i + 2 <= p.len() && (#[trigger] p[i]) == '.' && p[i + 1] == '.' && (i == 0 || p[i
            - 1] == '/') && (i + 2 == p.len() || p[i + 2] == '/')
}

/// A path that joining to a destination directory cannot escape: it is
/// relative and holds no `..` component.
pub open spec fn stays_within_destination(p: Seq<char>) -> bool {
    (p.len() > 0 ==> p[0] != '/') && !has_parent_component(p)
}

/// Every action of a zip plan carries some entry's sanitized path, so a
/// plan over entries whose paths stay within the destination plans no
/// escaping path.
proof fn lemma_plan_zip_paths(entries: Seq<ZipEntryView>)
    requires
        forall|i: int|
            0 <= i < entries.len() ==> stays_within_destination((#[trigger] entries[i]).mangled_path),
    ensures
        forall|k: int|
            0 <= k < plan_zip_spec(entries).len() ==> stays_within_destination(
                action_path(#[trigger] plan_zip_spec(entries)[k]),
            ),
    decreases entries.len(),
{
    if entries.len() > 0 {
        assert forall|i: int|
            0 <= i < entries.skip(1).len() implies stays_within_destination(
            (#[trigger] entries.skip(1)[i]).mangled_path,
        ) by {
            assert(entries.skip(1)[i] == entries[i + 1]);
        }
        lemma_plan_zip_paths(entries.skip(1));
        let head = zip_entry_actions(entries[0]);
        assert(action_path(head[0]) == entries[0].mangled_path);
        assert forall|k: int|
            0 <= k < plan_zip_spec(entries).len() implies stays_within_destination(
            action_path(#[trigger] plan_zip_spec(entries)[k]),
        ) by {
            assert(plan_zip_spec(entries) == head + plan_zip_spec(entries.skip(1)));
            if k < head.len() {
                assert(plan_zip_spec(entries)[k] == head[k]);
            } else {
                assert(plan_zip_spec(entries)[k] == plan_zip_spec(entries.skip(1))[k - head.len()]);
            }
        }
    }
}

/// Plan the extraction of decoded tar entries: strip each path's top-level
/// component, skip entries that stripping empties, create directories,
/// recreate symlinks, write everything else as files.
pub fn plan_tar_entries(entries: Vec<TarEntry>) -> (r: Vec<FsAction>)
    ensures
        actions_view(r@) == plan_tar_spec(tar_entries_view(entries@)),
{
    let ghost ev = tar_entries_view(entries@);
    let mut out: Vec<FsAction> = Vec::new();
    let mut rem = entries;
    proof {
        assert(tar_entries_view(rem@) =~= ev.skip(0));
        assert(actions_view(out@) =~= plan_tar_spec(ev.take(0)));
    }
    let ghost total = ev.len();
    let ghost mut i: int = 0;
    while rem.len() > 0
        invariant
            total == ev.len(),
            0 <= i <= total,
            rem@.len() == total - i,
            tar_entries_view(rem@) == ev.skip(i as int),
            actions_view(out@) == plan_tar_spec(ev.take(i as int)),
        decreases rem@.len(),
    {
        let ghost rem_before = rem@;
        let e = rem.remove(0);
        proof {
            assert(rem@ =~= rem_before.skip(1));
            assert(e == rem_before[0]);
            assert(tar_entries_view(rem_before)[0] == e@);
            assert(ev.skip(i as int)[0] == ev[i as int]);
            assert(e@ == ev[i as int]);
            assert forall|k: int| 0 <= k < rem@.len() implies tar_entries_view(rem@)[k]
                == ev.skip(i + 1)[k] by {
                assert(rem@[k] == rem_before[k + 1]);
                assert(tar_entries_view(rem_before)[k + 1] == rem_before[k + 1]@);
            }
            assert(tar_entries_view(rem@) =~= ev.skip(i + 1));
        }
        let stripped = strip_top_level(e.path.as_str());
        let ghost out_before = out@;
        if !stripped.as_str().is_empty() {
            match e.kind {
                TarEntryKind::Directory => {
                    out.push(FsAction::MakeDir { path: stripped });
                },
                TarEntryKind::Symlink => {
                    match e.link_target {
                        Option::Some(t) => {
                            out.push(FsAction::MakeSymlink { path: stripped, target: t });
                        },
                        Option::None => {},
                    }
                },
                TarEntryKind::File => {
                    out.push(
                        FsAction::WriteFile {
                            path: stripped,
                            data: e.data,
                            unix_mode: e.unix_mode,
                        },
                    );
                },
            }
        }
        proof {
            assert(actions_view(out@) =~= actions_view(out_before) + tar_entry_actions(
                ev[i as int],
            ));
            assert(ev.take(i + 1) =~= ev.take(i as int).push(ev[i as int]));
            lemma_plan_tar_snoc(ev.take(i as int), ev[i as int]);
            i = i + 1;
        }
    }
    proof {
        assert(ev.take(total as int) =~= ev);
    }
    out
}

/// Plan the extraction of decoded zip entries: names ending in a slash
/// become directories, everything else a byte-for-byte file write with the
/// entry's recorded permission bits.
pub fn plan_zip_entries(entries: Vec<ZipEntry>) -> (r: Vec<FsAction>)
    ensures
        actions_view(r@) == plan_zip_spec(zip_entries_view(entries@)),
{
    let ghost ev = zip_entries_view(entries@);
    let mut out: Vec<FsAction> = Vec::new();
    let mut rem = entries;
    proof {
        assert(zip_entries_view(rem@) =~= ev.skip(0));
        assert(actions_view(out@) =~= plan_zip_spec(ev.take(0)));
    }
    let ghost total = ev.len();
    let ghost mut i: int = 0;
    while rem.len() > 0
        invariant
            total == ev.len(),
            0 <= i <= total,
            rem@.len() == total - i,
            zip_entries_view(rem@) == ev.skip(i as int),
            actions_view(out@) == plan_zip_spec(ev.take(i as int)),
        decreases rem@.len(),
    {
        let ghost rem_before = rem@;
        let e = rem.remove(0);
        proof {
            assert(rem@ =~= rem_before.skip(1));
            assert(e == rem_before[0]);
            assert(zip_entries_view(rem_before)[0] == e@);
            assert(ev.skip(i as int)[0] == ev[i as int]);
            assert(e@ == ev[i as int]);
            assert forall|k: int| 0 <= k < rem@.len() implies zip_entries_view(rem@)[k]
                == ev.skip(i + 1)[k] by {
                assert(rem@[k] == rem_before[k + 1]);
                assert(zip_entries_view(rem_before)[k + 1] == rem_before[k + 1]@);
            }
            assert(zip_entries_view(rem@) =~= ev.skip(i + 1));
        }
        let ghost out_before = out@;
        let name_chars = str_chars(e.name.as_str());
        let slash = str_chars("/");
        proof {
            reveal_strlit("/");
            assert(slash@ =~= seq!['/']);
        }
        if crate::text::chars_end_with(&name_chars, &slash) {
            out.push(FsAction::MakeDir { path: e.mangled_path });
        } else {
            out.push(
                FsAction::WriteFile {
                    path: e.mangled_path,
                    data: e.data,
                    unix_mode: e.unix_mode,
                },
            );
        }
        proof {
            assert(actions_view(out@) =~= actions_view(out_before) + zip_entry_actions(
                ev[i as int],
            ));
            assert(ev.take(i + 1) =~= ev.take(i as int).push(ev[i as int]));
            lemma_plan_zip_snoc(ev.take(i as int), ev[i as int]);
            i = i + 1;
        }
    }
    proof {
        assert(ev.take(total as int) =~= ev);
    }
    out
}

/// What gzip inflation yields for a given compressed payload; the
/// inflated bytes are a function of the compressed bytes alone.
pub uninterp spec fn gunzip_of(data: Seq<u8>) -> Seq<u8>;

/// Whether a payload is a well-formed gzip stream, which inflation
/// accepts; a function of the bytes alone.
pub uninterp spec fn gzip_wf(data: Seq<u8>) -> bool;

/// Relies on flate2::read::GzDecoder (driven by std's Read::read_to_end):
/// inflates a gzip stream. Inflation succeeds exactly on well-formed
/// streams, the inflated bytes are a function of the compressed bytes
/// alone, and a malformed stream is reported as a parse error.
#[verifier::external_body]
fn gunzip(data: &Vec<u8>) -> (r: Result<Vec<u8>, Error>)
    ensures
        r is Ok <==> gzip_wf(data@),
        r is Ok ==> r->Ok_0@ == gunzip_of(data@),
        r is Err ==> r->Err_0 is Parse,
{
    let mut out: Vec<u8> = Vec::new();
    let mut decoder = flate2::read::GzDecoder::new(data.as_slice());
    match std::io::Read::read_to_end(&mut decoder, &mut out) {
        Ok(_) => Ok(out),
        Err(e) => Err(Error::Parse(e.to_string())),
    }
}

/// The entries the zip crate decodes from an archive payload, in index
/// order: each one's recorded name, sanitized extraction path, recorded
/// permission bits, and decompressed content. A function of the payload
/// bytes alone.
pub uninterp spec fn zip_entries_of(data: Seq<u8>) -> Seq<ZipEntryView>;

/// Whether the zip crate decodes the payload completely: the central
/// directory is read and every entry opens and decompresses. A function
/// of the payload bytes alone.
pub uninterp spec fn zip_payload_wf(data: Seq<u8>) -> bool;

/// Relies on zip::ZipArchive::new, ZipArchive::by_index and
/// zip::read::ZipFile::name: the recorded name of every entry, in order;
/// a trailing slash marks a directory entry. The walk succeeds on every
/// completely decodable payload and fails with a parse error otherwise.
#[verifier::external_body]
fn zip_entry_names(data: &Vec<u8>) -> (r: Result<Vec<String>, Error>)
    ensures
        zip_payload_wf(data@) ==> r is Ok,
        r is Ok ==> r->Ok_0@.len() == zip_entries_of(data@).len(),
        r is Ok ==> forall|k: int|
            0 <= k < r->Ok_0@.len() ==> (#[trigger] r->Ok_0@[k])@ == zip_entries_of(data@)[k].name,
        r is Err ==> r->Err_0 is Parse,
{
    let mut archive = match zip::read::ZipArchive::new(std::io::Cursor::new(data.as_slice())) {
        Ok(a) => a,
        Err(e) => return Err(Error::Parse(e.to_string())),
    };
    let mut out: Vec<String> = Vec::new();
    for i in 0..archive.len() {
        match archive.by_index(i) {
            Ok(f) => out.push(f.name().to_owned()),
            Err(e) => return Err(Error::Parse(e.to_string())),
        }
    }
    Ok(out)
}

/// Relies on zip::read::ZipFile::mangled_name (through ZipArchive::new
/// and by_index): every entry's sanitized extraction path, in order. The
/// zip crate keeps only normal path components, so the result never
/// begins with a separator and holds no `..` component.
#[verifier::external_body]
fn zip_entry_mangled_paths(data: &Vec<u8>) -> (r: Result<Vec<String>, Error>)
    ensures
        zip_payload_wf(data@) ==> r is Ok,
        r is Ok ==> r->Ok_0@.len() == zip_entries_of(data@).len(),
        r is Ok ==> forall|k: int|
            0 <= k < r->Ok_0@.len() ==> (#[trigger] r->Ok_0@[k])@ == zip_entries_of(
                data@,
            )[k].mangled_path && stays_within_destination(r->Ok_0@[k]@),
        r is Err ==> r->Err_0 is Parse,
{
    let mut archive = match zip::read::ZipArchive::new(std::io::Cursor::new(data.as_slice())) {
        Ok(a) => a,
        Err(e) => return Err(Error::Parse(e.to_string())),
    };
    let mut out: Vec<String> = Vec::new();
    for i in 0..archive.len() {
        match archive.by_index(i) {
            Ok(f) => out.push(f.mangled_name().to_string_lossy().into_owned()),
            Err(e) => return Err(Error::Parse(e.to_string())),
        }
    }
    Ok(out)
}

/// Relies on zip::read::ZipFile::unix_mode (through ZipArchive::new and
/// by_index): every entry's recorded POSIX permission bits, in order.
#[verifier::external_body]
fn zip_entry_modes(data: &Vec<u8>) -> (r: Result<Vec<Option<u32>>, Error>)
    ensures
        zip_payload_wf(data@) ==> r is Ok,
        r is Ok ==> r->Ok_0@.len() == zip_entries_of(data@).len(),
        r is Ok ==> forall|k: int|
            0 <= k < r->Ok_0@.len() ==> (#[trigger] r->Ok_0@[k]) == zip_entries_of(
                data@,
            )[k].unix_mode,
        r is Err ==> r->Err_0 is Parse,
{
    let mut archive = match zip::read::ZipArchive::new(std::io::Cursor::new(data.as_slice())) {
        Ok(a) => a,
        Err(e) => return Err(Error::Parse(e.to_string())),
    };
    let mut out: Vec<Option<u32>> = Vec::new();
    for i in 0..archive.len() {
        match archive.by_index(i) {
            Ok(f) => out.push(f.unix_mode()),
            Err(e) => return Err(Error::Parse(e.to_string())),
        }
    }
    Ok(out)
}

/// Relies on std's Read::read_to_end through zip::read::ZipFile (opened
/// with ZipArchive::new and by_index): every entry's decompressed
/// content, in order. This walk decompresses everything, so it succeeds
/// exactly on completely decodable payloads.
#[verifier::external_body]
fn zip_entry_contents(data: &Vec<u8>) -> (r: Result<Vec<Vec<u8>>, Error>)
    ensures
        r is Ok <==> zip_payload_wf(data@),
        r is Ok ==> r->Ok_0@.len() == zip_entries_of(data@).len(),
        r is Ok ==> forall|k: int|
            0 <= k < r->Ok_0@.len() ==> (#[trigger] r->Ok_0@[k])@ == zip_entries_of(data@)[k].data,
        r is Err ==> r->Err_0 is Parse,
{
    let mut archive = match zip::read::ZipArchive::new(std::io::Cursor::new(data.as_slice())) {
        Ok(a) => a,
        Err(e) => return Err(Error::Parse(e.to_string())),
    };
    let mut out: Vec<Vec<u8>> = Vec::new();
    for i in 0..archive.len() {
        let mut f = match archive.by_index(i) { Ok(f) => f, Err(e) => return Err(Error::Parse(e.to_string())) };
        let mut content: Vec<u8> = Vec::new();
        match std::io::Read::read_to_end(&mut f, &mut content) {
            Ok(_) => out.push(content),
            Err(e) => return Err(Error::Parse(e.to_string())),
        }
    }
    Ok(out)
}

/// The entries the tar crate decodes from an archive, in order: each
/// one's recorded path, classification, link target, permission bits and
/// content. A function of the archive bytes alone.
pub uninterp spec fn tar_entries_of(data: Seq<u8>) -> Seq<TarEntryView>;

/// Whether the tar crate decodes the archive completely, contents
/// included. A function of the archive bytes alone.
pub uninterp spec fn tar_payload_wf(data: Seq<u8>) -> bool;

/// Relies on tar::Archive::entries and tar::Entry::path: the recorded
/// path of every entry of the archive, in order. The walk succeeds on
/// every completely decodable archive and fails with a parse error
/// otherwise.
#[verifier::external_body]
fn tar_entry_paths(data: &Vec<u8>) -> (r: Result<Vec<String>, Error>)
    ensures
        tar_payload_wf(data@) ==> r is Ok,
        r is Ok ==> r->Ok_0@.len() == tar_entries_of(data@).len(),
        r is Ok ==> forall|k: int|
            0 <= k < r->Ok_0@.len() ==> (#[trigger] r->Ok_0@[k])@ == tar_entries_of(data@)[k].path,
        r is Err ==> r->Err_0 is Parse,
{
    let mut archive = tar::Archive::new(data.as_slice());
    let it = match archive.entries() { Ok(it) => it, Err(e) => return Err(Error::Parse(e.to_string())) };
    let mut out: Vec<String> = Vec::new();
    for entry in it {
        let entry = match entry { Ok(en) => en, Err(e) => return Err(Error::Parse(e.to_string())) };
        match entry.path() {
            Ok(p) => out.push(p.to_string_lossy().into_owned()),
            Err(e) => return Err(Error::Parse(e.to_string())),
        }
    }
    Ok(out)
}

/// Relies on tar::Header::entry_type through tar::Archive::entries: each
/// entry's classification, in order — directory and symlink entries are
/// told apart, every other entry type unpacks as a regular file.
#[verifier::external_body]
fn tar_entry_kinds(data: &Vec<u8>) -> (r: Result<Vec<TarEntryKind>, Error>)
    ensures
        tar_payload_wf(data@) ==> r is Ok,
        r is Ok ==> r->Ok_0@.len() == tar_entries_of(data@).len(),
        r is Ok ==> forall|k: int|
            0 <= k < r->Ok_0@.len() ==> (#[trigger] r->Ok_0@[k]) == tar_entries_of(data@)[k].kind,
        r is Err ==> r->Err_0 is Parse,
{
    let mut archive = tar::Archive::new(data.as_slice());
    let it = match archive.entries() { Ok(it) => it, Err(e) => return Err(Error::Parse(e.to_string())) };
    let mut out: Vec<TarEntryKind> = Vec::new();
    for entry in it {
        let entry = match entry { Ok(en) => en, Err(e) => return Err(Error::Parse(e.to_string())) };
        out.push(match entry.header().entry_type() {
            tar::EntryType::Directory => TarEntryKind::Directory,
            tar::EntryType::Symlink => TarEntryKind::Symlink,
            _ => TarEntryKind::File,
        });
    }
    Ok(out)
}

/// Relies on tar::Entry::link_name through tar::Archive::entries: each
/// entry's link target, in order; `None` when absent or unreadable (such
/// a symlink entry is skipped).
#[verifier::external_body]
fn tar_entry_links(data: &Vec<u8>) -> (r: Result<Vec<Option<String>>, Error>)
    ensures
        tar_payload_wf(data@) ==> r is Ok,
        r is Ok ==> r->Ok_0@.len() == tar_entries_of(data@).len(),
        r is Ok ==> forall|k: int|
            0 <= k < r->Ok_0@.len() ==> (#[trigger] opt_str_view(r->Ok_0@[k])) == tar_entries_of(
                data@,
            )[k].link_target,
        r is Err ==> r->Err_0 is Parse,
{
    let mut archive = tar::Archive::new(data.as_slice());
    let it = match archive.entries() { Ok(it) => it, Err(e) => return Err(Error::Parse(e.to_string())) };
    let mut out: Vec<Option<String>> = Vec::new();
    for entry in it {
        let entry = match entry { Ok(en) => en, Err(e) => return Err(Error::Parse(e.to_string())) };
        out.push(entry.link_name().ok().flatten().map(|p| p.to_string_lossy().into_owned()));
    }
    Ok(out)
}

/// Relies on tar::Header::mode through tar::Archive::entries: each
/// entry's recorded permission bits, in order; `None` when the recorded
/// mode is unreadable (such bits are simply not restored).
#[verifier::external_body]
fn tar_entry_modes(data: &Vec<u8>) -> (r: Result<Vec<Option<u32>>, Error>)
    ensures
        tar_payload_wf(data@) ==> r is Ok,
        r is Ok ==> r->Ok_0@.len() == tar_entries_of(data@).len(),
        r is Ok ==> forall|k: int|
            0 <= k < r->Ok_0@.len() ==> (#[trigger] r->Ok_0@[k]) == tar_entries_of(
                data@,
            )[k].unix_mode,
        r is Err ==> r->Err_0 is Parse,
{
    let mut archive = tar::Archive::new(data.as_slice());
    let it = match archive.entries() { Ok(it) => it, Err(e) => return Err(Error::Parse(e.to_string())) };
    let mut out: Vec<Option<u32>> = Vec::new();
    for entry in it {
        let entry = match entry { Ok(en) => en, Err(e) => return Err(Error::Parse(e.to_string())) };
        out.push(entry.header().mode().ok());
    }
    Ok(out)
}

/// Relies on std's Read::read_to_end through tar::Archive::entries: each
/// entry's content, in order. This walk reads everything, so it succeeds
/// exactly on completely decodable archives.
#[verifier::external_body]
fn tar_entry_contents(data: &Vec<u8>) -> (r: Result<Vec<Vec<u8>>, Error>)
    ensures
        r is Ok <==> tar_payload_wf(data@),
        r is Ok ==> r->Ok_0@.len() == tar_entries_of(data@).len(),
        r is Ok ==> forall|k: int|
            0 <= k < r->Ok_0@.len() ==> (#[trigger] r->Ok_0@[k])@ == tar_entries_of(data@)[k].data,
        r is Err ==> r->Err_0 is Parse,
{
    let mut archive = tar::Archive::new(data.as_slice());
    let it = match archive.entries() { Ok(it) => it, Err(e) => return Err(Error::Parse(e.to_string())) };
    let mut out: Vec<Vec<u8>> = Vec::new();
    for entry in it {
        let mut entry = match entry { Ok(en) => en, Err(e) => return Err(Error::Parse(e.to_string())) };
        let mut content: Vec<u8> = Vec::new();
        match std::io::Read::read_to_end(&mut entry, &mut content) {
            Ok(_) => out.push(content),
            Err(e) => return Err(Error::Parse(e.to_string())),
        }
    }
    Ok(out)
}

/// Decode every entry of a tar archive into plain values, combining the
/// per-entry fields the decoder hands back. Succeeds exactly on
/// completely decodable archives and returns exactly the decoded entries.
fn read_tar_entries(data: &Vec<u8>) -> (r: Result<Vec<TarEntry>, Error>)
    ensures
        r is Ok <==> tar_payload_wf(data@),
        r is Ok ==> tar_entries_view(r->Ok_0@) == tar_entries_of(data@),
        r is Err ==> r->Err_0 is Parse,
{
    let mut paths = match tar_entry_paths(data) {
        Ok(v) => v,
        Err(e) => {
            return Err(e);
        },
    };
    let mut kinds = match tar_entry_kinds(data) {
        Ok(v) => v,
        Err(e) => {
            return Err(e);
        },
    };
    let mut links = match tar_entry_links(data) {
        Ok(v) => v,
        Err(e) => {
            return Err(e);
        },
    };
    let mut modes = match tar_entry_modes(data) {
        Ok(v) => v,
        Err(e) => {
            return Err(e);
        },
    };
    let mut contents = match tar_entry_contents(data) {
        Ok(v) => v,
        Err(e) => {
            return Err(e);
        },
    };
    let ghost es = tar_entries_of(data@);
    let mut out: Vec<TarEntry> = Vec::new();
    let ghost mut i: int = 0;
    proof {
        assert(tar_entries_view(out@) =~= es.take(0));
    }
    while paths.len() > 0
        invariant
            0 <= i <= es.len(),
            es == tar_entries_of(data@),
            paths@.len() == es.len() - i,
            kinds@.len() == paths@.len(),
            links@.len() == paths@.len(),
            modes@.len() == paths@.len(),
            contents@.len() == paths@.len(),
            forall|k: int| 0 <= k < paths@.len() ==> (#[trigger] paths@[k])@ == es[i + k].path,
            forall|k: int| 0 <= k < paths@.len() ==> (#[trigger] kinds@[k]) == es[i + k].kind,
            forall|k: int|
                0 <= k < paths@.len() ==> (#[trigger] opt_str_view(links@[k])) == es[i
                    + k].link_target,
            forall|k: int| 0 <= k < paths@.len() ==> (#[trigger] modes@[k]) == es[i + k].unix_mode,
            forall|k: int| 0 <= k < paths@.len() ==> (#[trigger] contents@[k])@ == es[i + k].data,
            tar_entries_view(out@) == es.take(i),
        decreases paths@.len(),
    {
        let ghost paths0 = paths@;
        let ghost kinds0 = kinds@;
        let ghost links0 = links@;
        let ghost modes0 = modes@;
        let ghost contents0 = contents@;
        let path = paths.remove(0);
        let kind = kinds.remove(0);
        let link_target = links.remove(0);
        let unix_mode = modes.remove(0);
        let content = contents.remove(0);
        let entry = TarEntry { path, link_target, kind, unix_mode, data: content };
        proof {
            assert(paths@ =~= paths0.skip(1));
            assert(kinds@ =~= kinds0.skip(1));
            assert(links@ =~= links0.skip(1));
            assert(modes@ =~= modes0.skip(1));
            assert(contents@ =~= contents0.skip(1));
            assert(entry@ =~= es[i]);
        }
        let ghost out0 = out@;
        out.push(entry);
        proof {
            assert(es.take(i + 1) =~= es.take(i).push(es[i]));
            assert(tar_entries_view(out@) =~= es.take(i + 1));
            assert forall|k: int| 0 <= k < paths@.len() implies (#[trigger] paths@[k])@ == es[i + 1
                + k].path by {
                assert(paths@[k] == paths0[k + 1]);
            }
            assert forall|k: int| 0 <= k < paths@.len() implies (#[trigger] kinds@[k]) == es[i + 1
                + k].kind by {
                assert(kinds@[k] == kinds0[k + 1]);
            }
            assert forall|k: int| 0 <= k < paths@.len() implies (#[trigger] opt_str_view(
                links@[k],
            )) == es[i + 1 + k].link_target by {
                assert(links@[k] == links0[k + 1]);
            }
            assert forall|k: int| 0 <= k < paths@.len() implies (#[trigger] modes@[k]) == es[i + 1
                + k].unix_mode by {
                assert(modes@[k] == modes0[k + 1]);
            }
            assert forall|k: int| 0 <= k < paths@.len() implies (#[trigger] contents@[k])@ == es[i
                + 1 + k].data by {
                assert(contents@[k] == contents0[k + 1]);
            }
            i = i + 1;
        }
    }
    proof {
        assert(es.take(i) =~= es);
    }
    Ok(out)
}

/// Decode every entry of a zip archive into plain values, combining the
/// per-entry fields the decoder hands back. Succeeds exactly on
/// completely decodable payloads and returns exactly the decoded entries,
/// whose sanitized paths stay within the destination.
fn read_zip_entries(data: &Vec<u8>) -> (r: Result<Vec<ZipEntry>, Error>)
    ensures
        r is Ok <==> zip_payload_wf(data@),
        r is Ok ==> zip_entries_view(r->Ok_0@) == zip_entries_of(data@),
        r is Ok ==> forall|k: int|
            0 <= k < r->Ok_0@.len() ==> stays_within_destination(
                (#[trigger] zip_entries_view(r->Ok_0@)[k]).mangled_path,
            ),
        r is Err ==> r->Err_0 is Parse,
{
    let mut names = match zip_entry_names(data) {
        Ok(v) => v,
        Err(e) => {
            return Err(e);
        },
    };
    let mut mangleds = match zip_entry_mangled_paths(data) {
        Ok(v) => v,
        Err(e) => {
            return Err(e);
        },
    };
    let mut modes = match zip_entry_modes(data) {
        Ok(v) => v,
        Err(e) => {
            return Err(e);
        },
    };
    let mut contents = match zip_entry_contents(data) {
        Ok(v) => v,
        Err(e) => {
            return Err(e);
        },
    };
    let ghost es = zip_entries_of(data@);
    proof {
        assert forall|k: int| 0 <= k < es.len() implies stays_within_destination(
            (#[trigger] es[k]).mangled_path,
        ) by {
            assert(mangleds@[k]@ == es[k].mangled_path);
            assert(stays_within_destination(mangleds@[k]@));
        }
    }
    let mut out: Vec<ZipEntry> = Vec::new();
    let ghost mut i: int = 0;
    proof {
        assert(zip_entries_view(out@) =~= es.take(0));
    }
    while names.len() > 0
        invariant
            0 <= i <= es.len(),
            es == zip_entries_of(data@),
            names@.len() == es.len() - i,
            mangleds@.len() == names@.len(),
            modes@.len() == names@.len(),
            contents@.len() == names@.len(),
            forall|k: int| 0 <= k < names@.len() ==> (#[trigger] names@[k])@ == es[i + k].name,
            forall|k: int|
                0 <= k < names@.len() ==> (#[trigger] mangleds@[k])@ == es[i + k].mangled_path,
            forall|k: int| 0 <= k < names@.len() ==> (#[trigger] modes@[k]) == es[i + k].unix_mode,
            forall|k: int| 0 <= k < names@.len() ==> (#[trigger] contents@[k])@ == es[i + k].data,
            zip_entries_view(out@) == es.take(i),
        decreases names@.len(),
    {
        let ghost names0 = names@;
        let ghost mangleds0 = mangleds@;
        let ghost modes0 = modes@;
        let ghost contents0 = contents@;
        let name = names.remove(0);
        let mangled_path = mangleds.remove(0);
        let unix_mode = modes.remove(0);
        let content = contents.remove(0);
        let entry = ZipEntry { name, mangled_path, unix_mode, data: content };
        proof {
            assert(names@ =~= names0.skip(1));
            assert(mangleds@ =~= mangleds0.skip(1));
            assert(modes@ =~= modes0.skip(1));
            assert(contents@ =~= contents0.skip(1));
            assert(entry@ =~= es[i]);
        }
        let ghost out0 = out@;
        out.push(entry);
        proof {
            assert(es.take(i + 1) =~= es.take(i).push(es[i]));
            assert(zip_entries_view(out@) =~= es.take(i + 1));
            assert forall|k: int| 0 <= k < names@.len() implies (#[trigger] names@[k])@ == es[i + 1
                + k].name by {
                assert(names@[k] == names0[k + 1]);
            }
            assert forall|k: int| 0 <= k < names@.len() implies (#[trigger] mangleds@[k])@ == es[i
                + 1 + k].mangled_path by {
                assert(mangleds@[k] == mangleds0[k + 1]);
            }
            assert forall|k: int| 0 <= k < names@.len() implies (#[trigger] modes@[k]) == es[i + 1
                + k].unix_mode by {
                assert(modes@[k] == modes0[k + 1]);
            }
            assert forall|k: int| 0 <= k < names@.len() implies (#[trigger] contents@[k])@ == es[i
                + 1 + k].data by {
                assert(contents@[k] == contents0[k + 1]);
            }
            i = i + 1;
        }
    }
    proof {
        assert(es.take(i) =~= es);
    }
    Ok(out)
}

/// Decode a zip payload and plan its extraction: succeeds exactly on
/// completely decodable payloads, the plan is exactly
/// [`plan_zip_spec`] of the decoded entries, no planned path can escape
/// the destination, and failure is a parse error.
pub fn extract_zip_archive(payload: &Vec<u8>) -> (r: Result<Vec<FsAction>, Error>)
    ensures
        r is Ok <==> zip_payload_wf(payload@),
        r is Ok ==> actions_view(r->Ok_0@) == plan_zip_spec(zip_entries_of(payload@)),
        r is Ok ==> forall|k: int|
            0 <= k < r->Ok_0@.len() ==> stays_within_destination(
                action_path(#[trigger] actions_view(r->Ok_0@)[k]),
            ),
        r is Err ==> r->Err_0 is Parse,
{
    let entries = match read_zip_entries(payload) {
        Ok(e) => e,
        Err(e) => {
            return Err(e);
        },
    };
    let ghost es = zip_entries_view(entries@);
    let actions = plan_zip_entries(entries);
    proof {
        lemma_plan_zip_paths(es);
        assert forall|k: int| 0 <= k < actions@.len() implies stays_within_destination(
            action_path(#[trigger] actions_view(actions@)[k]),
        ) by {
            assert(actions_view(actions@)[k] == plan_zip_spec(es)[k]);
        }
    }
    Ok(actions)
}

/// Inflate a tar+gzip payload, decode it, and plan its extraction with
/// the top-level directory stripped: succeeds exactly when the payload is
/// well-formed gzip whose inflation decodes completely as tar, the plan
/// is exactly [`plan_tar_spec`] of the decoded entries, and failure is a
/// parse error.
pub fn extract_tar_gz_archive(payload: &Vec<u8>) -> (r: Result<Vec<FsAction>, Error>)
    ensures
        r is Ok <==> gzip_wf(payload@) && tar_payload_wf(gunzip_of(payload@)),
        r is Ok ==> actions_view(r->Ok_0@) == plan_tar_spec(tar_entries_of(gunzip_of(payload@))),
        r is Err ==> r->Err_0 is Parse,
{
    let tar_bytes = match gunzip(payload) {
        Ok(b) => b,
        Err(e) => {
            return Err(e);
        },
    };
    let entries = match read_tar_entries(&tar_bytes) {
        Ok(e) => e,
        Err(e) => {
            return Err(e);
        },
    };
    let actions = plan_tar_entries(entries);
    Ok(actions)
}

/// What each entry contributes to a tar plan: top-level stripping decides
/// everything, and an entry stripped to nothing — the top-level directory
/// entry itself, or a bare top-level file — produces no filesystem object.
pub proof fn lemma_tar_top_level_stripping(e: TarEntryView)
    ensures
        strip_top_level_spec(e.path).len() == 0 ==> tar_entry_actions(e) == Seq::<
            FsActionView,
        >::empty(),
        strip_top_level_spec(e.path).len() > 0 && e.kind is File ==> tar_entry_actions(e) == seq![
            FsActionView::WriteFile {
                path: strip_top_level_spec(e.path),
                data: e.data,
                unix_mode: e.unix_mode,
            },
        ],
        strip_top_level_spec(e.path).len() > 0 && e.kind is Directory ==> tar_entry_actions(e)
            == seq![FsActionView::MakeDir { path: strip_top_level_spec(e.path) }],
{
}

} // verus!
