//! Bundle synchronisation for the desktop client: which build output holds the
//! newest version of a package, which files of a platform directory are stale,
//! and which files a sync copies where. The directory walks and file copies
//! themselves are done by the caller, which hands their results in here.
use vstd::prelude::*;
use crate::text::{
    chars_have_prefix_at, chars_of, concat, ends_with, has_prefix, has_suffix, owned, split_chars,
    split_parts, starts_with, str_eq, string_from_chars, trim, trim_spec,
};
use crate::paths::{join, join_path, result_view};
use crate::remote::config::opt_view;
use crate::order::{Duplicate, arranged, keys_view, sort_by_keys};
use crate::remote::storage::{lemma_total_monotone, newest_first_key, total_of};

verus! {

/// The outcome of synchronising one platform.
#[derive(Debug)]
pub struct SyncResult {
    /// Whether the sync took place.
    pub success: bool,
    /// What happened, for the log.
    pub message: String,
    /// The bundle version synchronised or asked for.
    pub version: Option<String>,
    /// The names of the files copied into the platform directory.
    pub synced_files: Vec<String>,
}

/// A bundle version found in the build output.
#[derive(Debug)]
pub struct VersionEntry {
    /// The version, which is the name of its directory.
    pub version: String,
    /// When the directory was last modified, in seconds since the Unix epoch.
    pub modified_timestamp: u64,
    /// How many files the directory holds.
    pub file_count: u32,
    /// The total size of those files in bytes.
    pub total_size: u64,
}

impl Duplicate for VersionEntry {
    fn duplicate(&self) -> (r: Self) {
        VersionEntry {
            version: self.version.clone(),
            modified_timestamp: self.modified_timestamp,
            file_count: self.file_count,
            total_size: self.total_size,
        }
    }
}

/// What a syncer is set up with.
pub ghost struct SyncerView {
    /// The root of the build output.
    pub bundles_dir: Seq<char>,
    /// The YooAsset package name.
    pub package_name: Seq<char>,
    /// The platform synchronised.
    pub platform: Seq<char>,
}

/// Synchronises the bundles of one package on one platform.
#[derive(Debug)]
pub struct ResourceSyncer {
    bundles_dir: String,
    package_name: String,
    platform: String,
}

impl View for ResourceSyncer {
    type V = SyncerView;

    closed spec fn view(&self) -> SyncerView {
        SyncerView {
            bundles_dir: self.bundles_dir@,
            package_name: self.package_name@,
            platform: self.platform@,
        }
    }
}

/// The platform's directory: the build root joined with the platform.
pub open spec fn platform_dir_of(s: SyncerView) -> Seq<char> {
    join_path(s.bundles_dir, s.platform)
}

/// The package's directory within the platform's directory.
pub open spec fn package_dir_of(s: SyncerView) -> Seq<char> {
    join_path(platform_dir_of(s), s.package_name)
}

/// The name of the package's version file, `{package}.version`.
pub open spec fn version_file_name_of(s: SyncerView) -> Seq<char> {
    s.package_name + ".version"@
}

/// The part of `path` below the package directory `pkg`.
pub open spec fn below_package(pkg: Seq<char>, path: Seq<char>) -> Seq<char> {
    if has_prefix(path, pkg) {
        path.skip(pkg.len() as int)
    } else {
        path
    }
}

/// An entry that lies inside a directory that is never synchronised: one of
/// the directories between the package directory `pkg` and the entry is
/// named `OutputCache`, `Simulate` or `_server_root`.
pub open spec fn in_excluded_dir(pkg: Seq<char>, path: Seq<char>) -> bool {
    let parts = split_parts(below_package(pkg, path), '/');
    exists|i: int| 0 <= i < parts.len() - 1 && is_excluded_name(#[trigger] parts[i])
}

/// A directory name that is never a bundle version.
pub open spec fn is_excluded_name(name: Seq<char>) -> bool {
    name == "OutputCache"@ || name == "Simulate"@ || name == "_server_root"@
}

/// One entry met while walking the package's directory.
#[derive(Debug)]
pub struct WalkEntry {
    /// The entry's full path.
    pub path: String,
    /// The directory that holds the entry.
    pub dir: String,
    /// The entry's own name.
    pub name: String,
    /// Whether the entry is a regular file.
    pub is_file: bool,
    /// When the entry was last modified: seconds since the Unix epoch, then
    /// nanoseconds; the epoch where the time cannot be read.
    pub modified: (u64, u32),
}

/// `a` is no later than `b`.
pub open spec fn time_le(a: (u64, u32), b: (u64, u32)) -> bool {
    a.0 < b.0 || (a.0 == b.0 && a.1 <= b.1)
}

/// Whether `name` is one of the excluded directory names.
fn excluded_name(name: &[char]) -> (r: bool)
    ensures
        r == is_excluded_name(name@),
{
    let s = string_from_chars(name);
    str_eq(s.as_str(), "OutputCache") || str_eq(s.as_str(), "Simulate") || str_eq(s.as_str(), "_server_root")
}

/// Whether the entry at `path` lies inside an excluded directory below the
/// package directory `pkg`.
fn inside_excluded_dir(pkg: &str, path: &str) -> (r: bool)
    ensures
        r == in_excluded_dir(pkg@, path@),
{
    let v = chars_of(path);
    let pv = chars_of(pkg);
    let start: usize = if chars_have_prefix_at(v.as_slice(), 0, pv.as_slice()) { pv.len() } else { 0 };
    let rest = &v.as_slice()[start..v.len()];
    proof {
        assert(rest@ == below_package(pkg@, path@));
    }
    let parts = split_chars(rest, '/');
    let ghost ps = split_parts(rest@, '/');
    proof {
        crate::text::lemma_split_parts_nonempty(rest@, '/');
    }
    let last = parts.len() - 1;
    let mut i: usize = 0;
    while i < last
        invariant
            parts@.map_values(|x: Vec<char>| x@) == ps,
            last == parts@.len() - 1,
            ps == split_parts(below_package(pkg@, path@), '/'),
            i <= parts@.len(),
            forall|j: int| 0 <= j < i ==> !is_excluded_name(#[trigger] ps[j]),
        decreases parts.len() - i,
    {
        assert(ps[i as int] == parts@[i as int]@);
        if excluded_name(parts[i].as_slice()) {
            return true;
        }
        i = i + 1;
    }
    false
}

impl ResourceSyncer {
    /// A syncer for `package_name` on `platform` under the build root `bundles_dir`.
    pub fn new(bundles_dir: &str, package_name: &str, platform: &str) -> (r: Self)
        ensures
            r@ == (SyncerView { bundles_dir: bundles_dir@, package_name: package_name@, platform: platform@ }),
    {
        ResourceSyncer { bundles_dir: owned(bundles_dir), package_name: owned(package_name), platform: owned(platform) }
    }

    /// The platform's directory.
    pub fn platform_dir(&self) -> (r: String)
        ensures
            r@ == platform_dir_of(self@),
    {
        join(self.bundles_dir.as_str(), self.platform.as_str())
    }

    /// The package's directory, where the build output of each version lies.
    pub fn package_dir(&self) -> (r: String)
        ensures
            r@ == package_dir_of(self@),
    {
        let p = self.platform_dir();
        join(p.as_str(), self.package_name.as_str())
    }

    /// The name of the package's version file.
    pub fn version_file_name(&self) -> (r: String)
        ensures
            r@ == version_file_name_of(self@),
    {
        concat(self.package_name.as_str(), ".version")
    }

    /// `e` is a version file of the package, a regular file that does not lie
    /// inside an excluded directory.
    pub open spec fn is_candidate(&self, e: WalkEntry) -> bool {
        !in_excluded_dir(package_dir_of(self@), e.path@) && e.is_file && e.name@ == version_file_name_of(
            self@,
        )
    }

    /// `i` is the newest version file among `es`; among equally new ones, the
    /// last walked.
    pub open spec fn is_latest(&self, es: Seq<WalkEntry>, i: int) -> bool {
        &&& 0 <= i < es.len()
        &&& self.is_candidate(es[i])
        &&& forall|j: int| 0 <= j < es.len() && #[trigger] self.is_candidate(es[j]) ==> time_le(es[j].modified, es[i].modified)
        &&& forall|j: int| i < j < es.len() && #[trigger] self.is_candidate(es[j]) ==> !time_le(es[i].modified, es[j].modified)
    }

    fn candidate(&self, e: &WalkEntry, name: &str, pkg: &str) -> (r: bool)
        requires
            name@ == version_file_name_of(self@),
            pkg@ == package_dir_of(self@),
        ensures
            r == self.is_candidate(*e),
    {
        if !e.is_file || !str_eq(e.name.as_str(), name) {
            return false;
        }
        !inside_excluded_dir(pkg, e.path.as_str())
    }

    /// The position of the newest version file among the walked entries.
    pub fn latest_index(&self, entries: &Vec<WalkEntry>) -> (r: Option<usize>)
        ensures
            match r {
                Some(i) => self.is_latest(entries@, i as int),
                None => forall|j: int| 0 <= j < entries@.len() ==> !#[trigger] self.is_candidate(entries@[j]),
            },
    {
        let name = self.version_file_name();
        let pkg = self.package_dir();
        let mut best: Option<usize> = None;
        let mut k: usize = 0;
        while k < entries.len()
            invariant
                name@ == version_file_name_of(self@),
                pkg@ == package_dir_of(self@),
                k <= entries.len(),
                match best {
                    Some(i) => self.is_latest(entries@.subrange(0, k as int), i as int),
                    None => forall|j: int| 0 <= j < k ==> !#[trigger] self.is_candidate(entries@[j]),
                },
            decreases entries.len() - k,
        {
            let ghost prefix = entries@.subrange(0, k as int);
            let ghost next = entries@.subrange(0, k + 1);
            if self.candidate(&entries[k], name.as_str(), pkg.as_str()) {
                let take = match best {
                    None => true,
                    Some(i) => {
                        let a = entries[i].modified;
                        let b = entries[k].modified;
                        a.0 < b.0 || (a.0 == b.0 && a.1 <= b.1)
                    },
                };
                if take {
                    proof {
                        assert forall|j: int| 0 <= j < next.len() && #[trigger] self.is_candidate(next[j]) implies time_le(next[j].modified, next[k as int].modified) by {
                            if j < k {
                                assert(prefix[j] == next[j]);
                                if let Some(i) = best {
                                    assert(prefix[i as int] == next[i as int]);
                                    assert(self.is_candidate(prefix[j]));
                                } else {
                                    assert(!self.is_candidate(entries@[j]));
                                }
                            }
                        }
                    }
                    best = Some(k);
                } else {
                    proof {
                        let i = best->0 as int;
                        assert(prefix[i] == next[i]);
                        assert forall|j: int| 0 <= j < next.len() && #[trigger] self.is_candidate(next[j]) implies time_le(next[j].modified, next[i].modified) by {
                            if j < k {
                                assert(prefix[j] == next[j]);
                                assert(self.is_candidate(prefix[j]));
                            }
                        }
                        assert forall|j: int| i < j < next.len() && #[trigger] self.is_candidate(next[j]) implies !time_le(next[i].modified, next[j].modified) by {
                            if j < k {
                                assert(prefix[j] == next[j]);
                                assert(self.is_candidate(prefix[j]));
                            }
                        }
                    }
                }
            } else {
                proof {
                    if let Some(i) = best {
                        assert(prefix[i as int] == next[i as int]);
                        assert forall|j: int| 0 <= j < next.len() && #[trigger] self.is_candidate(next[j]) implies time_le(next[j].modified, next[i as int].modified) by {
                            if j < k {
                                assert(prefix[j] == next[j]);
                                assert(self.is_candidate(prefix[j]));
                            }
                        }
                        assert forall|j: int| i < j < next.len() && #[trigger] self.is_candidate(next[j]) implies !time_le(next[i as int].modified, next[j].modified) by {
                            if j < k {
                                assert(prefix[j] == next[j]);
                                assert(self.is_candidate(prefix[j]));
                            }
                        }
                    }
                }
            }
            k = k + 1;
        }
        proof {
            assert(entries@.subrange(0, entries.len() as int) =~= entries@);
        }
        best
    }
}

/// The message for a version file that could not be read.
pub open spec fn read_failure_message(err: Seq<char>) -> Seq<char> {
    "读取版本文件失败: "@ + err
}

/// The version a read of a version file gives: its text without surrounding
/// white space, or nothing where the file was absent or could not be read.
pub open spec fn version_read(read: Option<Result<String, String>>) -> Option<Seq<char>> {
    match read {
        Some(Ok(text)) => Some(trim_spec(text@)),
        _ => None,
    }
}

/// A directory met in the package's directory, as listed for `list_versions`.
#[derive(Debug)]
pub struct VersionDir {
    /// The directory's name.
    pub name: String,
    /// Whether the entry is a directory at all.
    pub is_dir: bool,
    /// Whether it holds the package's version file.
    pub has_version_file: bool,
    /// When it was last modified, in seconds since the Unix epoch (0 where the
    /// time cannot be read).
    pub modified: u64,
    /// The size in bytes of each regular file directly inside it.
    pub file_sizes: Vec<u64>,
}

/// `d` is listed as a bundle version.
pub open spec fn is_version_dir(d: VersionDir) -> bool {
    !is_excluded_name(d.name@) && d.is_dir && d.has_version_file
}

/// The counts of `d` fit the listing's integer types.
pub open spec fn fits_listing(d: VersionDir) -> bool {
    d.file_sizes@.len() <= u32::MAX && total_of(d.file_sizes@) <= u64::MAX
}

/// The entry that lists `d`.
pub open spec fn entry_of(d: VersionDir, e: VersionEntry) -> bool {
    &&& e.version@ == d.name@
    &&& e.modified_timestamp == d.modified
    &&& e.file_count == d.file_sizes@.len()
    &&& e.total_size == total_of(d.file_sizes@)
}

/// The keys that order local bundle versions newest first.
pub open spec fn local_version_keys(v: Seq<VersionEntry>) -> Seq<Seq<u64>> {
    v.map_values(|e: VersionEntry| newest_first_key(e.modified_timestamp))
}

proof fn lemma_total_step(s: Seq<u64>, k: int)
    requires
        0 <= k < s.len(),
    ensures
        total_of(s.subrange(0, k + 1)) == total_of(s.subrange(0, k)) + s[k],
{
    assert(s.subrange(0, k + 1).drop_last() =~= s.subrange(0, k));
}

/// The entry listing the bundle version in `d`.
fn version_entry_of(d: &VersionDir) -> (e: VersionEntry)
    requires
        fits_listing(*d),
    ensures
        entry_of(*d, e),
{
    let mut sum: u64 = 0;
    let mut i: usize = 0;
    while i < d.file_sizes.len()
        invariant
            i <= d.file_sizes@.len(),
            sum == total_of(d.file_sizes@.subrange(0, i as int)),
            total_of(d.file_sizes@) <= u64::MAX,
        decreases d.file_sizes.len() - i,
    {
        proof {
            lemma_total_step(d.file_sizes@, i as int);
            lemma_total_monotone(d.file_sizes@, i + 1);
        }
        sum = sum + d.file_sizes[i];
        i = i + 1;
    }
    proof {
        assert(d.file_sizes@.subrange(0, d.file_sizes.len() as int) =~= d.file_sizes@);
    }
    VersionEntry {
        version: d.name.clone(),
        modified_timestamp: d.modified,
        file_count: d.file_sizes.len() as u32,
        total_size: sum,
    }
}

impl ResourceSyncer {
    /// The newest version file among the walked entries, with the directory
    /// that holds it: that directory is the newest version's build output.
    pub fn find_version_file(&self, entries: &Vec<WalkEntry>) -> (r: Option<(String, String)>)
        ensures
            match r {
                Some((path, dir)) => exists|i: int| #[trigger] self.is_latest(entries@, i)
                    && path@ == entries@[i].path@ && dir@ == entries@[i].dir@,
                None => forall|j: int| 0 <= j < entries@.len() ==> !#[trigger] self.is_candidate(entries@[j]),
            },
    {
        match self.latest_index(entries) {
            Some(i) => Some((entries[i].path.clone(), entries[i].dir.clone())),
            None => None,
        }
    }

    /// The version a version file holds: its text without surrounding white
    /// space, or the message for a file that could not be read.
    pub fn read_version(&self, read: Result<String, String>) -> (r: Result<String, String>)
        ensures
            match read {
                Ok(text) => r matches Ok(v) && v@ == trim_spec(text@),
                Err(e) => r matches Err(m) && m@ == read_failure_message(e@),
            },
    {
        match read {
            Ok(text) => Ok(trim(text.as_str())),
            Err(e) => Err(concat("读取版本文件失败: ", e.as_str())),
        }
    }

    /// The newest version in the build output, from the read of the newest
    /// version file (nothing where none was found or it could not be read).
    pub fn read_latest_version(&self, read: Option<Result<String, String>>) -> (r: Option<String>)
        ensures
            opt_view(r) == version_read(read),
    {
        match read {
            Some(x) => match self.read_version(x) {
                Ok(v) => Some(v),
                Err(_) => None,
            },
            None => None,
        }
    }

    /// The version file of the synchronised bundles, in the platform's directory.
    pub fn synced_version_file(&self) -> (r: String)
        ensures
            r@ == join_path(platform_dir_of(self@), version_file_name_of(self@)),
    {
        let d = self.platform_dir();
        let n = self.version_file_name();
        join(d.as_str(), n.as_str())
    }

    /// The synchronised version, from the read of the synchronised version
    /// file (nothing where it is absent or could not be read).
    pub fn read_synced_version(&self, read: Option<Result<String, String>>) -> (r: Option<String>)
        ensures
            opt_view(r) == version_read(read),
    {
        match read {
            Some(Ok(text)) => Some(trim(text.as_str())),
            _ => None,
        }
    }

    /// The bundle versions among the directories of the package's directory:
    /// each directory that is not excluded and holds the version file, with
    /// its file count and total size, newest first (equally new ones keep the
    /// listing's order).
    pub fn list_versions(&self, dirs: &Vec<VersionDir>) -> (r: Vec<VersionEntry>)
        requires
            forall|i: int| 0 <= i < dirs@.len() && is_version_dir(#[trigger] dirs@[i]) ==> fits_listing(dirs@[i]),
        ensures
            exists|listed: Seq<VersionEntry>|
                #![trigger arranged(listed, local_version_keys(listed), r@)]
                arranged(listed, local_version_keys(listed), r@) && listed.len() == dirs@.filter(|d: VersionDir| is_version_dir(d)).len()
                && forall|k: int| 0 <= k < listed.len() ==> entry_of(dirs@.filter(|d: VersionDir| is_version_dir(d))[k], #[trigger] listed[k]),
    {
        let ghost f = |d: VersionDir| is_version_dir(d);
        let mut listed: Vec<VersionEntry> = Vec::new();
        let mut i: usize = 0;
        while i < dirs.len()
            invariant
                f == (|d: VersionDir| is_version_dir(d)),
                i <= dirs@.len(),
                forall|j: int| 0 <= j < dirs@.len() && is_version_dir(#[trigger] dirs@[j]) ==> fits_listing(dirs@[j]),
                listed@.len() == dirs@.subrange(0, i as int).filter(f).len(),
                forall|k: int| 0 <= k < listed@.len() ==> entry_of(dirs@.subrange(0, i as int).filter(f)[k], #[trigger] listed@[k]),
            decreases dirs.len() - i,
        {
            proof {
                assert(dirs@.subrange(0, i + 1) =~= dirs@.subrange(0, i as int).push(dirs@[i as int]));
                dirs@.subrange(0, i as int).lemma_filter_push(dirs@[i as int], f);
            }
            let d = &dirs[i];
            let excluded = str_eq(d.name.as_str(), "OutputCache") || str_eq(d.name.as_str(), "Simulate")
                || str_eq(d.name.as_str(), "_server_root");
            if !excluded && d.is_dir && d.has_version_file {
                let e = version_entry_of(d);
                listed.push(e);
            }
            i = i + 1;
        }
        proof {
            assert(dirs@.subrange(0, dirs.len() as int) =~= dirs@);
        }
        let mut keys: Vec<Vec<u64>> = Vec::new();
        let mut j: usize = 0;
        while j < listed.len()
            invariant
                j <= listed@.len(),
                keys@.len() == j,
                forall|m: int| 0 <= m < j ==> (#[trigger] keys@[m])@ == newest_first_key(listed@[m].modified_timestamp),
            decreases listed.len() - j,
        {
            let mut k: Vec<u64> = Vec::new();
            k.push(u64::MAX - listed[j].modified_timestamp);
            assert(k@ =~= newest_first_key(listed@[j as int].modified_timestamp));
            keys.push(k);
            j = j + 1;
        }
        assert(keys_view(keys@) =~= local_version_keys(listed@));
        let r = sort_by_keys(&listed, &keys);
        r
    }
}

/// What a sync result holds.
pub ghost struct SyncView {
    /// Whether the sync took place.
    pub success: bool,
    /// What happened.
    pub message: Seq<char>,
    /// The bundle version synchronised or asked for.
    pub version: Option<Seq<char>>,
    /// The names of the files copied.
    pub synced_files: Seq<Seq<char>>,
}

impl View for SyncResult {
    type V = SyncView;

    open spec fn view(&self) -> SyncView {
        SyncView {
            success: self.success,
            message: self.message@,
            version: opt_view(self.version),
            synced_files: self.synced_files@.map_values(|f: String| f@),
        }
    }
}

/// A sync that did not take place, with its message.
pub open spec fn failed_sync(message: Seq<char>, version: Option<Seq<char>>) -> SyncView {
    SyncView { success: false, message, version, synced_files: Seq::empty() }
}

/// The bundle version a sync copies and the directory it copies from.
#[derive(Debug)]
pub struct SyncSource {
    /// The version.
    pub version: String,
    /// The directory holding its build output.
    pub dir: String,
}

/// Where a sync takes its files from, or why it does not take place.
/// `platform_exists` says whether the platform's directory exists; for an
/// asked-for version `target`, `target_exists` says whether its directory in
/// the package's directory exists; otherwise `latest` is the directory of the
/// newest version file found and what reading that file gave.
pub open spec fn sync_source_spec(
    s: SyncerView,
    platform_exists: bool,
    target: Option<Seq<char>>,
    target_exists: bool,
    latest: Option<(Seq<char>, Result<Seq<char>, Seq<char>>)>,
) -> Result<(Seq<char>, Seq<char>), SyncView> {
    if !platform_exists {
        Err(failed_sync("平台目录不存在: "@ + platform_dir_of(s), None))
    } else {
        match target {
            Some(t) => if !target_exists {
                Err(failed_sync("版本目录不存在: "@ + t, Some(t)))
            } else {
                Ok((t, join_path(package_dir_of(s), t)))
            },
            None => match latest {
                None => Err(failed_sync("未找到 "@ + s.package_name + ".version 文件!"@, None)),
                Some((dir, read)) => Ok(
                    (
                        match read {
                            Ok(text) => trim_spec(text),
                            Err(_) => Seq::empty(),
                        },
                        dir,
                    ),
                ),
            },
        }
    }
}

/// An entry of a directory listing: its name and whether it is a regular file.
#[derive(Debug)]
pub struct DirItem {
    /// The entry's name.
    pub name: String,
    /// Whether it is a regular file.
    pub is_file: bool,
}

/// A file of the platform's directory that a sync removes before copying:
/// one named `{package}_…`, `….bundle` or `{package}.version`.
pub open spec fn is_stale_name(s: SyncerView, name: Seq<char>) -> bool {
    has_prefix(name, s.package_name + "_"@) || has_suffix(name, ".bundle"@) || name == version_file_name_of(s)
}

/// One file a sync copies.
#[derive(Debug)]
pub struct CopyJob {
    /// The file's name.
    pub name: String,
    /// Where it is copied from.
    pub from: String,
    /// Where it is copied to.
    pub to: String,
}

/// `job` copies the file `d` from the directory `from_dir` to `to_dir`.
pub open spec fn copies(from_dir: Seq<char>, to_dir: Seq<char>, d: DirItem, job: CopyJob) -> bool {
    &&& job.name@ == d.name@
    &&& job.from@ == join_path(from_dir, d.name@)
    &&& job.to@ == join_path(to_dir, d.name@)
}

/// The message of a sync of `version` that took place.
pub open spec fn synced_message(version: Seq<char>) -> Seq<char> {
    "版本 "@ + version + " 同步完成"@
}

impl ResourceSyncer {
    /// The build output directory of `version`.
    pub fn version_dir(&self, version: &str) -> (r: String)
        ensures
            r@ == join_path(package_dir_of(self@), version@),
    {
        let p = self.package_dir();
        join(p.as_str(), version)
    }

    /// Decides where a sync takes its files from, or the failed result that
    /// ends it (see `sync_source_spec`).
    pub fn sync_source(
        &self,
        platform_exists: bool,
        target: Option<&str>,
        target_exists: bool,
        latest: Option<(String, Result<String, String>)>,
    ) -> (r: Result<SyncSource, SyncResult>)
        ensures
            match sync_source_spec(
                self@,
                platform_exists,
                match target { Some(t) => Some(t@), None => None },
                target_exists,
                match latest { Some((d, x)) => Some((d@, result_view(x))), None => None },
            ) {
                Ok((v, d)) => r matches Ok(src) && src.version@ == v && src.dir@ == d,
                Err(f) => r matches Err(res) && res@ == f,
            },
    {
        if !platform_exists {
            let d = self.platform_dir();
            let res = SyncResult {
                success: false,
                message: concat("平台目录不存在: ", d.as_str()),
                version: None,
                synced_files: Vec::new(),
            };
            assert(res@.synced_files =~= Seq::<Seq<char>>::empty());
            return Err(res);
        }
        match target {
            Some(t) => {
                if !target_exists {
                    let res = SyncResult {
                        success: false,
                        message: concat("版本目录不存在: ", t),
                        version: Some(owned(t)),
                        synced_files: Vec::new(),
                    };
                    assert(res@.synced_files =~= Seq::<Seq<char>>::empty());
                    return Err(res);
                }
                Ok(SyncSource { version: owned(t), dir: self.version_dir(t) })
            },
            None => match latest {
                None => {
                    let head = concat("未找到 ", self.package_name.as_str());
                    let res = SyncResult {
                        success: false,
                        message: concat(head.as_str(), ".version 文件!"),
                        version: None,
                        synced_files: Vec::new(),
                    };
                    assert(res@.synced_files =~= Seq::<Seq<char>>::empty());
                    assert(res@.message =~= "未找到 "@ + self@.package_name + ".version 文件!"@);
                    Err(res)
                },
                Some((dir, read)) => {
                    let version = match read {
                        Ok(text) => trim(text.as_str()),
                        Err(_) => String::new(),
                    };
                    Ok(SyncSource { version, dir })
                },
            },
        }
    }

    /// Where a sync of the newest version takes its files from, or the failed
    /// result that ends it: `sync_source` with no version asked for.
    pub fn sync(&self, platform_exists: bool, latest: Option<(String, Result<String, String>)>) -> (r: Result<
        SyncSource,
        SyncResult,
    >)
        ensures
            match sync_source_spec(
                self@,
                platform_exists,
                None,
                false,
                match latest { Some((d, x)) => Some((d@, result_view(x))), None => None },
            ) {
                Ok((v, d)) => r matches Ok(src) && src.version@ == v && src.dir@ == d,
                Err(f) => r matches Err(res) && res@ == f,
            },
    {
        self.sync_source(platform_exists, None, false, latest)
    }

    /// Whether a file named `name` in the platform's directory is removed
    /// before a sync copies new files in.
    pub fn is_stale_file(&self, name: &str) -> (r: bool)
        ensures
            r == is_stale_name(self@, name@),
    {
        let prefix = concat(self.package_name.as_str(), "_");
        let vf = self.version_file_name();
        starts_with(name, prefix.as_str()) || ends_with(name, ".bundle") || str_eq(name, vf.as_str())
    }

    /// The paths of the stale regular files among the entries of the
    /// platform's directory, in listing order.
    pub fn stale_files(&self, items: &Vec<DirItem>) -> (r: Vec<String>)
        ensures
            r@.map_values(|p: String| p@) == items@.filter(|d: DirItem| d.is_file && is_stale_name(self@, d.name@)).map_values(
                |d: DirItem| join_path(platform_dir_of(self@), d.name@),
            ),
    {
        let ghost f = |d: DirItem| d.is_file && is_stale_name(self@, d.name@);
        let ghost g = |d: DirItem| join_path(platform_dir_of(self@), d.name@);
        let dir = self.platform_dir();
        let mut out: Vec<String> = Vec::new();
        let mut i: usize = 0;
        while i < items.len()
            invariant
                f == (|d: DirItem| d.is_file && is_stale_name(self@, d.name@)),
                g == (|d: DirItem| join_path(platform_dir_of(self@), d.name@)),
                dir@ == platform_dir_of(self@),
                i <= items@.len(),
                out@.map_values(|p: String| p@) == items@.subrange(0, i as int).filter(f).map_values(g),
            decreases items.len() - i,
        {
            proof {
                assert(items@.subrange(0, i + 1) =~= items@.subrange(0, i as int).push(items@[i as int]));
                items@.subrange(0, i as int).lemma_filter_push(items@[i as int], f);
            }
            let ghost before = out@;
            if items[i].is_file && self.is_stale_file(items[i].name.as_str()) {
                out.push(join(dir.as_str(), items[i].name.as_str()));
                proof {
                    let fs = items@.subrange(0, i as int).filter(f);
                    assert(out@.map_values(|p: String| p@) =~= before.map_values(|p: String| p@).push(g(items@[i as int])));
                    assert(fs.push(items@[i as int]).map_values(g) =~= fs.map_values(g).push(g(items@[i as int])));
                }
            }
            i = i + 1;
        }
        proof {
            assert(items@.subrange(0, items.len() as int) =~= items@);
        }
        out
    }

    /// The files a sync copies from the version directory `source` into the
    /// platform's directory: each regular file among `items`, in listing order.
    pub fn copy_plan(&self, source: &str, items: &Vec<DirItem>) -> (r: Vec<CopyJob>)
        ensures
            r@.len() == items@.filter(|d: DirItem| d.is_file).len(),
            forall|k: int| 0 <= k < r@.len() ==> copies(
                source@,
                platform_dir_of(self@),
                items@.filter(|d: DirItem| d.is_file)[k],
                #[trigger] r@[k],
            ),
    {
        let ghost f = |d: DirItem| d.is_file;
        let dir = self.platform_dir();
        let mut out: Vec<CopyJob> = Vec::new();
        let mut i: usize = 0;
        while i < items.len()
            invariant
                f == (|d: DirItem| d.is_file),
                dir@ == platform_dir_of(self@),
                i <= items@.len(),
                out@.len() == items@.subrange(0, i as int).filter(f).len(),
                forall|k: int| 0 <= k < out@.len() ==> copies(
                    source@,
                    platform_dir_of(self@),
                    items@.subrange(0, i as int).filter(f)[k],
                    #[trigger] out@[k],
                ),
            decreases items.len() - i,
        {
            proof {
                assert(items@.subrange(0, i + 1) =~= items@.subrange(0, i as int).push(items@[i as int]));
                items@.subrange(0, i as int).lemma_filter_push(items@[i as int], f);
            }
            if items[i].is_file {
                let name = items[i].name.as_str();
                out.push(CopyJob { name: owned(name), from: join(source, name), to: join(dir.as_str(), name) });
            }
            i = i + 1;
        }
        proof {
            assert(items@.subrange(0, items.len() as int) =~= items@);
        }
        out
    }
}

/// The result of a sync of `version` that took place and copied `copied`.
pub fn synced(version: String, copied: Vec<String>) -> (r: SyncResult)
    ensures
        r@ == (SyncView {
            success: true,
            message: synced_message(version@),
            version: Some(version@),
            synced_files: copied@.map_values(|f: String| f@),
        }),
{
    let head = concat("版本 ", version.as_str());
    let message = concat(head.as_str(), " 同步完成");
    assert(message@ =~= synced_message(version@));
    SyncResult { success: true, message, version: Some(version), synced_files: copied }
}

/// Where the local server's root goes under the build root, and the link in
/// it that carries the project's name: `{bundles}/_server_root` and
/// `{bundles}/_server_root/{project}`.
pub fn server_root_layout(bundles_dir: &str, project_name: &str) -> (r: (String, String))
    ensures
        r.0@ == join_path(bundles_dir@, "_server_root"@),
        r.1@ == join_path(join_path(bundles_dir@, "_server_root"@), project_name@),
{
    let root = join(bundles_dir, "_server_root");
    let link = join(root.as_str(), project_name);
    (root, link)
}

} // verus!
