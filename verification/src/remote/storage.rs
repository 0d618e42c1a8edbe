//! Where the remote server keeps uploaded bundles:
//! `<resources>/<project>/<project_version>/<platform>/_versions/<bundle_version>/<file>`,
//! with every client-given name checked to be a single path component, and the
//! orderings and digests of what it lists.
use vstd::prelude::*;
use crate::paths::{
    extend, extend_dir, join, join_path, result_view, sanitize_path_component, valid_component,
    invalid_component_message,
};
use crate::order::{arranged, keys_view, sort_by_keys, text_key, text_key_of, Duplicate};
use crate::digest::{lower_hex, lower_hex_spec, md5, md5_of};

verus! {

/// `<root>/<project>`.
pub open spec fn project_dir_spec(root: Seq<char>, project: Seq<char>) -> Result<Seq<char>, Seq<char>> {
    extend_dir(Ok(root), project)
}

/// `<root>/<project>/<project_version>`.
pub open spec fn project_version_dir_spec(root: Seq<char>, project: Seq<char>, pver: Seq<char>) -> Result<
    Seq<char>,
    Seq<char>,
> {
    extend_dir(project_dir_spec(root, project), pver)
}

/// `<root>/<project>/<project_version>/<platform>`.
pub open spec fn platform_dir_spec(
    root: Seq<char>,
    project: Seq<char>,
    pver: Seq<char>,
    platform: Seq<char>,
) -> Result<Seq<char>, Seq<char>> {
    extend_dir(project_version_dir_spec(root, project, pver), platform)
}

/// `<root>/<project>/<project_version>/<platform>/_versions`.
pub open spec fn versions_dir_spec(
    root: Seq<char>,
    project: Seq<char>,
    pver: Seq<char>,
    platform: Seq<char>,
) -> Result<Seq<char>, Seq<char>> {
    match platform_dir_spec(root, project, pver, platform) {
        Ok(d) => Ok(join_path(d, "_versions"@)),
        Err(e) => Err(e),
    }
}

/// `<root>/<project>/<project_version>/<platform>/_versions/<version>`.
pub open spec fn version_dir_spec(
    root: Seq<char>,
    project: Seq<char>,
    pver: Seq<char>,
    platform: Seq<char>,
    version: Seq<char>,
) -> Result<Seq<char>, Seq<char>> {
    extend_dir(versions_dir_spec(root, project, pver, platform), version)
}

/// The storage of uploaded resources under one root directory.
#[derive(Debug)]
pub struct Storage {
    resources_dir: String,
}

impl Storage {
    /// The root directory.
    pub closed spec fn root(&self) -> Seq<char> {
        self.resources_dir@
    }

    /// Storage rooted at `resources_dir`.
    pub fn new(resources_dir: String) -> (r: Self)
        ensures
            r.root() == resources_dir@,
    {
        Storage { resources_dir }
    }

    /// The directory of a project.
    pub fn project_dir(&self, project_name: &str) -> (r: Result<String, String>)
        ensures
            result_view(r) == project_dir_spec(self.root(), project_name@),
    {
        extend(self.resources_dir.clone(), project_name)
    }

    /// The directory of a project version.
    pub fn project_version_dir(&self, project_name: &str, project_version: &str) -> (r: Result<
        String,
        String,
    >)
        ensures
            result_view(r) == project_version_dir_spec(self.root(), project_name@, project_version@),
    {
        let d = self.project_dir(project_name)?;
        extend(d, project_version)
    }

    /// The directory of a platform within a project version.
    pub fn platform_dir(&self, project_name: &str, project_version: &str, platform: &str) -> (r:
        Result<String, String>)
        ensures
            result_view(r) == platform_dir_spec(
                self.root(),
                project_name@,
                project_version@,
                platform@,
            ),
    {
        let d = self.project_version_dir(project_name, project_version)?;
        extend(d, platform)
    }

    /// The directory that holds a platform's bundle versions.
    pub fn versions_dir(&self, project_name: &str, project_version: &str, platform: &str) -> (r:
        Result<String, String>)
        ensures
            result_view(r) == versions_dir_spec(
                self.root(),
                project_name@,
                project_version@,
                platform@,
            ),
    {
        let d = self.platform_dir(project_name, project_version, platform)?;
        Ok(join(d.as_str(), "_versions"))
    }

    /// The directory of one bundle version.
    pub fn version_dir(
        &self,
        project_name: &str,
        project_version: &str,
        platform: &str,
        version: &str,
    ) -> (r: Result<String, String>)
        ensures
            result_view(r) == version_dir_spec(
                self.root(),
                project_name@,
                project_version@,
                platform@,
                version@,
            ),
    {
        let d = self.versions_dir(project_name, project_version, platform)?;
        extend(d, version)
    }
}

/// Where an uploaded file goes: its bundle version directory and its own path.
#[derive(Debug)]
pub struct UploadTarget {
    pub dir: String,
    pub path: String,
}

/// Copying one file of a base bundle version into a new one.
#[derive(Debug)]
pub struct CopyStep {
    pub name: String,
    pub source: String,
    pub target: String,
}

/// The paths that copying files from a base bundle version into a new one
/// touches. The files are copied in order; `refused` is the message of the
/// first name that is not a single path component, reported after the files
/// before it are copied.
#[derive(Debug)]
pub struct CopyPlan {
    pub base_dir: String,
    pub new_dir: Result<String, String>,
    pub steps: Vec<CopyStep>,
    pub refused: Option<String>,
}

/// What renaming a project version's directory comes to, given what exists.
#[derive(Debug)]
pub enum RenameStep {
    /// There is nothing to move.
    Nothing,
    /// The target directory exists already.
    TargetExists,
    /// Move the directory.
    Move,
}

/// Renaming does nothing when the old directory is absent, refuses when the
/// new one exists, and moves otherwise.
pub fn rename_step(old_exists: bool, new_exists: bool) -> (r: RenameStep)
    ensures
        !old_exists ==> r is Nothing,
        old_exists && new_exists ==> r is TargetExists,
        old_exists && !new_exists ==> r is Move,
{
    if !old_exists {
        RenameStep::Nothing
    } else if new_exists {
        RenameStep::TargetExists
    } else {
        RenameStep::Move
    }
}

impl Storage {
    /// Where an uploaded file named `file_name` goes; the file name is checked
    /// before the directory names.
    pub fn upload_target(
        &self,
        project_name: &str,
        project_version: &str,
        platform: &str,
        version: &str,
        file_name: &str,
    ) -> (r: Result<UploadTarget, String>)
        ensures
            !valid_component(file_name@) ==> (r matches Err(e) && e@ == invalid_component_message(
                file_name@,
            )),
            valid_component(file_name@) ==> match version_dir_spec(
                self.root(),
                project_name@,
                project_version@,
                platform@,
                version@,
            ) {
                Ok(d) => r matches Ok(t) && t.dir@ == d && t.path@ == join_path(d, file_name@),
                Err(e) => r matches Err(m) && m@ == e,
            },
    {
        let safe_name = sanitize_path_component(file_name)?;
        let dir = self.version_dir(project_name, project_version, platform, version)?;
        let path = join(dir.as_str(), safe_name);
        Ok(UploadTarget { dir, path })
    }

    /// The directories of the old and new names of a project version; the old
    /// name is checked first.
    pub fn rename_paths(&self, project_name: &str, old_name: &str, new_name: &str) -> (r: Result<
        (String, String),
        String,
    >)
        ensures
            match project_version_dir_spec(self.root(), project_name@, old_name@) {
                Err(e) => r matches Err(m) && m@ == e,
                Ok(old_dir) => match project_version_dir_spec(self.root(), project_name@, new_name@) {
                    Err(e) => r matches Err(m) && m@ == e,
                    Ok(new_dir) => r matches Ok(p) && p.0@ == old_dir && p.1@ == new_dir,
                },
            },
    {
        let old_dir = self.project_version_dir(project_name, old_name)?;
        let new_dir = self.project_version_dir(project_name, new_name)?;
        Ok((old_dir, new_dir))
    }

    /// The paths for copying the files `copy_files` from bundle version
    /// `base_version` into `new_version`.
    pub fn copy_plan(
        &self,
        project_name: &str,
        project_version: &str,
        platform: &str,
        new_version: &str,
        base_version: &str,
        copy_files: &Vec<String>,
    ) -> (r: Result<CopyPlan, String>)
        ensures
            match version_dir_spec(self.root(), project_name@, project_version@, platform@, base_version@) {
                Err(e) => r matches Err(m) && m@ == e,
                Ok(base) => r matches Ok(plan) && plan.base_dir@ == base && result_view(plan.new_dir)
                    == version_dir_spec(
                    self.root(),
                    project_name@,
                    project_version@,
                    platform@,
                    new_version@,
                ) && (plan.new_dir matches Ok(nd) ==> copy_plan_spec(
                    base,
                    nd@,
                    copy_files@,
                    plan.steps@,
                    plan.refused,
                )),
            },
    {
        let base_dir = self.version_dir(project_name, project_version, platform, base_version)?;
        let new_dir = self.version_dir(project_name, project_version, platform, new_version);
        let (steps, refused) = match &new_dir {
            Ok(nd) => plan_copies(base_dir.as_str(), nd.as_str(), copy_files),
            Err(_) => (Vec::new(), None),
        };
        Ok(CopyPlan { base_dir, new_dir, steps, refused })
    }
}

fn plan_copies(base_dir: &str, new_dir: &str, names: &Vec<String>) -> (r: (Vec<CopyStep>, Option<String>))
    ensures
        copy_plan_spec(base_dir@, new_dir@, names@, r.0@, r.1),
{
    let mut steps: Vec<CopyStep> = Vec::new();
    let mut i: usize = 0;
    while i < names.len()
        invariant
            i <= names@.len(),
            steps@.len() == i,
            forall|j: int| 0 <= j < i ==> valid_component(#[trigger] names@[j]@),
            forall|j: int|
                0 <= j < i ==> #[trigger] steps@[j].name@ == names@[j]@ && steps@[j].source@ == join_path(
                    base_dir@,
                    names@[j]@,
                ) && steps@[j].target@ == join_path(new_dir@, names@[j]@),
        decreases names.len() - i,
    {
        match sanitize_path_component(names[i].as_str()) {
            Ok(safe) => {
                steps.push(
                    CopyStep {
                        name: names[i].clone(),
                        source: join(base_dir, safe),
                        target: join(new_dir, safe),
                    },
                );
            },
            Err(e) => {
                return (steps, Some(e));
            },
        }
        i = i + 1;
    }
    (steps, None)
}

/// The copy steps for `names` from `base` into `new_dir`: one per name up to
/// the first name that is not a single path component, whose message is then
/// `refused`.
pub open spec fn copy_plan_spec(
    base: Seq<char>,
    new_dir: Seq<char>,
    names: Seq<String>,
    steps: Seq<CopyStep>,
    refused: Option<String>,
) -> bool {
    &&& steps.len() <= names.len()
    &&& forall|j: int| 0 <= j < steps.len() ==> valid_component(#[trigger] names[j]@)
    &&& forall|j: int|
        0 <= j < steps.len() ==> #[trigger] steps[j].name@ == names[j]@ && steps[j].source@ == join_path(
            base,
            names[j]@,
        ) && steps[j].target@ == join_path(new_dir, names[j]@)
    &&& if steps.len() < names.len() {
        refused matches Some(m) && !valid_component(names[steps.len() as int]@) && m@
            == invalid_component_message(names[steps.len() as int]@)
    } else {
        refused is None
    }
}

/// A bundle version as the listing shows it.
#[derive(Debug)]
pub struct VersionEntry {
    pub version: String,
    pub file_count: u32,
    pub total_size: u64,
    pub modified_timestamp: u64,
}

/// A file of a bundle version as the listing shows it.
#[derive(Debug)]
pub struct FileEntry {
    pub name: String,
    pub size: u64,
    pub modified_timestamp: u64,
}

/// A file of a bundle version with its MD5, for incremental uploads.
#[derive(Debug)]
pub struct FileManifestEntry {
    pub name: String,
    pub size: u64,
    pub md5: String,
}

impl Duplicate for VersionEntry {
    fn duplicate(&self) -> (r: Self) {
        VersionEntry {
            version: self.version.clone(),
            file_count: self.file_count,
            total_size: self.total_size,
            modified_timestamp: self.modified_timestamp,
        }
    }
}

impl Duplicate for FileEntry {
    fn duplicate(&self) -> (r: Self) {
        FileEntry { name: self.name.clone(), size: self.size, modified_timestamp: self.modified_timestamp }
    }
}

impl Duplicate for FileManifestEntry {
    fn duplicate(&self) -> (r: Self) {
        FileManifestEntry { name: self.name.clone(), size: self.size, md5: self.md5.clone() }
    }
}

/// The key that puts later modification times first.
pub open spec fn newest_first_key(t: u64) -> Seq<u64> {
    seq![(u64::MAX - t) as u64]
}

/// The keys that order bundle versions newest first.
pub open spec fn version_keys(v: Seq<VersionEntry>) -> Seq<Seq<u64>> {
    v.map_values(|e: VersionEntry| newest_first_key(e.modified_timestamp))
}

/// The keys that order files by name.
pub open spec fn file_keys(v: Seq<FileEntry>) -> Seq<Seq<u64>> {
    v.map_values(|e: FileEntry| text_key(e.name@))
}

/// The keys that order manifest entries by name.
pub open spec fn manifest_keys(v: Seq<FileManifestEntry>) -> Seq<Seq<u64>> {
    v.map_values(|e: FileManifestEntry| text_key(e.name@))
}

/// Bundle versions, newest first; equally new ones keep their order.
pub fn sort_versions_newest_first(entries: &Vec<VersionEntry>) -> (r: Vec<VersionEntry>)
    ensures
        arranged(entries@, version_keys(entries@), r@),
{
    let mut keys: Vec<Vec<u64>> = Vec::new();
    let mut i: usize = 0;
    while i < entries.len()
        invariant
            i <= entries@.len(),
            keys@.len() == i,
            forall|j: int| 0 <= j < i ==> (#[trigger] keys@[j])@ == newest_first_key(entries@[j].modified_timestamp),
        decreases entries.len() - i,
    {
        let mut k: Vec<u64> = Vec::new();
        k.push(u64::MAX - entries[i].modified_timestamp);
        assert(k@ =~= newest_first_key(entries@[i as int].modified_timestamp));
        keys.push(k);
        i = i + 1;
    }
    assert(keys_view(keys@) =~= version_keys(entries@));
    sort_by_keys(entries, &keys)
}

/// Files ordered by name.
pub fn sort_files_by_name(entries: &Vec<FileEntry>) -> (r: Vec<FileEntry>)
    ensures
        arranged(entries@, file_keys(entries@), r@),
{
    let mut keys: Vec<Vec<u64>> = Vec::new();
    let mut i: usize = 0;
    while i < entries.len()
        invariant
            i <= entries@.len(),
            keys@.len() == i,
            forall|j: int| 0 <= j < i ==> (#[trigger] keys@[j])@ == text_key(entries@[j].name@),
        decreases entries.len() - i,
    {
        keys.push(text_key_of(entries[i].name.as_str()));
        i = i + 1;
    }
    assert(keys_view(keys@) =~= file_keys(entries@));
    sort_by_keys(entries, &keys)
}

/// Manifest entries ordered by name.
pub fn sort_manifest_by_name(entries: &Vec<FileManifestEntry>) -> (r: Vec<FileManifestEntry>)
    ensures
        arranged(entries@, manifest_keys(entries@), r@),
{
    let mut keys: Vec<Vec<u64>> = Vec::new();
    let mut i: usize = 0;
    while i < entries.len()
        invariant
            i <= entries@.len(),
            keys@.len() == i,
            forall|j: int| 0 <= j < i ==> (#[trigger] keys@[j])@ == text_key(entries@[j].name@),
        decreases entries.len() - i,
    {
        keys.push(text_key_of(entries[i].name.as_str()));
        i = i + 1;
    }
    assert(keys_view(keys@) =~= manifest_keys(entries@));
    sort_by_keys(entries, &keys)
}

/// The manifest entry of a file named `name` with contents `data`: its size
/// and the lower-case hex of its MD5.
pub fn manifest_entry(name: String, data: &[u8]) -> (r: FileManifestEntry)
    ensures
        r.name == name,
        r.size == data@.len(),
        r.md5@ == lower_hex_spec(md5_of(data@)),
{
    let digest = md5(data);
    FileManifestEntry { name, size: data.len() as u64, md5: lower_hex(digest.as_slice()) }
}

/// The sum of `sizes`.
pub open spec fn total_of(sizes: Seq<u64>) -> int
    decreases sizes.len(),
{
    if sizes.len() == 0 {
        0
    } else {
        total_of(sizes.drop_last()) + sizes.last()
    }
}

/// The listing entry of a bundle version named `version` whose files have the
/// sizes `sizes`: their count and total size.
pub fn version_entry(version: String, sizes: &Vec<u64>, modified_timestamp: u64) -> (r: VersionEntry)
    requires
        sizes@.len() <= u32::MAX,
        total_of(sizes@) <= u64::MAX,
    ensures
        r.version == version,
        r.file_count == sizes@.len(),
        r.total_size == total_of(sizes@),
        r.modified_timestamp == modified_timestamp,
{
    let mut count: u32 = 0;
    let mut total: u64 = 0;
    let mut i: usize = 0;
    while i < sizes.len()
        invariant
            i <= sizes@.len(),
            sizes@.len() <= u32::MAX,
            total_of(sizes@) <= u64::MAX,
            count == i,
            total == total_of(sizes@.subrange(0, i as int)),
        decreases sizes.len() - i,
    {
        proof {
            assert(sizes@.subrange(0, i + 1).drop_last() =~= sizes@.subrange(0, i as int));
            lemma_total_monotone(sizes@, i + 1);
        }
        count = count + 1;
        total = total + sizes[i];
        i = i + 1;
    }
    assert(sizes@.subrange(0, sizes@.len() as int) =~= sizes@);
    VersionEntry { version, file_count: count, total_size: total, modified_timestamp }
}

/// The sum of a prefix of `sizes` is at most the sum of `sizes`.
pub proof fn lemma_total_monotone(sizes: Seq<u64>, k: int)
    requires
        0 <= k <= sizes.len(),
    ensures
        total_of(sizes.subrange(0, k)) <= total_of(sizes),
    decreases sizes.len() - k,
{
    if k < sizes.len() {
        lemma_total_monotone(sizes, k + 1);
        assert(sizes.subrange(0, k + 1).drop_last() =~= sizes.subrange(0, k));
    } else {
        assert(sizes.subrange(0, k) =~= sizes);
    }
}

} // verus!
