//! What the management API does to the project configuration: each request's
//! checks, in the order they are made, and the change it makes. Persisting the
//! configuration and touching the disk are left to the caller.
use vstd::prelude::*;
use crate::remote::config::{
    AppConfig, PlatformSettings, ProjectConfig, ProjectVersion, ProjectVersionView, ProjectView,
    SettingsTable, SettingsView, copy_strings, copy_versions, opt_view, projects_view, strings_view,
    versions_view,
};
use crate::lookup::{first_with, found, lemma_first_none, lemma_first_with, position_of};
use crate::paths::valid_component;
use crate::text::{owned, str_eq, trim, trim_spec};

verus! {

/// A refused request: its HTTP status and message.
#[derive(Debug)]
pub struct ApiError {
    pub status: u16,
    pub message: String,
}

/// An error as status and message.
pub open spec fn api_error(status: u16, message: Seq<char>) -> (u16, Seq<char>) {
    (status, message)
}

/// A refused request, by its view.
pub open spec fn error_view(e: ApiError) -> (u16, Seq<char>) {
    (e.status, e.message@)
}

fn refuse(status: u16, message: &str) -> (r: ApiError)
    ensures
        error_view(r) == api_error(status, message@),
{
    ApiError { status, message: owned(message) }
}

/// The identifiers of the projects, in order.
pub open spec fn project_ids(ps: Seq<ProjectView>) -> Seq<Seq<char>> {
    ps.map_values(|p: ProjectView| p.id)
}

/// The names of the projects, in order.
pub open spec fn project_names(ps: Seq<ProjectView>) -> Seq<Seq<char>> {
    ps.map_values(|p: ProjectView| p.project_name)
}

/// The names of the project versions, in order.
pub open spec fn version_names(vs: Seq<ProjectVersionView>) -> Seq<Seq<char>> {
    vs.map_values(|v: ProjectVersionView| v.name)
}

/// Finds the first project with identifier `id`.
pub fn find_project(projects: &Vec<ProjectConfig>, id: &str) -> (r: Option<usize>)
    ensures
        found(project_ids(projects_view(projects@)), id@, r),
{
    let ghost ks = project_ids(projects_view(projects@));
    let mut i: usize = 0;
    while i < projects.len()
        invariant
            ks == project_ids(projects_view(projects@)),
            i <= projects@.len(),
            forall|j: int| 0 <= j < i ==> ks[j] != id@,
        decreases projects.len() - i,
    {
        if str_eq(projects[i].id.as_str(), id) {
            proof {
                lemma_first_with(ks, id@, i as int);
            }
            return Some(i);
        }
        i = i + 1;
    }
    proof {
        lemma_first_none(ks, id@);
    }
    None
}

/// Finds the first project named `name`.
pub fn find_project_by_name(projects: &Vec<ProjectConfig>, name: &str) -> (r: Option<usize>)
    ensures
        found(project_names(projects_view(projects@)), name@, r),
{
    let ghost ks = project_names(projects_view(projects@));
    let mut i: usize = 0;
    while i < projects.len()
        invariant
            ks == project_names(projects_view(projects@)),
            i <= projects@.len(),
            forall|j: int| 0 <= j < i ==> ks[j] != name@,
        decreases projects.len() - i,
    {
        if str_eq(projects[i].project_name.as_str(), name) {
            proof {
                lemma_first_with(ks, name@, i as int);
            }
            return Some(i);
        }
        i = i + 1;
    }
    proof {
        lemma_first_none(ks, name@);
    }
    None
}

/// Finds the first project version named `name`.
pub fn find_version(versions: &Vec<ProjectVersion>, name: &str) -> (r: Option<usize>)
    ensures
        found(version_names(versions_view(versions@)), name@, r),
{
    let ghost ks = version_names(versions_view(versions@));
    let mut i: usize = 0;
    while i < versions.len()
        invariant
            ks == version_names(versions_view(versions@)),
            i <= versions@.len(),
            forall|j: int| 0 <= j < i ==> ks[j] != name@,
        decreases versions.len() - i,
    {
        if str_eq(versions[i].name.as_str(), name) {
            proof {
                lemma_first_with(ks, name@, i as int);
            }
            return Some(i);
        }
        i = i + 1;
    }
    proof {
        lemma_first_none(ks, name@);
    }
    None
}

/// The name of the project with identifier `id` that has a project version
/// `pver`, as the upload, listing and deletion requests look it up.
pub open spec fn project_name_for_spec(ps: Seq<ProjectView>, id: Seq<char>, pver: Seq<char>) -> Result<
    Seq<char>,
    (u16, Seq<char>),
> {
    match first_with(project_ids(ps), id) {
        None => Err(api_error(404, "Project not found"@)),
        Some(i) => if version_names(ps[i].project_versions).contains(pver) {
            Ok(ps[i].project_name)
        } else {
            Err(api_error(404, "Project version not found"@))
        },
    }
}

/// A new name for a project is refused where it is empty or holds a
/// separator or `..`, the same rule as for a path component.
pub fn valid_name(name: &str) -> (r: bool)
    ensures
        r == valid_component(name@),
{
    crate::paths::sanitize_path_component(name).is_ok()
}

impl AppConfig {
    /// The name of the project with identifier `id`, if it has the project
    /// version `pver`.
    pub fn project_name_for(&self, id: &str, pver: &str) -> (r: Result<String, ApiError>)
        ensures
            match project_name_for_spec(self@, id@, pver@) {
                Ok(name) => r matches Ok(n) && n@ == name,
                Err(e) => r matches Err(x) && error_view(x) == e,
            },
    {
        let i = match find_project(&self.projects, id) {
            None => return Err(refuse(404, "Project not found")),
            Some(i) => i,
        };
        match find_version(&self.projects[i].project_versions, pver) {
            None => Err(refuse(404, "Project version not found")),
            Some(_) => Ok(self.projects[i].project_name.clone()),
        }
    }
}

/// `o`'s value, or `d` where it has none.
pub open spec fn or_else<T>(o: Option<T>, d: T) -> T {
    match o {
        Some(v) => v,
        None => d,
    }
}

/// The optional strings of a request, by their views.
pub open spec fn opt_strings_view(o: Option<Vec<String>>) -> Option<Seq<Seq<char>>> {
    match o {
        Some(v) => Some(strings_view(v@)),
        None => None,
    }
}

/// A request to change a project's name, platforms or package name.
#[derive(Debug)]
pub struct UpdateProjectRequest {
    pub project_name: Option<String>,
    pub platforms: Option<Vec<String>>,
    pub package_name: Option<String>,
}

/// What updating project `id` gives: the new project list, or the refusal.
pub open spec fn update_project_spec(
    ps: Seq<ProjectView>,
    id: Seq<char>,
    name: Option<Seq<char>>,
    platforms: Option<Seq<Seq<char>>>,
    package: Option<Seq<char>>,
) -> Result<Seq<ProjectView>, (u16, Seq<char>)> {
    match first_with(project_ids(ps), id) {
        None => Err(api_error(404, "Project not found"@)),
        Some(i) => if name matches Some(n) && !valid_component(n) {
            Err(api_error(400, "Invalid project name"@))
        } else {
            Ok(
                ps.update(
                    i,
                    ProjectView {
                        project_name: or_else(name, ps[i].project_name),
                        platforms: or_else(platforms, ps[i].platforms),
                        package_name: or_else(package, ps[i].package_name),
                        ..ps[i]
                    },
                ),
            )
        },
    }
}

/// What deleting project `id` gives: the remaining projects and the deleted
/// project's name (its storage is removed by name), or the refusal.
pub open spec fn delete_project_spec(ps: Seq<ProjectView>, id: Seq<char>) -> Result<
    (Seq<ProjectView>, Seq<char>),
    (u16, Seq<char>),
> {
    match first_with(project_ids(ps), id) {
        None => Err(api_error(404, "Project not found"@)),
        Some(i) => Ok((ps.filter(|p: ProjectView| p.id != id), ps[i].project_name)),
    }
}

/// The settings with which a new project version starts: every declared
/// platform open, with no active bundle.
pub open spec fn initial_settings(platforms: Seq<Seq<char>>) -> Map<Seq<char>, SettingsView> {
    Map::new(
        |k: Seq<char>| platforms.contains(k),
        |k: Seq<char>| SettingsView { access_enabled: true, active_bundle: None },
    )
}

/// What creating a project version named `raw` (trimmed) in project `id`
/// gives: the new project list and the new project version, or the refusal.
pub open spec fn create_project_version_spec(ps: Seq<ProjectView>, id: Seq<char>, raw: Seq<char>) -> Result<
    (Seq<ProjectView>, ProjectVersionView),
    (u16, Seq<char>),
> {
    let name = trim_spec(raw);
    if !valid_component(name) {
        Err(api_error(400, "Invalid project version name"@))
    } else {
        match first_with(project_ids(ps), id) {
            None => Err(api_error(404, "Project not found"@)),
            Some(i) => if version_names(ps[i].project_versions).contains(name) {
                Err(api_error(409, "Project version already exists"@))
            } else {
                let pv = ProjectVersionView {
                    name: name,
                    platform_settings: initial_settings(ps[i].platforms),
                };
                Ok(
                    (
                        ps.update(
                            i,
                            ProjectView {
                                project_versions: ps[i].project_versions.push(pv),
                                ..ps[i]
                            },
                        ),
                        pv,
                    ),
                )
            },
        }
    }
}

/// What deleting project version `pver` of project `id` gives: the new
/// project list and the project's name (its storage is removed by name), or
/// the refusal.
pub open spec fn delete_project_version_spec(ps: Seq<ProjectView>, id: Seq<char>, pver: Seq<char>) -> Result<
    (Seq<ProjectView>, Seq<char>),
    (u16, Seq<char>),
> {
    match first_with(project_ids(ps), id) {
        None => Err(api_error(404, "Project not found"@)),
        Some(i) => if !version_names(ps[i].project_versions).contains(pver) {
            Err(api_error(404, "Project version not found"@))
        } else {
            Ok(
                (
                    ps.update(
                        i,
                        ProjectView {
                            project_versions: ps[i].project_versions.filter(
                                |v: ProjectVersionView| v.name != pver,
                            ),
                            ..ps[i]
                        },
                    ),
                    ps[i].project_name,
                ),
            )
        },
    }
}

/// What renaming changed.
#[derive(Debug)]
pub enum RenameOutcome {
    /// The new name is the old one; nothing changed.
    Unchanged,
    /// The project version was renamed; its directory is to be moved.
    Renamed { project_name: String, new_name: String },
}

/// `vs` with the first project version named `from` renamed to `to`.
pub open spec fn rename_first(vs: Seq<ProjectVersionView>, from: Seq<char>, to: Seq<char>) -> Seq<
    ProjectVersionView,
> {
    match first_with(version_names(vs), from) {
        Some(j) => vs.update(j, ProjectVersionView { name: to, ..vs[j] }),
        None => vs,
    }
}

/// What renaming project version `pver` of project `id` to `raw` (trimmed)
/// gives: the new project list, and the project's name and the new name where
/// something changed, or the refusal.
pub open spec fn rename_project_version_spec(
    ps: Seq<ProjectView>,
    id: Seq<char>,
    pver: Seq<char>,
    raw: Seq<char>,
) -> Result<(Seq<ProjectView>, Option<(Seq<char>, Seq<char>)>), (u16, Seq<char>)> {
    let new_name = trim_spec(raw);
    if !valid_component(new_name) {
        Err(api_error(400, "Invalid project version name"@))
    } else if new_name == pver {
        Ok((ps, None))
    } else {
        match first_with(project_ids(ps), id) {
            None => Err(api_error(404, "Project not found"@)),
            Some(i) => if version_names(ps[i].project_versions).contains(new_name) {
                Err(api_error(409, "Project version already exists"@))
            } else if !version_names(ps[i].project_versions).contains(pver) {
                Err(api_error(404, "Project version not found"@))
            } else {
                Ok(
                    (
                        ps.update(
                            i,
                            ProjectView {
                                project_versions: rename_first(ps[i].project_versions, pver, new_name),
                                ..ps[i]
                            },
                        ),
                        Some((ps[i].project_name, new_name)),
                    ),
                )
            },
        }
    }
}

/// Undoing a rename whose directory could not be moved: the first project
/// version named `new_name` of the first project `id` gets back the name `pver`.
pub open spec fn revert_rename_spec(
    ps: Seq<ProjectView>,
    id: Seq<char>,
    pver: Seq<char>,
    new_name: Seq<char>,
) -> Seq<ProjectView> {
    match first_with(project_ids(ps), id) {
        Some(i) => ps.update(
            i,
            ProjectView {
                project_versions: rename_first(ps[i].project_versions, new_name, pver),
                ..ps[i]
            },
        ),
        None => ps,
    }
}

/// The settings of one platform of project version `j` of project `i` changed
/// by `f`, starting from `missing` where the platform has none yet.
pub open spec fn with_platform_settings(
    ps: Seq<ProjectView>,
    i: int,
    j: int,
    plat: Seq<char>,
    s: SettingsView,
) -> Seq<ProjectView> {
    ps.update(
        i,
        ProjectView {
            project_versions: ps[i].project_versions.update(
                j,
                ProjectVersionView {
                    platform_settings: ps[i].project_versions[j].platform_settings.insert(plat, s),
                    ..ps[i].project_versions[j]
                },
            ),
            ..ps[i]
        },
    )
}

/// The checks shared by the requests that change one platform of one project
/// version: the project, the platform's declaration, the project version.
pub open spec fn platform_target(ps: Seq<ProjectView>, id: Seq<char>, pver: Seq<char>, plat: Seq<
    char,
>) -> Result<(int, int), (u16, Seq<char>)> {
    match first_with(project_ids(ps), id) {
        None => Err(api_error(404, "Project not found"@)),
        Some(i) => if !ps[i].platforms.contains(plat) {
            Err(api_error(404, "Platform not declared on project"@))
        } else {
            match first_with(version_names(ps[i].project_versions), pver) {
                None => Err(api_error(404, "Project version not found"@)),
                Some(j) => Ok((i, j)),
            }
        },
    }
}

/// What switching access to platform `plat` of project version `pver` of
/// project `id` gives; a platform without settings starts closed.
pub open spec fn set_platform_access_spec(
    ps: Seq<ProjectView>,
    id: Seq<char>,
    pver: Seq<char>,
    plat: Seq<char>,
    enabled: bool,
) -> Result<Seq<ProjectView>, (u16, Seq<char>)> {
    match platform_target(ps, id, pver, plat) {
        Err(e) => Err(e),
        Ok((i, j)) => {
            let old = ps[i].project_versions[j].platform_settings;
            let prior = if old.contains_key(plat) {
                old[plat]
            } else {
                SettingsView { access_enabled: false, active_bundle: None }
            };
            Ok(with_platform_settings(ps, i, j, plat, SettingsView { access_enabled: enabled, ..prior }))
        },
    }
}

/// What activating bundle version `ver` for platform `plat` of project version
/// `pver` of project `id` gives; a platform without settings starts open.
pub open spec fn activate_version_spec(
    ps: Seq<ProjectView>,
    id: Seq<char>,
    pver: Seq<char>,
    ver: Seq<char>,
    plat: Seq<char>,
) -> Result<Seq<ProjectView>, (u16, Seq<char>)> {
    match platform_target(ps, id, pver, plat) {
        Err(e) => Err(e),
        Ok((i, j)) => {
            let old = ps[i].project_versions[j].platform_settings;
            let prior = if old.contains_key(plat) {
                old[plat]
            } else {
                SettingsView { access_enabled: true, active_bundle: None }
            };
            Ok(with_platform_settings(ps, i, j, plat, SettingsView { active_bundle: Some(ver), ..prior }))
        },
    }
}

/// Replaces project `i`.
fn set_project(projects: &mut Vec<ProjectConfig>, i: usize, p: ProjectConfig)
    requires
        i < old(projects)@.len(),
    ensures
        projects_view(final(projects)@) == projects_view(old(projects)@).update(i as int, p@),
{
    let ghost pv = p@;
    projects.set(i, p);
    assert(projects_view(projects@) =~= projects_view(old(projects)@).update(i as int, pv));
}

/// Replaces project version `j` of a project.
fn set_version(versions: &mut Vec<ProjectVersion>, j: usize, v: ProjectVersion)
    requires
        j < old(versions)@.len(),
    ensures
        versions_view(final(versions)@) == versions_view(old(versions)@).update(j as int, v@),
{
    let ghost vv = v@;
    versions.set(j, v);
    assert(versions_view(versions@) =~= versions_view(old(versions)@).update(j as int, vv));
}

/// An optional list of strings, copied.
fn copy_opt_strings(o: &Option<Vec<String>>) -> (r: Option<Vec<String>>)
    ensures
        opt_strings_view(r) == opt_strings_view(*o),
{
    match o {
        Some(v) => Some(copy_strings(v)),
        None => None,
    }
}

impl AppConfig {
    /// Changes the name, platforms or package name of project `id`; a new
    /// name must be a single path component.
    pub fn update_project(&mut self, id: &str, req: UpdateProjectRequest) -> (r: Result<(), ApiError>)
        ensures
            match update_project_spec(
                old(self)@,
                id@,
                opt_view(req.project_name),
                opt_strings_view(req.platforms),
                opt_view(req.package_name),
            ) {
                Ok(ps) => r is Ok && final(self)@ == ps,
                Err(e) => r matches Err(x) && error_view(x) == e && final(self)@ == old(self)@,
            },
    {
        let i = match find_project(&self.projects, id) {
            None => return Err(refuse(404, "Project not found")),
            Some(i) => i,
        };
        if let Some(n) = &req.project_name {
            if !valid_name(n.as_str()) {
                return Err(refuse(400, "Invalid project name"));
            }
        }
        let mut p = self.projects[i].duplicate();
        let ghost before = p@;
        match req.project_name {
            Some(n) => {
                p.project_name = n;
            },
            None => {},
        }
        match req.platforms {
            Some(v) => {
                p.platforms = v;
            },
            None => {},
        }
        match req.package_name {
            Some(n) => {
                p.package_name = n;
            },
            None => {},
        }
        set_project(&mut self.projects, i, p);
        Ok(())
    }

    /// Removes every project with identifier `id`, giving the name of the first.
    pub fn delete_project(&mut self, id: &str) -> (r: Result<String, ApiError>)
        ensures
            match delete_project_spec(old(self)@, id@) {
                Ok((ps, name)) => r matches Ok(n) && n@ == name && final(self)@ == ps,
                Err(e) => r matches Err(x) && error_view(x) == e && final(self)@ == old(self)@,
            },
    {
        let i = match find_project(&self.projects, id) {
            None => return Err(refuse(404, "Project not found")),
            Some(i) => i,
        };
        let name = self.projects[i].project_name.clone();
        let ghost old_ps = self@;
        let mut kept: Vec<ProjectConfig> = Vec::new();
        let mut k: usize = 0;
        while k < self.projects.len()
            invariant
                old_ps == projects_view(self.projects@),
                k <= self.projects@.len(),
                projects_view(kept@) =~= old_ps.subrange(0, k as int).filter(
                    |p: ProjectView| p.id != id@,
                ),
            decreases self.projects.len() - k,
        {
            let ghost pre = old_ps.subrange(0, k as int);
            assert(old_ps.subrange(0, k + 1) =~= pre.push(old_ps[k as int]));
            if !str_eq(self.projects[k].id.as_str(), id) {
                let ghost kv = kept@;
                kept.push(self.projects[k].duplicate());
                assert(projects_view(kept@) =~= projects_view(kv).push(old_ps[k as int]));
            }
            proof {
                pre.lemma_filter_push(old_ps[k as int], |p: ProjectView| p.id != id@);
            }
            k = k + 1;
        }
        assert(old_ps.subrange(0, self.projects@.len() as int) =~= old_ps);
        self.projects = kept;
        Ok(name)
    }

    /// Adds a new project named `project_name` (see `ProjectConfig::new`) and
    /// gives a copy of it.
    pub fn create_project(&mut self, project_name: String) -> (r: ProjectConfig)
        ensures
            final(self)@ == old(self)@.push(r@),
            crate::ids::is_uuid_v4_text(r.id@),
            r@.project_name == project_name@,
            r@.platforms == seq!["Android"@],
            r@.package_name == "DefaultPackage"@,
            r@.project_versions == Seq::<ProjectVersionView>::empty(),
    {
        let p = ProjectConfig::new(project_name);
        let copy = p.duplicate();
        let ghost old_ps = self@;
        self.projects.push(p);
        assert(self@ =~= old_ps.push(copy@));
        copy
    }
}

/// The settings with which a new project version starts for `platforms`.
pub fn initial_settings_for(platforms: &Vec<String>) -> (r: SettingsTable)
    ensures
        r@ == initial_settings(strings_view(platforms@)),
{
    let mut t = SettingsTable::new();
    let mut k: usize = 0;
    while k < platforms.len()
        invariant
            k <= platforms@.len(),
            t@ =~= initial_settings(strings_view(platforms@.subrange(0, k as int))),
        decreases platforms.len() - k,
    {
        let ghost pre = strings_view(platforms@.subrange(0, k as int));
        let ghost next = strings_view(platforms@.subrange(0, k + 1));
        assert(next =~= pre.push(platforms@[k as int]@));
        t.insert(platforms[k].as_str(), PlatformSettings { access_enabled: true, active_bundle: None });
        proof {
            assert forall|key: Seq<char>| #[trigger] next.contains(key) == (pre.contains(key) || key
                == platforms@[k as int]@) by {
                if next.contains(key) {
                    let x = choose|x: int| 0 <= x < next.len() && next[x] == key;
                    if x < pre.len() {
                        assert(pre[x] == key);
                    }
                }
                if pre.contains(key) {
                    let x = choose|x: int| 0 <= x < pre.len() && pre[x] == key;
                    assert(next[x] == key);
                }
                if key == platforms@[k as int]@ {
                    assert(next[k as int] == key);
                }
            }
        }
        k = k + 1;
    }
    assert(platforms@.subrange(0, platforms@.len() as int) =~= platforms@);
    t
}

impl AppConfig {
    /// Adds a project version named `raw_name` (trimmed) to project `id`, with
    /// every declared platform open and no active bundle.
    pub fn create_project_version(&mut self, id: &str, raw_name: &str) -> (r: Result<
        ProjectVersion,
        ApiError,
    >)
        ensures
            match create_project_version_spec(old(self)@, id@, raw_name@) {
                Ok((ps, pv)) => r matches Ok(v) && v@ == pv && final(self)@ == ps,
                Err(e) => r matches Err(x) && error_view(x) == e && final(self)@ == old(self)@,
            },
    {
        let name = trim(raw_name);
        if !valid_name(name.as_str()) {
            return Err(refuse(400, "Invalid project version name"));
        }
        let i = match find_project(&self.projects, id) {
            None => return Err(refuse(404, "Project not found")),
            Some(i) => i,
        };
        if find_version(&self.projects[i].project_versions, name.as_str()).is_some() {
            return Err(refuse(409, "Project version already exists"));
        }
        let settings = initial_settings_for(&self.projects[i].platforms);
        let pv = ProjectVersion { name, platform_settings: settings };
        let copy = pv.duplicate();
        let mut p = self.projects[i].duplicate();
        let ghost before = versions_view(p.project_versions@);
        p.project_versions.push(pv);
        assert(versions_view(p.project_versions@) =~= before.push(copy@));
        set_project(&mut self.projects, i, p);
        Ok(copy)
    }

    /// Removes project version `pver` from project `id`, giving the project's
    /// name.
    pub fn delete_project_version(&mut self, id: &str, pver: &str) -> (r: Result<String, ApiError>)
        ensures
            match delete_project_version_spec(old(self)@, id@, pver@) {
                Ok((ps, name)) => r matches Ok(n) && n@ == name && final(self)@ == ps,
                Err(e) => r matches Err(x) && error_view(x) == e && final(self)@ == old(self)@,
            },
    {
        let i = match find_project(&self.projects, id) {
            None => return Err(refuse(404, "Project not found")),
            Some(i) => i,
        };
        if find_version(&self.projects[i].project_versions, pver).is_none() {
            return Err(refuse(404, "Project version not found"));
        }
        let name = self.projects[i].project_name.clone();
        let mut p = self.projects[i].duplicate();
        let ghost old_vs = versions_view(p.project_versions@);
        let mut kept: Vec<ProjectVersion> = Vec::new();
        let mut k: usize = 0;
        while k < p.project_versions.len()
            invariant
                old_vs == versions_view(p.project_versions@),
                k <= p.project_versions@.len(),
                versions_view(kept@) =~= old_vs.subrange(0, k as int).filter(
                    |v: ProjectVersionView| v.name != pver@,
                ),
            decreases p.project_versions.len() - k,
        {
            let ghost pre = old_vs.subrange(0, k as int);
            assert(old_vs.subrange(0, k + 1) =~= pre.push(old_vs[k as int]));
            if !str_eq(p.project_versions[k].name.as_str(), pver) {
                let ghost kv = kept@;
                kept.push(p.project_versions[k].duplicate());
                assert(versions_view(kept@) =~= versions_view(kv).push(old_vs[k as int]));
            }
            proof {
                pre.lemma_filter_push(old_vs[k as int], |v: ProjectVersionView| v.name != pver@);
            }
            k = k + 1;
        }
        assert(old_vs.subrange(0, p.project_versions@.len() as int) =~= old_vs);
        p.project_versions = kept;
        set_project(&mut self.projects, i, p);
        Ok(name)
    }
}

impl AppConfig {
    /// Renames project version `pver` of project `id` to `raw_name` (trimmed).
    pub fn rename_project_version(&mut self, id: &str, pver: &str, raw_name: &str) -> (r: Result<
        RenameOutcome,
        ApiError,
    >)
        ensures
            match rename_project_version_spec(old(self)@, id@, pver@, raw_name@) {
                Ok((ps, None)) => r matches Ok(RenameOutcome::Unchanged) && final(self)@ == ps,
                Ok((ps, Some((project, new_name)))) => r matches Ok(
                    RenameOutcome::Renamed { project_name, new_name: n },
                ) && project_name@ == project && n@ == new_name && final(self)@ == ps,
                Err(e) => r matches Err(x) && error_view(x) == e && final(self)@ == old(self)@,
            },
    {
        let new_name = trim(raw_name);
        if !valid_name(new_name.as_str()) {
            return Err(refuse(400, "Invalid project version name"));
        }
        if str_eq(new_name.as_str(), pver) {
            return Ok(RenameOutcome::Unchanged);
        }
        let i = match find_project(&self.projects, id) {
            None => return Err(refuse(404, "Project not found")),
            Some(i) => i,
        };
        if find_version(&self.projects[i].project_versions, new_name.as_str()).is_some() {
            return Err(refuse(409, "Project version already exists"));
        }
        let j = match find_version(&self.projects[i].project_versions, pver) {
            None => return Err(refuse(404, "Project version not found")),
            Some(j) => j,
        };
        let mut p = self.projects[i].duplicate();
        let mut v = p.project_versions[j].duplicate();
        v.name = new_name.clone();
        set_version(&mut p.project_versions, j, v);
        let project_name = p.project_name.clone();
        set_project(&mut self.projects, i, p);
        Ok(RenameOutcome::Renamed { project_name, new_name })
    }

    /// Gives the first project version named `new_name` of project `id` its
    /// old name `pver` back, where both exist; says whether it did.
    pub fn revert_rename(&mut self, id: &str, pver: &str, new_name: &str) -> (r: bool)
        ensures
            final(self)@ == revert_rename_spec(old(self)@, id@, pver@, new_name@),
            r == (first_with(project_ids(old(self)@), id@) matches Some(i) && version_names(
                old(self)@[i].project_versions,
            ).contains(new_name@)),
    {
        let i = match find_project(&self.projects, id) {
            None => return false,
            Some(i) => i,
        };
        let j = match find_version(&self.projects[i].project_versions, new_name) {
            None => {
                assert(self@ =~= revert_rename_spec(self@, id@, pver@, new_name@));
                return false;
            },
            Some(j) => j,
        };
        let mut p = self.projects[i].duplicate();
        let mut v = p.project_versions[j].duplicate();
        v.name = owned(pver);
        set_version(&mut p.project_versions, j, v);
        set_project(&mut self.projects, i, p);
        true
    }

    /// Locates the project and project version that a platform request names.
    fn platform_target(&self, id: &str, pver: &str, plat: &str) -> (r: Result<(usize, usize), ApiError>)
        ensures
            match r {
                Ok((i, j)) => platform_target(self@, id@, pver@, plat@) == Ok::<
                    (int, int),
                    (u16, Seq<char>),
                >((i as int, j as int)) && i < self.projects@.len() && j
                    < self.projects@[i as int].project_versions@.len(),
                Err(x) => platform_target(self@, id@, pver@, plat@) == Err::<(int, int), (u16, Seq<char>)>(
                    error_view(x),
                ),
            },
    {
        let i = match find_project(&self.projects, id) {
            None => return Err(refuse(404, "Project not found")),
            Some(i) => i,
        };
        match position_of(&self.projects[i].platforms, plat) {
            None => return Err(refuse(404, "Platform not declared on project")),
            Some(_) => {},
        }
        match find_version(&self.projects[i].project_versions, pver) {
            None => Err(refuse(404, "Project version not found")),
            Some(j) => Ok((i, j)),
        }
    }

    /// Replaces the settings of platform `plat` of project version `j` of
    /// project `i`.
    fn put_settings(&mut self, i: usize, j: usize, plat: &str, s: PlatformSettings)
        requires
            i < old(self).projects@.len(),
            j < old(self).projects@[i as int].project_versions@.len(),
        ensures
            final(self)@ == with_platform_settings(old(self)@, i as int, j as int, plat@, s@),
    {
        let mut p = self.projects[i].duplicate();
        assert(versions_view(p.project_versions@).len() == p.project_versions@.len());
        assert(self@[i as int] == self.projects@[i as int]@);
        let mut v = p.project_versions[j].duplicate();
        v.platform_settings.insert(plat, s);
        set_version(&mut p.project_versions, j, v);
        set_project(&mut self.projects, i, p);
    }

    /// Switches access to platform `plat` of project version `pver` of
    /// project `id`.
    pub fn set_platform_access(&mut self, id: &str, pver: &str, plat: &str, enabled: bool) -> (r:
        Result<(), ApiError>)
        ensures
            match set_platform_access_spec(old(self)@, id@, pver@, plat@, enabled) {
                Ok(ps) => r is Ok && final(self)@ == ps,
                Err(e) => r matches Err(x) && error_view(x) == e && final(self)@ == old(self)@,
            },
    {
        let (i, j) = match self.platform_target(id, pver, plat) {
            Ok(t) => t,
            Err(e) => return Err(e),
        };
        assert(self@[i as int] == self.projects@[i as int]@);
        assert(self@[i as int].project_versions[j as int]
            == self.projects@[i as int].project_versions@[j as int]@);
        let active = match self.projects[i].project_versions[j].platform_settings.get(plat) {
            Some(s) => crate::remote::config::copy_opt(&s.active_bundle),
            None => None,
        };
        let ghost old_ps = self@;
        let ghost table = old_ps[i as int].project_versions[j as int].platform_settings;
        let ghost prior = if table.contains_key(plat@) {
            table[plat@]
        } else {
            SettingsView { access_enabled: false, active_bundle: None }
        };
        let ns = PlatformSettings { access_enabled: enabled, active_bundle: active };
        assert(ns@ == SettingsView { access_enabled: enabled, ..prior });
        self.put_settings(i, j, plat, ns);
        Ok(())
    }

    /// Makes bundle version `ver` the active one for platform `plat` of
    /// project version `pver` of project `id`; only the configuration changes.
    pub fn activate_version(&mut self, id: &str, pver: &str, ver: &str, plat: &str) -> (r: Result<
        (),
        ApiError,
    >)
        ensures
            match activate_version_spec(old(self)@, id@, pver@, ver@, plat@) {
                Ok(ps) => r is Ok && final(self)@ == ps,
                Err(e) => r matches Err(x) && error_view(x) == e && final(self)@ == old(self)@,
            },
    {
        let (i, j) = match self.platform_target(id, pver, plat) {
            Ok(t) => t,
            Err(e) => return Err(e),
        };
        assert(self@[i as int] == self.projects@[i as int]@);
        assert(self@[i as int].project_versions[j as int]
            == self.projects@[i as int].project_versions@[j as int]@);
        let enabled = match self.projects[i].project_versions[j].platform_settings.get(plat) {
            Some(s) => s.access_enabled,
            None => true,
        };
        self.put_settings(i, j, plat, PlatformSettings { access_enabled: enabled, active_bundle: Some(owned(ver)) });
        Ok(())
    }

    /// The project versions of project `id`.
    pub fn project_versions_of(&self, id: &str) -> (r: Result<Vec<ProjectVersion>, ApiError>)
        ensures
            match first_with(project_ids(self@), id@) {
                Some(i) => r matches Ok(v) && versions_view(v@) == self@[i].project_versions,
                None => r matches Err(x) && error_view(x) == api_error(404, "Project not found"@),
            },
    {
        match find_project(&self.projects, id) {
            None => Err(refuse(404, "Project not found")),
            Some(i) => Ok(copy_versions(&self.projects[i].project_versions)),
        }
    }

    /// The status of project version `pver` of project `id`: the project's
    /// identifier and name, and a copy of the project version.
    pub fn project_status(&self, id: &str, pver: &str) -> (r: Result<
        (String, String, ProjectVersion),
        ApiError,
    >)
        ensures
            match first_with(project_ids(self@), id@) {
                None => r matches Err(x) && error_view(x) == api_error(404, "Project not found"@),
                Some(i) => match first_with(version_names(self@[i].project_versions), pver@) {
                    None => r matches Err(x) && error_view(x) == api_error(
                        404,
                        "Project version not found"@,
                    ),
                    Some(j) => r matches Ok((pid, name, v)) && pid@ == self@[i].id && name@
                        == self@[i].project_name && v@ == self@[i].project_versions[j],
                },
            },
    {
        let i = match find_project(&self.projects, id) {
            None => return Err(refuse(404, "Project not found")),
            Some(i) => i,
        };
        match find_version(&self.projects[i].project_versions, pver) {
            None => Err(refuse(404, "Project version not found")),
            Some(j) => Ok(
                (
                    self.projects[i].id.clone(),
                    self.projects[i].project_name.clone(),
                    self.projects[i].project_versions[j].duplicate(),
                ),
            ),
        }
    }
}

/// The platform a request names, or `Android` where it names none.
pub fn platform_or_default(p: Option<String>) -> (r: String)
    ensures
        r@ == or_else(opt_view(p), "Android"@),
{
    match p {
        Some(s) => s,
        None => owned("Android"),
    }
}

} // verus!
