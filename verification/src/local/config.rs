//! The desktop client's configuration: the projects it serves locally, each
//! with its per-platform access switches, and the remote servers it knows.
use vstd::prelude::*;
use crate::ids::{is_uuid_v4_text, new_uuid_v4};
use crate::text::{concat, decimal, decimal_string, owned, str_eq};
use crate::remote::config::{copy_strings, strings_view};
use crate::lookup::{first_with, lemma_first_with, lemma_first_none};

verus! {

/// Whether requests for each platform are served, keyed by platform name; no
/// name occurs twice.
#[derive(Debug)]
pub struct AccessTable {
    entries: Vec<(String, bool)>,
}

/// Some entry of `e` has the key `k`.
pub open spec fn has_key(e: Seq<(String, bool)>, k: Seq<char>) -> bool {
    exists|i: int| 0 <= i < e.len() && (#[trigger] e[i]).0@ == k
}

/// No key occurs twice in `e`.
pub open spec fn distinct_keys(e: Seq<(String, bool)>) -> bool {
    forall|i: int, j: int|
        0 <= i < j < e.len() ==> (#[trigger] e[i]).0@ != (#[trigger] e[j]).0@
}

/// The entries `e` as a map from platform name to switch.
pub open spec fn entries_map(e: Seq<(String, bool)>) -> Map<Seq<char>, bool> {
    Map::new(
        |k: Seq<char>| has_key(e, k),
        |k: Seq<char>| e[choose|i: int| 0 <= i < e.len() && (#[trigger] e[i]).0@ == k].1@,
    )
}

proof fn lemma_entry(e: Seq<(String, bool)>, i: int)
    requires
        distinct_keys(e),
        0 <= i < e.len(),
    ensures
        entries_map(e).contains_key(e[i].0@),
        entries_map(e)[e[i].0@] == e[i].1@,
{
    let k = e[i].0@;
    assert(has_key(e, k));
    let j = choose|j: int| 0 <= j < e.len() && (#[trigger] e[j]).0@ == k;
    if j < i {
        assert(e[j].0@ != e[i].0@);
    } else if j > i {
        assert(e[i].0@ != e[j].0@);
    }
}

proof fn lemma_lookup(e: Seq<(String, bool)>, k: Seq<char>) -> (i: int)
    requires
        distinct_keys(e),
        entries_map(e).contains_key(k),
    ensures
        0 <= i < e.len(),
        e[i].0@ == k,
        entries_map(e)[k] == e[i].1@,
{
    let i = choose|i: int| 0 <= i < e.len() && (#[trigger] e[i]).0@ == k;
    lemma_entry(e, i);
    i
}

impl AccessTable {
    /// No platform name occurs twice.
    #[verifier::type_invariant]
    spec fn well_formed(self) -> bool {
        distinct_keys(self.entries@)
    }

    /// The table as a map from platform name to switch.
    pub closed spec fn as_map(self) -> Map<Seq<char>, bool> {
        entries_map(self.entries@)
    }

    /// An empty table.
    pub fn new() -> (r: Self)
        ensures
            r@ == Map::<Seq<char>, bool>::empty(),
    {
        let r = AccessTable { entries: Vec::new() };
        assert(r@ =~= Map::<Seq<char>, bool>::empty());
        r
    }

    /// The switch of platform `k`, if it has one.
    pub fn get(&self, k: &str) -> (r: Option<bool>)
        ensures
            match r {
                Some(s) => self@.contains_key(k@) && self@[k@] == s,
                None => !self@.contains_key(k@),
            },
    {
        proof {
            use_type_invariant(self);
        }
        match index_in(&self.entries, k) {
            Some(i) => {
                proof {
                    lemma_entry(self.entries@, i as int);
                }
                Some(self.entries[i].1)
            },
            None => None,
        }
    }

    /// Sets the switch of platform `k`, replacing any it had.
    pub fn insert(&mut self, k: &str, v: bool)
        ensures
            final(self)@ == old(self)@.insert(k@, v@),
    {
        proof {
            use_type_invariant(&*self);
        }
        let ghost old_entries = self.entries@;
        let ghost old_map = self@;
        let ghost vv = v@;
        let mut entries: Vec<(String, bool)> = Vec::new();
        std::mem::swap(&mut entries, &mut self.entries);
        assert(entries@ == old_entries);
        let idx = index_in(&entries, k);
        match idx {
            Some(i) => {
                entries.set(i, (owned(k), v));
            },
            None => {
                entries.push((owned(k), v));
            },
        }
        let ghost ne = entries@;
        proof {
            assert forall|a: int, b: int|
                0 <= a < b < ne.len() implies (#[trigger] ne[a]).0@ != (#[trigger] ne[b]).0@ by {
                if idx is None && b == ne.len() - 1 {
                    assert(old_entries[a].0@ != k@);
                } else {
                    assert(old_entries[a].0@ != old_entries[b].0@);
                }
            }
            assert forall|key: Seq<char>| #[trigger]
                entries_map(ne).contains_key(key) == old_map.insert(k@, vv).contains_key(key) by {
                if key == k@ {
                    let j = if let Some(i) = idx { i as int } else { ne.len() - 1 };
                    assert(ne[j].0@ == key);
                } else {
                    if old_map.contains_key(key) {
                        let j = lemma_lookup(old_entries, key);
                        assert(ne[j].0@ == key);
                    }
                    if entries_map(ne).contains_key(key) {
                        let j = lemma_lookup(ne, key);
                        assert(old_entries[j].0@ == key);
                    }
                }
            }
            assert forall|key: Seq<char>| #[trigger]
                entries_map(ne).contains_key(key) implies entries_map(ne)[key] == old_map.insert(
                k@,
                vv,
            )[key] by {
                let j = lemma_lookup(ne, key);
                if key != k@ {
                    assert(old_entries[j] == ne[j]);
                    lemma_entry(old_entries, j);
                }
            }
            assert(entries_map(ne) =~= old_map.insert(k@, vv));
        }
        self.entries = entries;
    }
}

fn index_in(entries: &Vec<(String, bool)>, k: &str) -> (r: Option<usize>)
    ensures
        match r {
            Some(i) => i < entries@.len() && entries@[i as int].0@ == k@,
            None => !has_key(entries@, k@),
        },
{
    let mut i: usize = 0;
    while i < entries.len()
        invariant
            i <= entries@.len(),
            forall|j: int| 0 <= j < i ==> (#[trigger] entries@[j]).0@ != k@,
        decreases entries.len() - i,
    {
        if str_eq(entries[i].0.as_str(), k) {
            return Some(i);
        }
        i = i + 1;
    }
    None
}

impl View for AccessTable {
    type V = Map<Seq<char>, bool>;

    open spec fn view(&self) -> Map<Seq<char>, bool> {
        self.as_map()
    }
}

impl AccessTable {
    /// The entries of the table, each platform once, for writing it out.
    pub fn entries(&self) -> (r: &Vec<(String, bool)>)
        ensures
            distinct_keys(r@),
            entries_map(r@) == self@,
    {
        proof {
            use_type_invariant(self);
        }
        &self.entries
    }

    /// A copy of the table.
    pub fn duplicate(&self) -> (r: Self)
        ensures
            r@ == self@,
    {
        proof {
            use_type_invariant(self);
        }
        let mut out: Vec<(String, bool)> = Vec::new();
        let mut i: usize = 0;
        while i < self.entries.len()
            invariant
                i <= self.entries@.len(),
                distinct_keys(self.entries@),
                out@.len() == i,
                forall|j: int|
                    0 <= j < i ==> (#[trigger] out@[j]).0@ == self.entries@[j].0@ && out@[j].1@
                        == self.entries@[j].1@,
            decreases self.entries.len() - i,
        {
            out.push((self.entries[i].0.clone(), self.entries[i].1));
            i = i + 1;
        }
        proof {
            let e = self.entries@;
            let o = out@;
            assert forall|a: int, b: int| 0 <= a < b < o.len() implies (#[trigger] o[a]).0@
                != (#[trigger] o[b]).0@ by {
                assert(e[a].0@ != e[b].0@);
            }
            assert forall|key: Seq<char>| #[trigger]
                entries_map(o).contains_key(key) == entries_map(e).contains_key(key) by {
                if entries_map(o).contains_key(key) {
                    let j = lemma_lookup(o, key);
                    assert(e[j].0@ == key);
                }
                if entries_map(e).contains_key(key) {
                    let j = lemma_lookup(e, key);
                    assert(o[j].0@ == key);
                }
            }
            assert forall|key: Seq<char>| #[trigger] entries_map(o).contains_key(key) implies entries_map(
                o,
            )[key] == entries_map(e)[key] by {
                let j = lemma_lookup(o, key);
                lemma_entry(e, j);
            }
            assert(entries_map(o) =~= entries_map(e));
        }
        AccessTable { entries: out }
    }
}

/// What a local project holds.
pub ghost struct LocalProjectView {
    /// The project's identifier.
    pub id: Seq<char>,
    /// The project's display name.
    pub project_name: Seq<char>,
    /// The root of the Unity build output (the `Bundles` directory).
    pub bundles_dir: Seq<char>,
    /// The port the local server listens on.
    pub port: u16,
    /// The platforms served.
    pub platforms: Seq<Seq<char>>,
    /// Whether cross-origin requests are allowed.
    pub cors_enabled: bool,
    /// The YooAsset package name.
    pub package_name: Seq<char>,
    /// Whether requests for each platform are served; a platform without an
    /// entry is served.
    pub platform_access: Map<Seq<char>, bool>,
}

/// One project served by the desktop client.
#[derive(Debug)]
pub struct ProjectConfig {
    /// The project's identifier.
    pub id: String,
    /// The project's display name.
    pub project_name: String,
    /// The root of the Unity build output (the `Bundles` directory).
    pub bundles_dir: String,
    /// The port the local server listens on.
    pub port: u16,
    /// The platforms served.
    pub platforms: Vec<String>,
    /// Whether cross-origin requests are allowed.
    pub cors_enabled: bool,
    /// The YooAsset package name, such as `DefaultPackage`.
    pub package_name: String,
    /// Whether requests for each platform are served.
    pub platform_access: AccessTable,
}

impl View for ProjectConfig {
    type V = LocalProjectView;

    open spec fn view(&self) -> LocalProjectView {
        LocalProjectView {
            id: self.id@,
            project_name: self.project_name@,
            bundles_dir: self.bundles_dir@,
            port: self.port,
            platforms: strings_view(self.platforms@),
            cors_enabled: self.cors_enabled,
            package_name: self.package_name@,
            platform_access: self.platform_access@,
        }
    }
}

/// The settings a new project starts with, whatever its identifier.
pub open spec fn is_default_project(p: LocalProjectView) -> bool {
    &&& is_uuid_v4_text(p.id)
    &&& p.project_name == "TEngine"@
    &&& p.bundles_dir == Seq::<char>::empty()
    &&& p.port == 8081
    &&& p.platforms == seq!["Android"@]
    &&& p.cors_enabled
    &&& p.package_name == "DefaultPackage"@
    &&& p.platform_access == map!["Android"@ => true]
}

impl Default for ProjectConfig {
    /// A new project: a fresh identifier, the name `TEngine`, no build
    /// directory yet, port 8081, the Android platform (served), cross-origin
    /// requests allowed and the package `DefaultPackage`.
    fn default() -> (r: Self)
        ensures
            is_default_project(r@),
    {
        let mut platform_access = AccessTable::new();
        platform_access.insert("Android", true);
        let mut platforms: Vec<String> = Vec::new();
        platforms.push(owned("Android"));
        let r = ProjectConfig {
            id: new_uuid_v4(),
            project_name: owned("TEngine"),
            bundles_dir: String::new(),
            port: 8081,
            platforms,
            cors_enabled: true,
            package_name: owned("DefaultPackage"),
            platform_access,
        };
        assert(r@.platforms =~= seq!["Android"@]);
        assert(r@.platform_access =~= map!["Android"@ => true]);
        r
    }
}

impl ProjectConfig {
    /// A copy of this project.
    pub fn duplicate(&self) -> (r: Self)
        ensures
            r@ == self@,
    {
        ProjectConfig {
            id: self.id.clone(),
            project_name: self.project_name.clone(),
            bundles_dir: self.bundles_dir.clone(),
            port: self.port,
            platforms: copy_strings(&self.platforms),
            cors_enabled: self.cors_enabled,
            package_name: self.package_name.clone(),
            platform_access: self.platform_access.duplicate(),
        }
    }
}

/// A remote server the client has connected to.
#[derive(Debug)]
pub struct RemoteConnection {
    /// The server's base URL.
    pub server_url: String,
}

impl Default for RemoteConnection {
    /// A connection with no URL yet.
    fn default() -> (r: Self)
        ensures
            r.server_url@ == Seq::<char>::empty(),
    {
        RemoteConnection { server_url: String::new() }
    }
}

/// The projects of `v`, by their views.
pub open spec fn local_projects_view(v: Seq<ProjectConfig>) -> Seq<LocalProjectView> {
    v.map_values(|p: ProjectConfig| p@)
}

/// The identifiers of the projects `ps`, in order.
pub open spec fn local_ids(ps: Seq<LocalProjectView>) -> Seq<Seq<char>> {
    ps.map_values(|p: LocalProjectView| p.id)
}

/// Some project of `ps` listens on port `port`.
pub open spec fn port_used(ps: Seq<LocalProjectView>, port: int) -> bool {
    exists|i: int| 0 <= i < ps.len() && (#[trigger] ps[i]).port == port
}

/// Some port from 8081 up is free.
pub open spec fn free_port_exists(ps: Seq<LocalProjectView>) -> bool {
    exists|p: int| 8081 <= p <= 65535 && !#[trigger] port_used(ps, p)
}

/// `port` is the least port from 8081 up that no project of `ps` uses.
pub open spec fn is_first_free_port(ps: Seq<LocalProjectView>, port: int) -> bool {
    &&& 8081 <= port <= 65535
    &&& !port_used(ps, port)
    &&& forall|q: int| 8081 <= q < port ==> #[trigger] port_used(ps, q)
}

/// The name a new project gets when `count` projects exist.
pub open spec fn new_project_name(count: nat) -> Seq<char> {
    "Project_"@ + decimal(count + 1)
}

/// The desktop client's whole configuration.
#[derive(Debug)]
pub struct AppConfig {
    /// The projects, in the order they were added.
    pub projects: Vec<ProjectConfig>,
    /// The remote servers the client knows.
    pub remote_connections: Vec<RemoteConnection>,
}

impl Default for AppConfig {
    /// One new project and no remote connection.
    fn default() -> (r: Self)
        ensures
            r.projects.len() == 1,
            is_default_project(r.projects@[0]@),
            r.remote_connections.len() == 0,
    {
        let mut projects: Vec<ProjectConfig> = Vec::new();
        projects.push(ProjectConfig::default());
        AppConfig { projects, remote_connections: Vec::new() }
    }
}

impl AppConfig {
    /// Whether port `port` is taken by some project.
    fn uses_port(&self, port: u16) -> (r: bool)
        ensures
            r == port_used(local_projects_view(self.projects@), port as int),
    {
        let ghost ps = local_projects_view(self.projects@);
        let mut i: usize = 0;
        while i < self.projects.len()
            invariant
                ps == local_projects_view(self.projects@),
                i <= self.projects.len(),
                forall|k: int| 0 <= k < i ==> (#[trigger] ps[k]).port != port,
            decreases self.projects.len() - i,
        {
            if self.projects[i].port == port {
                assert(ps[i as int].port == port);
                return true;
            }
            i = i + 1;
        }
        false
    }

    /// Whether a new project can get a port: some port from 8081 up is free.
    pub fn has_free_port(&self) -> (r: bool)
        ensures
            r == free_port_exists(local_projects_view(self.projects@)),
    {
        let ghost ps = local_projects_view(self.projects@);
        let mut p: u16 = 8081;
        loop
            invariant
                ps == local_projects_view(self.projects@),
                8081 <= p,
                forall|q: int| 8081 <= q < p ==> #[trigger] port_used(ps, q),
            decreases 65535 - p,
        {
            if !self.uses_port(p) {
                return true;
            }
            if p == 65535 {
                assert forall|q: int| 8081 <= q <= 65535 implies #[trigger] port_used(ps, q) by {
                    if q == 65535 {
                        assert(port_used(ps, p as int));
                    }
                }
                return false;
            }
            p = p + 1;
        }
    }

    /// Adds a new project with default settings, on the least port from 8081
    /// up that no other project uses, named `Project_` and the new number of
    /// projects. Returns a copy of it.
    pub fn add_project(&mut self) -> (r: ProjectConfig)
        requires
            free_port_exists(local_projects_view(old(self).projects@)),
            old(self).projects.len() < usize::MAX,
        ensures
            is_uuid_v4_text(r@.id),
            is_first_free_port(local_projects_view(old(self).projects@), r@.port as int),
            r@.project_name == new_project_name(old(self).projects.len() as nat),
            r@.bundles_dir == Seq::<char>::empty(),
            r@.platforms == seq!["Android"@],
            r@.cors_enabled,
            r@.package_name == "DefaultPackage"@,
            r@.platform_access == map!["Android"@ => true],
            local_projects_view(final(self).projects@) == local_projects_view(old(self).projects@).push(r@),
            final(self).remote_connections@ == old(self).remote_connections@,
    {
        let ghost ps = local_projects_view(self.projects@);
        let mut project = ProjectConfig::default();
        loop
            invariant
                ps == local_projects_view(self.projects@),
                free_port_exists(ps),
                is_default_project(
                    LocalProjectView { port: 8081, ..project@ },
                ),
                8081 <= project.port,
                forall|q: int| 8081 <= q < project.port ==> #[trigger] port_used(ps, q),
            ensures
                !port_used(ps, project.port as int),
            decreases 65535 - project.port,
        {
            if !self.uses_port(project.port) {
                break;
            }
            if project.port == 65535 {
                proof {
                    let w = choose|w: int| 8081 <= w <= 65535 && !#[trigger] port_used(ps, w);
                    if w < 65535 {
                        assert(port_used(ps, w));
                    }
                }
            }
            project.port = project.port + 1;
        }
        let count: u64 = self.projects.len() as u64;
        let number = decimal_string(count + 1);
        project.project_name = concat("Project_", number.as_str());
        let copy = project.duplicate();
        self.projects.push(project);
        proof {
            assert(local_projects_view(self.projects@) =~= ps.push(copy@));
        }
        copy
    }
}

/// The message given when no project has the identifier asked for.
pub open spec fn no_such_project() -> Seq<char> {
    "项目不存在"@
}

impl AppConfig {
    /// Drops every project with identifier `id`, keeping the others in order.
    pub fn remove_project(&mut self, id: &str)
        ensures
            local_projects_view(final(self).projects@) == local_projects_view(old(self).projects@).filter(
                |p: LocalProjectView| p.id != id@,
            ),
            final(self).remote_connections@ == old(self).remote_connections@,
    {
        let ghost ps = local_projects_view(self.projects@);
        let ghost f = |p: LocalProjectView| p.id != id@;
        let mut kept: Vec<ProjectConfig> = Vec::new();
        let mut i: usize = 0;
        while i < self.projects.len()
            invariant
                ps == local_projects_view(self.projects@),
                f == (|p: LocalProjectView| p.id != id@),
                i <= self.projects.len(),
                local_projects_view(kept@) == ps.subrange(0, i as int).filter(f),
            decreases self.projects.len() - i,
        {
            proof {
                assert(ps.subrange(0, i + 1) =~= ps.subrange(0, i as int).push(ps[i as int]));
                ps.subrange(0, i as int).lemma_filter_push(ps[i as int], f);
                assert(ps[i as int] == self.projects@[i as int]@);
            }
            if !str_eq(self.projects[i].id.as_str(), id) {
                let ghost before = kept@;
                kept.push(self.projects[i].duplicate());
                proof {
                    assert(f(ps[i as int]));
                    assert(local_projects_view(kept@) =~= local_projects_view(before).push(ps[i as int]));
                }
            } else {
                assert(!f(ps[i as int]));
            }
            i = i + 1;
        }
        proof {
            assert(ps.subrange(0, self.projects.len() as int) =~= ps);
        }
        self.projects = kept;
    }

    /// Replaces the first project whose identifier is that of `project` by
    /// `project`; leaves the projects as they are where none has it.
    pub fn update_project(&mut self, project: ProjectConfig)
        ensures
            ({
                let ps = local_projects_view(old(self).projects@);
                local_projects_view(final(self).projects@) == match first_with(local_ids(ps), project@.id) {
                    Some(i) => ps.update(i, project@),
                    None => ps,
                }
            }),
            final(self).remote_connections@ == old(self).remote_connections@,
    {
        let ghost ps = local_projects_view(self.projects@);
        match self.position(project.id.as_str()) {
            Some(i) => {
                self.projects.set(i, project);
                proof {
                    assert(local_projects_view(self.projects@) =~= ps.update(i as int, project@));
                }
            },
            None => {},
        }
    }

    /// The position of the first project with identifier `id`.
    fn position(&self, id: &str) -> (r: Option<usize>)
        ensures
            match r {
                Some(i) => first_with(local_ids(local_projects_view(self.projects@)), id@) == Some(i as int)
                    && i < self.projects.len(),
                None => first_with(local_ids(local_projects_view(self.projects@)), id@) is None,
            },
    {
        let ghost keys = local_ids(local_projects_view(self.projects@));
        let mut i: usize = 0;
        while i < self.projects.len()
            invariant
                keys == local_ids(local_projects_view(self.projects@)),
                i <= self.projects.len(),
                forall|k: int| 0 <= k < i ==> keys[k] != id@,
            decreases self.projects.len() - i,
        {
            if str_eq(self.projects[i].id.as_str(), id) {
                proof {
                    lemma_first_with(keys, id@, i as int);
                }
                return Some(i);
            }
            i = i + 1;
        }
        proof {
            lemma_first_none(keys, id@);
        }
        None
    }

    /// A copy of the first project with identifier `id`, or the message that
    /// there is none.
    pub fn project(&self, id: &str) -> (r: Result<ProjectConfig, String>)
        ensures
            ({
                let ps = local_projects_view(self.projects@);
                match first_with(local_ids(ps), id@) {
                    Some(i) => r matches Ok(p) && p@ == ps[i],
                    None => r matches Err(e) && e@ == no_such_project(),
                }
            }),
    {
        match self.position(id) {
            Some(i) => Ok(self.projects[i].duplicate()),
            None => Err(owned("项目不存在")),
        }
    }
}

/// Removing a project added to projects that have no project with its
/// identifier gives those projects back.
pub proof fn law_add_then_remove(ps: Seq<LocalProjectView>, p: LocalProjectView)
    requires
        forall|i: int| 0 <= i < ps.len() ==> ps[i].id != p.id,
    ensures
        ps.push(p).filter(|q: LocalProjectView| q.id != p.id) == ps,
{
    let f = |q: LocalProjectView| q.id != p.id;
    ps.lemma_filter_push(p, f);
    lemma_filter_keeps(ps, p.id);
}

proof fn lemma_filter_keeps(ps: Seq<LocalProjectView>, id: Seq<char>)
    requires
        forall|i: int| 0 <= i < ps.len() ==> ps[i].id != id,
    ensures
        ps.filter(|q: LocalProjectView| q.id != id) == ps,
    decreases ps.len(),
{
    let f = |q: LocalProjectView| q.id != id;
    if ps.len() == 0 {
        assert(ps.filter(f) =~= ps);
    } else {
        let t = ps.drop_last();
        assert forall|i: int| 0 <= i < t.len() implies t[i].id != id by {
            assert(t[i] == ps[i]);
        }
        lemma_filter_keeps(t, id);
        assert(ps =~= t.push(ps.last()));
        t.lemma_filter_push(ps.last(), f);
    }
}

} // verus!
