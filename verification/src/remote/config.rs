//! The remote server's configuration: projects, their project versions and the
//! per-platform settings of each project version.
use vstd::prelude::*;
use crate::text::{owned, str_eq};
use crate::ids::{is_uuid_v4_text, new_uuid_v4};
use crate::text::{parse_unsigned, parse_unsigned_spec};
use crate::paths::{join, join_path};
use crate::digest::{lemma_lower_hex_len, lower_hex, lower_hex_spec, sha256, sha256_of};
use crate::remote::auth::{argon2_accepts, hash_secret, phc_parses};
use vstd::utf8::encode_utf8;

verus! {

/// What a platform's settings hold.
pub ghost struct SettingsView {
    /// Whether resource requests for the platform are served.
    pub access_enabled: bool,
    /// The bundle version that resource requests are served from.
    pub active_bundle: Option<Seq<char>>,
}

/// An optional string, by its view.
pub open spec fn opt_view(o: Option<String>) -> Option<Seq<char>> {
    match o {
        Some(s) => Some(s@),
        None => None,
    }
}

/// Settings of one platform within one project version.
#[derive(Debug)]
pub struct PlatformSettings {
    /// Whether resource requests for this platform are served.
    pub access_enabled: bool,
    /// The bundle version that resource requests are served from.
    pub active_bundle: Option<String>,
}

impl View for PlatformSettings {
    type V = SettingsView;

    open spec fn view(&self) -> SettingsView {
        SettingsView { access_enabled: self.access_enabled, active_bundle: opt_view(self.active_bundle) }
    }
}

/// A copy of an optional string.
pub fn copy_opt(o: &Option<String>) -> (r: Option<String>)
    ensures
        opt_view(r) == opt_view(*o),
{
    match o {
        Some(s) => Some(s.clone()),
        None => None,
    }
}

impl PlatformSettings {
    /// A copy of these settings.
    pub fn duplicate(&self) -> (r: Self)
        ensures
            r@ == self@,
    {
        PlatformSettings { access_enabled: self.access_enabled, active_bundle: copy_opt(&self.active_bundle) }
    }
}

/// The settings of each platform, keyed by platform name; no name occurs twice.
#[derive(Debug)]
pub struct SettingsTable {
    entries: Vec<(String, PlatformSettings)>,
}

/// Some entry of `e` has the key `k`.
pub open spec fn has_key(e: Seq<(String, PlatformSettings)>, k: Seq<char>) -> bool {
    exists|i: int| 0 <= i < e.len() && (#[trigger] e[i]).0@ == k
}

/// No key occurs twice in `e`.
pub open spec fn distinct_keys(e: Seq<(String, PlatformSettings)>) -> bool {
    forall|i: int, j: int|
        0 <= i < j < e.len() ==> (#[trigger] e[i]).0@ != (#[trigger] e[j]).0@
}

/// The entries `e` as a map from key to settings.
pub open spec fn entries_map(e: Seq<(String, PlatformSettings)>) -> Map<Seq<char>, SettingsView> {
    Map::new(
        |k: Seq<char>| has_key(e, k),
        |k: Seq<char>| e[choose|i: int| 0 <= i < e.len() && (#[trigger] e[i]).0@ == k].1@,
    )
}

proof fn lemma_entry(e: Seq<(String, PlatformSettings)>, i: int)
    requires
        distinct_keys(e),
        0 <= i < e.len(),
    ensures
        entries_map(e).contains_key(e[i].0@),
        entries_map(e)[e[i].0@] == e[i].1@,
{
    let k = e[i].0@;
    assert(has_key(e, k));
    let j = choose|j: int| 0 <= j < e.len() && (#[trigger] e[j]).0@ == k;
    if j < i {
        assert(e[j].0@ != e[i].0@);
    } else if j > i {
        assert(e[i].0@ != e[j].0@);
    }
}

proof fn lemma_lookup(e: Seq<(String, PlatformSettings)>, k: Seq<char>) -> (i: int)
    requires
        distinct_keys(e),
        entries_map(e).contains_key(k),
    ensures
        0 <= i < e.len(),
        e[i].0@ == k,
        entries_map(e)[k] == e[i].1@,
{
    let i = choose|i: int| 0 <= i < e.len() && (#[trigger] e[i]).0@ == k;
    lemma_entry(e, i);
    i
}

impl SettingsTable {
    /// No platform name occurs twice.
    #[verifier::type_invariant]
    spec fn well_formed(self) -> bool {
        distinct_keys(self.entries@)
    }

    /// The table as a map from platform name to settings.
    pub closed spec fn as_map(self) -> Map<Seq<char>, SettingsView> {
        entries_map(self.entries@)
    }

    /// An empty table.
    pub fn new() -> (r: Self)
        ensures
            r@ == Map::<Seq<char>, SettingsView>::empty(),
    {
        let r = SettingsTable { entries: Vec::new() };
        assert(r@ =~= Map::<Seq<char>, SettingsView>::empty());
        r
    }

    /// The settings of platform `k`, if it has any.
    pub fn get(&self, k: &str) -> (r: Option<&PlatformSettings>)
        ensures
            match r {
                Some(s) => self@.contains_key(k@) && self@[k@] == s@,
                None => !self@.contains_key(k@),
            },
    {
        proof {
            use_type_invariant(self);
        }
        match index_in(&self.entries, k) {
            Some(i) => {
                proof {
                    lemma_entry(self.entries@, i as int);
                }
                Some(&self.entries[i].1)
            },
            None => None,
        }
    }

    /// Sets the settings of platform `k`, replacing any it had.
    pub fn insert(&mut self, k: &str, v: PlatformSettings)
        ensures
            final(self)@ == old(self)@.insert(k@, v@),
    {
        proof {
            use_type_invariant(&*self);
        }
        let ghost old_entries = self.entries@;
        let ghost old_map = self@;
        let ghost vv = v@;
        let mut entries: Vec<(String, PlatformSettings)> = Vec::new();
        std::mem::swap(&mut entries, &mut self.entries);
        assert(entries@ == old_entries);
        let idx = index_in(&entries, k);
        match idx {
            Some(i) => {
                entries.set(i, (owned(k), v));
            },
            None => {
                entries.push((owned(k), v));
            },
        }
        let ghost ne = entries@;
        proof {
            assert forall|a: int, b: int|
                0 <= a < b < ne.len() implies (#[trigger] ne[a]).0@ != (#[trigger] ne[b]).0@ by {
                if idx is None && b == ne.len() - 1 {
                    assert(old_entries[a].0@ != k@);
                } else {
                    assert(old_entries[a].0@ != old_entries[b].0@);
                }
            }
            assert forall|key: Seq<char>| #[trigger]
                entries_map(ne).contains_key(key) == old_map.insert(k@, vv).contains_key(key) by {
                if key == k@ {
                    let j = if let Some(i) = idx { i as int } else { ne.len() - 1 };
                    assert(ne[j].0@ == key);
                } else {
                    if old_map.contains_key(key) {
                        let j = lemma_lookup(old_entries, key);
                        assert(ne[j].0@ == key);
                    }
                    if entries_map(ne).contains_key(key) {
                        let j = lemma_lookup(ne, key);
                        assert(old_entries[j].0@ == key);
                    }
                }
            }
            assert forall|key: Seq<char>| #[trigger]
                entries_map(ne).contains_key(key) implies entries_map(ne)[key] == old_map.insert(
                k@,
                vv,
            )[key] by {
                let j = lemma_lookup(ne, key);
                if key != k@ {
                    assert(old_entries[j] == ne[j]);
                    lemma_entry(old_entries, j);
                }
            }
            assert(entries_map(ne) =~= old_map.insert(k@, vv));
        }
        self.entries = entries;
    }
}

fn index_in(entries: &Vec<(String, PlatformSettings)>, k: &str) -> (r: Option<usize>)
    ensures
        match r {
            Some(i) => i < entries@.len() && entries@[i as int].0@ == k@,
            None => !has_key(entries@, k@),
        },
{
    let mut i: usize = 0;
    while i < entries.len()
        invariant
            i <= entries@.len(),
            forall|j: int| 0 <= j < i ==> (#[trigger] entries@[j]).0@ != k@,
        decreases entries.len() - i,
    {
        if str_eq(entries[i].0.as_str(), k) {
            return Some(i);
        }
        i = i + 1;
    }
    None
}

impl View for SettingsTable {
    type V = Map<Seq<char>, SettingsView>;

    open spec fn view(&self) -> Map<Seq<char>, SettingsView> {
        self.as_map()
    }
}

impl SettingsTable {
    /// The entries of the table, each platform once, for writing it out.
    pub fn entries(&self) -> (r: &Vec<(String, PlatformSettings)>)
        ensures
            distinct_keys(r@),
            entries_map(r@) == self@,
    {
        proof {
            use_type_invariant(self);
        }
        &self.entries
    }

    /// A copy of the table.
    pub fn duplicate(&self) -> (r: Self)
        ensures
            r@ == self@,
    {
        proof {
            use_type_invariant(self);
        }
        let mut out: Vec<(String, PlatformSettings)> = Vec::new();
        let mut i: usize = 0;
        while i < self.entries.len()
            invariant
                i <= self.entries@.len(),
                distinct_keys(self.entries@),
                out@.len() == i,
                forall|j: int|
                    0 <= j < i ==> (#[trigger] out@[j]).0@ == self.entries@[j].0@ && out@[j].1@
                        == self.entries@[j].1@,
            decreases self.entries.len() - i,
        {
            out.push((self.entries[i].0.clone(), self.entries[i].1.duplicate()));
            i = i + 1;
        }
        proof {
            let e = self.entries@;
            let o = out@;
            assert forall|a: int, b: int| 0 <= a < b < o.len() implies (#[trigger] o[a]).0@
                != (#[trigger] o[b]).0@ by {
                assert(e[a].0@ != e[b].0@);
            }
            assert forall|key: Seq<char>| #[trigger]
                entries_map(o).contains_key(key) == entries_map(e).contains_key(key) by {
                if entries_map(o).contains_key(key) {
                    let j = lemma_lookup(o, key);
                    assert(e[j].0@ == key);
                }
                if entries_map(e).contains_key(key) {
                    let j = lemma_lookup(e, key);
                    assert(o[j].0@ == key);
                }
            }
            assert forall|key: Seq<char>| #[trigger] entries_map(o).contains_key(key) implies entries_map(
                o,
            )[key] == entries_map(e)[key] by {
                let j = lemma_lookup(o, key);
                lemma_entry(e, j);
            }
            assert(entries_map(o) =~= entries_map(e));
        }
        SettingsTable { entries: out }
    }
}

/// The strings of `v`, by their views.
pub open spec fn strings_view(v: Seq<String>) -> Seq<Seq<char>> {
    v.map_values(|s: String| s@)
}

/// A copy of a list of strings.
pub fn copy_strings(v: &Vec<String>) -> (r: Vec<String>)
    ensures
        strings_view(r@) == strings_view(v@),
{
    let mut out: Vec<String> = Vec::new();
    let mut i: usize = 0;
    while i < v.len()
        invariant
            i <= v@.len(),
            out@.len() == i,
            forall|j: int| 0 <= j < i ==> (#[trigger] out@[j])@ == v@[j]@,
        decreases v.len() - i,
    {
        out.push(v[i].clone());
        i = i + 1;
    }
    assert(strings_view(out@) =~= strings_view(v@));
    out
}

/// What a project version holds.
pub ghost struct ProjectVersionView {
    /// The project version's name, as it appears in resource URLs.
    pub name: Seq<char>,
    /// The settings of each platform.
    pub platform_settings: Map<Seq<char>, SettingsView>,
}

/// One project version: a channel through which a project's resources are served.
#[derive(Debug)]
pub struct ProjectVersion {
    /// The project version's name, as it appears in resource URLs.
    pub name: String,
    /// The settings of each platform.
    pub platform_settings: SettingsTable,
}

impl View for ProjectVersion {
    type V = ProjectVersionView;

    open spec fn view(&self) -> ProjectVersionView {
        ProjectVersionView { name: self.name@, platform_settings: self.platform_settings@ }
    }
}

impl ProjectVersion {
    /// A copy of this project version.
    pub fn duplicate(&self) -> (r: Self)
        ensures
            r@ == self@,
    {
        ProjectVersion { name: self.name.clone(), platform_settings: self.platform_settings.duplicate() }
    }
}

/// The project versions of `v`, by their views.
pub open spec fn versions_view(v: Seq<ProjectVersion>) -> Seq<ProjectVersionView> {
    v.map_values(|p: ProjectVersion| p@)
}

/// A copy of a list of project versions.
pub fn copy_versions(v: &Vec<ProjectVersion>) -> (r: Vec<ProjectVersion>)
    ensures
        versions_view(r@) == versions_view(v@),
{
    let mut out: Vec<ProjectVersion> = Vec::new();
    let mut i: usize = 0;
    while i < v.len()
        invariant
            i <= v@.len(),
            out@.len() == i,
            forall|j: int| 0 <= j < i ==> (#[trigger] out@[j])@ == v@[j]@,
        decreases v.len() - i,
    {
        out.push(v[i].duplicate());
        i = i + 1;
    }
    assert(versions_view(out@) =~= versions_view(v@));
    out
}

/// What a project holds.
pub ghost struct ProjectView {
    /// The project's identifier.
    pub id: Seq<char>,
    /// The project's name, as it appears in resource URLs and storage paths.
    pub project_name: Seq<char>,
    /// The platforms declared on the project.
    pub platforms: Seq<Seq<char>>,
    /// The YooAsset package name.
    pub package_name: Seq<char>,
    /// The project's versions, in order.
    pub project_versions: Seq<ProjectVersionView>,
}

/// One project of the remote server.
#[derive(Debug)]
pub struct ProjectConfig {
    /// The project's identifier.
    pub id: String,
    /// The project's name, as it appears in resource URLs and storage paths.
    pub project_name: String,
    /// The platforms declared on the project.
    pub platforms: Vec<String>,
    /// The YooAsset package name.
    pub package_name: String,
    /// The project's versions, in order.
    pub project_versions: Vec<ProjectVersion>,
}

impl View for ProjectConfig {
    type V = ProjectView;

    open spec fn view(&self) -> ProjectView {
        ProjectView {
            id: self.id@,
            project_name: self.project_name@,
            platforms: strings_view(self.platforms@),
            package_name: self.package_name@,
            project_versions: versions_view(self.project_versions@),
        }
    }
}

impl ProjectConfig {
    /// A new project named `project_name`, with a fresh identifier, the one
    /// platform `Android`, the package `DefaultPackage` and no project versions.
    pub fn new(project_name: String) -> (r: Self)
        ensures
            is_uuid_v4_text(r.id@),
            r@.project_name == project_name@,
            r@.platforms == seq!["Android"@],
            r@.package_name == "DefaultPackage"@,
            r@.project_versions == Seq::<ProjectVersionView>::empty(),
    {
        let mut platforms: Vec<String> = Vec::new();
        platforms.push(owned("Android"));
        let r = ProjectConfig {
            id: new_uuid_v4(),
            project_name,
            platforms,
            package_name: owned("DefaultPackage"),
            project_versions: Vec::new(),
        };
        assert(r@.platforms =~= seq!["Android"@]);
        assert(r@.project_versions =~= Seq::<ProjectVersionView>::empty());
        r
    }

    /// A copy of this project.
    pub fn duplicate(&self) -> (r: Self)
        ensures
            r@ == self@,
    {
        ProjectConfig {
            id: self.id.clone(),
            project_name: self.project_name.clone(),
            platforms: copy_strings(&self.platforms),
            package_name: self.package_name.clone(),
            project_versions: copy_versions(&self.project_versions),
        }
    }
}

/// The projects of `v`, by their views.
pub open spec fn projects_view(v: Seq<ProjectConfig>) -> Seq<ProjectView> {
    v.map_values(|p: ProjectConfig| p@)
}

/// The remote server's whole configuration: its projects, in order.
#[derive(Debug)]
pub struct AppConfig {
    /// The projects, in order.
    pub projects: Vec<ProjectConfig>,
}

impl View for AppConfig {
    type V = Seq<ProjectView>;

    open spec fn view(&self) -> Seq<ProjectView> {
        projects_view(self.projects@)
    }
}

impl AppConfig {
    /// A configuration with no projects.
    pub fn default() -> (r: Self)
        ensures
            r@ == Seq::<ProjectView>::empty(),
    {
        let r = AppConfig { projects: Vec::new() };
        assert(r@ =~= Seq::<ProjectView>::empty());
        r
    }

    /// A copy of the project list.
    pub fn copy_projects(&self) -> (r: Vec<ProjectConfig>)
        ensures
            projects_view(r@) == self@,
    {
        let mut out: Vec<ProjectConfig> = Vec::new();
        let mut i: usize = 0;
        while i < self.projects.len()
            invariant
                i <= self.projects@.len(),
                out@.len() == i,
                forall|j: int| 0 <= j < i ==> (#[trigger] out@[j])@ == self.projects@[j]@,
            decreases self.projects.len() - i,
        {
            out.push(self.projects[i].duplicate());
            i = i + 1;
        }
        assert(projects_view(out@) =~= projects_view(self.projects@));
        out
    }
}

/// The protocol a listener serves.
#[derive(Debug)]
pub enum Protocol {
    Http,
    Https,
}

/// The server's settings as its environment gives them; an absent (or
/// non-Unicode) variable is `None`.
#[derive(Debug)]
pub struct EnvSettings {
    /// `ADMIN_PASSWORD`, which must be set.
    pub admin_password: String,
    /// `JWT_SECRET`.
    pub jwt_secret: Option<String>,
    /// `TOKEN_EXPIRE_HOURS`.
    pub token_expire_hours: Option<String>,
    /// `DATA_DIR`.
    pub data_dir: Option<String>,
    /// `PORT`.
    pub port: Option<String>,
    /// `TLS_CERT`.
    pub tls_cert: Option<String>,
    /// `TLS_KEY`.
    pub tls_key: Option<String>,
    /// `HTTPS_PORT`.
    pub https_port: Option<String>,
}

/// The server's fixed settings.
#[derive(Debug)]
pub struct ServerConfig {
    /// Argon2 PHC hash of the SHA-256 text of the administrator password.
    pub password_hash: String,
    /// The key that signs and checks tokens.
    pub jwt_secret: String,
    /// How long an issued token stays valid.
    pub token_expire_hours: u64,
    /// The directory that holds the configuration file and the resources.
    pub data_dir: String,
    /// The HTTP port.
    pub port: u16,
    /// The TLS certificate file, if HTTPS is wanted.
    pub tls_cert: Option<String>,
    /// The TLS private key file, if HTTPS is wanted.
    pub tls_key: Option<String>,
    /// The HTTPS port.
    pub https_port: u16,
}

/// A number read from an environment variable: its value where it parses as an
/// unsigned integer of at most `max`, else `default`.
pub open spec fn env_number(v: Option<Seq<char>>, max: nat, default: nat) -> nat {
    match v {
        Some(text) => match parse_unsigned_spec(text, max) {
            Some(n) => n,
            None => default,
        },
        None => default,
    }
}

fn read_number(v: &Option<String>, max: u64, default: u64) -> (r: u64)
    requires
        default <= max,
    ensures
        r as nat == env_number(opt_view(*v), max as nat, default as nat),
{
    match v {
        Some(text) => match parse_unsigned(text.as_str(), max) {
            Some(n) => n,
            None => default,
        },
        None => default,
    }
}

/// The SHA-256 digest of the administrator password as lower-case hex: what a
/// client sends in place of the password.
pub open spec fn password_digest_text(password: Seq<char>) -> Seq<char> {
    lower_hex_spec(sha256_of(encode_utf8(password)))
}

impl ServerConfig {
    /// The server's settings from its environment: the administrator password
    /// kept only as an Argon2 hash of its SHA-256 text; `JWT_SECRET` or else a
    /// fresh random secret; `TOKEN_EXPIRE_HOURS` or 24; `DATA_DIR` or `/data`;
    /// `PORT` or 8082; `HTTPS_PORT` or 8182; `TLS_CERT` and `TLS_KEY` as given.
    pub fn from_settings(s: EnvSettings) -> (r: Self)
        ensures
            phc_parses(r.password_hash@),
            argon2_accepts(r.password_hash@, password_digest_text(s.admin_password@)),
            match s.jwt_secret {
                Some(secret) => r.jwt_secret@ == secret@,
                None => is_uuid_v4_text(r.jwt_secret@),
            },
            r.token_expire_hours as nat == env_number(
                opt_view(s.token_expire_hours),
                u64::MAX as nat,
                24,
            ),
            r.data_dir@ == (match s.data_dir {
                Some(d) => d@,
                None => "/data"@,
            }),
            r.port as nat == env_number(opt_view(s.port), u16::MAX as nat, 8082),
            r.https_port as nat == env_number(opt_view(s.https_port), u16::MAX as nat, 8182),
            opt_view(r.tls_cert) == opt_view(s.tls_cert),
            opt_view(r.tls_key) == opt_view(s.tls_key),
    {
        let digest = sha256(s.admin_password.as_str().as_bytes());
        let digest_text = lower_hex(digest.as_slice());
        proof {
            lemma_lower_hex_len(digest@);
        }
        let password_hash = hash_secret(digest_text.as_str());
        let jwt_secret = match s.jwt_secret {
            Some(secret) => secret,
            None => new_uuid_v4(),
        };
        let token_expire_hours = read_number(&s.token_expire_hours, u64::MAX, 24);
        let data_dir = match s.data_dir {
            Some(d) => d,
            None => owned("/data"),
        };
        let port = read_number(&s.port, 65535, 8082) as u16;
        let https_port = read_number(&s.https_port, 65535, 8182) as u16;
        ServerConfig {
            password_hash,
            jwt_secret,
            token_expire_hours,
            data_dir,
            port,
            tls_cert: s.tls_cert,
            tls_key: s.tls_key,
            https_port,
        }
    }

    /// Where the project configuration is kept: `<data_dir>/config.json`.
    pub fn config_path(&self) -> (r: String)
        ensures
            r@ == join_path(self.data_dir@, "config.json"@),
    {
        join(self.data_dir.as_str(), "config.json")
    }

    /// Where the uploaded resources are kept: `<data_dir>/resources`.
    pub fn resources_dir(&self) -> (r: String)
        ensures
            r@ == join_path(self.data_dir@, "resources"@),
    {
        join(self.data_dir.as_str(), "resources")
    }

    /// Whether both TLS files are given, so that HTTPS is served.
    pub fn tls_configured(&self) -> (r: bool)
        ensures
            r == (self.tls_cert is Some && self.tls_key is Some),
    {
        self.tls_cert.is_some() && self.tls_key.is_some()
    }
}

} // verus!
