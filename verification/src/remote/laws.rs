//! Properties that tie the remote server's operations together.
use vstd::prelude::*;
use crate::lookup::{first_with, lemma_first_with};
use crate::paths::{
    is_single_component, join_path, lemma_components_join, path_components, path_under, valid_component,
};
use crate::remote::api::{
    activate_version_spec, create_project_version_spec, delete_project_spec, delete_project_version_spec,
    initial_settings, platform_target, project_ids, project_names, rename_first,
    rename_project_version_spec, revert_rename_spec, set_platform_access_spec,
    update_project_spec, version_names,
};
use crate::remote::auth::{argon2_accepts, login_refusal, phc_parses};
use crate::remote::config::{ProjectVersionView, ProjectView, SettingsView, password_digest_text};
use crate::text::trim_spec;
use crate::remote::serve::{DecisionView, resolve_spec, resource_parts};
use crate::remote::storage::version_dir_spec;

verus! {

proof fn lemma_join_component(base: Seq<char>, comp: Seq<char>)
    requires
        base.len() > 0,
        base.last() != '/',
        valid_component(comp),
    ensures
        join_path(base, comp) == base + seq!['/'] + comp,
        join_path(base, comp).len() > 0,
        join_path(base, comp).last() != '/',
{
    assert(comp[0] != '/') by {
        assert(comp.contains(comp[0]));
    }
    assert(comp.last() != '/') by {
        assert(comp.contains(comp[comp.len() - 1]));
    }
    assert((base + seq!['/'] + comp).last() == comp.last());
}

proof fn lemma_versions_name()
    ensures
        valid_component("_versions"@),
        is_single_component("_versions"@),
{
    reveal_strlit("_versions");
    assert(!"_versions"@.contains('/')) by {
        if "_versions"@.contains('/') {
            let k = choose|k: int| 0 <= k < "_versions"@.len() && "_versions"@[k] == '/';
        }
    }
    assert(!"_versions"@.contains('\\')) by {
        if "_versions"@.contains('\\') {
            let k = choose|k: int| 0 <= k < "_versions"@.len() && "_versions"@[k] == '\\';
        }
    }
    assert(!crate::text::has_infix("_versions"@, seq!['.', '.'])) by {
        if crate::text::has_infix("_versions"@, seq!['.', '.']) {
            let k = choose|k: int|
                0 <= k && k + 2 <= "_versions"@.len() && #[trigger] "_versions"@.subrange(k, k + 2)
                    == seq!['.', '.'];
            assert("_versions"@.subrange(k, k + 2)[0] == '.');
        }
    }
    assert("_versions"@ != seq!['.']) by {
        assert("_versions"@.len() != 1);
    }
}

/// A bundle version's directory is given exactly when all four names are
/// single path components, and it is then the resources directory followed by
/// those names, so no request can reach outside the resources directory
/// through them.
pub proof fn law_version_dir_confined(
    root: Seq<char>,
    project: Seq<char>,
    pver: Seq<char>,
    platform: Seq<char>,
    version: Seq<char>,
)
    requires
        root.len() > 0,
        root.last() != '/',
    ensures
        version_dir_spec(root, project, pver, platform, version) is Ok <==> (valid_component(project)
            && valid_component(pver) && valid_component(platform) && valid_component(version)),
        version_dir_spec(root, project, pver, platform, version) matches Ok(d) ==> d == root
            + seq!['/'] + project + seq!['/'] + pver + seq!['/'] + platform + "/_versions/"@
            + version,
{
    reveal_strlit("_versions");
    reveal_strlit("/_versions/");
    if valid_component(project) && valid_component(pver) && valid_component(platform) {
        lemma_join_component(root, project);
        let d1 = join_path(root, project);
        lemma_join_component(d1, pver);
        let d2 = join_path(d1, pver);
        lemma_join_component(d2, platform);
        let d3 = join_path(d2, platform);
        lemma_versions_name();
        lemma_join_component(d3, "_versions"@);
        let d4 = join_path(d3, "_versions"@);
        if valid_component(version) {
            lemma_join_component(d4, version);
            assert(join_path(d4, version) =~= root + seq!['/'] + project + seq!['/'] + pver + seq!['/']
                + platform + "/_versions/"@ + version);
        }
    }
}

/// The project an id names is also the first project of its name.
pub open spec fn same_project(ps: Seq<ProjectView>, id: Seq<char>, name: Seq<char>) -> bool {
    first_with(project_ids(ps), id) is Some && first_with(project_ids(ps), id) == first_with(
        project_names(ps),
        name,
    )
}

proof fn lemma_names_kept(ps: Seq<ProjectView>, ps2: Seq<ProjectView>, i: int, j: int, name: Seq<char>, pver: Seq<char>)
    requires
        0 <= i < ps.len(),
        ps2.len() == ps.len(),
        forall|k: int| 0 <= k < ps.len() && k != i ==> ps2[k] == ps[k],
        ps2[i].project_name == ps[i].project_name,
        ps2[i].id == ps[i].id,
        version_names(ps2[i].project_versions) == version_names(ps[i].project_versions),
    ensures
        project_names(ps2) == project_names(ps),
        project_ids(ps2) == project_ids(ps),
{
    assert(project_names(ps2) =~= project_names(ps));
    assert(project_ids(ps2) =~= project_ids(ps));
}

/// Once access to a platform of a project version is switched off, every
/// request for a file of that platform is refused with 403.
pub proof fn law_access_off_forbids(
    ps: Seq<ProjectView>,
    root: Seq<char>,
    id: Seq<char>,
    path: Seq<char>,
)
    requires
        ({
            let (pver, pname, plat, file) = resource_parts(path);
            &&& pver.len() > 0 && pname.len() > 0 && plat.len() > 0 && file.len() > 0
            &&& same_project(ps, id, pname)
            &&& set_platform_access_spec(ps, id, pver, plat, false) is Ok
        }),
    ensures
        ({
            let (pver, pname, plat, file) = resource_parts(path);
            let i = first_with(project_ids(ps), id).unwrap();
            resolve_spec(set_platform_access_spec(ps, id, pver, plat, false)->Ok_0, root, path)
                == DecisionView::Forbidden(ps[i].id)
        }),
{
    let (pver, pname, plat, file) = resource_parts(path);
    let (i, j) = platform_target(ps, id, pver, plat)->Ok_0;
    crate::lookup::lemma_first_some(project_ids(ps), id);
    crate::lookup::lemma_first_some(version_names(ps[i].project_versions), pver);
    let ps2 = set_platform_access_spec(ps, id, pver, plat, false)->Ok_0;
    let vs = ps[i].project_versions;
    let vs2 = ps2[i].project_versions;
    assert(version_names(vs2) =~= version_names(vs));
    lemma_names_kept(ps, ps2, i, j, pname, pver);
    assert(ps2[i].project_versions[j].platform_settings.contains_key(plat));
}

/// Once a bundle version is activated for a platform whose access is on, every
/// request for a file of that platform is served from that bundle version's
/// directory (or refused with 404 where the names are not path components).
pub proof fn law_activated_bundle_served(
    ps: Seq<ProjectView>,
    root: Seq<char>,
    id: Seq<char>,
    ver: Seq<char>,
    path: Seq<char>,
)
    requires
        ({
            let (pver, pname, plat, file) = resource_parts(path);
            &&& pver.len() > 0 && pname.len() > 0 && plat.len() > 0 && file.len() > 0
            &&& ver.len() > 0
            &&& same_project(ps, id, pname)
            &&& platform_target(ps, id, pver, plat) matches Ok((i, j)) && {
                let table = ps[i].project_versions[j].platform_settings;
                !table.contains_key(plat) || table[plat].access_enabled
            }
        }),
    ensures
        ({
            let (pver, pname, plat, file) = resource_parts(path);
            let i = first_with(project_ids(ps), id).unwrap();
            let ps2 = activate_version_spec(ps, id, pver, ver, plat)->Ok_0;
            &&& activate_version_spec(ps, id, pver, ver, plat) is Ok
            &&& resolve_spec(ps2, root, path) == match version_dir_spec(root, pname, pver, plat, ver) {
                Ok(d) => DecisionView::Serve(ps[i].id, join_path(d, file)),
                Err(_) => DecisionView::NotFound(ps[i].id, "Not found"@),
            }
        }),
{
    let (pver, pname, plat, file) = resource_parts(path);
    let (i, j) = platform_target(ps, id, pver, plat)->Ok_0;
    crate::lookup::lemma_first_some(project_ids(ps), id);
    crate::lookup::lemma_first_some(version_names(ps[i].project_versions), pver);
    let ps2 = activate_version_spec(ps, id, pver, ver, plat)->Ok_0;
    let vs = ps[i].project_versions;
    let vs2 = ps2[i].project_versions;
    assert(version_names(vs2) =~= version_names(vs));
    lemma_names_kept(ps, ps2, i, j, pname, pver);
}

/// Giving a renamed project version its old name back restores the
/// configuration as it was before the rename.
pub proof fn law_rename_revert(ps: Seq<ProjectView>, id: Seq<char>, pver: Seq<char>, raw: Seq<char>)
    requires
        rename_project_version_spec(ps, id, pver, raw) matches Ok((_, Some(_))),
    ensures
        ({
            let (ps2, names) = rename_project_version_spec(ps, id, pver, raw)->Ok_0;
            revert_rename_spec(ps2, id, pver, names.unwrap().1) == ps
        }),
{
    let (ps2, names) = rename_project_version_spec(ps, id, pver, raw)->Ok_0;
    let new_name = names.unwrap().1;
    let i = first_with(project_ids(ps), id).unwrap();
    crate::lookup::lemma_first_some(project_ids(ps), id);
    let vs = ps[i].project_versions;
    crate::lookup::lemma_first_some(version_names(vs), pver);
    let j = first_with(version_names(vs), pver).unwrap();
    let vs2 = rename_first(vs, pver, new_name);
    assert(project_ids(ps2) =~= project_ids(ps));
    lemma_first_with(project_ids(ps2), id, i);
    assert(version_names(vs2)[j] == new_name);
    assert forall|k: int| 0 <= k < j implies version_names(vs2)[k] != new_name by {
        assert(version_names(vs)[k] == vs[k].name);
        assert(!version_names(vs).contains(new_name));
    }
    lemma_first_with(version_names(vs2), new_name, j);
    assert(rename_first(vs2, new_name, pver) =~= vs);
    assert(revert_rename_spec(ps2, id, pver, new_name) =~= ps);
}

proof fn lemma_filter_keeps_all(vs: Seq<ProjectVersionView>, name: Seq<char>)
    requires
        !version_names(vs).contains(name),
    ensures
        vs.filter(|v: ProjectVersionView| v.name != name) == vs,
    decreases vs.len(),
{
    let f = |v: ProjectVersionView| v.name != name;
    if vs.len() > 0 {
        let init = vs.drop_last();
        assert(!version_names(init).contains(name)) by {
            if version_names(init).contains(name) {
                let k = choose|k: int| 0 <= k < version_names(init).len() && version_names(init)[k] == name;
                assert(version_names(vs)[k] == name);
            }
        }
        lemma_filter_keeps_all(init, name);
        assert(version_names(vs)[vs.len() - 1] == vs.last().name);
        assert(vs.last().name != name);
        assert(vs =~= init.push(vs.last()));
        init.lemma_filter_push(vs.last(), f);
    } else {
        assert(vs.filter(f) =~= vs);
    }
}

/// Deleting a project version right after creating it restores the
/// configuration, and names the project whose storage goes with it.
pub proof fn law_create_then_delete(ps: Seq<ProjectView>, id: Seq<char>, raw: Seq<char>)
    requires
        create_project_version_spec(ps, id, raw) is Ok,
    ensures
        ({
            let (ps2, pv) = create_project_version_spec(ps, id, raw)->Ok_0;
            let i = first_with(project_ids(ps), id).unwrap();
            delete_project_version_spec(ps2, id, pv.name) == Ok::<
                (Seq<ProjectView>, Seq<char>),
                (u16, Seq<char>),
            >((ps, ps[i].project_name))
        }),
{
    let (ps2, pv) = create_project_version_spec(ps, id, raw)->Ok_0;
    let i = first_with(project_ids(ps), id).unwrap();
    crate::lookup::lemma_first_some(project_ids(ps), id);
    assert(project_ids(ps2) =~= project_ids(ps));
    let vs = ps[i].project_versions;
    let vs2 = vs.push(pv);
    assert(version_names(vs2)[vs.len() as int] == pv.name);
    assert(version_names(vs2).contains(pv.name));
    lemma_filter_keeps_all(vs, pv.name);
    let f = |v: ProjectVersionView| v.name != pv.name;
    vs.lemma_filter_push(pv, f);
    assert(vs2.filter(f) == vs);
    assert(ps2[i].project_versions == vs2);
    let ps3 = ps2.update(i, ProjectView { project_versions: vs2.filter(f), ..ps2[i] });
    assert(ps3 =~= ps);
}

/// A login that presents the SHA-256 text of the administrator password is
/// accepted by every server configuration made from that password (whose
/// stored hash parses and verifies that text, as `ServerConfig::from_settings`
/// states).
pub proof fn law_login_with_password_digest(stored_hash: Seq<char>, admin_password: Seq<char>)
    requires
        phc_parses(stored_hash),
        argon2_accepts(stored_hash, password_digest_text(admin_password)),
    ensures
        login_refusal(stored_hash, password_digest_text(admin_password)) is None,
{
}

proof fn lemma_split_at_separator(a: Seq<char>, x: Seq<char>, b: Seq<char>, y: Seq<char>)
    requires
        !a.contains('/'),
        !b.contains('/'),
        a + seq!['/'] + x == b + seq!['/'] + y,
    ensures
        a == b,
        x == y,
{
    let l = a + seq!['/'] + x;
    let r = b + seq!['/'] + y;
    if a.len() < b.len() {
        assert(l[a.len() as int] == '/');
        assert(r[a.len() as int] == b[a.len() as int]);
        assert(b.contains(b[a.len() as int]));
    } else if b.len() < a.len() {
        assert(r[b.len() as int] == '/');
        assert(l[b.len() as int] == a[b.len() as int]);
        assert(a.contains(a[b.len() as int]));
    }
    assert(a =~= l.subrange(0, a.len() as int));
    assert(b =~= r.subrange(0, b.len() as int));
    assert(x =~= l.subrange(a.len() as int + 1, l.len() as int));
    assert(y =~= r.subrange(b.len() as int + 1, r.len() as int));
}

proof fn lemma_cancel_prefix(h: Seq<char>, x: Seq<char>, y: Seq<char>)
    requires
        h + x == h + y,
    ensures
        x == y,
{
    assert(x =~= (h + x).subrange(h.len() as int, (h + x).len() as int));
    assert(y =~= (h + y).subrange(h.len() as int, (h + y).len() as int));
}

proof fn lemma_dir_shape(root: Seq<char>, p: Seq<char>, v: Seq<char>, pl: Seq<char>, b: Seq<char>)
    ensures
        root + seq!['/'] + p + seq!['/'] + v + seq!['/'] + pl + "/_versions/"@ + b == (root + seq!['/']) + (p
            + seq!['/'] + (v + seq!['/'] + (pl + seq!['/'] + ("_versions/"@ + b)))),
{
    reveal_strlit("/_versions/");
    reveal_strlit("_versions/");
    assert("/_versions/"@ =~= seq!['/'] + "_versions/"@);
    assert(root + seq!['/'] + p + seq!['/'] + v + seq!['/'] + pl + "/_versions/"@ + b =~= (root + seq!['/'])
        + (p + seq!['/'] + (v + seq!['/'] + (pl + seq!['/'] + ("_versions/"@ + b)))));
}

/// Bundle versions are kept apart by their paths: two bundle version
/// directory paths under the same resources directory are the same text only
/// for the same project, project version, platform and bundle version.
pub proof fn law_version_dirs_isolated(
    root: Seq<char>,
    p1: Seq<char>,
    v1: Seq<char>,
    pl1: Seq<char>,
    b1: Seq<char>,
    p2: Seq<char>,
    v2: Seq<char>,
    pl2: Seq<char>,
    b2: Seq<char>,
)
    requires
        root.len() > 0,
        root.last() != '/',
        version_dir_spec(root, p1, v1, pl1, b1) is Ok,
        version_dir_spec(root, p2, v2, pl2, b2) is Ok,
        version_dir_spec(root, p1, v1, pl1, b1) == version_dir_spec(root, p2, v2, pl2, b2),
    ensures
        p1 == p2,
        v1 == v2,
        pl1 == pl2,
        b1 == b2,
{
    law_version_dir_confined(root, p1, v1, pl1, b1);
    law_version_dir_confined(root, p2, v2, pl2, b2);
    lemma_dir_shape(root, p1, v1, pl1, b1);
    lemma_dir_shape(root, p2, v2, pl2, b2);
    let e1 = "_versions/"@ + b1;
    let e2 = "_versions/"@ + b2;
    let r1 = pl1 + seq!['/'] + e1;
    let r2 = pl2 + seq!['/'] + e2;
    let t1 = v1 + seq!['/'] + r1;
    let t2 = v2 + seq!['/'] + r2;
    lemma_cancel_prefix(root + seq!['/'], p1 + seq!['/'] + t1, p2 + seq!['/'] + t2);
    lemma_split_at_separator(p1, t1, p2, t2);
    lemma_split_at_separator(v1, r1, v2, r2);
    lemma_split_at_separator(pl1, e1, pl2, e2);
    lemma_cancel_prefix("_versions/"@, b1, b2);
}

proof fn lemma_version_dir_components(root: Seq<char>, p: Seq<char>, v: Seq<char>, pl: Seq<char>, b: Seq<char>)
    requires
        root.len() > 0,
        version_dir_spec(root, p, v, pl, b) is Ok,
        p != seq!['.'],
        v != seq!['.'],
        pl != seq!['.'],
        b != seq!['.'],
    ensures
        path_components(version_dir_spec(root, p, v, pl, b)->Ok_0) == path_components(root) + seq![
            p,
            v,
            pl,
            "_versions"@,
            b,
        ],
{
    lemma_versions_name();
    let d1 = join_path(root, p);
    let d2 = join_path(d1, v);
    let d3 = join_path(d2, pl);
    let d4 = join_path(d3, "_versions"@);
    assert(valid_component(p) && valid_component(v) && valid_component(pl) && valid_component(b));
    lemma_components_join(root, p);
    lemma_components_join(d1, v);
    lemma_components_join(d2, pl);
    lemma_components_join(d3, "_versions"@);
    lemma_components_join(d4, b);
    assert(version_dir_spec(root, p, v, pl, b)->Ok_0 == join_path(d4, b));
    assert(path_components(join_path(d4, b)) =~= path_components(root) + seq![p, v, pl, "_versions"@, b]);
}

/// Bundle version directories do not nest: where no name is `.`, a bundle
/// version directory lies under another (as `Path::starts_with` decides) only
/// when both are the directory of the same project, project version,
/// platform and bundle version.
pub proof fn law_version_dirs_not_nested(
    root: Seq<char>,
    p1: Seq<char>,
    v1: Seq<char>,
    pl1: Seq<char>,
    b1: Seq<char>,
    p2: Seq<char>,
    v2: Seq<char>,
    pl2: Seq<char>,
    b2: Seq<char>,
)
    requires
        root.len() > 0,
        version_dir_spec(root, p1, v1, pl1, b1) is Ok,
        version_dir_spec(root, p2, v2, pl2, b2) is Ok,
        p1 != seq!['.'] && v1 != seq!['.'] && pl1 != seq!['.'] && b1 != seq!['.'],
        p2 != seq!['.'] && v2 != seq!['.'] && pl2 != seq!['.'] && b2 != seq!['.'],
        path_under(version_dir_spec(root, p1, v1, pl1, b1)->Ok_0, version_dir_spec(root, p2, v2, pl2, b2)->Ok_0),
    ensures
        p1 == p2,
        v1 == v2,
        pl1 == pl2,
        b1 == b2,
{
    lemma_version_dir_components(root, p1, v1, pl1, b1);
    lemma_version_dir_components(root, p2, v2, pl2, b2);
    let r = path_components(root);
    let a = r + seq![p1, v1, pl1, "_versions"@, b1];
    let c = r + seq![p2, v2, pl2, "_versions"@, b2];
    assert(a.subrange(0, c.len() as int) == c);
    assert(a =~= c);
    assert(a[r.len() as int] == p1 && c[r.len() as int] == p2);
    assert(a[r.len() as int + 1] == v1 && c[r.len() as int + 1] == v2);
    assert(a[r.len() as int + 2] == pl1 && c[r.len() as int + 2] == pl2);
    assert(a[r.len() as int + 4] == b1 && c[r.len() as int + 4] == b2);
}

/// The server's data directory holds its configuration file and its
/// resources directory side by side: each is the data directory with one
/// more component, and they differ.
pub proof fn law_data_layout(data_dir: Seq<char>)
    ensures
        path_components(join_path(data_dir, "resources"@)) == path_components(data_dir).push("resources"@),
        path_components(join_path(data_dir, "config.json"@)) == path_components(data_dir).push(
            "config.json"@,
        ),
        join_path(data_dir, "resources"@) != join_path(data_dir, "config.json"@),
{
    reveal_strlit("resources");
    reveal_strlit("config.json");
    assert(is_single_component("resources"@)) by {
        if "resources"@.contains('/') {
            let k = choose|k: int| 0 <= k < "resources"@.len() && "resources"@[k] == '/';
        }
        assert("resources"@.len() != 1);
    }
    assert(is_single_component("config.json"@)) by {
        if "config.json"@.contains('/') {
            let k = choose|k: int| 0 <= k < "config.json"@.len() && "config.json"@[k] == '/';
        }
        assert("config.json"@.len() != 1);
    }
    lemma_components_join(data_dir, "resources"@);
    lemma_components_join(data_dir, "config.json"@);
    let a = path_components(data_dir).push("resources"@);
    let b = path_components(data_dir).push("config.json"@);
    assert(a.last() != b.last()) by {
        assert("resources"@.len() != "config.json"@.len());
    }
}

/// Activating a bundle version for a platform of a project version makes it
/// that platform's active bundle and leaves the platform's access switch as it
/// was: a platform switched off stays off, and only a platform with no
/// settings yet starts open. Every other platform, project version and
/// project is left as it was.
pub proof fn law_activate_keeps_access(
    ps: Seq<ProjectView>,
    id: Seq<char>,
    pver: Seq<char>,
    ver: Seq<char>,
    plat: Seq<char>,
)
    requires
        activate_version_spec(ps, id, pver, ver, plat) is Ok,
    ensures
        ({
            let ps2 = activate_version_spec(ps, id, pver, ver, plat)->Ok_0;
            let i = first_with(project_ids(ps), id).unwrap();
            let j = first_with(version_names(ps[i].project_versions), pver).unwrap();
            let before = ps[i].project_versions[j].platform_settings;
            let after = ps2[i].project_versions[j].platform_settings;
            &&& ps[i].id == id
            &&& ps[i].project_versions[j].name == pver
            &&& after.contains_key(plat)
            &&& after[plat].active_bundle == Some(ver)
            &&& before.contains_key(plat) ==> after[plat].access_enabled == before[plat].access_enabled
            &&& !before.contains_key(plat) ==> after[plat].access_enabled
            &&& after.remove(plat) == before.remove(plat)
            &&& ps2.len() == ps.len()
            &&& forall|k: int| 0 <= k < ps.len() && k != i ==> ps2[k] == ps[k]
            &&& ps2[i] == ProjectView { project_versions: ps2[i].project_versions, ..ps[i] }
            &&& ps2[i].project_versions.len() == ps[i].project_versions.len()
            &&& forall|k: int|
                0 <= k < ps[i].project_versions.len() && k != j ==> ps2[i].project_versions[k]
                    == ps[i].project_versions[k]
            &&& ps2[i].project_versions[j].name == pver
        }),
{
    let (i, j) = platform_target(ps, id, pver, plat)->Ok_0;
    crate::lookup::lemma_first_some(project_ids(ps), id);
    crate::lookup::lemma_first_some(version_names(ps[i].project_versions), pver);
    let ps2 = activate_version_spec(ps, id, pver, ver, plat)->Ok_0;
    let before = ps[i].project_versions[j].platform_settings;
    let after = ps2[i].project_versions[j].platform_settings;
    assert(version_names(ps[i].project_versions)[j] == ps[i].project_versions[j].name);
    assert(after.remove(plat) =~= before.remove(plat));
}

/// A successful update of a project sets each field that the request carries
/// to the value given and keeps the fields it leaves out; the project's id and
/// project versions, and every other project, stay as they were. The update
/// succeeds exactly when the project exists and a new name, if one is given,
/// is a single path component.
pub proof fn law_update_project_fields(
    ps: Seq<ProjectView>,
    id: Seq<char>,
    name: Option<Seq<char>>,
    platforms: Option<Seq<Seq<char>>>,
    package: Option<Seq<char>>,
)
    ensures
        update_project_spec(ps, id, name, platforms, package) is Ok <==> (project_ids(ps).contains(id)
            && (name matches Some(n) ==> valid_component(n))),
        update_project_spec(ps, id, name, platforms, package) matches Ok(ps2) ==> {
            let i = first_with(project_ids(ps), id).unwrap();
            &&& ps[i].id == id
            &&& ps2.len() == ps.len()
            &&& forall|k: int| 0 <= k < ps.len() && k != i ==> ps2[k] == ps[k]
            &&& ps2[i].id == ps[i].id
            &&& ps2[i].project_versions == ps[i].project_versions
            &&& ps2[i].project_name == match name {
                Some(n) => n,
                None => ps[i].project_name,
            }
            &&& ps2[i].platforms == match platforms {
                Some(v) => v,
                None => ps[i].platforms,
            }
            &&& ps2[i].package_name == match package {
                Some(n) => n,
                None => ps[i].package_name,
            }
        },
{
    if project_ids(ps).contains(id) {
        crate::lookup::lemma_first_some(project_ids(ps), id);
        let i = first_with(project_ids(ps), id).unwrap();
        assert(project_ids(ps)[i] == ps[i].id);
    }
}

/// Deleting project version `pver` of a project removes every project version
/// of that name from it and keeps all the others, in their order; the rest of
/// the configuration stays as it was, and the project's name is given back.
/// The delete succeeds exactly when the project exists and has a project
/// version of that name.
pub proof fn law_delete_version_removes_it(ps: Seq<ProjectView>, id: Seq<char>, pver: Seq<char>)
    ensures
        delete_project_version_spec(ps, id, pver) is Ok <==> (project_ids(ps).contains(id)
            && version_names(ps[first_with(project_ids(ps), id).unwrap()].project_versions).contains(
            pver,
        )),
        delete_project_version_spec(ps, id, pver) matches Ok((ps2, n)) ==> {
            let i = first_with(project_ids(ps), id).unwrap();
            let before = ps[i].project_versions;
            let after = ps2[i].project_versions;
            &&& ps[i].id == id
            &&& n == ps[i].project_name
            &&& ps2.len() == ps.len()
            &&& forall|k: int| 0 <= k < ps.len() && k != i ==> ps2[k] == ps[k]
            &&& ps2[i] == ProjectView { project_versions: after, ..ps[i] }
            &&& !version_names(after).contains(pver)
            &&& forall|k: int| 0 <= k < before.len() && before[k].name != pver ==> after.contains(
                #[trigger] before[k],
            )
            &&& forall|v: ProjectVersionView| #[trigger] after.contains(v) ==> before.contains(v)
            &&& after == before.filter(|v: ProjectVersionView| v.name != pver)
        },
{
    if project_ids(ps).contains(id) {
        crate::lookup::lemma_first_some(project_ids(ps), id);
        let i = first_with(project_ids(ps), id).unwrap();
        assert(project_ids(ps)[i] == ps[i].id);
        if delete_project_version_spec(ps, id, pver) is Ok {
            let ps2 = delete_project_version_spec(ps, id, pver)->Ok_0.0;
            let before = ps[i].project_versions;
            let after = ps2[i].project_versions;
            let f = |v: ProjectVersionView| v.name != pver;
            assert(after == before.filter(f));
            assert(!version_names(after).contains(pver)) by {
                if version_names(after).contains(pver) {
                    let k = choose|k: int| 0 <= k < version_names(after).len() && version_names(after)[k] == pver;
                    before.lemma_filter_pred(f, k);
                }
            }
            assert forall|k: int| 0 <= k < before.len() && before[k].name != pver implies after.contains(
                #[trigger] before[k],
            ) by {
                before.lemma_filter_contains(f, k);
            }
            assert forall|v: ProjectVersionView| #[trigger] after.contains(v) implies before.contains(v) by {
                before.lemma_filter_contains_rev(f, v);
            }
        }
    }
}

/// A project version starts with settings for exactly the platforms its
/// project declares, each open and with no active bundle.
pub proof fn law_initial_settings_open(platforms: Seq<Seq<char>>)
    ensures
        forall|plat: Seq<char>| #[trigger] initial_settings(platforms).contains_key(plat) <==> platforms.contains(plat),
        forall|plat: Seq<char>|
            platforms.contains(plat) ==> #[trigger] initial_settings(platforms)[plat] == (SettingsView {
                access_enabled: true,
                active_bundle: None,
            }),
{
}

/// Creating a project version appends it to its project under the trimmed
/// name, with settings for exactly the platforms the project declares, every
/// one of them open and with no active bundle; nothing else changes.
pub proof fn law_create_version_opens_platforms(ps: Seq<ProjectView>, id: Seq<char>, raw: Seq<char>)
    requires
        create_project_version_spec(ps, id, raw) is Ok,
    ensures
        ({
            let (ps2, pv) = create_project_version_spec(ps, id, raw)->Ok_0;
            let i = first_with(project_ids(ps), id).unwrap();
            &&& ps[i].id == id
            &&& pv.name == trim_spec(raw)
            &&& forall|plat: Seq<char>| #[trigger] pv.platform_settings.contains_key(plat) <==> ps[i].platforms.contains(plat)
            &&& forall|plat: Seq<char>|
                ps[i].platforms.contains(plat) ==> #[trigger] pv.platform_settings[plat] == (SettingsView {
                    access_enabled: true,
                    active_bundle: None,
                })
            &&& ps2.len() == ps.len()
            &&& forall|k: int| 0 <= k < ps.len() && k != i ==> ps2[k] == ps[k]
            &&& ps2[i] == ProjectView { project_versions: ps[i].project_versions.push(pv), ..ps[i] }
        }),
{
    crate::lookup::lemma_first_some(project_ids(ps), id);
    let i = first_with(project_ids(ps), id).unwrap();
    assert(project_ids(ps)[i] == ps[i].id);
    law_initial_settings_open(ps[i].platforms);
}

/// Activating a bundle version never lifts a refusal: a request for a file
/// that was refused with 403 because its platform is switched off is still
/// refused with 403 after any activation.
pub proof fn law_activate_keeps_forbidden(
    ps: Seq<ProjectView>,
    root: Seq<char>,
    id: Seq<char>,
    pver: Seq<char>,
    ver: Seq<char>,
    plat: Seq<char>,
    path: Seq<char>,
)
    requires
        activate_version_spec(ps, id, pver, ver, plat) is Ok,
        resolve_spec(ps, root, path) is Forbidden,
    ensures
        resolve_spec(activate_version_spec(ps, id, pver, ver, plat)->Ok_0, root, path) == resolve_spec(
            ps,
            root,
            path,
        ),
{
    let (i, j) = platform_target(ps, id, pver, plat)->Ok_0;
    crate::lookup::lemma_first_some(project_ids(ps), id);
    crate::lookup::lemma_first_some(version_names(ps[i].project_versions), pver);
    let ps2 = activate_version_spec(ps, id, pver, ver, plat)->Ok_0;
    law_activate_keeps_access(ps, id, pver, ver, plat);
    assert(version_names(ps2[i].project_versions) =~= version_names(ps[i].project_versions));
    lemma_names_kept(ps, ps2, i, j, ps[i].project_name, pver);
    let (rpver, pname, rplat, file) = resource_parts(path);
    crate::lookup::lemma_first_some(project_names(ps), pname);
    let ri = first_with(project_names(ps), pname).unwrap();
    crate::lookup::lemma_first_some(version_names(ps[ri].project_versions), rpver);
    let rj = first_with(version_names(ps[ri].project_versions), rpver).unwrap();
    assert(version_names(ps2[ri].project_versions) == version_names(ps[ri].project_versions));
    assert(ps2[ri].platforms == ps[ri].platforms);
    assert(ps2[ri].id == ps[ri].id);
    let t1 = ps[ri].project_versions[rj].platform_settings;
    let t2 = ps2[ri].project_versions[rj].platform_settings;
    if ri == i && rj == j {
        let before = ps[i].project_versions[j].platform_settings;
        let after = ps2[i].project_versions[j].platform_settings;
        if rplat != plat {
            assert(after.remove(plat).contains_key(rplat) == after.contains_key(rplat));
            assert(before.remove(plat).contains_key(rplat) == before.contains_key(rplat));
            assert(after.remove(plat)[rplat] == after[rplat]);
        }
    } else {
        assert(t2 == t1);
    }
}

/// Once a bundle version is activated for a declared platform of a newly
/// created project version, requests for that platform's files are served
/// from it (or refused with 404 where the names are not path components):
/// a new project version never starts with a platform switched off.
pub proof fn law_new_version_served_once_activated(
    ps: Seq<ProjectView>,
    root: Seq<char>,
    id: Seq<char>,
    raw: Seq<char>,
    ver: Seq<char>,
    path: Seq<char>,
)
    requires
        create_project_version_spec(ps, id, raw) is Ok,
        ({
            let (pver, pname, plat, file) = resource_parts(path);
            let i = first_with(project_ids(ps), id).unwrap();
            &&& pver == trim_spec(raw)
            &&& pname.len() > 0 && plat.len() > 0 && file.len() > 0
            &&& ver.len() > 0
            &&& same_project(ps, id, pname)
            &&& ps[i].platforms.contains(plat)
        }),
    ensures
        ({
            let (pver, pname, plat, file) = resource_parts(path);
            let i = first_with(project_ids(ps), id).unwrap();
            let ps2 = create_project_version_spec(ps, id, raw)->Ok_0.0;
            let ps3 = activate_version_spec(ps2, id, pver, ver, plat)->Ok_0;
            &&& activate_version_spec(ps2, id, pver, ver, plat) is Ok
            &&& resolve_spec(ps3, root, path) == match version_dir_spec(root, pname, pver, plat, ver) {
                Ok(d) => DecisionView::Serve(ps[i].id, join_path(d, file)),
                Err(_) => DecisionView::NotFound(ps[i].id, "Not found"@),
            }
        }),
{
    let (pver, pname, plat, file) = resource_parts(path);
    let (ps2, pv) = create_project_version_spec(ps, id, raw)->Ok_0;
    law_create_version_opens_platforms(ps, id, raw);
    crate::lookup::lemma_first_some(project_ids(ps), id);
    let i = first_with(project_ids(ps), id).unwrap();
    let vs = ps[i].project_versions;
    let vs2 = vs.push(pv);
    assert(ps2[i].project_versions == vs2);
    assert(project_ids(ps2) =~= project_ids(ps));
    assert(project_names(ps2) =~= project_names(ps));
    assert(pver.len() > 0) by {
        assert(crate::paths::valid_component(pv.name));
    }
    assert(!version_names(vs).contains(pver));
    assert forall|k: int| 0 <= k < vs.len() implies version_names(vs2)[k] != pver by {
        assert(version_names(vs)[k] == vs[k].name);
    }
    assert(version_names(vs2)[vs.len() as int] == pver);
    lemma_first_with(version_names(vs2), pver, vs.len() as int);
    let j = vs.len() as int;
    assert(ps2[i].project_versions[j] == pv);
    law_activated_bundle_served(ps2, root, id, ver, path);
}

/// Switching access to a platform of a project version sets only its access
/// switch: its active bundle stays as it was (a platform with no settings yet
/// gets none), and every other platform, project version and project is left
/// as it was.
pub proof fn law_access_switch_keeps_bundle(
    ps: Seq<ProjectView>,
    id: Seq<char>,
    pver: Seq<char>,
    plat: Seq<char>,
    enabled: bool,
)
    requires
        set_platform_access_spec(ps, id, pver, plat, enabled) is Ok,
    ensures
        ({
            let ps2 = set_platform_access_spec(ps, id, pver, plat, enabled)->Ok_0;
            let i = first_with(project_ids(ps), id).unwrap();
            let j = first_with(version_names(ps[i].project_versions), pver).unwrap();
            let before = ps[i].project_versions[j].platform_settings;
            let after = ps2[i].project_versions[j].platform_settings;
            &&& ps[i].id == id
            &&& ps[i].project_versions[j].name == pver
            &&& after.contains_key(plat)
            &&& after[plat].access_enabled == enabled
            &&& before.contains_key(plat) ==> after[plat].active_bundle == before[plat].active_bundle
            &&& !before.contains_key(plat) ==> after[plat].active_bundle is None
            &&& after.remove(plat) == before.remove(plat)
            &&& ps2.len() == ps.len()
            &&& forall|k: int| 0 <= k < ps.len() && k != i ==> ps2[k] == ps[k]
            &&& ps2[i] == ProjectView { project_versions: ps2[i].project_versions, ..ps[i] }
            &&& ps2[i].project_versions.len() == ps[i].project_versions.len()
            &&& forall|k: int|
                0 <= k < ps[i].project_versions.len() && k != j ==> ps2[i].project_versions[k]
                    == ps[i].project_versions[k]
            &&& ps2[i].project_versions[j].name == pver
        }),
{
    let (i, j) = platform_target(ps, id, pver, plat)->Ok_0;
    crate::lookup::lemma_first_some(project_ids(ps), id);
    crate::lookup::lemma_first_some(version_names(ps[i].project_versions), pver);
    let ps2 = set_platform_access_spec(ps, id, pver, plat, enabled)->Ok_0;
    let before = ps[i].project_versions[j].platform_settings;
    let after = ps2[i].project_versions[j].platform_settings;
    assert(version_names(ps[i].project_versions)[j] == ps[i].project_versions[j].name);
    assert(after.remove(plat) =~= before.remove(plat));
}

/// Switching an open platform off and then on again gives back the
/// configuration as it was, active bundle included.
pub proof fn law_access_off_then_on(ps: Seq<ProjectView>, id: Seq<char>, pver: Seq<char>, plat: Seq<char>)
    requires
        set_platform_access_spec(ps, id, pver, plat, false) is Ok,
        ({
            let i = first_with(project_ids(ps), id).unwrap();
            let j = first_with(version_names(ps[i].project_versions), pver).unwrap();
            let table = ps[i].project_versions[j].platform_settings;
            table.contains_key(plat) && table[plat].access_enabled
        }),
    ensures
        set_platform_access_spec(
            set_platform_access_spec(ps, id, pver, plat, false)->Ok_0,
            id,
            pver,
            plat,
            true,
        ) == Ok::<Seq<ProjectView>, (u16, Seq<char>)>(ps),
{
    let (i, j) = platform_target(ps, id, pver, plat)->Ok_0;
    crate::lookup::lemma_first_some(project_ids(ps), id);
    crate::lookup::lemma_first_some(version_names(ps[i].project_versions), pver);
    let ps2 = set_platform_access_spec(ps, id, pver, plat, false)->Ok_0;
    law_access_switch_keeps_bundle(ps, id, pver, plat, false);
    assert(version_names(ps2[i].project_versions) =~= version_names(ps[i].project_versions));
    lemma_names_kept(ps, ps2, i, j, ps[i].project_name, pver);
    assert(platform_target(ps2, id, pver, plat) == Ok::<(int, int), (u16, Seq<char>)>((i, j)));
    let ps3 = set_platform_access_spec(ps2, id, pver, plat, true)->Ok_0;
    let before = ps[i].project_versions[j].platform_settings;
    let t3 = ps3[i].project_versions[j].platform_settings;
    assert(t3 =~= before);
    assert(ps3[i].project_versions =~= ps[i].project_versions);
    assert(ps3 =~= ps);
}

/// Deleting a project removes every project with its id and keeps all the
/// others, in their order, and gives back the name of the first project with
/// that id. It succeeds exactly when a project has that id.
pub proof fn law_delete_project_removes_it(ps: Seq<ProjectView>, id: Seq<char>)
    ensures
        delete_project_spec(ps, id) is Ok <==> project_ids(ps).contains(id),
        delete_project_spec(ps, id) matches Ok((ps2, n)) ==> {
            let i = first_with(project_ids(ps), id).unwrap();
            &&& ps[i].id == id
            &&& n == ps[i].project_name
            &&& !project_ids(ps2).contains(id)
            &&& forall|k: int| 0 <= k < ps.len() && ps[k].id != id ==> ps2.contains(#[trigger] ps[k])
            &&& forall|p: ProjectView| #[trigger] ps2.contains(p) ==> ps.contains(p)
            &&& ps2 == ps.filter(|p: ProjectView| p.id != id)
        },
{
    if project_ids(ps).contains(id) {
        crate::lookup::lemma_first_some(project_ids(ps), id);
        let i = first_with(project_ids(ps), id).unwrap();
        assert(project_ids(ps)[i] == ps[i].id);
        let ps2 = delete_project_spec(ps, id)->Ok_0.0;
        let f = |p: ProjectView| p.id != id;
        assert(!project_ids(ps2).contains(id)) by {
            if project_ids(ps2).contains(id) {
                let k = choose|k: int| 0 <= k < project_ids(ps2).len() && project_ids(ps2)[k] == id;
                ps.lemma_filter_pred(f, k);
            }
        }
        assert forall|k: int| 0 <= k < ps.len() && ps[k].id != id implies ps2.contains(#[trigger] ps[k]) by {
            ps.lemma_filter_contains(f, k);
        }
        assert forall|p: ProjectView| #[trigger] ps2.contains(p) implies ps.contains(p) by {
            ps.lemma_filter_contains_rev(f, p);
        }
    }
}

} // verus!
