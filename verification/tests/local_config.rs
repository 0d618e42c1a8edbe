use tengine_http::local::config::{AccessTable, AppConfig, ProjectConfig, RemoteConnection};

#[test]
fn default_project_settings() {
    let p = ProjectConfig::default();
    assert_eq!(p.id.len(), 36);
    assert_eq!(p.project_name, "TEngine");
    assert_eq!(p.bundles_dir, "");
    assert_eq!(p.port, 8081);
    assert_eq!(p.platforms, vec!["Android".to_string()]);
    assert!(p.cors_enabled);
    assert_eq!(p.package_name, "DefaultPackage");
    assert_eq!(p.platform_access.get("Android"), Some(true));
    assert_eq!(p.platform_access.get("iOS"), None);
    assert_eq!(RemoteConnection::default().server_url, "");
    let c = AppConfig::default();
    assert_eq!(c.projects.len(), 1);
    assert!(c.remote_connections.is_empty());
}

#[test]
fn added_projects_get_free_ports_and_numbered_names() {
    let mut c = AppConfig::default();
    assert!(c.has_free_port());
    let p = c.add_project();
    assert_eq!(p.port, 8082);
    assert_eq!(p.project_name, "Project_2");
    c.projects[0].port = 8084;
    let q = c.add_project();
    assert_eq!(q.port, 8081);
    assert_eq!(q.project_name, "Project_3");
    let r = c.add_project();
    assert_eq!(r.port, 8083);
    assert_eq!(c.projects.len(), 4);
    let ports: Vec<u16> = c.projects.iter().map(|p| p.port).collect();
    assert_eq!(ports, vec![8084, 8082, 8081, 8083]);
}

#[test]
fn last_port_taken_leaves_the_first_free() {
    let mut c = AppConfig { projects: Vec::new(), remote_connections: Vec::new() };
    assert!(c.has_free_port());
    c.projects.push(ProjectConfig::default());
    c.projects[0].port = 65535;
    assert!(c.has_free_port());
    let p = c.add_project();
    assert_eq!(p.port, 8081);
}

#[test]
fn remove_and_update_projects() {
    let mut c = AppConfig::default();
    let a = c.add_project();
    let b = c.add_project();
    c.remove_project(&a.id);
    assert_eq!(c.projects.len(), 2);
    assert!(c.projects.iter().all(|p| p.id != a.id));
    c.remove_project("missing");
    assert_eq!(c.projects.len(), 2);
    let mut changed = c.project(&b.id).unwrap();
    changed.project_name = "Renamed".to_string();
    changed.platform_access.insert("Android", false);
    c.update_project(changed);
    assert_eq!(c.projects[1].project_name, "Renamed");
    assert_eq!(c.projects[1].platform_access.get("Android"), Some(false));
    let mut stranger = ProjectConfig::default();
    stranger.project_name = "X".to_string();
    c.update_project(stranger);
    assert!(c.projects.iter().all(|p| p.project_name != "X"));
    assert_eq!(c.project("missing").unwrap_err(), "项目不存在");
}

#[test]
fn access_table_replaces_entries() {
    let mut t = AccessTable::new();
    t.insert("Android", true);
    t.insert("iOS", false);
    t.insert("Android", false);
    assert_eq!(t.entries().len(), 2);
    assert_eq!(t.get("Android"), Some(false));
    assert_eq!(t.get("iOS"), Some(false));
    let d = t.duplicate();
    assert_eq!(d.get("Android"), Some(false));
}

#[test]
fn removing_an_added_project_restores_the_list() {
    let mut c = AppConfig::default();
    c.add_project();
    let before: Vec<(String, u16)> = c.projects.iter().map(|p| (p.id.clone(), p.port)).collect();
    let added = c.add_project();
    c.remove_project(&added.id);
    let after: Vec<(String, u16)> = c.projects.iter().map(|p| (p.id.clone(), p.port)).collect();
    assert_eq!(before, after);
}
