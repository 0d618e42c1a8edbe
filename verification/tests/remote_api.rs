use tengine_http::remote::api::{platform_or_default, valid_name, RenameOutcome, UpdateProjectRequest};
use tengine_http::remote::config::AppConfig;
use tengine_http::remote::serve::{resolve_resource, ResourceDecision};
use tengine_http::remote::storage::Storage;

fn config_with_project(name: &str) -> (AppConfig, String) {
    let mut c = AppConfig::default();
    let p = c.create_project(name.to_string());
    (c, p.id)
}

#[test]
fn new_project_has_defaults() {
    let (c, id) = config_with_project("MyProject");
    assert_eq!(c.projects.len(), 1);
    let p = &c.projects[0];
    assert_eq!(p.id, id);
    assert_eq!(p.id.len(), 36);
    assert_eq!(&p.id[14..15], "4");
    assert_eq!(p.project_name, "MyProject");
    assert_eq!(p.platforms, vec!["Android".to_string()]);
    assert_eq!(p.package_name, "DefaultPackage");
    assert!(p.project_versions.is_empty());
}

#[test]
fn project_ids_are_fresh() {
    let mut c = AppConfig::default();
    let a = c.create_project("A".to_string());
    let b = c.create_project("B".to_string());
    assert_ne!(a.id, b.id);
}

#[test]
fn create_project_version_checks_name_project_and_duplicates() {
    let (mut c, id) = config_with_project("P");
    let v = c.create_project_version(&id, "  v1  ").unwrap();
    assert_eq!(v.name, "v1");
    let s = v.platform_settings.get("Android").unwrap();
    assert!(s.access_enabled);
    assert!(s.active_bundle.is_none());
    let e = c.create_project_version(&id, "v1").unwrap_err();
    assert_eq!((e.status, e.message.as_str()), (409, "Project version already exists"));
    let e = c.create_project_version(&id, "a/b").unwrap_err();
    assert_eq!((e.status, e.message.as_str()), (400, "Invalid project version name"));
    let e = c.create_project_version(&id, "   ").unwrap_err();
    assert_eq!(e.status, 400);
    let e = c.create_project_version(&id, "..").unwrap_err();
    assert_eq!(e.status, 400);
    let e = c.create_project_version("nope", "v2").unwrap_err();
    assert_eq!((e.status, e.message.as_str()), (404, "Project not found"));
}

#[test]
fn create_then_delete_project_version_restores_config() {
    let (mut c, id) = config_with_project("P");
    c.create_project_version(&id, "v1").unwrap();
    let before: Vec<String> = c.projects[0].project_versions.iter().map(|v| v.name.clone()).collect();
    c.create_project_version(&id, "v2").unwrap();
    let name = c.delete_project_version(&id, "v2").unwrap();
    assert_eq!(name, "P");
    let after: Vec<String> = c.projects[0].project_versions.iter().map(|v| v.name.clone()).collect();
    assert_eq!(before, after);
    let e = c.delete_project_version(&id, "v2").unwrap_err();
    assert_eq!((e.status, e.message.as_str()), (404, "Project version not found"));
}

#[test]
fn rename_and_revert_project_version() {
    let (mut c, id) = config_with_project("P");
    c.create_project_version(&id, "v1").unwrap();
    c.create_project_version(&id, "v2").unwrap();
    match c.rename_project_version(&id, "v1", " prod ").unwrap() {
        RenameOutcome::Renamed { project_name, new_name } => {
            assert_eq!(project_name, "P");
            assert_eq!(new_name, "prod");
        }
        RenameOutcome::Unchanged => panic!("expected a rename"),
    }
    assert_eq!(c.projects[0].project_versions[0].name, "prod");
    assert!(matches!(c.rename_project_version(&id, "prod", "prod").unwrap(), RenameOutcome::Unchanged));
    let e = c.rename_project_version(&id, "prod", "v2").unwrap_err();
    assert_eq!((e.status, e.message.as_str()), (409, "Project version already exists"));
    let e = c.rename_project_version(&id, "zzz", "w").unwrap_err();
    assert_eq!((e.status, e.message.as_str()), (404, "Project version not found"));
    assert!(c.revert_rename(&id, "v1", "prod"));
    assert_eq!(c.projects[0].project_versions[0].name, "v1");
    assert!(!c.revert_rename(&id, "v1", "absent"));
}

#[test]
fn update_and_delete_project() {
    let (mut c, id) = config_with_project("P");
    let req = UpdateProjectRequest {
        project_name: Some("Q".to_string()),
        platforms: Some(vec!["iOS".to_string(), "WebGL".to_string()]),
        package_name: None,
    };
    c.update_project(&id, req).unwrap();
    assert_eq!(c.projects[0].project_name, "Q");
    assert_eq!(c.projects[0].platforms, vec!["iOS".to_string(), "WebGL".to_string()]);
    assert_eq!(c.projects[0].package_name, "DefaultPackage");
    let bad = UpdateProjectRequest { project_name: Some("../x".to_string()), platforms: None, package_name: None };
    let e = c.update_project(&id, bad).unwrap_err();
    assert_eq!((e.status, e.message.as_str()), (400, "Invalid project name"));
    assert_eq!(c.delete_project(&id).unwrap(), "Q");
    assert!(c.projects.is_empty());
    let e = c.delete_project(&id).unwrap_err();
    assert_eq!(e.status, 404);
}

#[test]
fn platform_access_and_activation_errors() {
    let (mut c, id) = config_with_project("P");
    c.create_project_version(&id, "v1").unwrap();
    let e = c.set_platform_access(&id, "v1", "iOS", false).unwrap_err();
    assert_eq!((e.status, e.message.as_str()), (404, "Platform not declared on project"));
    let e = c.activate_version(&id, "v9", "1.0.0", "Android").unwrap_err();
    assert_eq!((e.status, e.message.as_str()), (404, "Project version not found"));
    let e = c.activate_version("x", "v1", "1.0.0", "Android").unwrap_err();
    assert_eq!((e.status, e.message.as_str()), (404, "Project not found"));
}

#[test]
fn access_off_forbids_resource_requests() {
    let (mut c, id) = config_with_project("MyProject");
    c.create_project_version(&id, "v1").unwrap();
    c.activate_version(&id, "v1", "1.0.1", "Android").unwrap();
    let storage = Storage::new("/data/resources".to_string());
    match resolve_resource(&c, &storage, "v1/MyProject/Android/file.bundle") {
        ResourceDecision::Serve { project_id, file } => {
            assert_eq!(project_id, id);
            assert_eq!(file, "/data/resources/MyProject/v1/Android/_versions/1.0.1/file.bundle");
        }
        _ => panic!("expected the file to be served"),
    }
    c.set_platform_access(&id, "v1", "Android", false).unwrap();
    match resolve_resource(&c, &storage, "v1/MyProject/Android/file.bundle") {
        ResourceDecision::Forbidden { project_id } => assert_eq!(project_id, id),
        _ => panic!("expected 403"),
    }
    c.set_platform_access(&id, "v1", "Android", true).unwrap();
    assert!(matches!(
        resolve_resource(&c, &storage, "v1/MyProject/Android/sub/dir/file.bundle"),
        ResourceDecision::Serve { .. }
    ));
}

#[test]
fn resource_requests_that_find_nothing() {
    let (mut c, id) = config_with_project("MyProject");
    c.create_project_version(&id, "v1").unwrap();
    let storage = Storage::new("/data/resources".to_string());
    match resolve_resource(&c, &storage, "v1/MyProject/Android/file.bundle") {
        ResourceDecision::NotFound { project_id, message } => {
            assert_eq!(project_id, id);
            assert_eq!(message, "No active bundle");
        }
        _ => panic!("expected 404"),
    }
    match resolve_resource(&c, &storage, "v1/Other/Android/file.bundle") {
        ResourceDecision::NotFound { project_id, message } => {
            assert_eq!(project_id, "");
            assert_eq!(message, "Not found");
        }
        _ => panic!("expected 404"),
    }
    assert!(matches!(resolve_resource(&c, &storage, "v1/MyProject/iOS/f"), ResourceDecision::NotFound { .. }));
    assert!(matches!(resolve_resource(&c, &storage, "v2/MyProject/Android/f"), ResourceDecision::NotFound { .. }));
    assert!(matches!(resolve_resource(&c, &storage, "v1/MyProject/Android"), ResourceDecision::NotFound { .. }));
}

#[test]
fn project_status_and_listing() {
    let (mut c, id) = config_with_project("P");
    c.create_project_version(&id, "v1").unwrap();
    let (pid, name, v) = c.project_status(&id, "v1").unwrap();
    assert_eq!((pid.as_str(), name.as_str(), v.name.as_str()), (id.as_str(), "P", "v1"));
    assert_eq!(c.project_status(&id, "v2").unwrap_err().message, "Project version not found");
    assert_eq!(c.project_versions_of(&id).unwrap().len(), 1);
    assert_eq!(c.project_name_for(&id, "v1").unwrap(), "P");
}

#[test]
fn names_and_defaults() {
    assert!(valid_name("v1"));
    assert!(!valid_name("a\\b"));
    assert!(!valid_name(""));
    assert_eq!(platform_or_default(None), "Android");
    assert_eq!(platform_or_default(Some("iOS".to_string())), "iOS");
}

#[test]
fn undeclared_platform_is_not_found() {
    let (mut c, id) = config_with_project("MyProject");
    c.create_project_version(&id, "v1").unwrap();
    c.activate_version(&id, "v1", "1.0.0", "Android").unwrap();
    let req = UpdateProjectRequest { project_name: None, platforms: Some(vec!["iOS".to_string()]), package_name: None };
    c.update_project(&id, req).unwrap();
    let storage = Storage::new("/data/resources".to_string());
    match resolve_resource(&c, &storage, "v1/MyProject/Android/file.bundle") {
        ResourceDecision::NotFound { project_id, message } => {
            assert_eq!(project_id, id);
            assert_eq!(message, "Not found");
        }
        _ => panic!("expected 404 for a platform the project does not declare"),
    }
}
