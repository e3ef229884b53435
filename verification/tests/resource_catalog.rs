use gcore::ast::NodeKind;
use gcore::resources::{list_resources, read_route, route_resource, DiscoveredFile, ResourceRoute};

fn file(rel: &str) -> DiscoveredFile {
    DiscoveredFile {
        relative_path: Some(rel.to_string()),
        file_name: Some(rel.rsplit('/').next().unwrap().to_string()),
        mime_type: "text/x-python".to_string(),
    }
}

#[test]
fn test_list_resources_with_repository() {
    let files = vec![file("main.py"), file("utils.py"), file("constants.py")];
    let result = list_resources(true, &files);
    assert!(!result.resources.is_empty());
    assert!(result.next_cursor.is_none());
    let uris: Vec<String> = result.resources.iter().map(|r| r.uri.clone()).collect();
    for expected in [
        "gcore://repository/",
        "gcore://repository/stats",
        "gcore://repository/config",
        "gcore://repository/tree",
        "gcore://graph/repository",
        "gcore://symbols/functions",
        "gcore://symbols/classes",
        "gcore://symbols/variables",
        "gcore://symbols/modules",
    ] {
        assert!(uris.iter().any(|u| u == expected));
    }
    for name in ["main.py", "utils.py", "constants.py"] {
        assert!(uris.iter().any(|u| u.contains(name)));
    }
    assert!(list_resources(false, &files).resources.is_empty());
}

#[test]
fn test_read_unsupported_resource_uri() {
    let error = route_resource("invalid://unsupported/resource").unwrap_err();
    assert!(error.contains("Unsupported resource URI"));
}

#[test]
fn test_read_unknown_repository_resource() {
    let error = route_resource("gcore://repository/unknown_resource").unwrap_err();
    assert!(error.contains("Unknown resource URI"));
}

#[test]
fn resource_uris_route_to_their_content() {
    assert!(matches!(route_resource("gcore://repository/"), Ok(ResourceRoute::RepositoryRoot)));
    assert!(matches!(route_resource("gcore://repository/stats"), Ok(ResourceRoute::RepositoryStats)));
    assert!(matches!(route_resource("gcore://repository/tree"), Ok(ResourceRoute::FileTree)));
    assert!(matches!(route_resource("gcore://symbols/classes"), Ok(ResourceRoute::Symbols(NodeKind::Class))));
    match route_resource("gcore://repository/file/src/main.py") {
        Ok(ResourceRoute::File(p)) => assert_eq!(p, "src/main.py"),
        _ => panic!("Expected a file route"),
    }
}

#[test]
fn reads_wait_for_a_repository() {
    let error = read_route("gcore://repository/stats", false).unwrap_err();
    assert_eq!(error, "No repository initialized");
    let error = read_route("gcore://elsewhere/x", false).unwrap_err();
    assert_eq!(error, "Unsupported resource URI: gcore://elsewhere/x");
    let error = read_route("gcore://symbols/unknown", true).unwrap_err();
    assert_eq!(error, "Unknown resource URI: gcore://symbols/unknown");
    assert!(matches!(read_route("gcore://graph/repository", true), Ok(ResourceRoute::RepositoryGraph)));
    match read_route("gcore://repository/file/lib/a.py", true) {
        Ok(ResourceRoute::File(rel)) => assert_eq!(rel, "lib/a.py"),
        _ => panic!("a file URI routes to its file"),
    }
}

#[test]
fn first_hundred_inside_files_are_listed_in_order() {
    let mut files: Vec<DiscoveredFile> = (0..120).map(|i| file(&format!("src/f{}.py", i))).collect();
    files[3].relative_path = None;
    files[4].file_name = None;
    let result = list_resources(true, &files);
    assert_eq!(result.resources.len(), 9 + 99);
    assert_eq!(result.resources[0].name.as_deref(), Some("Repository Root"));
    assert_eq!(result.resources[0].mime_type.as_deref(), Some("application/vnd.gcore.directory"));
    assert_eq!(result.resources[8].description.as_deref(), Some("All module symbols in the repository"));
    assert_eq!(result.resources[9].uri, "gcore://repository/file/src/f0.py");
    assert_eq!(result.resources[9].description.as_deref(), Some("Source file: src/f0.py"));
    assert_eq!(result.resources[12].uri, "gcore://repository/file/src/f4.py");
    assert_eq!(result.resources[12].name.as_deref(), Some("unknown"));
    assert_eq!(result.resources[12].mime_type.as_deref(), Some("text/x-python"));
    assert_eq!(result.resources.last().unwrap().uri, "gcore://repository/file/src/f99.py");
}
