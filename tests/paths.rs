use bldr::fs::{join, svc_config_path, svc_data_path, svc_files_path, svc_hooks_path, svc_path, SVC_PATH};

#[test]
fn service_paths_live_under_the_service_root() {
    assert_eq!(SVC_PATH, "/opt/bldr/svc");
    assert_eq!(svc_path("redis"), "/opt/bldr/svc/redis");
    assert_eq!(svc_config_path("redis"), "/opt/bldr/svc/redis/config");
    assert_eq!(svc_data_path("redis"), "/opt/bldr/svc/redis/data");
    assert_eq!(svc_files_path("redis"), "/opt/bldr/svc/redis/files");
    assert_eq!(svc_hooks_path("redis"), "/opt/bldr/svc/redis/hooks");
}

#[test]
fn joining_follows_path_rules() {
    assert_eq!(join("/a", "/b"), "/b");
    assert_eq!(join("/a/", "b"), "/a/b");
    assert_eq!(join("", "b"), "b");
    assert_eq!(svc_path(""), "/opt/bldr/svc/");
    assert_eq!(svc_config_path(""), "/opt/bldr/svc/config");
}
