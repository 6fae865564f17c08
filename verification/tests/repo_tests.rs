//! Tests of repository URL parsing and platform download selection.

use plugin_host::repo::{extract_repo_info, DownloadConfig, PlatformDownload, PluginRepository};

#[test]
fn test_extract_repo_info() {
    let url = "https://github.com/luodeb/chat-client-plugin";
    let info = extract_repo_info(url).unwrap();
    assert_eq!(info.owner, "luodeb");
    assert_eq!(info.name, "chat-client-plugin");
}

#[test]
fn test_extract_repo_info_with_git_suffix() {
    let url = "https://github.com/luodeb/chat-client-plugin.git";
    let info = extract_repo_info(url).unwrap();
    assert_eq!(info.owner, "luodeb");
    assert_eq!(info.name, "chat-client-plugin");
}

#[test]
fn test_extract_repo_info_with_trailing_slash() {
    let url = "https://github.com/luodeb/chat-client-plugin/";
    let info = extract_repo_info(url).unwrap();
    assert_eq!(info.owner, "luodeb");
    assert_eq!(info.name, "chat-client-plugin");
}

#[test]
fn test_invalid_url() {
    let url = "https://invalid-url.com/repo";
    assert!(extract_repo_info(url).is_err());
}

#[test]
fn extract_rejects_empty_owner() {
    assert!(extract_repo_info("https://github.com//name").is_err());
    assert!(extract_repo_info("https://github.com/owner").is_err());
    assert!(extract_repo_info("").is_err());
}

#[test]
fn extract_keeps_extra_path_segments() {
    let info = extract_repo_info("https://github.com/owner/name/tree/main").unwrap();
    assert_eq!(info.owner, "owner");
    assert_eq!(info.name, "name");
}

#[test]
fn platform_download_picks_the_named_platform() {
    let repo = PluginRepository::new();
    let config = Some(DownloadConfig {
        windows: None,
        macos: None,
        linux: Some(PlatformDownload {
            checksum: "abc".to_string(),
            download_url: "https://example.invalid/plugin.tar".to_string(),
        }),
    });
    let linux = repo.get_platform_download_info(&config, "linux");
    assert_eq!(linux.unwrap().checksum, "abc");
    assert!(repo.get_platform_download_info(&config, "windows").is_none());
    assert!(repo.get_platform_download_info(&config, "solaris").is_none());
    assert!(repo.get_platform_download_info(&None, "linux").is_none());
}

#[test]
fn config_records_map_through_unchanged() {
    let plugin = plugin_host::repo::PluginInfo {
        id: "demo".to_string(),
        disabled: false,
        name: "Demo".to_string(),
        version: "1.0.0".to_string(),
        description: "demo plugin".to_string(),
        author: "someone".to_string(),
        avatar: None,
        homepage: None,
        repository: None,
        license: Some("MIT".to_string()),
        keywords: vec!["demo".to_string()],
        min_client_version: None,
        max_client_version: None,
        platform: vec![],
        dependencies: vec![],
        library: "demo_plugin".to_string(),
    };
    let config = plugin_host::repo::PluginConfig { plugin, download: None };
    let info = plugin_host::repo::available_info_from_config(config);
    assert_eq!(info.id, "demo");
    assert_eq!(info.license.as_deref(), Some("MIT"));

    let plugin = plugin_host::repo::PluginInfo {
        id: "demo".to_string(),
        disabled: false,
        name: "Demo".to_string(),
        version: "1.0.0".to_string(),
        description: "demo plugin".to_string(),
        author: "someone".to_string(),
        avatar: None,
        homepage: None,
        repository: None,
        license: None,
        keywords: vec![],
        min_client_version: None,
        max_client_version: None,
        platform: vec![],
        dependencies: vec![],
        library: "demo_plugin".to_string(),
    };
    let metadata = plugin_host::repo::metadata_from_config(
        plugin,
        "plugins/demo/config.toml".to_string(),
        Some("plugins/demo/libdemo_plugin.so".to_string()),
    );
    assert_eq!(metadata.id, "demo");
    assert_eq!(metadata.author.as_deref(), Some("someone"));
    assert!(metadata.instance_id.is_none());
    assert!(!metadata.require_history);
}
