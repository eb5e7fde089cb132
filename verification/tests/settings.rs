use vex_bridge::config::{
    default_api_base, default_vex_bin, default_vex_serve_host, default_web_base, migrate_expired_endpoints,
    resolve_vex_bin, Config, WatchEntry,
};
use vex_bridge::device::{default_device_label, is_computer_name_placeholder, resolve_device_label};

fn defaults() -> Config {
    Config::default_with_vex_bin(default_vex_bin(None))
}

#[test]
fn resolve_vex_bin_drops_stale_absolute_path() {
    // The stale path names no file and no engine is bundled next to the binary.
    let stale = "/opt/old-install/vex";
    assert_eq!(resolve_vex_bin(stale, false, None), "vex");
}

#[test]
fn resolve_vex_bin_normalises_placeholder() {
    assert_eq!(resolve_vex_bin("vex", false, None), "vex");
    assert_eq!(resolve_vex_bin("   ", false, None), "vex");
}

#[test]
fn resolve_vex_bin_prefers_existing_file_then_bundled_engine() {
    assert_eq!(resolve_vex_bin(" /opt/engine/vex ", true, None), "/opt/engine/vex");
    assert_eq!(resolve_vex_bin("custom-engine", false, Some("/app/vex".to_string())), "custom-engine");
    assert_eq!(resolve_vex_bin("/gone/vex", false, Some("/app/vex".to_string())), "/app/vex");
    assert_eq!(resolve_vex_bin("vex", false, Some("/app/vex".to_string())), "/app/vex");
}

#[test]
fn migrates_only_known_expired_planmorph_endpoints() {
    let mut cfg = Config {
        api_base: "https://api.planmorph.software".to_string(),
        web_base: "https://studio.planmorph.software".to_string(),
        vex_serve_host: "vex.planmorph.software".to_string(),
        ..defaults()
    };

    assert!(migrate_expired_endpoints(&mut cfg));
    assert_eq!(cfg.api_base, default_api_base());
    assert_eq!(cfg.web_base, default_web_base());
    assert_eq!(cfg.vex_serve_host, default_vex_serve_host());

    for old_ip in ["20.223.15.197", "20.166.239.248"] {
        let mut cfg = Config { vex_serve_host: old_ip.to_string(), ..defaults() };
        assert!(migrate_expired_endpoints(&mut cfg));
        assert_eq!(cfg.vex_serve_host, default_vex_serve_host());
    }

    let mut custom = Config {
        api_base: "https://vex.example.com".to_string(),
        web_base: "https://studio.example.com".to_string(),
        vex_serve_host: "ssh.example.com".to_string(),
        ..defaults()
    };
    assert!(!migrate_expired_endpoints(&mut custom));
    assert_eq!(custom.api_base, "https://vex.example.com");
    assert_eq!(custom.web_base, "https://studio.example.com");
    assert_eq!(custom.vex_serve_host, "ssh.example.com");
}

#[test]
fn migrating_twice_changes_nothing_more() {
    let mut cfg = Config {
        api_base: "  https://studio.planmorph.software/ ".to_string(),
        web_base: "http://app.planmorph.software".to_string(),
        vex_serve_host: "planmorph.software".to_string(),
        ..defaults()
    };
    assert!(migrate_expired_endpoints(&mut cfg));
    let once = cfg.clone();
    assert!(!migrate_expired_endpoints(&mut cfg));
    assert_eq!(cfg, once);
}

#[test]
fn removes_watch_by_project_id() {
    let mut cfg = Config {
        watch: vec![
            WatchEntry {
                project_id: "a".to_string(),
                cloud_project_id: None,
                path: "/tmp/a".to_string(),
                include_globs: vec!["*.ifc".to_string()],
                ifc_project_guid: None,
                project_name: None,
            },
            WatchEntry {
                project_id: "b".to_string(),
                cloud_project_id: None,
                path: "/tmp/b".to_string(),
                include_globs: vec!["*.ifc".to_string()],
                ifc_project_guid: Some("guid".to_string()),
                project_name: Some("Project B".to_string()),
            },
        ],
        ..defaults()
    };

    let removed = cfg.remove_watch("b").unwrap();

    assert_eq!(removed.project_id, "b");
    assert_eq!(cfg.watch.len(), 1);
    assert_eq!(cfg.watch[0].project_id, "a");
    assert!(cfg.remove_watch("missing").is_none());
}

#[test]
fn keeps_explicit_label() {
    assert_eq!(
        resolve_device_label(Some("Bench workstation".to_string()), default_device_label(None)),
        "Bench workstation"
    );
}

#[test]
fn treats_shell_placeholders_as_default_label() {
    let resolved = resolve_device_label(Some("%COMPUTERNAME%".to_string()), default_device_label(None));
    assert!(resolved.starts_with("Vex Atlas on "));
    assert_ne!(resolved, "%COMPUTERNAME%");
}

#[test]
fn default_label_names_the_host_or_a_generic_desktop() {
    assert_eq!(default_device_label(Some(" studio-7 ".to_string())), "Vex Atlas on studio-7");
    assert_eq!(default_device_label(Some("   ".to_string())), "Vex Atlas on Vex desktop");
    assert_eq!(default_device_label(None), "Vex Atlas on Vex desktop");
}

#[test]
fn placeholders_are_recognised_through_quotes_and_case() {
    assert!(is_computer_name_placeholder("\"%computername%\""));
    assert!(is_computer_name_placeholder("'${HOSTNAME}'"));
    assert!(!is_computer_name_placeholder("Bench workstation"));
    assert_eq!(
        resolve_device_label(Some("  ".to_string()), "Vex Atlas on host".to_string()),
        "Vex Atlas on host"
    );
    assert_eq!(resolve_device_label(None, "Vex Atlas on host".to_string()), "Vex Atlas on host");
}
