use vex_bridge::daemon_supervisor::{
    decide, health_body, health_request, reported_version, shutdown_request, StartupDecision, SupervisionMode,
    SupervisionPhase, Supervisor, SupervisorAction, SupervisorEvent,
};
use vex_bridge::dashboard::{existing_access_token, new_access_token, render};
use vex_bridge::desktop::{
    crash_dialog_text, dashboard_url, expand_to_rgba, handle_ipc, opens_externally, PixelLayout, UserEvent,
};

#[test]
fn matching_version_is_healthy() {
    assert_eq!(decide(Some("0.2.36"), true, "0.2.36"), StartupDecision::Healthy);
}

#[test]
fn different_version_restarts_stale() {
    assert_eq!(decide(Some("0.2.35"), true, "0.2.36"), StartupDecision::RestartStale);
}

#[test]
fn free_port_starts_fresh() {
    assert_eq!(decide(None, false, "0.2.36"), StartupDecision::StartFresh);
}

#[test]
fn occupied_unresponsive_port_is_reclaimed() {
    assert_eq!(decide(None, true, "0.2.36"), StartupDecision::ReclaimHung);
}

#[test]
fn ensure_attaches_to_a_healthy_daemon() {
    let (s, a) = Supervisor::ensure_daemon("0.2.36".to_string());
    assert_eq!(a, SupervisorAction::Probe);
    let (s, a) = s.step(SupervisorEvent::Probed(Some("0.2.36".to_string()), true));
    assert_eq!(a, SupervisorAction::Finish(true));
    assert_eq!(s.phase, SupervisionPhase::Finished);
}

#[test]
fn ensure_retires_a_stale_daemon_by_force_when_it_refuses_to_stop() {
    let (s, _) = Supervisor::ensure_daemon("0.2.36".to_string());
    let (s, a) = s.step(SupervisorEvent::Probed(Some("0.2.35".to_string()), true));
    assert_eq!(a, SupervisorAction::RequestShutdown);
    let (s, a) = s.step(SupervisorEvent::Done);
    assert_eq!(a, SupervisorAction::WaitForPortFree(5));
    let (s, a) = s.step(SupervisorEvent::PortInUse(true));
    assert_eq!(a, SupervisorAction::ReadLockPid);
    let (s, a) = s.step(SupervisorEvent::LockPid(Some(4242)));
    assert_eq!(a, SupervisorAction::KillPid(4242));
    let (s, a) = s.step(SupervisorEvent::Done);
    assert_eq!(a, SupervisorAction::WaitForPortFree(3));
    let (s, a) = s.step(SupervisorEvent::PortInUse(false));
    assert_eq!(a, SupervisorAction::StartDaemon);
    let (s, a) = s.step(SupervisorEvent::Started(true));
    assert_eq!(a, SupervisorAction::WaitForVersion(8));
    let (s, a) = s.step(SupervisorEvent::Done);
    assert_eq!(a, SupervisorAction::Finish(true));
    assert_eq!(s.mode, SupervisionMode::Ensure);
}

#[test]
fn repair_clears_the_lock_and_reports_the_answering_version() {
    let (s, a) = Supervisor::force_repair("0.2.36".to_string());
    assert_eq!(a, SupervisorAction::RequestShutdown);
    let (s, _) = s.step(SupervisorEvent::Done);
    let (s, a) = s.step(SupervisorEvent::PortInUse(false));
    assert_eq!(a, SupervisorAction::RemoveLock);
    let (s, a) = s.step(SupervisorEvent::Done);
    assert_eq!(a, SupervisorAction::StartDaemon);
    let (s, _) = s.step(SupervisorEvent::Started(true));
    let (s, a) = s.step(SupervisorEvent::Done);
    assert_eq!(a, SupervisorAction::ProbeVersion);
    let (_, a) = s.clone().step(SupervisorEvent::Version(Some("0.2.36".to_string())));
    assert_eq!(a, SupervisorAction::Finish(true));
    let (_, a) = s.step(SupervisorEvent::Version(Some("0.2.35".to_string())));
    assert_eq!(a, SupervisorAction::Finish(false));
}

#[test]
fn repair_reports_failure_when_the_daemon_cannot_start() {
    let (s, _) = Supervisor::force_repair("0.2.36".to_string());
    let (s, _) = s.step(SupervisorEvent::Done);
    let (s, _) = s.step(SupervisorEvent::PortInUse(true));
    let (s, a) = s.step(SupervisorEvent::LockPid(None));
    assert_eq!(a, SupervisorAction::RemoveLock);
    let (s, _) = s.step(SupervisorEvent::Done);
    let (_, a) = s.step(SupervisorEvent::Started(false));
    assert_eq!(a, SupervisorAction::Finish(false));
}

#[test]
fn health_replies_are_read_only_when_ok() {
    let ok = "HTTP/1.1 200 OK\r\nContent-Type: application/json\r\n\r\n {\"version\":\"0.2.36\",\"paired\":false} \n";
    assert_eq!(health_body(ok).as_deref(), Some("{\"version\":\"0.2.36\",\"paired\":false}"));
    assert_eq!(reported_version(ok).as_deref(), Some("0.2.36"));
    assert_eq!(health_body("HTTP/1.1 503 Service Unavailable\r\n\r\n{}"), None);
    assert_eq!(health_body("HTTP/1.1 200 OK\r\nno body separator"), None);
    assert_eq!(reported_version("HTTP/1.1 200 OK\r\n\r\nnot json"), None);
}

#[test]
fn daemon_requests_are_well_formed() {
    assert_eq!(
        health_request(7878),
        "GET /v1/health HTTP/1.1\r\nHost: 127.0.0.1:7878\r\nConnection: close\r\n\r\n"
    );
    assert_eq!(shutdown_request(7878, "  \n"), None);
    assert_eq!(
        shutdown_request(7878, " tok123\n").as_deref(),
        Some(
            "POST /v1/daemon/shutdown HTTP/1.1\r\nHost: 127.0.0.1:7878\r\nX-Vex-Bridge-Token: tok123\r\nContent-Length: 0\r\nConnection: close\r\n\r\n"
        )
    );
}

#[test]
fn uses_local_dashboard_by_default() {
    assert_eq!(dashboard_url(7878, None), "http://127.0.0.1:7878/ui");
}

#[test]
fn preserves_local_dashboard_deep_links() {
    assert_eq!(
        dashboard_url(7878, Some("http://127.0.0.1:7878/ui?project=example&commit=abc")),
        "http://127.0.0.1:7878/ui?project=example&commit=abc"
    );
}

#[test]
fn rejects_non_dashboard_startup_urls() {
    for url in [
        "https://example.com",
        "http://127.0.0.1:7879/ui",
        "http://127.0.0.1:7878/v1/health",
        "http://127.0.0.1:7878/ui-not-dashboard",
    ] {
        assert_eq!(dashboard_url(7878, Some(url)), "http://127.0.0.1:7878/ui");
    }
}

#[test]
fn ipc_messages_become_window_events() {
    assert_eq!(
        handle_ipc("{\"type\":\"pickFolder\",\"requestId\":\"r1\"}"),
        Some(UserEvent::PickFolder { request_id: "r1".to_string() })
    );
    assert_eq!(
        handle_ipc("{\"type\":\"pickFolder\"}"),
        Some(UserEvent::PickFolder { request_id: String::new() })
    );
    assert_eq!(
        handle_ipc("{\"type\":\"openExternal\",\"url\":\"https://example.com/pair\"}"),
        Some(UserEvent::OpenExternal { url: "https://example.com/pair".to_string() })
    );
    assert_eq!(handle_ipc("{\"type\":\"openExternal\"}"), None);
    assert_eq!(handle_ipc("{\"type\":\"other\"}"), None);
    assert_eq!(handle_ipc("not json"), None);
    assert!(opens_externally("https://example.com"));
    assert!(opens_externally("http://example.com"));
    assert!(!opens_externally("file:///etc/passwd"));
}

#[test]
fn crash_dialog_points_at_the_saved_report() {
    assert_eq!(
        crash_dialog_text(Some("/data/crash-reports/x.json")),
        "Vex Atlas stopped unexpectedly and needs to close.\n\nA crash report was saved to:\n/data/crash-reports/x.json"
    );
    assert_eq!(
        crash_dialog_text(None),
        "Vex Atlas stopped unexpectedly and needs to close. No crash report could be saved."
    );
}

#[test]
fn icon_pixels_expand_to_rgba() {
    assert_eq!(expand_to_rgba(PixelLayout::Rgba, &[1, 2, 3, 4]).unwrap(), vec![1, 2, 3, 4]);
    assert_eq!(expand_to_rgba(PixelLayout::Rgb, &[1, 2, 3, 4, 5, 6, 7]).unwrap(), vec![1, 2, 3, 255, 4, 5, 6, 255]);
    assert_eq!(expand_to_rgba(PixelLayout::Grayscale, &[9, 8]).unwrap(), vec![9, 9, 9, 255, 8, 8, 8, 255]);
    assert_eq!(expand_to_rgba(PixelLayout::GrayscaleAlpha, &[9, 100, 7]).unwrap(), vec![9, 9, 9, 100]);
    assert!(expand_to_rgba(PixelLayout::Indexed, &[0]).is_err());
}

#[test]
fn dashboard_embeds_the_token_as_json() {
    let page = render("<script>const TOKEN = __VEX_TOKEN__; const again = __VEX_TOKEN__;</script>", "a\"b");
    assert_eq!(page, "<script>const TOKEN = \"a\\\"b\"; const again = \"a\\\"b\";</script>");
}

#[test]
fn access_tokens_are_reused_or_minted() {
    assert_eq!(existing_access_token("  abc123 \n").as_deref(), Some("abc123"));
    assert_eq!(existing_access_token(" \n"), None);
    let token = new_access_token(&[0u8; 32]);
    assert_eq!(token, "AAAAAAAAAAAAAAAAAAAAAAAAAAAAAAAAAAAAAAAAAAA");
    let other = new_access_token(&[255u8; 32]);
    assert_eq!(other.len(), 43);
    assert!(other.chars().all(|c| c == '_' || c.is_ascii_alphanumeric() || c == '-'));
    assert_ne!(other, token);
}
