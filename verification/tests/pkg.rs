use yanos_backend::domain::{CommandOutput, PackageInfo};
use yanos_backend::error::AppError;
use yanos_backend::events::ExternalEvent;
use yanos_backend::pkg::{
    classify_ssl, parse_fmri, parse_pkg_list, parse_remote_updates, pkg_list_step,
    refresh_outcome, remote_updates, update_candidates, PkgListStep, PkgUpdateCache, SslProblem,
    UpdateQuery,
};

fn out(success: bool, code: i32, stdout: &str, stderr: &str) -> Result<CommandOutput, String> {
    Ok(CommandOutput { success, code: Some(code), stdout: stdout.to_string(), stderr: stderr.to_string() })
}

#[test]
fn fmri_parts_are_split() {
    let (n, v, b) = parse_fmri("pkg://omnios/system/library@0.5.11-151046.0:20230101T000000Z");
    assert_eq!(n, "system/library");
    assert_eq!(v, "0.5.11-151046.0");
    assert_eq!(b, "20230101T000000Z");
    let (n, v, b) = parse_fmri("web/curl@8.1");
    assert_eq!(n, "curl");
    assert_eq!(v, "8.1");
    assert_eq!(b, "");
    let (n, v, b) = parse_fmri("pkg://omnios");
    assert_eq!(n, "omnios");
    assert_eq!(v, "");
    assert_eq!(b, "");
}

#[test]
fn pkg_list_lines() {
    let list = parse_pkg_list(
        "pkg://omnios/shell/bash@5.2.15-151046.0:20230426T000000Z i--\n\npkg://omnios/web/curl@8.1\n",
    );
    assert_eq!(list.len(), 2);
    assert_eq!(list[0].name, "shell/bash");
    assert_eq!(list[0].version, "5.2.15-151046.0");
    assert_eq!(list[0].build_time, "20230426T000000Z");
    assert_eq!(list[0].status, "i--");
    assert_eq!(list[1].status, "unknown");
}

#[test]
fn pkg_list_retries_then_gives_up() {
    assert!(matches!(pkg_list_step(1, out(false, 1, "", "busy")), PkgListStep::Retry));
    assert!(matches!(pkg_list_step(2, Err("no pkg".to_string())), PkgListStep::Retry));
    match pkg_list_step(3, out(false, 1, "", "busy")) {
        PkgListStep::Done(Err(AppError::ServiceUnavailable(m))) => {
            assert_eq!(m, "Failed to list packages via pkg")
        }
        _ => panic!("expected to give up"),
    }
    match pkg_list_step(3, out(true, 0, "pkg://omnios/web/curl@8.1 i--\n", "")) {
        PkgListStep::Done(Ok(v)) => assert_eq!(v.len(), 1),
        _ => panic!("expected the list"),
    }
}

#[test]
fn ssl_problems_are_classified() {
    assert!(matches!(classify_ssl("pkg: E_SSL certificate is not yet valid"), Some(SslProblem::NotYetValid)));
    assert!(matches!(classify_ssl("SSL certificate problem: certificate has expired"), Some(SslProblem::Expired)));
    assert!(matches!(classify_ssl("SSL certificate problem: unable to get local issuer"), Some(SslProblem::Other)));
    assert!(classify_ssl("certificate has expired").is_none());
}

#[test]
fn refresh_outcomes() {
    assert!(refresh_outcome(out(true, 0, "", "")).is_ok());
    match refresh_outcome(out(false, 1, "", "E_SSL: certificate has expired")) {
        Err(AppError::ServiceUnavailable(m)) => assert_eq!(
            m,
            "Catalog refresh failed: SSL certificate has expired. Consider updating CA certificates."
        ),
        _ => panic!("expected an SSL error"),
    }
    match refresh_outcome(out(false, 1, "", "network down")) {
        Err(AppError::InternalServerError(m)) => assert_eq!(m, "pkg refresh failed: network down"),
        _ => panic!("expected an internal error"),
    }
    match refresh_outcome(Err("no such file".to_string())) {
        Err(AppError::InternalServerError(m)) => {
            assert_eq!(m, "pkg refresh execution failed: no such file")
        }
        _ => panic!("expected an internal error"),
    }
}

#[test]
fn update_candidates_cases() {
    match update_candidates(out(true, 0, "shell/bash\n  \nweb/curl  \n", "")) {
        UpdateQuery::Names(n) => assert_eq!(n, vec!["shell/bash".to_string(), "web/curl".to_string()]),
        _ => panic!("expected names"),
    }
    assert!(matches!(update_candidates(out(true, 0, "\n", "")), UpdateQuery::Finished(Ok(v)) if v.is_empty()));
    assert!(matches!(update_candidates(out(false, 4, "", "")), UpdateQuery::Finished(Ok(v)) if v.is_empty()));
    match update_candidates(out(false, 1, "", "E_SSL certificate is not yet valid")) {
        UpdateQuery::Finished(Err(AppError::ServiceUnavailable(m))) => assert_eq!(
            m,
            "Package repository SSL error: certificate is not yet valid. Please verify system time is correct (check with 'date' command)."
        ),
        _ => panic!("expected an SSL error"),
    }
    match update_candidates(out(false, 1, "", "boom")) {
        UpdateQuery::Finished(Err(AppError::ServiceUnavailable(m))) => {
            assert_eq!(m, "Failed to query pkg updates")
        }
        _ => panic!("expected a failure"),
    }
    match update_candidates(Err("no pkg".to_string())) {
        UpdateQuery::Finished(Err(AppError::ServiceUnavailable(m))) => {
            assert_eq!(m, "Failed to query pkg updates")
        }
        _ => panic!("expected a failure"),
    }
}

#[test]
fn remote_info_pairs_names_with_fmris() {
    let text = "          Name: shell/bash\n       Summary: GNU Bourne Again Shell\n          FMRI: pkg://omnios/shell/bash@5.2.21-151048.0:20231101T000000Z\n\n          FMRI: pkg://omnios/orphan@1.0\n          Name: web/curl\n          FMRI: pkg://omnios/web/curl@8.4.0-151048.0:20231102T000000Z\n";
    let ups = parse_remote_updates(text);
    assert_eq!(ups.len(), 2);
    assert_eq!(ups[0].name, "shell/bash");
    assert_eq!(ups[0].version, "5.2.21-151048.0");
    assert_eq!(ups[0].build_time, "20231101T000000Z");
    assert_eq!(ups[0].status, "upgrade_available");
    assert_eq!(ups[1].name, "web/curl");
    assert!(remote_updates(Err("x".to_string())).is_empty());
    assert_eq!(remote_updates(out(false, 1, text, "partial")).len(), 2);
}

fn pkg(name: &str) -> PackageInfo {
    PackageInfo {
        name: name.to_string(),
        version: "1".to_string(),
        build_time: "".to_string(),
        status: "upgrade_available".to_string(),
    }
}

#[test]
fn update_cache_keeps_updates_after_a_failed_check() {
    let mut cache = PkgUpdateCache::new();
    assert!(cache.updates().is_empty());
    cache.record(Ok(vec![pkg("a"), pkg("b")]));
    assert_eq!(cache.updates().len(), 2);
    let ev = cache.check_completed(
        "id-1".to_string(),
        "2024-01-01T00:00:00Z".to_string(),
        42,
        Err(AppError::ServiceUnavailable("down".to_string())),
    );
    match ev {
        ExternalEvent::TaskCompleted { id, name, duration_ms, status, .. } => {
            assert_eq!(id, "id-1");
            assert_eq!(name, "Package Update Check");
            assert_eq!(duration_ms, 42);
            assert_eq!(status, "failed");
        }
        _ => panic!("expected a completion"),
    }
    assert_eq!(cache.updates().len(), 2);
    let ev = cache.check_completed("id-2".to_string(), "t".to_string(), 1, Ok(vec![pkg("c")]));
    assert!(matches!(ev, ExternalEvent::TaskCompleted { ref status, .. } if status == "success"));
    assert_eq!(cache.updates()[0].name, "c");
    match PkgUpdateCache::check_started("id-3".to_string(), "t0".to_string()) {
        ExternalEvent::TaskStarted { id, name, started_at } => {
            assert_eq!(id, "id-3");
            assert_eq!(name, "Package Update Check");
            assert_eq!(started_at, "t0");
        }
        _ => panic!("expected a start"),
    }
}
