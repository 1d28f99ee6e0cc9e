use sable::presets::bundled_presets;
use sable::service::{
    newest_first, GameRef, Reply, ReportSource, ServiceCore, ServiceRequest, ServiceStep,
    SessionRef,
};

const GAME: u128 = 0x1111_2222_3333_4444_5555_6666_7777_8888;

fn service() -> ServiceCore {
    ServiceCore::new(
        bundled_presets(),
        vec![GameRef { id: GAME, name: "Half-Life 2".to_string() }],
        vec![
            SessionRef { id: 10, has_before: true, has_after: true },
            SessionRef { id: 11, has_before: true, has_after: false },
            SessionRef { id: 12, has_before: false, has_after: false },
        ],
    )
}

#[test]
fn plain_requests_are_answered_at_once() {
    let mut c = service();
    assert!(matches!(c.handle_request(ServiceRequest::Ping), ServiceStep::Respond(Reply::Pong)));
    assert!(matches!(c.handle_request(ServiceRequest::GetTelemetry), ServiceStep::Respond(Reply::Telemetry)));
    assert!(matches!(c.handle_request(ServiceRequest::GetPresets), ServiceStep::Respond(Reply::Presets)));
    assert!(matches!(c.handle_request(ServiceRequest::SetOverlayConfig), ServiceStep::StoreOverlayConfig));
}

#[test]
fn apply_then_rollback_flips_the_applied_flag() {
    let mut c = service();
    let id = c.presets[1].id;
    match c.handle_request(ServiceRequest::ApplyPreset { preset_id: id, confirmed: false }) {
        ServiceStep::ApplyPreset { index } => assert_eq!(index, 1),
        _ => panic!("expected the engine to apply the preset"),
    }
    assert!(matches!(c.finish_apply(id, Ok(())), Reply::PresetApplied { preset_id } if preset_id == id));
    assert!(c.presets[1].is_applied);
    assert!(!c.presets[0].is_applied);
    assert!(matches!(
        c.handle_request(ServiceRequest::RollbackPreset { preset_id: id }),
        ServiceStep::RollbackPreset { preset_id } if preset_id == id
    ));
    assert!(matches!(c.finish_rollback(id, Ok(())), Reply::PresetRolledBack { .. }));
    assert!(!c.presets[1].is_applied);
}

#[test]
fn unknown_preset_is_an_error() {
    let mut c = service();
    match c.handle_request(ServiceRequest::ApplyPreset { preset_id: 0xabc, confirmed: true }) {
        ServiceStep::Respond(Reply::Error(m)) => {
            assert_eq!(m, "Preset not found: 00000000-0000-0000-0000-000000000abc")
        }
        _ => panic!("expected an error"),
    }
}

#[test]
fn failed_apply_and_rollback_keep_the_flags() {
    let mut c = service();
    let id = c.presets[0].id;
    match c.finish_apply(id, Err("registry write refused".to_string())) {
        Reply::Error(m) => assert_eq!(m, "Apply failed: registry write refused"),
        _ => panic!("expected an error"),
    }
    assert!(!c.presets[0].is_applied);
    match c.finish_rollback(id, Err("No rollback snapshot found".to_string())) {
        Reply::Error(m) => assert_eq!(m, "Rollback failed: No rollback snapshot found"),
        _ => panic!("expected an error"),
    }
}

#[test]
fn benchmark_records_the_started_game() {
    let mut c = service();
    assert!(matches!(c.handle_request(ServiceRequest::StopBenchmark), ServiceStep::Respond(Reply::BenchmarkStopped)));
    assert!(matches!(c.handle_request(ServiceRequest::StartBenchmark { game_id: GAME }), ServiceStep::StartBenchmarkClock));
    assert!(c.benchmark.active);
    match c.handle_request(ServiceRequest::StopBenchmark) {
        ServiceStep::FinishBenchmark { game_id, game_name } => {
            assert_eq!(game_id, GAME);
            assert_eq!(game_name, "Half-Life 2");
        }
        _ => panic!("expected the session to be finished"),
    }
    assert!(!c.benchmark.active);
    assert!(c.benchmark.game_id.is_none());
    c.record_session(SessionRef { id: 13, has_before: true, has_after: true });
    assert_eq!(c.sessions.len(), 4);
}

#[test]
fn unknown_game_is_named_unknown() {
    let mut c = service();
    c.handle_request(ServiceRequest::StartBenchmark { game_id: 5 });
    match c.handle_request(ServiceRequest::StopBenchmark) {
        ServiceStep::FinishBenchmark { game_id, game_name } => {
            assert_eq!(game_id, 5);
            assert_eq!(game_name, "Unknown game");
        }
        _ => panic!("expected the session to be finished"),
    }
}

#[test]
fn report_prefers_session_after_metrics() {
    let mut c = service();
    let src = |c: &mut ServiceCore, id: u128| match c.handle_request(ServiceRequest::GetBottleneckReport { session_id: id }) {
        ServiceStep::Report(s) => s,
        _ => panic!("expected a report"),
    };
    assert_eq!(src(&mut c, 10), ReportSource::SessionAfter(0));
    assert_eq!(src(&mut c, 11), ReportSource::SessionBefore(1));
    assert_eq!(src(&mut c, 12), ReportSource::Live);
    assert_eq!(src(&mut c, 99), ReportSource::Live);
}

#[test]
fn sessions_are_listed_newest_first() {
    let stamps = vec![(100i64, 5u32), (200, 0), (100, 7), (200, 0), (50, 999_999_999)];
    assert_eq!(newest_first(&stamps), vec![1, 3, 2, 0, 4]);
    assert_eq!(newest_first(&Vec::new()), Vec::<usize>::new());
}

#[test]
fn medium_risk_preset_needs_confirmation() {
    let mut c = service();
    let id = c.presets[5].id;
    match c.handle_request(ServiceRequest::ApplyPreset { preset_id: id, confirmed: false }) {
        ServiceStep::Respond(Reply::Error(m)) => assert_eq!(
            m,
            "Preset requires explicit confirmation: 00000000-0000-0000-0000-000000000006"
        ),
        _ => panic!("expected a refusal"),
    }
    assert!(!c.presets[5].is_applied);
    match c.handle_request(ServiceRequest::ApplyPreset { preset_id: id, confirmed: true }) {
        ServiceStep::ApplyPreset { index } => assert_eq!(index, 5),
        _ => panic!("expected the engine to apply the preset"),
    }
}
