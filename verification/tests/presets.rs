use sable::guid::parse_guid;
use sable::presets::{
    apply_actions, bundled_presets, ApplyRun, ApplyStep, capture_state, change_action, get_hags_state_pub,
    hags_registry_value, needs_confirmation, probes_for, rollback_actions, switch_from_registry,
    switch_registry_value, PresetChange, PresetEngine, RiskLevel, RollbackSnapshot,
    SettingAction, SettingsReading, SnapshotState,
};

#[test]
fn test_bundled_presets_have_unique_ids() {
    let presets = bundled_presets();
    let ids: std::collections::HashSet<u128> = presets.iter().map(|p| p.id).collect();
    assert_eq!(ids.len(), presets.len(), "All preset IDs must be unique");
}

#[test]
fn test_bundled_presets_low_risk_majority() {
    let presets = bundled_presets();
    let low_risk = presets.iter().filter(|p| p.risk == RiskLevel::Low).count();
    assert!(
        low_risk >= presets.len() / 2,
        "Majority of presets should be Low risk"
    );
}

#[test]
fn test_preset_engine_new() {
    let engine = PresetEngine::new("snapshots".to_string());
    assert!(engine.applied_presets.is_empty());
    assert!(engine.has_no_applied());
}

#[test]
fn bundled_catalogue_contents() {
    let presets = bundled_presets();
    assert_eq!(presets.len(), 6);
    for (i, p) in presets.iter().enumerate() {
        assert_eq!(p.id, i as u128 + 1);
        assert!(p.is_bundled && !p.is_applied);
    }
    assert_eq!(presets[0].name, "High Performance Power Plan");
    assert_eq!(presets[5].risk, RiskLevel::Medium);
    match &presets[0].changes[0] {
        PresetChange::SetPowerPlan { plan_guid, plan_name } => {
            assert_eq!(plan_guid, "8c5e7fda-e8bf-4a96-9a85-a6e23a8c635c");
            assert_eq!(plan_name, "High performance");
        }
        other => panic!("unexpected change {other:?}"),
    }
}

#[test]
fn changes_map_to_writes() {
    let presets = bundled_presets();
    let high = parse_guid("8c5e7fda-e8bf-4a96-9a85-a6e23a8c635c").unwrap();
    assert_eq!(
        apply_actions(&presets[0].changes),
        vec![SettingAction::SetPowerPlan(high)]
    );
    assert_eq!(
        apply_actions(&presets[2].changes),
        vec![SettingAction::SetGameDvr(false), SettingAction::SetGameBar(false)]
    );
    assert_eq!(
        change_action(&PresetChange::SetCpuAffinity { mask: 3 }),
        None
    );
    assert_eq!(
        change_action(&PresetChange::SetPowerPlan {
            plan_guid: "not a guid".to_string(),
            plan_name: "x".to_string()
        }),
        None
    );
    assert_eq!(
        change_action(&PresetChange::SetPrioritySeparation { value: 38 }),
        Some(SettingAction::SetPrioritySeparation(38))
    );
}

fn reading() -> SettingsReading {
    SettingsReading {
        power_plan_guid: Some("381b4222-f694-41f0-9685-ff5bb260df2e".to_string()),
        power_plan_name: "Balanced".to_string(),
        hags: Some(false),
        game_dvr: Some(true),
        game_bar: None,
        game_mode: Some(false),
        priority_separation: Some(2),
        search_indexer_running: true,
    }
}

#[test]
fn snapshot_records_only_touched_settings() {
    let presets = bundled_presets();
    let probes = probes_for(&presets[2].changes);
    assert!(probes.game_dvr_and_bar && !probes.power_plan && !probes.hags);
    let st = capture_state(&presets[2].changes, &reading());
    assert_eq!(st.game_dvr, Some(true));
    // a failed read records the default
    assert_eq!(st.game_bar, Some(true));
    assert_eq!(st.hags, None);
    assert!(st.power_plan_guid.is_none());

    let st0 = capture_state(&presets[0].changes, &reading());
    assert_eq!(
        st0.power_plan_guid.as_deref(),
        Some("381b4222-f694-41f0-9685-ff5bb260df2e")
    );
    assert_eq!(st0.power_plan_name.as_deref(), Some("Balanced"));
    let mut failed = reading();
    failed.power_plan_guid = None;
    failed.priority_separation = None;
    let st1 = capture_state(&presets[0].changes, &failed);
    assert_eq!(st1.power_plan_guid.as_deref(), Some(""));
    let st2 = capture_state(&presets[1].changes, &failed);
    assert_eq!(st2.priority_separation, Some(2));
}

#[test]
fn rollback_writes_back_the_snapshot() {
    let balanced = parse_guid("381b4222-f694-41f0-9685-ff5bb260df2e").unwrap();
    let st = SnapshotState {
        power_plan_guid: Some("381b4222-f694-41f0-9685-ff5bb260df2e".to_string()),
        power_plan_name: Some("Balanced".to_string()),
        hags: Some(false),
        game_dvr: Some(false),
        game_bar: Some(true),
        game_mode: Some(false),
        priority_separation: Some(2),
        search_indexer_was_running: Some(true),
    };
    assert_eq!(
        rollback_actions(&st),
        vec![
            SettingAction::SetPowerPlan(balanced),
            SettingAction::SetHags(false),
            SettingAction::SetGameDvr(false),
            SettingAction::SetGameBar(true),
            SettingAction::SetGameMode(false),
            SettingAction::SetPrioritySeparation(2),
            SettingAction::StartSearchIndexer,
        ]
    );
    let empty = SnapshotState {
        power_plan_guid: Some(String::new()),
        power_plan_name: Some("Unknown".to_string()),
        hags: None,
        game_dvr: None,
        game_bar: None,
        game_mode: None,
        priority_separation: Some(0x1_0000_0026),
        search_indexer_was_running: Some(false),
    };
    // unreadable GUID text writes no power plan; the value keeps its low 32 bits
    assert_eq!(
        rollback_actions(&empty),
        vec![SettingAction::SetPrioritySeparation(38)]
    );
}

#[test]
fn registry_values() {
    assert_eq!(hags_registry_value(true), 2);
    assert_eq!(hags_registry_value(false), 1);
    assert!(get_hags_state_pub(Some(2)));
    assert!(!get_hags_state_pub(Some(1)));
    assert!(!get_hags_state_pub(None));
    assert_eq!(switch_registry_value(true), 1);
    assert!(!switch_from_registry(0));
    assert!(switch_from_registry(5));
}

#[test]
fn engine_keeps_one_snapshot_per_preset() {
    let mut engine = PresetEngine::new("snapshots".to_string());
    let state = capture_state(&bundled_presets()[3].changes, &reading());
    engine.record_applied(RollbackSnapshot {
        id: 77,
        preset_id: 4,
        timestamp_secs: 1_700_000_000,
        timestamp_nanos: 0,
        state,
    });
    assert!(!engine.has_no_applied());
    let taken = engine.take_snapshot(4).unwrap();
    assert_eq!(taken.id, 77);
    assert_eq!(taken.state.game_mode, Some(false));
    assert!(engine.take_snapshot(4).is_none());
    assert!(engine.has_no_applied());
}

#[derive(Debug, Clone, Copy, PartialEq)]
struct Switches {
    dvr: bool,
    bar: bool,
    mode: bool,
}

fn run(mut s: Switches, acts: &[SettingAction]) -> Switches {
    for a in acts {
        match a {
            SettingAction::SetGameDvr(e) => s.dvr = *e,
            SettingAction::SetGameBar(e) => s.bar = *e,
            SettingAction::SetGameMode(e) => s.mode = *e,
            _ => {}
        }
    }
    s
}

#[test]
fn apply_then_rollback_restores_switches() {
    let presets = bundled_presets();
    let before = Switches { dvr: true, bar: true, mode: false };
    let mut r = reading();
    r.game_bar = Some(true);
    for p in &presets {
        let st = capture_state(&p.changes, &r);
        let applied = run(before, &apply_actions(&p.changes));
        assert_eq!(run(applied, &rollback_actions(&st)), before, "preset {}", p.name);
    }
    let dvr_bar = run(before, &apply_actions(&presets[2].changes));
    assert_eq!(dvr_bar, Switches { dvr: false, bar: false, mode: false });
    let st = capture_state(&presets[2].changes, &r);
    assert_eq!(
        rollback_actions(&st),
        vec![SettingAction::SetGameDvr(true), SettingAction::SetGameBar(true)]
    );
}

#[test]
fn only_low_risk_applies_without_confirmation() {
    assert!(!needs_confirmation(RiskLevel::Low));
    assert!(needs_confirmation(RiskLevel::Medium));
    assert!(needs_confirmation(RiskLevel::High));
}

#[test]
fn rollback_restores_with_only_touched_settings_read() {
    let presets = bundled_presets();
    let before = Switches { dvr: false, bar: true, mode: true };
    for p in &presets {
        let probes = probes_for(&p.changes);
        let r = SettingsReading {
            power_plan_guid: if probes.power_plan { reading().power_plan_guid } else { None },
            power_plan_name: if probes.power_plan { "Balanced".to_string() } else { String::new() },
            hags: if probes.hags { Some(false) } else { None },
            game_dvr: if probes.game_dvr_and_bar { Some(before.dvr) } else { None },
            game_bar: if probes.game_dvr_and_bar { Some(before.bar) } else { None },
            game_mode: if probes.game_mode { Some(before.mode) } else { None },
            priority_separation: if probes.priority_separation { Some(2) } else { None },
            search_indexer_running: probes.search_indexer,
        };
        let st = capture_state(&p.changes, &r);
        let applied = run(before, &apply_actions(&p.changes));
        assert_eq!(run(applied, &rollback_actions(&st)), before, "preset {}", p.name);
        for a in rollback_actions(&st) {
            match a {
                SettingAction::SetGameDvr(_) | SettingAction::SetGameBar(_) => {
                    assert!(probes.game_dvr_and_bar)
                }
                SettingAction::SetGameMode(_) => assert!(probes.game_mode),
                SettingAction::SetHags(_) => assert!(probes.hags),
                SettingAction::SetPowerPlan(_) => assert!(probes.power_plan),
                SettingAction::SetPrioritySeparation(_) => assert!(probes.priority_separation),
                _ => {}
            }
        }
    }
}

#[test]
fn apply_run_stops_at_the_failed_write_and_rolls_back() {
    let presets = bundled_presets();
    let st = capture_state(&presets[2].changes, &reading());
    let mut run = ApplyRun::new(&presets[2].changes);
    match run.next_step(&st) {
        ApplyStep::Write(a) => assert_eq!(a, SettingAction::SetGameDvr(false)),
        _ => panic!("expected the first write"),
    }
    run.record_outcome(true);
    match run.next_step(&st) {
        ApplyStep::Write(a) => assert_eq!(a, SettingAction::SetGameBar(false)),
        _ => panic!("expected the second write"),
    }
    run.record_outcome(false);
    match run.next_step(&st) {
        ApplyStep::RollBack(v) => assert_eq!(v, rollback_actions(&st)),
        _ => panic!("expected the rollback"),
    }
    let mut ok = ApplyRun::new(&presets[0].changes);
    assert!(matches!(ok.next_step(&st), ApplyStep::Write(SettingAction::SetPowerPlan(_))));
    ok.record_outcome(true);
    assert!(matches!(ok.next_step(&st), ApplyStep::Done));
}
