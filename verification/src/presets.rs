//! Optimization presets: the built-in catalogue, what each change does to
//! the system, what a rollback snapshot records before a preset is applied
//! and what a rollback does with it.
//!
//! The library plans; the operating-system reads and writes are performed by
//! the caller, which hands the readings in and executes the returned
//! actions in order, stopping at the first one that fails.
use vstd::prelude::*;
use vstd::utf8::encode_utf8;
use vstd::string::StringSliceAdditionalSpecFns;
use crate::guid::{Guid, guid_outcome, guid_text, parse_guid, parsed_guid};
use std::collections::HashMap;
use crate::ids::{bundled_uuid, hex_chars_value, hyphenated_digits, is_hyphenated_uuid};

verus! {

/// How risky a preset is: Low is auto-applicable, Medium and High need an
/// explicit confirmation.
#[derive(Debug, Clone, Copy, PartialEq, Eq, Structural)]
pub enum RiskLevel {
    Low,
    Medium,
    High,
}

/// One system change that a preset makes.
#[derive(Debug, Clone)]
pub enum PresetChange {
    /// Switch the Windows power plan, given by GUID text.
    SetPowerPlan { plan_guid: String, plan_name: String },
    /// Set process priority (0 = Normal, 1 = AboveNormal, 2 = High; never Realtime).
    SetProcessPriority { priority: u8 },
    /// Pin the game to CPU cores (bitmask).
    SetCpuAffinity { mask: u64 },
    /// Toggle Hardware Accelerated GPU Scheduling.
    SetHags { enabled: bool },
    /// Disable Xbox Game DVR / background recording.
    DisableGameDvr,
    /// Disable the Xbox Game Bar.
    DisableGameBar,
    /// Enable Windows Game Mode.
    EnableGameMode,
    /// Reduce background process priorities during a gaming session; the CPU
    /// threshold (a percentage) is held as the IEEE-754 bit pattern of its
    /// `f32` value.
    ThrottleBackgroundProcesses { threshold_cpu_pct_bits: u32 },
    /// Vendor-specific NVIDIA DRS profile setting.
    NvidiaDrsSetting { setting_id: u32, value: u32, description: String },
    /// Set the Win32 CPU priority separation (foreground vs background quantum).
    SetPrioritySeparation { value: u32 },
    /// Stop the Windows Search Indexer and set it to manual start.
    DisableSearchIndexer,
}

/// An optimization preset; `id` is the UUID's 128-bit value.
#[derive(Debug, Clone)]
pub struct Preset {
    pub id: u128,
    pub name: String,
    pub description: String,
    pub risk: RiskLevel,
    pub changes: Vec<PresetChange>,
    pub is_bundled: bool,
    pub is_applied: bool,
}

/// Whether applying a preset of this risk needs an explicit confirmation:
/// Low risk does not, Medium and High do.
pub fn needs_confirmation(risk: RiskLevel) -> (r: bool)
    ensures
        r == (risk != RiskLevel::Low),
{
    match risk {
        RiskLevel::Low => false,
        _ => true,
    }
}

/// The number of presets of Low risk.
pub open spec fn low_risk_count(ps: Seq<Preset>) -> nat
    decreases ps.len(),
{
    if ps.len() == 0 {
        0
    } else {
        low_risk_count(ps.drop_last()) + if ps.last().risk == RiskLevel::Low {
            1nat
        } else {
            0nat
        }
    }
}

/// The name of built-in preset `k` (0 to 5).
pub open spec fn bundled_name(k: int) -> Seq<char> {
    if k == 0 {
        "High Performance Power Plan"@
    } else if k == 1 {
        "Maximize Foreground CPU Priority"@
    } else if k == 2 {
        "Disable Xbox Game DVR"@
    } else if k == 3 {
        "Enable Windows Game Mode"@
    } else if k == 4 {
        "Disable Search Indexer During Gaming"@
    } else {
        "HAGS Advisory"@
    }
}

/// The description of built-in preset `k` (0 to 5).
pub open spec fn bundled_description(k: int) -> Seq<char> {
    if k == 0 {
        "Switches Windows to the High Performance power plan. Prevents CPU frequency scaling during gameplay and reduces input latency caused by sleep states. Most impactful on laptops and desktop systems on Balanced plan."@
    } else if k == 1 {
        "Sets Windows CPU time distribution to heavily favor the active foreground application. Background processes receive fewer CPU quanta, reducing latency and microstutter in games. Reversible registry change — does not affect background service stability."@
    } else if k == 2 {
        "Disables background game recording (Xbox Game DVR/Game Bar capture). Eliminates consistent GPU overhead from continuous video encoding. Measurable improvement on mid-range systems."@
    } else if k == 3 {
        "Activates Windows Game Mode which deprioritizes background processes and may allocate more resources to the active game process. Effect varies by system configuration."@
    } else if k == 4 {
        "Stops the Windows Search Indexer (WSearch) service and prevents it from restarting on reboot. Eliminates unpredictable disk I/O and CPU spikes caused by background indexing during gameplay. Most impactful on HDDs and systems with low RAM. Rollback restores the service."@
    } else {
        "Hardware Accelerated GPU Scheduling (HAGS) can improve latency on some GPU/driver combinations but causes issues on others. Check your GPU vendor's recommendation. Requires driver reload after toggle."@
    }
}

/// The changes of built-in preset `k` (0 to 5), as their effect is stated.
pub open spec fn bundled_changes_are(k: int, cs: Seq<PresetChange>) -> bool {
    if k == 0 {
        cs.len() == 1 && (cs[0] matches PresetChange::SetPowerPlan { plan_guid, plan_name } && plan_guid@
            == "8c5e7fda-e8bf-4a96-9a85-a6e23a8c635c"@ && plan_name@ == "High performance"@)
    } else if k == 1 {
        cs.len() == 1 && cs[0] == PresetChange::SetPrioritySeparation { value: 38 }
    } else if k == 2 {
        cs.len() == 2 && cs[0] == PresetChange::DisableGameDvr && cs[1]
            == PresetChange::DisableGameBar
    } else if k == 3 {
        cs.len() == 1 && cs[0] == PresetChange::EnableGameMode
    } else if k == 4 {
        cs.len() == 1 && cs[0] == PresetChange::DisableSearchIndexer
    } else {
        cs.len() == 1 && cs[0] == PresetChange::SetHags { enabled: true }
    }
}

proof fn lemma_bundled_id(s: &str, k: u128)
    requires
        is_hyphenated_uuid(s@),
        hyphenated_digits(s@) =~= seq![
            '0', '0', '0', '0', '0', '0', '0', '0', '0', '0', '0', '0', '0', '0', '0', '0', '0', '0', '0', '0', '0',
            '0', '0', '0', '0', '0', '0', '0', '0', '0', '0', (0x30 + k) as char,
        ],
        1 <= k <= 6,
    ensures
        hex_chars_value(hyphenated_digits(s@)) == k,
{
    reveal_with_fuel(hex_chars_value, 33);
}

/// The catalogue of built-in presets: six presets with the ids
/// `00000000-0000-0000-0000-00000000000N` (N = 1 to 6), all bundled and none
/// applied, the first five of Low risk and the last of Medium risk.
pub fn bundled_presets() -> (r: Vec<Preset>)
    ensures
        r@.len() == 6,
        forall|k: int|
            0 <= k < 6 ==> {
                &&& (#[trigger] r@[k]).id == (k + 1) as u128
                &&& r@[k].name@ == bundled_name(k)
                &&& r@[k].description@ == bundled_description(k)
                &&& r@[k].is_bundled
                &&& !r@[k].is_applied
                &&& r@[k].risk == if k < 5 {
                    RiskLevel::Low
                } else {
                    RiskLevel::Medium
                }
                &&& bundled_changes_are(k, r@[k].changes@)
            },
{
    proof {
        reveal_strlit("00000000-0000-0000-0000-000000000001");
        reveal_strlit("00000000-0000-0000-0000-000000000002");
        reveal_strlit("00000000-0000-0000-0000-000000000003");
        reveal_strlit("00000000-0000-0000-0000-000000000004");
        reveal_strlit("00000000-0000-0000-0000-000000000005");
        reveal_strlit("00000000-0000-0000-0000-000000000006");
        lemma_bundled_id("00000000-0000-0000-0000-000000000001", 1);
        lemma_bundled_id("00000000-0000-0000-0000-000000000002", 2);
        lemma_bundled_id("00000000-0000-0000-0000-000000000003", 3);
        lemma_bundled_id("00000000-0000-0000-0000-000000000004", 4);
        lemma_bundled_id("00000000-0000-0000-0000-000000000005", 5);
        lemma_bundled_id("00000000-0000-0000-0000-000000000006", 6);
    }
    let p1 = Preset {
        id: bundled_uuid("00000000-0000-0000-0000-000000000001"),
        name: String::from_str("High Performance Power Plan"),
        description: String::from_str("Switches Windows to the High Performance power plan. Prevents CPU frequency scaling during gameplay and reduces input latency caused by sleep states. Most impactful on laptops and desktop systems on Balanced plan."),
        risk: RiskLevel::Low,
        changes: vec![
            PresetChange::SetPowerPlan {
                plan_guid: String::from_str("8c5e7fda-e8bf-4a96-9a85-a6e23a8c635c"),
                plan_name: String::from_str("High performance"),
            },
        ],
        is_bundled: true,
        is_applied: false,
    };
    let p2 = Preset {
        id: bundled_uuid("00000000-0000-0000-0000-000000000002"),
        name: String::from_str("Maximize Foreground CPU Priority"),
        description: String::from_str("Sets Windows CPU time distribution to heavily favor the active foreground application. Background processes receive fewer CPU quanta, reducing latency and microstutter in games. Reversible registry change — does not affect background service stability."),
        risk: RiskLevel::Low,
        // 0x26: maximum foreground quanta, no background boost
        changes: vec![PresetChange::SetPrioritySeparation { value: 38 }],
        is_bundled: true,
        is_applied: false,
    };
    let p3 = Preset {
        id: bundled_uuid("00000000-0000-0000-0000-000000000003"),
        name: String::from_str("Disable Xbox Game DVR"),
        description: String::from_str("Disables background game recording (Xbox Game DVR/Game Bar capture). Eliminates consistent GPU overhead from continuous video encoding. Measurable improvement on mid-range systems."),
        risk: RiskLevel::Low,
        changes: vec![PresetChange::DisableGameDvr, PresetChange::DisableGameBar],
        is_bundled: true,
        is_applied: false,
    };
    let p4 = Preset {
        id: bundled_uuid("00000000-0000-0000-0000-000000000004"),
        name: String::from_str("Enable Windows Game Mode"),
        description: String::from_str("Activates Windows Game Mode which deprioritizes background processes and may allocate more resources to the active game process. Effect varies by system configuration."),
        risk: RiskLevel::Low,
        changes: vec![PresetChange::EnableGameMode],
        is_bundled: true,
        is_applied: false,
    };
    let p5 = Preset {
        id: bundled_uuid("00000000-0000-0000-0000-000000000005"),
        name: String::from_str("Disable Search Indexer During Gaming"),
        description: String::from_str("Stops the Windows Search Indexer (WSearch) service and prevents it from restarting on reboot. Eliminates unpredictable disk I/O and CPU spikes caused by background indexing during gameplay. Most impactful on HDDs and systems with low RAM. Rollback restores the service."),
        risk: RiskLevel::Low,
        changes: vec![PresetChange::DisableSearchIndexer],
        is_bundled: true,
        is_applied: false,
    };
    let p6 = Preset {
        id: bundled_uuid("00000000-0000-0000-0000-000000000006"),
        name: String::from_str("HAGS Advisory"),
        description: String::from_str("Hardware Accelerated GPU Scheduling (HAGS) can improve latency on some GPU/driver combinations but causes issues on others. Check your GPU vendor's recommendation. Requires driver reload after toggle."),
        risk: RiskLevel::Medium,
        changes: vec![PresetChange::SetHags { enabled: true }],
        is_bundled: true,
        is_applied: false,
    };
    vec![p1, p2, p3, p4, p5, p6]
}

/// The built-in presets have distinct ids.
pub proof fn lemma_bundled_ids_unique(ps: Seq<Preset>)
    requires
        ps.len() == 6,
        forall|k: int| 0 <= k < 6 ==> (#[trigger] ps[k]).id == (k + 1) as u128,
    ensures
        forall|i: int, j: int| 0 <= i < j < ps.len() ==> ps[i].id != ps[j].id,
{
}

/// At least half of the built-in presets are of Low risk.
pub proof fn lemma_bundled_low_risk_majority(ps: Seq<Preset>)
    requires
        ps.len() == 6,
        forall|k: int|
            0 <= k < 6 ==> (#[trigger] ps[k]).risk == if k < 5 {
                RiskLevel::Low
            } else {
                RiskLevel::Medium
            },
    ensures
        low_risk_count(ps) >= ps.len() / 2,
        low_risk_count(ps) == 5,
{
    reveal_with_fuel(low_risk_count, 7);
    assert(ps.drop_last().drop_last() =~= ps.subrange(0, 4));
    assert(ps.subrange(0, 4).drop_last() =~= ps.subrange(0, 3));
    assert(ps.subrange(0, 3).drop_last() =~= ps.subrange(0, 2));
    assert(ps.subrange(0, 2).drop_last() =~= ps.subrange(0, 1));
    assert(ps.subrange(0, 1).drop_last() =~= ps.subrange(0, 0));
}


/// One operating-system write that applying or rolling back a preset makes.
#[derive(Debug, Clone, Copy, PartialEq, Eq)]
pub enum SettingAction {
    /// Make the power plan with this GUID the active one.
    SetPowerPlan(Guid),
    /// Write `HwSchMode` (2 for on, 1 for off).
    SetHags(bool),
    /// Write `AppCaptureEnabled` and `GameDVR_Enabled`.
    SetGameDvr(bool),
    /// Write the Game Bar's `ShowStartupPanel`.
    SetGameBar(bool),
    /// Write `AutoGameModeEnabled`.
    SetGameMode(bool),
    /// Write `Win32PrioritySeparation`.
    SetPrioritySeparation(u32),
    /// Stop the Search Indexer service and set it to manual start.
    StopSearchIndexer,
    /// Set the Search Indexer service to automatic start and start it.
    StartSearchIndexer,
}

/// Power-plan GUID text may be read without a slice cutting a character.
pub open spec fn guid_text_readable(t: Seq<char>) -> bool {
    !(guid_outcome(encode_utf8(t)) is Panics)
}

/// A change can be planned: its power-plan GUID text, if any, is readable.
pub open spec fn change_plannable(c: PresetChange) -> bool {
    match c {
        PresetChange::SetPowerPlan { plan_guid, .. } => guid_text_readable(plan_guid@),
        _ => true,
    }
}

/// What applying a change writes: a power plan whose GUID text does not
/// parse, and the changes that act per process or are not implemented
/// (priority, affinity, background throttling, NVIDIA DRS), write nothing.
pub open spec fn change_effect(c: PresetChange) -> Option<SettingAction> {
    match c {
        PresetChange::SetPowerPlan { plan_guid, .. } => match parsed_guid(encode_utf8(plan_guid@)) {
            Some(g) => Some(SettingAction::SetPowerPlan(g)),
            None => None,
        },
        PresetChange::SetProcessPriority { .. } => None,
        PresetChange::SetCpuAffinity { .. } => None,
        PresetChange::SetHags { enabled } => Some(SettingAction::SetHags(enabled)),
        PresetChange::DisableGameDvr => Some(SettingAction::SetGameDvr(false)),
        PresetChange::DisableGameBar => Some(SettingAction::SetGameBar(false)),
        PresetChange::EnableGameMode => Some(SettingAction::SetGameMode(true)),
        PresetChange::ThrottleBackgroundProcesses { .. } => None,
        PresetChange::NvidiaDrsSetting { .. } => None,
        PresetChange::SetPrioritySeparation { value } => Some(
            SettingAction::SetPrioritySeparation(value),
        ),
        PresetChange::DisableSearchIndexer => Some(SettingAction::StopSearchIndexer),
    }
}

/// The action that applying one change performs, if any.
pub fn change_action(change: &PresetChange) -> (r: Option<SettingAction>)
    requires
        change_plannable(*change),
    ensures
        r == change_effect(*change),
{
    match change {
        PresetChange::SetPowerPlan { plan_guid, .. } => {
            match parse_guid(plan_guid.as_str()) {
                Ok(g) => Some(SettingAction::SetPowerPlan(g)),
                Err(_) => None,
            }
        },
        PresetChange::SetProcessPriority { .. } => None,
        PresetChange::SetCpuAffinity { .. } => None,
        PresetChange::SetHags { enabled } => Some(SettingAction::SetHags(*enabled)),
        PresetChange::DisableGameDvr => Some(SettingAction::SetGameDvr(false)),
        PresetChange::DisableGameBar => Some(SettingAction::SetGameBar(false)),
        PresetChange::EnableGameMode => Some(SettingAction::SetGameMode(true)),
        PresetChange::ThrottleBackgroundProcesses { .. } => None,
        PresetChange::NvidiaDrsSetting { .. } => None,
        PresetChange::SetPrioritySeparation { value } => Some(
            SettingAction::SetPrioritySeparation(*value),
        ),
        PresetChange::DisableSearchIndexer => Some(SettingAction::StopSearchIndexer),
    }
}

/// The writes that applying a list of changes performs, in order.
pub open spec fn apply_plan(cs: Seq<PresetChange>) -> Seq<SettingAction>
    decreases cs.len(),
{
    if cs.len() == 0 {
        Seq::empty()
    } else {
        apply_plan(cs.drop_last()) + match change_effect(cs.last()) {
            Some(a) => seq![a],
            None => Seq::empty(),
        }
    }
}

/// The writes that applying a preset performs, in order; the caller
/// performs them one by one and stops at the first that fails.
pub fn apply_actions(changes: &Vec<PresetChange>) -> (r: Vec<SettingAction>)
    requires
        forall|i: int| 0 <= i < changes@.len() ==> change_plannable(#[trigger] changes@[i]),
    ensures
        r@ == apply_plan(changes@),
{
    let mut out: Vec<SettingAction> = Vec::new();
    let n = changes.len();
    for i in 0..n
        invariant
            n == changes@.len(),
            forall|j: int| 0 <= j < changes@.len() ==> change_plannable(#[trigger] changes@[j]),
            out@ == apply_plan(changes@.take(i as int)),
    {
        assert(changes@.take(i + 1).drop_last() =~= changes@.take(i as int));
        match change_action(&changes[i]) {
            Some(a) => {
                out.push(a);
            },
            None => {
                assert(out@ + Seq::<SettingAction>::empty() =~= out@);
            },
        }
    }
    assert(changes@.take(n as int) =~= changes@);
    out
}

/// The settings that a snapshot must read before a preset is applied.
#[derive(Debug, Clone, Copy, PartialEq, Eq, Structural)]
pub struct ProbeSet {
    pub power_plan: bool,
    pub hags: bool,
    pub game_dvr_and_bar: bool,
    pub game_mode: bool,
    pub priority_separation: bool,
    pub search_indexer: bool,
}

/// The changes include a power-plan change.
pub open spec fn touches_power_plan(cs: Seq<PresetChange>) -> bool {
    exists|i: int| 0 <= i < cs.len() && #[trigger] cs[i] is SetPowerPlan
}

/// The changes include a HAGS change.
pub open spec fn touches_hags(cs: Seq<PresetChange>) -> bool {
    exists|i: int| 0 <= i < cs.len() && #[trigger] cs[i] is SetHags
}

/// The changes include disabling the Game DVR or the Game Bar.
pub open spec fn touches_dvr_or_bar(cs: Seq<PresetChange>) -> bool {
    exists|i: int| 0 <= i < cs.len() && (#[trigger] cs[i] is DisableGameDvr || cs[i] is DisableGameBar)
}

/// The changes include enabling Game Mode.
pub open spec fn touches_game_mode(cs: Seq<PresetChange>) -> bool {
    exists|i: int| 0 <= i < cs.len() && #[trigger] cs[i] is EnableGameMode
}

/// The changes include a priority-separation change.
pub open spec fn touches_priority(cs: Seq<PresetChange>) -> bool {
    exists|i: int| 0 <= i < cs.len() && #[trigger] cs[i] is SetPrioritySeparation
}

/// The changes include disabling the Search Indexer.
pub open spec fn touches_indexer(cs: Seq<PresetChange>) -> bool {
    exists|i: int| 0 <= i < cs.len() && #[trigger] cs[i] is DisableSearchIndexer
}

/// The readings that a snapshot of `changes` needs.
pub fn probes_for(changes: &Vec<PresetChange>) -> (r: ProbeSet)
    ensures
        r.power_plan == touches_power_plan(changes@),
        r.hags == touches_hags(changes@),
        r.game_dvr_and_bar == touches_dvr_or_bar(changes@),
        r.game_mode == touches_game_mode(changes@),
        r.priority_separation == touches_priority(changes@),
        r.search_indexer == touches_indexer(changes@),
{
    let mut r = ProbeSet {
        power_plan: false,
        hags: false,
        game_dvr_and_bar: false,
        game_mode: false,
        priority_separation: false,
        search_indexer: false,
    };
    let n = changes.len();
    for i in 0..n
        invariant
            n == changes@.len(),
            r.power_plan == touches_power_plan(changes@.take(i as int)),
            r.hags == touches_hags(changes@.take(i as int)),
            r.game_dvr_and_bar == touches_dvr_or_bar(changes@.take(i as int)),
            r.game_mode == touches_game_mode(changes@.take(i as int)),
            r.priority_separation == touches_priority(changes@.take(i as int)),
            r.search_indexer == touches_indexer(changes@.take(i as int)),
    {
        let ghost before = changes@.take(i as int);
        let ghost after = changes@.take(i + 1);
        assert forall|j: int| 0 <= j < i implies after[j] == before[j] by {}
        assert(after[i as int] == changes@[i as int]);
        match &changes[i] {
            PresetChange::SetPowerPlan { .. } => {
                r.power_plan = true;
            },
            PresetChange::SetHags { .. } => {
                r.hags = true;
            },
            PresetChange::DisableGameDvr => {
                r.game_dvr_and_bar = true;
            },
            PresetChange::DisableGameBar => {
                r.game_dvr_and_bar = true;
            },
            PresetChange::EnableGameMode => {
                r.game_mode = true;
            },
            PresetChange::SetPrioritySeparation { .. } => {
                r.priority_separation = true;
            },
            PresetChange::DisableSearchIndexer => {
                r.search_indexer = true;
            },
            _ => {},
        }
        assert(r.power_plan == touches_power_plan(after));
        assert(r.hags == touches_hags(after));
        assert(r.game_dvr_and_bar == touches_dvr_or_bar(after));
        assert(r.game_mode == touches_game_mode(after));
        assert(r.priority_separation == touches_priority(after));
        assert(r.search_indexer == touches_indexer(after));
    }
    assert(changes@.take(n as int) =~= changes@);
    r
}


/// What the caller read of the current settings; a failed read is `None`.
#[derive(Debug, Clone)]
pub struct SettingsReading {
    /// The active power plan's GUID as text.
    pub power_plan_guid: Option<String>,
    /// The active power plan's friendly name.
    pub power_plan_name: String,
    /// `HwSchMode == 2`.
    pub hags: Option<bool>,
    /// `AppCaptureEnabled != 0`.
    pub game_dvr: Option<bool>,
    /// The Game Bar's `ShowStartupPanel != 0`.
    pub game_bar: Option<bool>,
    /// `AutoGameModeEnabled != 0`.
    pub game_mode: Option<bool>,
    /// `Win32PrioritySeparation`.
    pub priority_separation: Option<u32>,
    /// The Search Indexer service is running.
    pub search_indexer_running: bool,
}

/// The "before" state that a rollback snapshot records: one entry for each
/// setting that the preset's changes touch.
#[derive(Debug, Clone)]
pub struct SnapshotState {
    pub power_plan_guid: Option<String>,
    pub power_plan_name: Option<String>,
    pub hags: Option<bool>,
    pub game_dvr: Option<bool>,
    pub game_bar: Option<bool>,
    pub game_mode: Option<bool>,
    pub priority_separation: Option<u64>,
    pub search_indexer_was_running: Option<bool>,
}

/// `st` is the snapshot of `reading` for a preset with changes `cs`: each
/// touched setting records its reading, with the defaults of a failed read
/// (empty GUID text, HAGS off, DVR and Game Bar on, Game Mode off, priority
/// separation 2); untouched settings record nothing.
pub open spec fn snapshot_of(cs: Seq<PresetChange>, reading: SettingsReading, st: SnapshotState) -> bool {
    &&& if touches_power_plan(cs) {
        &&& st.power_plan_guid matches Some(g) && g@ == match reading.power_plan_guid {
            Some(t) => t@,
            None => Seq::empty(),
        }
        &&& st.power_plan_name matches Some(n) && n@ == reading.power_plan_name@
    } else {
        st.power_plan_guid is None && st.power_plan_name is None
    }
    &&& st.hags == if touches_hags(cs) {
        Some(reading.hags.unwrap_or(false))
    } else {
        None
    }
    &&& st.game_dvr == if touches_dvr_or_bar(cs) {
        Some(reading.game_dvr.unwrap_or(true))
    } else {
        None
    }
    &&& st.game_bar == if touches_dvr_or_bar(cs) {
        Some(reading.game_bar.unwrap_or(true))
    } else {
        None
    }
    &&& st.game_mode == if touches_game_mode(cs) {
        Some(reading.game_mode.unwrap_or(false))
    } else {
        None
    }
    &&& st.priority_separation == if touches_priority(cs) {
        Some(reading.priority_separation.unwrap_or(2) as u64)
    } else {
        None
    }
    &&& st.search_indexer_was_running == if touches_indexer(cs) {
        Some(reading.search_indexer_running)
    } else {
        None
    }
}

fn copy_string(s: &String) -> (r: String)
    ensures
        r@ == s@,
{
    String::from_str(s.as_str())
}

/// Builds the snapshot of the settings that `changes` touch.
pub fn capture_state(changes: &Vec<PresetChange>, reading: &SettingsReading) -> (r: SnapshotState)
    ensures
        snapshot_of(changes@, *reading, r),
{
    let probes = probes_for(changes);
    let power_plan_guid = if probes.power_plan {
        match &reading.power_plan_guid {
            Some(t) => Some(copy_string(t)),
            None => Some(String::new()),
        }
    } else {
        None
    };
    let power_plan_name = if probes.power_plan {
        Some(copy_string(&reading.power_plan_name))
    } else {
        None
    };
    let hags = if probes.hags {
        Some(
            match reading.hags {
                Some(v) => v,
                None => false,
            },
        )
    } else {
        None
    };
    let game_dvr = if probes.game_dvr_and_bar {
        Some(
            match reading.game_dvr {
                Some(v) => v,
                None => true,
            },
        )
    } else {
        None
    };
    let game_bar = if probes.game_dvr_and_bar {
        Some(
            match reading.game_bar {
                Some(v) => v,
                None => true,
            },
        )
    } else {
        None
    };
    let game_mode = if probes.game_mode {
        Some(
            match reading.game_mode {
                Some(v) => v,
                None => false,
            },
        )
    } else {
        None
    };
    let priority_separation = if probes.priority_separation {
        Some(
            match reading.priority_separation {
                Some(v) => v as u64,
                None => 2,
            },
        )
    } else {
        None
    };
    let search_indexer_was_running = if probes.search_indexer {
        Some(reading.search_indexer_running)
    } else {
        None
    };
    SnapshotState {
        power_plan_guid,
        power_plan_name,
        hags,
        game_dvr,
        game_bar,
        game_mode,
        priority_separation,
        search_indexer_was_running,
    }
}

/// A snapshot can be rolled back: its power-plan GUID text, when both the
/// GUID and the name are recorded, is readable.
pub open spec fn snapshot_plannable(st: SnapshotState) -> bool {
    match (st.power_plan_guid, st.power_plan_name) {
        (Some(g), Some(_)) => guid_text_readable(g@),
        _ => true,
    }
}

/// The power-plan write of a rollback: the recorded plan, when both its GUID
/// and its name are recorded and the GUID parses.
pub open spec fn power_plan_rollback(st: SnapshotState) -> Seq<SettingAction> {
    match (st.power_plan_guid, st.power_plan_name) {
        (Some(g), Some(_)) => match parsed_guid(encode_utf8(g@)) {
            Some(x) => seq![SettingAction::SetPowerPlan(x)],
            None => Seq::empty(),
        },
        _ => Seq::empty(),
    }
}

/// The HAGS write of a rollback: the recorded state, when one is recorded.
pub open spec fn hags_rollback(st: SnapshotState) -> Seq<SettingAction> {
    match st.hags {
        Some(e) => seq![SettingAction::SetHags(e)],
        None => Seq::empty(),
    }
}

/// The Game DVR write of a rollback: the recorded state, when one is
/// recorded.
pub open spec fn game_dvr_rollback(st: SnapshotState) -> Seq<SettingAction> {
    match st.game_dvr {
        Some(e) => seq![SettingAction::SetGameDvr(e)],
        None => Seq::empty(),
    }
}

/// The Game Bar write of a rollback: the recorded state, when one is
/// recorded.
pub open spec fn game_bar_rollback(st: SnapshotState) -> Seq<SettingAction> {
    match st.game_bar {
        Some(e) => seq![SettingAction::SetGameBar(e)],
        None => Seq::empty(),
    }
}

/// The Game Mode write of a rollback: the recorded state, when one is
/// recorded.
pub open spec fn game_mode_rollback(st: SnapshotState) -> Seq<SettingAction> {
    match st.game_mode {
        Some(e) => seq![SettingAction::SetGameMode(e)],
        None => Seq::empty(),
    }
}

/// The priority-separation write of a rollback: the low 32 bits of the
/// recorded value, when one is recorded.
pub open spec fn priority_rollback(st: SnapshotState) -> Seq<SettingAction> {
    match st.priority_separation {
        Some(v) => seq![SettingAction::SetPrioritySeparation(v as u32)],
        None => Seq::empty(),
    }
}

/// The Search Indexer write of a rollback: a start, when the indexer was
/// recorded as running.
pub open spec fn indexer_rollback(st: SnapshotState) -> Seq<SettingAction> {
    if st.search_indexer_was_running == Some(true) {
        seq![SettingAction::StartSearchIndexer]
    } else {
        Seq::empty()
    }
}

/// The writes that rolling back a snapshot performs, in order: the recorded
/// power plan, HAGS state, Game DVR, Game Bar and Game Mode switches and
/// priority separation, each when it is recorded, and the Search Indexer
/// started when it was recorded as running.
pub open spec fn rollback_plan(st: SnapshotState) -> Seq<SettingAction> {
    power_plan_rollback(st) + hags_rollback(st) + game_dvr_rollback(st) + game_bar_rollback(st)
        + game_mode_rollback(st) + priority_rollback(st) + indexer_rollback(st)
}

/// The writes that rolling back a snapshot performs; the caller performs
/// them one by one and stops at the first that fails.
#[verifier::spinoff_prover]
#[verifier::rlimit(60)]
pub fn rollback_actions(state: &SnapshotState) -> (r: Vec<SettingAction>)
    requires
        snapshot_plannable(*state),
    ensures
        r@ == rollback_plan(*state),
{
    let mut out: Vec<SettingAction> = Vec::new();
    match (&state.power_plan_guid, &state.power_plan_name) {
        (Some(g), Some(_)) => {
            match parse_guid(g.as_str()) {
                Ok(x) => out.push(SettingAction::SetPowerPlan(x)),
                Err(_) => {},
            }
        },
        _ => {},
    }
    assert(out@ =~= power_plan_rollback(*state));
    let ghost mut prev: Seq<SettingAction> = out@;
    match state.hags {
        Some(e) => out.push(SettingAction::SetHags(e)),
        None => {},
    }
    assert(out@ =~= prev + hags_rollback(*state));
    proof {
        prev = out@;
    }
    match state.game_dvr {
        Some(e) => out.push(SettingAction::SetGameDvr(e)),
        None => {},
    }
    assert(out@ =~= prev + game_dvr_rollback(*state));
    proof {
        prev = out@;
    }
    match state.game_bar {
        Some(e) => out.push(SettingAction::SetGameBar(e)),
        None => {},
    }
    assert(out@ =~= prev + game_bar_rollback(*state));
    proof {
        prev = out@;
    }
    match state.game_mode {
        Some(e) => out.push(SettingAction::SetGameMode(e)),
        None => {},
    }
    assert(out@ =~= prev + game_mode_rollback(*state));
    proof {
        prev = out@;
    }
    match state.priority_separation {
        Some(v) => out.push(SettingAction::SetPrioritySeparation(v as u32)),
        None => {},
    }
    assert(out@ =~= prev + priority_rollback(*state));
    proof {
        prev = out@;
    }
    if state.search_indexer_was_running == Some(true) {
        out.push(SettingAction::StartSearchIndexer);
    }
    assert(out@ =~= prev + indexer_rollback(*state));
    out
}

/// What applying a preset does next.
pub enum ApplyStep {
    /// Perform this write, then report with `ApplyRun::record_outcome`
    /// whether it succeeded.
    Write(SettingAction),
    /// A write failed: perform these writes, the snapshot's rollback, and
    /// report the apply as failed.
    RollBack(Vec<SettingAction>),
    /// Every write succeeded: keep the snapshot.
    Done,
}

/// The progress of applying a preset: its writes in order, how many of them
/// succeeded, and whether one failed.
pub struct ApplyRun {
    plan: Vec<SettingAction>,
    performed: usize,
    failed: bool,
}

/// What an apply in progress holds: the writes of the preset in order, the
/// number performed successfully, and whether the next one failed.
pub struct ApplyRunView {
    pub plan: Seq<SettingAction>,
    pub performed: nat,
    pub failed: bool,
}

impl View for ApplyRun {
    type V = ApplyRunView;

    closed spec fn view(&self) -> ApplyRunView {
        ApplyRunView { plan: self.plan@, performed: self.performed as nat, failed: self.failed }
    }
}

impl ApplyRun {
    /// The start of applying a preset with these changes: no write
    /// performed yet.
    pub fn new(changes: &Vec<PresetChange>) -> (r: Self)
        requires
            forall|i: int| 0 <= i < changes@.len() ==> change_plannable(#[trigger] changes@[i]),
        ensures
            r@.plan == apply_plan(changes@),
            r@.performed == 0,
            !r@.failed,
    {
        ApplyRun { plan: apply_actions(changes), performed: 0, failed: false }
    }

    /// Whether the run is consistent: no more writes performed than planned.
    pub open spec fn well_formed(self) -> bool {
        self@.performed <= self@.plan.len()
    }

    /// What to do next: after a failed write, the rollback of the snapshot
    /// `state`; otherwise the next write of the plan, or `Done` when all
    /// have been performed.
    pub fn next_step(&self, state: &SnapshotState) -> (r: ApplyStep)
        requires
            self.well_formed(),
            self@.failed ==> snapshot_plannable(*state),
        ensures
            if self@.failed {
                r matches ApplyStep::RollBack(v) && v@ == rollback_plan(*state)
            } else if self@.performed < self@.plan.len() {
                r == ApplyStep::Write(self@.plan[self@.performed as int])
            } else {
                r is Done
            },
    {
        if self.failed {
            ApplyStep::RollBack(rollback_actions(state))
        } else if self.performed < self.plan.len() {
            ApplyStep::Write(self.plan[self.performed])
        } else {
            ApplyStep::Done
        }
    }

    /// Takes the outcome of the write that `next_step` handed out: a success
    /// counts it as performed, a failure ends the writes.
    pub fn record_outcome(&mut self, ok: bool)
        requires
            old(self).well_formed(),
            !old(self)@.failed,
            old(self)@.performed < old(self)@.plan.len(),
        ensures
            final(self).well_formed(),
            final(self)@.plan == old(self)@.plan,
            final(self)@.performed == if ok {
                old(self)@.performed + 1
            } else {
                old(self)@.performed
            },
            final(self)@.failed == !ok,
    {
        let n = self.plan.len();
        assert(self.performed < n);
        if ok {
            self.performed = self.performed + 1;
        } else {
            self.failed = true;
        }
    }
}

/// The settings that presets change, as the operating system holds them.
pub struct SystemSettings {
    pub power_plan: Guid,
    pub hags: bool,
    pub game_dvr: bool,
    pub game_bar: bool,
    pub game_mode: bool,
    pub priority_separation: u32,
    pub search_indexer_running: bool,
}

/// What one write does to the settings.
pub open spec fn perform(s: SystemSettings, a: SettingAction) -> SystemSettings {
    match a {
        SettingAction::SetPowerPlan(g) => SystemSettings { power_plan: g, ..s },
        SettingAction::SetHags(e) => SystemSettings { hags: e, ..s },
        SettingAction::SetGameDvr(e) => SystemSettings { game_dvr: e, ..s },
        SettingAction::SetGameBar(e) => SystemSettings { game_bar: e, ..s },
        SettingAction::SetGameMode(e) => SystemSettings { game_mode: e, ..s },
        SettingAction::SetPrioritySeparation(v) => SystemSettings { priority_separation: v, ..s },
        SettingAction::StopSearchIndexer => SystemSettings { search_indexer_running: false, ..s },
        SettingAction::StartSearchIndexer => SystemSettings { search_indexer_running: true, ..s },
    }
}

/// What a sequence of writes does to the settings.
pub open spec fn perform_all(s: SystemSettings, acts: Seq<SettingAction>) -> SystemSettings
    decreases acts.len(),
{
    if acts.len() == 0 {
        s
    } else {
        perform(perform_all(s, acts.drop_last()), acts.last())
    }
}

/// The reads of the settings that the changes `cs` touch succeeded and saw
/// `s` (the power plan's GUID as the text `format_guid` writes); the reads
/// of the other settings may have failed or seen anything.
pub open spec fn touched_readings_match(
    cs: Seq<PresetChange>,
    reading: SettingsReading,
    s: SystemSettings,
) -> bool {
    &&& touches_power_plan(cs) ==> (reading.power_plan_guid matches Some(t) && t@ == guid_text(
        s.power_plan,
    ))
    &&& touches_hags(cs) ==> reading.hags == Some(s.hags)
    &&& touches_dvr_or_bar(cs) ==> reading.game_dvr == Some(s.game_dvr) && reading.game_bar
        == Some(s.game_bar)
    &&& touches_game_mode(cs) ==> reading.game_mode == Some(s.game_mode)
    &&& touches_priority(cs) ==> reading.priority_separation == Some(s.priority_separation)
    &&& touches_indexer(cs) ==> reading.search_indexer_running == s.search_indexer_running
}

proof fn lemma_perform_all_concat(s: SystemSettings, a: Seq<SettingAction>, b: Seq<SettingAction>)
    ensures
        perform_all(s, a + b) == perform_all(perform_all(s, a), b),
    decreases b.len(),
{
    if b.len() == 0 {
        assert(a + b =~= a);
    } else {
        assert((a + b).drop_last() =~= a + b.drop_last());
        lemma_perform_all_concat(s, a, b.drop_last());
    }
}

/// The writes in `acts` leave the power plan, HAGS, the priority separation
/// and the indexer alone when no write of that kind is among them; the
/// indexer is never started by them when no start is among them.
proof fn lemma_frame(s: SystemSettings, acts: Seq<SettingAction>)
    ensures
        (forall|i: int| 0 <= i < acts.len() ==> !(#[trigger] acts[i] is SetPowerPlan))
            ==> perform_all(s, acts).power_plan == s.power_plan,
        (forall|i: int| 0 <= i < acts.len() ==> !(#[trigger] acts[i] is SetHags))
            ==> perform_all(s, acts).hags == s.hags,
        (forall|i: int| 0 <= i < acts.len() ==> !(#[trigger] acts[i] is SetPrioritySeparation))
            ==> perform_all(s, acts).priority_separation == s.priority_separation,
        (forall|i: int|
            0 <= i < acts.len() ==> !(#[trigger] acts[i] is StopSearchIndexer) && !(
            acts[i] is StartSearchIndexer)) ==> perform_all(s, acts).search_indexer_running
            == s.search_indexer_running,
        (forall|i: int| 0 <= i < acts.len() ==> !(#[trigger] acts[i] is StartSearchIndexer))
            ==> (perform_all(s, acts).search_indexer_running ==> s.search_indexer_running),
    decreases acts.len(),
{
    if acts.len() > 0 {
        let p = acts.drop_last();
        lemma_frame(s, p);
        assert forall|i: int| 0 <= i < p.len() implies p[i] == acts[i] by {}
    }
}

/// Each write of a plan comes from one of its changes.
proof fn lemma_apply_plan_kinds(cs: Seq<PresetChange>)
    ensures
        forall|i: int|
            0 <= i < apply_plan(cs).len() ==> !(#[trigger] apply_plan(cs)[i] is StartSearchIndexer),
        !touches_power_plan(cs) ==> forall|i: int|
            0 <= i < apply_plan(cs).len() ==> !(#[trigger] apply_plan(cs)[i] is SetPowerPlan),
        !touches_hags(cs) ==> forall|i: int|
            0 <= i < apply_plan(cs).len() ==> !(#[trigger] apply_plan(cs)[i] is SetHags),
        !touches_priority(cs) ==> forall|i: int|
            0 <= i < apply_plan(cs).len() ==> !(
            #[trigger] apply_plan(cs)[i] is SetPrioritySeparation),
        !touches_indexer(cs) ==> forall|i: int|
            0 <= i < apply_plan(cs).len() ==> !(#[trigger] apply_plan(cs)[i] is StopSearchIndexer),
    decreases cs.len(),
{
    if cs.len() > 0 {
        let p = cs.drop_last();
        lemma_apply_plan_kinds(p);
        let last = cs.last();
        let e: Seq<SettingAction> = match change_effect(last) {
            Some(a) => seq![a],
            None => Seq::empty(),
        };
        assert(apply_plan(cs) == apply_plan(p) + e);
        assert(forall|i: int| 0 <= i < p.len() ==> p[i] == cs[i]);
        if !touches_power_plan(cs) {
            assert(!(cs[cs.len() - 1] is SetPowerPlan));
            assert(!touches_power_plan(p));
        }
        if !touches_hags(cs) {
            assert(!(cs[cs.len() - 1] is SetHags));
            assert(!touches_hags(p));
        }
        if !touches_priority(cs) {
            assert(!(cs[cs.len() - 1] is SetPrioritySeparation));
            assert(!touches_priority(p));
        }
        if !touches_indexer(cs) {
            assert(!(cs[cs.len() - 1] is DisableSearchIndexer));
            assert(!touches_indexer(p));
        }
        assert forall|i: int| 0 <= i < apply_plan(cs).len() implies #[trigger] apply_plan(cs)[i]
            == if i < apply_plan(p).len() {
            apply_plan(p)[i]
        } else {
            e[i - apply_plan(p).len()]
        } by {}
    }
}

proof fn lemma_perform_one(s: SystemSettings, a: Seq<SettingAction>)
    requires
        a.len() <= 1,
    ensures
        perform_all(s, a) == if a.len() == 0 {
            s
        } else {
            perform(s, a[0])
        },
{
    if a.len() == 1 {
        assert(a.drop_last() =~= Seq::<SettingAction>::empty());
        assert(perform_all(s, a.drop_last()) == s);
        assert(a.last() == a[0]);
    }
}

/// What the rollback of `st` does to each setting, from any state.
#[verifier::rlimit(60)]
#[verifier::spinoff_prover]
proof fn lemma_rollback_effect(s1: SystemSettings, st: SnapshotState)
    ensures
        ({
            let after = perform_all(s1, rollback_plan(st));
            &&& after.power_plan == match (st.power_plan_guid, st.power_plan_name) {
                (Some(g), Some(_)) => match parsed_guid(encode_utf8(g@)) {
                    Some(x) => x,
                    None => s1.power_plan,
                },
                _ => s1.power_plan,
            }
            &&& after.hags == match st.hags {
                Some(e) => e,
                None => s1.hags,
            }
            &&& after.game_dvr == match st.game_dvr {
                Some(e) => e,
                None => s1.game_dvr,
            }
            &&& after.game_bar == match st.game_bar {
                Some(e) => e,
                None => s1.game_bar,
            }
            &&& after.game_mode == match st.game_mode {
                Some(e) => e,
                None => s1.game_mode,
            }
            &&& after.priority_separation == match st.priority_separation {
                Some(v) => v as u32,
                None => s1.priority_separation,
            }
            &&& after.search_indexer_running == (st.search_indexer_was_running == Some(true)
                || s1.search_indexer_running)
        }),
{
    let p0 = power_plan_rollback(st);
    let p1 = hags_rollback(st);
    let p2 = game_dvr_rollback(st);
    let p3 = game_bar_rollback(st);
    let p4 = game_mode_rollback(st);
    let p5 = priority_rollback(st);
    let p6 = indexer_rollback(st);
    lemma_perform_all_concat(s1, p0, p1);
    lemma_perform_all_concat(s1, p0 + p1, p2);
    lemma_perform_all_concat(s1, p0 + p1 + p2, p3);
    lemma_perform_all_concat(s1, p0 + p1 + p2 + p3, p4);
    lemma_perform_all_concat(s1, p0 + p1 + p2 + p3 + p4, p5);
    lemma_perform_all_concat(s1, p0 + p1 + p2 + p3 + p4 + p5, p6);
    let a1 = perform_all(s1, p0);
    let a2 = perform_all(a1, p1);
    let a3 = perform_all(a2, p2);
    let a4 = perform_all(a3, p3);
    let a5 = perform_all(a4, p4);
    let a6 = perform_all(a5, p5);
    lemma_perform_one(s1, p0);
    lemma_perform_one(a1, p1);
    lemma_perform_one(a2, p2);
    lemma_perform_one(a3, p3);
    lemma_perform_one(a4, p4);
    lemma_perform_one(a5, p5);
    lemma_perform_one(a6, p6);
}

/// What writes that do not include a given kind leave alone of the DVR,
/// Game Bar and Game Mode switches.
proof fn lemma_frame_switches(s: SystemSettings, acts: Seq<SettingAction>)
    ensures
        (forall|i: int| 0 <= i < acts.len() ==> !(#[trigger] acts[i] is SetGameDvr))
            ==> perform_all(s, acts).game_dvr == s.game_dvr,
        (forall|i: int| 0 <= i < acts.len() ==> !(#[trigger] acts[i] is SetGameBar))
            ==> perform_all(s, acts).game_bar == s.game_bar,
        (forall|i: int| 0 <= i < acts.len() ==> !(#[trigger] acts[i] is SetGameMode))
            ==> perform_all(s, acts).game_mode == s.game_mode,
    decreases acts.len(),
{
    if acts.len() > 0 {
        let p = acts.drop_last();
        lemma_frame_switches(s, p);
        assert forall|i: int| 0 <= i < p.len() implies p[i] == acts[i] by {}
    }
}

/// A plan writes the DVR and the Game Bar only when its changes touch them,
/// and Game Mode only when its changes enable it.
proof fn lemma_apply_plan_switches(cs: Seq<PresetChange>)
    ensures
        !touches_dvr_or_bar(cs) ==> forall|i: int|
            0 <= i < apply_plan(cs).len() ==> !(#[trigger] apply_plan(cs)[i] is SetGameDvr) && !(
            apply_plan(cs)[i] is SetGameBar),
        !touches_game_mode(cs) ==> forall|i: int|
            0 <= i < apply_plan(cs).len() ==> !(#[trigger] apply_plan(cs)[i] is SetGameMode),
    decreases cs.len(),
{
    if cs.len() > 0 {
        let p = cs.drop_last();
        lemma_apply_plan_switches(p);
        let last = cs.last();
        let e: Seq<SettingAction> = match change_effect(last) {
            Some(a) => seq![a],
            None => Seq::empty(),
        };
        assert(apply_plan(cs) == apply_plan(p) + e);
        assert(forall|i: int| 0 <= i < p.len() ==> p[i] == cs[i]);
        if !touches_dvr_or_bar(cs) {
            assert(!(cs[cs.len() - 1] is DisableGameDvr) && !(cs[cs.len() - 1] is DisableGameBar));
            assert(!touches_dvr_or_bar(p));
        }
        if !touches_game_mode(cs) {
            assert(!(cs[cs.len() - 1] is EnableGameMode));
            assert(!touches_game_mode(p));
        }
        assert forall|i: int| 0 <= i < apply_plan(cs).len() implies #[trigger] apply_plan(cs)[i]
            == if i < apply_plan(p).len() {
            apply_plan(p)[i]
        } else {
            e[i - apply_plan(p).len()]
        } by {}
    }
}

/// Rolling back restores the state captured in the snapshot: when the
/// readings of the settings a preset touches succeeded, applying any prefix
/// of the preset's writes (all of them, or those before the one that failed)
/// and then the snapshot's rollback leaves every setting as it was before,
/// the touched ones written back and the others never written.
pub proof fn lemma_rollback_restores_all(
    cs: Seq<PresetChange>,
    s: SystemSettings,
    reading: SettingsReading,
    st: SnapshotState,
    k: int,
)
    requires
        touched_readings_match(cs, reading, s),
        snapshot_of(cs, reading, st),
        0 <= k <= apply_plan(cs).len(),
    ensures
        perform_all(perform_all(s, apply_plan(cs).take(k)), rollback_plan(st)) == s,
{
    let applied = apply_plan(cs).take(k);
    let s1 = perform_all(s, applied);
    lemma_apply_plan_kinds(cs);
    lemma_apply_plan_switches(cs);
    assert forall|i: int| 0 <= i < applied.len() implies applied[i] == apply_plan(cs)[i] by {}
    lemma_frame(s, applied);
    lemma_frame_switches(s, applied);
    crate::guid::lemma_guid_round_trip(s.power_plan);
    lemma_rollback_effect(s1, st);
}

/// Applying a preset's changes sets each setting to the state its changes
/// name, from any state: Game Mode on when a change enables it; the Game
/// DVR, the Game Bar and the Search Indexer off when a change disables them;
/// HAGS and the priority separation to the value of the last change that
/// sets them.
pub proof fn lemma_apply_writes_named_states(s: SystemSettings, cs: Seq<PresetChange>)
    ensures
        ({
            let r = perform_all(s, apply_plan(cs));
            &&& (exists|i: int| 0 <= i < cs.len() && #[trigger] cs[i] == PresetChange::EnableGameMode)
                ==> r.game_mode
            &&& (exists|i: int| 0 <= i < cs.len() && #[trigger] cs[i] == PresetChange::DisableGameDvr)
                ==> !r.game_dvr
            &&& (exists|i: int| 0 <= i < cs.len() && #[trigger] cs[i] == PresetChange::DisableGameBar)
                ==> !r.game_bar
            &&& (exists|i: int|
                0 <= i < cs.len() && #[trigger] cs[i] == PresetChange::DisableSearchIndexer)
                ==> !r.search_indexer_running
            &&& forall|i: int|
                0 <= i < cs.len() && #[trigger] cs[i] is SetHags && (forall|j: int|
                    i < j < cs.len() ==> !(#[trigger] cs[j] is SetHags)) ==> r.hags
                    == cs[i]->SetHags_enabled
            &&& forall|i: int|
                0 <= i < cs.len() && #[trigger] cs[i] is SetPrioritySeparation && (forall|j: int|
                    i < j < cs.len() ==> !(#[trigger] cs[j] is SetPrioritySeparation))
                    ==> r.priority_separation == cs[i]->SetPrioritySeparation_value
        }),
    decreases cs.len(),
{
    if cs.len() > 0 {
        let p = cs.drop_last();
        let last = cs.last();
        lemma_apply_writes_named_states(s, p);
        let piece: Seq<SettingAction> = match change_effect(last) {
            Some(a) => seq![a],
            None => Seq::empty(),
        };
        assert(apply_plan(cs) == apply_plan(p) + piece);
        lemma_perform_all_concat(s, apply_plan(p), piece);
        let mid = perform_all(s, apply_plan(p));
        lemma_perform_one(mid, piece);
        let r = perform_all(s, apply_plan(cs));
        assert forall|i: int| 0 <= i < p.len() implies #[trigger] p[i] == cs[i] by {}
        if exists|i: int| 0 <= i < cs.len() && #[trigger] cs[i] == PresetChange::EnableGameMode {
            let i = choose|i: int| 0 <= i < cs.len() && #[trigger] cs[i] == PresetChange::EnableGameMode;
            if i < cs.len() - 1 {
                assert(p[i] == PresetChange::EnableGameMode);
            }
        }
        if exists|i: int| 0 <= i < cs.len() && #[trigger] cs[i] == PresetChange::DisableGameDvr {
            let i = choose|i: int| 0 <= i < cs.len() && #[trigger] cs[i] == PresetChange::DisableGameDvr;
            if i < cs.len() - 1 {
                assert(p[i] == PresetChange::DisableGameDvr);
            }
        }
        if exists|i: int| 0 <= i < cs.len() && #[trigger] cs[i] == PresetChange::DisableGameBar {
            let i = choose|i: int| 0 <= i < cs.len() && #[trigger] cs[i] == PresetChange::DisableGameBar;
            if i < cs.len() - 1 {
                assert(p[i] == PresetChange::DisableGameBar);
            }
        }
        if exists|i: int| 0 <= i < cs.len() && #[trigger] cs[i] == PresetChange::DisableSearchIndexer {
            let i = choose|i: int|
                0 <= i < cs.len() && #[trigger] cs[i] == PresetChange::DisableSearchIndexer;
            if i < cs.len() - 1 {
                assert(p[i] == PresetChange::DisableSearchIndexer);
            }
        }
        assert forall|i: int|
            0 <= i < cs.len() && #[trigger] cs[i] is SetHags && (forall|j: int|
                i < j < cs.len() ==> !(#[trigger] cs[j] is SetHags)) implies r.hags
            == cs[i]->SetHags_enabled by {
            if i < cs.len() - 1 {
                assert(!(cs[cs.len() - 1] is SetHags));
                assert(p[i] == cs[i]);
                assert forall|j: int| i < j < p.len() implies !(#[trigger] p[j] is SetHags) by {
                    assert(p[j] == cs[j]);
                }
            }
        }
        assert forall|i: int|
            0 <= i < cs.len() && #[trigger] cs[i] is SetPrioritySeparation && (forall|j: int|
                i < j < cs.len() ==> !(#[trigger] cs[j] is SetPrioritySeparation)) implies r.priority_separation
            == cs[i]->SetPrioritySeparation_value by {
            if i < cs.len() - 1 {
                assert(!(cs[cs.len() - 1] is SetPrioritySeparation));
                assert(p[i] == cs[i]);
                assert forall|j: int| i < j < p.len() implies !(
                #[trigger] p[j] is SetPrioritySeparation) by {
                    assert(p[j] == cs[j]);
                }
            }
        }
    }
}

/// Applying a preset's changes leaves the power plan of the last power-plan
/// change whose GUID text parses active, from any state, when no later
/// power-plan change exists.
pub proof fn lemma_apply_sets_last_power_plan(s: SystemSettings, cs: Seq<PresetChange>)
    ensures
        forall|i: int|
            0 <= i < cs.len() && #[trigger] cs[i] is SetPowerPlan && parsed_guid(
                encode_utf8(cs[i]->plan_guid@),
            ) is Some && (forall|j: int| i < j < cs.len() ==> !(#[trigger] cs[j] is SetPowerPlan))
                ==> perform_all(s, apply_plan(cs)).power_plan == parsed_guid(
                encode_utf8(cs[i]->plan_guid@),
            )->0,
    decreases cs.len(),
{
    if cs.len() > 0 {
        let p = cs.drop_last();
        let last = cs.last();
        lemma_apply_sets_last_power_plan(s, p);
        let piece: Seq<SettingAction> = match change_effect(last) {
            Some(a) => seq![a],
            None => Seq::empty(),
        };
        assert(apply_plan(cs) == apply_plan(p) + piece);
        lemma_perform_all_concat(s, apply_plan(p), piece);
        lemma_perform_one(perform_all(s, apply_plan(p)), piece);
        assert forall|i: int|
            0 <= i < cs.len() && #[trigger] cs[i] is SetPowerPlan && parsed_guid(
                encode_utf8(cs[i]->plan_guid@),
            ) is Some && (forall|j: int| i < j < cs.len() ==> !(#[trigger] cs[j] is SetPowerPlan))
            implies perform_all(s, apply_plan(cs)).power_plan == parsed_guid(
            encode_utf8(cs[i]->plan_guid@),
        )->0 by {
            if i < cs.len() - 1 {
                assert(!(cs[cs.len() - 1] is SetPowerPlan));
                assert(p[i] == cs[i]);
                assert forall|j: int| i < j < p.len() implies !(#[trigger] p[j] is SetPowerPlan) by {
                    assert(p[j] == cs[j]);
                }
            }
        }
    }
}

/// An apply that stops at a failed write and then performs the rollback
/// that `ApplyRun::next_step` hands out leaves every setting as it was, when
/// the snapshot read the settings the preset touches.
pub proof fn lemma_failed_apply_restores(
    cs: Seq<PresetChange>,
    s: SystemSettings,
    reading: SettingsReading,
    st: SnapshotState,
    run: ApplyRunView,
)
    requires
        touched_readings_match(cs, reading, s),
        snapshot_of(cs, reading, st),
        run.plan == apply_plan(cs),
        run.performed <= run.plan.len(),
    ensures
        perform_all(perform_all(s, run.plan.take(run.performed as int)), rollback_plan(st)) == s,
{
    lemma_rollback_restores_all(cs, s, reading, st, run.performed as int);
}

/// The `HwSchMode` value that turns HAGS on (2) or off (1).
pub fn hags_registry_value(enabled: bool) -> (r: u32)
    ensures
        r == if enabled {
            2u32
        } else {
            1u32
        },
{
    if enabled {
        2
    } else {
        1
    }
}

/// Whether HAGS is on, from the `HwSchMode` registry value (`None` when it
/// could not be read): on exactly when the value is 2.
pub fn get_hags_state_pub(hw_sch_mode: Option<u32>) -> (r: bool)
    ensures
        r == (hw_sch_mode == Some(2u32)),
{
    match hw_sch_mode {
        Some(v) => v == 2,
        None => false,
    }
}

/// The DWORD that the Game DVR, Game Bar and Game Mode switches are written
/// as: 1 for on, 0 for off.
pub fn switch_registry_value(enabled: bool) -> (r: u32)
    ensures
        r == if enabled {
            1u32
        } else {
            0u32
        },
{
    if enabled {
        1
    } else {
        0
    }
}

/// Whether a Game DVR, Game Bar or Game Mode switch is on, from its DWORD.
pub fn switch_from_registry(v: u32) -> (r: bool)
    ensures
        r == (v != 0),
{
    v != 0
}

/// Reading back a HAGS or switch value that was written gives the state
/// that was written.
pub proof fn lemma_registry_values_read_back(enabled: bool)
    ensures
        (if enabled {
            2u32
        } else {
            1u32
        }) == 2u32 <==> enabled,
        ((if enabled {
            1u32
        } else {
            0u32
        }) != 0) == enabled,
{
}

/// A rollback snapshot: the preset it belongs to, when it was taken (Unix
/// seconds and nanoseconds) and the recorded state; `id` and `preset_id`
/// are UUIDs' 128-bit values.
#[derive(Debug, Clone)]
pub struct RollbackSnapshot {
    pub id: u128,
    pub preset_id: u128,
    pub timestamp_secs: i64,
    pub timestamp_nanos: u32,
    pub state: SnapshotState,
}

/// The snapshots of the presets that are currently applied, keyed by
/// preset id, and the directory where they are also kept on disk.
pub struct PresetEngine {
    pub snapshots_dir: String,
    pub applied_presets: HashMap<u128, RollbackSnapshot>,
}

impl PresetEngine {
    /// An engine with no applied preset.
    pub fn new(snapshots_dir: String) -> (r: Self)
        ensures
            r.applied_presets@ == Map::<u128, RollbackSnapshot>::empty(),
            r.snapshots_dir == snapshots_dir,
    {
        PresetEngine { snapshots_dir, applied_presets: HashMap::new() }
    }

    /// Records the snapshot of a preset that was applied; it replaces any
    /// earlier snapshot of the same preset.
    pub fn record_applied(&mut self, snapshot: RollbackSnapshot)
        ensures
            final(self).applied_presets@ == old(self).applied_presets@.insert(
                snapshot.preset_id,
                snapshot,
            ),
            final(self).snapshots_dir == old(self).snapshots_dir,
    {
        let id = snapshot.preset_id;
        self.applied_presets.insert(id, snapshot);
    }

    /// Removes and returns the snapshot of a preset, if one is recorded.
    pub fn take_snapshot(&mut self, preset_id: u128) -> (r: Option<RollbackSnapshot>)
        ensures
            final(self).applied_presets@ == old(self).applied_presets@.remove(preset_id),
            final(self).snapshots_dir == old(self).snapshots_dir,
            r == if old(self).applied_presets@.contains_key(preset_id) {
                Some(old(self).applied_presets@[preset_id])
            } else {
                None::<RollbackSnapshot>
            },
    {
        proof {
            broadcast use vstd::std_specs::hash::group_hash_axioms;
        }
        self.applied_presets.remove(&preset_id)
    }

    /// Whether no preset is recorded as applied.
    pub fn has_no_applied(&self) -> (r: bool)
        ensures
            r == (self.applied_presets@.len() == 0),
    {
        proof {
            broadcast use vstd::std_specs::hash::group_hash_axioms;
        }
        self.applied_presets.is_empty()
    }
}

/// A snapshot recorded for a preset is the one that a later take of that
/// preset gives back, whatever other presets are recorded in between.
pub proof fn lemma_recorded_snapshot_is_taken(
    m: Map<u128, RollbackSnapshot>,
    snap: RollbackSnapshot,
    others: Seq<RollbackSnapshot>,
)
    requires
        forall|i: int| 0 <= i < others.len() ==> (#[trigger] others[i]).preset_id != snap.preset_id,
    ensures
        insert_all(m.insert(snap.preset_id, snap), others).contains_key(snap.preset_id),
        insert_all(m.insert(snap.preset_id, snap), others)[snap.preset_id] == snap,
    decreases others.len(),
{
    if others.len() > 0 {
        lemma_recorded_snapshot_is_taken(m, snap, others.drop_last());
    }
}

/// The snapshots map after recording `snaps` in order.
pub open spec fn insert_all(m: Map<u128, RollbackSnapshot>, snaps: Seq<RollbackSnapshot>) -> Map<
    u128,
    RollbackSnapshot,
>
    decreases snaps.len(),
{
    if snaps.len() == 0 {
        m
    } else {
        insert_all(m, snaps.drop_last()).insert(snaps.last().preset_id, snaps.last())
    }
}

} // verus!
