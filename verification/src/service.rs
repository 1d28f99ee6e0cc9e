//! The request handling of the telemetry service: which requests are
//! answered at once, which need the preset engine, the clock or the session
//! store, and how the service's own state changes.
//!
//! The service loop reads a request, calls `ServiceCore::handle_request`,
//! performs the returned step (applying a preset, reading the clock,
//! persisting a session, diagnosing a snapshot) and, where the step says so,
//! hands the outcome back through `finish_apply`, `finish_rollback` or
//! `record_session`.
use vstd::prelude::*;
use crate::presets::{needs_confirmation, Preset, RiskLevel};
use crate::ids::{uuid_display, uuid_text};

verus! {

/// A game that the service detected: its id (a UUID's 128-bit value) and
/// display name.
pub struct GameRef {
    pub id: u128,
    pub name: String,
}

/// A recorded benchmark session: its id and which metric sets it holds.
#[derive(Debug, Clone, Copy, PartialEq, Eq, Structural)]
pub struct SessionRef {
    pub id: u128,
    pub has_before: bool,
    pub has_after: bool,
}

/// The running benchmark, if any: the game it was started for.
pub struct BenchmarkState {
    pub active: bool,
    pub game_id: Option<u128>,
    pub game_name: Option<String>,
}

/// The benchmark state as values.
pub ghost struct BenchmarkView {
    pub active: bool,
    pub game_id: Option<u128>,
    pub game_name: Option<Seq<char>>,
}

impl View for BenchmarkState {
    type V = BenchmarkView;

    open spec fn view(&self) -> BenchmarkView {
        BenchmarkView {
            active: self.active,
            game_id: self.game_id,
            game_name: match self.game_name {
                Some(n) => Some(n@),
                None => None,
            },
        }
    }
}

/// What the service keeps between requests and decides on: the preset
/// catalogue with its applied flags, the detected games, the recorded
/// sessions (in the order they were recorded) and the running benchmark.
pub struct ServiceCore {
    pub presets: Vec<Preset>,
    pub games: Vec<GameRef>,
    pub sessions: Vec<SessionRef>,
    pub benchmark: BenchmarkState,
}

/// A request to the service. The overlay configuration that comes with
/// `SetOverlayConfig` is kept by the caller.
pub enum ServiceRequest {
    Ping,
    GetTelemetry,
    GetSystemInfo,
    GetGames,
    GetPresets,
    /// Apply a preset; `confirmed` carries the user's explicit confirmation,
    /// which a preset of Medium or High risk needs.
    ApplyPreset { preset_id: u128, confirmed: bool },
    RollbackPreset { preset_id: u128 },
    SetOverlayConfig,
    GetOverlayConfig,
    GetBenchmarkSessions,
    StartBenchmark { game_id: u128 },
    StopBenchmark,
    GetBottleneckReport { session_id: u128 },
}

/// The answer to a request. The variants that carry data (telemetry, system
/// information, games, presets, sessions, overlay configuration) are filled
/// in by the caller from what it holds.
pub enum Reply {
    Pong,
    Telemetry,
    SystemInfo,
    Games,
    Presets,
    BenchmarkSessions,
    OverlayConfig,
    PresetApplied { preset_id: u128 },
    PresetRolledBack { preset_id: u128 },
    BenchmarkStarted,
    BenchmarkStopped,
    Error(String),
}

/// Which metrics a bottleneck report is made from: the `after` or the
/// `before` set of the session at this position, or live telemetry.
#[derive(Debug, Clone, Copy, PartialEq, Eq, Structural)]
pub enum ReportSource {
    SessionAfter(usize),
    SessionBefore(usize),
    Live,
}

/// What the service does next for a request.
pub enum ServiceStep {
    /// Answer at once.
    Respond(Reply),
    /// Apply the catalogue's preset at this position with the preset engine,
    /// then hand the outcome to `finish_apply`.
    ApplyPreset { index: usize },
    /// Roll this preset back with the preset engine, then hand the outcome to
    /// `finish_rollback`.
    RollbackPreset { preset_id: u128 },
    /// Keep the overlay configuration that came with the request, and answer
    /// `Pong`.
    StoreOverlayConfig,
    /// Note the start time and the live metrics, and answer
    /// `BenchmarkStarted`.
    StartBenchmarkClock,
    /// Build a session for this game from the elapsed time and the metrics,
    /// persist it, hand it to `record_session`, and answer
    /// `BenchmarkStopped`.
    FinishBenchmark { game_id: u128, game_name: String },
    /// Diagnose the metrics from this source and answer with the report.
    Report(ReportSource),
}

/// The position of the first occurrence of `id` in `ids`.
pub open spec fn first_index(ids: Seq<u128>, id: u128) -> Option<int>
    decreases ids.len(),
{
    if ids.len() == 0 {
        None
    } else {
        match first_index(ids.drop_last(), id) {
            Some(i) => Some(i),
            None => if ids.last() == id {
                Some(ids.len() - 1)
            } else {
                None
            },
        }
    }
}

pub open spec fn preset_ids(ps: Seq<Preset>) -> Seq<u128> {
    ps.map_values(|p: Preset| p.id)
}

pub open spec fn game_ids(gs: Seq<GameRef>) -> Seq<u128> {
    gs.map_values(|g: GameRef| g.id)
}

pub open spec fn session_ids(ss: Seq<SessionRef>) -> Seq<u128> {
    ss.map_values(|s: SessionRef| s.id)
}

/// The preset with its applied flag set to `applied`.
pub open spec fn with_applied(p: Preset, applied: bool) -> Preset {
    Preset {
        id: p.id,
        name: p.name,
        description: p.description,
        risk: p.risk,
        changes: p.changes,
        is_bundled: p.is_bundled,
        is_applied: applied,
    }
}

/// The catalogue with the applied flag of the first preset with this id set
/// to `applied`; unchanged when no preset has it.
pub open spec fn marked(ps: Seq<Preset>, id: u128, applied: bool) -> Seq<Preset> {
    match first_index(preset_ids(ps), id) {
        Some(i) => ps.update(i, with_applied(ps[i], applied)),
        None => ps,
    }
}

/// The name of the first game with this id, or `Unknown game`.
pub open spec fn game_name_of(gs: Seq<GameRef>, id: u128) -> Seq<char> {
    match first_index(game_ids(gs), id) {
        Some(i) => gs[i].name@,
        None => "Unknown game"@,
    }
}

/// The benchmark state after a start for this game.
pub open spec fn started(gs: Seq<GameRef>, id: u128) -> BenchmarkView {
    BenchmarkView { active: true, game_id: Some(id), game_name: Some(game_name_of(gs, id)) }
}

/// The benchmark state when no benchmark runs and none was started since the
/// last stop.
pub open spec fn idle() -> BenchmarkView {
    BenchmarkView { active: false, game_id: None, game_name: None }
}

/// The game a stopped benchmark is recorded for: the started one, or the
/// nil id and an empty name when none was noted.
pub open spec fn finished_game(b: BenchmarkView) -> (u128, Seq<char>) {
    (
        match b.game_id {
            Some(g) => g,
            None => 0,
        },
        match b.game_name {
            Some(n) => n,
            None => Seq::empty(),
        },
    )
}

/// The metrics a report for this session id is made from: the first
/// session with the id, its `after` set if it has one, else its `before`
/// set; live telemetry when it has neither or no session has the id.
pub open spec fn report_source(ss: Seq<SessionRef>, id: u128) -> ReportSource {
    match first_index(session_ids(ss), id) {
        Some(i) => if ss[i].has_after {
            ReportSource::SessionAfter(i as usize)
        } else if ss[i].has_before {
            ReportSource::SessionBefore(i as usize)
        } else {
            ReportSource::Live
        },
        None => ReportSource::Live,
    }
}

/// Marking a preset applied or not changes nothing but that preset's flag:
/// the catalogue keeps its length, its ids in order and every other field.
pub proof fn lemma_marking_keeps_catalogue(ps: Seq<Preset>, id: u128, applied: bool)
    ensures
        marked(ps, id, applied).len() == ps.len(),
        preset_ids(marked(ps, id, applied)) == preset_ids(ps),
        forall|j: int|
            0 <= j < ps.len() ==> with_applied(#[trigger] marked(ps, id, applied)[j], false)
                == with_applied(ps[j], false),
        forall|j: int|
            0 <= j < ps.len() && first_index(preset_ids(ps), id) != Some(j) ==> (#[trigger] marked(
                ps,
                id,
                applied,
            )[j]).is_applied == ps[j].is_applied,
        match first_index(preset_ids(ps), id) {
            Some(i) => marked(ps, id, applied)[i].is_applied == applied,
            None => marked(ps, id, applied) == ps,
        },
{
    lemma_first_index_bounds(preset_ids(ps), id);
    assert(preset_ids(marked(ps, id, applied)) =~= preset_ids(ps));
}

/// Rolling back a preset that was just applied leaves the catalogue as a
/// rollback alone would: the preset is reported not applied and every other
/// flag is as it was before the apply.
pub proof fn lemma_rollback_undoes_apply(ps: Seq<Preset>, id: u128)
    ensures
        marked(marked(ps, id, true), id, false) == marked(ps, id, false),
{
    lemma_marking_keeps_catalogue(ps, id, true);
    lemma_first_index_bounds(preset_ids(ps), id);
    assert(marked(marked(ps, id, true), id, false) =~= marked(ps, id, false));
}

/// A benchmark stopped after a start is recorded for the started game, under
/// the name that the start looked up.
pub proof fn lemma_stop_records_started_game(gs: Seq<GameRef>, id: u128)
    ensures
        started(gs, id).active,
        finished_game(started(gs, id)) == (id, game_name_of(gs, id)),
{
}

proof fn lemma_first_index_bounds(ids: Seq<u128>, id: u128)
    ensures
        match first_index(ids, id) {
            Some(i) => 0 <= i < ids.len() && ids[i] == id && forall|j: int|
                0 <= j < i ==> ids[j] != id,
            None => forall|j: int| 0 <= j < ids.len() ==> ids[j] != id,
        },
    decreases ids.len(),
{
    if ids.len() > 0 {
        let front = ids.drop_last();
        lemma_first_index_bounds(front, id);
        assert(forall|j: int| 0 <= j < front.len() ==> front[j] == ids[j]);
    }
}

fn find_preset(ps: &Vec<Preset>, id: u128) -> (r: Option<usize>)
    ensures
        match r {
            Some(k) => first_index(preset_ids(ps@), id) == Some(k as int) && k < ps@.len() && ps@[k as int].id
                == id,
            None => first_index(preset_ids(ps@), id) == None::<int>,
        },
{
    let mut k: usize = 0;
    while k < ps.len()
        invariant
            k <= ps.len(),
            first_index(preset_ids(ps@).take(k as int), id) == None::<int>,
        decreases ps.len() - k,
    {
        assert(preset_ids(ps@).take(k as int + 1).drop_last() =~= preset_ids(ps@).take(k as int));
        if ps[k].id == id {
            proof {
                lemma_first_index_prefix(preset_ids(ps@), id, k as int + 1);
            }
            return Some(k);
        }
        k += 1;
    }
    assert(preset_ids(ps@).take(k as int) =~= preset_ids(ps@));
    None
}

/// A first occurrence inside a prefix is the first occurrence in the whole.
proof fn lemma_first_index_prefix(ids: Seq<u128>, id: u128, n: int)
    requires
        0 <= n <= ids.len(),
        first_index(ids.take(n), id) is Some,
    ensures
        first_index(ids, id) == first_index(ids.take(n), id),
    decreases ids.len() - n,
{
    if n < ids.len() {
        assert(ids.take(n + 1).drop_last() =~= ids.take(n));
        lemma_first_index_prefix(ids, id, n + 1);
    } else {
        assert(ids.take(n) =~= ids);
    }
}

fn find_game(gs: &Vec<GameRef>, id: u128) -> (r: Option<usize>)
    ensures
        match r {
            Some(k) => first_index(game_ids(gs@), id) == Some(k as int) && k < gs@.len() && gs@[k as int].id
                == id,
            None => first_index(game_ids(gs@), id) == None::<int>,
        },
{
    let mut k: usize = 0;
    while k < gs.len()
        invariant
            k <= gs.len(),
            first_index(game_ids(gs@).take(k as int), id) == None::<int>,
        decreases gs.len() - k,
    {
        assert(game_ids(gs@).take(k as int + 1).drop_last() =~= game_ids(gs@).take(k as int));
        if gs[k].id == id {
            proof {
                lemma_first_index_prefix(game_ids(gs@), id, k as int + 1);
            }
            return Some(k);
        }
        k += 1;
    }
    assert(game_ids(gs@).take(k as int) =~= game_ids(gs@));
    None
}

fn find_session(ss: &Vec<SessionRef>, id: u128) -> (r: Option<usize>)
    ensures
        match r {
            Some(k) => first_index(session_ids(ss@), id) == Some(k as int) && k < ss@.len() && ss@[k as int].id
                == id,
            None => first_index(session_ids(ss@), id) == None::<int>,
        },
{
    let mut k: usize = 0;
    while k < ss.len()
        invariant
            k <= ss.len(),
            first_index(session_ids(ss@).take(k as int), id) == None::<int>,
        decreases ss.len() - k,
    {
        assert(session_ids(ss@).take(k as int + 1).drop_last() =~= session_ids(ss@).take(
            k as int,
        ));
        if ss[k].id == id {
            proof {
                lemma_first_index_prefix(session_ids(ss@), id, k as int + 1);
            }
            return Some(k);
        }
        k += 1;
    }
    assert(session_ids(ss@).take(k as int) =~= session_ids(ss@));
    None
}

/// `prefix` followed by the UUID text of `id`.
fn message_with_id(prefix: &str, id: u128) -> (r: String)
    ensures
        r@ == prefix@ + uuid_display(id),
{
    let mut m = String::from_str(prefix);
    let t = uuid_text(id);
    m.append(t.as_str());
    m
}

/// `prefix` followed by `detail`.
fn message_with(prefix: &str, detail: &str) -> (r: String)
    ensures
        r@ == prefix@ + detail@,
{
    let mut m = String::from_str(prefix);
    m.append(detail);
    m
}

impl ServiceCore {
    /// A service that knows this catalogue, these games and sessions, with no
    /// benchmark running.
    pub fn new(presets: Vec<Preset>, games: Vec<GameRef>, sessions: Vec<SessionRef>) -> (r: Self)
        ensures
            r.presets@ == presets@,
            r.games@ == games@,
            r.sessions@ == sessions@,
            r.benchmark@ == idle(),
    {
        ServiceCore {
            presets,
            games,
            sessions,
            benchmark: BenchmarkState { active: false, game_id: None, game_name: None },
        }
    }

    /// Decides what a request needs and updates the service's own state.
    /// Presets are found by id, first match; a start notes the game and its
    /// name (`Unknown game` for an unknown id); a stop without a running
    /// benchmark changes nothing; a report uses the first session with the
    /// id, preferring its `after` metrics.
    pub fn handle_request(&mut self, req: ServiceRequest) -> (step: ServiceStep)
        ensures
            final(self).presets@ == old(self).presets@,
            final(self).games@ == old(self).games@,
            final(self).sessions@ == old(self).sessions@,
            match req {
                ServiceRequest::StartBenchmark { .. } => true,
                ServiceRequest::StopBenchmark => true,
                _ => final(self).benchmark@ == old(self).benchmark@,
            },
            match req {
                ServiceRequest::Ping => step == ServiceStep::Respond(Reply::Pong),
                ServiceRequest::GetTelemetry => step == ServiceStep::Respond(Reply::Telemetry),
                ServiceRequest::GetSystemInfo => step == ServiceStep::Respond(Reply::SystemInfo),
                ServiceRequest::GetGames => step == ServiceStep::Respond(Reply::Games),
                ServiceRequest::GetPresets => step == ServiceStep::Respond(Reply::Presets),
                ServiceRequest::GetOverlayConfig => step == ServiceStep::Respond(
                    Reply::OverlayConfig,
                ),
                ServiceRequest::GetBenchmarkSessions => step == ServiceStep::Respond(
                    Reply::BenchmarkSessions,
                ),
                ServiceRequest::SetOverlayConfig => step == ServiceStep::StoreOverlayConfig,
                ServiceRequest::ApplyPreset { preset_id, confirmed } => match first_index(
                    preset_ids(old(self).presets@),
                    preset_id,
                ) {
                    Some(i) => if old(self).presets@[i].risk != RiskLevel::Low && !confirmed {
                        step matches ServiceStep::Respond(Reply::Error(m)) && m@
                            == "Preset requires explicit confirmation: "@ + uuid_display(preset_id)
                    } else {
                        step == ServiceStep::ApplyPreset { index: i as usize }
                    },
                    None => step matches ServiceStep::Respond(Reply::Error(m)) && m@
                        == "Preset not found: "@ + uuid_display(preset_id),
                },
                ServiceRequest::RollbackPreset { preset_id } => step
                    == ServiceStep::RollbackPreset { preset_id },
                ServiceRequest::StartBenchmark { game_id } => step
                    == ServiceStep::StartBenchmarkClock && final(self).benchmark@ == started(
                    old(self).games@,
                    game_id,
                ),
                ServiceRequest::StopBenchmark => if old(self).benchmark.active {
                    &&& step matches ServiceStep::FinishBenchmark { game_id, game_name }
                        && (game_id, game_name@) == finished_game(old(self).benchmark@)
                    &&& final(self).benchmark@ == idle()
                } else {
                    step == ServiceStep::Respond(Reply::BenchmarkStopped)
                        && final(self).benchmark@ == old(self).benchmark@
                },
                ServiceRequest::GetBottleneckReport { session_id } => step == ServiceStep::Report(
                    report_source(old(self).sessions@, session_id),
                ),
            },
    {
        match req {
            ServiceRequest::Ping => ServiceStep::Respond(Reply::Pong),
            ServiceRequest::GetTelemetry => ServiceStep::Respond(Reply::Telemetry),
            ServiceRequest::GetSystemInfo => ServiceStep::Respond(Reply::SystemInfo),
            ServiceRequest::GetGames => ServiceStep::Respond(Reply::Games),
            ServiceRequest::GetPresets => ServiceStep::Respond(Reply::Presets),
            ServiceRequest::GetOverlayConfig => ServiceStep::Respond(Reply::OverlayConfig),
            ServiceRequest::GetBenchmarkSessions => ServiceStep::Respond(Reply::BenchmarkSessions),
            ServiceRequest::SetOverlayConfig => ServiceStep::StoreOverlayConfig,
            ServiceRequest::ApplyPreset { preset_id, confirmed } => {
                match find_preset(&self.presets, preset_id) {
                    Some(i) => {
                        if needs_confirmation(self.presets[i].risk) && !confirmed {
                            ServiceStep::Respond(
                                Reply::Error(
                                    message_with_id(
                                        "Preset requires explicit confirmation: ",
                                        preset_id,
                                    ),
                                ),
                            )
                        } else {
                            ServiceStep::ApplyPreset { index: i }
                        }
                    },
                    None => ServiceStep::Respond(
                        Reply::Error(message_with_id("Preset not found: ", preset_id)),
                    ),
                }
            },
            ServiceRequest::RollbackPreset { preset_id } => ServiceStep::RollbackPreset {
                preset_id,
            },
            ServiceRequest::StartBenchmark { game_id } => {
                let name = match find_game(&self.games, game_id) {
                    Some(i) => self.games[i].name.clone(),
                    None => String::from_str("Unknown game"),
                };
                self.benchmark = BenchmarkState {
                    active: true,
                    game_id: Some(game_id),
                    game_name: Some(name),
                };
                ServiceStep::StartBenchmarkClock
            },
            ServiceRequest::StopBenchmark => {
                if !self.benchmark.active {
                    return ServiceStep::Respond(Reply::BenchmarkStopped);
                }
                let game_id = match self.benchmark.game_id {
                    Some(g) => g,
                    None => 0,
                };
                let game_name = match self.benchmark.game_name.take() {
                    Some(n) => n,
                    None => String::new(),
                };
                self.benchmark = BenchmarkState { active: false, game_id: None, game_name: None };
                ServiceStep::FinishBenchmark { game_id, game_name }
            },
            ServiceRequest::GetBottleneckReport { session_id } => {
                let source = match find_session(&self.sessions, session_id) {
                    Some(i) => if self.sessions[i].has_after {
                        ReportSource::SessionAfter(i)
                    } else if self.sessions[i].has_before {
                        ReportSource::SessionBefore(i)
                    } else {
                        ReportSource::Live
                    },
                    None => ReportSource::Live,
                };
                ServiceStep::Report(source)
            },
        }
    }

    /// Sets the applied flag of the first preset with this id.
    fn mark_preset(&mut self, preset_id: u128, applied: bool)
        ensures
            final(self).presets@ == marked(old(self).presets@, preset_id, applied),
            final(self).games@ == old(self).games@,
            final(self).sessions@ == old(self).sessions@,
            final(self).benchmark@ == old(self).benchmark@,
    {
        match find_preset(&self.presets, preset_id) {
            Some(i) => {
                proof {
                    lemma_first_index_bounds(preset_ids(self.presets@), preset_id);
                }
                self.presets[i].is_applied = applied;
                assert(self.presets@ =~= marked(old(self).presets@, preset_id, applied));
            },
            None => {},
        }
    }

    /// Takes the preset engine's outcome of applying a preset: on success the
    /// preset is marked applied and `PresetApplied` answered; on failure
    /// nothing changes and the answer is `Apply failed: <error>`.
    pub fn finish_apply(&mut self, preset_id: u128, outcome: Result<(), String>) -> (r: Reply)
        ensures
            final(self).games@ == old(self).games@,
            final(self).sessions@ == old(self).sessions@,
            final(self).benchmark@ == old(self).benchmark@,
            match outcome {
                Ok(()) => final(self).presets@ == marked(old(self).presets@, preset_id, true) && r
                    == Reply::PresetApplied { preset_id },
                Err(e) => final(self).presets@ == old(self).presets@ && (r matches Reply::Error(m)
                    && m@ == "Apply failed: "@ + e@),
            },
    {
        match outcome {
            Ok(()) => {
                self.mark_preset(preset_id, true);
                Reply::PresetApplied { preset_id }
            },
            Err(e) => Reply::Error(message_with("Apply failed: ", e.as_str())),
        }
    }

    /// Takes the preset engine's outcome of rolling a preset back: on success
    /// the preset is marked not applied and `PresetRolledBack` answered; on
    /// failure nothing changes and the answer is `Rollback failed: <error>`.
    pub fn finish_rollback(&mut self, preset_id: u128, outcome: Result<(), String>) -> (r: Reply)
        ensures
            final(self).games@ == old(self).games@,
            final(self).sessions@ == old(self).sessions@,
            final(self).benchmark@ == old(self).benchmark@,
            match outcome {
                Ok(()) => final(self).presets@ == marked(old(self).presets@, preset_id, false) && r
                    == Reply::PresetRolledBack { preset_id },
                Err(e) => final(self).presets@ == old(self).presets@ && (r matches Reply::Error(m)
                    && m@ == "Rollback failed: "@ + e@),
            },
    {
        match outcome {
            Ok(()) => {
                self.mark_preset(preset_id, false);
                Reply::PresetRolledBack { preset_id }
            },
            Err(e) => Reply::Error(message_with("Rollback failed: ", e.as_str())),
        }
    }

    /// Records a finished benchmark session after the ones already recorded.
    pub fn record_session(&mut self, session: SessionRef)
        ensures
            final(self).sessions@ == old(self).sessions@.push(session),
            final(self).presets@ == old(self).presets@,
            final(self).games@ == old(self).games@,
            final(self).benchmark@ == old(self).benchmark@,
    {
        self.sessions.push(session);
    }
}

/// A session time as Unix seconds and the nanoseconds within that second.
/// `a` is strictly later than `b`.
pub open spec fn later(a: (i64, u32), b: (i64, u32)) -> bool {
    a.0 > b.0 || (a.0 == b.0 && a.1 > b.1)
}

/// In the newest-first listing of sessions with times `stamps`, the session
/// at index `i` comes before the one at index `j`: it is later, or it has
/// the same time and was listed first.
pub open spec fn comes_before(stamps: Seq<(i64, u32)>, i: int, j: int) -> bool {
    later(stamps[i], stamps[j]) || (stamps[i] == stamps[j] && i < j)
}

fn later_exec(a: (i64, u32), b: (i64, u32)) -> (r: bool)
    ensures
        r == later(a, b),
{
    a.0 > b.0 || (a.0 == b.0 && a.1 > b.1)
}

/// The order in which sessions with times `stamps` are listed: newest
/// first, sessions with equal times in their original order. The result
/// holds each index of `stamps` once.
pub fn newest_first(stamps: &Vec<(i64, u32)>) -> (r: Vec<usize>)
    ensures
        r.len() == stamps.len(),
        forall|k: int| 0 <= k < r.len() ==> r[k] < stamps.len(),
        forall|i: int, j: int|
            #![trigger r[i], r[j]]
            0 <= i < j < r.len() ==> r[i] != r[j] && comes_before(
                stamps@,
                r[i] as int,
                r[j] as int,
            ),
{
    let mut out: Vec<usize> = Vec::new();
    let n = stamps.len();
    for i in 0..n
        invariant
            n == stamps.len(),
            out.len() == i,
            forall|k: int| 0 <= k < out.len() ==> out[k] < i,
            forall|a: int, b: int|
                0 <= a < b < out.len() ==> comes_before(stamps@, out[a] as int, out[b] as int),
    {
        let ghost before = out@;
        let mut p: usize = 0;
        while p < out.len() && !later_exec(stamps[i], stamps[out[p]])
            invariant
                n == stamps.len(),
                i < n,
                out@ == before,
                p <= out.len(),
                forall|k: int| 0 <= k < out.len() ==> out[k] < i,
                forall|k: int| 0 <= k < p ==> !later(stamps@[i as int], stamps@[out[k] as int]),
            decreases out.len() - p,
        {
            p = p + 1;
        }
        proof {
            assert forall|k: int| p <= k < before.len() implies later(
                stamps@[i as int],
                stamps@[before[k] as int],
            ) by {
                if k > p {
                    assert(comes_before(stamps@, before[p as int] as int, before[k] as int));
                }
            }
        }
        out.insert(p, i);
        assert forall|a: int, b: int|
            0 <= a < b < out.len() implies comes_before(stamps@, out[a] as int, out[b] as int) by {
            if a < p as int && b == p as int {
                assert(!later(stamps@[i as int], stamps@[before[a] as int]));
            } else if a == p as int {
                assert(later(stamps@[i as int], stamps@[before[b - 1] as int]));
            } else if a < p as int && b > p as int {
                assert(comes_before(stamps@, before[a] as int, before[b - 1] as int));
            } else if a > p as int {
                assert(comes_before(stamps@, before[a - 1] as int, before[b - 1] as int));
            } else {
                assert(comes_before(stamps@, before[a] as int, before[b] as int));
            }
        }
    }
    assert forall|a: int, b: int| 0 <= a < b < out.len() implies out[a] != out[b] by {
        assert(comes_before(stamps@, out[a] as int, out[b] as int));
    }
    out
}

} // verus!
