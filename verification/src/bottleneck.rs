//! The bottleneck report: which diagnoses a telemetry sample gives, in
//! which order, with which wording and confidence.
//!
//! The thresholds are compared on the floating-point telemetry by the
//! caller, which hands in the outcome of each comparison and the two causes
//! that quote measured values.
use vstd::prelude::*;

verus! {

/// The kind of performance limit that a diagnosis names.
#[derive(Debug, Clone, Copy, PartialEq, Eq, Structural)]
pub enum BottleneckKind {
    GpuBound,
    CpuBound,
    VramPressure,
    ThermalThrottle,
    PowerLimit,
    LowGpuAnomaly,
    BackgroundDrain,
    /// No significant bottleneck was found.
    NoBottleneck,
}

/// One diagnosis of the bottleneck report.
#[derive(Debug, Clone)]
pub struct BottleneckDiagnosis {
    pub kind: BottleneckKind,
    pub title: String,
    pub cause: String,
    pub recommendation: String,
    /// 0–100 confidence score.
    pub confidence: u8,
}

/// The outcome of each threshold test on a telemetry sample.
#[derive(Debug, Clone, Copy, PartialEq, Eq, Structural)]
pub struct BottleneckSignals {
    /// GPU usage above 95 % while CPU usage is below 70 %.
    pub gpu_bound: bool,
    /// CPU usage above 90 % while GPU usage is below 80 %.
    pub cpu_bound: bool,
    /// VRAM use above 85 % of the total.
    pub vram_pressure: bool,
    /// GPU temperature above 83 °C.
    pub gpu_hot: bool,
    /// The GPU reports thermal limiting.
    pub thermal_limited: bool,
    /// The GPU reports power limiting.
    pub power_limited: bool,
    /// GPU usage below 30 %, FPS below 90 and CPU usage below 70 %.
    pub low_gpu_anomaly: bool,
}

/// `k` alone when `b` holds, else nothing.
pub open spec fn kind_if(b: bool, k: BottleneckKind) -> Seq<BottleneckKind> {
    if b {
        seq![k]
    } else {
        Seq::empty()
    }
}

/// The kinds whose tests fire, in report order.
#[verifier::opaque]
pub open spec fn signal_kinds(s: BottleneckSignals) -> Seq<BottleneckKind> {
    kind_if(s.gpu_bound, BottleneckKind::GpuBound) + kind_if(s.cpu_bound, BottleneckKind::CpuBound)
        + kind_if(s.vram_pressure, BottleneckKind::VramPressure) + kind_if(
        s.gpu_hot || s.thermal_limited,
        BottleneckKind::ThermalThrottle,
    ) + kind_if(s.power_limited, BottleneckKind::PowerLimit) + kind_if(
        s.low_gpu_anomaly,
        BottleneckKind::LowGpuAnomaly,
    )
}

/// The kinds that a sample's signals give, in report order; `NoBottleneck`
/// alone when no test fires.
pub open spec fn diagnosis_kinds(s: BottleneckSignals) -> Seq<BottleneckKind> {
    if signal_kinds(s).len() == 0 {
        seq![BottleneckKind::NoBottleneck]
    } else {
        signal_kinds(s)
    }
}

/// The confidence of a diagnosis of the given kind.
pub open spec fn confidence_of(kind: BottleneckKind, s: BottleneckSignals) -> u8 {
    match kind {
        BottleneckKind::GpuBound => 88,
        BottleneckKind::CpuBound => 82,
        BottleneckKind::VramPressure => 90,
        BottleneckKind::ThermalThrottle => if s.thermal_limited {
            96
        } else {
            70
        },
        BottleneckKind::PowerLimit => 92,
        BottleneckKind::LowGpuAnomaly => 60,
        _ => 75,
    }
}

/// The title of a diagnosis of the given kind.
pub open spec fn title_of(kind: BottleneckKind) -> Seq<char> {
    match kind {
        BottleneckKind::GpuBound => "GPU Bottleneck Detected"@,
        BottleneckKind::CpuBound => "CPU Bottleneck Detected"@,
        BottleneckKind::VramPressure => "VRAM Pressure"@,
        BottleneckKind::ThermalThrottle => "GPU Thermal Throttling"@,
        BottleneckKind::PowerLimit => "GPU Power Limit Reached"@,
        BottleneckKind::LowGpuAnomaly => "Low GPU Utilization Anomaly"@,
        _ => "No Significant Bottleneck Detected"@,
    }
}

/// The cause of a diagnosis of the given kind; the VRAM and thermal causes
/// quote measured values and are given.
pub open spec fn cause_of(kind: BottleneckKind, vram_cause: Seq<char>, thermal_cause: Seq<char>) -> Seq<char> {
    match kind {
        BottleneckKind::GpuBound => "GPU is running at full capacity while CPU has headroom. The rendering workload exceeds what your GPU can process at this resolution and quality settings."@,
        BottleneckKind::CpuBound => "CPU is near saturation while GPU has spare capacity. Likely caused by game logic threads, AI simulation, or excessive draw calls."@,
        BottleneckKind::VramPressure => vram_cause,
        BottleneckKind::ThermalThrottle => thermal_cause,
        BottleneckKind::PowerLimit => "The GPU has hit its configured power limit and is throttling clock speeds. This is common on factory-clocked cards under sustained load."@,
        BottleneckKind::LowGpuAnomaly => "GPU, CPU, and FPS are all lower than expected simultaneously. This pattern often indicates a power plan issue, driver problem, or API overhead bottleneck."@,
        _ => "GPU and CPU appear to be well-balanced for the current workload. Performance is likely close to optimal for your hardware configuration."@,
    }
}

/// The recommendation of a diagnosis of the given kind.
pub open spec fn recommendation_of(kind: BottleneckKind) -> Seq<char> {
    match kind {
        BottleneckKind::GpuBound => "Consider lowering resolution scale, shadow quality, or ambient occlusion. Enabling DLSS/FSR/XeSS upscaling may significantly increase GPU headroom."@,
        BottleneckKind::CpuBound => "Lower NPC density, simulation quality, or view distance. Enabling the High Performance power plan (if not active) may help. Background process throttling can free additional CPU headroom."@,
        BottleneckKind::VramPressure => "Lower texture quality settings, disable 4K textures if present, or reduce shadow resolution. Using DLSS Quality mode or FSR Quality mode reduces VRAM requirements."@,
        BottleneckKind::ThermalThrottle => "Clean GPU heatsink and case fans. Check thermal paste age (>3 years). Improve airflow. Setting a more aggressive fan curve in your GPU vendor software may help."@,
        BottleneckKind::PowerLimit => "Increasing the power limit in your GPU software (MSI Afterburner, NVIDIA Control Panel) may improve sustained performance. Effect varies by card."@,
        BottleneckKind::LowGpuAnomaly => "Check Windows Power Plan (switch to High Performance). Verify GPU drivers are up to date. Check for GPU/CPU throttling in vendor software. Ensure no external frame limiter is active."@,
        _ => "Continue monitoring. If you are not hitting your target frame rate, check game quality settings and resolution."@,
    }
}

/// A diagnosis reads as the report words one of its kind.
pub open spec fn worded(
    d: BottleneckDiagnosis,
    s: BottleneckSignals,
    vram_cause: Seq<char>,
    thermal_cause: Seq<char>,
) -> bool {
    &&& d.title@ == title_of(d.kind)
    &&& d.cause@ == cause_of(d.kind, vram_cause, thermal_cause)
    &&& d.recommendation@ == recommendation_of(d.kind)
    &&& d.confidence == confidence_of(d.kind, s)
}

fn diagnosis(kind: BottleneckKind, s: &BottleneckSignals, vram_cause: &str, thermal_cause: &str) -> (r: BottleneckDiagnosis)
    ensures
        r.kind == kind,
        worded(r, *s, vram_cause@, thermal_cause@),
{
    let (title, cause, recommendation, confidence): (&str, &str, &str, u8) = match kind {
        BottleneckKind::GpuBound => (
            "GPU Bottleneck Detected",
            "GPU is running at full capacity while CPU has headroom. The rendering workload exceeds what your GPU can process at this resolution and quality settings.",
            "Consider lowering resolution scale, shadow quality, or ambient occlusion. Enabling DLSS/FSR/XeSS upscaling may significantly increase GPU headroom.",
            88,
        ),
        BottleneckKind::CpuBound => (
            "CPU Bottleneck Detected",
            "CPU is near saturation while GPU has spare capacity. Likely caused by game logic threads, AI simulation, or excessive draw calls.",
            "Lower NPC density, simulation quality, or view distance. Enabling the High Performance power plan (if not active) may help. Background process throttling can free additional CPU headroom.",
            82,
        ),
        BottleneckKind::VramPressure => (
            "VRAM Pressure",
            vram_cause,
            "Lower texture quality settings, disable 4K textures if present, or reduce shadow resolution. Using DLSS Quality mode or FSR Quality mode reduces VRAM requirements.",
            90,
        ),
        BottleneckKind::ThermalThrottle => (
            "GPU Thermal Throttling",
            thermal_cause,
            "Clean GPU heatsink and case fans. Check thermal paste age (>3 years). Improve airflow. Setting a more aggressive fan curve in your GPU vendor software may help.",
            if s.thermal_limited {
                96
            } else {
                70
            },
        ),
        BottleneckKind::PowerLimit => (
            "GPU Power Limit Reached",
            "The GPU has hit its configured power limit and is throttling clock speeds. This is common on factory-clocked cards under sustained load.",
            "Increasing the power limit in your GPU software (MSI Afterburner, NVIDIA Control Panel) may improve sustained performance. Effect varies by card.",
            92,
        ),
        BottleneckKind::LowGpuAnomaly => (
            "Low GPU Utilization Anomaly",
            "GPU, CPU, and FPS are all lower than expected simultaneously. This pattern often indicates a power plan issue, driver problem, or API overhead bottleneck.",
            "Check Windows Power Plan (switch to High Performance). Verify GPU drivers are up to date. Check for GPU/CPU throttling in vendor software. Ensure no external frame limiter is active.",
            60,
        ),
        _ => (
            "No Significant Bottleneck Detected",
            "GPU and CPU appear to be well-balanced for the current workload. Performance is likely close to optimal for your hardware configuration.",
            "Continue monitoring. If you are not hitting your target frame rate, check game quality settings and resolution.",
            75,
        ),
    };
    BottleneckDiagnosis {
        kind,
        title: String::from_str(title),
        cause: String::from_str(cause),
        recommendation: String::from_str(recommendation),
        confidence,
    }
}

/// The bottleneck report of a sample: a diagnosis for each test that fires,
/// in the order GPU-bound, CPU-bound, VRAM pressure, thermal throttling
/// (a hot GPU or reported thermal limiting), power limit, low-GPU anomaly;
/// a single "no significant bottleneck" diagnosis when none fires.
pub fn diagnose_bottlenecks(s: &BottleneckSignals, vram_cause: &str, thermal_cause: &str) -> (r: Vec<BottleneckDiagnosis>)
    ensures
        r@.len() == diagnosis_kinds(*s).len(),
        forall|i: int|
            0 <= i < r@.len() ==> (#[trigger] r@[i]).kind == diagnosis_kinds(*s)[i] && worded(
                r@[i],
                *s,
                vram_cause@,
                thermal_cause@,
            ),
{
    let mut out: Vec<BottleneckDiagnosis> = Vec::new();
    let ghost k0 = if s.gpu_bound {
        seq![BottleneckKind::GpuBound]
    } else {
        Seq::<BottleneckKind>::empty()
    };
    let ghost k1 = if s.cpu_bound {
        seq![BottleneckKind::CpuBound]
    } else {
        Seq::<BottleneckKind>::empty()
    };
    let ghost k2 = if s.vram_pressure {
        seq![BottleneckKind::VramPressure]
    } else {
        Seq::<BottleneckKind>::empty()
    };
    let ghost k3 = if s.gpu_hot || s.thermal_limited {
        seq![BottleneckKind::ThermalThrottle]
    } else {
        Seq::<BottleneckKind>::empty()
    };
    let ghost k4 = if s.power_limited {
        seq![BottleneckKind::PowerLimit]
    } else {
        Seq::<BottleneckKind>::empty()
    };
    let ghost k5 = if s.low_gpu_anomaly {
        seq![BottleneckKind::LowGpuAnomaly]
    } else {
        Seq::<BottleneckKind>::empty()
    };
    if s.gpu_bound {
        out.push(diagnosis(BottleneckKind::GpuBound, s, vram_cause, thermal_cause));
    }
    let ghost o0 = out@;
    if s.cpu_bound {
        out.push(diagnosis(BottleneckKind::CpuBound, s, vram_cause, thermal_cause));
    }
    let ghost o1 = out@;
    if s.vram_pressure {
        out.push(diagnosis(BottleneckKind::VramPressure, s, vram_cause, thermal_cause));
    }
    let ghost o2 = out@;
    if s.gpu_hot || s.thermal_limited {
        out.push(diagnosis(BottleneckKind::ThermalThrottle, s, vram_cause, thermal_cause));
    }
    let ghost o3 = out@;
    if s.power_limited {
        out.push(diagnosis(BottleneckKind::PowerLimit, s, vram_cause, thermal_cause));
    }
    let ghost o4 = out@;
    if s.low_gpu_anomaly {
        out.push(diagnosis(BottleneckKind::LowGpuAnomaly, s, vram_cause, thermal_cause));
    }
    let ghost ks = k0 + k1 + k2 + k3 + k4 + k5;
    proof {
        reveal(signal_kinds);
        assert(ks == signal_kinds(*s));
    }
    assert(out@.map_values(|d: BottleneckDiagnosis| d.kind) =~= ks);
    assert forall|i: int| 0 <= i < out@.len() implies worded(
        #[trigger] out@[i],
        *s,
        vram_cause@,
        thermal_cause@,
    ) by {
        assert(out@.map_values(|d: BottleneckDiagnosis| d.kind)[i] == out@[i].kind);
    }
    if out.len() == 0 {
        out.push(diagnosis(BottleneckKind::NoBottleneck, s, vram_cause, thermal_cause));
    }
    assert forall|i: int| 0 <= i < out@.len() implies (#[trigger] out@[i]).kind == diagnosis_kinds(
        *s,
    )[i] by {
        if ks.len() > 0 {
            assert(out@.map_values(|d: BottleneckDiagnosis| d.kind)[i] == out@[i].kind);
        }
    }
    out
}

/// The position of a kind in report order.
pub open spec fn report_rank(k: BottleneckKind) -> int {
    match k {
        BottleneckKind::GpuBound => 0,
        BottleneckKind::CpuBound => 1,
        BottleneckKind::VramPressure => 2,
        BottleneckKind::ThermalThrottle => 3,
        BottleneckKind::PowerLimit => 4,
        BottleneckKind::LowGpuAnomaly => 5,
        BottleneckKind::BackgroundDrain => 6,
        BottleneckKind::NoBottleneck => 7,
    }
}

/// Some threshold test fires.
pub open spec fn any_signal(s: BottleneckSignals) -> bool {
    s.gpu_bound || s.cpu_bound || s.vram_pressure || s.gpu_hot || s.thermal_limited
        || s.power_limited || s.low_gpu_anomaly
}

/// The kinds of `ks` come in strictly increasing report order.
pub open spec fn in_report_order(ks: Seq<BottleneckKind>) -> bool {
    forall|i: int, j: int| 0 <= i < j < ks.len() ==> report_rank(#[trigger] ks[i]) < report_rank(#[trigger] ks[j])
}

/// Every kind of `ks` comes before rank `r`.
pub open spec fn ranked_below(ks: Seq<BottleneckKind>, r: int) -> bool {
    forall|i: int| 0 <= i < ks.len() ==> report_rank(#[trigger] ks[i]) < r
}

proof fn lemma_append_kind(a: Seq<BottleneckKind>, b: bool, k: BottleneckKind)
    requires
        in_report_order(a),
        ranked_below(a, report_rank(k)),
    ensures
        in_report_order(a + kind_if(b, k)),
        ranked_below(a + kind_if(b, k), report_rank(k) + 1),
{
    let c = a + kind_if(b, k);
    assert forall|i: int| 0 <= i < c.len() implies report_rank(#[trigger] c[i]) < report_rank(k) + 1 by {
        if i < a.len() {
            assert(c[i] == a[i]);
        }
    }
    assert forall|i: int, j: int| 0 <= i < j < c.len() implies report_rank(#[trigger] c[i])
        < report_rank(#[trigger] c[j]) by {
        assert(c[i] == a[i]);
        if j < a.len() {
            assert(c[j] == a[j]);
        }
    }
}

proof fn lemma_signal_kinds_order(s: BottleneckSignals)
    ensures
        in_report_order(signal_kinds(s)),
        ranked_below(signal_kinds(s), 6),
{
    let e = Seq::<BottleneckKind>::empty();
    lemma_append_kind(e, s.gpu_bound, BottleneckKind::GpuBound);
    let k0 = e + kind_if(s.gpu_bound, BottleneckKind::GpuBound);
    assert(k0 =~= kind_if(s.gpu_bound, BottleneckKind::GpuBound));
    lemma_append_kind(k0, s.cpu_bound, BottleneckKind::CpuBound);
    let k1 = k0 + kind_if(s.cpu_bound, BottleneckKind::CpuBound);
    lemma_append_kind(k1, s.vram_pressure, BottleneckKind::VramPressure);
    let k2 = k1 + kind_if(s.vram_pressure, BottleneckKind::VramPressure);
    lemma_append_kind(k2, s.gpu_hot || s.thermal_limited, BottleneckKind::ThermalThrottle);
    let k3 = k2 + kind_if(s.gpu_hot || s.thermal_limited, BottleneckKind::ThermalThrottle);
    lemma_append_kind(k3, s.power_limited, BottleneckKind::PowerLimit);
    let k4 = k3 + kind_if(s.power_limited, BottleneckKind::PowerLimit);
    lemma_append_kind(k4, s.low_gpu_anomaly, BottleneckKind::LowGpuAnomaly);
    let k5 = k4 + kind_if(s.low_gpu_anomaly, BottleneckKind::LowGpuAnomaly);
    reveal(signal_kinds);
    assert(k5 == signal_kinds(s));
}

proof fn lemma_signal_kinds_empty(s: BottleneckSignals)
    ensures
        signal_kinds(s).len() == 0 <==> !any_signal(s),
{
    reveal(signal_kinds);
}

/// The report is never empty; it says "no significant bottleneck" exactly
/// when no test fires, and then says nothing else; its diagnoses come in
/// report order, so no kind appears twice.
pub proof fn lemma_report_shape(s: BottleneckSignals)
    ensures
        diagnosis_kinds(s).len() >= 1,
        !any_signal(s) ==> diagnosis_kinds(s) == seq![BottleneckKind::NoBottleneck],
        diagnosis_kinds(s).contains(BottleneckKind::NoBottleneck) <==> !any_signal(s),
        in_report_order(diagnosis_kinds(s)),
{
    lemma_signal_kinds_order(s);
    lemma_signal_kinds_empty(s);
    let ks = diagnosis_kinds(s);
    if any_signal(s) {
        if ks.contains(BottleneckKind::NoBottleneck) {
            let i = choose|i: int| 0 <= i < ks.len() && ks[i] == BottleneckKind::NoBottleneck;
            assert(report_rank(ks[i]) < 6);
        }
    } else {
        assert(ks[0] == BottleneckKind::NoBottleneck);
    }
}

proof fn lemma_contains_after_kind(a: Seq<BottleneckKind>, b: bool, k: BottleneckKind, q: BottleneckKind)
    ensures
        (a + kind_if(b, k)).contains(q) <==> a.contains(q) || (b && q == k),
{
    let c = a + kind_if(b, k);
    if a.contains(q) {
        let i = choose|i: int| 0 <= i < a.len() && a[i] == q;
        assert(c[i] == q);
    }
    if b && q == k {
        assert(c[a.len() as int] == q);
    }
    if c.contains(q) {
        let i = choose|i: int| 0 <= i < c.len() && c[i] == q;
        if i < a.len() {
            assert(a[i] == q);
        }
    }
}

/// A kind of diagnosis is in the report exactly when its own test fires:
/// GPU-bound, CPU-bound, VRAM pressure, power limit and the low-GPU anomaly
/// each by their test, thermal throttling when the GPU is hot or reports
/// thermal limiting, "no significant bottleneck" when no test fires, and
/// background drain never.
pub proof fn lemma_kind_reported_iff_test(s: BottleneckSignals)
    ensures
        diagnosis_kinds(s).contains(BottleneckKind::GpuBound) <==> s.gpu_bound,
        diagnosis_kinds(s).contains(BottleneckKind::CpuBound) <==> s.cpu_bound,
        diagnosis_kinds(s).contains(BottleneckKind::VramPressure) <==> s.vram_pressure,
        diagnosis_kinds(s).contains(BottleneckKind::ThermalThrottle) <==> s.gpu_hot
            || s.thermal_limited,
        diagnosis_kinds(s).contains(BottleneckKind::PowerLimit) <==> s.power_limited,
        diagnosis_kinds(s).contains(BottleneckKind::LowGpuAnomaly) <==> s.low_gpu_anomaly,
        diagnosis_kinds(s).contains(BottleneckKind::NoBottleneck) <==> !(s.gpu_bound || s.cpu_bound
            || s.vram_pressure || s.gpu_hot || s.thermal_limited || s.power_limited
            || s.low_gpu_anomaly),
        !diagnosis_kinds(s).contains(BottleneckKind::BackgroundDrain),
{
    lemma_report_shape(s);
    lemma_signal_kinds_empty(s);
    let e = Seq::<BottleneckKind>::empty();
    let k0 = e + kind_if(s.gpu_bound, BottleneckKind::GpuBound);
    let k1 = k0 + kind_if(s.cpu_bound, BottleneckKind::CpuBound);
    let k2 = k1 + kind_if(s.vram_pressure, BottleneckKind::VramPressure);
    let k3 = k2 + kind_if(s.gpu_hot || s.thermal_limited, BottleneckKind::ThermalThrottle);
    let k4 = k3 + kind_if(s.power_limited, BottleneckKind::PowerLimit);
    let k5 = k4 + kind_if(s.low_gpu_anomaly, BottleneckKind::LowGpuAnomaly);
    assert(k0 =~= kind_if(s.gpu_bound, BottleneckKind::GpuBound));
    reveal(signal_kinds);
    assert(k5 == signal_kinds(s));
    let ks = seq![
        BottleneckKind::GpuBound,
        BottleneckKind::CpuBound,
        BottleneckKind::VramPressure,
        BottleneckKind::ThermalThrottle,
        BottleneckKind::PowerLimit,
        BottleneckKind::LowGpuAnomaly,
        BottleneckKind::BackgroundDrain,
    ];
    assert forall|n: int| 0 <= n < ks.len() implies (#[trigger] k5.contains(ks[n])) == (
    (s.gpu_bound && ks[n] == BottleneckKind::GpuBound) || (s.cpu_bound && ks[n]
        == BottleneckKind::CpuBound) || (s.vram_pressure && ks[n] == BottleneckKind::VramPressure)
        || ((s.gpu_hot || s.thermal_limited) && ks[n] == BottleneckKind::ThermalThrottle) || (
    s.power_limited && ks[n] == BottleneckKind::PowerLimit) || (s.low_gpu_anomaly && ks[n]
        == BottleneckKind::LowGpuAnomaly)) by {
        let q = ks[n];
        assert(!e.contains(q));
        lemma_contains_after_kind(e, s.gpu_bound, BottleneckKind::GpuBound, q);
        lemma_contains_after_kind(k0, s.cpu_bound, BottleneckKind::CpuBound, q);
        lemma_contains_after_kind(k1, s.vram_pressure, BottleneckKind::VramPressure, q);
        lemma_contains_after_kind(
            k2,
            s.gpu_hot || s.thermal_limited,
            BottleneckKind::ThermalThrottle,
            q,
        );
        lemma_contains_after_kind(k3, s.power_limited, BottleneckKind::PowerLimit, q);
        lemma_contains_after_kind(k4, s.low_gpu_anomaly, BottleneckKind::LowGpuAnomaly, q);
    }
    assert(ks[0] == BottleneckKind::GpuBound);
    assert(ks[1] == BottleneckKind::CpuBound);
    assert(ks[2] == BottleneckKind::VramPressure);
    assert(ks[3] == BottleneckKind::ThermalThrottle);
    assert(ks[4] == BottleneckKind::PowerLimit);
    assert(ks[5] == BottleneckKind::LowGpuAnomaly);
    assert(ks[6] == BottleneckKind::BackgroundDrain);
    assert(k5.contains(ks[0]) == s.gpu_bound);
    assert(k5.contains(ks[1]) == s.cpu_bound);
    assert(k5.contains(ks[2]) == s.vram_pressure);
    assert(k5.contains(ks[3]) == (s.gpu_hot || s.thermal_limited));
    assert(k5.contains(ks[4]) == s.power_limited);
    assert(k5.contains(ks[5]) == s.low_gpu_anomaly);
    assert(!k5.contains(ks[6]));
    if !any_signal(s) {
        assert(diagnosis_kinds(s) == seq![BottleneckKind::NoBottleneck]);
    }
}

} // verus!
