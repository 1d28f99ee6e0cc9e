use sable::bottleneck::{diagnose_bottlenecks, BottleneckKind, BottleneckSignals};

fn quiet() -> BottleneckSignals {
    BottleneckSignals {
        gpu_bound: false,
        cpu_bound: false,
        vram_pressure: false,
        gpu_hot: false,
        thermal_limited: false,
        power_limited: false,
        low_gpu_anomaly: false,
    }
}

#[test]
fn balanced_sample_reports_no_bottleneck() {
    let r = diagnose_bottlenecks(&quiet(), "v", "t");
    assert_eq!(r.len(), 1);
    assert_eq!(r[0].kind, BottleneckKind::NoBottleneck);
    assert_eq!(r[0].title, "No Significant Bottleneck Detected");
    assert_eq!(r[0].confidence, 75);
}

#[test]
fn gpu_bound_sample() {
    let s = BottleneckSignals { gpu_bound: true, ..quiet() };
    let r = diagnose_bottlenecks(&s, "v", "t");
    assert_eq!(r.len(), 1);
    assert_eq!(r[0].kind, BottleneckKind::GpuBound);
    assert_eq!(r[0].title, "GPU Bottleneck Detected");
    assert_eq!(r[0].confidence, 88);
}

#[test]
fn every_signal_in_report_order() {
    let s = BottleneckSignals {
        gpu_bound: true,
        cpu_bound: true,
        vram_pressure: true,
        gpu_hot: true,
        thermal_limited: false,
        power_limited: true,
        low_gpu_anomaly: true,
    };
    let vram = "VRAM is 90% utilized (9216 MB / 10240 MB). High VRAM usage causes texture streaming and can introduce stutters when assets are evicted.";
    let thermal = "GPU temperature is 85°C, which may be causing thermal throttling. The GPU reduces clock speeds to prevent damage, directly lowering performance.";
    let r = diagnose_bottlenecks(&s, vram, thermal);
    let kinds: Vec<BottleneckKind> = r.iter().map(|d| d.kind).collect();
    assert_eq!(
        kinds,
        vec![
            BottleneckKind::GpuBound,
            BottleneckKind::CpuBound,
            BottleneckKind::VramPressure,
            BottleneckKind::ThermalThrottle,
            BottleneckKind::PowerLimit,
            BottleneckKind::LowGpuAnomaly,
        ]
    );
    assert_eq!(r[1].confidence, 82);
    assert_eq!(r[2].cause, vram);
    assert_eq!(r[2].confidence, 90);
    assert_eq!(r[3].cause, thermal);
    assert_eq!(r[3].confidence, 70);
    assert_eq!(r[4].confidence, 92);
    assert_eq!(r[5].confidence, 60);
}

#[test]
fn reported_thermal_limit_raises_confidence() {
    let s = BottleneckSignals { thermal_limited: true, ..quiet() };
    let r = diagnose_bottlenecks(&s, "v", "GPU temperature is 70°C");
    assert_eq!(r.len(), 1);
    assert_eq!(r[0].kind, BottleneckKind::ThermalThrottle);
    assert_eq!(r[0].title, "GPU Thermal Throttling");
    assert_eq!(r[0].confidence, 96);
}
