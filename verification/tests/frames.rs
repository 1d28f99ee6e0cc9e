use sable::frames::{
    FrameTracker, RING_BUFFER_CAPACITY,
    choose_active_target, counts_as_catalog_name, counts_as_target, is_noise, pick_target,
    FrameBuffer, TargetCandidate, HISTORY_LEN,
};
use std::time::Duration;

#[test]
fn first_present_does_not_invent_a_frame() {
    let mut buf = FrameBuffer::new(360);
    let start: u64 = 5_000_000_000;
    assert!(buf.record_present(start).is_none());
    assert!(buf.is_empty());
    let second = buf.record_present(start + Duration::from_micros(16667).as_nanos() as u64);
    let ms = second.unwrap() as f64 / 1_000_000.0;
    assert!(ms > 15.0 && ms < 18.0);
    assert_eq!(buf.frame_count(), 1);
}

#[test]
fn qpc_frames_are_clamped() {
    let mut buf = FrameBuffer::new(8);
    assert_eq!(buf.record_present_qpc(1_000_000), None);
    // 16.667 ms in 100 ns ticks
    assert_eq!(buf.record_present_qpc(1_166_670), Some(16_667_000));
    // a repeated timestamp counts as 0.1 ms
    assert_eq!(buf.record_present_qpc(1_166_670), Some(100_000));
    // a 5 s gap counts as 2000 ms
    assert_eq!(buf.record_present_qpc(51_166_670), Some(2_000_000_000));
    assert_eq!(buf.last_present_qpc(), Some(51_166_670));
    assert_eq!(buf.frame_count(), 3);
}

#[test]
fn full_buffer_drops_the_oldest_frame() {
    let mut buf = FrameBuffer::new(3);
    let mut t = 0u64;
    buf.record_present(t);
    for ft in [10u64, 20, 30, 40] {
        t += ft;
        buf.record_present(t);
    }
    assert_eq!(buf.frame_count(), 3);
    let st = buf.compute_stats().unwrap();
    assert_eq!(st.history_ns, vec![20, 30, 40]);
    assert_eq!(st.sorted_ns, vec![20, 30, 40]);
    assert_eq!(st.total_ns, 90);
}

#[test]
fn stats_sort_and_keep_recent_history() {
    let mut buf = FrameBuffer::new(1000);
    assert!(buf.compute_stats().is_none());
    let mut t = 0u64;
    buf.record_present(t);
    for i in 0..500u64 {
        t += 1000 + (i * 7919) % 97;
        buf.record_present(t);
    }
    let st = buf.compute_stats().unwrap();
    assert_eq!(st.sorted_ns.len(), 500);
    assert!(st.sorted_ns.windows(2).all(|w| w[0] <= w[1]));
    assert_eq!(st.history_ns.len(), HISTORY_LEN);
    assert_eq!(*st.history_ns.last().unwrap(), 1000 + (499 * 7919) % 97);
    assert_eq!(st.total_ns, t as u128);
}

#[test]
fn noise_names_ignore_ascii_case() {
    assert!(is_noise("dwm.exe"));
    assert!(is_noise("Chrome.EXE"));
    assert!(!is_noise("cyberpunk2077.exe"));
    assert!(!counts_as_target(true, ""));
    assert!(!counts_as_target(false, "game.exe"));
    assert!(!counts_as_target(true, "Discord.exe"));
    assert!(counts_as_target(true, "game.exe"));
    assert!(counts_as_catalog_name("game.exe"));
    assert!(!counts_as_catalog_name("steam.exe"));
}

fn cand(pid: u32, ts: i64, cat: bool, fg: bool) -> TargetCandidate {
    TargetCandidate {
        pid,
        last_present_qpc: ts,
        name: format!("p{pid}.exe"),
        in_catalog: cat,
        is_foreground: fg,
    }
}

#[test]
fn target_prefers_the_foreground_game() {
    let c = vec![
        cand(1, 50, true, false),
        cand(2, 10, true, true),
        cand(3, 99, false, true),
    ];
    assert_eq!(pick_target(&c), Some(1));
    assert_eq!(choose_active_target(&c), Some(1));
}

#[test]
fn target_falls_back_to_the_latest_frame() {
    let c = vec![
        cand(1, 50, true, false),
        cand(2, 70, true, false),
        cand(3, 70, true, false),
        cand(4, 99, false, true),
    ];
    // the last of equally recent games
    assert_eq!(pick_target(&c), Some(2));
    let none_cat = vec![cand(1, 5, false, true), cand(2, 9, false, false), cand(3, 9, false, false)];
    assert_eq!(pick_target(&none_cat), None);
    assert_eq!(choose_active_target(&none_cat), Some(2));
    assert_eq!(choose_active_target(&Vec::new()), None);
}

#[test]
fn tracker_keeps_one_buffer_per_process() {
    let mut t = FrameTracker::new();
    t.record_present(100, 1_000_000);
    t.record_present(200, 5_000_000);
    t.record_present(100, 1_166_670);
    assert_eq!(t.buffers.len(), 2);
    assert_eq!(t.buffers[&100].frame_count(), 1);
    assert_eq!(t.buffers[&100].last_present_qpc(), Some(1_166_670));
    assert!(t.buffers[&200].is_empty());
    let stats = t.buffers[&100].compute_stats().unwrap();
    assert_eq!(stats.sorted_ns, vec![16_667_000]);
    t.forget(&vec![200, 300]);
    assert_eq!(t.buffers.len(), 1);
    assert!(t.buffers.contains_key(&100));
    assert!(RING_BUFFER_CAPACITY == 3600);
}

#[test]
fn ring_keeps_the_latest_frames_in_order() {
    let mut buf = FrameBuffer::new(2);
    let mut t = 1_000_000i64;
    buf.record_present_qpc(t);
    let mut seen = Vec::new();
    for ticks in [2_000i64, 3_000, 4_000, 5_000, 6_000] {
        t += ticks;
        seen.push(buf.record_present_qpc(t).unwrap());
        let keep = seen.len().min(2);
        let st = buf.compute_stats().unwrap();
        assert_eq!(st.history_ns, seen[seen.len() - keep..].to_vec());
        assert!(buf.frame_count() <= 2);
    }
    assert_eq!(seen, vec![200_000, 300_000, 400_000, 500_000, 600_000]);
}
