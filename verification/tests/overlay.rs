use sable::overlay::{hud_base_size, overlay_origin, overlay_origin_fits, HudRows, OverlayPosition, BASE_W, MARGIN};

fn default_rows() -> HudRows {
    HudRows {
        show_fps: true,
        show_frametime: true,
        show_gpu_usage: true,
        show_cpu_usage: true,
        show_gpu_temp: true,
        show_vram: false,
        show_ram: false,
        streamer_mode: false,
    }
}

#[test]
fn default_hud_size() {
    // title + 5 metric rows, sparkline
    assert_eq!(hud_base_size(&default_rows()), (BASE_W, 12 + 6 * 18 + 26 + 10));
}

#[test]
fn streamer_mode_hides_temperature() {
    let rows = HudRows { streamer_mode: true, ..default_rows() };
    assert_eq!(hud_base_size(&rows), (196, 12 + 5 * 18 + 26 + 10));
}

#[test]
fn no_frametime_no_sparkline() {
    let rows = HudRows {
        show_fps: false,
        show_frametime: false,
        show_gpu_usage: false,
        show_cpu_usage: false,
        show_gpu_temp: false,
        show_vram: true,
        show_ram: true,
        streamer_mode: false,
    };
    assert_eq!(hud_base_size(&rows), (196, 12 + 3 * 18 + 10));
}

#[test]
fn corners_keep_the_margin() {
    let (sw, sh, w, h) = (1920, 1080, 196, 156);
    assert!(overlay_origin_fits(w, h, sw, sh));
    assert_eq!(overlay_origin(OverlayPosition::TopLeft, w, h, sw, sh), (MARGIN, MARGIN));
    assert_eq!(overlay_origin(OverlayPosition::TopRight, w, h, sw, sh), (1920 - 196 - 14, 14));
    assert_eq!(overlay_origin(OverlayPosition::BottomLeft, w, h, sw, sh), (14, 1080 - 156 - 14));
    assert_eq!(overlay_origin(OverlayPosition::BottomRight, w, h, sw, sh), (1710, 910));
}

#[test]
fn absurd_sizes_do_not_fit() {
    assert!(!overlay_origin_fits(i32::MAX, 10, i32::MIN, 10));
    assert!(!overlay_origin_fits(10, 10, i32::MIN + 5, 100));
}
