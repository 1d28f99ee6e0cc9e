//! Overlay layout: which rows the HUD shows, its unscaled size and where a
//! HUD of a given size sits on the screen.
use vstd::prelude::*;

verus! {

/// The screen corner the overlay sits in.
#[derive(Debug, Clone, Copy, PartialEq, Eq, Structural)]
pub enum OverlayPosition {
    TopLeft,
    TopRight,
    BottomLeft,
    BottomRight,
}

/// Distance of the HUD from the screen edges, in pixels.
pub const MARGIN: i32 = 14;

/// Width of the HUD at scale 1, in pixels.
pub const BASE_W: i32 = 196;

/// Height of one HUD row, in pixels.
pub const ROW_H: i32 = 18;

/// Height of the frame-time sparkline, in pixels.
pub const SPARK_H: i32 = 26;

/// The rows that the overlay configuration switches on.
#[derive(Debug, Clone, Copy, PartialEq, Eq, Structural)]
pub struct HudRows {
    pub show_fps: bool,
    pub show_frametime: bool,
    pub show_gpu_usage: bool,
    pub show_cpu_usage: bool,
    pub show_gpu_temp: bool,
    pub show_vram: bool,
    pub show_ram: bool,
    pub streamer_mode: bool,
}

/// The number of rows the HUD draws: the title row, plus one per metric
/// switched on; the GPU temperature is hidden in streamer mode.
pub open spec fn row_count(r: HudRows) -> int {
    1 + (if r.show_fps {
        1int
    } else {
        0
    }) + (if r.show_frametime {
        1int
    } else {
        0
    }) + (if r.show_gpu_usage {
        1int
    } else {
        0
    }) + (if r.show_cpu_usage {
        1int
    } else {
        0
    }) + (if r.show_gpu_temp && !r.streamer_mode {
        1int
    } else {
        0
    }) + (if r.show_vram {
        1int
    } else {
        0
    }) + (if r.show_ram {
        1int
    } else {
        0
    })
}

/// The HUD's height at scale 1: 12 pixels of top padding, the rows, the
/// sparkline when frame times are shown, and 10 pixels of bottom padding.
pub open spec fn base_height(r: HudRows) -> int {
    12 + row_count(r) * ROW_H + (if r.show_frametime {
        SPARK_H as int
    } else {
        0
    }) + 10
}

/// The HUD's unscaled size: its width at scale 1 and its height.
pub fn hud_base_size(rows: &HudRows) -> (r: (i32, i32))
    ensures
        r.0 == BASE_W,
        r.1 as int == base_height(*rows),
{
    let mut n: i32 = 1;
    if rows.show_fps {
        n = n + 1;
    }
    if rows.show_frametime {
        n = n + 1;
    }
    if rows.show_gpu_usage {
        n = n + 1;
    }
    if rows.show_cpu_usage {
        n = n + 1;
    }
    if rows.show_gpu_temp && !rows.streamer_mode {
        n = n + 1;
    }
    if rows.show_vram {
        n = n + 1;
    }
    if rows.show_ram {
        n = n + 1;
    }
    let spark = if rows.show_frametime {
        SPARK_H
    } else {
        0
    };
    (BASE_W, 12 + n * ROW_H + spark + 10)
}

/// The HUD's height at scale 1 is 40 pixels with every metric off (padding
/// and the title row); each metric row switched on adds 18 pixels, the frame
/// times 18 more for the sparkline, and the GPU temperature nothing in
/// streamer mode.
pub proof fn lemma_hud_height_by_row(r: HudRows)
    ensures
        base_height(
            (HudRows {
                show_fps: false,
                show_frametime: false,
                show_gpu_usage: false,
                show_cpu_usage: false,
                show_gpu_temp: false,
                show_vram: false,
                show_ram: false,
                streamer_mode: r.streamer_mode,
            }),
        ) == 40,
        base_height((HudRows { show_fps: true, ..r })) == base_height(
            (HudRows { show_fps: false, ..r }),
        ) + 18,
        base_height((HudRows { show_frametime: true, ..r })) == base_height(
            (HudRows { show_frametime: false, ..r }),
        ) + 18 + 26,
        base_height((HudRows { show_gpu_usage: true, ..r })) == base_height(
            (HudRows { show_gpu_usage: false, ..r }),
        ) + 18,
        base_height((HudRows { show_cpu_usage: true, ..r })) == base_height(
            (HudRows { show_cpu_usage: false, ..r }),
        ) + 18,
        base_height((HudRows { show_gpu_temp: true, ..r })) == base_height(
            (HudRows { show_gpu_temp: false, ..r }),
        ) + if r.streamer_mode {
            0int
        } else {
            18int
        },
        base_height((HudRows { show_vram: true, ..r })) == base_height(
            (HudRows { show_vram: false, ..r }),
        ) + 18,
        base_height((HudRows { show_ram: true, ..r })) == base_height(
            (HudRows { show_ram: false, ..r }),
        ) + 18,
{
}

/// The top-left corner of a `w` x `h` HUD on a `sw` x `sh` screen.
pub open spec fn origin(pos: OverlayPosition, w: int, h: int, sw: int, sh: int) -> (int, int) {
    match pos {
        OverlayPosition::TopLeft => (MARGIN as int, MARGIN as int),
        OverlayPosition::TopRight => (sw - w - MARGIN, MARGIN as int),
        OverlayPosition::BottomLeft => (MARGIN as int, sh - h - MARGIN),
        OverlayPosition::BottomRight => (sw - w - MARGIN, sh - h - MARGIN),
    }
}

/// The corner coordinates fit an `i32` (they do for any real screen and HUD).
pub open spec fn origin_fits(w: i32, h: i32, sw: i32, sh: i32) -> bool {
    &&& i32::MIN <= sw - w <= i32::MAX
    &&& i32::MIN <= sw - w - MARGIN <= i32::MAX
    &&& i32::MIN <= sh - h <= i32::MAX
    &&& i32::MIN <= sh - h - MARGIN <= i32::MAX
}

/// Places the HUD in its corner, `MARGIN` pixels from the screen edges.
pub fn overlay_origin(pos: OverlayPosition, w: i32, h: i32, sw: i32, sh: i32) -> (r: (i32, i32))
    requires
        origin_fits(w, h, sw, sh),
    ensures
        (r.0 as int, r.1 as int) == origin(pos, w as int, h as int, sw as int, sh as int),
{
    match pos {
        OverlayPosition::TopLeft => (MARGIN, MARGIN),
        OverlayPosition::TopRight => (sw - w - MARGIN, MARGIN),
        OverlayPosition::BottomLeft => (MARGIN, sh - h - MARGIN),
        OverlayPosition::BottomRight => (sw - w - MARGIN, sh - h - MARGIN),
    }
}

/// Whether the corner coordinates fit an `i32`.
pub fn overlay_origin_fits(w: i32, h: i32, sw: i32, sh: i32) -> (r: bool)
    ensures
        r == origin_fits(w, h, sw, sh),
{
    let dx = sw as i64 - w as i64;
    let dy = sh as i64 - h as i64;
    let x = dx - MARGIN as i64;
    let y = dy - MARGIN as i64;
    let lo = i32::MIN as i64;
    let hi = i32::MAX as i64;
    lo <= dx && dx <= hi && lo <= x && x <= hi && lo <= dy && dy <= hi && lo <= y && y <= hi
}

} // verus!
