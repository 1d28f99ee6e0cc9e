//! Detected games: the entry each store scan makes of what it read, and the
//! de-duplication of the combined list.
//!
//! The scans themselves (directory listings, manifest files, registry keys)
//! are performed by the caller, which hands the values it read in; where a
//! scan falls back to looking for an executable in the install directory,
//! the caller does that look-up (with `games::pick_exe`) and hands its result
//! in as `found_exe`.
use vstd::prelude::*;
use crate::games::{GamePlatform, SteamManifest, ea_display_name, ea_name_from_folder,
    icon_exe_path, exe_from_display_icon, is_first_occurrence, keep_first_paths, likely_game,
    is_likely_game, string_views};
use crate::text::unicode_lowercase;

verus! {

/// A detected game. `id` and `preset_id` are UUIDs' 128-bit values;
/// `last_played` is Unix seconds and nanoseconds.
pub struct GameEntry {
    pub id: u128,
    pub name: String,
    pub exe_path: String,
    pub icon_path: Option<String>,
    pub platform: GamePlatform,
    pub last_played: Option<(i64, u32)>,
    pub install_size_mb: Option<u64>,
    pub preset_id: Option<u128>,
}

/// A version 4 (random) UUID of the RFC 4122 variant: version nibble 4 and
/// variant bits `10`.
pub open spec fn is_random_uuid(v: u128) -> bool {
    &&& (v >> 76u128) & 0xf == 4
    &&& (v >> 62u128) & 3 == 2
}

/// Calls `uuid::Uuid::new_v4` and converts it with `as_u128`. The value is
/// random; the claim is only that its version and variant bits are those of
/// a random UUID (the source masks them in). The call panics when the
/// operating system's random source fails.
#[verifier::external_body]
fn new_game_id() -> (r: u128)
    ensures
        is_random_uuid(r),
{
    uuid::Uuid::new_v4().as_u128()
}

/// A fresh entry with a new random id and nothing known of when it was last
/// played, its size or its preset.
fn new_entry(name: String, exe_path: String, icon_path: Option<String>, platform: GamePlatform) -> (r:
    GameEntry)
    ensures
        fresh_entry(r, name@, exe_path@, opt_view(icon_path), platform),
{
    GameEntry {
        id: new_game_id(),
        name,
        exe_path,
        icon_path,
        platform,
        last_played: None,
        install_size_mb: None,
        preset_id: None,
    }
}

pub open spec fn opt_view(s: Option<String>) -> Option<Seq<char>> {
    match s {
        Some(t) => Some(t@),
        None => None,
    }
}

/// `e` is a newly detected entry with this name, executable, icon and
/// platform: a random id and no play time, size or preset.
pub open spec fn fresh_entry(
    e: GameEntry,
    name: Seq<char>,
    exe_path: Seq<char>,
    icon_path: Option<Seq<char>>,
    platform: GamePlatform,
) -> bool {
    &&& is_random_uuid(e.id)
    &&& e.name@ == name
    &&& e.exe_path@ == exe_path
    &&& opt_view(e.icon_path) == icon_path
    &&& e.platform == platform
    &&& e.last_played is None
    &&& e.install_size_mb is None
    &&& e.preset_id is None
}

/// The first of two readings that succeeded.
pub open spec fn first_read(a: Option<Seq<char>>, b: Option<Seq<char>>) -> Option<Seq<char>> {
    match a {
        Some(x) => Some(x),
        None => b,
    }
}

fn first_read_of(a: Option<String>, b: Option<String>) -> (r: Option<String>)
    ensures
        opt_view(r) == first_read(opt_view(a), opt_view(b)),
{
    match a {
        Some(x) => Some(x),
        None => b,
    }
}

/// The game a Steam app manifest describes: the executable found in its
/// install directory `game_dir`, or the directory itself.
pub fn steam_entry(manifest: SteamManifest, game_dir: String, found_exe: Option<String>) -> (r:
    GameEntry)
    ensures
        fresh_entry(
            r,
            manifest.name@,
            match found_exe {
                Some(x) => x@,
                None => game_dir@,
            },
            None,
            GamePlatform::Steam,
        ),
{
    let exe = match found_exe {
        Some(x) => x,
        None => game_dir,
    };
    new_entry(manifest.name, exe, None, GamePlatform::Steam)
}

/// The game an Epic manifest describes, from its `DisplayName`,
/// `InstallLocation` and `LaunchExecutable` strings (empty when absent):
/// none when the name or the location is empty. The executable is
/// `launch_path` (the location joined with the launch executable) when one
/// is named, else the one found in the location, else the location.
pub fn epic_entry(
    name: String,
    install_location: String,
    launch_exe: &str,
    launch_path: String,
    found_exe: Option<String>,
) -> (r: Option<GameEntry>)
    ensures
        match r {
            Some(e) => name@.len() > 0 && install_location@.len() > 0 && fresh_entry(
                e,
                name@,
                if launch_exe@.len() == 0 {
                    match found_exe {
                        Some(x) => x@,
                        None => install_location@,
                    }
                } else {
                    launch_path@
                },
                None,
                GamePlatform::Epic,
            ),
            None => name@.len() == 0 || install_location@.len() == 0,
        },
{
    if name.as_str().is_empty() || install_location.as_str().is_empty() {
        return None;
    }
    let exe = if launch_exe.is_empty() {
        match found_exe {
            Some(x) => x,
            None => install_location,
        }
    } else {
        launch_path
    };
    Some(new_entry(name, exe, None, GamePlatform::Epic))
}

/// What a GOG Galaxy game key holds, each value `None` when it could not be
/// read: the key's name, `GAMENAME`/`gameName`, `PATH`/`path` and
/// `EXE`/`GameEXE`.
pub struct GogReadings {
    pub subkey: String,
    pub game_name: Option<String>,
    pub game_name_alt: Option<String>,
    pub path: Option<String>,
    pub path_alt: Option<String>,
    pub exe: Option<String>,
    pub game_exe: Option<String>,
}

/// The executable a GOG key names: `EXE`, else `GameEXE` (the first that
/// could be read), when it is not empty.
pub open spec fn gog_listed(r: GogReadings) -> Option<Seq<char>> {
    match first_read(opt_view(r.exe), opt_view(r.game_exe)) {
        Some(x) => if x.len() > 0 {
            Some(x)
        } else {
            None
        },
        None => None,
    }
}

/// The install path a GOG key names: `PATH`, else `path`, else empty.
pub open spec fn gog_path(r: GogReadings) -> Seq<char> {
    match first_read(opt_view(r.path), opt_view(r.path_alt)) {
        Some(x) => x,
        None => Seq::empty(),
    }
}

/// The game name a GOG key names: `GAMENAME`, else `gameName`, else the
/// key's name.
pub open spec fn gog_name(r: GogReadings) -> Seq<char> {
    match first_read(opt_view(r.game_name), opt_view(r.game_name_alt)) {
        Some(x) => x,
        None => r.subkey@,
    }
}

/// The executable a GOG key names, if any; when there is none the caller
/// looks in the install path (`gog_install_path`) for one.
pub fn gog_listed_exe(r: &GogReadings) -> (x: Option<String>)
    ensures
        opt_view(x) == gog_listed(*r),
{
    match first_read_of(r.exe.clone(), r.game_exe.clone()) {
        Some(x) => if !x.as_str().is_empty() {
            Some(x)
        } else {
            None
        },
        None => None,
    }
}

/// The install path a GOG key names.
pub fn gog_install_path(r: &GogReadings) -> (p: String)
    ensures
        p@ == gog_path(*r),
{
    match first_read_of(r.path.clone(), r.path_alt.clone()) {
        Some(x) => x,
        None => String::new(),
    }
}

/// The game a GOG key describes: none when its name or install path is
/// empty. The executable is the one the key names, else `found_exe` (the
/// one found in the install path), else the install path.
pub fn gog_entry(r: GogReadings, found_exe: Option<String>) -> (e: Option<GameEntry>)
    ensures
        match e {
            Some(g) => gog_name(r).len() > 0 && gog_path(r).len() > 0 && fresh_entry(
                g,
                gog_name(r),
                match gog_listed(r) {
                    Some(x) => x,
                    None => match found_exe {
                        Some(x) => x@,
                        None => gog_path(r),
                    },
                },
                None,
                GamePlatform::Gog,
            ),
            None => gog_name(r).len() == 0 || gog_path(r).len() == 0,
        },
{
    let listed = gog_listed_exe(&r);
    let path = gog_install_path(&r);
    let name = match first_read_of(r.game_name, r.game_name_alt) {
        Some(x) => x,
        None => r.subkey,
    };
    if name.as_str().is_empty() || path.as_str().is_empty() {
        return None;
    }
    let exe = match listed {
        Some(x) => x,
        None => match found_exe {
            Some(x) => x,
            None => path.clone(),
        },
    };
    Some(new_entry(name, exe, None, GamePlatform::Gog))
}

/// The game an EA App install folder holds: the folder name with `_` and `-`
/// as spaces, and the executable found in it, else the folder's path.
pub fn ea_entry(folder_name: &str, folder_path: String, found_exe: Option<String>) -> (r: GameEntry)
    ensures
        fresh_entry(
            r,
            ea_display_name(folder_name@),
            match found_exe {
                Some(x) => x@,
                None => folder_path@,
            },
            None,
            GamePlatform::Ea,
        ),
{
    let name = ea_name_from_folder(folder_name);
    let exe = match found_exe {
        Some(x) => x,
        None => folder_path,
    };
    new_entry(name, exe, None, GamePlatform::Ea)
}

/// The game an uninstall-registry entry describes, from its `DisplayName`,
/// `InstallLocation` and `DisplayIcon` values (`None` when unreadable):
/// none without a display name or when the name does not look like a game.
/// The executable is the one found in the install location (`found_exe`),
/// else the location, or, without a location, the path in the icon value;
/// the icon value is kept as the icon path.
pub fn uninstall_entry(
    display_name: Option<String>,
    install_location: Option<String>,
    display_icon: Option<String>,
    found_exe: Option<String>,
) -> (r: Option<GameEntry>)
    ensures
        ({
            let loc = match opt_view(install_location) {
                Some(l) => l,
                None => Seq::empty(),
            };
            let icon = match opt_view(display_icon) {
                Some(i) => i,
                None => Seq::empty(),
            };
            match display_name {
                None => r is None,
                Some(n) => if likely_game(unicode_lowercase(n@)) {
                    r matches Some(e) && fresh_entry(
                        e,
                        n@,
                        if loc.len() > 0 {
                            match found_exe {
                                Some(x) => x@,
                                None => loc,
                            }
                        } else {
                            icon_exe_path(icon)
                        },
                        Some(icon),
                        GamePlatform::Custom,
                    )
                } else {
                    r is None
                },
            }
        }),
{
    let name = match display_name {
        Some(n) => n,
        None => return None,
    };
    if !is_likely_game(name.as_str()) {
        return None;
    }
    let loc = match install_location {
        Some(l) => l,
        None => String::new(),
    };
    let icon = match display_icon {
        Some(i) => i,
        None => String::new(),
    };
    let exe = if !loc.as_str().is_empty() {
        match found_exe {
            Some(x) => x,
            None => loc,
        }
    } else {
        exe_from_display_icon(icon.as_str())
    };
    Some(new_entry(name, exe, Some(icon), GamePlatform::Custom))
}

/// The de-duplication key of an entry: its executable path, lowercased.
pub open spec fn game_key(g: GameEntry) -> Seq<char> {
    unicode_lowercase(g.exe_path@)
}

/// The de-duplication key of each entry.
pub open spec fn exe_keys(gs: Seq<GameEntry>) -> Seq<Seq<char>> {
    gs.map_values(|g: GameEntry| game_key(g))
}

/// The entries whose key no earlier entry has, in their order.
pub open spec fn first_by_key(gs: Seq<GameEntry>, keys: Seq<Seq<char>>) -> Seq<GameEntry>
    decreases gs.len(),
{
    if gs.len() == 0 {
        Seq::empty()
    } else {
        let prev = first_by_key(gs.drop_last(), keys);
        if is_first_occurrence(keys, gs.len() - 1) {
            prev.push(gs.last())
        } else {
            prev
        }
    }
}

/// The detected games without repeats: of the entries whose executable
/// paths are equal once lowercased, only the first is kept; the order is
/// kept.
pub fn dedup_games(games: Vec<GameEntry>) -> (r: Vec<GameEntry>)
    ensures
        r@ == first_by_key(games@, exe_keys(games@)),
{
    let n = games.len();
    let mut paths: Vec<String> = Vec::new();
    for i in 0..n
        invariant
            n == games@.len(),
            paths@.len() == i,
            forall|j: int| 0 <= j < i ==> #[trigger] paths@[j] == games@[j].exe_path,
    {
        paths.push(games[i].exe_path.clone());
    }
    let keep = keep_first_paths(&paths);
    let ghost keys = exe_keys(games@);
    assert(string_views(paths@).map_values(|s: Seq<char>| unicode_lowercase(s)) =~= keys);
    let ghost all = games@;
    let mut rest = games;
    let mut out: Vec<GameEntry> = Vec::new();
    let mut i: usize = 0;
    while i < n
        invariant
            n == all.len(),
            i <= n,
            keep@.len() == n,
            keys == exe_keys(all),
            forall|k: int| 0 <= k < n ==> keep@[k] == is_first_occurrence(keys, k),
            rest@ == all.skip(i as int),
            out@ == first_by_key(all.take(i as int), keys),
        decreases n - i,
    {
        let g = rest.remove(0);
        assert(all.take(i + 1).drop_last() =~= all.take(i as int));
        assert(g == all[i as int]);
        if keep[i] {
            out.push(g);
        }
        assert(rest@ =~= all.skip(i + 1));
        i += 1;
    }
    assert(all.take(n as int) =~= all);
    out
}

/// Every entry of `r` is one of the first `m` entries of `gs`.
pub open spec fn drawn_from(gs: Seq<GameEntry>, r: Seq<GameEntry>, m: int) -> bool {
    forall|i: int| 0 <= i < r.len() ==> exists|k: int| 0 <= k < m && gs[k] == #[trigger] r[i]
}

/// No two entries of `r` have the same key.
pub open spec fn keys_distinct(r: Seq<GameEntry>) -> bool {
    forall|i: int, j: int|
        0 <= i < j < r.len() ==> game_key(#[trigger] r[i]) != game_key(#[trigger] r[j])
}

/// Every key of the first `m` entries of `gs` is the key of an entry of `r`.
pub open spec fn keys_covered(gs: Seq<GameEntry>, r: Seq<GameEntry>, m: int) -> bool {
    forall|k: int|
        0 <= k < m ==> exists|i: int| 0 <= i < r.len() && game_key(r[i]) == #[trigger] game_key(gs[k])
}

/// De-duplication keeps exactly one entry per key: every kept entry is one
/// of the detected entries, no two kept entries have the same lowercased
/// executable path, and every detected key is kept.
pub proof fn lemma_dedup_one_per_key(gs: Seq<GameEntry>)
    ensures
        drawn_from(gs, first_by_key(gs, exe_keys(gs)), gs.len() as int),
        keys_distinct(first_by_key(gs, exe_keys(gs))),
        keys_covered(gs, first_by_key(gs, exe_keys(gs)), gs.len() as int),
{
    lemma_dedup_drawn(gs, gs.len() as int);
    lemma_dedup_distinct(gs, gs.len() as int);
    lemma_dedup_covered(gs, gs.len() as int);
    assert(gs.take(gs.len() as int) =~= gs);
}

proof fn lemma_dedup_drawn(gs: Seq<GameEntry>, m: int)
    requires
        0 <= m <= gs.len(),
    ensures
        drawn_from(gs, first_by_key(gs.take(m), exe_keys(gs)), m),
    decreases m,
{
    if m > 0 {
        let keys = exe_keys(gs);
        lemma_dedup_drawn(gs, m - 1);
        assert(gs.take(m).drop_last() =~= gs.take(m - 1));
        let prev = first_by_key(gs.take(m - 1), keys);
        let r = first_by_key(gs.take(m), keys);
        assert forall|i: int| 0 <= i < r.len() implies exists|k: int|
            0 <= k < m && gs[k] == #[trigger] r[i] by {
            if i < prev.len() {
                assert(r[i] == prev[i]);
                let k = choose|k: int| 0 <= k < m - 1 && gs[k] == #[trigger] prev[i];
                assert(gs[k] == r[i]);
            } else {
                assert(gs[m - 1] == r[i]);
            }
        }
    }
}

proof fn lemma_dedup_distinct(gs: Seq<GameEntry>, m: int)
    requires
        0 <= m <= gs.len(),
    ensures
        keys_distinct(first_by_key(gs.take(m), exe_keys(gs))),
    decreases m,
{
    if m > 0 {
        let keys = exe_keys(gs);
        lemma_dedup_distinct(gs, m - 1);
        lemma_dedup_drawn(gs, m - 1);
        assert(gs.take(m).drop_last() =~= gs.take(m - 1));
        let prev = first_by_key(gs.take(m - 1), keys);
        let r = first_by_key(gs.take(m), keys);
        if is_first_occurrence(keys, m - 1) {
            assert forall|i: int, j: int| 0 <= i < j < r.len() implies game_key(#[trigger] r[i])
                != game_key(#[trigger] r[j]) by {
                assert(r[i] == prev[i]);
                if j == r.len() - 1 {
                    let k = choose|k: int| 0 <= k < m - 1 && gs[k] == #[trigger] prev[i];
                    assert(keys[k] == game_key(gs[k]));
                    assert(keys[m - 1] == game_key(gs[m - 1]));
                    assert(keys[k] != keys[m - 1]);
                } else {
                    assert(r[j] == prev[j]);
                }
            }
        }
    }
}

proof fn lemma_dedup_covered(gs: Seq<GameEntry>, m: int)
    requires
        0 <= m <= gs.len(),
    ensures
        keys_covered(gs, first_by_key(gs.take(m), exe_keys(gs)), m),
    decreases m,
{
    if m > 0 {
        let keys = exe_keys(gs);
        lemma_dedup_covered(gs, m - 1);
        assert(gs.take(m).drop_last() =~= gs.take(m - 1));
        let prev = first_by_key(gs.take(m - 1), keys);
        let r = first_by_key(gs.take(m), keys);
        assert forall|k: int| 0 <= k < m implies exists|i: int|
            0 <= i < r.len() && game_key(r[i]) == #[trigger] game_key(gs[k]) by {
            let target = if k < m - 1 {
                k
            } else if is_first_occurrence(keys, m - 1) {
                m - 1
            } else {
                let j = choose|j: int| 0 <= j < m - 1 && #[trigger] keys[j] == keys[m - 1];
                assert(keys[j] == game_key(gs[j]));
                assert(keys[m - 1] == game_key(gs[m - 1]));
                j
            };
            if target < m - 1 {
                let i = choose|i: int| 0 <= i < prev.len() && game_key(prev[i]) == #[trigger] game_key(gs[target]);
                assert(r[i] == prev[i]);
            } else {
                assert(game_key(r[r.len() - 1]) == game_key(gs[k]));
            }
        }
    }
}

} // verus!
