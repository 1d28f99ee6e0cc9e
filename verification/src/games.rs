//! Game-library text handling: Steam VDF/ACF lines, the uninstall-registry
//! game filter, the choice of a game's executable and the de-duplication of
//! detected games.
use vstd::prelude::*;
use crate::text::{
    chars_of, chars_eq, contains, contains_exec, field, field_of, lines, lines_of, starts_with,
    starts_with_exec, string_of, to_lowercase, trim, trim_chars, unicode_lowercase, views,
};

verus! {

/// The store a game was found through.
#[derive(Debug, Clone, PartialEq, Eq, Structural)]
pub enum GamePlatform {
    Steam,
    Epic,
    Gog,
    Ea,
    BattleNet,
    Ubisoft,
    Custom,
}

/// The value of a VDF key/value line `"key"  "value"`: the text between the
/// third and the fourth double quote (to the end of the line when no fourth
/// quote follows), or empty when the line holds fewer than three quotes.
pub open spec fn vdf_value(line: Seq<char>) -> Seq<char> {
    match field(line, '"', 3) {
        Some(f) => f,
        None => Seq::empty(),
    }
}

fn vdf_value_of(line: &Vec<char>) -> (r: Vec<char>)
    ensures
        r@ == vdf_value(line@),
{
    match field_of(line, '"', 3) {
        Some(f) => f,
        None => Vec::new(),
    }
}

/// Extracts the value of a VDF key/value line.
pub fn extract_vdf_value(line: &str) -> (r: String)
    ensures
        r@ == vdf_value(line@),
{
    let v = chars_of(line);
    string_of(&vdf_value_of(&v))
}

/// `s` with every pair `\\` (left to right, without overlap) made one `\`.
pub open spec fn collapse_backslashes(s: Seq<char>) -> Seq<char>
    decreases s.len(),
{
    if s.len() >= 2 && s[0] == '\\' && s[1] == '\\' {
        seq!['\\'] + collapse_backslashes(s.skip(2))
    } else if s.len() == 0 {
        Seq::empty()
    } else {
        seq![s[0]] + collapse_backslashes(s.drop_first())
    }
}

fn collapse_backslashes_of(v: &Vec<char>) -> (r: Vec<char>)
    ensures
        r@ == collapse_backslashes(v@),
{
    let n = v.len();
    let mut out: Vec<char> = Vec::new();
    let mut i: usize = 0;
    assert(v@.skip(0) =~= v@);
    while i < n
        invariant
            i <= n == v@.len(),
            collapse_backslashes(v@) == out@ + collapse_backslashes(v@.skip(i as int)),
        decreases n - i,
    {
        let ghost rest = v@.skip(i as int);
        if i + 1 < n && v[i] == '\\' && v[i + 1] == '\\' {
            assert(rest.skip(2) =~= v@.skip(i + 2));
            out.push('\\');
            assert(out@ + collapse_backslashes(v@.skip(i + 2)) =~= (out@.drop_last() + seq!['\\'])
                + collapse_backslashes(v@.skip(i + 2)));
            i = i + 2;
        } else {
            assert(rest.drop_first() =~= v@.skip(i + 1));
            let c = v[i];
            out.push(c);
            assert(out@ + collapse_backslashes(v@.skip(i + 1)) =~= (out@.drop_last() + seq![c])
                + collapse_backslashes(v@.skip(i + 1)));
            i = i + 1;
        }
    }
    assert(v@.skip(n as int) =~= Seq::<char>::empty());
    assert(out@ + Seq::<char>::empty() =~= out@);
    out
}

/// The key that marks a library-folder line of `libraryfolders.vdf`.
pub open spec fn path_key() -> Seq<char> {
    seq!['"', 'p', 'a', 't', 'h', '"']
}

/// The library path that one line of `libraryfolders.vdf` contributes: the
/// value of a trimmed line that mentions `"path"`, with `\\` collapsed to `\`,
/// when that value is not empty.
pub open spec fn library_path_of_line(line: Seq<char>) -> Seq<Seq<char>> {
    let t = trim(line);
    if contains(t, path_key()) {
        match field(t, '"', 3) {
            Some(f) => {
                let p = collapse_backslashes(f);
                if p.len() > 0 {
                    seq![p]
                } else {
                    Seq::empty()
                }
            },
            None => Seq::empty(),
        }
    } else {
        Seq::empty()
    }
}

/// The library paths of a sequence of lines, in order.
pub open spec fn library_paths(ls: Seq<Seq<char>>) -> Seq<Seq<char>>
    decreases ls.len(),
{
    if ls.len() == 0 {
        Seq::empty()
    } else {
        library_paths(ls.drop_last()) + library_path_of_line(ls.last())
    }
}

/// The text views of a vector of strings.
pub open spec fn string_views(v: Seq<String>) -> Seq<Seq<char>> {
    v.map_values(|x: String| x@)
}

/// Reads the library folders listed in the text of `libraryfolders.vdf`.
pub fn parse_vdf_library_paths(content: &str) -> (r: Vec<String>)
    ensures
        string_views(r@) == library_paths(lines(content@)),
{
    let all = chars_of(content);
    let ls = lines_of(&all);
    let key = vec!['"', 'p', 'a', 't', 'h', '"'];
    assert(key@ =~= path_key());
    let mut out: Vec<String> = Vec::new();
    let n = ls.len();
    for i in 0..n
        invariant
            n == ls@.len(),
            key@ == path_key(),
            views(ls@) == lines(all@),
            all@ == content@,
            string_views(out@) == library_paths(views(ls@).take(i as int)),
    {
        let ghost before = string_views(out@);
        let t = trim_chars(&ls[i]);
        assert(views(ls@).take(i + 1).drop_last() =~= views(ls@).take(i as int));
        assert(views(ls@).take(i + 1).last() == ls@[i as int]@);
        if contains_exec(&t, &key) {
            match field_of(&t, '"', 3) {
                Some(f) => {
                    let p = collapse_backslashes_of(&f);
                    if p.len() > 0 {
                        out.push(string_of(&p));
                        assert(string_views(out@) =~= before + seq![p@]);
                    } else {
                        assert(before + Seq::<Seq<char>>::empty() =~= before);
                    }
                },
                None => {
                    assert(before + Seq::<Seq<char>>::empty() =~= before);
                },
            }
        } else {
            assert(before + Seq::<Seq<char>>::empty() =~= before);
        }
    }
    assert(views(ls@).take(n as int) =~= views(ls@));
    out
}

/// `s` with each run of equal adjacent elements kept once (`Vec::dedup`).
pub open spec fn dedup_adjacent(s: Seq<Seq<char>>) -> Seq<Seq<char>>
    decreases s.len(),
{
    if s.len() == 0 {
        s
    } else if s.len() >= 2 && s[s.len() - 2] == s.last() {
        dedup_adjacent(s.drop_last())
    } else {
        dedup_adjacent(s.drop_last()).push(s.last())
    }
}

/// The Steam libraries to scan: the Steam folder itself, then the folders
/// that `libraryfolders.vdf` lists, adjacent repeats dropped.
pub fn steam_library_paths(steam_path: String, vdf_content: &str) -> (r: Vec<String>)
    ensures
        string_views(r@) == dedup_adjacent(seq![steam_path@] + library_paths(lines(vdf_content@))),
{
    let listed = parse_vdf_library_paths(vdf_content);
    let ghost all = seq![steam_path@] + library_paths(lines(vdf_content@));
    let mut out: Vec<String> = Vec::new();
    out.push(steam_path);
    assert(all.take(1).drop_last() =~= Seq::<Seq<char>>::empty());
    assert(dedup_adjacent(all.take(1).drop_last()) =~= Seq::<Seq<char>>::empty());
    assert(all.take(1).last() == all[0]);
    assert(dedup_adjacent(all.take(1)) =~= seq![all[0]]);
    assert(string_views(out@) =~= dedup_adjacent(all.take(1)));
    let n = listed.len();
    for i in 0..n
        invariant
            n == listed@.len(),
            all.len() == n + 1,
            forall|j: int| 0 <= j < n ==> #[trigger] all[j + 1] == listed@[j]@,
            out@.len() > 0,
            string_views(out@) == dedup_adjacent(all.take(i + 1)),
            out@.last()@ == all[i as int],
    {
        let ghost t = all.take(i + 2);
        assert(t.drop_last() =~= all.take(i + 1));
        assert(t.last() == listed@[i as int]@);
        assert(t[t.len() - 2] == all[i as int]);
        let last = out.len() - 1;
        if !chars_eq(&chars_of(out[last].as_str()), &chars_of(listed[i].as_str())) {
            out.push(listed[i].clone());
            assert(string_views(out@) =~= string_views(out@.drop_last()).push(listed@[i as int]@));
        }
    }
    assert(all.take(n + 1) =~= all);
    out
}


/// The fields of a Steam `appmanifest_*.acf` that identify an installed game.
#[derive(Debug, Clone)]
pub struct SteamManifest {
    pub name: String,
    pub app_id: String,
    pub install_dir: String,
}

/// Why a manifest does not describe a game.
#[derive(Debug, Clone, PartialEq, Eq, Structural)]
pub enum ManifestError {
    /// The name or the install directory is missing or empty.
    Incomplete,
}

/// Which manifest key a trimmed line starts with: 1 for `"name"`, 2 for
/// `"appid"`, 3 for `"installdir"`, 0 for none (tested in that order).
pub open spec fn manifest_key(t: Seq<char>) -> int {
    if starts_with(t, seq!['"', 'n', 'a', 'm', 'e', '"']) {
        1
    } else if starts_with(t, seq!['"', 'a', 'p', 'p', 'i', 'd', '"']) {
        2
    } else if starts_with(
        t,
        seq!['"', 'i', 'n', 's', 't', 'a', 'l', 'l', 'd', 'i', 'r', '"'],
    ) {
        3
    } else {
        0
    }
}

/// The value that the last line carrying `key` gives it, or empty when no
/// line does.
pub open spec fn manifest_field(ls: Seq<Seq<char>>, key: int) -> Seq<char>
    decreases ls.len(),
{
    if ls.len() == 0 {
        Seq::empty()
    } else if manifest_key(trim(ls.last())) == key {
        vdf_value(trim(ls.last()))
    } else {
        manifest_field(ls.drop_last(), key)
    }
}

fn manifest_key_of(t: &Vec<char>) -> (r: u8)
    ensures
        r as int == manifest_key(t@),
{
    let name = vec!['"', 'n', 'a', 'm', 'e', '"'];
    let appid = vec!['"', 'a', 'p', 'p', 'i', 'd', '"'];
    let installdir = vec!['"', 'i', 'n', 's', 't', 'a', 'l', 'l', 'd', 'i', 'r', '"'];
    assert(name@ =~= seq!['"', 'n', 'a', 'm', 'e', '"']);
    assert(appid@ =~= seq!['"', 'a', 'p', 'p', 'i', 'd', '"']);
    assert(installdir@ =~= seq!['"', 'i', 'n', 's', 't', 'a', 'l', 'l', 'd', 'i', 'r', '"']);
    if starts_with_exec(t, &name) {
        1
    } else if starts_with_exec(t, &appid) {
        2
    } else if starts_with_exec(t, &installdir) {
        3
    } else {
        0
    }
}

/// Reads the name, app id and install directory out of the text of a Steam
/// app manifest; a later line overrides an earlier one with the same key.
/// Fails when the name or the install directory is empty.
pub fn parse_steam_manifest_text(content: &str) -> (r: Result<SteamManifest, ManifestError>)
    ensures
        ({
            let ls = lines(content@);
            let name = manifest_field(ls, 1);
            let install_dir = manifest_field(ls, 3);
            match r {
                Ok(m) => name.len() > 0 && install_dir.len() > 0 && m.name@ == name && m.app_id@
                    == manifest_field(ls, 2) && m.install_dir@ == install_dir,
                Err(e) => e == ManifestError::Incomplete && (name.len() == 0 || install_dir.len()
                    == 0),
            }
        }),
{
    let all = chars_of(content);
    let ls = lines_of(&all);
    let mut name: Vec<char> = Vec::new();
    let mut app_id: Vec<char> = Vec::new();
    let mut install_dir: Vec<char> = Vec::new();
    let n = ls.len();
    for i in 0..n
        invariant
            n == ls@.len(),
            views(ls@) == lines(all@),
            all@ == content@,
            name@ == manifest_field(views(ls@).take(i as int), 1),
            app_id@ == manifest_field(views(ls@).take(i as int), 2),
            install_dir@ == manifest_field(views(ls@).take(i as int), 3),
    {
        let t = trim_chars(&ls[i]);
        assert(views(ls@).take(i + 1).drop_last() =~= views(ls@).take(i as int));
        assert(views(ls@).take(i + 1).last() == ls@[i as int]@);
        let k = manifest_key_of(&t);
        if k == 1 {
            name = vdf_value_of(&t);
        } else if k == 2 {
            app_id = vdf_value_of(&t);
        } else if k == 3 {
            install_dir = vdf_value_of(&t);
        }
    }
    assert(views(ls@).take(n as int) =~= views(ls@));
    if name.len() == 0 || install_dir.len() == 0 {
        return Err(ManifestError::Incomplete);
    }
    Ok(
        SteamManifest {
            name: string_of(&name),
            app_id: string_of(&app_id),
            install_dir: string_of(&install_dir),
        },
    )
}

/// The words whose presence in a lowercased uninstall entry name marks it as
/// something other than a game.
pub open spec fn excluded_keywords() -> Seq<Seq<char>> {
    seq![
        "microsoft"@,
        "windows"@,
        "visual c++"@,
        "directx"@,
        "net framework"@,
        "redistributable"@,
        ".net"@,
        "driver"@,
        "runtime"@,
        "sdk"@,
        "update"@,
        "chrome"@,
        "firefox"@,
        "edge"@,
        "adobe"@,
        "office"@,
        "steam"@,
    ]
}

/// A lowercased name is likely a game when it contains none of the excluded
/// keywords.
pub open spec fn likely_game(name_lower: Seq<char>) -> bool {
    forall|k: int| 0 <= k < excluded_keywords().len() ==> !contains(name_lower, #[trigger] excluded_keywords()[k])
}

/// A lowercased uninstall entry name is taken for a game exactly when it
/// mentions none of: microsoft, windows, visual c++, directx, net framework,
/// redistributable, .net, driver, runtime, sdk, update, chrome, firefox,
/// edge, adobe, office, steam.
pub proof fn lemma_likely_game_keywords(name_lower: Seq<char>)
    ensures
        likely_game(name_lower) <==> !(contains(name_lower, "microsoft"@) || contains(
            name_lower,
            "windows"@,
        ) || contains(name_lower, "visual c++"@) || contains(name_lower, "directx"@) || contains(
            name_lower,
            "net framework"@,
        ) || contains(name_lower, "redistributable"@) || contains(name_lower, ".net"@) || contains(
            name_lower,
            "driver"@,
        ) || contains(name_lower, "runtime"@) || contains(name_lower, "sdk"@) || contains(
            name_lower,
            "update"@,
        ) || contains(name_lower, "chrome"@) || contains(name_lower, "firefox"@) || contains(
            name_lower,
            "edge"@,
        ) || contains(name_lower, "adobe"@) || contains(name_lower, "office"@) || contains(
            name_lower,
            "steam"@,
        )),
{
    let w = excluded_keywords();
    assert(w.len() == 17);
    assert(w[0] == "microsoft"@);
    assert(w[1] == "windows"@);
    assert(w[2] == "visual c++"@);
    assert(w[3] == "directx"@);
    assert(w[4] == "net framework"@);
    assert(w[5] == "redistributable"@);
    assert(w[6] == ".net"@);
    assert(w[7] == "driver"@);
    assert(w[8] == "runtime"@);
    assert(w[9] == "sdk"@);
    assert(w[10] == "update"@);
    assert(w[11] == "chrome"@);
    assert(w[12] == "firefox"@);
    assert(w[13] == "edge"@);
    assert(w[14] == "adobe"@);
    assert(w[15] == "office"@);
    assert(w[16] == "steam"@);
}

/// The uninstall-registry game filter on a name that is already lowercased.
pub fn is_likely_game_lowered(name_lower: &str) -> (r: bool)
    ensures
        r == likely_game(name_lower@),
{
    let words: [&str; 17] = [
        "microsoft",
        "windows",
        "visual c++",
        "directx",
        "net framework",
        "redistributable",
        ".net",
        "driver",
        "runtime",
        "sdk",
        "update",
        "chrome",
        "firefox",
        "edge",
        "adobe",
        "office",
        "steam",
    ];
    assert(words@.len() == 17);
    assert forall|k: int| 0 <= k < 17 implies words@[k]@ == excluded_keywords()[k] by {}
    let hay = chars_of(name_lower);
    for k in 0..17
        invariant
            hay@ == name_lower@,
            words@.len() == 17,
            forall|j: int| 0 <= j < 17 ==> words@[j]@ == excluded_keywords()[j],
            forall|j: int| 0 <= j < k ==> !contains(name_lower@, #[trigger] excluded_keywords()[j]),
    {
        let w = chars_of(words[k]);
        if contains_exec(&hay, &w) {
            assert(contains(name_lower@, excluded_keywords()[k as int]));
            return false;
        }
    }
    true
}

/// Whether an uninstall entry name looks like a game: its Unicode lowercase
/// form contains none of the excluded keywords.
pub fn is_likely_game(name: &str) -> (r: bool)
    ensures
        r == likely_game(unicode_lowercase(name@)),
{
    let lower = to_lowercase(name);
    is_likely_game_lowered(lower.as_str())
}


/// How strongly an executable is preferred as a game's launcher, given its
/// lowercased file stem and the lowercased name of its directory: 0 when the
/// stem is the directory name, 2 when it mentions `launcher`, `epic` or
/// `setup`, 1 otherwise. Lower is preferred.
pub open spec fn exe_rank(stem: Seq<char>, dir: Seq<char>) -> int {
    if stem == dir {
        0
    } else if contains(stem, "launcher"@) || contains(stem, "epic"@) || contains(stem, "setup"@) {
        2
    } else {
        1
    }
}

/// The preference rank of one executable (lowercased stem and directory name).
pub fn exe_preference_lowered(stem_lower: &str, dir_lower: &str) -> (r: u8)
    ensures
        r as int == exe_rank(stem_lower@, dir_lower@),
{
    let stem = chars_of(stem_lower);
    let dir = chars_of(dir_lower);
    if chars_eq(&stem, &dir) {
        0
    } else if contains_exec(&stem, &chars_of("launcher")) || contains_exec(&stem, &chars_of("epic"))
        || contains_exec(&stem, &chars_of("setup")) {
        2
    } else {
        1
    }
}

/// `i` is the executable that a stable sort by rank puts first: no other has
/// a lower rank and none before it has the same rank.
pub open spec fn first_best(ranks: Seq<int>, i: int) -> bool {
    &&& 0 <= i < ranks.len()
    &&& forall|j: int| 0 <= j < ranks.len() ==> ranks[i] <= #[trigger] ranks[j]
    &&& forall|j: int| 0 <= j < i ==> ranks[i] < #[trigger] ranks[j]
}

/// The ranks of lowercased executable stems against a lowercased directory name.
pub open spec fn exe_ranks(stems: Seq<Seq<char>>, dir: Seq<char>) -> Seq<int> {
    stems.map_values(|s: Seq<char>| exe_rank(s, dir))
}

/// Picks the preferred executable among lowercased stems; `None` when there
/// are none.
pub fn pick_exe_lowered(stems_lower: &Vec<String>, dir_lower: &str) -> (r: Option<usize>)
    ensures
        match r {
            None => stems_lower@.len() == 0,
            Some(i) => first_best(exe_ranks(string_views(stems_lower@), dir_lower@), i as int),
        },
{
    let n = stems_lower.len();
    if n == 0 {
        return None;
    }
    let ghost ranks = exe_ranks(string_views(stems_lower@), dir_lower@);
    let mut best: usize = 0;
    let mut best_rank = exe_preference_lowered(stems_lower[0].as_str(), dir_lower);
    for i in 1..n
        invariant
            n == stems_lower@.len(),
            ranks == exe_ranks(string_views(stems_lower@), dir_lower@),
            best < i,
            best_rank as int == ranks[best as int],
            forall|j: int| 0 <= j < i ==> ranks[best as int] <= #[trigger] ranks[j],
            forall|j: int| 0 <= j < best ==> ranks[best as int] < #[trigger] ranks[j],
    {
        let rank = exe_preference_lowered(stems_lower[i].as_str(), dir_lower);
        if rank < best_rank {
            best = i;
            best_rank = rank;
        }
    }
    Some(best)
}

/// The executable picked for a directory is the one named like the
/// directory when there is one; otherwise it is not a launcher, Epic or setup
/// program (a stem containing `launcher`, `epic` or `setup`) when some
/// candidate is not one; and it is the first of the candidates that are
/// equally preferred.
pub proof fn lemma_pick_prefers_the_game(stems: Seq<Seq<char>>, dir: Seq<char>, i: int, j: int)
    requires
        first_best(exe_ranks(stems, dir), i),
        0 <= j < stems.len(),
    ensures
        stems[j] == dir ==> stems[i] == dir,
        !contains(stems[j], "launcher"@) && !contains(stems[j], "epic"@) && !contains(
            stems[j],
            "setup"@,
        ) ==> stems[i] == dir || (!contains(stems[i], "launcher"@) && !contains(stems[i], "epic"@)
            && !contains(stems[i], "setup"@)),
        j < i ==> stems[j] != dir && (stems[i] == dir || contains(stems[j], "launcher"@)
            || contains(stems[j], "epic"@) || contains(stems[j], "setup"@)),
{
    let ranks = exe_ranks(stems, dir);
    assert(ranks[i] <= ranks[j]);
    assert(ranks[i] == exe_rank(stems[i], dir));
    assert(ranks[j] == exe_rank(stems[j], dir));
    if j < i {
        assert(ranks[i] < ranks[j]);
    }
}

/// Picks the preferred executable among file stems for the directory named
/// `dir_name`, comparing their Unicode lowercase forms.
pub fn pick_exe(stems: &Vec<String>, dir_name: &str) -> (r: Option<usize>)
    ensures
        match r {
            None => stems@.len() == 0,
            Some(i) => first_best(
                exe_ranks(
                    string_views(stems@).map_values(|s: Seq<char>| unicode_lowercase(s)),
                    unicode_lowercase(dir_name@),
                ),
                i as int,
            ),
        },
{
    let dir = to_lowercase(dir_name);
    let mut lowered: Vec<String> = Vec::new();
    let n = stems.len();
    for i in 0..n
        invariant
            n == stems@.len(),
            lowered@.len() == i,
            forall|j: int| 0 <= j < i ==> #[trigger] lowered@[j]@ == unicode_lowercase(stems@[j]@),
    {
        lowered.push(to_lowercase(stems[i].as_str()));
    }
    assert(string_views(lowered@) =~= string_views(stems@).map_values(
        |s: Seq<char>| unicode_lowercase(s),
    ));
    pick_exe_lowered(&lowered, dir.as_str())
}

/// Entry `i` is the first with its key.
pub open spec fn is_first_occurrence(keys: Seq<Seq<char>>, i: int) -> bool {
    forall|j: int| 0 <= j < i ==> keys[j] != keys[i]
}

/// For each key, whether it is the first with its value: the entries that a
/// de-duplication keeping first occurrences retains.
pub fn first_occurrences(keys: &Vec<String>) -> (r: Vec<bool>)
    ensures
        r@.len() == keys@.len(),
        forall|i: int| 0 <= i < keys@.len() ==> r@[i] == is_first_occurrence(string_views(keys@), i),
{
    let n = keys.len();
    let mut out: Vec<bool> = Vec::new();
    for i in 0..n
        invariant
            n == keys@.len(),
            out@.len() == i,
            forall|k: int| 0 <= k < i ==> out@[k] == is_first_occurrence(string_views(keys@), k),
    {
        let mut first = true;
        let mut j: usize = 0;
        while j < i
            invariant
                j <= i < n == keys@.len(),
                first == forall|k: int| 0 <= k < j ==> keys@[k]@ != keys@[i as int]@,
            decreases i - j,
        {
            if keys[j] == keys[i] {
                first = false;
            }
            j = j + 1;
        }
        let ghost sv = string_views(keys@);
        assert forall|k: int| 0 <= k < n implies sv[k] == keys@[k]@ by {}
        if first {
            assert forall|k: int| 0 <= k < i implies sv[k] != sv[i as int] by {
                assert(keys@[k]@ != keys@[i as int]@);
            }
        } else {
            proof {
                let k = choose|k: int| 0 <= k < i && keys@[k]@ == keys@[i as int]@;
                assert(sv[k] == sv[i as int]);
            }
        }
        out.push(first);
        assert(out@[i as int] == is_first_occurrence(string_views(keys@), i as int));
    }
    out
}

/// For each game executable path, whether it is the first with its Unicode
/// lowercase form (detected games are de-duplicated on that key).
pub fn keep_first_paths(paths: &Vec<String>) -> (r: Vec<bool>)
    ensures
        r@.len() == paths@.len(),
        forall|i: int|
            0 <= i < paths@.len() ==> r@[i] == is_first_occurrence(
                string_views(paths@).map_values(|s: Seq<char>| unicode_lowercase(s)),
                i,
            ),
{
    let mut keys: Vec<String> = Vec::new();
    let n = paths.len();
    for i in 0..n
        invariant
            n == paths@.len(),
            keys@.len() == i,
            forall|j: int| 0 <= j < i ==> #[trigger] keys@[j]@ == unicode_lowercase(paths@[j]@),
    {
        keys.push(to_lowercase(paths[i].as_str()));
    }
    assert(string_views(keys@) =~= string_views(paths@).map_values(
        |s: Seq<char>| unicode_lowercase(s),
    ));
    first_occurrences(&keys)
}


/// The executable named by an uninstall entry's `DisplayIcon` value: the text
/// before the first comma (the whole value when it has none), trimmed.
pub open spec fn icon_exe_path(icon: Seq<char>) -> Seq<char> {
    trim(field(icon, ',', 0).unwrap())
}

/// Reads the executable path out of a `DisplayIcon` value such as
/// `C:\Games\x.exe,0`.
pub fn exe_from_display_icon(icon: &str) -> (r: String)
    ensures
        r@ == icon_exe_path(icon@),
{
    let v = chars_of(icon);
    match field_of(&v, ',', 0) {
        Some(f) => string_of(&trim_chars(&f)),
        None => {
            proof {
                crate::text::lemma_find_char(icon@, ',');
            }
            String::new()
        },
    }
}

/// The display name of an EA App install folder: `_` and `-` become spaces.
pub open spec fn ea_display_name(folder: Seq<char>) -> Seq<char> {
    folder.map_values(|c: char| if c == '_' || c == '-' { ' ' } else { c })
}

/// Turns an EA App install folder name into a display name.
pub fn ea_name_from_folder(folder: &str) -> (r: String)
    ensures
        r@ == ea_display_name(folder@),
{
    let v = chars_of(folder);
    let mut out: Vec<char> = Vec::new();
    let n = v.len();
    for i in 0..n
        invariant
            n == v@.len(),
            v@ == folder@,
            out@ =~= ea_display_name(v@.take(i as int)),
    {
        let c = v[i];
        if c == '_' || c == '-' {
            out.push(' ');
        } else {
            out.push(c);
        }
        assert(ea_display_name(v@.take(i + 1)) =~= ea_display_name(v@.take(i as int)).push(
            if c == '_' || c == '-' { ' ' } else { c },
        ));
    }
    assert(v@.take(n as int) =~= v@);
    string_of(&out)
}

} // verus!
