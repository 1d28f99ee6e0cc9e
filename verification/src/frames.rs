//! The per-process frame-time ring buffer that ETW Present events feed, its
//! statistics, and the choice of the process whose frames are shown.
//!
//! Frame times are held in nanoseconds. The averages, frame rates and
//! percentiles that are computed from them in floating point are not part of
//! this library.
use vstd::prelude::*;
use std::collections::{HashMap, VecDeque};
use crate::text::{chars_of, eq_ignore_ascii_case, eq_ignore_ascii_case_exec};

verus! {

broadcast use vstd::seq_lib::group_to_multiset_ensures;

/// How many frames a process's buffer keeps.
pub const RING_BUFFER_CAPACITY: usize = 3600;

/// How many of the newest frame times the statistics hand out for the
/// sparkline.
pub const HISTORY_LEN: usize = 360;

/// The shortest frame time counted from ETW timestamps: 0.1 ms, in 100 ns
/// ticks.
pub const MIN_FRAME_TICKS: i64 = 1000;

/// The longest frame time counted from ETW timestamps: 2000 ms, in 100 ns
/// ticks.
pub const MAX_FRAME_TICKS: i64 = 20_000_000;

/// A ring buffer of the latest frame times of one process.
#[derive(Debug)]
pub struct FrameBuffer {
    frames: VecDeque<u64>,
    capacity: usize,
    last_present_ns: Option<u64>,
    last_present_qpc: Option<i64>,
}

/// What a frame buffer holds: its frame times (nanoseconds, oldest first),
/// its capacity and the last timestamps seen on each clock.
pub struct FrameBufferView {
    pub frames: Seq<u64>,
    pub capacity: nat,
    pub last_present_ns: Option<u64>,
    pub last_present_qpc: Option<i64>,
}

impl View for FrameBuffer {
    type V = FrameBufferView;

    closed spec fn view(&self) -> FrameBufferView {
        FrameBufferView {
            frames: self.frames@,
            capacity: self.capacity as nat,
            last_present_ns: self.last_present_ns,
            last_present_qpc: self.last_present_qpc,
        }
    }
}

/// The frames after one more frame time is added: when the buffer is full,
/// the oldest frame leaves first. (A buffer of capacity 0 counts as full
/// only while empty, so it keeps every frame.)
pub open spec fn pushed(frames: Seq<u64>, capacity: nat, ft: u64) -> Seq<u64> {
    if frames.len() == capacity && frames.len() > 0 {
        frames.drop_first().push(ft)
    } else {
        frames.push(ft)
    }
}

/// The frame time that two ETW timestamps (100 ns ticks) give: their
/// difference, clamped to 0.1 ms ..= 2000 ms, in nanoseconds.
pub open spec fn qpc_frame_ns(last: i64, now: i64) -> u64 {
    let d = now - last;
    let d = if d < i64::MIN {
        i64::MIN as int
    } else if d > i64::MAX {
        i64::MAX as int
    } else {
        d
    };
    let c = if d < MIN_FRAME_TICKS {
        MIN_FRAME_TICKS as int
    } else if d > MAX_FRAME_TICKS {
        MAX_FRAME_TICKS as int
    } else {
        d
    };
    (c * 100) as u64
}

impl FrameBuffer {
    /// An empty buffer that keeps at most `capacity` frames.
    pub fn new(capacity: usize) -> (r: Self)
        ensures
            r@.frames == Seq::<u64>::empty(),
            r@.capacity == capacity,
            r@.last_present_ns is None,
            r@.last_present_qpc is None,
    {
        FrameBuffer {
            frames: VecDeque::with_capacity(capacity),
            capacity,
            last_present_ns: None,
            last_present_qpc: None,
        }
    }

    fn push_frame(&mut self, ft: u64)
        ensures
            final(self)@.frames == pushed(old(self)@.frames, old(self)@.capacity, ft),
            final(self)@.capacity == old(self)@.capacity,
            final(self)@.last_present_ns == old(self)@.last_present_ns,
            final(self)@.last_present_qpc == old(self)@.last_present_qpc,
    {
        if self.frames.len() == self.capacity {
            let _ = self.frames.pop_front();
        }
        self.frames.push_back(ft);
    }

    /// Records a Present seen at `now_ns` on a monotonic nanosecond clock.
    /// The first Present only sets the clock and adds no frame; a later one
    /// adds the time since the previous Present (0 if the clock went back)
    /// and returns it.
    pub fn record_present(&mut self, now_ns: u64) -> (r: Option<u64>)
        ensures
            final(self)@.last_present_ns == Some(now_ns),
            final(self)@.last_present_qpc == old(self)@.last_present_qpc,
            final(self)@.capacity == old(self)@.capacity,
            match old(self)@.last_present_ns {
                None => r is None && final(self)@.frames == old(self)@.frames,
                Some(last) => {
                    let ft = if now_ns >= last {
                        (now_ns - last) as u64
                    } else {
                        0u64
                    };
                    r == Some(ft) && final(self)@.frames == pushed(
                        old(self)@.frames,
                        old(self)@.capacity,
                        ft,
                    )
                },
            },
    {
        let prev = self.last_present_ns;
        self.last_present_ns = Some(now_ns);
        match prev {
            None => None,
            Some(last) => {
                let ft = if now_ns >= last {
                    now_ns - last
                } else {
                    0
                };
                self.push_frame(ft);
                Some(ft)
            },
        }
    }

    /// Records a Present with an ETW timestamp in 100 ns ticks. The first
    /// Present only sets the clock and adds no frame; a later one adds the
    /// time since the previous Present, clamped to 0.1 ms ..= 2000 ms, and
    /// returns it (in nanoseconds).
    pub fn record_present_qpc(&mut self, ts_100ns: i64) -> (r: Option<u64>)
        ensures
            final(self)@.last_present_qpc == Some(ts_100ns),
            final(self)@.last_present_ns == old(self)@.last_present_ns,
            final(self)@.capacity == old(self)@.capacity,
            match old(self)@.last_present_qpc {
                None => r is None && final(self)@.frames == old(self)@.frames,
                Some(last) => r == Some(qpc_frame_ns(last, ts_100ns)) && final(self)@.frames
                    == pushed(old(self)@.frames, old(self)@.capacity, qpc_frame_ns(last, ts_100ns)),
            },
    {
        let prev = self.last_present_qpc;
        self.last_present_qpc = Some(ts_100ns);
        match prev {
            None => None,
            Some(last) => {
                let wide = ts_100ns as i128 - last as i128;
                let delta: i64 = if wide < i64::MIN as i128 {
                    i64::MIN
                } else if wide > i64::MAX as i128 {
                    i64::MAX
                } else {
                    wide as i64
                };
                let ticks = if delta < MIN_FRAME_TICKS {
                    MIN_FRAME_TICKS
                } else if delta > MAX_FRAME_TICKS {
                    MAX_FRAME_TICKS
                } else {
                    delta
                };
                let ft = (ticks as u64) * 100;
                self.push_frame(ft);
                Some(ft)
            },
        }
    }

    /// The number of frames held.
    pub fn frame_count(&self) -> (r: usize)
        ensures
            r == self@.frames.len(),
    {
        self.frames.len()
    }

    /// Whether the buffer holds no frame.
    pub fn is_empty(&self) -> (r: bool)
        ensures
            r == (self@.frames.len() == 0),
    {
        self.frames.len() == 0
    }

    /// The last ETW timestamp seen, if any.
    pub fn last_present_qpc(&self) -> (r: Option<i64>)
        ensures
            r == self@.last_present_qpc,
    {
        self.last_present_qpc
    }
}

/// A buffer with capacity `c > 0` never holds more than `c` frames, whatever
/// frames are added to it.
pub proof fn lemma_capacity_respected(frames: Seq<u64>, capacity: nat, ft: u64)
    requires
        capacity > 0,
        frames.len() <= capacity,
    ensures
        pushed(frames, capacity, ft).len() <= capacity,
        pushed(frames, capacity, ft).last() == ft,
        pushed(frames, capacity, ft).drop_last() == if frames.len() == capacity {
            frames.drop_first()
        } else {
            frames
        },
{
    assert(pushed(frames, capacity, ft).drop_last() =~= if frames.len() == capacity {
        frames.drop_first()
    } else {
        frames
    });
}


/// The frames after the frame times `xs` are added one by one, oldest first.
pub open spec fn pushed_all(frames: Seq<u64>, capacity: nat, xs: Seq<u64>) -> Seq<u64>
    decreases xs.len(),
{
    if xs.len() == 0 {
        frames
    } else {
        pushed(pushed_all(frames, capacity, xs.drop_last()), capacity, xs.last())
    }
}

/// A buffer keeps the latest frames in arrival order: after the frame times
/// `xs` are added to a buffer with capacity `c > 0` that holds `frames`, it
/// holds the last `min(c, n)` of the `n` frame times of `frames + xs`,
/// oldest first, and so never more than `c`. From an empty buffer, that is
/// the last `min(c, xs.len())` of `xs`.
pub proof fn lemma_keeps_latest_frames(frames: Seq<u64>, capacity: nat, xs: Seq<u64>)
    requires
        capacity > 0,
        frames.len() <= capacity,
    ensures
        ({
            let all = frames + xs;
            let m = if all.len() < capacity {
                all.len()
            } else {
                capacity
            };
            pushed_all(frames, capacity, xs) == all.subrange(all.len() - m, all.len() as int)
        }),
        pushed_all(frames, capacity, xs).len() <= capacity,
    decreases xs.len(),
{
    let all = frames + xs;
    if xs.len() == 0 {
        assert(all =~= frames);
        assert(all.subrange(0, all.len() as int) =~= frames);
    } else {
        let p = xs.drop_last();
        let x = xs.last();
        lemma_keeps_latest_frames(frames, capacity, p);
        let prev = pushed_all(frames, capacity, p);
        let allp = frames + p;
        assert(all =~= allp.push(x));
        let n = allp.len();
        if n < capacity {
            assert(prev =~= allp);
            assert(all.subrange(0, all.len() as int) =~= allp.push(x));
        } else {
            assert(prev == allp.subrange(n - capacity, n as int));
            assert(prev.drop_first().push(x) =~= all.subrange(n + 1 - capacity, (n + 1) as int));
        }
    }
}

/// A buffer after an ETW Present with timestamp `ts` is recorded in it.
pub open spec fn present_recorded(b: FrameBufferView, ts: i64) -> FrameBufferView {
    FrameBufferView {
        frames: match b.last_present_qpc {
            None => b.frames,
            Some(last) => pushed(b.frames, b.capacity, qpc_frame_ns(last, ts)),
        },
        capacity: b.capacity,
        last_present_ns: b.last_present_ns,
        last_present_qpc: Some(ts),
    }
}

/// The buffer a process gets on its first Present.
pub open spec fn fresh_buffer() -> FrameBufferView {
    FrameBufferView {
        frames: Seq::empty(),
        capacity: RING_BUFFER_CAPACITY as nat,
        last_present_ns: None,
        last_present_qpc: None,
    }
}

/// Every buffer has a positive capacity and holds at most that many frames.
pub open spec fn buffers_bounded(m: Map<u32, FrameBuffer>) -> bool {
    forall|pid: u32|
        m.contains_key(pid) ==> (#[trigger] m[pid])@.capacity > 0 && m[pid]@.frames.len()
            <= m[pid]@.capacity
}

/// The frame buffers of the processes that presented frames, by process id.
pub struct FrameTracker {
    pub buffers: HashMap<u32, FrameBuffer>,
}

impl FrameTracker {
    /// A tracker with no process.
    pub fn new() -> (r: Self)
        ensures
            r.buffers@ == Map::<u32, FrameBuffer>::empty(),
            buffers_bounded(r.buffers@),
    {
        FrameTracker { buffers: HashMap::new() }
    }

    /// Records a frame Present of process `pid` at ETW timestamp `ts_100ns`:
    /// a process seen for the first time gets an empty buffer of
    /// `RING_BUFFER_CAPACITY` frames first. Other processes are untouched.
    pub fn record_present(&mut self, pid: u32, ts_100ns: i64)
        ensures
            final(self).buffers@.dom() == old(self).buffers@.dom().insert(pid),
            final(self).buffers@[pid]@ == present_recorded(
                if old(self).buffers@.contains_key(pid) {
                    old(self).buffers@[pid]@
                } else {
                    fresh_buffer()
                },
                ts_100ns,
            ),
            forall|q: u32|
                q != pid && old(self).buffers@.contains_key(q) ==> #[trigger] final(self).buffers@[q]
                    == old(self).buffers@[q],
            buffers_bounded(old(self).buffers@) ==> buffers_bounded(final(self).buffers@),
    {
        proof {
            broadcast use vstd::std_specs::hash::group_hash_axioms;
        }
        let mut buf = match self.buffers.remove(&pid) {
            Some(b) => b,
            None => FrameBuffer::new(RING_BUFFER_CAPACITY),
        };
        let ghost before = buf@;
        let _ = buf.record_present_qpc(ts_100ns);
        assert(buf@.frames =~= present_recorded(before, ts_100ns).frames);
        proof {
            if buffers_bounded(old(self).buffers@) {
                assert(before.capacity > 0 && before.frames.len() <= before.capacity);
                if let Some(last) = before.last_present_qpc {
                    lemma_capacity_respected(before.frames, before.capacity, qpc_frame_ns(last, ts_100ns));
                }
            }
        }
        self.buffers.insert(pid, buf);
        assert(self.buffers@.dom() =~= old(self).buffers@.dom().insert(pid));
    }

    /// Forgets the processes in `pids` (those that have exited).
    pub fn forget(&mut self, pids: &Vec<u32>)
        ensures
            final(self).buffers@ == old(self).buffers@.remove_keys(pids@.to_set()),
            buffers_bounded(old(self).buffers@) ==> buffers_bounded(final(self).buffers@),
    {
        proof {
            broadcast use vstd::std_specs::hash::group_hash_axioms;
        }
        let n = pids.len();
        for i in 0..n
            invariant
                n == pids@.len(),
                self.buffers@ == old(self).buffers@.remove_keys(pids@.take(i as int).to_set()),
        {
            let _ = self.buffers.remove(&pids[i]);
            proof {
                lemma_take_to_set(pids@, i as int);
            }
            assert(self.buffers@ =~= old(self).buffers@.remove_keys(pids@.take(i + 1).to_set()));
        }
        assert(pids@.take(n as int) =~= pids@);
    }
}

proof fn lemma_take_to_set(s: Seq<u32>, i: int)
    requires
        0 <= i < s.len(),
    ensures
        s.take(i + 1).to_set() == s.take(i).to_set().insert(s[i]),
{
    let t1 = s.take(i + 1);
    let t0 = s.take(i);
    assert forall|a: u32| t1.contains(a) <==> (t0.contains(a) || a == s[i]) by {
        if t1.contains(a) {
            let k = choose|k: int| 0 <= k < t1.len() && t1[k] == a;
            if k < i {
                assert(t0[k] == a);
            }
        }
        if t0.contains(a) {
            let k = choose|k: int| 0 <= k < t0.len() && t0[k] == a;
            assert(t1[k] == a);
        }
        if a == s[i] {
            assert(t1[i] == a);
        }
    }
    assert(t1.to_set() =~= t0.to_set().insert(s[i]));
}

/// Ascending order.
pub open spec fn is_sorted(s: Seq<u64>) -> bool {
    forall|i: int, j: int| 0 <= i <= j < s.len() ==> s[i] <= s[j]
}

/// The sum of a sequence of frame times.
pub open spec fn total(s: Seq<u64>) -> int
    decreases s.len(),
{
    if s.len() == 0 {
        0
    } else {
        total(s.drop_last()) + s.last()
    }
}

/// The newest `min(HISTORY_LEN, n)` of `n` frame times, oldest first.
pub open spec fn history_of(s: Seq<u64>) -> Seq<u64> {
    let k = if s.len() < HISTORY_LEN {
        s.len() as int
    } else {
        HISTORY_LEN as int
    };
    s.subrange(s.len() - k, s.len() as int)
}

/// What the frame statistics are computed from: all frame times in
/// ascending order, their sum, and the newest ones for the sparkline.
pub struct FrameStats {
    pub sorted_ns: Vec<u64>,
    pub total_ns: u128,
    pub history_ns: Vec<u64>,
}

fn insert_sorted(v: &mut Vec<u64>, x: u64)
    requires
        is_sorted(old(v)@),
    ensures
        is_sorted(final(v)@),
        final(v)@.to_multiset() == old(v)@.to_multiset().insert(x),
{
    let n = v.len();
    let mut p: usize = 0;
    while p < n && v[p] <= x
        invariant
            p <= n == v@.len(),
            forall|j: int| 0 <= j < p ==> v@[j] <= x,
        decreases n - p,
    {
        p = p + 1;
    }
    let ghost before = v@;
    assert(p == n || before[p as int] > x);
    v.insert(p, x);
    proof {
        vstd::seq_lib::to_multiset_insert(before, p as int, x);
        assert forall|i: int, j: int| 0 <= i <= j < v@.len() implies v@[i] <= v@[j] by {
            if j < p {
            } else if i < p && j == p {
            } else if i < p {
                assert(v@[j] == before[j - 1]);
                assert(before[p as int] > x);
            } else if i == p {
                if j > p {
                    assert(v@[j] == before[j - 1]);
                    assert(before[p as int] > x);
                    assert(before[p as int] <= before[j - 1]);
                }
            } else {
                assert(v@[i] == before[i - 1]);
                assert(v@[j] == before[j - 1]);
            }
        }
    }
}

impl FrameBuffer {
    /// The frame times in ascending order, their sum and the newest
    /// `min(HISTORY_LEN, n)` of them in arrival order; `None` when the buffer
    /// holds no frame.
    pub fn compute_stats(&self) -> (r: Option<FrameStats>)
        ensures
            match r {
                None => self@.frames.len() == 0,
                Some(st) => {
                    &&& self@.frames.len() > 0
                    &&& is_sorted(st.sorted_ns@)
                    &&& st.sorted_ns@.to_multiset() == self@.frames.to_multiset()
                    &&& st.total_ns as int == total(self@.frames)
                    &&& st.history_ns@ == history_of(self@.frames)
                },
            },
    {
        let n = self.frames.len();
        if n == 0 {
            return None;
        }
        let mut sorted: Vec<u64> = Vec::new();
        let mut sum: u128 = 0;
        let mut i: usize = 0;
        while i < n
            invariant
                i <= n == self.frames@.len(),
                is_sorted(sorted@),
                sorted@.to_multiset() == self.frames@.take(i as int).to_multiset(),
                sum as int == total(self.frames@.take(i as int)),
                sum as int <= i * 0xffff_ffff_ffff_ffffint,
            decreases n - i,
        {
            let x = self.frames[i];
            insert_sorted(&mut sorted, x);
            proof {
                let t = self.frames@.take(i + 1);
                assert(t =~= self.frames@.take(i as int).push(x));
                vstd::seq_lib::to_multiset_build(self.frames@.take(i as int), x);
                assert(t.drop_last() =~= self.frames@.take(i as int));
                assert((i + 1) * 0xffff_ffff_ffff_ffffint == i * 0xffff_ffff_ffff_ffffint
                    + 0xffff_ffff_ffff_ffffint) by (nonlinear_arith);
                assert(i * 0xffff_ffff_ffff_ffffint + 0xffff_ffff_ffff_ffffint
                    < 0x1_0000_0000_0000_0000_0000_0000_0000_0000int) by (nonlinear_arith)
                    requires
                        i < 0x1_0000_0000_0000_0000int,
                ;
            }
            sum = sum + x as u128;
            i = i + 1;
        }
        assert(self.frames@.take(n as int) =~= self.frames@);
        let k = if n < HISTORY_LEN {
            n
        } else {
            HISTORY_LEN
        };
        let mut history: Vec<u64> = Vec::new();
        let mut j = n - k;
        while j < n
            invariant
                n - k <= j <= n == self.frames@.len(),
                k <= n,
                history@ == self.frames@.subrange(n - k, j as int),
            decreases n - j,
        {
            history.push(self.frames[j]);
            assert(self.frames@.subrange(n - k, j + 1) =~= self.frames@.subrange(
                n - k,
                j as int,
            ).push(self.frames@[j as int]));
            j = j + 1;
        }
        Some(FrameStats { sorted_ns: sorted, total_ns: sum, history_ns: history })
    }
}


/// The executables whose frames are never shown: the shell, browsers,
/// launchers, chat clients and Sable itself.
pub open spec fn noise_exes() -> Seq<Seq<char>> {
    seq![
        "dwm.exe"@,
        "explorer.exe"@,
        "applicationframehost.exe"@,
        "searchhost.exe"@,
        "textinputhost.exe"@,
        "startmenuexperiencehost.exe"@,
        "shellexperiencehost.exe"@,
        "runtimebroker.exe"@,
        "chrome.exe"@,
        "msedge.exe"@,
        "firefox.exe"@,
        "brave.exe"@,
        "discord.exe"@,
        "spotify.exe"@,
        "steam.exe"@,
        "steamwebhelper.exe"@,
        "epicgameslauncher.exe"@,
        "eadesktop.exe"@,
        "battle.net.exe"@,
        "agent.exe"@,
        "sable.exe"@,
        "sable-service.exe"@,
        "sable-overlay.exe"@,
    ]
}

/// An executable name is noise when it equals one of `noise_exes`,
/// ignoring ASCII case.
pub open spec fn is_noise_name(exe: Seq<char>) -> bool {
    exists|k: int| 0 <= k < noise_exes().len() && eq_ignore_ascii_case(exe, #[trigger] noise_exes()[k])
}

/// Whether an executable name is one whose frames are never shown.
pub fn is_noise(exe: &str) -> (r: bool)
    ensures
        r == is_noise_name(exe@),
{
    let names: [&str; 23] = [
        "dwm.exe",
        "explorer.exe",
        "applicationframehost.exe",
        "searchhost.exe",
        "textinputhost.exe",
        "startmenuexperiencehost.exe",
        "shellexperiencehost.exe",
        "runtimebroker.exe",
        "chrome.exe",
        "msedge.exe",
        "firefox.exe",
        "brave.exe",
        "discord.exe",
        "spotify.exe",
        "steam.exe",
        "steamwebhelper.exe",
        "epicgameslauncher.exe",
        "eadesktop.exe",
        "battle.net.exe",
        "agent.exe",
        "sable.exe",
        "sable-service.exe",
        "sable-overlay.exe",
    ];
    assert forall|k: int| 0 <= k < 23 implies names@[k]@ == noise_exes()[k] by {}
    let e = chars_of(exe);
    for k in 0..23
        invariant
            e@ == exe@,
            names@.len() == 23,
            forall|j: int| 0 <= j < 23 ==> names@[j]@ == noise_exes()[j],
            forall|j: int| 0 <= j < k ==> !eq_ignore_ascii_case(exe@, #[trigger] noise_exes()[j]),
    {
        let n = chars_of(names[k]);
        if eq_ignore_ascii_case_exec(&e, &n) {
            assert(eq_ignore_ascii_case(exe@, noise_exes()[k as int]));
            return true;
        }
    }
    false
}

/// A process whose frames may be shown: it has frames and a non-empty
/// executable name that is not noise.
pub fn counts_as_target(has_frames: bool, name: &str) -> (r: bool)
    ensures
        r == (has_frames && name@.len() > 0 && !is_noise_name(name@)),
{
    has_frames && !name.is_empty() && !is_noise(name)
}

/// A game executable name that the catalogue keeps: non-empty and not noise.
pub fn counts_as_catalog_name(name: &str) -> (r: bool)
    ensures
        r == (name@.len() > 0 && !is_noise_name(name@)),
{
    !name.is_empty() && !is_noise(name)
}

/// A process that may be the one whose frames are shown.
#[derive(Debug, Clone)]
pub struct TargetCandidate {
    pub pid: u32,
    /// The last ETW timestamp of its frames (0 when none).
    pub last_present_qpc: i64,
    /// Its executable name.
    pub name: String,
    /// The executable is one of the detected games.
    pub in_catalog: bool,
    /// It owns the foreground window.
    pub is_foreground: bool,
}

/// A candidate counts in a search limited to catalogued games
/// (`only_catalog`), or in an open search.
pub open spec fn in_search(t: TargetCandidate, only_catalog: bool) -> bool {
    only_catalog ==> t.in_catalog
}

/// `i` is the last candidate of the search with the latest timestamp (what
/// `Iterator::max_by_key` returns).
pub open spec fn is_last_latest(c: Seq<TargetCandidate>, only_catalog: bool, i: int) -> bool {
    &&& 0 <= i < c.len()
    &&& in_search(c[i], only_catalog)
    &&& forall|j: int|
        0 <= j < c.len() && in_search(#[trigger] c[j], only_catalog) ==> c[j].last_present_qpc
            <= c[i].last_present_qpc
    &&& forall|j: int|
        i < j < c.len() && in_search(#[trigger] c[j], only_catalog) ==> c[j].last_present_qpc
            < c[i].last_present_qpc
}

/// The candidate that is in the games catalogue and in the foreground, the
/// first such; else the catalogued one with the latest frame (the last of
/// equals); none when no candidate is catalogued.
pub open spec fn picked_target(c: Seq<TargetCandidate>, r: Option<usize>) -> bool {
    match r {
        None => forall|j: int| 0 <= j < c.len() ==> !(#[trigger] c[j]).in_catalog,
        Some(i) => if exists|j: int|
            0 <= j < c.len() && (#[trigger] c[j]).in_catalog && c[j].is_foreground {
            &&& i < c.len()
            &&& c[i as int].in_catalog && c[i as int].is_foreground
            &&& forall|j: int| 0 <= j < i ==> !((#[trigger] c[j]).in_catalog && c[j].is_foreground)
        } else {
            is_last_latest(c, true, i as int)
        },
    }
}

fn last_latest(c: &Vec<TargetCandidate>, only_catalog: bool) -> (r: Option<usize>)
    ensures
        match r {
            None => forall|j: int| 0 <= j < c@.len() ==> !in_search(#[trigger] c@[j], only_catalog),
            Some(i) => is_last_latest(c@, only_catalog, i as int),
        },
{
    let mut best: Option<usize> = None;
    let n = c.len();
    for i in 0..n
        invariant
            n == c@.len(),
            match best {
                None => forall|j: int| 0 <= j < i ==> !in_search(#[trigger] c@[j], only_catalog),
                Some(b) => b < i && is_last_latest(c@.take(i as int), only_catalog, b as int),
            },
    {
        if !only_catalog || c[i].in_catalog {
            match best {
                None => {
                    best = Some(i);
                },
                Some(b) => {
                    if c[i].last_present_qpc >= c[b].last_present_qpc {
                        best = Some(i);
                    }
                },
            }
        }
        proof {
            let t = c@.take(i + 1);
            assert forall|j: int| 0 <= j < i implies t[j] == c@.take(i as int)[j] by {}
            assert(t[i as int] == c@[i as int]);
            match best {
                None => {},
                Some(b) => {
                    assert(is_last_latest(t, only_catalog, b as int));
                },
            }
        }
    }
    assert(c@.take(n as int) =~= c@);
    best
}

/// Picks the candidate whose frames are shown among catalogued games: the
/// first one in the foreground, else the one with the latest frame.
pub fn pick_target(scored: &Vec<TargetCandidate>) -> (r: Option<usize>)
    ensures
        picked_target(scored@, r),
{
    let n = scored.len();
    for i in 0..n
        invariant
            n == scored@.len(),
            forall|j: int| 0 <= j < i ==> !((#[trigger] scored@[j]).in_catalog && scored@[j].is_foreground),
    {
        if scored[i].in_catalog && scored[i].is_foreground {
            return Some(i);
        }
    }
    last_latest(scored, true)
}

/// Picks the process whose frames the overlay shows: the catalogued pick,
/// else, when no candidate is catalogued, the candidate with the latest
/// frame (the last of equals); none when there are no candidates.
pub fn choose_active_target(scored: &Vec<TargetCandidate>) -> (r: Option<usize>)
    ensures
        if exists|j: int| 0 <= j < scored@.len() && (#[trigger] scored@[j]).in_catalog {
            picked_target(scored@, r) && r is Some
        } else {
            match r {
                None => scored@.len() == 0,
                Some(i) => is_last_latest(scored@, false, i as int),
            }
        },
{
    match pick_target(scored) {
        Some(i) => Some(i),
        None => {
            let r = last_latest(scored, false);
            proof {
                if r is None && scored@.len() > 0 {
                    assert(!in_search(scored@[0], false));
                }
            }
            r
        },
    }
}

} // verus!
