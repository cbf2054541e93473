use vstd::prelude::*;

verus! {

/// A screen rectangle in pixels, as the accessibility tree reports it.
#[derive(PartialEq, Eq, Structural, Clone, Copy, Debug)]
pub struct Rect {
    pub left: i32,
    pub top: i32,
    pub right: i32,
    pub bottom: i32,
}

/// A rectangle relative to the monitor the overlay covers.
#[derive(PartialEq, Eq, Structural, Clone, Copy, Debug)]
pub struct LocalRect {
    pub left: i64,
    pub top: i64,
    pub right: i64,
    pub bottom: i64,
}

/// A connected monitor: its position on the desktop and its video mode's size.
#[derive(PartialEq, Eq, Structural, Clone, Copy, Debug)]
pub struct MonitorInfo {
    pub x: i32,
    pub y: i32,
    pub width: i32,
    pub height: i32,
}

/// The centre of `r` lies on `m` (right and bottom edges excluded).
pub open spec fn holds_center(r: Rect, m: MonitorInfo) -> bool {
    &&& 2 * (m.x as int) <= r.left + r.right < 2 * (m.x + m.width)
    &&& 2 * (m.y as int) <= r.top + r.bottom < 2 * (m.y + m.height)
}

pub open spec fn max_int(a: int, b: int) -> int {
    if a >= b {
        a
    } else {
        b
    }
}

pub open spec fn min_int(a: int, b: int) -> int {
    if a <= b {
        a
    } else {
        b
    }
}

/// The area that `r` and `m` share.
pub open spec fn overlap_area(r: Rect, m: MonitorInfo) -> int {
    let l = max_int(r.left as int, m.x as int);
    let t = max_int(r.top as int, m.y as int);
    let rr = min_int(r.right as int, m.x + m.width);
    let b = min_int(r.bottom as int, m.y + m.height);
    if rr > l && b > t {
        (rr - l) * (b - t)
    } else {
        0
    }
}

/// The first of `ms` that holds the centre of `r`.
pub open spec fn first_center(r: Rect, ms: Seq<MonitorInfo>) -> Option<int>
    decreases ms.len(),
{
    if ms.len() == 0 {
        None
    } else if holds_center(r, ms[0]) {
        Some(0)
    } else {
        match first_center(r, ms.drop_first()) {
            Some(i) => Some(i + 1),
            None => None,
        }
    }
}

/// Among the first `n` of `ms`, the earliest with the largest positive overlap,
/// and that overlap (0 when none overlaps).
pub open spec fn best_overlap(r: Rect, ms: Seq<MonitorInfo>, n: int) -> (Option<int>, int)
    decreases n,
{
    if n <= 0 {
        (None, 0)
    } else {
        let prev = best_overlap(r, ms, n - 1);
        let a = overlap_area(r, ms[n - 1]);
        if a > prev.1 {
            (Some(n - 1), a)
        } else {
            prev
        }
    }
}

/// The monitor the overlay should cover for `r`: the first holding its centre,
/// else the one sharing the most area with it, else none.
pub open spec fn monitor_for(r: Rect, ms: Seq<MonitorInfo>) -> Option<MonitorInfo> {
    match first_center(r, ms) {
        Some(i) => Some(ms[i]),
        None => match best_overlap(r, ms, ms.len() as int).0 {
            Some(i) => Some(ms[i]),
            None => None,
        },
    }
}

proof fn lemma_first_center_bounds(r: Rect, ms: Seq<MonitorInfo>)
    ensures
        first_center(r, ms) matches Some(i) ==> 0 <= i < ms.len() && holds_center(r, ms[i]),
        first_center(r, ms) is None ==> forall|k: int| 0 <= k < ms.len() ==> !holds_center(r, #[trigger] ms[k]),
        forall|k: int| 0 <= k < ms.len() && first_center(r, ms) == Some(k) ==> forall|j: int| 0 <= j < k ==> !holds_center(r, #[trigger] ms[j]),
    decreases ms.len(),
{
    if ms.len() > 0 {
        let t = ms.drop_first();
        lemma_first_center_bounds(r, t);
        if first_center(r, ms) is None {
            assert forall|k: int| 0 <= k < ms.len() implies !holds_center(r, #[trigger] ms[k]) by {
                if k > 0 {
                    assert(ms[k] == t[k - 1]);
                }
            }
        }
        assert forall|k: int| 0 <= k < ms.len() && first_center(r, ms) == Some(k) implies forall|
            j: int,
        | 0 <= j < k ==> !holds_center(r, #[trigger] ms[j]) by {
            assert forall|j: int| 0 <= j < k implies !holds_center(r, #[trigger] ms[j]) by {
                if j > 0 {
                    assert(ms[j] == t[j - 1]);
                }
            }
        }
    }
}

proof fn lemma_best_overlap_bounds(r: Rect, ms: Seq<MonitorInfo>, n: int)
    requires
        0 <= n <= ms.len(),
    ensures
        best_overlap(r, ms, n).0 matches Some(i) ==> 0 <= i < n,
        best_overlap(r, ms, n).1 >= 0,
    decreases n,
{
    if n > 0 {
        lemma_best_overlap_bounds(r, ms, n - 1);
    }
}

fn max_i64(a: i64, b: i64) -> (r: i64)
    ensures
        r == max_int(a as int, b as int),
{
    if a >= b {
        a
    } else {
        b
    }
}

fn min_i64(a: i64, b: i64) -> (r: i64)
    ensures
        r == min_int(a as int, b as int),
{
    if a <= b {
        a
    } else {
        b
    }
}

/// Whether the centre of `r` lies on `m`.
pub fn center_on(r: Rect, m: MonitorInfo) -> (b: bool)
    ensures
        b == holds_center(r, m),
{
    let cx = r.left as i64 + r.right as i64;
    let cy = r.top as i64 + r.bottom as i64;
    2 * (m.x as i64) <= cx && cx < 2 * (m.x as i64 + m.width as i64) && 2 * (m.y as i64) <= cy
        && cy < 2 * (m.y as i64 + m.height as i64)
}

/// The area that `r` and `m` share.
pub fn overlap(r: Rect, m: MonitorInfo) -> (a: i128)
    ensures
        a == overlap_area(r, m),
{
    let l = max_i64(r.left as i64, m.x as i64);
    let t = max_i64(r.top as i64, m.y as i64);
    let rr = min_i64(r.right as i64, m.x as i64 + m.width as i64);
    let b = min_i64(r.bottom as i64, m.y as i64 + m.height as i64);
    if rr > l && b > t {
        let w = (rr - l) as i128;
        let h = (b - t) as i128;
        assert(0 < w < 0x1_0000_0000 && 0 < h < 0x1_0000_0000);
        assert(w * h < 0x1_0000_0000 * 0x1_0000_0000) by (nonlinear_arith)
            requires
                0 < w < 0x1_0000_0000,
                0 < h < 0x1_0000_0000,
        ;
        w * h
    } else {
        0
    }
}

/// Finds the monitor that the overlay should cover to show `rect`.
pub fn find_monitor_for_rect(rect: Rect, monitors: &Vec<MonitorInfo>) -> (r: Option<
    MonitorInfo,
>)
    ensures
        r == monitor_for(rect, monitors@),
{
    let ghost ms = monitors@;
    let mut i: usize = 0;
    while i < monitors.len()
        invariant
            i <= monitors.len(),
            ms == monitors@,
            forall|k: int| 0 <= k < i ==> !holds_center(rect, #[trigger] ms[k]),
        decreases monitors.len() - i,
    {
        if center_on(rect, monitors[i]) {
            proof {
                lemma_first_center_bounds(rect, ms);
                if first_center(rect, ms) is None {
                    assert(!holds_center(rect, ms[i as int]));
                }
                let j = first_center(rect, ms)->Some_0;
                if j != i {
                    if j < i {
                        assert(!holds_center(rect, ms[j]));
                    } else {
                        assert(!holds_center(rect, ms[i as int]));
                    }
                }
            }
            return Some(monitors[i]);
        }
        i += 1;
    }
    proof {
        lemma_first_center_bounds(rect, ms);
    }
    let mut best: Option<MonitorInfo> = None;
    let mut best_area: i128 = 0;
    let mut k: usize = 0;
    while k < monitors.len()
        invariant
            k <= monitors.len(),
            ms == monitors@,
            best_area == best_overlap(rect, ms, k as int).1,
            best == (match best_overlap(rect, ms, k as int).0 {
                Some(j) => Some(ms[j]),
                None => None,
            }),
        decreases monitors.len() - k,
    {
        proof {
            lemma_best_overlap_bounds(rect, ms, k as int);
        }
        let a = overlap(rect, monitors[k]);
        if a > best_area {
            best = Some(monitors[k]);
            best_area = a;
        }
        k += 1;
    }
    best
}

} // verus!

verus! {

/// A bounded, latest-value channel of highlight updates (`None` clears the
/// highlight). Publishing never waits: when the queue is full, the oldest unread
/// value is dropped for the new one.
pub struct HighlightQueue {
    items: Vec<Option<Rect>>,
    capacity: usize,
}

impl View for HighlightQueue {
    type V = Seq<Option<Rect>>;

    closed spec fn view(&self) -> Seq<Option<Rect>> {
        self.items@
    }
}

impl HighlightQueue {
    pub closed spec fn capacity_spec(&self) -> nat {
        self.capacity as nat
    }

    /// At least one slot, and never more values than slots.
    pub closed spec fn wf(&self) -> bool {
        self.capacity >= 1 && self.items@.len() <= self.capacity
    }

    pub fn new(capacity: usize) -> (r: HighlightQueue)
        requires
            capacity >= 1,
        ensures
            r.wf(),
            r@ == Seq::<Option<Rect>>::empty(),
            r.capacity_spec() == capacity,
    {
        HighlightQueue { items: Vec::new(), capacity }
    }

    pub fn capacity(&self) -> (r: usize)
        ensures
            r == self.capacity_spec(),
    {
        self.capacity
    }

    pub fn len(&self) -> (r: usize)
        ensures
            r == self@.len(),
    {
        self.items.len()
    }

    pub fn is_empty(&self) -> (r: bool)
        ensures
            r == (self@.len() == 0),
    {
        self.items.len() == 0
    }

    /// Adds `value` as the newest update, dropping the oldest when full.
    pub fn publish(&mut self, value: Option<Rect>)
        requires
            old(self).wf(),
        ensures
            final(self).wf(),
            final(self).capacity_spec() == old(self).capacity_spec(),
            final(self)@ == if old(self)@.len() == old(self).capacity_spec() {
                old(self)@.drop_first().push(value)
            } else {
                old(self)@.push(value)
            },
    {
        if self.items.len() == self.capacity {
            self.items.remove(0);
            assert(self.items@ =~= old(self)@.drop_first());
        }
        self.items.push(value);
    }

    /// Takes the oldest unread update, if any.
    pub fn try_recv(&mut self) -> (r: Option<Option<Rect>>)
        requires
            old(self).wf(),
        ensures
            final(self).wf(),
            final(self).capacity_spec() == old(self).capacity_spec(),
            old(self)@.len() == 0 ==> r is None && final(self)@ == old(self)@,
            old(self)@.len() > 0 ==> r == Some(old(self)@[0]) && final(self)@
                == old(self)@.drop_first(),
    {
        if self.items.len() == 0 {
            None
        } else {
            let v = self.items.remove(0);
            assert(self.items@ =~= old(self)@.drop_first());
            Some(v)
        }
    }
}

/// Publishing keeps the newest value last and never holds more values than the
/// queue has slots.
pub proof fn lemma_publish_latest(q: Seq<Option<Rect>>, cap: nat, value: Option<Rect>)
    requires
        cap >= 1,
        q.len() <= cap,
    ensures
        ({
            let next = if q.len() == cap {
                q.drop_first().push(value)
            } else {
                q.push(value)
            };
            &&& next.len() <= cap
            &&& next.last() == value
            &&& q.len() < cap ==> next.len() == q.len() + 1
        }),
{
}

/// What the overlay shows: the latest highlight and the monitor it covers.
pub struct FocusHighlighter {
    pub target_rect: Option<Rect>,
    pub initialized: bool,
    pub current_monitor: Option<MonitorInfo>,
    /// When the last highlight arrived, in milliseconds of a monotonic clock.
    pub last_update_ms: Option<u64>,
}

/// Milliseconds to wait before the next frame: none while updates are pending,
/// then 16, 33 or 100 as the overlay has been idle under 100 ms, under a second,
/// or longer (or has never been updated).
pub open spec fn frame_delay(last_update: Option<u64>, now: u64, pending: bool) -> u64 {
    if pending {
        0
    } else {
        let idle: int = match last_update {
            Some(t) => if now >= t {
                now - t
            } else {
                0
            },
            None => 1000,
        };
        if idle < 100 {
            16
        } else if idle < 1000 {
            33
        } else {
            100
        }
    }
}

impl FocusHighlighter {
    pub fn new() -> (r: FocusHighlighter)
        ensures
            r.target_rect is None,
            !r.initialized,
            r.current_monitor is None,
            r.last_update_ms is None,
    {
        FocusHighlighter {
            target_rect: None,
            initialized: false,
            current_monitor: None,
            last_update_ms: None,
        }
    }

    pub fn target_rect(&self) -> (r: Option<Rect>)
        ensures
            r == self.target_rect,
    {
        self.target_rect
    }

    /// The first frame: the overlay starts on the primary monitor, if one is known.
    pub fn initialize(&mut self, primary: Option<MonitorInfo>)
        ensures
            final(self).initialized,
            final(self).current_monitor == (if old(self).initialized {
                old(self).current_monitor
            } else {
                match primary {
                    Some(m) => Some(m),
                    None => old(self).current_monitor,
                }
            }),
            final(self).target_rect == old(self).target_rect,
            final(self).last_update_ms == old(self).last_update_ms,
    {
        if !self.initialized {
            if let Some(m) = primary {
                self.current_monitor = Some(m);
            }
            self.initialized = true;
        }
    }

    /// A highlight update arrives at `now_ms`. A rectangle becomes the target, and
    /// when the monitor chosen for it differs from the one covered, the overlay moves
    /// there: that monitor is returned. `None` clears the highlight.
    pub fn receive(&mut self, value: Option<Rect>, now_ms: u64, monitors: &Vec<MonitorInfo>) -> (r:
        Option<MonitorInfo>)
        ensures
            final(self).target_rect == value,
            final(self).initialized == old(self).initialized,
            final(self).last_update_ms == (if value is Some {
                Some(now_ms)
            } else {
                old(self).last_update_ms
            }),
            value is None ==> r is None && final(self).current_monitor == old(self).current_monitor,
            value matches Some(rect) ==> r == (match monitor_for(rect, monitors@) {
                Some(m) => if old(self).current_monitor == Some(m) {
                    None
                } else {
                    Some(m)
                },
                None => None,
            }),
            r is Some ==> final(self).current_monitor == r,
            r is None ==> final(self).current_monitor == old(self).current_monitor,
    {
        self.target_rect = value;
        match value {
            None => None,
            Some(rect) => {
                self.last_update_ms = Some(now_ms);
                match find_monitor_for_rect(rect, monitors) {
                    Some(m) => {
                        let same = match self.current_monitor {
                            Some(c) => c == m,
                            None => false,
                        };
                        if same {
                            None
                        } else {
                            self.current_monitor = Some(m);
                            Some(m)
                        }
                    },
                    None => None,
                }
            },
        }
    }

    /// The target in the coordinates of the monitor the overlay covers.
    pub fn adjusted_rect(&self) -> (r: Option<LocalRect>)
        ensures
            self.target_rect is None ==> r is None,
            self.target_rect matches Some(t) ==> r matches Some(a) && ({
                let (dx, dy) = match self.current_monitor {
                    Some(m) => (m.x as int, m.y as int),
                    None => (0int, 0int),
                };
                &&& a.left == t.left - dx
                &&& a.top == t.top - dy
                &&& a.right == t.right - dx
                &&& a.bottom == t.bottom - dy
            }),
    {
        match self.target_rect {
            None => None,
            Some(t) => {
                let (dx, dy): (i64, i64) = match self.current_monitor {
                    Some(m) => (m.x as i64, m.y as i64),
                    None => (0, 0),
                };
                Some(
                    LocalRect {
                        left: t.left as i64 - dx,
                        top: t.top as i64 - dy,
                        right: t.right as i64 - dx,
                        bottom: t.bottom as i64 - dy,
                    },
                )
            },
        }
    }

    /// How long to wait before drawing the next frame.
    pub fn frame_delay_ms(&self, now_ms: u64, pending: bool) -> (r: u64)
        ensures
            r == frame_delay(self.last_update_ms, now_ms, pending),
    {
        if pending {
            return 0;
        }
        let idle: u64 = match self.last_update_ms {
            Some(t) => if now_ms >= t {
                now_ms - t
            } else {
                0
            },
            None => 1000,
        };
        if idle < 100 {
            16
        } else if idle < 1000 {
            33
        } else {
            100
        }
    }
}

} // verus!
