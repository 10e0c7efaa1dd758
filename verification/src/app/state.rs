//! Which pane has focus, which log view is shown, and how the selection and timers move.
use std::collections::VecDeque;
use vstd::prelude::*;

use crate::ui::style::{lines_view, SpanView, Styled};

verus! {

/// The pane that receives navigation keys.
#[derive(Clone, Copy, Debug, PartialEq, Eq, Structural)]
pub enum Focus {
    Services,
    Logs,
}

impl Default for Focus {
    fn default() -> (r: Self)
        ensures
            r == Focus::Services,
    {
        Focus::Services
    }
}

/// The view shown in the activity pane.
#[derive(Clone, Copy, Debug, PartialEq, Eq, Structural)]
pub enum LogTab {
    Events,
    LiveLogs,
}

impl Default for LogTab {
    fn default() -> (r: Self)
        ensures
            r == LogTab::Events,
    {
        LogTab::Events
    }
}

/// The action chosen in the API socket menu.
#[derive(Clone, Copy, Debug, PartialEq, Eq, Structural)]
pub enum DaemonAction {
    Start,
    Stop,
    Restart,
}

/// The selection after moving down a list of `len` services: the next one, wrapping to
/// the first; nothing where the list is empty.
pub open spec fn next_spec(selected: Option<usize>, len: usize) -> Option<usize> {
    if len == 0 {
        None
    } else {
        match selected {
            Some(i) => if i >= len - 1 {
                Some(0)
            } else {
                Some((i + 1) as usize)
            },
            None => Some(0),
        }
    }
}

/// The selection after moving up: the previous one, wrapping to the last.
pub open spec fn previous_spec(selected: Option<usize>, len: usize) -> Option<usize> {
    if len == 0 {
        None
    } else {
        match selected {
            Some(i) => if i == 0 {
                Some((len - 1) as usize)
            } else {
                Some((i - 1) as usize)
            },
            None => Some(0),
        }
    }
}

pub fn next_selection(selected: Option<usize>, len: usize) -> (r: Option<usize>)
    ensures
        r == next_spec(selected, len),
{
    if len == 0 {
        return None;
    }
    match selected {
        Some(i) => if i >= len - 1 {
            Some(0)
        } else {
            Some(i + 1)
        },
        None => Some(0),
    }
}

pub fn previous_selection(selected: Option<usize>, len: usize) -> (r: Option<usize>)
    ensures
        r == previous_spec(selected, len),
{
    if len == 0 {
        return None;
    }
    match selected {
        Some(i) => if i == 0 {
            Some(len - 1)
        } else {
            Some(i - 1)
        },
        None => Some(0),
    }
}

/// Law: moving down always selects inside the list (or nothing for an empty list),
/// moving up does so from a selection inside the list, and moving down then up, or up then down, returns to a selection inside the list.
pub proof fn law_selection_round_trip(selected: Option<usize>, len: usize)
    ensures
        len == 0 ==> next_spec(selected, len) is None && previous_spec(selected, len) is None,
        len > 0 ==> (next_spec(selected, len) matches Some(i) && i < len),
        len > 0 && (selected matches Some(j) ==> j < len) ==> (previous_spec(selected, len) matches Some(
            i,
        ) && i < len),
        (selected matches Some(i) && i < len) ==> previous_spec(next_spec(selected, len), len)
            == selected,
        (selected matches Some(i) && i < len) ==> next_spec(previous_spec(selected, len), len)
            == selected,
{
}

/// The log scroll position after scrolling by `amount` lines, saturating at both ends.
pub fn scroll_by(scroll: u16, amount: i16) -> (r: u16)
    ensures
        r as int == (if scroll + amount < 0 {
            0
        } else if scroll + amount > u16::MAX {
            u16::MAX as int
        } else {
            scroll + amount
        }),
{
    if amount < 0 {
        let down = (0 - (amount as i32)) as u16;
        scroll.saturating_sub(down)
    } else {
        scroll.saturating_add(amount as u16)
    }
}

/// Frames per second of the toast countdown.
pub const TOAST_TICKS_PER_SECOND: u8 = 30;

/// The toast timer and frame counter after one frame, and whether the toast is dismissed:
/// while a toast shows, every thirtieth frame takes one second off, and the toast goes
/// when the timer reaches zero.
pub open spec fn toast_tick_spec(timer: u32, acc: u8) -> (u32, u8, bool) {
    if timer > 0 {
        let a = if acc == u8::MAX {
            acc
        } else {
            (acc + 1) as u8
        };
        if a >= TOAST_TICKS_PER_SECOND {
            let t = (timer - 1) as u32;
            (t, 0, t == 0)
        } else {
            (timer, a, false)
        }
    } else {
        (timer, acc, false)
    }
}

pub fn toast_tick(timer: u32, acc: u8) -> (r: (u32, u8, bool))
    ensures
        r == toast_tick_spec(timer, acc),
{
    if timer > 0 {
        let a = acc.saturating_add(1);
        if a >= TOAST_TICKS_PER_SECOND {
            let t = timer - 1;
            (t, 0, t == 0)
        } else {
            (timer, a, false)
        }
    } else {
        (timer, acc, false)
    }
}

/// The toast timer, frame counter and dismissal after `n` frames.
pub open spec fn toast_ticks(timer: u32, acc: u8, n: nat) -> (u32, u8, bool)
    decreases n,
{
    if n == 0 {
        (timer, acc, false)
    } else {
        let (t, a, gone) = toast_tick_spec(timer, acc);
        if n == 1 {
            (t, a, gone)
        } else {
            toast_ticks(t, a, (n - 1) as nat)
        }
    }
}

proof fn lemma_toast_frames(timer: u32, acc: u8, k: nat)
    requires
        timer > 0,
        acc + k < TOAST_TICKS_PER_SECOND,
    ensures
        toast_ticks(timer, acc, k) == (timer, (acc + k) as u8, false),
    decreases k,
{
    if k > 1 {
        lemma_toast_frames(timer, (acc + 1) as u8, (k - 1) as nat);
    }
}

/// Law: a shown toast loses one second every thirty frames: from the start of a second,
/// the first twenty-nine frames leave the timer as it is, and the thirtieth takes a second
/// off, dismissing the toast when that was its last; a toast that is not shown (timer
/// zero) stays as it is.
pub proof fn law_toast_countdown(timer: u32, k: nat)
    requires
        timer > 0,
    ensures
        0 < k < 30 ==> toast_ticks(timer, 0, k) == (timer, k as u8, false),
        toast_ticks(timer, 0, 30) == ((timer - 1) as u32, 0u8, timer == 1),
        toast_tick_spec(0, 7) == (0u32, 7u8, false),
{
    if 0 < k < 30 {
        lemma_toast_frames(timer, 0, k);
    }
    assert(toast_ticks(timer, 0, 30) == toast_ticks(timer, 1, 29));
    lemma_last_frame(timer, 1, 29);
}

proof fn lemma_last_frame(timer: u32, acc: u8, k: nat)
    requires
        timer > 0,
        acc + k == TOAST_TICKS_PER_SECOND,
        k >= 1,
    ensures
        toast_ticks(timer, acc, k) == ((timer - 1) as u32, 0u8, timer == 1),
    decreases k,
{
    if k > 1 {
        lemma_last_frame(timer, (acc + 1) as u8, (k - 1) as nat);
    }
}

/// Frames between status refreshes while a project is in transition.
pub const STATUS_REFRESH_COOLDOWN_TICKS: u8 = 24;

/// Whether to refresh statuses on an idle frame, and the cooldown after it: a running
/// cooldown counts down; otherwise a refresh happens when some project is in transition.
pub open spec fn refresh_due_spec(cooldown: u8, any_transitioning: bool) -> (bool, u8) {
    if cooldown > 0 {
        (false, (cooldown - 1) as u8)
    } else if any_transitioning {
        (true, STATUS_REFRESH_COOLDOWN_TICKS)
    } else {
        (false, cooldown)
    }
}

pub fn refresh_due(cooldown: u8, any_transitioning: bool) -> (r: (bool, u8))
    ensures
        r == refresh_due_spec(cooldown, any_transitioning),
{
    if cooldown > 0 {
        (false, cooldown - 1)
    } else if any_transitioning {
        (true, STATUS_REFRESH_COOLDOWN_TICKS)
    } else {
        (false, cooldown)
    }
}

/// Frames between probes of the container runtime while it is available.
pub const RUNTIME_PROBE_COOLDOWN_TICKS: u8 = 60;

/// Whether a refresh probes the runtime: on the first check, when the cooldown has run
/// out, or while the runtime is unavailable.
pub fn should_probe_runtime(first_status_check: bool, cooldown: u8, available: bool) -> (b: bool)
    ensures
        b == (first_status_check || cooldown == 0 || !available),
{
    first_status_check || cooldown == 0 || !available
}

/// Frames before live-log followers are started again after one failed to start.
pub const LIVE_LOG_RETRY_COOLDOWN_TICKS: u8 = 15;

/// A rendered log body kept for one project (or for no selection) and one log view.
#[derive(Debug)]
pub struct LogsRenderCacheEntry {
    pub service_index: Option<usize>,
    pub tab: LogTab,
    pub buffer_revision: u64,
    pub body: Vec<Vec<Styled>>,
    pub body_line_count: u16,
}

/// The plain values of a cache entry.
pub struct CacheEntryView {
    pub service_index: Option<usize>,
    pub tab: LogTab,
    pub buffer_revision: u64,
    pub body: Seq<Seq<SpanView>>,
    pub body_line_count: u16,
}

pub open spec fn entry_view(e: LogsRenderCacheEntry) -> CacheEntryView {
    CacheEntryView {
        service_index: e.service_index,
        tab: e.tab,
        buffer_revision: e.buffer_revision,
        body: lines_view(e.body@),
        body_line_count: e.body_line_count,
    }
}

/// How many rendered bodies the cache keeps.
pub const CACHE_CAPACITY: usize = 8;

/// The first position of the entry for a project and view.
pub open spec fn position_of_key(v: Seq<CacheEntryView>, index: Option<usize>, tab: LogTab) -> Option<
    int,
>
    decreases v.len(),
{
    if v.len() == 0 {
        None
    } else {
        match position_of_key(v.drop_last(), index, tab) {
            Some(p) => Some(p),
            None => if v.last().service_index == index && v.last().tab == tab {
                Some(v.len() - 1)
            } else {
                None
            },
        }
    }
}

/// The entries after storing `e`: its key's earlier entry goes, then the oldest where the
/// cache is full; `e` comes last.
pub open spec fn cache_insert_spec(v: Seq<CacheEntryView>, e: CacheEntryView) -> Seq<CacheEntryView> {
    let w = match position_of_key(v, e.service_index, e.tab) {
        Some(p) => v.remove(p),
        None => v,
    };
    let w2 = if w.len() == CACHE_CAPACITY {
        w.drop_first()
    } else {
        w
    };
    w2.push(e)
}

/// The entry stored for a project and view, if any.
pub open spec fn cache_lookup(v: Seq<CacheEntryView>, index: Option<usize>, tab: LogTab) -> Option<
    CacheEntryView,
> {
    match position_of_key(v, index, tab) {
        Some(p) => Some(v[p]),
        None => None,
    }
}

/// Each project and view has at most one entry.
pub open spec fn keys_distinct(v: Seq<CacheEntryView>) -> bool {
    forall|i: int, j: int|
        0 <= i < j < v.len() ==> !((#[trigger] v[i]).service_index == (#[trigger] v[j]).service_index
            && v[i].tab == v[j].tab)
}

pub proof fn lemma_position_of_key(v: Seq<CacheEntryView>, index: Option<usize>, tab: LogTab)
    ensures
        position_of_key(v, index, tab) matches Some(p) ==> 0 <= p < v.len() && v[p].service_index
            == index && v[p].tab == tab && forall|k: int|
            0 <= k < p ==> !(#[trigger] v[k].service_index == index && v[k].tab == tab),
        position_of_key(v, index, tab) is None ==> forall|k: int|
            0 <= k < v.len() ==> !(#[trigger] v[k].service_index == index && v[k].tab == tab),
    decreases v.len(),
{
    if v.len() > 0 {
        lemma_position_of_key(v.drop_last(), index, tab);
        assert forall|k: int| 0 <= k < v.len() - 1 implies v[k] == v.drop_last()[k] by {}
    }
}

/// The rendered bodies of the most recently shown projects and views, newest last.
#[derive(Debug)]
pub struct LogsRenderCache {
    entries: VecDeque<LogsRenderCacheEntry>,
}

impl View for LogsRenderCache {
    type V = Seq<CacheEntryView>;

    closed spec fn view(&self) -> Seq<CacheEntryView> {
        self.entries@.map_values(|e: LogsRenderCacheEntry| entry_view(e))
    }
}

impl LogsRenderCache {
    #[verifier::type_invariant]
    spec fn well_formed(&self) -> bool {
        &&& self.entries@.len() <= CACHE_CAPACITY
        &&& keys_distinct(self.entries@.map_values(|e: LogsRenderCacheEntry| entry_view(e)))
    }

    /// The number of entries; the cache holds at most [`CACHE_CAPACITY`], one per project
    /// and view.
    pub fn len(&self) -> (n: usize)
        ensures
            n == self@.len(),
            n <= CACHE_CAPACITY,
            keys_distinct(self@),
    {
        proof {
            use_type_invariant(self);
        }
        self.entries.len()
    }

    /// An empty cache.
    pub fn new() -> (c: Self)
        ensures
            c@ == Seq::<CacheEntryView>::empty(),
    {
        let c = LogsRenderCache { entries: VecDeque::new() };
        assert(c@ =~= Seq::<CacheEntryView>::empty());
        c
    }

    fn find(&self, service_index: Option<usize>, tab: LogTab) -> (r: Option<usize>)
        ensures
            match r {
                Some(p) => position_of_key(self@, service_index, tab) == Some(p as int) && p
                    < self.entries@.len(),
                None => position_of_key(self@, service_index, tab) is None,
            },
    {
        proof {
            lemma_position_of_key(self@, service_index, tab);
        }
        let mut i: usize = 0;
        while i < self.entries.len()
            invariant
                i <= self.entries@.len(),
                self@.len() == self.entries@.len(),
                forall|k: int| 0 <= k < self@.len() ==> #[trigger] self@[k] == entry_view(self.entries@[k]),
                forall|k: int|
                    0 <= k < i ==> !(#[trigger] self@[k].service_index == service_index
                        && self@[k].tab == tab),
                position_of_key(self@, service_index, tab) matches Some(p) ==> 0 <= p < self@.len()
                    && self@[p].service_index == service_index && self@[p].tab == tab && forall|
                    k: int,
                | 0 <= k < p ==> !(#[trigger] self@[k].service_index == service_index
                    && self@[k].tab == tab),
                position_of_key(self@, service_index, tab) is None ==> forall|k: int|
                    0 <= k < self@.len() ==> !(#[trigger] self@[k].service_index == service_index
                        && self@[k].tab == tab),
            decreases self.entries.len() - i,
        {
            assert(self@[i as int] == entry_view(self.entries@[i as int]));
            if self.entries[i].service_index == service_index && self.entries[i].tab == tab {
                assert(self@[i as int].service_index == service_index && self@[i as int].tab == tab);
                return Some(i);
            }
            i = i + 1;
        }
        None
    }

    /// The entry stored for a project and view, if any.
    pub fn entry(&self, service_index: Option<usize>, tab: LogTab) -> (r: Option<
        &LogsRenderCacheEntry,
    >)
        ensures
            match r {
                Some(e) => cache_lookup(self@, service_index, tab) == Some(entry_view(*e)),
                None => cache_lookup(self@, service_index, tab) is None,
            },
    {
        match self.find(service_index, tab) {
            Some(p) => {
                assert(self@[p as int] == entry_view(self.entries@[p as int]));
                Some(&self.entries[p])
            },
            None => None,
        }
    }

    /// Replaces, in place, the rendered body of the entry stored for a project and view;
    /// tells whether there was one (the cache is unchanged where there was none). The
    /// entry keeps its key, revision and place.
    pub fn replace_body(
        &mut self,
        service_index: Option<usize>,
        tab: LogTab,
        body: Vec<Vec<Styled>>,
        body_line_count: u16,
    ) -> (found: bool)
        ensures
            found == (cache_lookup(old(self)@, service_index, tab) is Some),
            !found ==> final(self)@ == old(self)@,
            found ==> final(self)@ == old(self)@.update(
                position_of_key(old(self)@, service_index, tab)->0,
                CacheEntryView {
                    body: lines_view(body@),
                    body_line_count,
                    ..old(self)@[position_of_key(old(self)@, service_index, tab)->0]
                },
            ),
    {
        proof {
            use_type_invariant(&*self);
        }
        let found = self.find(service_index, tab);
        match found {
            Some(p) => {
                let ghost v0 = self@;
                let mut entries = VecDeque::new();
                std::mem::swap(&mut entries, &mut self.entries);
                assert(entries@.map_values(|e: LogsRenderCacheEntry| entry_view(e)) == v0);
                let revision = entries[p].buffer_revision;
                let key_index = entries[p].service_index;
                let key_tab = entries[p].tab;
                assert(v0[p as int] == entry_view(entries@[p as int]));
                let ghost before = entries@;
                let _old = entries.remove(p);
                let ghost replacement = LogsRenderCacheEntry {
                    service_index: key_index,
                    tab: key_tab,
                    buffer_revision: revision,
                    body,
                    body_line_count,
                };
                entries.insert(
                    p,
                    LogsRenderCacheEntry {
                        service_index: key_index,
                        tab: key_tab,
                        buffer_revision: revision,
                        body,
                        body_line_count,
                    },
                );
                assert(entries@ =~= before.update(p as int, replacement));
                let ghost nv = v0.update(
                    p as int,
                    CacheEntryView { body: lines_view(body@), body_line_count, ..v0[p as int] },
                );
                assert(entries@.map_values(|e: LogsRenderCacheEntry| entry_view(e)) =~= nv);
                assert(keys_distinct(nv)) by {
                    assert forall|i: int, j: int| 0 <= i < j < nv.len() implies !((
                    #[trigger] nv[i]).service_index == (#[trigger] nv[j]).service_index
                        && nv[i].tab == nv[j].tab) by {
                        assert(v0[i].service_index == nv[i].service_index && v0[i].tab == nv[i].tab);
                        assert(v0[j].service_index == nv[j].service_index && v0[j].tab == nv[j].tab);
                    }
                }
                self.entries = entries;
                true
            },
            None => false,
        }
    }

    /// Stores an entry (see [`cache_insert_spec`]).
    pub fn insert(&mut self, entry: LogsRenderCacheEntry)
        ensures
            final(self)@ == cache_insert_spec(old(self)@, entry_view(entry)),
    {
        proof {
            use_type_invariant(&*self);
        }
        let ghost ev = entry_view(entry);
        let found = self.find(entry.service_index, entry.tab);
        let mut entries = VecDeque::new();
        std::mem::swap(&mut entries, &mut self.entries);
        let ghost v0 = entries@.map_values(|e: LogsRenderCacheEntry| entry_view(e));
        match found {
            Some(p) => {
                entries.remove(p);
                assert(entries@.map_values(|e: LogsRenderCacheEntry| entry_view(e)) =~= v0.remove(
                    p as int,
                ));
            },
            None => {},
        }
        let ghost v1 = entries@.map_values(|e: LogsRenderCacheEntry| entry_view(e));
        if entries.len() == CACHE_CAPACITY {
            entries.pop_front();
            assert(entries@.map_values(|e: LogsRenderCacheEntry| entry_view(e)) =~= v1.drop_first());
        }
        let ghost v2 = entries@.map_values(|e: LogsRenderCacheEntry| entry_view(e));
        entries.push_back(entry);
        assert(entries@.map_values(|e: LogsRenderCacheEntry| entry_view(e)) =~= v2.push(ev));
        proof {
            lemma_position_of_key(v0, ev.service_index, ev.tab);
            assert(v2.len() < CACHE_CAPACITY);
            assert forall|k: int| 0 <= k < v2.len() implies !(#[trigger] v2[k].service_index
                == ev.service_index && v2[k].tab == ev.tab) by {
                match found {
                    Some(p) => {
                        if v1.len() == CACHE_CAPACITY {
                            assert(v2[k] == v1[k + 1]);
                            if k + 1 < p {
                                assert(v1[k + 1] == v0[k + 1]);
                            } else {
                                assert(v1[k + 1] == v0[k + 2]);
                            }
                        } else {
                            if k < p {
                                assert(v1[k] == v0[k]);
                            } else {
                                assert(v1[k] == v0[k + 1]);
                            }
                        }
                    },
                    None => {
                        if v1.len() == CACHE_CAPACITY {
                            assert(v2[k] == v0[k + 1]);
                        }
                    },
                }
            }
            assert(keys_distinct(v2)) by {
                assert forall|i: int, j: int| 0 <= i < j < v2.len() implies !((
                #[trigger] v2[i]).service_index == (#[trigger] v2[j]).service_index && v2[i].tab
                    == v2[j].tab) by {
                    let (a, b) = match found {
                        Some(p) => if v1.len() == CACHE_CAPACITY {
                            (if i + 1 < p { i + 1 } else { i + 2 }, if j + 1 < p { j + 1 } else { j + 2 })
                        } else {
                            (if i < p { i } else { i + 1 }, if j < p { j } else { j + 1 })
                        },
                        None => if v1.len() == CACHE_CAPACITY {
                            (i + 1, j + 1)
                        } else {
                            (i, j)
                        },
                    };
                    assert(v2[i] == v0[a] && v2[j] == v0[b] && a < b);
                }
            }
        }
        self.entries = entries;
    }
}

/// Law: after storing an entry, looking up its project and view gives it back, and the
/// cache still holds at most [`CACHE_CAPACITY`] entries, one per project and view.
pub proof fn law_cache_read_after_insert(v: Seq<CacheEntryView>, e: CacheEntryView)
    requires
        v.len() <= CACHE_CAPACITY,
        keys_distinct(v),
    ensures
        cache_lookup(cache_insert_spec(v, e), e.service_index, e.tab) == Some(e),
        cache_insert_spec(v, e).len() <= CACHE_CAPACITY,
        keys_distinct(cache_insert_spec(v, e)),
{
    let w = match position_of_key(v, e.service_index, e.tab) {
        Some(p) => v.remove(p),
        None => v,
    };
    let w2 = if w.len() == CACHE_CAPACITY {
        w.drop_first()
    } else {
        w
    };
    lemma_position_of_key(v, e.service_index, e.tab);
    assert forall|k: int| 0 <= k < w2.len() implies !(#[trigger] w2[k].service_index
        == e.service_index && w2[k].tab == e.tab) by {
        match position_of_key(v, e.service_index, e.tab) {
            Some(p) => {
                if w.len() == CACHE_CAPACITY {
                    assert(w2[k] == w[k + 1]);
                    if k + 1 < p {
                        assert(w[k + 1] == v[k + 1]);
                    } else {
                        assert(w[k + 1] == v[k + 2]);
                    }
                } else {
                    if k < p {
                        assert(w[k] == v[k]);
                    } else {
                        assert(w[k] == v[k + 1]);
                    }
                }
            },
            None => {
                if w.len() == CACHE_CAPACITY {
                    assert(w2[k] == v[k + 1]);
                }
            },
        }
    }
    let r = w2.push(e);
    assert(keys_distinct(w2)) by {
        assert forall|i: int, j: int| 0 <= i < j < w2.len() implies !((
        #[trigger] w2[i]).service_index == (#[trigger] w2[j]).service_index && w2[i].tab
            == w2[j].tab) by {
            let (a, b) = match position_of_key(v, e.service_index, e.tab) {
                Some(p) => if w.len() == CACHE_CAPACITY {
                    (if i + 1 < p { i + 1 } else { i + 2 }, if j + 1 < p { j + 1 } else { j + 2 })
                } else {
                    (if i < p { i } else { i + 1 }, if j < p { j } else { j + 1 })
                },
                None => if w.len() == CACHE_CAPACITY {
                    (i + 1, j + 1)
                } else {
                    (i, j)
                },
            };
            assert(w2[i] == v[a] && w2[j] == v[b] && a < b);
        }
    }
    lemma_position_of_key(r, e.service_index, e.tab);
    assert(r[r.len() - 1] == e);
    assert forall|k: int| 0 <= k < r.len() - 1 implies r[k] == w2[k] by {}
}

} // verus!
