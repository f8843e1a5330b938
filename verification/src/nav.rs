//! Cursor and scroll-window navigation for a scrollable list, and the cyclic
//! tab selector. The cursor is clamped into the list; the scroll window
//! follows it one row per move past either edge (a "sticky edge" scroll, not
//! a jump-to-cursor policy), so fast repeated moves scroll smoothly. The
//! well-formedness predicate is the navigation invariant: the cursor stays
//! inside the list and inside the visible window, and the window never runs
//! past the end of the list.

use vstd::prelude::*;

verus! {

/// Per-list navigation state: the highlighted item, the first visible item,
/// how many rows fit on screen, and the current list length.
#[derive(Clone, Copy, Debug, PartialEq, Eq, Structural)]
pub struct ListNav {
    pub cursor: usize,
    pub scroll: usize,
    pub visible_count: usize,
    pub item_count: usize,
}

/// Clamp `pos` into `[0, count - 1]`; `0` when the list is empty.
pub open spec fn spec_clamp(pos: int, count: int) -> int {
    if count <= 0 {
        0
    } else if pos < 0 {
        0
    } else if pos >= count {
        count - 1
    } else {
        pos
    }
}

/// The largest scroll position that still fills the window where possible.
pub open spec fn spec_max_scroll(item_count: int, visible_count: int) -> int {
    if item_count >= visible_count {
        item_count - visible_count
    } else {
        0
    }
}

/// One cursor move: clamp the cursor, then slide the scroll window one row
/// if the cursor crossed its bottom or top edge.
pub open spec fn spec_move(nav: ListNav, delta: int) -> ListNav {
    if nav.item_count == 0 {
        nav
    } else {
        let c = spec_clamp(nav.cursor + delta, nav.item_count as int);
        let m = spec_max_scroll(nav.item_count as int, nav.visible_count as int);
        let s = if c >= nav.scroll + nav.visible_count {
            if nav.scroll + 1 <= m {
                nav.scroll + 1
            } else {
                m
            }
        } else if c <= nav.scroll {
            if nav.scroll >= 1 {
                (nav.scroll - 1) as int
            } else {
                0
            }
        } else {
            nav.scroll as int
        };
        ListNav { cursor: c as usize, scroll: s as usize, ..nav }
    }
}

/// A new list length, with the cursor and scroll clamped defensively so the
/// invariant holds again whatever the previous state was.
pub open spec fn spec_set_count(nav: ListNav, n: int) -> ListNav {
    if n == 0 {
        ListNav { cursor: 0, scroll: 0, item_count: 0, ..nav }
    } else {
        let c = if nav.cursor < n {
            nav.cursor as int
        } else {
            n - 1
        };
        let m = spec_max_scroll(n, nav.visible_count as int);
        let s0 = if nav.scroll <= m {
            nav.scroll as int
        } else {
            m
        };
        let s1 = if s0 <= c {
            s0
        } else {
            c
        };
        let s = if c >= s1 + nav.visible_count {
            c - nav.visible_count + 1
        } else {
            s1
        };
        ListNav { cursor: c as usize, scroll: s as usize, item_count: n as usize, ..nav }
    }
}

impl ListNav {
    /// The navigation invariant: on a non-empty list the cursor is a valid
    /// index, the cursor lies inside the visible window, and the window
    /// starts no later than the last full-window position. On an empty list
    /// both cursor and scroll are zero.
    pub open spec fn wf(&self) -> bool {
        &&& self.visible_count >= 1
        &&& (self.item_count == 0 ==> self.cursor == 0 && self.scroll == 0)
        &&& (self.item_count > 0 ==> {
            &&& self.cursor < self.item_count
            &&& self.scroll <= self.cursor
            &&& self.cursor < self.scroll + self.visible_count
            &&& self.scroll <= spec_max_scroll(self.item_count as int, self.visible_count as int)
        })
    }

    /// A fresh list of `item_count` items with the window at the top.
    pub fn new(visible_count: usize, item_count: usize) -> (nav: ListNav)
        requires
            visible_count >= 1,
        ensures
            nav == (ListNav { cursor: 0, scroll: 0, visible_count, item_count }),
            nav.wf(),
    {
        ListNav { cursor: 0, scroll: 0, visible_count, item_count }
    }

    /// Move the cursor by `delta` rows and slide the window after it.
    /// A no-op on an empty list. Single-row moves preserve the invariant
    /// whenever the window is at least two rows tall.
    pub fn move_cursor(&mut self, delta: i64)
        requires
            old(self).item_count <= 0x7fff_ffff,
        ensures
            *final(self) == spec_move(*old(self), delta as int),
            old(self).wf() && old(self).visible_count >= 2 && -1 <= delta <= 1
                ==> final(self).wf(),
    {
        if self.item_count == 0 {
            return ;
        }
        let target: i128 = self.cursor as i128 + delta as i128;
        let c: usize = if target < 0 {
            0
        } else if target >= self.item_count as i128 {
            self.item_count - 1
        } else {
            target as usize
        };
        self.cursor = c;
        let m: usize = if self.item_count >= self.visible_count {
            self.item_count - self.visible_count
        } else {
            0
        };
        if c >= self.scroll && c - self.scroll >= self.visible_count {
            if self.scroll + 1 <= m {
                self.scroll = self.scroll + 1;
            } else {
                self.scroll = m;
            }
        } else if c <= self.scroll {
            if self.scroll >= 1 {
                self.scroll = self.scroll - 1;
            } else {
                self.scroll = 0;
            }
        }
        proof {
            if old(self).wf() && old(self).visible_count >= 2 && -1 <= delta <= 1 {
                lemma_move_cursor_preserves_wf(*old(self), delta as int);
            }
        }
    }

    /// Replace the list length, clamping cursor and scroll defensively: the
    /// invariant holds afterwards whatever the previous positions were.
    pub fn set_item_count(&mut self, n: usize)
        requires
            old(self).visible_count >= 1,
        ensures
            *final(self) == spec_set_count(*old(self), n as int),
            final(self).wf(),
            final(self).item_count == n,
    {
        if n == 0 {
            self.cursor = 0;
            self.scroll = 0;
            self.item_count = 0;
            return ;
        }
        let c: usize = if self.cursor < n {
            self.cursor
        } else {
            n - 1
        };
        let m: usize = if n >= self.visible_count {
            n - self.visible_count
        } else {
            0
        };
        let s0: usize = if self.scroll <= m {
            self.scroll
        } else {
            m
        };
        let s1: usize = if s0 <= c {
            s0
        } else {
            c
        };
        let s: usize = if c >= s1 && c - s1 >= self.visible_count {
            c - self.visible_count + 1
        } else {
            s1
        };
        self.cursor = c;
        self.scroll = s;
        self.item_count = n;
    }

    /// Put the cursor and the window back at the top of the list.
    pub fn reset(&mut self)
        ensures
            *final(self) == (ListNav { cursor: 0, scroll: 0, ..*old(self) }),
    {
        self.cursor = 0;
        self.scroll = 0;
    }
}

/// A single-row cursor move keeps the navigation invariant, as long as the
/// visible window is at least two rows tall.
pub proof fn lemma_move_cursor_preserves_wf(nav: ListNav, delta: int)
    requires
        nav.wf(),
        nav.visible_count >= 2,
        -1 <= delta <= 1,
    ensures
        spec_move(nav, delta).wf(),
{
}

/// The navigation invariant holds after every call of any sequence of
/// single-row cursor moves, on any list the invariant held for at the start.
pub proof fn lemma_move_cursor_sequence_preserves_wf(nav: ListNav, deltas: Seq<int>)
    requires
        nav.wf(),
        nav.visible_count >= 2,
        forall|k: int| 0 <= k < deltas.len() ==> -1 <= #[trigger] deltas[k] <= 1,
    ensures
        spec_moves(nav, deltas).wf(),
    decreases deltas.len(),
{
    if deltas.len() > 0 {
        lemma_move_cursor_preserves_wf(nav, deltas[0]);
        lemma_move_cursor_sequence_preserves_wf(spec_move(nav, deltas[0]), deltas.drop_first());
    }
}

/// The state after a whole sequence of cursor moves.
pub open spec fn spec_moves(nav: ListNav, deltas: Seq<int>) -> ListNav
    decreases deltas.len(),
{
    if deltas.len() == 0 {
        nav
    } else {
        spec_moves(spec_move(nav, deltas[0]), deltas.drop_first())
    }
}

/// A zero-delta move is idempotent on a well-formed list whose window is at
/// least two rows tall: applying it twice leaves exactly the state that
/// applying it once does.
pub proof fn lemma_move_zero_idempotent(nav: ListNav)
    requires
        nav.wf(),
        nav.visible_count >= 2,
    ensures
        spec_move(spec_move(nav, 0), 0) == spec_move(nav, 0),
{
}

/// The ordered, cyclic tab enumeration. Exactly one tab is active at a time;
/// joystick left and right move through the cycle with wraparound.
#[derive(Clone, Copy, Debug, PartialEq, Eq, Structural)]
pub enum Tab {
    Files,
    Network,
    Bluetooth,
    Player,
}

impl Tab {
    /// The tab one step to the right, wrapping around.
    pub open spec fn spec_next(self) -> Tab {
        match self {
            Tab::Files => Tab::Network,
            Tab::Network => Tab::Bluetooth,
            Tab::Bluetooth => Tab::Player,
            Tab::Player => Tab::Files,
        }
    }

    /// The tab one step to the left, wrapping around.
    pub open spec fn spec_prev(self) -> Tab {
        match self {
            Tab::Files => Tab::Player,
            Tab::Network => Tab::Files,
            Tab::Bluetooth => Tab::Network,
            Tab::Player => Tab::Bluetooth,
        }
    }

    pub fn next(self) -> (t: Tab)
        ensures
            t == self.spec_next(),
    {
        match self {
            Tab::Files => Tab::Network,
            Tab::Network => Tab::Bluetooth,
            Tab::Bluetooth => Tab::Player,
            Tab::Player => Tab::Files,
        }
    }

    pub fn prev(self) -> (t: Tab)
        ensures
            t == self.spec_prev(),
    {
        match self {
            Tab::Files => Tab::Player,
            Tab::Network => Tab::Files,
            Tab::Bluetooth => Tab::Network,
            Tab::Player => Tab::Bluetooth,
        }
    }
}

/// Four consecutive right moves cycle any tab back to itself, visiting each
/// of the four tabs once.
pub proof fn lemma_tab_cycle(t: Tab)
    ensures
        t.spec_next().spec_next().spec_next().spec_next() == t,
        t.spec_next() != t,
        t.spec_next().spec_next() != t,
        t.spec_next().spec_next().spec_next() != t,
{
}

/// A right move followed by a left move returns to the same tab, and the
/// other way round.
pub proof fn lemma_tab_next_prev(t: Tab)
    ensures
        t.spec_next().spec_prev() == t,
        t.spec_prev().spec_next() == t,
{
}

} // verus!
