//! The bridge's shared state: the latest raw payload, the latest grid and a
//! bounded first-in first-out history of recent grids.
use vstd::prelude::*;
use std::collections::VecDeque;
use crate::grid::{GridFrame, GridView};

verus! {

/// The most grids that the history keeps.
pub const HISTORY_MAX: usize = 8;

/// The content of the state.
pub struct BridgeView {
    pub last_raw: Seq<u8>,
    pub last_grid: Option<GridView>,
    pub history: Seq<GridView>,
}

impl BridgeView {
    /// At most `HISTORY_MAX` grids are kept, each of them valid, and the
    /// latest grid is the newest one kept (absent exactly when none is).
    pub open spec fn wf(self) -> bool {
        &&& self.history.len() <= HISTORY_MAX
        &&& forall|i: int| 0 <= i < self.history.len() ==> (#[trigger] self.history[i]).is_valid()
        &&& self.last_grid == newest(self.history)
    }
}

/// The newest grid of history `h`, if it holds one.
pub open spec fn newest(h: Seq<GridView>) -> Option<GridView> {
    if h.len() == 0 {
        None
    } else {
        Some(h.last())
    }
}

/// History `h` after `g` is appended: the oldest entries leave until at
/// most `HISTORY_MAX` remain.
pub open spec fn appended(h: Seq<GridView>, g: GridView) -> Seq<GridView> {
    let n = h.push(g);
    if n.len() > HISTORY_MAX {
        n.subrange(n.len() - HISTORY_MAX, n.len() as int)
    } else {
        n
    }
}

/// The history that appending each grid of `gs` in turn, starting from an
/// empty history, leaves.
pub open spec fn history_after(gs: Seq<GridView>) -> Seq<GridView>
    decreases gs.len(),
{
    if gs.len() == 0 {
        Seq::empty()
    } else {
        appended(history_after(gs.drop_last()), gs.last())
    }
}

/// The history is always the last `HISTORY_MAX` grids appended (all of
/// them, if fewer were appended), oldest first: each append evicts only
/// the oldest entry, and the rest keep their order.
pub proof fn lemma_history_is_suffix(gs: Seq<GridView>)
    ensures
        history_after(gs) == gs.subrange(
            if gs.len() > HISTORY_MAX {
                gs.len() - HISTORY_MAX
            } else {
                0
            },
            gs.len() as int,
        ),
        history_after(gs).len() <= HISTORY_MAX,
    decreases gs.len(),
{
    if gs.len() == 0 {
        assert(history_after(gs) =~= gs.subrange(0, 0));
    } else {
        let p = gs.drop_last();
        lemma_history_is_suffix(p);
        let lo: int = if p.len() > HISTORY_MAX {
            p.len() - HISTORY_MAX
        } else {
            0
        };
        let lo2: int = if gs.len() > HISTORY_MAX {
            gs.len() - HISTORY_MAX
        } else {
            0
        };
        let n = p.subrange(lo, p.len() as int).push(gs.last());
        if n.len() > HISTORY_MAX {
            assert(n.subrange(n.len() - HISTORY_MAX, n.len() as int) =~= gs.subrange(
                lo2,
                gs.len() as int,
            ));
        } else {
            assert(n =~= gs.subrange(lo2, gs.len() as int));
        }
    }
}

/// What a status read reports of the state.
#[derive(Clone, Copy, Debug, PartialEq, Eq)]
pub struct Snapshot {
    /// Length of the latest raw payload.
    pub raw_len: usize,
    /// Rows and columns of the latest grid, if there is one.
    pub grid: Option<(usize, usize)>,
    /// Number of grids in the history.
    pub history_len: usize,
}

/// The snapshot of state `s`.
pub open spec fn snapshot_of(s: BridgeView) -> (usize, Option<(nat, nat)>, nat) {
    (
        s.last_raw.len() as usize,
        match s.last_grid {
            Some(g) => Some((g.rows, g.cols)),
            None => None,
        },
        s.history.len(),
    )
}

/// The fields of snapshot `p`, in the shape of `snapshot_of`.
pub open spec fn snapshot_view(p: Snapshot) -> (usize, Option<(nat, nat)>, nat) {
    (
        p.raw_len,
        match p.grid {
            Some((r, c)) => Some((r as nat, c as nat)),
            None => None,
        },
        p.history_len as nat,
    )
}

/// The state shared by the write path and the read path.
pub struct BridgeState {
    last_raw: Vec<u8>,
    last_grid: Option<GridFrame>,
    history: VecDeque<GridFrame>,
}

/// The content of an optional grid.
pub open spec fn grid_view(o: Option<GridFrame>) -> Option<GridView> {
    match o {
        Some(g) => Some(g@),
        None => None,
    }
}

impl View for BridgeState {
    type V = BridgeView;

    closed spec fn view(&self) -> BridgeView {
        BridgeView {
            last_raw: self.last_raw@,
            last_grid: grid_view(self.last_grid),
            history: self.history@.map_values(|g: GridFrame| g@),
        }
    }
}

impl BridgeState {
    /// The state at startup: no payload, no grid, an empty history.
    pub fn new() -> (s: BridgeState)
        ensures
            s@.wf(),
            s@.last_raw == Seq::<u8>::empty(),
            s@.last_grid is None,
            s@.history == Seq::<GridView>::empty(),
    {
        let s = BridgeState { last_raw: Vec::new(), last_grid: None, history: VecDeque::new() };
        proof {
            assert(s@.history =~= Seq::<GridView>::empty());
        }
        s
    }

    /// Records `data` as the latest raw payload; nothing else changes.
    pub fn record_raw(&mut self, data: &[u8])
        ensures
            final(self)@ == (BridgeView { last_raw: data@, ..old(self)@ }),
    {
        let mut raw: Vec<u8> = Vec::new();
        let mut i: usize = 0;
        while i < data.len()
            invariant
                i <= data@.len(),
                raw@ == data@.subrange(0, i as int),
            decreases data@.len() - i,
        {
            raw.push(data[i]);
            i = i + 1;
        }
        proof {
            assert(raw@ =~= data@);
        }
        self.last_raw = raw;
    }

    /// Makes `g` the latest grid and appends it to the history, evicting the
    /// oldest entry if the history would exceed `HISTORY_MAX`.
    pub fn record_grid(&mut self, g: GridFrame)
        requires
            old(self)@.wf(),
        ensures
            final(self)@.wf(),
            final(self)@.last_raw == old(self)@.last_raw,
            final(self)@.last_grid == Some(g@),
            final(self)@.history == appended(old(self)@.history, g@),
    {
        let ghost h0 = self@.history;
        self.last_grid = Some(g.copy());
        self.history.push_back(g);
        proof {
            assert(self@.history =~= h0.push(g@));
        }
        while self.history.len() > HISTORY_MAX
            invariant
                self@.history.len() <= HISTORY_MAX + 1,
                self@.history == (if self.history@.len() > HISTORY_MAX {
                    h0.push(g@)
                } else {
                    appended(h0, g@)
                }),
                self@.last_grid == Some(g@),
                self@.last_raw == old(self)@.last_raw,
                h0.len() <= HISTORY_MAX,
            decreases self.history@.len(),
        {
            self.history.pop_front();
            proof {
                assert(self@.history =~= appended(h0, g@));
            }
        }
        proof {
            assert(forall|i: int|
                0 <= i < self@.history.len() ==> (#[trigger] self@.history[i]).is_valid()) by {
                assert forall|i: int| 0 <= i < self@.history.len() implies (
                #[trigger] self@.history[i]).is_valid() by {
                    let n = h0.push(g@);
                    if i == self@.history.len() - 1 {
                        assert(self@.history[i] == g@);
                    } else if n.len() > HISTORY_MAX {
                        assert(self@.history[i] == h0[i + 1]);
                    } else {
                        assert(self@.history[i] == h0[i]);
                    }
                }
            }
        }
    }

    /// The latest raw payload.
    pub fn last_raw(&self) -> (r: &Vec<u8>)
        ensures
            r@ == self@.last_raw,
    {
        &self.last_raw
    }

    /// The latest grid, if one was admitted.
    pub fn last_grid(&self) -> (r: Option<&GridFrame>)
        ensures
            match r {
                Some(g) => self@.last_grid == Some(g@),
                None => self@.last_grid is None,
            },
    {
        match &self.last_grid {
            Some(g) => Some(g),
            None => None,
        }
    }

    /// The number of grids in the history.
    pub fn history_len(&self) -> (n: usize)
        ensures
            n == self@.history.len(),
    {
        self.history.len()
    }

    /// The grid at position `i` of the history, oldest first.
    pub fn history_entry(&self, i: usize) -> (g: &GridFrame)
        requires
            i < self@.history.len(),
        ensures
            g@ == self@.history[i as int],
    {
        &self.history[i]
    }

    /// The raw length, grid dimensions and history length, read together.
    pub fn snapshot(&self) -> (p: Snapshot)
        ensures
            snapshot_view(p) == snapshot_of(self@),
    {
        let grid = match &self.last_grid {
            Some(g) => Some((g.rows(), g.cols())),
            None => None,
        };
        Snapshot { raw_len: self.last_raw.len(), grid, history_len: self.history.len() }
    }
}

} // verus!
