//! The mapping from a grid of readings to the six-slot actuator command.
//!
//! Readings are binary32 encodings. For encodings of non-negative values,
//! comparing the encodings as unsigned integers compares the values, so the
//! clamping and the thresholds below are stated on encodings.
use vstd::prelude::*;
use crate::grid::{GridFrame, GridView};

verus! {

/// The state that every slot takes when no reading reaches it: the
/// deflated state.
pub const DEFAULT_STATE: u8 = 1;

/// Number of slots in a command: two rows of three actuators.
pub const SLOTS: usize = 6;

/// Number of actuator columns; the slot of cell `(r, c)` is `r * 3 + c`.
pub const SLOT_COLS: usize = 3;

/// The sign bit of a binary32 encoding.
pub const SIGN_BIT: u32 = 0x8000_0000;

/// The encoding of positive infinity; larger magnitudes are NaN.
pub const INFINITY_BITS: u32 = 0x7F80_0000;

/// The encoding of 1.0.
pub const ONE_BITS: u32 = 0x3F80_0000;

/// The encoding of 0.25.
pub const QUARTER_BITS: u32 = 0x3E80_0000;

/// The encoding of 0.5.
pub const HALF_BITS: u32 = 0x3F00_0000;

/// The encoding of 0.75.
pub const THREE_QUARTERS_BITS: u32 = 0x3F40_0000;

/// `b` encodes a NaN: all exponent bits set and a nonzero fraction.
pub open spec fn is_nan_bits(b: u32) -> bool {
    b % SIGN_BIT > INFINITY_BITS
}

/// `b` has its sign bit set (a negative value or -0.0).
pub open spec fn is_negative_bits(b: u32) -> bool {
    b >= SIGN_BIT
}

/// The reading clamped into [0.0, 1.0], with NaN taken as 0.0 (encoding 0).
pub open spec fn clamp_bits(b: u32) -> u32 {
    if is_nan_bits(b) || is_negative_bits(b) {
        0
    } else if b > ONE_BITS {
        ONE_BITS
    } else {
        b
    }
}

/// The actuator state for one reading: below 0.25 state 4, below 0.5 state
/// 3, below 0.75 state 2, else state 1. A higher pressure gives a lower
/// state number.
pub open spec fn state_of(b: u32) -> u8 {
    let c = clamp_bits(b);
    if c < QUARTER_BITS {
        4
    } else if c < HALF_BITS {
        3
    } else if c < THREE_QUARTERS_BITS {
        2
    } else {
        1
    }
}

/// The state of slot `i`: the reading at row `i / 3`, column `i % 3` if the
/// grid has that cell, else the default state.
pub open spec fn slot_state(g: GridView, i: int) -> u8 {
    let r = i / 3;
    let c = i % 3;
    if r < g.rows && c < g.cols {
        state_of(g.data[r][c])
    } else {
        DEFAULT_STATE
    }
}

/// The command for grid `g`: one state per slot.
pub open spec fn node_states(g: GridView) -> Seq<u8> {
    Seq::new(6, |i: int| slot_state(g, i))
}

/// Every slot of every command holds a state from 1 to 4.
pub proof fn lemma_states_in_range(g: GridView)
    ensures
        node_states(g).len() == SLOTS,
        forall|i: int| 0 <= i < SLOTS ==> 1 <= #[trigger] node_states(g)[i] <= 4,
{
}

/// The top-left part of `g` that the command reads: at most two rows and
/// three columns.
pub open spec fn window(g: GridView) -> GridView {
    let rows = if g.rows < 2 {
        g.rows
    } else {
        2
    };
    let cols = if g.cols < 3 {
        g.cols
    } else {
        3
    };
    GridView {
        rows,
        cols,
        data: Seq::new(rows, |r: int| g.data[r].subrange(0, cols as int)),
    }
}

/// A grid and its top-left two-by-three part give the same command: cells
/// outside that part are never read.
pub proof fn lemma_only_window_read(g: GridView)
    requires
        g.is_valid(),
    ensures
        window(g).is_valid(),
        node_states(g) == node_states(window(g)),
{
    let w = window(g);
    assert(node_states(g) =~= node_states(w));
}

/// In the command for a one-by-one grid, slot 0 reflects the single reading
/// and the other five slots hold the default state.
pub proof fn lemma_single_cell(g: GridView)
    requires
        g.is_valid(),
        g.rows == 1,
        g.cols == 1,
    ensures
        node_states(g)[0] == state_of(g.data[0][0]),
        forall|i: int| 1 <= i < SLOTS ==> #[trigger] node_states(g)[i] == DEFAULT_STATE,
{
}

/// The actuator state for the reading encoded by `bits`.
pub fn node_state(bits: u32) -> (s: u8)
    ensures
        s == state_of(bits),
        1 <= s <= 4,
{
    let mut v = bits;
    if v % SIGN_BIT > INFINITY_BITS {
        v = 0;
    }
    if v >= SIGN_BIT {
        v = 0;
    }
    if v > ONE_BITS {
        v = ONE_BITS;
    }
    if v < QUARTER_BITS {
        4
    } else if v < HALF_BITS {
        3
    } else if v < THREE_QUARTERS_BITS {
        2
    } else {
        1
    }
}

/// The state of slot `i` of the command for `grid`.
fn slot(grid: &GridFrame, i: usize) -> (s: u8)
    requires
        i < SLOTS,
    ensures
        s == slot_state(grid@, i as int),
{
    let r = i / SLOT_COLS;
    let c = i % SLOT_COLS;
    if r < grid.rows() && c < grid.cols() {
        node_state(grid.cell(r, c))
    } else {
        DEFAULT_STATE
    }
}

/// The six-slot command for `grid`. Only its top-left two rows and three
/// columns are read; slots that no cell reaches keep the default state.
pub fn quantize(grid: &GridFrame) -> (s: [u8; 6])
    ensures
        s@ == node_states(grid@),
{
    let s = [slot(grid, 0), slot(grid, 1), slot(grid, 2), slot(grid, 3), slot(grid, 4), slot(grid, 5)];
    proof {
        assert(s@ =~= node_states(grid@));
    }
    s
}

} // verus!
