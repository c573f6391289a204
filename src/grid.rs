//! Rectangular grids of sensor readings and the shape check that admits them.
//!
//! A reading is held as the binary32 (IEEE-754 single precision) encoding of
//! the measured value, so a grid carries exactly what was received.
use vstd::prelude::*;

verus! {

/// The content of a grid: its dimensions and its rows of cell encodings.
pub struct GridView {
    pub rows: nat,
    pub cols: nat,
    pub data: Seq<Seq<u32>>,
}

/// Every row of `data` has exactly `n` cells.
pub open spec fn rows_have_len(data: Seq<Seq<u32>>, n: nat) -> bool {
    forall|i: int| 0 <= i < data.len() ==> (#[trigger] data[i]).len() == n
}

impl GridView {
    /// `rows` rows of `cols` cells each; a grid without rows has no width.
    pub open spec fn is_rectangular(self) -> bool {
        &&& self.data.len() == self.rows
        &&& rows_have_len(self.data, self.cols)
        &&& self.rows == 0 ==> self.cols == 0
    }

    /// A grid that the shape check admits: rectangular, and with at least
    /// one cell per row whenever it has a row.
    pub open spec fn is_valid(self) -> bool {
        &&& self.is_rectangular()
        &&& self.rows > 0 ==> self.cols > 0
    }
}

/// The grid that rows `data` form, if they form one: no rows at all give the
/// zero-size grid; otherwise the first row sets the width, which must be
/// nonzero and shared by every row.
pub open spec fn grid_of(data: Seq<Seq<u32>>) -> Option<GridView> {
    if data.len() == 0 {
        Some(GridView { rows: 0, cols: 0, data })
    } else if data[0].len() > 0 && rows_have_len(data, data[0].len()) {
        Some(GridView { rows: data.len(), cols: data[0].len(), data })
    } else {
        None
    }
}

/// Why a payload yields no grid.
#[derive(Clone, Copy, Debug, PartialEq, Eq, Structural)]
pub enum DecodeFailure {
    /// Neither accepted reading of the payload produced rows of numbers.
    NotJson,
    /// Rows were read, but they do not form a grid.
    Malformed,
}

/// A validated rectangular grid of readings. It is built only by the shape
/// check and never changes afterwards.
#[derive(Debug)]
pub struct GridFrame {
    rows: usize,
    cols: usize,
    data: Vec<Vec<u32>>,
}

impl View for GridFrame {
    type V = GridView;

    closed spec fn view(&self) -> GridView {
        GridView { rows: self.rows as nat, cols: self.cols as nat, data: self.data.deep_view() }
    }
}

impl GridFrame {
    #[verifier::type_invariant]
    closed spec fn inv(self) -> bool {
        self@.is_valid()
    }

    pub fn rows(&self) -> (r: usize)
        ensures
            r == self@.rows,
            self@.is_valid(),
    {
        proof {
            use_type_invariant(self);
        }
        self.rows
    }

    pub fn cols(&self) -> (r: usize)
        ensures
            r == self@.cols,
            self@.is_valid(),
    {
        proof {
            use_type_invariant(self);
        }
        self.cols
    }

    /// The rows of the grid, top row first.
    pub fn data(&self) -> (r: &Vec<Vec<u32>>)
        ensures
            r.deep_view() == self@.data,
            self@.is_valid(),
    {
        proof {
            use_type_invariant(self);
        }
        &self.data
    }

    /// The encoding of the reading in row `r`, column `c`.
    pub fn cell(&self, r: usize, c: usize) -> (v: u32)
        requires
            r < self@.rows,
            c < self@.cols,
        ensures
            v == self@.data[r as int][c as int],
    {
        proof {
            use_type_invariant(self);
            assert(self.data.deep_view()[r as int] == self.data@[r as int]@);
        }
        self.data[r][c]
    }

    /// An equal copy of the grid.
    pub fn copy(&self) -> (g: GridFrame)
        ensures
            g@ == self@,
            g@.is_valid(),
    {
        proof {
            use_type_invariant(self);
        }
        let mut data: Vec<Vec<u32>> = Vec::new();
        let mut i: usize = 0;
        while i < self.data.len()
            invariant
                i <= self.data@.len(),
                data@.len() == i,
                forall|k: int| 0 <= k < i ==> (#[trigger] data@[k])@ == self.data@[k]@,
            decreases self.data@.len() - i,
        {
            data.push(self.data[i].clone());
            i = i + 1;
        }
        proof {
            assert(data.deep_view() =~= self.data.deep_view());
        }
        GridFrame { rows: self.rows, cols: self.cols, data }
    }
}

/// Admits rows `v` as a grid, by the rule of `grid_of`.
pub fn to_grid(v: Vec<Vec<u32>>) -> (r: Option<GridFrame>)
    ensures
        match r {
            Some(g) => grid_of(v.deep_view()) == Some(g@),
            None => grid_of(v.deep_view()) is None,
        },
{
    let rows = v.len();
    if rows == 0 {
        return Some(GridFrame { rows: 0, cols: 0, data: v });
    }
    let cols = v[0].len();
    if cols == 0 {
        return None;
    }
    let mut i: usize = 0;
    while i < rows
        invariant
            rows == v@.len(),
            cols == v@[0]@.len(),
            i <= rows,
            forall|k: int| 0 <= k < i ==> (#[trigger] v@[k])@.len() == cols,
        decreases rows - i,
    {
        if v[i].len() != cols {
            proof {
                assert(v.deep_view()[i as int].len() != cols);
            }
            return None;
        }
        i = i + 1;
    }
    proof {
        assert forall|k: int| 0 <= k < v.deep_view().len() implies (#[trigger] v.deep_view()[k]).len()
            == cols by {
            assert(v@[k]@.len() == cols);
        }
    }
    Some(GridFrame { rows, cols, data: v })
}

/// What decoding makes of rows read from the payload as a bare array of
/// rows (`bare`) or, failing that, from the `grid` field of an object
/// (`wrapped`): the first reading that produced rows decides.
pub open spec fn decode_spec(bare: Option<Seq<Seq<u32>>>, wrapped: Option<Seq<Seq<u32>>>) -> Result<
    GridView,
    DecodeFailure,
> {
    match bare {
        Some(d) => shape_spec(d),
        None => match wrapped {
            Some(d) => shape_spec(d),
            None => Err(DecodeFailure::NotJson),
        },
    }
}

/// The grid that rows `d` form, or `Malformed`.
pub open spec fn shape_spec(d: Seq<Seq<u32>>) -> Result<GridView, DecodeFailure> {
    match grid_of(d) {
        Some(g) => Ok(g),
        None => Err(DecodeFailure::Malformed),
    }
}

/// Decoding gives back every valid grid from its own rows, whichever
/// reading of the payload produced them.
pub proof fn lemma_decode_round_trip(g: GridView, other: Option<Seq<Seq<u32>>>)
    requires
        g.is_valid(),
    ensures
        decode_spec(Some(g.data), other) == Ok::<GridView, DecodeFailure>(g),
        decode_spec(None, Some(g.data)) == Ok::<GridView, DecodeFailure>(g),
{
    if g.rows > 0 {
        assert(g.data[0].len() == g.cols);
    }
}

/// Rows of unequal lengths are `Malformed`, whichever reading produced
/// them: no grid is made of part of them.
pub proof fn lemma_ragged_rows_malformed(data: Seq<Seq<u32>>, i: int, j: int, other: Option<Seq<Seq<u32>>>)
    requires
        0 <= i < data.len(),
        0 <= j < data.len(),
        data[i].len() != data[j].len(),
    ensures
        shape_spec(data) == Err::<GridView, DecodeFailure>(DecodeFailure::Malformed),
        decode_spec(Some(data), other) == Err::<GridView, DecodeFailure>(DecodeFailure::Malformed),
        decode_spec(None, Some(data)) == Err::<GridView, DecodeFailure>(DecodeFailure::Malformed),
{
    if rows_have_len(data, data[0].len()) {
        assert(data[i].len() == data[0].len());
        assert(data[j].len() == data[0].len());
    }
}

/// The rows that one reading of the payload produced, if any.
pub open spec fn rows_view(o: Option<Vec<Vec<u32>>>) -> Option<Seq<Seq<u32>>> {
    match o {
        Some(v) => Some(v.deep_view()),
        None => None,
    }
}

/// Decodes a payload from the rows that its two accepted readings produced:
/// the bare array of rows is tried first, the `grid` field of an object
/// second.
pub fn decode(bare: Option<Vec<Vec<u32>>>, wrapped: Option<Vec<Vec<u32>>>) -> (r: Result<
    GridFrame,
    DecodeFailure,
>)
    ensures
        match r {
            Ok(g) => decode_spec(rows_view(bare), rows_view(wrapped)) == Ok::<
                GridView,
                DecodeFailure,
            >(g@),
            Err(e) => decode_spec(rows_view(bare), rows_view(wrapped)) == Err::<
                GridView,
                DecodeFailure,
            >(e),
        },
{
    let rows = match bare {
        Some(v) => v,
        None => match wrapped {
            Some(v) => v,
            None => return Err(DecodeFailure::NotJson),
        },
    };
    match to_grid(rows) {
        Some(g) => Ok(g),
        None => Err(DecodeFailure::Malformed),
    }
}

} // verus!
