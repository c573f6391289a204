//! The write path and the read path of the bridge, as steps on the shared
//! state: the caller holds the state's lock around each step, performs the
//! serial transmission that a step asks for after releasing it, and sends
//! the status bytes back to the reader.
use vstd::prelude::*;
use vstd::string::StringSliceAdditionalSpecFns;
use crate::grid::{decode, decode_spec, rows_view, DecodeFailure, GridView};
use crate::history::{appended, snapshot_of, BridgeState, BridgeView, HISTORY_MAX};
use crate::quantize::{node_states, quantize};

verus! {

/// The first byte of a JSON object.
pub const OPEN_BRACE: u8 = 0x7B;

/// The first byte of a JSON array.
pub const OPEN_BRACKET: u8 = 0x5B;

/// The product and version that open the status text.
pub const PRODUCT: &'static str = "WHV Pi5 Receiver v0.1";

/// `d` starts like a JSON text: its first byte opens an object or an array.
pub open spec fn is_json_tagged(d: Seq<u8>) -> bool {
    d.len() > 0 && (d[0] == OPEN_BRACE || d[0] == OPEN_BRACKET)
}

/// The unsigned integer that four bytes encode, least significant first.
pub open spec fn le_u32(d: Seq<u8>) -> u32 {
    (d[0] + d[1] * 0x100 + d[2] * 0x1_0000 + d[3] * 0x100_0000) as u32
}

/// What one write asks of its caller after the state was updated.
#[derive(Clone, Copy, Debug, PartialEq, Eq)]
pub struct WriteOutcome {
    /// The command to send over the serial link, when a grid was admitted.
    pub command: Option<[u8; 6]>,
    /// Why a payload that starts like JSON yielded no grid.
    pub failure: Option<DecodeFailure>,
    /// For a four-byte payload that does not start like JSON: the payload read
    /// as a little-endian binary32 encoding, for diagnostics only.
    pub scalar: Option<u32>,
}

/// `d` starts like a JSON text.
pub fn json_tagged(d: &[u8]) -> (r: bool)
    ensures
        r == is_json_tagged(d@),
{
    d.len() > 0 && (d[0] == OPEN_BRACE || d[0] == OPEN_BRACKET)
}

/// The little-endian value of a four-byte payload.
pub fn read_le_u32(d: &[u8]) -> (r: u32)
    requires
        d@.len() == 4,
    ensures
        r == le_u32(d@),
{
    d[0] as u32 + (d[1] as u32) * 0x100 + (d[2] as u32) * 0x1_0000 + (d[3] as u32) * 0x100_0000
}

/// The state that a write of payload `d` leaves, where `parsed` is what
/// decoding made of it.
pub open spec fn state_after_write(
    s: BridgeView,
    d: Seq<u8>,
    parsed: Result<GridView, DecodeFailure>,
) -> BridgeView {
    if is_json_tagged(d) && parsed is Ok {
        BridgeView {
            last_raw: d,
            last_grid: Some(parsed->Ok_0),
            history: appended(s.history, parsed->Ok_0),
        }
    } else {
        BridgeView { last_raw: d, ..s }
    }
}

/// A read after a write sees the whole write: the raw length is the
/// payload's, the grid dimensions are those of the grid just admitted (or
/// unchanged when none was), and the history length agrees with them.
pub proof fn lemma_read_after_write(
    s: BridgeView,
    d: Seq<u8>,
    parsed: Result<GridView, DecodeFailure>,
)
    requires
        s.wf(),
        d.len() <= usize::MAX,
        parsed is Ok ==> parsed->Ok_0.is_valid(),
    ensures
        state_after_write(s, d, parsed).wf(),
        snapshot_of(state_after_write(s, d, parsed)).0 == d.len(),
        is_json_tagged(d) && parsed is Ok ==> {
            let g = parsed->Ok_0;
            &&& snapshot_of(state_after_write(s, d, parsed)).1 == Some((g.rows, g.cols))
            &&& snapshot_of(state_after_write(s, d, parsed)).2 == if s.history.len()
                < HISTORY_MAX {
                s.history.len() + 1
            } else {
                HISTORY_MAX as nat
            }
        },
        !(is_json_tagged(d) && parsed is Ok) ==> {
            &&& snapshot_of(state_after_write(s, d, parsed)).1 == snapshot_of(s).1
            &&& snapshot_of(state_after_write(s, d, parsed)).2 == snapshot_of(s).2
        },
{
    if is_json_tagged(d) && parsed is Ok {
        let g = parsed->Ok_0;
        let h = appended(s.history, g);
        let n = s.history.push(g);
        assert forall|i: int| 0 <= i < h.len() implies (#[trigger] h[i]).is_valid() by {
            if n.len() > HISTORY_MAX {
                assert(h[i] == n[i + 1]);
            } else {
                assert(h[i] == n[i]);
            }
        }
    }
}

impl BridgeState {
    /// Handles one payload written to the bridge. The payload is always
    /// recorded as the latest raw bytes. One that starts like JSON is decoded
    /// from the rows that its bare reading (`bare`) and its `grid`-field
    /// reading (`wrapped`) produced; an admitted grid is recorded and its
    /// command returned for sending, a failure is returned for logging. A
    /// four-byte payload that does not start like JSON is returned as a
    /// scalar for logging.
    pub fn handle_write(
        &mut self,
        data: &[u8],
        bare: Option<Vec<Vec<u32>>>,
        wrapped: Option<Vec<Vec<u32>>>,
    ) -> (r: WriteOutcome)
        requires
            old(self)@.wf(),
        ensures
            final(self)@.wf(),
            final(self)@ == state_after_write(
                old(self)@,
                data@,
                decode_spec(rows_view(bare), rows_view(wrapped)),
            ),
            is_json_tagged(data@) ==> match decode_spec(rows_view(bare), rows_view(wrapped)) {
                Ok(g) => r.command is Some && r.command->Some_0@ == node_states(g) && r.failure
                    is None,
                Err(e) => r.command is None && r.failure == Some(e),
            },
            !is_json_tagged(data@) ==> r.command is None && r.failure is None,
            r.scalar == (if !is_json_tagged(data@) && data@.len() == 4 {
                Some(le_u32(data@))
            } else {
                None
            }),
    {
        self.record_raw(data);
        let tagged = json_tagged(data);
        let mut command: Option<[u8; 6]> = None;
        let mut failure: Option<DecodeFailure> = None;
        if tagged {
            match decode(bare, wrapped) {
                Ok(grid) => {
                    command = Some(quantize(&grid));
                    self.record_grid(grid);
                },
                Err(e) => {
                    failure = Some(e);
                },
            }
        }
        let scalar = if !tagged && data.len() == 4 {
            Some(read_le_u32(data))
        } else {
            None
        };
        WriteOutcome { command, failure, scalar }
    }

    /// The status text for the current state, as bytes.
    pub fn status(&self) -> (r: Vec<u8>)
        ensures
            r@ == status_text(snapshot_of(self@)),
    {
        let p = self.snapshot();
        let (rows, cols) = match p.grid {
            Some(d) => d,
            None => (0, 0),
        };
        status_bytes(p.raw_len, rows, cols, p.history_len)
    }
}

/// The decimal digits of `n`, most significant first.
pub open spec fn decimal(n: nat) -> Seq<u8>
    decreases n,
{
    if n < 10 {
        seq![(48 + n) as u8]
    } else {
        decimal(n / 10).push((48 + n % 10) as u8)
    }
}

/// The status text: product, raw length, grid dimensions (0x0 without a
/// grid) and history length.
pub open spec fn status_text(p: (usize, Option<(nat, nat)>, nat)) -> Seq<u8> {
    let (rows, cols) = match p.1 {
        Some(d) => d,
        None => (0, 0),
    };
    PRODUCT.spec_bytes() + " | last_raw=".spec_bytes() + decimal(p.0 as nat)
        + " bytes | last_grid=".spec_bytes() + decimal(rows) + "x".spec_bytes() + decimal(cols)
        + " | history=".spec_bytes() + decimal(p.2)
}

/// Appends the bytes of `s` to `out`.
fn push_str(out: &mut Vec<u8>, s: &str)
    ensures
        final(out)@ == old(out)@ + s.spec_bytes(),
{
    let b = s.as_bytes();
    let mut i: usize = 0;
    while i < b.len()
        invariant
            i <= b@.len(),
            b@ == s.spec_bytes(),
            out@ == old(out)@ + b@.subrange(0, i as int),
        decreases b@.len() - i,
    {
        out.push(b[i]);
        i = i + 1;
        proof {
            assert(b@.subrange(0, i as int) =~= b@.subrange(0, i - 1).push(b@[i - 1]));
        }
    }
    proof {
        assert(b@.subrange(0, b@.len() as int) =~= b@);
    }
}

/// Appends the decimal digits of `n` to `out`.
fn push_decimal(out: &mut Vec<u8>, n: usize)
    ensures
        final(out)@ == old(out)@ + decimal(n as nat),
    decreases n,
{
    let ghost o0 = out@;
    if n >= 10 {
        push_decimal(out, n / 10);
    }
    out.push((48 + n % 10) as u8);
    proof {
        assert(out@ =~= o0 + decimal(n as nat));
    }
}

/// The status text for the given raw length, grid dimensions and history
/// length, as bytes.
pub fn status_bytes(raw_len: usize, rows: usize, cols: usize, history_len: usize) -> (r: Vec<
    u8,
>)
    ensures
        r@ == status_text((raw_len, Some((rows as nat, cols as nat)), history_len as nat)),
{
    let mut out: Vec<u8> = Vec::new();
    push_str(&mut out, PRODUCT);
    push_str(&mut out, " | last_raw=");
    push_decimal(&mut out, raw_len);
    push_str(&mut out, " bytes | last_grid=");
    push_decimal(&mut out, rows);
    push_str(&mut out, "x");
    push_decimal(&mut out, cols);
    push_str(&mut out, " | history=");
    push_decimal(&mut out, history_len);
    proof {
        let t = status_text((raw_len, Some((rows as nat, cols as nat)), history_len as nat));
        assert(out@ =~= t);
    }
    out
}

} // verus!
