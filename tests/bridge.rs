use ble_receiver::bridge::{status_bytes, WriteOutcome};
use ble_receiver::grid::{decode, to_grid, DecodeFailure};
use ble_receiver::history::{BridgeState, Snapshot, HISTORY_MAX};
use ble_receiver::quantize::{node_state, quantize, DEFAULT_STATE};

fn to_bits(v: Vec<Vec<f32>>) -> Vec<Vec<u32>> {
    v.into_iter().map(|r| r.into_iter().map(f32::to_bits).collect()).collect()
}

/// The rows that the bare reading and the `grid`-field reading of a JSON
/// payload produce.
fn readings(payload: &[u8]) -> (Option<Vec<Vec<u32>>>, Option<Vec<Vec<u32>>>) {
    let bare = serde_json::from_slice::<Vec<Vec<f32>>>(payload).ok().map(to_bits);
    let wrapped = serde_json::from_slice::<serde_json::Value>(payload)
        .ok()
        .and_then(|v| v.get("grid").cloned())
        .and_then(|g| serde_json::from_value::<Vec<Vec<f32>>>(g).ok())
        .map(to_bits);
    (bare, wrapped)
}

fn decode_payload(payload: &[u8]) -> Result<ble_receiver::grid::GridFrame, DecodeFailure> {
    let (bare, wrapped) = readings(payload);
    decode(bare, wrapped)
}

fn write(state: &mut BridgeState, payload: &[u8]) -> WriteOutcome {
    let (bare, wrapped) = readings(payload);
    state.handle_write(payload, bare, wrapped)
}

fn grid_of(rows: Vec<Vec<f32>>) -> ble_receiver::grid::GridFrame {
    to_grid(to_bits(rows)).unwrap()
}

#[test]
fn round_trip_bare_array() {
    let rows = vec![vec![0.1f32, 0.9, 0.5], vec![0.3, 0.0, 1.0]];
    let text = serde_json::to_vec(&rows).unwrap();
    let g = decode_payload(&text).unwrap();
    assert_eq!(g.rows(), 2);
    assert_eq!(g.cols(), 3);
    assert_eq!(g.data(), &to_bits(rows));
}

#[test]
fn round_trip_wrapped_object() {
    let rows = vec![vec![-3.5f32], vec![1e-7], vec![12345.678]];
    let mut obj = serde_json::Map::new();
    obj.insert("grid".to_string(), serde_json::to_value(&rows).unwrap());
    let text = serde_json::to_vec(&serde_json::Value::Object(obj)).unwrap();
    let g = decode_payload(&text).unwrap();
    assert_eq!(g.rows(), 3);
    assert_eq!(g.cols(), 1);
    assert_eq!(g.data(), &to_bits(rows));
}

#[test]
fn empty_outer_array_is_zero_size_grid() {
    let g = decode_payload(b"[]").unwrap();
    assert_eq!(g.rows(), 0);
    assert_eq!(g.cols(), 0);
    assert!(g.data().is_empty());
}

#[test]
fn ragged_rows_are_malformed() {
    assert_eq!(decode_payload(b"[[1,2],[3]]").unwrap_err(), DecodeFailure::Malformed);
    assert_eq!(
        decode_payload(b"{\"grid\":[[1],[2,3]]}").unwrap_err(),
        DecodeFailure::Malformed
    );
}

#[test]
fn zero_width_rows_are_malformed() {
    assert_eq!(decode_payload(b"[[]]").unwrap_err(), DecodeFailure::Malformed);
    assert_eq!(decode_payload(b"[[],[]]").unwrap_err(), DecodeFailure::Malformed);
}

#[test]
fn payload_without_rows_is_not_json() {
    assert_eq!(decode_payload(b"{}").unwrap_err(), DecodeFailure::NotJson);
    assert_eq!(decode_payload(b"[1,2]").unwrap_err(), DecodeFailure::NotJson);
    assert_eq!(decode(None, None).unwrap_err(), DecodeFailure::NotJson);
}

#[test]
fn bare_reading_decides_before_wrapped() {
    let bare = Some(vec![vec![1u32, 2], vec![3]]);
    let wrapped = Some(vec![vec![1u32]]);
    assert_eq!(decode(bare, wrapped).unwrap_err(), DecodeFailure::Malformed);
    let g = decode(None, Some(vec![vec![7u32, 8]])).unwrap();
    assert_eq!(g.data(), &vec![vec![7u32, 8]]);
}

#[test]
fn quantize_thresholds() {
    assert_eq!(node_state(f32::NAN.to_bits()), 4);
    assert_eq!(node_state((-f32::NAN).to_bits()), 4);
    assert_eq!(node_state((-1.0f32).to_bits()), 4);
    assert_eq!(node_state((-0.0f32).to_bits()), 4);
    assert_eq!(node_state(2.0f32.to_bits()), 1);
    assert_eq!(node_state(f32::INFINITY.to_bits()), 1);
    assert_eq!(node_state(f32::NEG_INFINITY.to_bits()), 4);
    assert_eq!(node_state(0.0f32.to_bits()), 4);
    assert_eq!(node_state(0.2499f32.to_bits()), 4);
    assert_eq!(node_state(0.25f32.to_bits()), 3);
    assert_eq!(node_state(0.4999f32.to_bits()), 3);
    assert_eq!(node_state(0.5f32.to_bits()), 2);
    assert_eq!(node_state(0.7499f32.to_bits()), 2);
    assert_eq!(node_state(0.75f32.to_bits()), 1);
    assert_eq!(node_state(1.0f32.to_bits()), 1);
}

#[test]
fn quantize_reads_only_top_left_window() {
    let big = grid_of(vec![
        vec![0.1, 0.3, 0.6, 0.9],
        vec![0.8, 0.55, 0.26, 0.0],
        vec![0.9, 0.9, 0.9, 0.9],
    ]);
    let small = grid_of(vec![vec![0.1, 0.3, 0.6], vec![0.8, 0.55, 0.26]]);
    assert_eq!(quantize(&big), [4, 3, 2, 1, 2, 3]);
    assert_eq!(quantize(&big), quantize(&small));
}

#[test]
fn quantize_single_cell_keeps_default_elsewhere() {
    let g = grid_of(vec![vec![0.3]]);
    let d = DEFAULT_STATE;
    assert_eq!(quantize(&g), [3, d, d, d, d, d]);
}

#[test]
fn quantize_narrow_grid_uses_stride_three() {
    let g = grid_of(vec![vec![0.9, 0.0], vec![0.6, 0.3]]);
    let d = DEFAULT_STATE;
    assert_eq!(quantize(&g), [1, 4, d, 2, 3, d]);
}

#[test]
fn quantize_empty_grid_is_all_default() {
    let g = decode_payload(b"[]").unwrap();
    assert_eq!(quantize(&g), [DEFAULT_STATE; 6]);
}

#[test]
fn history_keeps_last_eight_in_order() {
    let mut st = BridgeState::new();
    for k in 1..=9u32 {
        let payload = format!("[[{}]]", k);
        let out = write(&mut st, payload.as_bytes());
        assert!(out.command.is_some());
        assert!(st.history_len() <= HISTORY_MAX);
    }
    assert_eq!(st.history_len(), 8);
    for i in 0..8usize {
        let expected = vec![vec![((i + 2) as f32).to_bits()]];
        assert_eq!(st.history_entry(i).data(), &expected);
    }
    assert_eq!(st.last_grid().unwrap().data(), &vec![vec![9.0f32.to_bits()]]);
}

#[test]
fn end_to_end_grid_payload() {
    let mut st = BridgeState::new();
    let payload = b"[[0.1,0.9,0.5],[0.3,0.0,1.0]]";
    let out = write(&mut st, payload);
    // 0.1 -> 4, 0.9 -> 1, 0.5 -> 2, 0.3 -> 3, 0.0 -> 4, 1.0 -> 1
    assert_eq!(out.command, Some([4, 1, 2, 3, 4, 1]));
    assert_eq!(out.failure, None);
    assert_eq!(out.scalar, None);
    let g = st.last_grid().unwrap();
    assert_eq!((g.rows(), g.cols()), (2, 3));
    assert_eq!(st.last_raw(), &payload.to_vec());
}

#[test]
fn non_json_payload_records_raw_only() {
    let mut st = BridgeState::new();
    let out = write(&mut st, b"not json");
    assert_eq!(out, WriteOutcome { command: None, failure: None, scalar: None });
    assert_eq!(st.last_raw(), &b"not json".to_vec());
    assert!(st.last_grid().is_none());
    assert_eq!(st.history_len(), 0);
}

#[test]
fn empty_object_payload_records_raw_only() {
    let mut st = BridgeState::new();
    let out = write(&mut st, b"{}");
    assert_eq!(out.command, None);
    assert_eq!(out.failure, Some(DecodeFailure::NotJson));
    assert_eq!(out.scalar, None);
    assert_eq!(st.last_raw(), &b"{}".to_vec());
    assert!(st.last_grid().is_none());
}

#[test]
fn failed_decode_keeps_previous_grid() {
    let mut st = BridgeState::new();
    write(&mut st, b"[[0.5,0.5]]");
    let out = write(&mut st, b"[[1],[2,3]]");
    assert_eq!(out.failure, Some(DecodeFailure::Malformed));
    assert_eq!(out.command, None);
    assert_eq!(st.last_raw().len(), 11);
    assert_eq!(st.last_grid().unwrap().cols(), 2);
    assert_eq!(st.history_len(), 1);
}

#[test]
fn four_byte_payload_reads_as_scalar() {
    let mut st = BridgeState::new();
    let bytes = 1.5f32.to_le_bytes();
    let out = write(&mut st, &bytes);
    assert_eq!(out.scalar, Some(1.5f32.to_bits()));
    assert_eq!(out.command, None);
    assert_eq!(out.failure, None);
    assert_eq!(st.last_raw().len(), 4);
    let out = write(&mut st, b"[[]]");
    assert_eq!(out.scalar, None);
    assert_eq!(out.failure, Some(DecodeFailure::Malformed));
}

#[test]
fn empty_payload_records_raw_only() {
    let mut st = BridgeState::new();
    write(&mut st, b"[[0.5]]");
    let out = write(&mut st, b"");
    assert_eq!(out, WriteOutcome { command: None, failure: None, scalar: None });
    assert_eq!(st.last_raw().len(), 0);
    assert_eq!(st.history_len(), 1);
}

#[test]
fn status_of_fresh_state() {
    let st = BridgeState::new();
    assert_eq!(
        String::from_utf8(st.status()).unwrap(),
        "WHV Pi5 Receiver v0.1 | last_raw=0 bytes | last_grid=0x0 | history=0"
    );
    assert_eq!(st.snapshot(), Snapshot { raw_len: 0, grid: None, history_len: 0 });
}

#[test]
fn read_after_write_sees_whole_write() {
    let mut st = BridgeState::new();
    let payload = b"{\"grid\":[[0.1,0.2,0.3,0.4],[0.5,0.6,0.7,0.8]]}";
    write(&mut st, payload);
    assert_eq!(
        st.snapshot(),
        Snapshot { raw_len: payload.len(), grid: Some((2, 4)), history_len: 1 }
    );
    assert_eq!(
        String::from_utf8(st.status()).unwrap(),
        format!("WHV Pi5 Receiver v0.1 | last_raw={} bytes | last_grid=2x4 | history=1", payload.len())
    );
}

#[test]
fn status_bytes_prints_decimals() {
    let s = status_bytes(1234567, 10, 305, 8);
    assert_eq!(
        String::from_utf8(s).unwrap(),
        "WHV Pi5 Receiver v0.1 | last_raw=1234567 bytes | last_grid=10x305 | history=8"
    );
}

#[test]
fn copy_is_equal() {
    let g = grid_of(vec![vec![0.25, 0.5], vec![0.75, 1.0]]);
    let c = g.copy();
    assert_eq!(c.data(), g.data());
    assert_eq!((c.rows(), c.cols()), (2, 2));
}
