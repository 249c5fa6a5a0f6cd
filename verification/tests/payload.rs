use fission_maps::payload::{decode_payload, encode_payload, is_map_payload, MapPayload};
use fission_maps::state::MapRuntimeState;
use fission_maps::surface::SurfaceLayers;
use fission_maps::widget::MapWidget;

const MARKER: &[u8] = b"fission-maps\0v1";

fn sample_map() -> MapWidget {
    MapWidget {
        center: (6.5244f64.to_bits(), 3.3792f64.to_bits()),
        zoom: 12.0f32.to_bits(),
        show_user_location: true,
        interactive: false,
        ..Default::default()
    }
}

#[test]
fn map_payload_has_a_stable_type_marker_and_round_trips() {
    let map = sample_map();
    let payload = encode_payload(&map);
    assert!(is_map_payload(&payload));
    assert_eq!(
        decode_payload(&payload).unwrap().initial_state(),
        MapRuntimeState {
            center: map.center,
            zoom: map.zoom,
            show_user_location: map.show_user_location,
            interactive: map.interactive,
        }
    );
}

#[test]
fn only_claims_valid_fission_maps_payloads() {
    let handler = SurfaceLayers::new();
    assert!(handler.handles_payload(&encode_payload(&MapWidget::default())));
    assert!(!handler.handles_payload(b"fission-maps\0v1not-bincode"));
    assert!(!handler.handles_payload(b"other-extension"));
}

#[test]
fn encoded_payload_is_the_marker_then_bincode_of_the_payload() {
    let payload = encode_payload(&sample_map());
    let body = bincode::serialize(&((6.5244f64, 3.3792f64), 12.0f32, true, false)).unwrap();
    let mut expected = MARKER.to_vec();
    expected.extend(body);
    assert_eq!(payload, expected);
    assert_eq!(payload.len(), 37);
}

#[test]
fn decoded_payload_reads_floats_written_by_bincode() {
    let mut bytes = MARKER.to_vec();
    bytes.extend(bincode::serialize(&((-33.8688f64, 151.2093f64), 3.5f32, false, true)).unwrap());
    let payload = decode_payload(&bytes).unwrap();
    assert_eq!(f64::from_bits(payload.center.0), -33.8688);
    assert_eq!(f64::from_bits(payload.center.1), 151.2093);
    assert_eq!(f32::from_bits(payload.zoom), 3.5);
    assert!(!payload.show_user_location);
    assert!(payload.interactive);
}

#[test]
fn trailing_bytes_after_the_payload_are_ignored() {
    let mut bytes = encode_payload(&sample_map());
    bytes.extend_from_slice(b"extra");
    let payload = decode_payload(&bytes).unwrap();
    assert_eq!(
        payload,
        MapPayload {
            center: (6.5244f64.to_bits(), 3.3792f64.to_bits()),
            zoom: 12.0f32.to_bits(),
            show_user_location: true,
            interactive: false,
        }
    );
}

#[test]
fn payload_without_marker_is_rejected() {
    let mut bytes = encode_payload(&sample_map());
    bytes[3] = b'S';
    assert!(decode_payload(&bytes).is_none());
    assert!(!is_map_payload(&bytes[1..]));
    assert!(!is_map_payload(b""));
    assert!(!is_map_payload(MARKER));
}

#[test]
fn truncated_payload_is_rejected() {
    let bytes = encode_payload(&sample_map());
    assert!(decode_payload(&bytes[..36]).is_none());
    assert!(decode_payload(&bytes[..37]).is_some());
}

#[test]
fn invalid_bool_byte_is_rejected() {
    let mut bytes = encode_payload(&sample_map());
    bytes[35] = 2;
    assert!(decode_payload(&bytes).is_none());
    bytes[35] = 0;
    assert!(!decode_payload(&bytes).unwrap().show_user_location);
    bytes[36] = 7;
    assert!(decode_payload(&bytes).is_none());
}

#[test]
fn default_map_payload_round_trips() {
    let map = MapWidget::default();
    let payload = decode_payload(&encode_payload(&map)).unwrap();
    assert_eq!(payload.initial_state(), MapRuntimeState::default());
}
