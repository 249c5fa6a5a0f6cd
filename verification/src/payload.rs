//! The custom embed payload through which a map hands its initial state to
//! the native surface: a fixed type marker followed by the bincode encoding
//! of the map's payload.
use vstd::prelude::*;
use vstd::bytes::{
    spec_u32_from_le_bytes, spec_u32_to_le_bytes, spec_u64_from_le_bytes, spec_u64_to_le_bytes,
    lemma_auto_spec_u32_to_from_le_bytes, lemma_auto_spec_u64_to_from_le_bytes,
};
use vstd::slice::slice_subrange;
use crate::state::MapRuntimeState;
use crate::widget::MapWidget;

verus! {

/// What the native surface needs to build a map view: the map's initial
/// centre (`f64` bit patterns), zoom (`f32` bit pattern) and flags.
#[derive(Clone, Copy, Debug, PartialEq)]
pub struct MapPayload {
    pub center: (u64, u64),
    pub zoom: u32,
    pub show_user_location: bool,
    pub interactive: bool,
}

/// The runtime state that a map starts from when its payload first reaches
/// the native surface.
pub open spec fn payload_initial_state(p: MapPayload) -> MapRuntimeState {
    MapRuntimeState {
        center: p.center,
        zoom: p.zoom,
        show_user_location: p.show_user_location,
        interactive: p.interactive,
    }
}

impl MapPayload {
    pub fn initial_state(&self) -> (state: MapRuntimeState)
        ensures
            state == payload_initial_state(*self),
            state.center == self.center,
            state.zoom == self.zoom,
            state.show_user_location == self.show_user_location,
            state.interactive == self.interactive,
    {
        MapRuntimeState {
            center: self.center,
            zoom: self.zoom,
            show_user_location: self.show_user_location,
            interactive: self.interactive,
        }
    }
}

/// The payload that carries `map` to the native surface.
pub open spec fn map_payload(map: MapWidget) -> MapPayload {
    MapPayload {
        center: map.center,
        zoom: map.zoom,
        show_user_location: map.show_user_location,
        interactive: map.interactive,
    }
}

/// The type marker `b"fission-maps\0v1"` that starts every map payload.
pub open spec fn payload_marker() -> Seq<u8> {
    seq![102u8, 105, 115, 115, 105, 111, 110, 45, 109, 97, 112, 115, 0, 118, 49]
}

/// Number of bytes of the type marker.
pub const MARKER_LEN: usize = 15;

/// Number of bytes of the bincode encoding of a payload.
pub const BODY_LEN: usize = 22;

/// The byte bincode writes for a `bool`.
pub open spec fn bool_byte(b: bool) -> u8 {
    if b {
        1
    } else {
        0
    }
}

/// bincode's encoding (little-endian, fixed-width integers) of the tuple
/// `((latitude, longitude), zoom, show_user_location, interactive)`: each
/// 64-bit and 32-bit value as its little-endian bytes, each `bool` as one
/// byte.
pub open spec fn body_bytes(latitude: u64, longitude: u64, zoom: u32, show: bool, interactive: bool) -> Seq<u8> {
    spec_u64_to_le_bytes(latitude) + spec_u64_to_le_bytes(longitude) + spec_u32_to_le_bytes(zoom)
        + seq![bool_byte(show), bool_byte(interactive)]
}

/// Whether bincode decodes such a tuple from the start of `s`: enough bytes,
/// and each `bool` byte 0 or 1. Bytes after the tuple are ignored.
pub open spec fn body_decodes(s: Seq<u8>) -> bool {
    &&& s.len() >= BODY_LEN
    &&& s[20] <= 1
    &&& s[21] <= 1
}

/// The tuple that bincode decodes from the start of `s`.
pub open spec fn body_fields(s: Seq<u8>) -> ((u64, u64), u32, bool, bool) {
    (
        (spec_u64_from_le_bytes(s.subrange(0, 8)), spec_u64_from_le_bytes(s.subrange(8, 16))),
        spec_u32_from_le_bytes(s.subrange(16, 20)),
        s[20] == 1,
        s[21] == 1,
    )
}

/// The encoding of a payload after the marker.
pub open spec fn payload_body(p: MapPayload) -> Seq<u8> {
    body_bytes(p.center.0, p.center.1, p.zoom, p.show_user_location, p.interactive)
}

/// The framed bytes of a payload: marker, then body.
pub open spec fn payload_frame(p: MapPayload) -> Seq<u8> {
    payload_marker() + payload_body(p)
}

/// The payload framed in `bytes`, if any: `bytes` must start with the marker,
/// and bincode must decode a payload from what follows it.
pub open spec fn decoded_payload(bytes: Seq<u8>) -> Option<MapPayload> {
    if bytes.len() >= MARKER_LEN && bytes.subrange(0, MARKER_LEN as int) == payload_marker() {
        let body = bytes.subrange(MARKER_LEN as int, bytes.len() as int);
        if body_decodes(body) {
            let f = body_fields(body);
            Some(
                MapPayload {
                    center: f.0,
                    zoom: f.1,
                    show_user_location: f.2,
                    interactive: f.3,
                },
            )
        } else {
            None
        }
    } else {
        None
    }
}

/// Declares `bincode::ErrorKind`, the error that bincode's calls return; the
/// library only carries such values and reads nothing from them.
#[verifier::external_type_specification]
#[verifier::external_body]
pub struct ExBincodeErrorKind(bincode::ErrorKind);

/// Calls `bincode::serialize` on `((latitude, longitude), zoom, show,
/// interactive)`. The map payload's floats are given as their bit patterns:
/// with bincode's fixed-width little-endian encoding an `f64` is written as
/// the little-endian bytes of `f64::to_bits` and an `f32` as those of
/// `f32::to_bits`, the very bytes written for those integers. Claimed: the
/// call succeeds (serialising these values into a `Vec` cannot fail) and
/// returns exactly those bytes.
#[verifier::external_body]
fn bincode_serialize_body(latitude: u64, longitude: u64, zoom: u32, show: bool, interactive: bool) -> (res: Result<Vec<u8>, Box<bincode::ErrorKind>>)
    ensures
        res is Ok,
        res matches Ok(bytes) ==> bytes@ == body_bytes(latitude, longitude, zoom, show, interactive),
{
    bincode::serialize(&((latitude, longitude), zoom, show, interactive))
}

/// Calls `bincode::deserialize` for the tuple `((u64, u64), u32, bool,
/// bool)`, which reads the same bytes as the map payload's `((f64, f64),
/// f32, bool, bool)` and yields the floats' bit patterns. Claimed: it
/// succeeds exactly when `body_decodes` holds (too few bytes and a `bool`
/// byte other than 0 or 1 are errors; trailing bytes are allowed) and then
/// yields `body_fields`.
#[verifier::external_body]
fn bincode_deserialize_body(bytes: &[u8]) -> (res: Result<((u64, u64), u32, bool, bool), Box<bincode::ErrorKind>>)
    ensures
        res is Ok <==> body_decodes(bytes@),
        res matches Ok(v) ==> v == body_fields(bytes@),
{
    bincode::deserialize(bytes)
}

/// The marker bytes.
fn marker_bytes() -> (m: Vec<u8>)
    ensures
        m@ == payload_marker(),
{
    let m: Vec<u8> = vec![102u8, 105, 115, 115, 105, 111, 110, 45, 109, 97, 112, 115, 0, 118, 49];
    assert(m@ =~= payload_marker());
    m
}

/// The framed payload of `map`.
pub fn encode_payload(map: &MapWidget) -> (bytes: Vec<u8>)
    ensures
        bytes@ == payload_frame(map_payload(*map)),
        bytes@ == payload_marker() + body_bytes(
            map.center.0,
            map.center.1,
            map.zoom,
            map.show_user_location,
            map.interactive,
        ),
        bytes@.len() == MARKER_LEN + BODY_LEN,
{
    let mut bytes = marker_bytes();
    match bincode_serialize_body(
        map.center.0,
        map.center.1,
        map.zoom,
        map.show_user_location,
        map.interactive,
    ) {
        Ok(body) => {
            let mut body = body;
            bytes.append(&mut body);
        },
        Err(_) => {},
    }
    proof {
        lemma_auto_spec_u64_to_from_le_bytes();
        lemma_auto_spec_u32_to_from_le_bytes();
    }
    bytes
}

/// The payload framed in `payload`, if it holds one.
pub fn decode_payload(payload: &[u8]) -> (res: Option<MapPayload>)
    ensures
        res == decoded_payload(payload@),
{
    if payload.len() < MARKER_LEN {
        return None;
    }
    let marker = marker_bytes();
    let mut i: usize = 0;
    while i < MARKER_LEN
        invariant
            i <= MARKER_LEN <= payload@.len(),
            marker@ == payload_marker(),
            forall|j: int| 0 <= j < i ==> payload@[j] == marker@[j],
        decreases MARKER_LEN - i,
    {
        if payload[i] != marker[i] {
            assert(payload@.subrange(0, MARKER_LEN as int)[i as int] != payload_marker()[i as int]);
            return None;
        }
        i = i + 1;
    }
    assert(payload@.subrange(0, MARKER_LEN as int) =~= payload_marker());
    let body = slice_subrange(payload, MARKER_LEN, payload.len());
    match bincode_deserialize_body(body) {
        Ok(((latitude, longitude), zoom, show_user_location, interactive)) => Some(
            MapPayload { center: (latitude, longitude), zoom, show_user_location, interactive },
        ),
        Err(_) => None,
    }
}

/// Whether `payload` frames a map payload.
pub fn is_map_payload(payload: &[u8]) -> (b: bool)
    ensures
        b == decoded_payload(payload@) is Some,
{
    decode_payload(payload).is_some()
}

/// A map's payload and the state it starts from are field-for-field copies
/// of the map's centre, zoom and flags.
pub proof fn lemma_payload_copies_map(map: MapWidget)
    ensures
        map_payload(map).center == map.center,
        map_payload(map).zoom == map.zoom,
        map_payload(map).show_user_location == map.show_user_location,
        map_payload(map).interactive == map.interactive,
        payload_initial_state(map_payload(map)) == (MapRuntimeState {
            center: map.center,
            zoom: map.zoom,
            show_user_location: map.show_user_location,
            interactive: map.interactive,
        }),
{
}

/// The initial state of a payload is a field-for-field copy of it.
pub proof fn lemma_initial_state_copies_payload(p: MapPayload)
    ensures
        payload_initial_state(p) == (MapRuntimeState {
            center: p.center,
            zoom: p.zoom,
            show_user_location: p.show_user_location,
            interactive: p.interactive,
        }),
{
}

/// The bytes after the marker hold the centre, the zoom and the two flags in
/// that order: the flag bytes are 1 exactly for the flags that are set, and
/// whatever was written decodes back to the same values.
pub proof fn lemma_body_layout(latitude: u64, longitude: u64, zoom: u32, show: bool, interactive: bool)
    ensures
        body_bytes(latitude, longitude, zoom, show, interactive).len() == BODY_LEN,
        body_bytes(latitude, longitude, zoom, show, interactive)[20] == (if show { 1u8 } else { 0u8 }),
        body_bytes(latitude, longitude, zoom, show, interactive)[21] == (if interactive { 1u8 } else { 0u8 }),
        decoded_payload(payload_marker() + body_bytes(latitude, longitude, zoom, show, interactive))
            == Some(MapPayload { center: (latitude, longitude), zoom, show_user_location: show, interactive }),
{
    lemma_auto_spec_u64_to_from_le_bytes();
    lemma_auto_spec_u32_to_from_le_bytes();
    let p = MapPayload { center: (latitude, longitude), zoom, show_user_location: show, interactive };
    lemma_frame_decodes(p, Seq::empty());
    assert(payload_frame(p) + Seq::<u8>::empty() =~= payload_frame(p));
}

/// A framed payload decodes to the payload it frames, whatever bytes follow
/// the frame: the native surface reads back exactly the state that the map
/// encoded.
pub proof fn lemma_frame_decodes(p: MapPayload, trailing: Seq<u8>)
    ensures
        decoded_payload(payload_frame(p) + trailing) == Some(p),
{
    lemma_auto_spec_u64_to_from_le_bytes();
    lemma_auto_spec_u32_to_from_le_bytes();
    let b = payload_frame(p) + trailing;
    let body = b.subrange(MARKER_LEN as int, b.len() as int);
    let lat = spec_u64_to_le_bytes(p.center.0);
    let lon = spec_u64_to_le_bytes(p.center.1);
    let zoom = spec_u32_to_le_bytes(p.zoom);
    assert(b.subrange(0, MARKER_LEN as int) =~= payload_marker());
    assert(body =~= payload_body(p) + trailing);
    assert(body.subrange(0, 8) =~= lat);
    assert(body.subrange(8, 16) =~= lon);
    assert(body.subrange(16, 20) =~= zoom);
    assert(body[20] == bool_byte(p.show_user_location));
    assert(body[21] == bool_byte(p.interactive));
}

/// The payload encoded for a map decodes back to that map's payload, and the
/// native surface starts the map from the map's own centre, zoom and flags.
pub proof fn lemma_encoded_map_round_trips(map: MapWidget)
    ensures
        decoded_payload(payload_frame(map_payload(map))) == Some(map_payload(map)),
        payload_initial_state(map_payload(map)) == (MapRuntimeState {
            center: map.center,
            zoom: map.zoom,
            show_user_location: map.show_user_location,
            interactive: map.interactive,
        }),
{
    lemma_frame_decodes(map_payload(map), Seq::empty());
    assert(payload_frame(map_payload(map)) + Seq::<u8>::empty() =~= payload_frame(map_payload(map)));
}

/// Bytes that decode to a payload start with that payload's frame: the
/// encoding of a payload is the only frame that decodes to it.
pub proof fn lemma_decoded_payload_is_framed(bytes: Seq<u8>)
    requires
        decoded_payload(bytes) is Some,
    ensures
        bytes.len() >= MARKER_LEN + BODY_LEN,
        payload_frame(decoded_payload(bytes).unwrap()) == bytes.subrange(0, (MARKER_LEN + BODY_LEN) as int),
{
    lemma_auto_spec_u64_to_from_le_bytes();
    lemma_auto_spec_u32_to_from_le_bytes();
    let p = decoded_payload(bytes).unwrap();
    let body = bytes.subrange(MARKER_LEN as int, bytes.len() as int);
    assert(spec_u64_to_le_bytes(spec_u64_from_le_bytes(body.subrange(0, 8))) == body.subrange(0, 8));
    assert(spec_u64_to_le_bytes(spec_u64_from_le_bytes(body.subrange(8, 16))) == body.subrange(8, 16));
    assert(spec_u32_to_le_bytes(spec_u32_from_le_bytes(body.subrange(16, 20))) == body.subrange(16, 20));
    assert(bool_byte(p.show_user_location) == body[20]);
    assert(bool_byte(p.interactive) == body[21]);
    assert(payload_body(p) =~= body.subrange(0, BODY_LEN as int));
    assert(payload_frame(p) =~= bytes.subrange(0, (MARKER_LEN + BODY_LEN) as int));
}

/// Bytes that do not start with the type marker never hold a map payload.
pub proof fn lemma_unmarked_bytes_are_rejected(bytes: Seq<u8>)
    requires
        !(bytes.len() >= MARKER_LEN && bytes.subrange(0, MARKER_LEN as int) == payload_marker()),
    ensures
        decoded_payload(bytes) is None,
{
}

} // verus!
