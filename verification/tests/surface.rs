use fission_maps::payload::encode_payload;
use fission_maps::state::{MapRuntimeState, MapStateStore};
use fission_maps::surface::{SurfaceCommand, SurfaceFrame, SurfaceLayers};
use fission_maps::widget::MapWidget;

fn frame(id: u128, zoom: f32) -> SurfaceFrame {
    let map = MapWidget { zoom: zoom.to_bits(), ..Default::default() };
    SurfaceFrame { widget_id: id, payload: encode_payload(&map) }
}

fn state(zoom: f32) -> MapRuntimeState {
    MapRuntimeState { zoom: zoom.to_bits(), ..MapRuntimeState::default() }
}

fn attached() -> SurfaceLayers {
    let mut layers = SurfaceLayers::new();
    assert!(layers.attach_host(true).is_empty());
    layers
}

#[test]
fn first_presentation_creates_and_updates_layers() {
    let mut layers = attached();
    let mut store = MapStateStore::new();
    let commands = layers.present_surfaces(&mut store, &[frame(1, 3.0), frame(2, 4.0)]);
    assert_eq!(
        commands,
        vec![
            SurfaceCommand::Create { widget_id: 1, state: state(3.0) },
            SurfaceCommand::Update { frame: 0, widget_id: 1, state: state(3.0) },
            SurfaceCommand::Create { widget_id: 2, state: state(4.0) },
            SurfaceCommand::Update { frame: 1, widget_id: 2, state: state(4.0) },
        ]
    );
    assert_eq!(store.get(1), Some(state(3.0)));
    assert_eq!(store.get(2), Some(state(4.0)));
}

#[test]
fn layers_no_longer_shown_are_detached() {
    let mut layers = attached();
    let mut store = MapStateStore::new();
    layers.present_surfaces(&mut store, &[frame(1, 3.0), frame(2, 4.0)]);
    let commands = layers.present_surfaces(&mut store, &[frame(2, 9.0)]);
    assert_eq!(
        commands,
        vec![
            SurfaceCommand::Update { frame: 0, widget_id: 2, state: state(4.0) },
            SurfaceCommand::Detach { widget_id: 1 },
        ]
    );
    assert_eq!(layers.detach_all(), vec![2]);
}

#[test]
fn store_state_wins_over_payload_state() {
    let mut layers = attached();
    let mut store = MapStateStore::new();
    store.set_zoom(1, 15.0f32.to_bits());
    let commands = layers.present_surfaces(&mut store, &[frame(1, 3.0)]);
    assert_eq!(
        commands,
        vec![
            SurfaceCommand::Create { widget_id: 1, state: state(15.0) },
            SurfaceCommand::Update { frame: 0, widget_id: 1, state: state(15.0) },
        ]
    );
}

#[test]
fn frames_without_map_payload_are_skipped() {
    let mut layers = attached();
    let mut store = MapStateStore::new();
    let other = SurfaceFrame { widget_id: 5, payload: b"other-extension".to_vec() };
    let commands = layers.present_surfaces(&mut store, &[other, frame(6, 2.0)]);
    assert_eq!(
        commands,
        vec![
            SurfaceCommand::Create { widget_id: 6, state: state(2.0) },
            SurfaceCommand::Update { frame: 1, widget_id: 6, state: state(2.0) },
        ]
    );
    assert_eq!(store.get(5), None);
}

#[test]
fn repeated_frame_of_one_map_creates_one_layer() {
    let mut layers = attached();
    let mut store = MapStateStore::new();
    let commands = layers.present_surfaces(&mut store, &[frame(1, 3.0), frame(1, 8.0)]);
    assert_eq!(
        commands,
        vec![
            SurfaceCommand::Create { widget_id: 1, state: state(3.0) },
            SurfaceCommand::Update { frame: 0, widget_id: 1, state: state(3.0) },
            SurfaceCommand::Update { frame: 1, widget_id: 1, state: state(3.0) },
        ]
    );
    assert_eq!(layers.detach_all(), vec![1]);
}

#[test]
fn no_frames_detaches_everything() {
    let mut layers = attached();
    let mut store = MapStateStore::new();
    layers.present_surfaces(&mut store, &[frame(1, 3.0), frame(2, 4.0)]);
    let commands = layers.present_surfaces(&mut store, &[]);
    assert_eq!(
        commands,
        vec![SurfaceCommand::Detach { widget_id: 1 }, SurfaceCommand::Detach { widget_id: 2 }]
    );
    assert!(layers.detach_all().is_empty());
}

#[test]
fn without_host_nothing_is_presented() {
    let mut layers = SurfaceLayers::new();
    let mut store = MapStateStore::new();
    let commands = layers.present_surfaces(&mut store, &[frame(1, 3.0)]);
    assert!(commands.is_empty());
    assert_eq!(store.get(1), None);
}

#[test]
fn attaching_a_host_detaches_existing_layers() {
    let mut layers = attached();
    let mut store = MapStateStore::new();
    layers.present_surfaces(&mut store, &[frame(4, 3.0)]);
    assert_eq!(layers.attach_host(false), vec![4]);
    let commands = layers.present_surfaces(&mut store, &[frame(4, 3.0)]);
    assert!(commands.is_empty());
}
