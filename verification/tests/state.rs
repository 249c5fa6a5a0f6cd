use fission_maps::state::{
    reduce_center, reduce_zoom, MapRuntimeState, MapSetCenter, MapSetZoom, MapStateStore,
    DEFAULT_ZOOM_BITS,
};

fn id(key: &str) -> u128 {
    fission_ir::WidgetId::explicit(key).as_u128()
}

#[test]
fn reducers_update_map_state() {
    let mut store = MapStateStore::default();
    let id = id("map.a");
    reduce_center(
        &mut store,
        MapSetCenter { target: id, latitude: 37.7749f64.to_bits(), longitude: (-122.4194f64).to_bits() },
    );
    reduce_zoom(&mut store, MapSetZoom { target: id, zoom: 14.0f32.to_bits() });
    let c = store.get(id).unwrap().center;
    assert_eq!((f64::from_bits(c.0), f64::from_bits(c.1)), (37.7749, -122.4194));
    assert_eq!(f32::from_bits(store.get(id).unwrap().zoom), 14.0);
}

#[test]
fn default_state_is_origin_at_zoom_ten() {
    let state = MapRuntimeState::default();
    assert_eq!(state.center, (0.0f64.to_bits(), 0.0f64.to_bits()));
    assert_eq!(DEFAULT_ZOOM_BITS, 10.0f32.to_bits());
    assert_eq!(f32::from_bits(state.zoom), 10.0);
    assert!(!state.show_user_location);
    assert!(state.interactive);
}

#[test]
fn get_of_unknown_map_is_none() {
    let store = MapStateStore::new();
    assert_eq!(store.get(id("nowhere")), None);
}

#[test]
fn set_center_on_unknown_map_starts_from_default() {
    let mut store = MapStateStore::new();
    store.set_center(7, 1.5f64.to_bits(), 2.5f64.to_bits());
    assert_eq!(
        store.get(7),
        Some(MapRuntimeState {
            center: (1.5f64.to_bits(), 2.5f64.to_bits()),
            ..MapRuntimeState::default()
        })
    );
}

#[test]
fn set_zoom_keeps_center_and_flags() {
    let mut store = MapStateStore::new();
    let initial = MapRuntimeState {
        center: (4.0f64.to_bits(), 5.0f64.to_bits()),
        zoom: 3.0f32.to_bits(),
        show_user_location: true,
        interactive: false,
    };
    store.ensure(9, initial);
    store.set_zoom(9, 8.0f32.to_bits());
    assert_eq!(store.get(9), Some(MapRuntimeState { zoom: 8.0f32.to_bits(), ..initial }));
    store.set_center(9, 6.0f64.to_bits(), 7.0f64.to_bits());
    assert_eq!(
        store.get(9),
        Some(MapRuntimeState {
            center: (6.0f64.to_bits(), 7.0f64.to_bits()),
            zoom: 8.0f32.to_bits(),
            ..initial
        })
    );
}

#[test]
fn ensure_records_initial_state_once() {
    let mut store = MapStateStore::new();
    let first = MapRuntimeState { zoom: 1.0f32.to_bits(), ..MapRuntimeState::default() };
    let second = MapRuntimeState { zoom: 2.0f32.to_bits(), ..MapRuntimeState::default() };
    assert_eq!(store.ensure(3, first), first);
    assert_eq!(store.ensure(3, second), first);
    assert_eq!(store.get(3), Some(first));
}

#[test]
fn ensure_keeps_state_set_by_reducers() {
    let mut store = MapStateStore::new();
    reduce_zoom(&mut store, MapSetZoom { target: 5, zoom: 17.0f32.to_bits() });
    let got = store.ensure(5, MapRuntimeState { zoom: 2.0f32.to_bits(), ..MapRuntimeState::default() });
    assert_eq!(f32::from_bits(got.zoom), 17.0);
}

#[test]
fn updates_leave_other_maps_alone() {
    let mut store = MapStateStore::new();
    let a = MapRuntimeState { show_user_location: true, ..MapRuntimeState::default() };
    store.ensure(1, a);
    store.set_center(2, 9.0f64.to_bits(), 9.0f64.to_bits());
    store.set_zoom(2, 4.0f32.to_bits());
    assert_eq!(store.get(1), Some(a));
}

#[test]
fn center_and_zoom_commute() {
    let mut one = MapStateStore::new();
    one.set_center(1, 3.0f64.to_bits(), 4.0f64.to_bits());
    one.set_zoom(1, 5.0f32.to_bits());
    let mut two = MapStateStore::new();
    two.set_zoom(1, 5.0f32.to_bits());
    two.set_center(1, 3.0f64.to_bits(), 4.0f64.to_bits());
    assert_eq!(one.get(1), two.get(1));
}

#[test]
fn action_ids_are_the_fission_ids_of_their_names() {
    assert_eq!(
        MapSetCenter::static_id(),
        fission_core::ActionId::from_name("fission_maps::MapSetCenter").as_u128()
    );
    assert_eq!(
        MapSetZoom::static_id(),
        fission_core::ActionId::from_name("fission_maps::MapSetZoom").as_u128()
    );
    assert_ne!(MapSetCenter::static_id(), MapSetZoom::static_id());
}
