use fission_maps::state::{MapSetCenter, MapSetZoom, DEFAULT_ZOOM_BITS};
use fission_maps::widget::{MapControlCtx, MapWidget};

#[test]
fn default_map_has_documented_settings() {
    let map = MapWidget::default();
    assert_eq!(map.id, None);
    assert_eq!(map.center, (0, 0));
    assert_eq!(map.zoom, DEFAULT_ZOOM_BITS);
    assert_eq!(map.width, None);
    assert_eq!(map.height, None);
    assert!(!map.show_user_location);
    assert!(map.interactive);
}

#[test]
fn explicit_id_wins() {
    let office = fission_ir::WidgetId::explicit("office-map").as_u128();
    let map = MapWidget { id: Some(office), ..Default::default() };
    assert_eq!(map.widget_id("6.5244", "3.3792"), office);
}

#[test]
fn map_without_id_derives_it_from_its_center() {
    let (lat, lon) = (6.5244f64, 3.3792f64);
    let map = MapWidget { center: (lat.to_bits(), lon.to_bits()), ..Default::default() };
    let expected =
        fission_ir::WidgetId::explicit(&format!("fission-maps:{}:{}", lat, lon)).as_u128();
    assert_eq!(map.widget_id(&lat.to_string(), &lon.to_string()), expected);
    assert_ne!(map.widget_id("6.5244", "3.3793"), expected);
}

#[test]
fn controls_build_actions_for_the_map() {
    let map = MapWidget { id: Some(42), ..Default::default() };
    let controls = map.controls("0", "0");
    assert_eq!(controls, MapControlCtx::new(42));
    assert_eq!(
        controls.set_center(51.5072f64.to_bits(), (-0.1276f64).to_bits()),
        MapSetCenter { target: 42, latitude: 51.5072f64.to_bits(), longitude: (-0.1276f64).to_bits() }
    );
    assert_eq!(controls.set_zoom(3.0f32.to_bits()), MapSetZoom { target: 42, zoom: 3.0f32.to_bits() });
}
