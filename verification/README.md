# fission-maps

A native MapKit map widget for Fission applications on macOS and iOS.

- `src/` is the verified library (Verus): widget and action ids (`ids`), the
  map state store and its reducers (`state`), the map widget and its control
  context (`widget`), the framed payload that carries a map's initial state to
  the native surface (`payload`), and the bookkeeping of native map layers
  (`surface`). Coordinates, zoom levels and sizes are carried as the bit
  patterns of their `f64`/`f32` values.
- `app/` is the Fission-facing crate: serde-derived actions and widget,
  `Action` impls, the shared (`Arc<Mutex<_>>`) state store, reducer
  registration, IR lowering, and the MapKit handler that performs the
  commands the library decides.
- `tests/` exercises the library with the real `bincode`, `fission-ir` and
  `fission-core` crates.
