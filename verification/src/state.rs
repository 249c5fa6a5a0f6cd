//! Runtime state of each map widget, the store that application reducers and
//! the native surface handler share, and the map control actions.
use vstd::prelude::*;
use std::collections::HashMap;

verus! {

broadcast use vstd::std_specs::hash::group_hash_axioms;

/// Bit pattern of the `f32` value `10.0`, the zoom level of a map that has
/// not been configured otherwise.
pub const DEFAULT_ZOOM_BITS: u32 = 0x4120_0000;

/// What the native map view shows for one widget. `center` holds the
/// latitude and longitude as `f64` bit patterns, `zoom` an `f32` bit pattern.
#[derive(Clone, Copy, Debug, PartialEq, Eq)]
pub struct MapRuntimeState {
    pub center: (u64, u64),
    pub zoom: u32,
    pub show_user_location: bool,
    pub interactive: bool,
}

/// The state of a map that nothing has configured: centred on `(0.0, 0.0)`,
/// zoom `10.0`, no user location, interactive.
pub open spec fn default_runtime_state() -> MapRuntimeState {
    MapRuntimeState {
        center: (0u64, 0u64),
        zoom: DEFAULT_ZOOM_BITS,
        show_user_location: false,
        interactive: true,
    }
}

impl Default for MapRuntimeState {
    fn default() -> (s: Self)
        ensures
            s == default_runtime_state(),
            s.center == (0u64, 0u64),
            s.zoom == 0x4120_0000u32,
            !s.show_user_location,
            s.interactive,
    {
        MapRuntimeState { center: (0, 0), zoom: DEFAULT_ZOOM_BITS, show_user_location: false, interactive: true }
    }
}

/// Moves the map of `target` to a new centre (latitude and longitude as `f64`
/// bit patterns).
#[derive(Clone, Copy, Debug, PartialEq, Eq, Structural)]
pub struct MapSetCenter {
    pub target: u128,
    pub latitude: u64,
    pub longitude: u64,
}

/// Changes the zoom level (an `f32` bit pattern) of the map of `target`.
#[derive(Clone, Copy, Debug, PartialEq, Eq, Structural)]
pub struct MapSetZoom {
    pub target: u128,
    pub zoom: u32,
}

impl MapSetCenter {
    /// The action id under which the centre action is routed.
    pub fn static_id() -> (id: u128)
        ensures
            id == crate::ids::action_id_value("fission_maps::MapSetCenter"@),
    {
        crate::ids::action_id_from_name("fission_maps::MapSetCenter")
    }
}

impl MapSetZoom {
    /// The action id under which the zoom action is routed.
    pub fn static_id() -> (id: u128)
        ensures
            id == crate::ids::action_id_value("fission_maps::MapSetZoom"@),
    {
        crate::ids::action_id_from_name("fission_maps::MapSetZoom")
    }
}

/// The state of every map widget, keyed by the raw value of its widget id.
#[derive(Debug)]
pub struct MapStateStore {
    states: HashMap<u128, MapRuntimeState>,
}

impl View for MapStateStore {
    type V = Map<u128, MapRuntimeState>;

    closed spec fn view(&self) -> Map<u128, MapRuntimeState> {
        self.states@
    }
}

/// The state that `id` has in `m`, or the default state when it has none.
pub open spec fn state_or_default(m: Map<u128, MapRuntimeState>, id: u128) -> MapRuntimeState {
    if m.contains_key(id) {
        m[id]
    } else {
        default_runtime_state()
    }
}

/// `m` after `ensure(id, initial)`: an absent entry becomes `initial`.
pub open spec fn ensured(m: Map<u128, MapRuntimeState>, id: u128, initial: MapRuntimeState) -> Map<
    u128,
    MapRuntimeState,
> {
    if m.contains_key(id) {
        m
    } else {
        m.insert(id, initial)
    }
}

/// `m` after the map of `id` was moved to `center`.
pub open spec fn with_center(m: Map<u128, MapRuntimeState>, id: u128, center: (u64, u64)) -> Map<
    u128,
    MapRuntimeState,
> {
    m.insert(id, MapRuntimeState { center, ..state_or_default(m, id) })
}

/// `m` after the map of `id` was zoomed to `zoom`.
pub open spec fn with_zoom(m: Map<u128, MapRuntimeState>, id: u128, zoom: u32) -> Map<
    u128,
    MapRuntimeState,
> {
    m.insert(id, MapRuntimeState { zoom, ..state_or_default(m, id) })
}

impl MapStateStore {
    /// A store that holds no map.
    pub fn new() -> (store: Self)
        ensures
            store@ == Map::<u128, MapRuntimeState>::empty(),
    {
        MapStateStore { states: HashMap::new() }
    }

    /// Returns the state of `id`, first recording `initial` for it when the
    /// store holds none.
    pub fn ensure(&mut self, id: u128, initial: MapRuntimeState) -> (state: MapRuntimeState)
        ensures
            final(self)@ == ensured(old(self)@, id, initial),
            state == final(self)@[id],
            old(self)@.contains_key(id) ==> final(self)@ == old(self)@ && state == old(self)@[id],
            !old(self)@.contains_key(id) ==> final(self)@ == old(self)@.insert(id, initial) && state == initial,
    {
        match self.states.get(&id) {
            Some(existing) => *existing,
            None => {
                self.states.insert(id, initial);
                initial
            },
        }
    }

    /// The state of `id`, when the store holds one.
    pub fn get(&self, id: u128) -> (state: Option<MapRuntimeState>)
        ensures
            state == (if self@.contains_key(id) {
                Some(self@[id])
            } else {
                None
            }),
    {
        match self.states.get(&id) {
            Some(existing) => Some(*existing),
            None => None,
        }
    }

    /// Moves the map of `id` to the given latitude and longitude (`f64` bit
    /// patterns), starting from the default state when it has none.
    pub fn set_center(&mut self, id: u128, latitude: u64, longitude: u64)
        ensures
            final(self)@ == with_center(old(self)@, id, (latitude, longitude)),
            final(self)@.dom() == old(self)@.dom().insert(id),
            old(self)@.contains_key(id) ==> final(self)@[id] == (MapRuntimeState {
                center: (latitude, longitude),
                ..old(self)@[id]
            }),
            !old(self)@.contains_key(id) ==> final(self)@[id] == (MapRuntimeState {
                center: (latitude, longitude),
                zoom: 0x4120_0000u32,
                show_user_location: false,
                interactive: true,
            }),
            forall|k: u128| k != id && #[trigger] old(self)@.contains_key(k) ==> final(self)@[k] == old(self)@[k],
    {
        let current = match self.states.get(&id) {
            Some(existing) => *existing,
            None => MapRuntimeState::default(),
        };
        self.states.insert(id, MapRuntimeState { center: (latitude, longitude), ..current });
    }

    /// Zooms the map of `id` to `zoom` (an `f32` bit pattern), starting from
    /// the default state when it has none.
    pub fn set_zoom(&mut self, id: u128, zoom: u32)
        ensures
            final(self)@ == with_zoom(old(self)@, id, zoom),
            final(self)@.dom() == old(self)@.dom().insert(id),
            old(self)@.contains_key(id) ==> final(self)@[id] == (MapRuntimeState { zoom, ..old(self)@[id] }),
            !old(self)@.contains_key(id) ==> final(self)@[id] == (MapRuntimeState {
                center: (0u64, 0u64),
                zoom,
                show_user_location: false,
                interactive: true,
            }),
            forall|k: u128| k != id && #[trigger] old(self)@.contains_key(k) ==> final(self)@[k] == old(self)@[k],
    {
        let current = match self.states.get(&id) {
            Some(existing) => *existing,
            None => MapRuntimeState::default(),
        };
        self.states.insert(id, MapRuntimeState { zoom, ..current });
    }
}

impl Default for MapStateStore {
    fn default() -> (store: Self)
        ensures
            store@ == Map::<u128, MapRuntimeState>::empty(),
    {
        MapStateStore::new()
    }
}

/// Applies a centre action to the store.
pub fn reduce_center(store: &mut MapStateStore, action: MapSetCenter)
    ensures
        final(store)@ == with_center(old(store)@, action.target, (action.latitude, action.longitude)),
        old(store)@.contains_key(action.target) ==> final(store)@[action.target] == (MapRuntimeState {
            center: (action.latitude, action.longitude),
            ..old(store)@[action.target]
        }),
{
    store.set_center(action.target, action.latitude, action.longitude);
}

/// Applies a zoom action to the store.
pub fn reduce_zoom(store: &mut MapStateStore, action: MapSetZoom)
    ensures
        final(store)@ == with_zoom(old(store)@, action.target, action.zoom),
        old(store)@.contains_key(action.target) ==> final(store)@[action.target] == (MapRuntimeState {
            zoom: action.zoom,
            ..old(store)@[action.target]
        }),
{
    store.set_zoom(action.target, action.zoom);
}

/// Moving a map changes its centre and nothing else: a map the store held
/// keeps its stored zoom and flags; a map it did not hold gets zoom `10.0`,
/// no user location and interaction; every other map is left as it was, and
/// no other map appears.
pub proof fn lemma_read_after_set_center(m: Map<u128, MapRuntimeState>, id: u128, center: (u64, u64))
    ensures
        with_center(m, id, center).dom() == m.dom().insert(id),
        m.contains_key(id) ==> with_center(m, id, center)[id] == (MapRuntimeState { center, ..m[id] }),
        !m.contains_key(id) ==> with_center(m, id, center)[id] == (MapRuntimeState {
            center,
            zoom: 0x4120_0000u32,
            show_user_location: false,
            interactive: true,
        }),
        forall|k: u128| k != id && #[trigger] m.contains_key(k) ==> with_center(m, id, center)[k] == m[k],
{
    assert(with_center(m, id, center).dom() =~= m.dom().insert(id));
}

/// Zooming a map changes its zoom and nothing else: a map the store held
/// keeps its stored centre and flags; a map it did not hold gets the centre
/// `(0.0, 0.0)`, no user location and interaction; every other map is left as
/// it was, and no other map appears.
pub proof fn lemma_read_after_set_zoom(m: Map<u128, MapRuntimeState>, id: u128, zoom: u32)
    ensures
        with_zoom(m, id, zoom).dom() == m.dom().insert(id),
        m.contains_key(id) ==> with_zoom(m, id, zoom)[id] == (MapRuntimeState { zoom, ..m[id] }),
        !m.contains_key(id) ==> with_zoom(m, id, zoom)[id] == (MapRuntimeState {
            center: (0u64, 0u64),
            zoom,
            show_user_location: false,
            interactive: true,
        }),
        forall|k: u128| k != id && #[trigger] m.contains_key(k) ==> with_zoom(m, id, zoom)[k] == m[k],
{
    assert(with_zoom(m, id, zoom).dom() =~= m.dom().insert(id));
}

/// Moving a map and then zooming it (or zooming, then moving) leaves it with
/// both the new centre and the new zoom, and with the flags it had.
pub proof fn lemma_move_then_zoom(m: Map<u128, MapRuntimeState>, id: u128, center: (u64, u64), zoom: u32)
    requires
        m.contains_key(id),
    ensures
        with_zoom(with_center(m, id, center), id, zoom)[id] == (MapRuntimeState { center, zoom, ..m[id] }),
{
}

/// `ensure` hands back what the store holds: the stored state of a map it
/// held (leaving the store as it was), or else the given initial state.
pub proof fn lemma_ensure_returns_stored(m: Map<u128, MapRuntimeState>, id: u128, a: MapRuntimeState)
    ensures
        m.contains_key(id) ==> ensured(m, id, a) == m && ensured(m, id, a)[id] == m[id],
        !m.contains_key(id) ==> ensured(m, id, a) == m.insert(id, a),
{
}

/// Moving one map and zooming another (or the same) map give the same store
/// in either order.
pub proof fn lemma_center_and_zoom_commute(
    m: Map<u128, MapRuntimeState>,
    id1: u128,
    center: (u64, u64),
    id2: u128,
    zoom: u32,
)
    ensures
        with_zoom(with_center(m, id1, center), id2, zoom) == with_center(with_zoom(m, id2, zoom), id1, center),
{
    assert(with_zoom(with_center(m, id1, center), id2, zoom) =~= with_center(with_zoom(m, id2, zoom), id1, center));
}

/// `ensure` never overwrites a state that the store already holds, records
/// the initial state of a map it did not hold, and a second `ensure` of the
/// same map changes nothing.
pub proof fn lemma_ensure_keeps_existing(m: Map<u128, MapRuntimeState>, id: u128, a: MapRuntimeState, b: MapRuntimeState)
    ensures
        m.contains_key(id) ==> ensured(m, id, a) == m,
        !m.contains_key(id) ==> ensured(m, id, a)[id] == a,
        ensured(ensured(m, id, a), id, b) == ensured(m, id, a),
        ensured(m, id, a).dom() == m.dom().insert(id),
{
    assert(ensured(m, id, a).dom() =~= m.dom().insert(id));
}

} // verus!
