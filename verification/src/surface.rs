//! Bookkeeping of the native map layers that present map surfaces: which
//! layers exist, which are created, updated or detached when a new set of
//! surface frames arrives, and which state each of them shows. The native
//! views themselves are driven by the platform code that follows the
//! commands decided here.
use vstd::prelude::*;
use crate::payload::{decode_payload, decoded_payload, payload_initial_state};
use crate::state::{ensured, MapRuntimeState, MapStateStore};

verus! {

broadcast use vstd::seq_lib::group_seq_properties;

/// One native surface that the layout asks to present: the widget it
/// belongs to and the custom embed payload of that widget.
#[derive(Clone, Debug)]
pub struct SurfaceFrame {
    pub widget_id: u128,
    pub payload: Vec<u8>,
}

/// What the platform code does to its native map views.
#[derive(Clone, Copy, Debug, PartialEq, Eq)]
pub enum SurfaceCommand {
    /// Create the layer of `widget_id`, showing `state`.
    Create { widget_id: u128, state: MapRuntimeState },
    /// Place the layer of `widget_id` at the rectangle of frame number
    /// `frame`, showing `state`.
    Update { frame: usize, widget_id: u128, state: MapRuntimeState },
    /// Remove the layer of `widget_id` from its host view.
    Detach { widget_id: u128 },
}

/// Whether a frame carries a map payload (other frames are skipped).
pub open spec fn frame_shows_map(f: SurfaceFrame) -> bool {
    decoded_payload(f.payload@) is Some
}

/// Whether some frame of `frames` shows the map of `id`.
pub open spec fn shown_in(frames: Seq<SurfaceFrame>, id: u128) -> bool {
    exists|j: int|
        #![trigger frames[j]]
        0 <= j < frames.len() && frames[j].widget_id == id && frame_shows_map(frames[j])
}

/// Store, layers and commands after frame number `index`, `f`, was
/// presented: its map state is ensured from the payload's initial state, its
/// layer is created when missing, and the layer is updated to the frame with
/// the state the store holds.
pub open spec fn plan_frame(
    plan: (Map<u128, MapRuntimeState>, Seq<u128>, Seq<SurfaceCommand>),
    index: int,
    f: SurfaceFrame,
) -> (Map<u128, MapRuntimeState>, Seq<u128>, Seq<SurfaceCommand>) {
    match decoded_payload(f.payload@) {
        None => plan,
        Some(p) => {
            let id = f.widget_id;
            let store = ensured(plan.0, id, payload_initial_state(p));
            let state = store[id];
            let update = SurfaceCommand::Update { frame: index as usize, widget_id: id, state };
            if plan.1.contains(id) {
                (store, plan.1, plan.2.push(update))
            } else {
                (
                    store,
                    plan.1.push(id),
                    plan.2.push(SurfaceCommand::Create { widget_id: id, state }).push(update),
                )
            }
        },
    }
}

/// Store, layers and commands after all of `frames` were presented in order,
/// starting from `store` and `layers`.
pub open spec fn plan_frames(
    store: Map<u128, MapRuntimeState>,
    layers: Seq<u128>,
    frames: Seq<SurfaceFrame>,
) -> (Map<u128, MapRuntimeState>, Seq<u128>, Seq<SurfaceCommand>)
    decreases frames.len(),
{
    if frames.len() == 0 {
        (store, layers, Seq::empty())
    } else {
        plan_frame(plan_frames(store, layers, frames.drop_last()), frames.len() - 1, frames.last())
    }
}

/// The layers, in order, whose map some frame shows.
pub open spec fn retained_layers(layers: Seq<u128>, frames: Seq<SurfaceFrame>) -> Seq<u128>
    decreases layers.len(),
{
    if layers.len() == 0 {
        Seq::empty()
    } else {
        let r = retained_layers(layers.drop_last(), frames);
        if shown_in(frames, layers.last()) {
            r.push(layers.last())
        } else {
            r
        }
    }
}

/// The layers, in order, whose map no frame shows.
pub open spec fn dropped_layers(layers: Seq<u128>, frames: Seq<SurfaceFrame>) -> Seq<u128>
    decreases layers.len(),
{
    if layers.len() == 0 {
        Seq::empty()
    } else {
        let r = dropped_layers(layers.drop_last(), frames);
        if shown_in(frames, layers.last()) {
            r
        } else {
            r.push(layers.last())
        }
    }
}

/// One detach command per id, in order.
pub open spec fn detach_commands(ids: Seq<u128>) -> Seq<SurfaceCommand> {
    ids.map_values(|id: u128| SurfaceCommand::Detach { widget_id: id })
}

/// A frame list extended by one frame shows a map when the list did or the
/// new frame does.
proof fn lemma_shown_in_push(frames: Seq<SurfaceFrame>, f: SurfaceFrame, id: u128)
    ensures
        shown_in(frames.push(f), id) <==> (shown_in(frames, id) || (f.widget_id == id
            && frame_shows_map(f))),
{
    let fs = frames.push(f);
    if shown_in(fs, id) {
        let j = choose|j: int|
            #![trigger fs[j]]
            0 <= j < fs.len() && fs[j].widget_id == id && frame_shows_map(fs[j]);
        if j < frames.len() {
            assert(frames[j] == fs[j]);
        }
    }
    if shown_in(frames, id) {
        let j = choose|j: int|
            #![trigger frames[j]]
            0 <= j < frames.len() && frames[j].widget_id == id && frame_shows_map(frames[j]);
        assert(fs[j] == frames[j]);
    }
    if f.widget_id == id && frame_shows_map(f) {
        assert(fs[frames.len() as int] == f);
    }
}

/// Appending an element that a sequence free of repeats lacks keeps it free
/// of repeats.
proof fn lemma_push_no_duplicates(s: Seq<u128>, x: u128)
    requires
        s.no_duplicates(),
        !s.contains(x),
    ensures
        s.push(x).no_duplicates(),
{
    let t = s.push(x);
    assert forall|i: int, j: int| 0 <= i < t.len() && 0 <= j < t.len() && i != j implies t[i] != t[j] by {
        if i < s.len() && j < s.len() {
            assert(t[i] == s[i] && t[j] == s[j]);
        } else if i < s.len() {
            assert(t[i] == s[i]);
            assert(s.contains(s[i]));
        } else if j < s.len() {
            assert(t[j] == s[j]);
            assert(s.contains(s[j]));
        }
    }
}

/// Presenting frames keeps the layers it started with, adds exactly the
/// shown maps that had no layer, and never lists a layer twice.
proof fn lemma_plan_layers(store: Map<u128, MapRuntimeState>, layers: Seq<u128>, frames: Seq<SurfaceFrame>)
    requires
        layers.no_duplicates(),
    ensures
        plan_frames(store, layers, frames).1.no_duplicates(),
        forall|id: u128|
            #[trigger] plan_frames(store, layers, frames).1.contains(id) <==> (layers.contains(id)
                || shown_in(frames, id)),
    decreases frames.len(),
{
    if frames.len() > 0 {
        let prefix = frames.drop_last();
        let f = frames.last();
        lemma_plan_layers(store, layers, prefix);
        assert(frames == prefix.push(f));
        let prev = plan_frames(store, layers, prefix);
        let cur = plan_frames(store, layers, frames);
        assert(cur == plan_frame(prev, frames.len() - 1, f));
        match decoded_payload(f.payload@) {
            None => {
                assert(cur.1 == prev.1);
            },
            Some(p) => {
                if !prev.1.contains(f.widget_id) {
                    assert(cur.1 == prev.1.push(f.widget_id));
                    lemma_push_no_duplicates(prev.1, f.widget_id);
                }
            },
        }
        assert forall|id: u128|
            #[trigger] cur.1.contains(id) <==> (layers.contains(id) || shown_in(frames, id)) by {
            lemma_shown_in_push(prefix, f, id);
        }
    }
}

/// Presenting frames only ensures states: maps the store held keep their
/// state (a payload's initial state never overrides what reducers set), every
/// shown map has a state afterwards, and no other map gains one.
pub proof fn lemma_plan_store(store: Map<u128, MapRuntimeState>, layers: Seq<u128>, frames: Seq<SurfaceFrame>)
    ensures
        forall|id: u128|
            #[trigger] plan_frames(store, layers, frames).0.contains_key(id) <==> (store.contains_key(id)
                || shown_in(frames, id)),
        forall|id: u128|
            store.contains_key(id) ==> #[trigger] plan_frames(store, layers, frames).0[id] == store[id],
    decreases frames.len(),
{
    if frames.len() > 0 {
        let prefix = frames.drop_last();
        let f = frames.last();
        lemma_plan_store(store, layers, prefix);
        assert(frames == prefix.push(f));
        let prev = plan_frames(store, layers, prefix);
        let cur = plan_frames(store, layers, frames);
        assert(cur == plan_frame(prev, frames.len() - 1, f));
        assert forall|id: u128|
            #[trigger] cur.0.contains_key(id) <==> (store.contains_key(id) || shown_in(frames, id)) by {
            lemma_shown_in_push(prefix, f, id);
        }
        assert forall|id: u128| store.contains_key(id) implies #[trigger] cur.0[id] == store[id] by {
            assert(prev.0.contains_key(id));
        }
    }
}

/// Retained and dropped layers split the layers by whether a frame shows
/// them, and keep them free of repeats.
proof fn lemma_retained_dropped(layers: Seq<u128>, frames: Seq<SurfaceFrame>)
    requires
        layers.no_duplicates(),
    ensures
        retained_layers(layers, frames).no_duplicates(),
        dropped_layers(layers, frames).no_duplicates(),
        forall|id: u128|
            #[trigger] retained_layers(layers, frames).contains(id) <==> (layers.contains(id)
                && shown_in(frames, id)),
        forall|id: u128|
            #[trigger] dropped_layers(layers, frames).contains(id) <==> (layers.contains(id)
                && !shown_in(frames, id)),
    decreases layers.len(),
{
    if layers.len() > 0 {
        let prefix = layers.drop_last();
        let x = layers.last();
        assert(layers == prefix.push(x));
        assert(prefix.no_duplicates()) by {
            assert forall|i: int, j: int| 0 <= i < prefix.len() && 0 <= j < prefix.len() && i != j implies prefix[i] != prefix[j] by {
                assert(prefix[i] == layers[i] && prefix[j] == layers[j]);
            }
        }
        assert(!prefix.contains(x)) by {
            if prefix.contains(x) {
                let k = choose|k: int| 0 <= k < prefix.len() && prefix[k] == x;
                assert(layers[k] == layers[layers.len() - 1]);
            }
        }
        lemma_retained_dropped(prefix, frames);
        let r = retained_layers(prefix, frames);
        let d = dropped_layers(prefix, frames);
        if shown_in(frames, x) {
            lemma_push_no_duplicates(r, x);
        } else {
            lemma_push_no_duplicates(d, x);
        }
    }
}

/// After presenting frames, exactly the maps that some frame shows have a
/// layer.
pub proof fn lemma_presented_layers(store: Map<u128, MapRuntimeState>, layers: Seq<u128>, frames: Seq<SurfaceFrame>)
    requires
        layers.no_duplicates(),
    ensures
        forall|id: u128|
            #[trigger] retained_layers(plan_frames(store, layers, frames).1, frames).contains(id)
                <==> shown_in(frames, id),
{
    lemma_plan_layers(store, layers, frames);
    lemma_retained_dropped(plan_frames(store, layers, frames).1, frames);
}

/// Presenting frames detaches exactly the layers whose map no frame shows
/// any more, each once; a layer created for a frame is never detached by the
/// same presentation.
pub proof fn lemma_detached_layers(store: Map<u128, MapRuntimeState>, layers: Seq<u128>, frames: Seq<SurfaceFrame>)
    requires
        layers.no_duplicates(),
    ensures
        dropped_layers(plan_frames(store, layers, frames).1, frames).no_duplicates(),
        forall|id: u128|
            #[trigger] dropped_layers(plan_frames(store, layers, frames).1, frames).contains(id)
                <==> (layers.contains(id) && !shown_in(frames, id)),
{
    lemma_plan_layers(store, layers, frames);
    lemma_retained_dropped(plan_frames(store, layers, frames).1, frames);
}

/// Every frame that shows a map gets an update command, with its own frame
/// number and the state that the store holds for its map once all frames
/// are presented; earlier commands stay as they were.
pub proof fn lemma_shown_frames_are_updated(
    store: Map<u128, MapRuntimeState>,
    layers: Seq<u128>,
    frames: Seq<SurfaceFrame>,
    i: int,
)
    requires
        0 <= i < frames.len(),
        frame_shows_map(frames[i]),
    ensures
        plan_frames(store, layers, frames).2.contains(
            SurfaceCommand::Update {
                frame: i as usize,
                widget_id: frames[i].widget_id,
                state: plan_frames(store, layers, frames).0[frames[i].widget_id],
            },
        ),
    decreases frames.len(),
{
    let prefix = frames.drop_last();
    let f = frames.last();
    assert(frames == prefix.push(f));
    let prev = plan_frames(store, layers, prefix);
    let cur = plan_frames(store, layers, frames);
    assert(cur == plan_frame(prev, frames.len() - 1, f));
    let id = frames[i].widget_id;
    let update = SurfaceCommand::Update { frame: i as usize, widget_id: id, state: cur.0[id] };
    if i == frames.len() - 1 {
        let p = decoded_payload(f.payload@).unwrap();
        assert(cur.2.last() == update);
        assert(cur.2.contains(update)) by {
            assert(cur.2[cur.2.len() - 1] == update);
        }
    } else {
        assert(prefix[i] == frames[i]);
        lemma_shown_frames_are_updated(store, layers, prefix, i);
        let old_update = SurfaceCommand::Update { frame: i as usize, widget_id: id, state: prev.0[id] };
        lemma_plan_store(store, layers, prefix);
        assert(shown_in(prefix, id)) by {
            assert(prefix[i].widget_id == id && frame_shows_map(prefix[i]));
        }
        assert(prev.0.contains_key(id));
        assert(cur.0[id] == prev.0[id]);
        let k = choose|k: int| 0 <= k < prev.2.len() && prev.2[k] == old_update;
        assert(prev.2.is_prefix_of(cur.2));
        assert(cur.2[k] == update);
    }
}

/// The first frame that shows a map the store does not hold seeds that map's
/// state with a copy of the frame's payload (centre, zoom and both flags),
/// later frames leave it so, and when the map had no layer it is created
/// showing that state.
pub proof fn lemma_new_map_starts_from_payload(
    store: Map<u128, MapRuntimeState>,
    layers: Seq<u128>,
    frames: Seq<SurfaceFrame>,
    i: int,
)
    requires
        layers.no_duplicates(),
        0 <= i < frames.len(),
        decoded_payload(frames[i].payload@) is Some,
        !store.contains_key(frames[i].widget_id),
        !shown_in(frames.take(i), frames[i].widget_id),
    ensures
        ({
            let p = decoded_payload(frames[i].payload@).unwrap();
            let seeded = MapRuntimeState {
                center: p.center,
                zoom: p.zoom,
                show_user_location: p.show_user_location,
                interactive: p.interactive,
            };
            &&& plan_frames(store, layers, frames).0[frames[i].widget_id] == seeded
            &&& !layers.contains(frames[i].widget_id) ==> plan_frames(store, layers, frames).2.contains(
                SurfaceCommand::Create { widget_id: frames[i].widget_id, state: seeded },
            )
        }),
    decreases frames.len(),
{
    let prefix = frames.drop_last();
    let f = frames.last();
    assert(frames == prefix.push(f));
    let prev = plan_frames(store, layers, prefix);
    let cur = plan_frames(store, layers, frames);
    assert(cur == plan_frame(prev, frames.len() - 1, f));
    let id = frames[i].widget_id;
    let p = decoded_payload(frames[i].payload@).unwrap();
    let seeded = MapRuntimeState {
        center: p.center,
        zoom: p.zoom,
        show_user_location: p.show_user_location,
        interactive: p.interactive,
    };
    let create = SurfaceCommand::Create { widget_id: id, state: seeded };
    lemma_plan_store(store, layers, prefix);
    lemma_plan_layers(store, layers, prefix);
    if i == frames.len() - 1 {
        assert(prefix == frames.take(i));
        assert(!prev.0.contains_key(id));
        assert(cur.0[id] == seeded);
        if !layers.contains(id) {
            assert(!prev.1.contains(id));
            assert(cur.2[cur.2.len() - 2] == create);
        }
    } else {
        assert(prefix[i] == frames[i]);
        assert(prefix.take(i) == frames.take(i));
        lemma_new_map_starts_from_payload(store, layers, prefix, i);
        assert(shown_in(prefix, id)) by {
            assert(prefix[i].widget_id == id && frame_shows_map(prefix[i]));
        }
        assert(prev.0.contains_key(id));
        assert(cur.0[id] == prev.0[id]);
        if !layers.contains(id) {
            let k = choose|k: int| 0 <= k < prev.2.len() && prev.2[k] == create;
            assert(prev.2.is_prefix_of(cur.2));
            assert(cur.2[k] == create);
        }
    }
}

/// Whether `ids` holds `id`.
fn holds_id(ids: &Vec<u128>, id: u128) -> (b: bool)
    ensures
        b == ids@.contains(id),
{
    let mut i: usize = 0;
    while i < ids.len()
        invariant
            i <= ids@.len(),
            forall|j: int| 0 <= j < i ==> ids@[j] != id,
        decreases ids@.len() - i,
    {
        if ids[i] == id {
            return true;
        }
        i = i + 1;
    }
    false
}

/// One detach command per id of `ids`, in order.
fn detach_all_of(ids: &Vec<u128>) -> (commands: Vec<SurfaceCommand>)
    ensures
        commands@ == detach_commands(ids@),
{
    let mut commands: Vec<SurfaceCommand> = Vec::new();
    let mut i: usize = 0;
    while i < ids.len()
        invariant
            i <= ids@.len(),
            commands@ == detach_commands(ids@.take(i as int)),
        decreases ids@.len() - i,
    {
        commands.push(SurfaceCommand::Detach { widget_id: ids[i] });
        assert(ids@.take(i + 1) == ids@.take(i as int).push(ids@[i as int]));
        assert(detach_commands(ids@.take(i + 1)) =~= detach_commands(ids@.take(i as int)).push(
            SurfaceCommand::Detach { widget_id: ids@[i as int] },
        ));
        i = i + 1;
    }
    assert(ids@.take(ids@.len() as int) == ids@);
    commands
}

/// The native map layers of one host view: whether a host view is attached,
/// and the widgets whose layer exists, in the order the layers were created.
#[derive(Debug)]
pub struct SurfaceLayers {
    has_host: bool,
    layers: Vec<u128>,
}

impl SurfaceLayers {
    #[verifier::type_invariant]
    spec fn layers_are_distinct(self) -> bool {
        self.layers@.no_duplicates()
    }

    /// Whether a native host view is attached.
    pub closed spec fn host_attached(self) -> bool {
        self.has_host
    }

    /// The widgets whose layer exists, in creation order; no widget twice.
    pub closed spec fn layer_ids(self) -> Seq<u128> {
        self.layers@
    }

    /// Bookkeeping with no host view and no layer.
    pub fn new() -> (layers: Self)
        ensures
            !layers.host_attached(),
            layers.layer_ids() == Seq::<u128>::empty(),
    {
        SurfaceLayers { has_host: false, layers: Vec::new() }
    }

    /// Whether a surface payload belongs to maps: exactly the payloads that
    /// hold a map payload are claimed.
    pub fn handles_payload(&self, payload: &[u8]) -> (b: bool)
        ensures
            b == decoded_payload(payload@) is Some,
    {
        crate::payload::is_map_payload(payload)
    }

    /// Detaches every layer: returns the widgets whose layer goes, in order,
    /// and leaves none.
    pub fn detach_all(&mut self) -> (detached: Vec<u128>)
        ensures
            detached@ == old(self).layer_ids(),
            final(self).layer_ids() == Seq::<u128>::empty(),
            final(self).host_attached() == old(self).host_attached(),
    {
        let mut detached: Vec<u128> = Vec::new();
        std::mem::swap(&mut detached, &mut self.layers);
        detached
    }

    /// Attaches a host view (`native_view` tells whether the window offers a
    /// native view of the platform; otherwise no host is attached): every
    /// existing layer is detached first.
    pub fn attach_host(&mut self, native_view: bool) -> (detached: Vec<u128>)
        ensures
            detached@ == old(self).layer_ids(),
            final(self).layer_ids() == Seq::<u128>::empty(),
            final(self).host_attached() == native_view,
    {
        let detached = self.detach_all();
        self.has_host = native_view;
        detached
    }

    /// Presents a new set of surface frames. With no frame, or with no host
    /// view, every layer is detached. Otherwise each frame with a map payload,
    /// in order, ensures its widget's state in `store` from the payload's
    /// initial state, creates the widget's layer when it has none, and
    /// updates the layer to the frame with the state the store holds; frames
    /// without a map payload are skipped. Finally every layer whose widget no
    /// frame showed is detached.
    pub fn present_surfaces(&mut self, store: &mut MapStateStore, frames: &[SurfaceFrame]) -> (commands: Vec<SurfaceCommand>)
        ensures
            final(self).host_attached() == old(self).host_attached(),
            final(self).layer_ids().no_duplicates(),
            (frames@.len() == 0 || !old(self).host_attached()) ==> {
                &&& final(store)@ == old(store)@
                &&& final(self).layer_ids() == Seq::<u128>::empty()
                &&& commands@ == detach_commands(old(self).layer_ids())
            },
            (frames@.len() > 0 && old(self).host_attached()) ==> ({
                let plan = plan_frames(old(store)@, old(self).layer_ids(), frames@);
                &&& final(store)@ == plan.0
                &&& final(self).layer_ids() == retained_layers(plan.1, frames@)
                &&& commands@ == plan.2 + detach_commands(dropped_layers(plan.1, frames@))
            }),
    {
        proof {
            use_type_invariant(&*self);
        }
        if frames.len() == 0 || !self.has_host {
            let detached = self.detach_all();
            return detach_all_of(&detached);
        }
        let mut layers: Vec<u128> = Vec::new();
        std::mem::swap(&mut layers, &mut self.layers);
        let ghost store0 = store@;
        let ghost layers0 = layers@;
        let mut commands: Vec<SurfaceCommand> = Vec::new();
        let mut seen: Vec<u128> = Vec::new();
        let mut i: usize = 0;
        while i < frames.len()
            invariant
                i <= frames@.len(),
                layers0.no_duplicates(),
                (store@, layers@, commands@) == plan_frames(store0, layers0, frames@.take(i as int)),
                forall|id: u128| #[trigger] seen@.contains(id) <==> shown_in(frames@.take(i as int), id),
            decreases frames@.len() - i,
        {
            let frame = &frames[i];
            let ghost prefix = frames@.take(i as int);
            proof {
                assert(frames@.take(i + 1) == prefix.push(frames@[i as int]));
                assert(frames@.take(i + 1).drop_last() == prefix);
            }
            match decode_payload(frame.payload.as_slice()) {
                None => {},
                Some(p) => {
                    let id = frame.widget_id;
                    let state = store.ensure(id, p.initial_state());
                    if !holds_id(&layers, id) {
                        layers.push(id);
                        commands.push(SurfaceCommand::Create { widget_id: id, state });
                    }
                    commands.push(SurfaceCommand::Update { frame: i, widget_id: id, state });
                    seen.push(id);
                },
            }
            proof {
                assert forall|id: u128| #[trigger] seen@.contains(id) <==> shown_in(frames@.take(i + 1), id) by {
                    lemma_shown_in_push(prefix, frames@[i as int], id);
                }
            }
            i = i + 1;
        }
        proof {
            assert(frames@.take(frames@.len() as int) == frames@);
            lemma_plan_layers(store0, layers0, frames@);
        }
        let ghost planned = layers@;
        let mut kept: Vec<u128> = Vec::new();
        let mut k: usize = 0;
        let ghost commands0 = commands@;
        while k < layers.len()
            invariant
                k <= layers@.len(),
                layers@ == planned,
                forall|id: u128| #[trigger] seen@.contains(id) <==> shown_in(frames@, id),
                kept@ == retained_layers(planned.take(k as int), frames@),
                commands@ == commands0 + detach_commands(dropped_layers(planned.take(k as int), frames@)),
            decreases layers@.len() - k,
        {
            let id = layers[k];
            proof {
                assert(planned.take(k + 1) == planned.take(k as int).push(id));
                assert(planned.take(k + 1).drop_last() == planned.take(k as int));
            }
            if holds_id(&seen, id) {
                kept.push(id);
                assert(commands@ == commands0 + detach_commands(dropped_layers(planned.take(k + 1), frames@)));
            } else {
                commands.push(SurfaceCommand::Detach { widget_id: id });
                assert(detach_commands(dropped_layers(planned.take(k + 1), frames@)) =~= detach_commands(
                    dropped_layers(planned.take(k as int), frames@),
                ).push(SurfaceCommand::Detach { widget_id: id }));
                assert(commands@ =~= commands0 + detach_commands(dropped_layers(planned.take(k + 1), frames@)));
            }
            k = k + 1;
        }
        proof {
            assert(planned.take(planned.len() as int) == planned);
            lemma_retained_dropped(planned, frames@);
        }
        self.layers = kept;
        commands
    }
}

} // verus!
