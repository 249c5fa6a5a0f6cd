//! The map widget's configuration, its identity, and the context that builds
//! its control actions.
use vstd::prelude::*;
use vstd::string::StringExecFns;
use crate::ids::{explicit_widget_id, explicit_widget_id_value};
use crate::state::{MapSetCenter, MapSetZoom, DEFAULT_ZOOM_BITS};

verus! {

/// A native map. `center` holds latitude and longitude as `f64` bit
/// patterns; `zoom`, `width` and `height` hold `f32` bit patterns.
#[derive(Clone, Copy, Debug, PartialEq)]
pub struct MapWidget {
    pub id: Option<u128>,
    pub center: (u64, u64),
    pub zoom: u32,
    pub width: Option<u32>,
    pub height: Option<u32>,
    pub show_user_location: bool,
    pub interactive: bool,
}

/// A map with no explicit id, centred on `(0.0, 0.0)` at zoom `10.0`, with no
/// fixed size, no user location, and interaction enabled.
pub open spec fn default_map() -> MapWidget {
    MapWidget {
        id: None,
        center: (0u64, 0u64),
        zoom: DEFAULT_ZOOM_BITS,
        width: None,
        height: None,
        show_user_location: false,
        interactive: true,
    }
}

impl Default for MapWidget {
    fn default() -> (map: Self)
        ensures
            map == default_map(),
            map.id is None,
            map.center == (0u64, 0u64),
            map.zoom == 0x4120_0000u32,
            map.width is None,
            map.height is None,
            !map.show_user_location,
            map.interactive,
    {
        MapWidget {
            id: None,
            center: (0, 0),
            zoom: DEFAULT_ZOOM_BITS,
            width: None,
            height: None,
            show_user_location: false,
            interactive: true,
        }
    }
}

/// The key from which a map without an explicit id derives its identity:
/// `fission-maps:<latitude>:<longitude>`, the coordinates in their decimal
/// display form.
pub open spec fn center_key(latitude_text: Seq<char>, longitude_text: Seq<char>) -> Seq<char> {
    "fission-maps:"@ + latitude_text + ":"@ + longitude_text
}

/// The identity of a map: its explicit id, or else the id derived from its
/// centre key.
pub open spec fn map_widget_id(map: MapWidget, latitude_text: Seq<char>, longitude_text: Seq<char>) -> u128 {
    match map.id {
        Some(id) => id,
        None => explicit_widget_id_value(center_key(latitude_text, longitude_text)),
    }
}

/// The key of a map without an explicit id is the prefix `fission-maps:`,
/// the latitude text, a colon and the longitude text, each kept whole: two
/// maps get the same key only when their texts are the same.
pub proof fn lemma_center_key_is_concatenation(a: Seq<char>, b: Seq<char>, c: Seq<char>, d: Seq<char>)
    ensures
        center_key(a, b) == "fission-maps:"@ + a + ":"@ + b,
        center_key(a, b).len() == (13 + a.len() + 1) as int + b.len(),
        center_key(a, b).subrange(0, 13) == "fission-maps:"@,
        center_key(a, b).subrange(13, (13 + a.len()) as int) == a,
        center_key(a, b)[(13 + a.len()) as int] == ':',
        center_key(a, b).subrange((13 + a.len() + 1) as int, center_key(a, b).len() as int) == b,
        (a.len() == c.len() && center_key(a, b) == center_key(c, d)) ==> a == c && b == d,
{
    reveal_strlit(":");
    reveal_strlit("fission-maps:");
    let pre = "fission-maps:"@;
    assert(pre.len() == 13);
    let k = center_key(a, b);
    assert(k.subrange((13 + a.len() + 1) as int, k.len() as int) =~= b);
    assert(k.subrange(0, 13) =~= pre);
    assert(k.subrange(13, (13 + a.len()) as int) =~= a);
    if a.len() == c.len() && center_key(a, b) == center_key(c, d) {
        let k2 = center_key(c, d);
        assert(k2.subrange((13 + c.len() + 1) as int, k2.len() as int) =~= d);
        assert(k2.subrange(13, (13 + c.len()) as int) =~= c);
    }
}

impl MapWidget {
    /// The widget id of this map. `latitude_text` and `longitude_text` are
    /// the decimal display forms of `center`, from which a map without an
    /// explicit id derives its identity.
    pub fn widget_id(&self, latitude_text: &str, longitude_text: &str) -> (id: u128)
        ensures
            id == map_widget_id(*self, latitude_text@, longitude_text@),
            self.id matches Some(explicit) ==> id == explicit,
            self.id is None ==> id == explicit_widget_id_value(
                "fission-maps:"@ + latitude_text@ + ":"@ + longitude_text@,
            ),
    {
        match self.id {
            Some(id) => id,
            None => {
                let mut key = String::from_str("fission-maps:");
                key.append(latitude_text);
                key.append(":");
                key.append(longitude_text);
                explicit_widget_id(key.as_str())
            },
        }
    }

    /// The control context of this map (see [`MapWidget::widget_id`] for the two
    /// texts).
    pub fn controls(&self, latitude_text: &str, longitude_text: &str) -> (ctx: MapControlCtx)
        ensures
            ctx.target_id() == map_widget_id(*self, latitude_text@, longitude_text@),
            self.id matches Some(explicit) ==> ctx.target_id() == explicit,
            self.id is None ==> ctx.target_id() == explicit_widget_id_value(
                "fission-maps:"@ + latitude_text@ + ":"@ + longitude_text@,
            ),
    {
        MapControlCtx::new(self.widget_id(latitude_text, longitude_text))
    }
}

/// Builds the control actions of one map widget.
#[derive(Clone, Copy, Debug, PartialEq, Eq, Structural)]
pub struct MapControlCtx {
    target: u128,
}

impl MapControlCtx {
    /// The widget id that the actions of this context target.
    pub closed spec fn target_id(self) -> u128 {
        self.target
    }

    pub fn new(target: u128) -> (ctx: Self)
        ensures
            ctx.target_id() == target,
    {
        MapControlCtx { target }
    }

    /// The action that moves the map to the given latitude and longitude
    /// (`f64` bit patterns).
    pub fn set_center(self, latitude: u64, longitude: u64) -> (action: MapSetCenter)
        ensures
            action == (MapSetCenter { target: self.target_id(), latitude, longitude }),
    {
        MapSetCenter { target: self.target, latitude, longitude }
    }

    /// The action that zooms the map to `zoom` (an `f32` bit pattern).
    pub fn set_zoom(self, zoom: u32) -> (action: MapSetZoom)
        ensures
            action == (MapSetZoom { target: self.target_id(), zoom }),
    {
        MapSetZoom { target: self.target, zoom }
    }
}

} // verus!
