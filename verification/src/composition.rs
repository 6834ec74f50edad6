use crate::geometry::{Point, Rect, Size, fits_i32};
use vstd::prelude::*;

verus! {

broadcast use vstd::string::group_string_axioms;

/// Where a window is put relative to the others.
#[derive(Debug, Copy, Clone, PartialEq, Eq, Structural)]
pub enum WindowPosition {
    New,
    Mid,
    Left,
    Right,
}

/// A zone as it is written in the configuration.
#[derive(Debug, Clone)]
pub struct ConfigZone {
    pub name: String,
    pub x: i32,
    pub y: i32,
    pub width: i32,
    pub height: i32,
    pub default: bool,
}

/// A named area of the workspace that windows can be placed into.
#[derive(Debug, Clone)]
pub struct Zone {
    pub name: String,
    pub geometry: Rect,
    pub default: bool,
}

impl Zone {
    /// The zone that a configuration entry describes.
    pub fn from_config(value: ConfigZone) -> (zone: Zone)
        ensures
            zone.name@ == value.name@,
            zone.geometry == (Rect {
                loc: Point { x: value.x, y: value.y },
                size: Size { w: value.width, h: value.height },
            }),
            zone.default == value.default,
    {
        Zone {
            name: value.name,
            geometry: Rect {
                loc: Point { x: value.x, y: value.y },
                size: Size { w: value.width, h: value.height },
            },
            default: value.default,
        }
    }
}

/// The geometry stored under `name` when the zones are inserted in the order
/// of `zones` into a map: a later zone replaces an earlier one of the same name.
pub open spec fn zone_lookup(zones: Seq<Zone>, name: Seq<char>) -> Option<Rect>
    decreases zones.len(),
{
    if zones.len() == 0 {
        None
    } else if zones.last().name@ == name {
        Some(zones.last().geometry)
    } else {
        zone_lookup(zones.drop_last(), name)
    }
}

/// The default zone after the zones are inserted in order, starting from
/// `previous`: the last zone marked as default, if any, else `previous`.
pub open spec fn default_after(previous: Option<Seq<char>>, zones: Seq<Zone>) -> Option<Seq<char>>
    decreases zones.len(),
{
    if zones.len() == 0 {
        previous
    } else if zones.last().default {
        Some(zones.last().name@)
    } else {
        default_after(previous, zones.drop_last())
    }
}

/// The size and position a new window receives when no zone applies.
pub open spec fn fallback_placement() -> Rect {
    Rect { loc: Point { x: 100, y: 100 }, size: Size { w: 2560, h: 1440 } }
}

/// The area a window is bounded by when no output is known.
pub open spec fn fallback_bounds() -> Rect {
    Rect { loc: Point { x: 0, y: 0 }, size: Size { w: 800, h: 800 } }
}

/// The zones of the workspace and the name of the default one.
pub struct ZoneRegistry {
    zones: Vec<Zone>,
    default_zone: Option<String>,
}

impl ZoneRegistry {
    /// The geometry of the zone called `name`, if there is one.
    pub closed spec fn lookup(&self, name: Seq<char>) -> Option<Rect> {
        zone_lookup(self.zones@, name)
    }

    /// The name of the default zone, if one was set.
    pub closed spec fn default_name(&self) -> Option<Seq<char>> {
        match self.default_zone {
            Some(s) => Some(s@),
            None => None,
        }
    }

    /// The geometry a window gets for the requested zone, or for the default
    /// zone, or the fallback placement.
    pub open spec fn spec_placement(&self, requested: Option<Seq<char>>) -> Rect {
        match requested {
            Some(name) => self.lookup(name).unwrap(),
            None => match self.default_name() {
                Some(d) => self.lookup(d).unwrap(),
                None => fallback_placement(),
            },
        }
    }

    /// Whether a placement can be computed for `requested`: a named zone, or
    /// the default zone when none is named, must exist.
    pub open spec fn placement_defined(&self, requested: Option<Seq<char>>) -> bool {
        match requested {
            Some(name) => self.lookup(name) is Some,
            None => match self.default_name() {
                Some(d) => self.lookup(d) is Some,
                None => true,
            },
        }
    }

    /// A registry without zones and without a default zone.
    pub fn new() -> (r: ZoneRegistry)
        ensures
            forall|name: Seq<char>| r.lookup(name) is None,
            r.default_name() is None,
    {
        ZoneRegistry { zones: Vec::new(), default_zone: None }
    }

    /// Replaces all zones by `zones`. A zone marked as default becomes the
    /// default zone (the last such one wins); when none is marked, the
    /// previous default name is kept.
    pub fn set_zones(&mut self, zones: Vec<Zone>)
        ensures
            forall|name: Seq<char>| #[trigger] final(self).lookup(name) == zone_lookup(zones@, name),
            final(self).default_name() == default_after(old(self).default_name(), zones@),
    {
        let ghost prev = self.default_name();
        let mut i: usize = 0;
        while i < zones.len()
            invariant
                i <= zones@.len(),
                match self.default_zone {
                    Some(s) => Some(s@),
                    None => None::<Seq<char>>,
                } == default_after(prev, zones@.take(i as int)),
            decreases zones@.len() - i,
        {
            assert(zones@.take((i + 1) as int).drop_last() =~= zones@.take(i as int));
            if zones[i].default {
                self.default_zone = Some(zones[i].name.clone());
            }
            i = i + 1;
        }
        assert(zones@.take(zones@.len() as int) =~= zones@);
        self.zones = zones;
    }

    /// The geometry of the zone called `name`.
    pub fn zone_geometry(&self, name: &String) -> (r: Option<Rect>)
        ensures
            r == self.lookup(name@),
    {
        let mut i = self.zones.len();
        assert(self.zones@.take(i as int) =~= self.zones@);
        while i > 0
            invariant
                i <= self.zones@.len(),
                zone_lookup(self.zones@, name@) == zone_lookup(self.zones@.take(i as int), name@),
            decreases i,
        {
            assert(self.zones@.take(i as int).drop_last() =~= self.zones@.take(i - 1));
            if self.zones[i - 1].name == *name {
                return Some(self.zones[i - 1].geometry);
            }
            i = i - 1;
        }
        None
    }

    /// The name of the default zone.
    pub fn default_zone(&self) -> (r: Option<String>)
        ensures
            match r {
                Some(s) => self.default_name() == Some(s@),
                None => self.default_name() is None,
            },
    {
        match &self.default_zone {
            Some(s) => Some(s.clone()),
            None => None,
        }
    }

    /// The position and size of a newly placed window: those of the requested
    /// zone, else those of the default zone, else a 2560x1440 area at (100, 100).
    pub fn placement(&self, requested: Option<&String>) -> (r: Rect)
        requires
            self.placement_defined(
                match requested {
                    Some(s) => Some(s@),
                    None => None,
                },
            ),
        ensures
            r == self.spec_placement(
                match requested {
                    Some(s) => Some(s@),
                    None => None,
                },
            ),
    {
        match requested {
            Some(name) => self.zone_geometry(name).unwrap(),
            None => match &self.default_zone {
                Some(d) => self.zone_geometry(d).unwrap(),
                None => Rect { loc: Point { x: 100, y: 100 }, size: Size { w: 2560, h: 1440 } },
            },
        }
    }
}

/// The area of an output that windows may use: the non-exclusive zone of its
/// layer map, moved by the output's position.
pub fn usable_area(output: Rect, non_exclusive: Rect) -> (r: Rect)
    requires
        fits_i32(output.loc.x + non_exclusive.loc.x),
        fits_i32(output.loc.y + non_exclusive.loc.y),
    ensures
        r.loc.x == output.loc.x + non_exclusive.loc.x,
        r.loc.y == output.loc.y + non_exclusive.loc.y,
        r.size == non_exclusive.size,
{
    Rect {
        loc: Point { x: output.loc.x + non_exclusive.loc.x, y: output.loc.y + non_exclusive.loc.y },
        size: non_exclusive.size,
    }
}

/// The area that bounds a newly placed window: the usable area of its
/// output, or an 800x800 area at the origin when there is no output.
pub fn placement_bounds(area: Option<Rect>) -> (r: Rect)
    ensures
        r == match area {
            Some(a) => a,
            None => fallback_bounds(),
        },
{
    match area {
        Some(a) => a,
        None => Rect { loc: Point { x: 0, y: 0 }, size: Size { w: 800, h: 800 } },
    }
}

/// Whether the window at stacking position `i` has the application id `id`.
pub open spec fn is_match(app_ids: Seq<String>, i: int, id: Seq<char>) -> bool {
    app_ids[i]@ == id
}

/// Whether some window of the space belongs to the application `id`.
pub open spec fn has_window_of(app_ids: Seq<String>, id: Seq<char>) -> bool {
    exists|i: int| 0 <= i < app_ids.len() && #[trigger] is_match(app_ids, i, id)
}

/// Whether `j` is the window that focusing the application `id` picks among
/// windows ordered from the bottom of the stack to the top: a window of `id`,
/// namely the bottom-most one when the topmost window already belongs to
/// `id` (so that repeated requests cycle through its windows), and the
/// topmost one otherwise.
pub open spec fn is_focus_choice(app_ids: Seq<String>, id: Seq<char>, j: int) -> bool {
    &&& 0 <= j < app_ids.len()
    &&& is_match(app_ids, j, id)
    &&& if is_match(app_ids, app_ids.len() - 1, id) {
        forall|k: int| 0 <= k < j ==> !#[trigger] is_match(app_ids, k, id)
    } else {
        forall|k: int| j < k < app_ids.len() ==> !#[trigger] is_match(app_ids, k, id)
    }
}

/// Picks the window to focus for the application `app_id` among the windows
/// of a space, whose application ids `app_ids` are ordered from the bottom of
/// the stack to the top. The windows are looked at from the top: if the
/// topmost one belongs to `app_id`, the search goes on to the bottom-most
/// window of `app_id`; otherwise it stops at the first window of `app_id`.
pub fn focus_candidate(app_ids: &Vec<String>, app_id: &String) -> (r: Option<usize>)
    ensures
        r is None <==> !has_window_of(app_ids@, app_id@),
        r matches Some(j) ==> is_focus_choice(app_ids@, app_id@, j as int),
{
    let n = app_ids.len();
    let mut window_result: Option<usize> = None;
    let mut last = false;
    let mut done = false;
    let mut i: usize = 0;
    while i < n && !done
        invariant
            n == app_ids@.len(),
            i <= n,
            // `last` records that the topmost window matched
            last ==> i > 0 && is_match(app_ids@, n - 1, app_id@),
            i > 0 && is_match(app_ids@, n - 1, app_id@) ==> last,
            // the looked-at windows are n - i .. n
            !done ==> (window_result is None <==> forall|k: int| n - i <= k < n ==> !#[trigger] is_match(app_ids@, k, app_id@)),
            !done && !last ==> window_result is None,
            last ==> (window_result matches Some(j) && n - i <= j < n && is_match(app_ids@, j as int, app_id@)
                && forall|k: int| n - i <= k < j ==> !#[trigger] is_match(app_ids@, k, app_id@)),
            done ==> !last && i > 0,
            done ==> (window_result matches Some(j) && j < n && is_match(app_ids@, j as int, app_id@)
                && forall|k: int| j < k < n ==> !#[trigger] is_match(app_ids@, k, app_id@)),
        decreases n - i + if done { 0int } else { 1int },
    {
        let idx = n - 1 - i;
        let found = app_ids[idx] == *app_id;
        assert(found == is_match(app_ids@, idx as int, app_id@));
        if found {
            window_result = Some(idx);
            if i == 0 {
                last = true;
            } else if last {
            } else {
                done = true;
            }
        }
        if !done {
            i = i + 1;
        }
    }
    window_result
}

/// The window that `Tab { index }` focuses: the `index`-th window counted from
/// the top of a stack of `count` windows (ordered bottom to top).
pub fn tab_target(count: usize, index: usize) -> (r: Option<usize>)
    ensures
        r == if index < count { Some((count - 1 - index) as usize) } else { None::<usize> },
{
    if index < count {
        Some(count - 1 - index)
    } else {
        None
    }
}

/// The window that `Close` acts on: the topmost of `count` windows.
pub fn close_target(count: usize) -> (r: Option<usize>)
    ensures
        r == if count > 0 { Some((count - 1) as usize) } else { None::<usize> },
{
    if count > 0 {
        Some(count - 1)
    } else {
        None
    }
}

/// What `set_zones` stores can be read back: a zone of the list is found
/// under its name with its geometry, unless a later zone of the list has
/// the same name, which then replaces it; a name that no zone of the list
/// has is not found.
pub proof fn lemma_zone_lookup(zones: Seq<Zone>, i: int, name: Seq<char>)
    requires
        0 <= i < zones.len(),
    ensures
        (forall|k: int| i < k < zones.len() ==> (#[trigger] zones[k]).name@ != zones[i].name@)
            ==> zone_lookup(zones, zones[i].name@) == Some(zones[i].geometry),
        (forall|k: int| 0 <= k < zones.len() ==> (#[trigger] zones[k]).name@ != name)
            ==> zone_lookup(zones, name) is None,
    decreases zones.len(),
{
    if i < zones.len() - 1 {
        let prefix = zones.drop_last();
        lemma_zone_lookup(prefix, i, name);
        if forall|k: int| i < k < zones.len() ==> (#[trigger] zones[k]).name@ != zones[i].name@ {
            assert(zones[zones.len() - 1].name@ != zones[i].name@);
            assert forall|k: int| i < k < prefix.len() implies (#[trigger] prefix[k]).name@ != prefix[i].name@ by {
                assert(prefix[k] == zones[k]);
            }
        }
    } else {
        lemma_zone_lookup_absent(zones.drop_last(), name);
    }
    if forall|k: int| 0 <= k < zones.len() ==> (#[trigger] zones[k]).name@ != name {
        lemma_zone_lookup_absent(zones, name);
    }
}

proof fn lemma_zone_lookup_absent(zones: Seq<Zone>, name: Seq<char>)
    ensures
        (forall|k: int| 0 <= k < zones.len() ==> (#[trigger] zones[k]).name@ != name)
            ==> zone_lookup(zones, name) is None,
    decreases zones.len(),
{
    if zones.len() > 0 {
        let prefix = zones.drop_last();
        lemma_zone_lookup_absent(prefix, name);
        if forall|k: int| 0 <= k < zones.len() ==> (#[trigger] zones[k]).name@ != name {
            assert(zones[zones.len() - 1].name@ != name);
            assert forall|k: int| 0 <= k < prefix.len() implies (#[trigger] prefix[k]).name@ != name by {
                assert(prefix[k] == zones[k]);
            }
        }
    }
}

/// Focusing an application cycles through its windows: when its window is
/// already on top and it has another window in the space, the window picked
/// is not the one on top (it is the bottom-most of the application's).
/// When the application's window is not on top, the picked window is above
/// every other window of the application.
pub proof fn lemma_focus_cycles(app_ids: Seq<String>, id: Seq<char>, j: int, other: int)
    requires
        is_focus_choice(app_ids, id, j),
    ensures
        (is_match(app_ids, app_ids.len() - 1, id) && 0 <= other < app_ids.len() - 1 && is_match(
            app_ids,
            other,
            id,
        )) ==> j != app_ids.len() - 1 && j <= other,
        (!is_match(app_ids, app_ids.len() - 1, id) && 0 <= other < app_ids.len() && is_match(
            app_ids,
            other,
            id,
        )) ==> other <= j,
{
}

/// Where a newly placed window goes and what bounds it is given.
#[derive(Debug, Clone, Copy, PartialEq, Eq, Structural)]
pub struct WindowPlacementPlan {
    /// The window's position and size.
    pub geometry: Rect,
    /// The size the window is bounded by: that of its output's usable area.
    pub bounds: Size,
}

impl ZoneRegistry {
    /// Plans the placement of a window: its geometry comes from the requested
    /// zone, the default zone or the fallback; its bounds from the usable area
    /// of the output under the pointer (or the first output), or an 800x800
    /// area when there is no output.
    pub fn plan_placement(&self, requested: Option<&String>, output_area: Option<Rect>) -> (r: WindowPlacementPlan)
        requires
            self.placement_defined(
                match requested {
                    Some(s) => Some(s@),
                    None => None,
                },
            ),
        ensures
            r.geometry == self.spec_placement(
                match requested {
                    Some(s) => Some(s@),
                    None => None,
                },
            ),
            r.bounds == match output_area {
                Some(a) => a.size,
                None => fallback_bounds().size,
            },
    {
        let geometry = self.placement(requested);
        let bounds = placement_bounds(output_area).size;
        WindowPlacementPlan { geometry, bounds }
    }
}

} // verus!
