//! Window scenes as Mango, Niri, Hyprland and Sway tell them.

use vstd::prelude::*;
use vstd::string::*;
use crate::compositor::projection::{named_areas, Area};
use crate::compositor::visibility::{
    finite, is_finite, is_positive, positive, put, put_windows, scenes, OutputScene, OutputWindows, Placement, Point, SceneView,
    WindowsView,
};
use crate::json::{items_are_smaller, trees, Json, Tree};
use crate::text;

verus! {

/// A scene before floating windows are projected, with the areas that outputs tell. Compositors that
/// keep floating windows on their own output have no areas.
#[derive(Debug)]
pub struct Scene {
    pub outputs: Vec<OutputScene>,
    pub areas: Option<Vec<(String, Area)>>,
}

/// What a [`Scene`] holds.
pub struct Whole {
    pub outputs: Seq<SceneView>,
    pub areas: Option<Seq<(Seq<char>, Area)>>,
}

impl View for Scene {
    type V = Whole;

    open spec fn view(&self) -> Whole {
        Whole {
            outputs: scenes(self.outputs@),
            areas: match self.areas {
                Some(areas) => Some(named_areas(areas@)),
                None => None,
            },
        }
    }
}

/// What an optional scene holds.
pub open spec fn whole_of(scene: Option<Scene>) -> Option<Whole> {
    match scene {
        Some(s) => Some(s@),
        None => None,
    }
}

/// The rectangle that a value tells.
pub open spec fn rect_of(t: Tree) -> Option<Placement> {
    match (t.bits("x"@), t.bits("y"@), t.bits("width"@), t.bits("height"@)) {
        (Some(x), Some(y), Some(w), Some(h)) => Placement::made(x, y, w, h),
        _ => None,
    }
}

fn rect(value: &Json) -> (place: Option<Placement>)
    ensures
        place == rect_of(value@),
{
    match (value.get_bits("x"), value.get_bits("y"), value.get_bits("width"), value.get_bits("height")) {
        (Some(x), Some(y), Some(w), Some(h)) => Placement::new(x, y, w, h),
        _ => None,
    }
}

/// The corner that a value tells.
pub open spec fn corner_of(t: Tree) -> Option<Point> {
    match (t.bits("x"@), t.bits("y"@)) {
        (Some(x), Some(y)) => Some(Point { x, y }),
        _ => None,
    }
}

fn corner(value: &Json) -> (point: Option<Point>)
    ensures
        point == corner_of(value@),
{
    match (value.get_bits("x"), value.get_bits("y")) {
        (Some(x), Some(y)) => Some(Point { x, y }),
        _ => None,
    }
}

/// The first two numbers of an array.
pub open spec fn pair_of(t: Tree) -> Option<Point> {
    match (t.at(0), t.at(1)) {
        (Some(a), Some(b)) => match (a.as_bits(), b.as_bits()) {
            (Some(x), Some(y)) => Some(Point { x, y }),
            _ => None,
        },
        _ => None,
    }
}

fn pair(value: &Json) -> (point: Option<Point>)
    ensures
        point == pair_of(value@),
{
    match (value.at(0), value.at(1)) {
        (Some(a), Some(b)) => match (a.as_bits(), b.as_bits()) {
            (Some(x), Some(y)) => Some(Point { x, y }),
            _ => None,
        },
        _ => None,
    }
}

/// The rectangle with a corner and a size.
pub open spec fn rect_at(at: Option<Point>, size: Option<Point>) -> Option<Placement> {
    match (at, size) {
        (Some(p), Some(s)) => Placement::made(p.x, p.y, s.x, s.y),
        _ => None,
    }
}

fn rect_from(at: Option<Point>, size: Option<Point>) -> (place: Option<Placement>)
    ensures
        place == rect_at(at, size),
{
    match (at, size) {
        (Some(p), Some(s)) => Placement::new(p.x, p.y, s.x, s.y),
        _ => None,
    }
}

/// A global rectangle in the coordinates of an output with that corner.
pub open spec fn local_to(place: Option<Placement>, origin: Option<Point>) -> Option<Placement> {
    match (place, origin) {
        (Some(p), Some(o)) => Some(Placement { origin: Some(o), ..p }),
        _ => None,
    }
}

fn local(place: Option<Placement>, origin: Option<Point>) -> (moved: Option<Placement>)
    ensures
        moved == local_to(place, origin),
{
    match (place, origin) {
        (Some(p), Some(o)) => Some(
            Placement {
                x: p.x,
                y: p.y,
                width: p.width,
                height: p.height,
                origin: Some(o),
                projection: p.projection,
            },
        ),
        _ => None,
    }
}

/// Whether a text under a key is the one wanted.
fn has_text(value: &Json, key: &str, wanted: &str) -> (yes: bool)
    ensures
        yes == (value@.str(key@) == Some(wanted@)),
{
    match value.get_str(key) {
        Some(t) => text::str_eq(t, wanted),
        None => false,
    }
}

/// Compositors that draw floating windows in the global layout.
#[derive(Clone, Copy, Debug, PartialEq, Eq, Structural)]
pub enum Global {
    Mango,
    Hyprland,
    Sway,
}

/// The logical area of a Hyprland monitor: width and height change places on odd transforms, and
/// are to be divided by the scale. An area needs finite numbers, and a scale, a width and a height
/// above zero.
pub open spec fn hyprland_area(monitor: Tree) -> Option<Area> {
    match (
        monitor.bits("scale"@),
        monitor.bits("width"@),
        monitor.bits("height"@),
        monitor.u64("transform"@),
        corner_of(monitor),
    ) {
        (Some(scale), Some(w), Some(h), Some(transform), Some(p)) => if positive(scale) && finite(p.x) && finite(p.y) && positive(w)
            && positive(h) {
            let turned = transform % 2 == 1;
            Some(
                Area {
                    x: p.x,
                    y: p.y,
                    width: if turned { h } else { w },
                    height: if turned { w } else { h },
                    scale: Some(scale),
                },
            )
        } else {
            None
        },
        _ => None,
    }
}

fn hyprland_output_rect(monitor: &Json) -> (area: Option<Area>)
    ensures
        area == hyprland_area(monitor@),
{
    match (
        monitor.get_bits("scale"),
        monitor.get_bits("width"),
        monitor.get_bits("height"),
        monitor.get_u64("transform"),
        corner(monitor),
    ) {
        (Some(scale), Some(w), Some(h), Some(transform), Some(p)) => {
            if !is_positive(scale) || !is_finite(p.x) || !is_finite(p.y) || !is_positive(w) || !is_positive(h) {
                return None;
            }
            let turned = transform % 2 == 1;
            let width: u64 = if turned { h } else { w };
            let height: u64 = if turned { w } else { h };
            Some(Area { x: p.x, y: p.y, width, height, scale: Some(scale) })
        }
        _ => None,
    }
}

/// A rectangle as the area of an output.
pub open spec fn plain_area(place: Option<Placement>) -> Option<Area> {
    match place {
        Some(p) => Some(Area { x: p.x, y: p.y, width: p.width, height: p.height, scale: None }),
        None => None,
    }
}

fn area_from(place: Option<Placement>) -> (area: Option<Area>)
    ensures
        area == plain_area(place),
{
    match place {
        Some(p) => Some(Area { x: p.x, y: p.y, width: p.width, height: p.height, scale: None }),
        None => None,
    }
}

/// The area that a description of an output tells.
pub open spec fn area_of(kind: Global, output: Tree) -> Option<Area> {
    match kind {
        Global::Mango => plain_area(rect_of(output)),
        Global::Hyprland => hyprland_area(output),
        Global::Sway => plain_area(rect_of(output.member("rect"@))),
    }
}

/// The areas of the outputs that have a name and an area.
pub open spec fn areas_of(kind: Global, outputs: Seq<Tree>) -> Seq<(Seq<char>, Area)>
    decreases outputs.len(),
{
    if outputs.len() == 0 {
        Seq::empty()
    } else {
        let before = areas_of(kind, outputs.drop_last());
        match (outputs.last().str("name"@), area_of(kind, outputs.last())) {
            (Some(name), Some(area)) => before.push((name, area)),
            _ => before,
        }
    }
}

fn read_areas(kind: Global, outputs: &Vec<Json>) -> (areas: Vec<(String, Area)>)
    ensures
        named_areas(areas@) == areas_of(kind, trees(outputs@)),
{
    let ghost whole = trees(outputs@);
    let mut areas: Vec<(String, Area)> = Vec::new();
    let mut i: usize = 0;
    proof {
        assert(whole.take(0) =~= Seq::empty());
        assert(named_areas(areas@) =~= Seq::empty());
    }
    while i < outputs.len()
        invariant
            i <= outputs@.len(),
            whole == trees(outputs@),
            named_areas(areas@) == areas_of(kind, whole.take(i as int)),
        decreases outputs@.len() - i,
    {
        let output = &outputs[i];
        proof {
            assert(whole.take(i + 1).drop_last() =~= whole.take(i as int));
            assert(whole.take(i + 1).last() == output@);
        }
        let area = match kind {
            Global::Mango => area_from(rect(output)),
            Global::Hyprland => hyprland_output_rect(output),
            Global::Sway => area_from(rect(output.member("rect"))),
        };
        match (output.get_str("name"), area) {
            (Some(name), Some(a)) => {
                let ghost before = named_areas(areas@);
                areas.push((name.to_string(), a));
                proof {
                    assert(named_areas(areas@) =~= before.push((name@, a)));
                }
            }
            _ => {}
        }
        i += 1;
    }
    proof {
        assert(whole.take(i as int) =~= whole);
    }
    areas
}

/// Whether Mango shows its overview on a monitor: coordinates then do not tell of the workspace.
pub open spec fn in_overview(monitor: Tree) -> bool {
    match monitor.array("active_tags"@) {
        Some(tags) => exists|i: int| 0 <= i < tags.len() && (#[trigger] tags[i]).as_u64() == Some(0u64),
        None => false,
    }
}

fn shows_overview(monitor: &Json) -> (yes: bool)
    ensures
        yes == in_overview(monitor@),
{
    let tags = match monitor.get_array("active_tags") {
        Some(t) => t,
        None => {
            return false;
        }
    };
    let ghost whole = trees(tags@);
    let mut i: usize = 0;
    while i < tags.len()
        invariant
            i <= tags@.len(),
            whole == trees(tags@),
            monitor@.array("active_tags"@) == Some(whole),
            forall|j: int| 0 <= j < i ==> (#[trigger] whole[j]).as_u64() != Some(0u64),
        decreases tags@.len() - i,
    {
        assert(whole[i as int] == tags@[i as int]@);
        match tags[i].as_u64() {
            Some(0) => {
                return true;
            }
            _ => {}
        }
        i += 1;
    }
    false
}

/// The windows of a Mango monitor with one more client. Clients that are minimized, swallowed or
/// not visible do not count; fullscreen and maximized ones count as tiled.
pub open spec fn mango_with(state: WindowsView, name: Seq<char>, origin: Option<Point>, client: Tree) -> WindowsView {
    if client.str("monitor"@) != Some(name) || client.flag("is_minimized"@) || client.flag("is_swallowedby"@) {
        state
    } else {
        match client.bool("is_visible"@) {
            Some(false) => state,
            None => WindowsView { incomplete: true, ..state },
            Some(true) => state.with(
                if client.flag("is_fullscreen"@) || client.flag("is_maximized"@) {
                    Some(false)
                } else {
                    client.bool("is_floating"@)
                },
                local_to(rect_of(client), origin),
            ),
        }
    }
}

/// The windows of a Mango monitor with more clients.
pub open spec fn mango_clients(
    state: WindowsView,
    name: Seq<char>,
    origin: Option<Point>,
    clients: Seq<Tree>,
) -> WindowsView
    decreases clients.len(),
{
    if clients.len() == 0 {
        state
    } else {
        mango_with(mango_clients(state, name, origin, clients.drop_last()), name, origin, clients.last())
    }
}

/// The windows of a Mango monitor.
pub open spec fn mango_output(monitor: Tree, name: Seq<char>, clients: Seq<Tree>) -> WindowsView {
    mango_clients(
        WindowsView { incomplete: in_overview(monitor), ..WindowsView::empty() },
        name,
        corner_of(monitor),
        clients,
    )
}

/// The windows of Mango monitors; none if a monitor has no name.
pub open spec fn mango_outputs(monitors: Seq<Tree>, clients: Seq<Tree>) -> Option<Seq<SceneView>>
    decreases monitors.len(),
{
    if monitors.len() == 0 {
        Some(Seq::empty())
    } else {
        let monitor = monitors.last();
        match (mango_outputs(monitors.drop_last(), clients), monitor.str("name"@)) {
            (Some(before), Some(name)) => Some(put(before, name, mango_output(monitor, name, clients))),
            _ => None,
        }
    }
}

/// The scene that Mango tells.
pub open spec fn mango_whole(monitors: Tree, clients: Tree) -> Option<Whole> {
    match (monitors.array("monitors"@), clients.array("clients"@)) {
        (Some(m), Some(c)) => match mango_outputs(m, c) {
            Some(outputs) => Some(Whole { outputs, areas: Some(areas_of(Global::Mango, m)) }),
            None => None,
        },
        _ => None,
    }
}

fn add_mango_client(state: &mut OutputWindows, name: &str, origin: Option<Point>, client: &Json)
    ensures
        final(state)@ == mango_with(old(state)@, name@, origin, client@),
{
    if !has_text(client, "monitor", name) || client.has_flag("is_minimized") || client.has_flag("is_swallowedby") {
        return;
    }
    match client.get_bool("is_visible") {
        Some(false) => {}
        None => state.incomplete = true,
        Some(true) => {
            let floating = if client.has_flag("is_fullscreen") || client.has_flag("is_maximized") {
                Some(false)
            } else {
                client.get_bool("is_floating")
            };
            state.add(floating, local(rect(client), origin));
        }
    }
}

fn read_mango_output(monitor: &Json, name: &str, clients: &Vec<Json>) -> (state: OutputWindows)
    ensures
        state@ == mango_output(monitor@, name@, trees(clients@)),
{
    let origin = corner(monitor);
    let ghost whole = trees(clients@);
    let mut state = OutputWindows::default();
    state.incomplete = shows_overview(monitor);
    let ghost start = state@;
    let mut i: usize = 0;
    proof {
        assert(whole.take(0) =~= Seq::empty());
    }
    while i < clients.len()
        invariant
            i <= clients@.len(),
            whole == trees(clients@),
            state@ == mango_clients(start, name@, origin, whole.take(i as int)),
        decreases clients@.len() - i,
    {
        proof {
            assert(whole.take(i + 1).drop_last() =~= whole.take(i as int));
            assert(whole.take(i + 1).last() == clients@[i as int]@);
        }
        add_mango_client(&mut state, name, origin, &clients[i]);
        i += 1;
    }
    proof {
        assert(whole.take(i as int) =~= whole);
    }
    state
}

/// The scene that Mango's monitors and clients tell.
pub fn mango_scene(monitors: &Json, clients: &Json) -> (scene: Option<Scene>)
    ensures
        whole_of(scene) == mango_whole(monitors@, clients@),
{
    match (monitors.get_array("monitors"), clients.get_array("clients")) {
        (Some(m), Some(c)) => {
            let ghost whole = trees(m@);
            let mut outputs: Vec<OutputScene> = Vec::new();
            let mut i: usize = 0;
            proof {
                assert(whole.take(0) =~= Seq::empty());
                assert(scenes(outputs@) =~= Seq::empty());
            }
            while i < m.len()
                invariant
                    i <= m@.len(),
                    whole == trees(m@),
                    monitors@.array("monitors"@) == Some(whole),
                    clients@.array("clients"@) == Some(trees(c@)),
                    mango_outputs(whole.take(i as int), trees(c@)) == Some(scenes(outputs@)),
                decreases m@.len() - i,
            {
                let monitor = &m[i];
                proof {
                    assert(whole.take(i + 1).drop_last() =~= whole.take(i as int));
                    assert(whole.take(i + 1).last() == monitor@);
                }
                match monitor.get_str("name") {
                    Some(name) => {
                        let state = read_mango_output(monitor, name, c);
                        put_windows(&mut outputs, name, state);
                    }
                    None => {
                        proof {
                            lemma_mango_stays_none(whole, trees(c@), i + 1);
                        }
                        return None;
                    }
                }
                i += 1;
            }
            proof {
                assert(whole.take(i as int) =~= whole);
            }
            Some(Scene { outputs, areas: Some(read_areas(Global::Mango, m)) })
        }
        _ => None,
    }
}

proof fn lemma_mango_stays_none(monitors: Seq<Tree>, clients: Seq<Tree>, n: int)
    requires
        0 <= n <= monitors.len(),
        mango_outputs(monitors.take(n), clients) is None,
    ensures
        mango_outputs(monitors, clients) is None,
    decreases monitors.len() - n,
{
    if n < monitors.len() {
        assert(monitors.take(n + 1).drop_last() =~= monitors.take(n));
        lemma_mango_stays_none(monitors, clients, n + 1);
    } else {
        assert(monitors.take(n) =~= monitors);
    }
}

/// The windows of a Niri workspace with one more window.
pub open spec fn niri_with(state: WindowsView, id: u64, window: Tree) -> WindowsView {
    if window.u64("workspace_id"@) != Some(id) {
        state
    } else {
        let layout = window.member("layout"@);
        state.with(
            window.bool("is_floating"@),
            rect_at(pair_of(layout.member("tile_pos_in_workspace_view"@)), pair_of(layout.member("tile_size"@))),
        )
    }
}

/// The windows of a Niri workspace.
pub open spec fn niri_windows(id: u64, windows: Seq<Tree>) -> WindowsView
    decreases windows.len(),
{
    if windows.len() == 0 {
        WindowsView::empty()
    } else {
        niri_with(niri_windows(id, windows.drop_last()), id, windows.last())
    }
}

/// The windows of the active workspaces of Niri; none if an active workspace on an output has no
/// id.
pub open spec fn niri_outputs(workspaces: Seq<Tree>, windows: Seq<Tree>) -> Option<Seq<SceneView>>
    decreases workspaces.len(),
{
    if workspaces.len() == 0 {
        Some(Seq::empty())
    } else {
        let workspace = workspaces.last();
        match niri_outputs(workspaces.drop_last(), windows) {
            Some(before) => if workspace.flag("is_active"@) {
                match (workspace.str("output"@), workspace.u64("id"@)) {
                    (None, _) => Some(before),
                    (Some(name), Some(id)) => Some(put(before, name, niri_windows(id, windows))),
                    (Some(_), None) => None,
                }
            } else {
                Some(before)
            },
            None => None,
        }
    }
}

/// The scene that Niri tells.
pub open spec fn niri_whole(workspaces: Tree, windows: Tree) -> Option<Whole> {
    match (workspaces.as_array(), windows.as_array()) {
        (Some(ws), Some(w)) => match niri_outputs(ws, w) {
            Some(outputs) => Some(Whole { outputs, areas: None }),
            None => None,
        },
        _ => None,
    }
}

fn read_niri_windows(id: u64, windows: &Vec<Json>) -> (state: OutputWindows)
    ensures
        state@ == niri_windows(id, trees(windows@)),
{
    let ghost whole = trees(windows@);
    let mut state = OutputWindows::default();
    let mut i: usize = 0;
    proof {
        assert(whole.take(0) =~= Seq::empty());
    }
    while i < windows.len()
        invariant
            i <= windows@.len(),
            whole == trees(windows@),
            state@ == niri_windows(id, whole.take(i as int)),
        decreases windows@.len() - i,
    {
        let window = &windows[i];
        proof {
            assert(whole.take(i + 1).drop_last() =~= whole.take(i as int));
            assert(whole.take(i + 1).last() == window@);
        }
        let here = match window.get_u64("workspace_id") {
            Some(w) => w == id,
            None => false,
        };
        if here {
            let layout = window.member("layout");
            let place = rect_from(
                pair(layout.member("tile_pos_in_workspace_view")),
                pair(layout.member("tile_size")),
            );
            state.add(window.get_bool("is_floating"), place);
        }
        i += 1;
    }
    proof {
        assert(whole.take(i as int) =~= whole);
    }
    state
}

proof fn lemma_niri_stays_none(workspaces: Seq<Tree>, windows: Seq<Tree>, n: int)
    requires
        0 <= n <= workspaces.len(),
        niri_outputs(workspaces.take(n), windows) is None,
    ensures
        niri_outputs(workspaces, windows) is None,
    decreases workspaces.len() - n,
{
    if n < workspaces.len() {
        assert(workspaces.take(n + 1).drop_last() =~= workspaces.take(n));
        lemma_niri_stays_none(workspaces, windows, n + 1);
    } else {
        assert(workspaces.take(n) =~= workspaces);
    }
}

/// The scene that Niri's workspaces and windows tell. Floating windows stay on their output.
pub fn niri_scene(workspaces: &Json, windows: &Json) -> (scene: Option<Scene>)
    ensures
        whole_of(scene) == niri_whole(workspaces@, windows@),
{
    match (workspaces.as_array(), windows.as_array()) {
        (Some(ws), Some(w)) => {
            let ghost whole = trees(ws@);
            let mut outputs: Vec<OutputScene> = Vec::new();
            let mut i: usize = 0;
            proof {
                assert(whole.take(0) =~= Seq::empty());
                assert(scenes(outputs@) =~= Seq::empty());
            }
            while i < ws.len()
                invariant
                    i <= ws@.len(),
                    whole == trees(ws@),
                    workspaces@.as_array() == Some(whole),
                    windows@.as_array() == Some(trees(w@)),
                    niri_outputs(whole.take(i as int), trees(w@)) == Some(scenes(outputs@)),
                decreases ws@.len() - i,
            {
                let workspace = &ws[i];
                proof {
                    assert(whole.take(i + 1).drop_last() =~= whole.take(i as int));
                    assert(whole.take(i + 1).last() == workspace@);
                }
                if workspace.has_flag("is_active") {
                    match (workspace.get_str("output"), workspace.get_u64("id")) {
                        (None, _) => {}
                        (Some(name), Some(id)) => {
                            let state = read_niri_windows(id, w);
                            put_windows(&mut outputs, name, state);
                        }
                        (Some(_), None) => {
                            proof {
                                lemma_niri_stays_none(whole, trees(w@), i + 1);
                            }
                            return None;
                        }
                    }
                }
                i += 1;
            }
            proof {
                assert(whole.take(i as int) =~= whole);
            }
            Some(Scene { outputs, areas: None })
        }
        _ => None,
    }
}

/// What decides which Hyprland clients a monitor shows.
#[derive(Clone, Copy, Debug, PartialEq, Eq, Structural)]
pub struct Shown {
    /// The number of the monitor.
    pub id: i64,
    pub active: i64,
    /// The special workspace, where one is open.
    pub special: Option<i64>,
    pub origin: Option<Point>,
}

/// What a Hyprland monitor shows; none if it does not tell its number and its workspace.
pub open spec fn shown_of(monitor: Tree) -> Option<Shown> {
    match (monitor.i64("id"@), monitor.member("activeWorkspace"@).i64("id"@)) {
        (Some(id), Some(active)) => Some(
            Shown {
                id,
                active,
                special: match monitor.member("specialWorkspace"@).i64("id"@) {
                    Some(special) => if special != 0 { Some(special) } else { None },
                    None => None,
                },
                origin: corner_of(monitor),
            },
        ),
        _ => None,
    }
}

/// Whether a Hyprland client is fullscreen.
pub open spec fn fullscreen(client: Tree) -> bool {
    (match client.u64("fullscreen"@) {
        Some(mode) => mode > 0,
        None => false,
    }) || client.flag("fullscreen"@)
}

/// The windows of a Hyprland monitor with one more client. Clients that are unmapped or hidden do
/// not count, nor do those on workspaces that are not shown unless they are pinned. Fullscreen
/// clients count as tiled.
pub open spec fn hyprland_with(state: WindowsView, shown: Shown, client: Tree) -> WindowsView {
    let ws = client.member("workspace"@).i64("id"@);
    if client.i64("monitor"@) != Some(shown.id) || client.bool("mapped"@) == Some(false) || client.flag("hidden"@) {
        state
    } else if !client.flag("pinned"@) && ws != Some(shown.active) && !(shown.special is Some && ws == shown.special) {
        if ws is None {
            WindowsView { incomplete: true, ..state }
        } else {
            state
        }
    } else {
        state.with(
            if fullscreen(client) {
                Some(false)
            } else {
                client.bool("floating"@)
            },
            local_to(rect_at(pair_of(client.member("at"@)), pair_of(client.member("size"@))), shown.origin),
        )
    }
}

/// The windows of a Hyprland monitor.
pub open spec fn hyprland_clients(shown: Shown, clients: Seq<Tree>) -> WindowsView
    decreases clients.len(),
{
    if clients.len() == 0 {
        WindowsView::empty()
    } else {
        hyprland_with(hyprland_clients(shown, clients.drop_last()), shown, clients.last())
    }
}

/// The windows of Hyprland monitors; none if a monitor does not tell its name or what it shows.
pub open spec fn hyprland_outputs(monitors: Seq<Tree>, clients: Seq<Tree>) -> Option<Seq<SceneView>>
    decreases monitors.len(),
{
    if monitors.len() == 0 {
        Some(Seq::empty())
    } else {
        let monitor = monitors.last();
        match (hyprland_outputs(monitors.drop_last(), clients), monitor.str("name"@), shown_of(monitor)) {
            (Some(before), Some(name), Some(shown)) => Some(put(before, name, hyprland_clients(shown, clients))),
            _ => None,
        }
    }
}

/// The scene that Hyprland tells.
pub open spec fn hyprland_whole(monitors: Tree, clients: Tree) -> Option<Whole> {
    match (monitors.as_array(), clients.as_array()) {
        (Some(m), Some(c)) => match hyprland_outputs(m, c) {
            Some(outputs) => Some(Whole { outputs, areas: Some(areas_of(Global::Hyprland, m)) }),
            None => None,
        },
        _ => None,
    }
}

fn read_shown(monitor: &Json) -> (shown: Option<Shown>)
    ensures
        shown == shown_of(monitor@),
{
    match (monitor.get_i64("id"), monitor.member("activeWorkspace").get_i64("id")) {
        (Some(id), Some(active)) => {
            let special = match monitor.member("specialWorkspace").get_i64("id") {
                Some(s) => if s != 0 { Some(s) } else { None },
                None => None,
            };
            Some(Shown { id, active, special, origin: corner(monitor) })
        }
        _ => None,
    }
}

fn same_number(a: Option<i64>, b: Option<i64>) -> (yes: bool)
    ensures
        yes == (a == b),
{
    match (a, b) {
        (Some(x), Some(y)) => x == y,
        (None, None) => true,
        _ => false,
    }
}

fn add_hyprland_client(state: &mut OutputWindows, shown: Shown, client: &Json)
    ensures
        final(state)@ == hyprland_with(old(state)@, shown, client@),
{
    if !same_number(client.get_i64("monitor"), Some(shown.id)) || client.has_flag("hidden") {
        return;
    }
    match client.get_bool("mapped") {
        Some(false) => {
            return;
        }
        _ => {}
    }
    let ws = client.member("workspace").get_i64("id");
    if !client.has_flag("pinned") && !same_number(ws, Some(shown.active)) && !(shown.special.is_some() && same_number(
        ws,
        shown.special,
    )) {
        if ws.is_none() {
            state.incomplete = true;
        }
        return;
    }
    let raised = match client.get_u64("fullscreen") {
        Some(mode) => mode > 0,
        None => false,
    };
    let floating = if raised || client.has_flag("fullscreen") {
        Some(false)
    } else {
        client.get_bool("floating")
    };
    let place = rect_from(pair(client.member("at")), pair(client.member("size")));
    state.add(floating, local(place, shown.origin));
}

fn read_hyprland_output(shown: Shown, clients: &Vec<Json>) -> (state: OutputWindows)
    ensures
        state@ == hyprland_clients(shown, trees(clients@)),
{
    let ghost whole = trees(clients@);
    let mut state = OutputWindows::default();
    let mut i: usize = 0;
    proof {
        assert(whole.take(0) =~= Seq::empty());
    }
    while i < clients.len()
        invariant
            i <= clients@.len(),
            whole == trees(clients@),
            state@ == hyprland_clients(shown, whole.take(i as int)),
        decreases clients@.len() - i,
    {
        proof {
            assert(whole.take(i + 1).drop_last() =~= whole.take(i as int));
            assert(whole.take(i + 1).last() == clients@[i as int]@);
        }
        add_hyprland_client(&mut state, shown, &clients[i]);
        i += 1;
    }
    proof {
        assert(whole.take(i as int) =~= whole);
    }
    state
}

proof fn lemma_hyprland_stays_none(monitors: Seq<Tree>, clients: Seq<Tree>, n: int)
    requires
        0 <= n <= monitors.len(),
        hyprland_outputs(monitors.take(n), clients) is None,
    ensures
        hyprland_outputs(monitors, clients) is None,
    decreases monitors.len() - n,
{
    if n < monitors.len() {
        assert(monitors.take(n + 1).drop_last() =~= monitors.take(n));
        lemma_hyprland_stays_none(monitors, clients, n + 1);
    } else {
        assert(monitors.take(n) =~= monitors);
    }
}

/// The scene that Hyprland's monitors and clients tell.
pub fn hyprland_scene(monitors: &Json, clients: &Json) -> (scene: Option<Scene>)
    ensures
        whole_of(scene) == hyprland_whole(monitors@, clients@),
{
    match (monitors.as_array(), clients.as_array()) {
        (Some(m), Some(c)) => {
            let ghost whole = trees(m@);
            let mut outputs: Vec<OutputScene> = Vec::new();
            let mut i: usize = 0;
            proof {
                assert(whole.take(0) =~= Seq::empty());
                assert(scenes(outputs@) =~= Seq::empty());
            }
            while i < m.len()
                invariant
                    i <= m@.len(),
                    whole == trees(m@),
                    monitors@.as_array() == Some(whole),
                    clients@.as_array() == Some(trees(c@)),
                    hyprland_outputs(whole.take(i as int), trees(c@)) == Some(scenes(outputs@)),
                decreases m@.len() - i,
            {
                let monitor = &m[i];
                proof {
                    assert(whole.take(i + 1).drop_last() =~= whole.take(i as int));
                    assert(whole.take(i + 1).last() == monitor@);
                }
                match (monitor.get_str("name"), read_shown(monitor)) {
                    (Some(name), Some(shown)) => {
                        let state = read_hyprland_output(shown, c);
                        put_windows(&mut outputs, name, state);
                    }
                    _ => {
                        proof {
                            lemma_hyprland_stays_none(whole, trees(c@), i + 1);
                        }
                        return None;
                    }
                }
                i += 1;
            }
            proof {
                assert(whole.take(i as int) =~= whole);
            }
            Some(Scene { outputs, areas: Some(read_areas(Global::Hyprland, m)) })
        }
        _ => None,
    }
}

/// Whether a Sway node floats by itself.
pub open spec fn floats(node: Tree) -> bool {
    node.str("type"@) == Some("floating_con"@) || node.str("floating"@) == Some("user_on"@) || node.str("floating"@)
        == Some("auto_on"@)
}

/// Whether a Sway node is a window.
pub open spec fn is_window(node: Tree) -> bool {
    (match node.u64("pid"@) {
        Some(pid) => pid > 0,
        None => false,
    }) || node.u64("window"@) is Some
}

/// Whether a Sway node is fullscreen.
pub open spec fn in_fullscreen(node: Tree) -> bool {
    match node.u64("fullscreen_mode"@) {
        Some(mode) => mode != 0,
        None => false,
    }
}

/// The windows of a Sway output with those of a node and of the nodes below it. What is below a
/// floating node floats; fullscreen windows count as tiled.
pub open spec fn sway_with(state: WindowsView, node: Tree, floating: bool, origin: Option<Point>) -> WindowsView
    decreases node, 0nat,
{
    proof {
        items_are_smaller(node, "nodes"@);
        items_are_smaller(node, "floating_nodes"@);
    }
    if node.bool("visible"@) == Some(false) {
        state
    } else {
        let up = floating || floats(node);
        let a = if is_window(node) {
            state.with(Some(up && !in_fullscreen(node)), local_to(rect_of(node.member("rect"@)), origin))
        } else {
            state
        };
        let b = match node.array("nodes"@) {
            Some(children) => sway_all(a, children, up, origin),
            None => a,
        };
        match node.array("floating_nodes"@) {
            Some(children) => sway_all(b, children, true, origin),
            None => b,
        }
    }
}

/// The windows of a Sway output with those of several nodes.
pub open spec fn sway_all(state: WindowsView, nodes: Seq<Tree>, floating: bool, origin: Option<Point>) -> WindowsView
    decreases nodes, 1nat,
{
    if nodes.len() == 0 {
        state
    } else {
        sway_with(sway_all(state, nodes.drop_last(), floating, origin), nodes.last(), floating, origin)
    }
}

/// Whether Sway shows the workspace with a name.
pub open spec fn sway_shows(workspaces: Seq<Tree>, name: Seq<char>) -> bool {
    exists|i: int|
        0 <= i < workspaces.len() && (#[trigger] workspaces[i]).flag("visible"@) && workspaces[i].str("name"@) == Some(
            name,
        )
}

/// The windows of the workspaces of a Sway output that are shown.
pub open spec fn sway_workspaces(
    shown: Seq<Tree>,
    workspaces: Seq<Tree>,
    origin: Option<Point>,
) -> WindowsView
    decreases workspaces.len(),
{
    if workspaces.len() == 0 {
        WindowsView::empty()
    } else {
        let before = sway_workspaces(shown, workspaces.drop_last(), origin);
        let workspace = workspaces.last();
        match workspace.str("name"@) {
            Some(name) => if sway_shows(shown, name) {
                sway_with(before, workspace, false, origin)
            } else {
                before
            },
            None => before,
        }
    }
}

/// The windows of Sway outputs, without the internal one; none if an output has no name or does
/// not tell its workspaces.
pub open spec fn sway_outputs(shown: Seq<Tree>, outputs: Seq<Tree>) -> Option<Seq<SceneView>>
    decreases outputs.len(),
{
    if outputs.len() == 0 {
        Some(Seq::empty())
    } else {
        let output = outputs.last();
        match (sway_outputs(shown, outputs.drop_last()), output.str("name"@)) {
            (Some(before), Some(name)) => if name == "__i3"@ {
                Some(before)
            } else {
                match output.array("nodes"@) {
                    Some(workspaces) => Some(
                        put(before, name, sway_workspaces(shown, workspaces, corner_of(output.member("rect"@)))),
                    ),
                    None => None,
                }
            },
            _ => None,
        }
    }
}

/// The scene that Sway tells.
pub open spec fn sway_whole(workspaces: Tree, tree: Tree) -> Option<Whole> {
    match (workspaces.as_array(), tree.array("nodes"@)) {
        (Some(shown), Some(nodes)) => match sway_outputs(shown, nodes) {
            Some(outputs) => Some(Whole { outputs, areas: Some(areas_of(Global::Sway, nodes)) }),
            None => None,
        },
        _ => None,
    }
}

fn sway_node(node: &Json, floating: bool, origin: Option<Point>, state: &mut OutputWindows)
    ensures
        final(state)@ == sway_with(old(state)@, node@, floating, origin),
    decreases node@, 0nat,
{
    match node.get_bool("visible") {
        Some(false) => {
            return;
        }
        _ => {}
    }
    let up = floating || has_text(node, "type", "floating_con") || has_text(node, "floating", "user_on") || has_text(
        node,
        "floating",
        "auto_on",
    );
    let has_process = match node.get_u64("pid") {
        Some(pid) => pid > 0,
        None => false,
    };
    if has_process || node.get_u64("window").is_some() {
        let covers = match node.get_u64("fullscreen_mode") {
            Some(mode) => mode != 0,
            None => false,
        };
        state.add(Some(up && !covers), local(rect(node.member("rect")), origin));
    }
    proof {
        items_are_smaller(node@, "nodes"@);
        items_are_smaller(node@, "floating_nodes"@);
    }
    match node.get_array("nodes") {
        Some(children) => sway_nodes(children, up, origin, state),
        None => {}
    }
    match node.get_array("floating_nodes") {
        Some(children) => sway_nodes(children, true, origin, state),
        None => {}
    }
}

fn sway_nodes(nodes: &Vec<Json>, floating: bool, origin: Option<Point>, state: &mut OutputWindows)
    ensures
        final(state)@ == sway_all(old(state)@, trees(nodes@), floating, origin),
    decreases trees(nodes@), 1nat,
{
    let ghost whole = trees(nodes@);
    let ghost start = state@;
    let mut i: usize = 0;
    proof {
        assert(whole.take(0) =~= Seq::empty());
    }
    while i < nodes.len()
        invariant
            i <= nodes@.len(),
            whole == trees(nodes@),
            state@ == sway_all(start, whole.take(i as int), floating, origin),
        decreases nodes@.len() - i,
    {
        proof {
            assert(whole.take(i + 1).drop_last() =~= whole.take(i as int));
            assert(whole.take(i + 1).last() == nodes@[i as int]@);
            assert(whole[i as int] == nodes@[i as int]@);
            assert(decreases_to!(whole => whole[i as int]));
        }
        sway_node(&nodes[i], floating, origin, state);
        i += 1;
    }
    proof {
        assert(whole.take(i as int) =~= whole);
    }
}

fn is_shown(workspaces: &Vec<Json>, name: &str) -> (yes: bool)
    ensures
        yes == sway_shows(trees(workspaces@), name@),
{
    let ghost whole = trees(workspaces@);
    let mut i: usize = 0;
    while i < workspaces.len()
        invariant
            i <= workspaces@.len(),
            whole == trees(workspaces@),
            forall|j: int|
                0 <= j < i ==> !((#[trigger] whole[j]).flag("visible"@) && whole[j].str("name"@) == Some(name@)),
        decreases workspaces@.len() - i,
    {
        assert(whole[i as int] == workspaces@[i as int]@);
        if workspaces[i].has_flag("visible") && has_text(&workspaces[i], "name", name) {
            return true;
        }
        i += 1;
    }
    false
}

fn read_sway_workspaces(shown: &Vec<Json>, workspaces: &Vec<Json>, origin: Option<Point>) -> (state: OutputWindows)
    ensures
        state@ == sway_workspaces(trees(shown@), trees(workspaces@), origin),
{
    let ghost whole = trees(workspaces@);
    let mut state = OutputWindows::default();
    let mut i: usize = 0;
    proof {
        assert(whole.take(0) =~= Seq::empty());
    }
    while i < workspaces.len()
        invariant
            i <= workspaces@.len(),
            whole == trees(workspaces@),
            state@ == sway_workspaces(trees(shown@), whole.take(i as int), origin),
        decreases workspaces@.len() - i,
    {
        let workspace = &workspaces[i];
        proof {
            assert(whole.take(i + 1).drop_last() =~= whole.take(i as int));
            assert(whole.take(i + 1).last() == workspace@);
        }
        match workspace.get_str("name") {
            Some(name) => {
                if is_shown(shown, name) {
                    sway_node(workspace, false, origin, &mut state);
                }
            }
            None => {}
        }
        i += 1;
    }
    proof {
        assert(whole.take(i as int) =~= whole);
    }
    state
}

proof fn lemma_sway_stays_none(shown: Seq<Tree>, outputs: Seq<Tree>, n: int)
    requires
        0 <= n <= outputs.len(),
        sway_outputs(shown, outputs.take(n)) is None,
    ensures
        sway_outputs(shown, outputs) is None,
    decreases outputs.len() - n,
{
    if n < outputs.len() {
        assert(outputs.take(n + 1).drop_last() =~= outputs.take(n));
        lemma_sway_stays_none(shown, outputs, n + 1);
    } else {
        assert(outputs.take(n) =~= outputs);
    }
}

/// The scene that Sway's workspaces and tree tell.
pub fn sway_scene(workspaces: &Json, tree: &Json) -> (scene: Option<Scene>)
    ensures
        whole_of(scene) == sway_whole(workspaces@, tree@),
{
    match (workspaces.as_array(), tree.get_array("nodes")) {
        (Some(shown), Some(nodes)) => {
            let ghost whole = trees(nodes@);
            let mut outputs: Vec<OutputScene> = Vec::new();
            let mut i: usize = 0;
            proof {
                assert(whole.take(0) =~= Seq::empty());
                assert(scenes(outputs@) =~= Seq::empty());
            }
            while i < nodes.len()
                invariant
                    i <= nodes@.len(),
                    whole == trees(nodes@),
                    workspaces@.as_array() == Some(trees(shown@)),
                    tree@.array("nodes"@) == Some(whole),
                    sway_outputs(trees(shown@), whole.take(i as int)) == Some(scenes(outputs@)),
                decreases nodes@.len() - i,
            {
                let output = &nodes[i];
                proof {
                    assert(whole.take(i + 1).drop_last() =~= whole.take(i as int));
                    assert(whole.take(i + 1).last() == output@);
                    if sway_outputs(trees(shown@), whole.take(i + 1)) is None {
                        lemma_sway_stays_none(trees(shown@), whole, i + 1);
                    }
                }
                let name = match output.get_str("name") {
                    Some(n) => n,
                    None => {
                        return None;
                    }
                };
                if !text::str_eq(name, "__i3") {
                    match output.get_array("nodes") {
                        Some(inner) => {
                            let state = read_sway_workspaces(shown, inner, corner(output.member("rect")));
                            put_windows(&mut outputs, name, state);
                        }
                        None => {
                            return None;
                        }
                    }
                }
                i += 1;
            }
            proof {
                assert(whole.take(i as int) =~= whole);
            }
            Some(Scene { outputs, areas: Some(read_areas(Global::Sway, nodes)) })
        }
        _ => None,
    }
}

} // verus!
