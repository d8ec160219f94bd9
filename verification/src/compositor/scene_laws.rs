//! What holds of the scenes that Mango, Niri and Hyprland tell, window by window.

use vstd::prelude::*;
use crate::compositor::scenes::{
    area_of, areas_of, corner_of, hyprland_clients, hyprland_outputs, hyprland_whole, in_overview, local_to,
    mango_clients, mango_output, mango_outputs, mango_whole, niri_outputs, niri_whole, niri_windows, niri_with, pair_of,
    rect_at, rect_of, shown_of, sway_outputs, sway_whole, sway_workspaces, Global,
};
use crate::compositor::projection::Area;
use crate::compositor::visibility::{
    decided_on, finite, positive, put, put_is_found, windows_on, HideDecision, Placement, SceneView, WindowsView,
};
use crate::json::Tree;

verus! {

/// Whether a double is no infinity and no NaN: its exponent is not the largest.
pub open spec fn ordinary(bits: u64) -> bool {
    (bits / 0x10_0000_0000_0000) % 0x800 != 0x7ff
}

/// Whether a double is an ordinary number above zero.
pub open spec fn above_zero(bits: u64) -> bool {
    ordinary(bits) && bits != 0 && bits / 0x8000_0000_0000_0000 == 0
}

/// Whether `p` is the rectangle that a value tells, to be moved by the corner that another value tells.
pub open spec fn tells_place(rect: Tree, corner: Tree, p: Placement) -> bool {
    &&& rect.bits("x"@) == Some(p.x) && ordinary(p.x)
    &&& rect.bits("y"@) == Some(p.y) && ordinary(p.y)
    &&& rect.bits("width"@) == Some(p.width) && above_zero(p.width)
    &&& rect.bits("height"@) == Some(p.height) && above_zero(p.height)
    &&& p.origin matches Some(o) && corner.bits("x"@) == Some(o.x) && corner.bits("y"@) == Some(o.y)
    &&& p.projection is None
}

pub(crate) proof fn lemma_place(rect: Tree, corner: Tree, p: Placement)
    ensures
        local_to(rect_of(rect), corner_of(corner)) == Some(p) <==> tells_place(rect, corner, p),
{
    match (rect.bits("x"@), rect.bits("y"@), rect.bits("width"@), rect.bits("height"@)) {
        (Some(x), Some(y), Some(w), Some(h)) => {
            lemma_numbers(x);
            lemma_numbers(y);
            lemma_numbers(w);
            lemma_numbers(h);
        },
        _ => {},
    }
}

pub(crate) proof fn lemma_numbers(bits: u64)
    ensures
        finite(bits) == ordinary(bits),
        positive(bits) == above_zero(bits),
{
    assert(bits % 0x8000_0000_0000_0000u64 < 0x7ff0_0000_0000_0000u64 <==> (bits / 0x10_0000_0000_0000u64) % 0x800u64
        != 0x7ffu64) by (bit_vector);
    assert((0 < bits && bits < 0x7ff0_0000_0000_0000u64) <==> ((bits / 0x10_0000_0000_0000u64) % 0x800u64 != 0x7ffu64
        && bits != 0 && bits / 0x8000_0000_0000_0000u64 == 0)) by (bit_vector);
}

pub(crate) proof fn lemma_with(state: WindowsView, filled: bool, place: Option<Placement>, p: Placement)
    ensures
        ({
            let after = state.with(Some(!filled), place);
            &&& after.tiled <==> state.tiled || filled
            &&& after.floating.contains(p) <==> state.floating.contains(p) || (!filled && place == Some(p))
            &&& after.incomplete <==> state.incomplete || (!filled && place is None)
        }),
{
    if !filled && place is Some {
        let after = state.floating.push(place->0);
        assert(after[state.floating.len() as int] == place->0);
        if state.floating.contains(p) {
            let i = choose|i: int| 0 <= i < state.floating.len() && state.floating[i] == p;
            assert(after[i] == p);
        }
    }
}

/// Whether `output` is the last one with its name.
pub open spec fn last_named(outputs: Seq<Tree>, o: int, name: Seq<char>) -> bool {
    0 <= o < outputs.len() && outputs[o].str("name"@) == Some(name) && forall|k: int|
        o < k < outputs.len() ==> (#[trigger] outputs[k]).str("name"@) != Some(name)
}

/// Whether one of several values is of some kind.
pub open spec fn any(items: Seq<Tree>, kind: spec_fn(Tree) -> bool) -> bool {
    exists|i: int| 0 <= i < items.len() && kind(#[trigger] items[i])
}

pub(crate) proof fn lemma_any_last(items: Seq<Tree>, kind: spec_fn(Tree) -> bool)
    requires
        items.len() > 0,
    ensures
        any(items, kind) <==> any(items.drop_last(), kind) || kind(items.last()),
{
    let head = items.drop_last();
    if any(items, kind) {
        let i = choose|i: int| 0 <= i < items.len() && kind(#[trigger] items[i]);
        if i < head.len() {
            assert(head[i] == items[i]);
        }
    }
    if any(head, kind) {
        let i = choose|i: int| 0 <= i < head.len() && kind(#[trigger] head[i]);
        assert(items[i] == head[i]);
    }
    assert(items[items.len() - 1] == items.last());
}

/// Whether a Mango client counts on the monitor with that name.
pub open spec fn mango_counts(client: Tree, name: Seq<char>) -> bool {
    &&& client.str("monitor"@) == Some(name)
    &&& client.bool("is_minimized"@) != Some(true)
    &&& client.bool("is_swallowedby"@) != Some(true)
}

/// Whether a Mango client covers its monitor.
pub open spec fn mango_covers(client: Tree) -> bool {
    client.bool("is_fullscreen"@) == Some(true) || client.bool("is_maximized"@) == Some(true)
}

/// Whether a Mango client is in the way of a bar wherever it stands.
pub open spec fn mango_fills(name: Seq<char>) -> spec_fn(Tree) -> bool {
    |c: Tree|
        mango_counts(c, name) && c.bool("is_visible"@) == Some(true) && (mango_covers(c) || c.bool("is_floating"@)
            == Some(false))
}

/// Whether a Mango client floats at a place.
pub open spec fn mango_floats(name: Seq<char>, monitor: Tree, p: Placement) -> spec_fn(Tree) -> bool {
    |c: Tree|
        mango_counts(c, name) && c.bool("is_visible"@) == Some(true) && !mango_covers(c) && c.bool("is_floating"@)
            == Some(true) && tells_place(c, monitor, p)
}

/// Whether a Mango client leaves open if it is in the way: it does not tell whether it is visible,
/// whether it floats, or where.
pub open spec fn mango_doubtful(name: Seq<char>, monitor: Tree) -> spec_fn(Tree) -> bool {
    |c: Tree|
        mango_counts(c, name) && (c.bool("is_visible"@) is None || (c.bool("is_visible"@) == Some(true)
            && !mango_covers(c) && (c.bool("is_floating"@) is None || (c.bool("is_floating"@) == Some(true)
            && forall|p: Placement| !tells_place(c, monitor, p)))))
}

proof fn lemma_mango(start: WindowsView, name: Seq<char>, monitor: Tree, clients: Seq<Tree>, p: Placement)
    ensures
        ({
            let after = mango_clients(start, name, corner_of(monitor), clients);
            &&& after.tiled <==> start.tiled || any(clients, mango_fills(name))
            &&& after.floating.contains(p) <==> start.floating.contains(p) || any(clients, mango_floats(name, monitor, p))
            &&& after.incomplete <==> start.incomplete || any(clients, mango_doubtful(name, monitor))
        }),
    decreases clients.len(),
{
    if clients.len() > 0 {
        let c = clients.last();
        lemma_mango(start, name, monitor, clients.drop_last(), p);
        lemma_any_last(clients, mango_fills(name));
        lemma_any_last(clients, mango_floats(name, monitor, p));
        lemma_any_last(clients, mango_doubtful(name, monitor));
        let before = mango_clients(start, name, corner_of(monitor), clients.drop_last());
        let place = local_to(rect_of(c), corner_of(monitor));
        lemma_with(before, mango_covers(c) || c.bool("is_floating"@) == Some(false), place, p);
        lemma_place(c, monitor, p);
        if place is Some {
            lemma_place(c, monitor, place->0);
        }
        assert forall|q: Placement| place is None implies !tells_place(c, monitor, q) by {
            lemma_place(c, monitor, q);
        }
    }
}

proof fn lemma_mango_outputs(monitors: Seq<Tree>, clients: Seq<Tree>, o: int, name: Seq<char>)
    requires
        mango_outputs(monitors, clients) is Some,
        last_named(monitors, o, name),
    ensures
        windows_on(mango_outputs(monitors, clients)->0, name) == Some(mango_output(monitors[o], name, clients)),
    decreases monitors.len(),
{
    let head = monitors.drop_last();
    let monitor = monitors.last();
    let n = monitor.str("name"@)->0;
    put_is_found(mango_outputs(head, clients)->0, n, mango_output(monitor, n, clients), name);
    if o < head.len() {
        assert(head[o] == monitors[o]);
        assert forall|k: int| o < k < head.len() implies (#[trigger] head[k]).str("name"@) != Some(name) by {
            assert(head[k] == monitors[k]);
        }
        lemma_mango_outputs(head, clients, o, name);
        assert(monitors[monitors.len() - 1].str("name"@) != Some(name));
    }
}

/// What the scene of a Mango monitor holds: it is tiled exactly if a visible client on it does not
/// float or covers it, it lists the clients that float, and it is incomplete in the overview or where
/// a client leaves something open. With a tiled window its bar hides.
pub proof fn mango_scenes_tell_the_windows(
    monitors: Tree,
    clients: Tree,
    o: int,
    name: Seq<char>,
    p: Placement,
    meets: Seq<bool>,
    bar_is_empty: bool,
)
    requires
        mango_whole(monitors, clients) is Some,
        last_named(monitors.array("monitors"@)->0, o, name),
    ensures
        ({
            let outputs = mango_whole(monitors, clients)->0.outputs;
            let monitor = monitors.array("monitors"@)->0[o];
            let all = clients.array("clients"@)->0;
            windows_on(outputs, name) matches Some(windows) && {
                &&& windows.tiled <==> any(all, mango_fills(name))
                &&& windows.floating.contains(p) <==> any(all, mango_floats(name, monitor, p))
                &&& windows.incomplete <==> any(all, mango_doubtful(name, monitor)) || (monitor.array(
                    "active_tags"@,
                ) matches Some(tags) && exists|t: int| 0 <= t < tags.len() && (#[trigger] tags[t]).as_u64() == Some(0u64))
                &&& any(all, mango_fills(name)) ==> decided_on(outputs, name, meets, bar_is_empty) == HideDecision::Hide
            }
        }),
{
    let all = monitors.array("monitors"@)->0;
    lemma_mango_outputs(all, clients.array("clients"@)->0, o, name);
    let monitor = all[o];
    lemma_mango(
        WindowsView { incomplete: in_overview(monitor), ..WindowsView::empty() },
        name,
        monitor,
        clients.array("clients"@)->0,
        p,
    );
}

/// Whether a pair of numbers stands in an array.
pub open spec fn tells_pair(t: Tree, a: u64, b: u64) -> bool {
    t.as_array() matches Some(items) && items.len() >= 2 && items[0].as_bits() == Some(a) && items[1].as_bits() == Some(b)
}

/// Whether `p` is the rectangle with the corner and the size that two values tell.
pub open spec fn tells_corner_and_size(at: Tree, size: Tree, p: Placement) -> bool {
    &&& tells_pair(at, p.x, p.y) && ordinary(p.x) && ordinary(p.y)
    &&& tells_pair(size, p.width, p.height) && above_zero(p.width) && above_zero(p.height)
    &&& p.projection is None
}

proof fn lemma_rect_at(at: Tree, size: Tree, p: Placement)
    ensures
        rect_at(pair_of(at), pair_of(size)) == Some(p) <==> tells_corner_and_size(at, size, p) && p.origin is None,
{
    match (pair_of(at), pair_of(size)) {
        (Some(a), Some(s)) => {
            lemma_numbers(a.x);
            lemma_numbers(a.y);
            lemma_numbers(s.x);
            lemma_numbers(s.y);
        },
        _ => {},
    }
}

/// Whether a Niri window on a workspace is tiled.
pub open spec fn niri_fills(id: u64) -> spec_fn(Tree) -> bool {
    |w: Tree| w.u64("workspace_id"@) == Some(id) && w.bool("is_floating"@) == Some(false)
}

/// Whether a Niri window tells that it stands at a place of its workspace.
pub open spec fn niri_stands_at(w: Tree, p: Placement) -> bool {
    let layout = w.member("layout"@);
    tells_corner_and_size(layout.member("tile_pos_in_workspace_view"@), layout.member("tile_size"@), p) && p.origin is None
}

/// Whether a Niri window floats at a place of a workspace.
pub open spec fn niri_floats(id: u64, p: Placement) -> spec_fn(Tree) -> bool {
    |w: Tree|
        w.u64("workspace_id"@) == Some(id) && w.bool("is_floating"@) == Some(true) && niri_stands_at(w, p)
}

/// Whether a Niri window on a workspace does not tell whether it floats, or where.
pub open spec fn niri_doubtful(id: u64) -> spec_fn(Tree) -> bool {
    |w: Tree|
        w.u64("workspace_id"@) == Some(id) && (w.bool("is_floating"@) is None || (w.bool("is_floating"@) == Some(true)
            && forall|p: Placement| !niri_stands_at(w, p)))
}

proof fn lemma_niri(id: u64, windows: Seq<Tree>, p: Placement)
    ensures
        ({
            let after = niri_windows(id, windows);
            &&& after.tiled <==> any(windows, niri_fills(id))
            &&& after.floating.contains(p) <==> any(windows, niri_floats(id, p))
            &&& after.incomplete <==> any(windows, niri_doubtful(id))
        }),
    decreases windows.len(),
{
    if windows.len() > 0 {
        let w = windows.last();
        lemma_niri(id, windows.drop_last(), p);
        lemma_any_last(windows, niri_fills(id));
        lemma_any_last(windows, niri_floats(id, p));
        lemma_any_last(windows, niri_doubtful(id));
        let before = niri_windows(id, windows.drop_last());
        let layout = w.member("layout"@);
        let at = layout.member("tile_pos_in_workspace_view"@);
        let size = layout.member("tile_size"@);
        let place = rect_at(pair_of(at), pair_of(size));
        lemma_with(before, w.bool("is_floating"@) == Some(false), place, p);
        lemma_rect_at(at, size, p);
        if place is Some {
            lemma_rect_at(at, size, place->0);
        }
        assert forall|q: Placement| place is None implies !niri_stands_at(w, q) by {
            lemma_rect_at(at, size, q);
        }
        if place is Some {
            assert(niri_stands_at(w, place->0));
        }
        assert(niri_windows(id, windows) == niri_with(before, id, w));
    }
}

/// Whether a Niri workspace is the one that an output shows.
pub open spec fn niri_shows(workspace: Tree, name: Seq<char>) -> bool {
    workspace.bool("is_active"@) == Some(true) && workspace.str("output"@) == Some(name)
}

proof fn lemma_niri_outputs(workspaces: Seq<Tree>, windows: Seq<Tree>, k: int, name: Seq<char>)
    requires
        niri_outputs(workspaces, windows) is Some,
        0 <= k < workspaces.len(),
        niri_shows(workspaces[k], name),
        forall|j: int| k < j < workspaces.len() ==> !niri_shows(#[trigger] workspaces[j], name),
    ensures
        workspaces[k].u64("id"@) is Some,
        windows_on(niri_outputs(workspaces, windows)->0, name) == Some(
            niri_windows(workspaces[k].u64("id"@)->0, windows),
        ),
    decreases workspaces.len(),
{
    let head = workspaces.drop_last();
    let workspace = workspaces.last();
    let before = niri_outputs(head, windows)->0;
    if workspace.bool("is_active"@) == Some(true) && workspace.str("output"@) is Some {
        put_is_found(
            before,
            workspace.str("output"@)->0,
            niri_windows(workspace.u64("id"@)->0, windows),
            name,
        );
    }
    if k < head.len() {
        assert(head[k] == workspaces[k]);
        assert forall|j: int| k < j < head.len() implies !niri_shows(#[trigger] head[j], name) by {
            assert(head[j] == workspaces[j]);
        }
        lemma_niri_outputs(head, windows, k, name);
        assert(!niri_shows(workspaces[workspaces.len() - 1], name));
    }
}

/// What the scene of a Niri output holds: it is tiled exactly if its active workspace holds a window
/// that does not float, it lists the windows that float there, and it is incomplete where one does not
/// tell whether it floats, or where. With a tiled window its bar hides.
pub proof fn niri_scenes_tell_the_windows(
    workspaces: Tree,
    windows: Tree,
    k: int,
    name: Seq<char>,
    p: Placement,
    meets: Seq<bool>,
    bar_is_empty: bool,
)
    requires
        niri_whole(workspaces, windows) is Some,
        0 <= k < workspaces.as_array()->0.len(),
        niri_shows(workspaces.as_array()->0[k], name),
        forall|j: int|
            k < j < workspaces.as_array()->0.len() ==> !niri_shows(#[trigger] workspaces.as_array()->0[j], name),
    ensures
        ({
            let outputs = niri_whole(workspaces, windows)->0.outputs;
            let all = windows.as_array()->0;
            workspaces.as_array()->0[k].u64("id"@) matches Some(id) && windows_on(outputs, name) matches Some(shown) && {
                &&& shown.tiled <==> any(all, niri_fills(id))
                &&& shown.floating.contains(p) <==> any(all, niri_floats(id, p))
                &&& shown.incomplete <==> any(all, niri_doubtful(id))
                &&& any(all, niri_fills(id)) ==> decided_on(outputs, name, meets, bar_is_empty) == HideDecision::Hide
            }
        }),
{
    let all = workspaces.as_array()->0;
    lemma_niri_outputs(all, windows.as_array()->0, k, name);
    lemma_niri(all[k].u64("id"@)->0, windows.as_array()->0, p);
}

/// Whether a Hyprland client is on a monitor and not unmapped or hidden.
pub open spec fn hyprland_counts(client: Tree, monitor: Tree) -> bool {
    &&& monitor.i64("id"@) is Some && client.i64("monitor"@) == monitor.i64("id"@)
    &&& client.bool("mapped"@) != Some(false)
    &&& client.bool("hidden"@) != Some(true)
}

/// Whether a Hyprland client is on screen: it is pinned, on the active workspace of its monitor, or on
/// the special one that is open there.
pub open spec fn hyprland_on_screen(client: Tree, monitor: Tree) -> bool {
    let ws = client.member("workspace"@).i64("id"@);
    let special = monitor.member("specialWorkspace"@).i64("id"@);
    ||| client.bool("pinned"@) == Some(true)
    ||| (ws is Some && ws == monitor.member("activeWorkspace"@).i64("id"@))
    ||| (ws is Some && ws == special && special != Some(0i64))
}

/// Whether a Hyprland client is fullscreen: some versions tell a mode, others a flag.
pub open spec fn hyprland_covers(client: Tree) -> bool {
    (client.u64("fullscreen"@) matches Some(mode) && mode != 0) || client.bool("fullscreen"@) == Some(true)
}

/// Whether a Hyprland client tells that it stands at a place of its monitor.
pub open spec fn hyprland_stands_at(client: Tree, monitor: Tree, p: Placement) -> bool {
    &&& tells_corner_and_size(client.member("at"@), client.member("size"@), p)
    &&& p.origin matches Some(o) && monitor.bits("x"@) == Some(o.x) && monitor.bits("y"@) == Some(o.y)
}

/// Whether a Hyprland client is in the way of a bar wherever it stands.
pub open spec fn hyprland_fills(monitor: Tree) -> spec_fn(Tree) -> bool {
    |c: Tree|
        hyprland_counts(c, monitor) && hyprland_on_screen(c, monitor) && (hyprland_covers(c) || c.bool("floating"@)
            == Some(false))
}

/// Whether a Hyprland client floats at a place.
pub open spec fn hyprland_floats(monitor: Tree, p: Placement) -> spec_fn(Tree) -> bool {
    |c: Tree|
        hyprland_counts(c, monitor) && hyprland_on_screen(c, monitor) && !hyprland_covers(c) && c.bool("floating"@)
            == Some(true) && hyprland_stands_at(c, monitor, p)
}

/// Whether a Hyprland client leaves open if it is in the way: it does not tell its workspace, whether
/// it floats, or where.
pub open spec fn hyprland_doubtful(monitor: Tree) -> spec_fn(Tree) -> bool {
    |c: Tree|
        hyprland_counts(c, monitor) && if hyprland_on_screen(c, monitor) {
            !hyprland_covers(c) && (c.bool("floating"@) is None || (c.bool("floating"@) == Some(true) && forall|
                p: Placement,
            | !hyprland_stands_at(c, monitor, p)))
        } else {
            c.member("workspace"@).i64("id"@) is None
        }
}

proof fn lemma_hyprland_place(c: Tree, monitor: Tree, p: Placement)
    ensures
        local_to(rect_at(pair_of(c.member("at"@)), pair_of(c.member("size"@))), corner_of(monitor)) == Some(p)
            <==> hyprland_stands_at(c, monitor, p),
{
    let at = c.member("at"@);
    let size = c.member("size"@);
    let bare = Placement { origin: None, ..p };
    lemma_rect_at(at, size, bare);
    if rect_at(pair_of(at), pair_of(size)) is Some {
        lemma_rect_at(at, size, rect_at(pair_of(at), pair_of(size))->0);
    }
}

proof fn lemma_hyprland(monitor: Tree, clients: Seq<Tree>, p: Placement)
    requires
        shown_of(monitor) is Some,
    ensures
        ({
            let after = hyprland_clients(shown_of(monitor)->0, clients);
            &&& after.tiled <==> any(clients, hyprland_fills(monitor))
            &&& after.floating.contains(p) <==> any(clients, hyprland_floats(monitor, p))
            &&& after.incomplete <==> any(clients, hyprland_doubtful(monitor))
        }),
    decreases clients.len(),
{
    if clients.len() > 0 {
        let c = clients.last();
        let shown = shown_of(monitor)->0;
        lemma_hyprland(monitor, clients.drop_last(), p);
        lemma_any_last(clients, hyprland_fills(monitor));
        lemma_any_last(clients, hyprland_floats(monitor, p));
        lemma_any_last(clients, hyprland_doubtful(monitor));
        let before = hyprland_clients(shown, clients.drop_last());
        let place = local_to(rect_at(pair_of(c.member("at"@)), pair_of(c.member("size"@))), corner_of(monitor));
        lemma_with(before, hyprland_covers(c) || c.bool("floating"@) == Some(false), place, p);
        lemma_hyprland_place(c, monitor, p);
        if place is Some {
            lemma_hyprland_place(c, monitor, place->0);
        }
        assert forall|q: Placement| place is None implies !hyprland_stands_at(c, monitor, q) by {
            lemma_hyprland_place(c, monitor, q);
        }
    }
}

proof fn lemma_hyprland_outputs(monitors: Seq<Tree>, clients: Seq<Tree>, o: int, name: Seq<char>)
    requires
        hyprland_outputs(monitors, clients) is Some,
        last_named(monitors, o, name),
    ensures
        shown_of(monitors[o]) is Some,
        windows_on(hyprland_outputs(monitors, clients)->0, name) == Some(
            hyprland_clients(shown_of(monitors[o])->0, clients),
        ),
    decreases monitors.len(),
{
    let head = monitors.drop_last();
    let monitor = monitors.last();
    put_is_found(
        hyprland_outputs(head, clients)->0,
        monitor.str("name"@)->0,
        hyprland_clients(shown_of(monitor)->0, clients),
        name,
    );
    if o < head.len() {
        assert(head[o] == monitors[o]);
        assert forall|k: int| o < k < head.len() implies (#[trigger] head[k]).str("name"@) != Some(name) by {
            assert(head[k] == monitors[k]);
        }
        lemma_hyprland_outputs(head, clients, o, name);
        assert(monitors[monitors.len() - 1].str("name"@) != Some(name));
    }
}

/// What the scene of a Hyprland monitor holds: it is tiled exactly if a client that it shows does not
/// float or is fullscreen, it lists the clients that float, and it is incomplete where one leaves
/// something open. With a tiled window its bar hides.
pub proof fn hyprland_scenes_tell_the_windows(
    monitors: Tree,
    clients: Tree,
    o: int,
    name: Seq<char>,
    p: Placement,
    meets: Seq<bool>,
    bar_is_empty: bool,
)
    requires
        hyprland_whole(monitors, clients) is Some,
        last_named(monitors.as_array()->0, o, name),
    ensures
        ({
            let outputs = hyprland_whole(monitors, clients)->0.outputs;
            let monitor = monitors.as_array()->0[o];
            let all = clients.as_array()->0;
            windows_on(outputs, name) matches Some(windows) && {
                &&& windows.tiled <==> any(all, hyprland_fills(monitor))
                &&& windows.floating.contains(p) <==> any(all, hyprland_floats(monitor, p))
                &&& windows.incomplete <==> any(all, hyprland_doubtful(monitor))
                &&& any(all, hyprland_fills(monitor)) ==> decided_on(outputs, name, meets, bar_is_empty)
                    == HideDecision::Hide
            }
        }),
{
    let all = monitors.as_array()->0;
    lemma_hyprland_outputs(all, clients.as_array()->0, o, name);
    lemma_hyprland(all[o], clients.as_array()->0, p);
}

proof fn lemma_mango_needs(monitors: Seq<Tree>, clients: Seq<Tree>)
    ensures
        mango_outputs(monitors, clients) is Some <==> forall|o: int|
            0 <= o < monitors.len() ==> (#[trigger] monitors[o]).str("name"@) is Some,
    decreases monitors.len(),
{
    if monitors.len() > 0 {
        let head = monitors.drop_last();
        lemma_mango_needs(head, clients);
        assert(monitors[monitors.len() - 1] == monitors.last());
        if mango_outputs(head, clients) is Some {
            assert forall|o: int| 0 <= o < monitors.len() - 1 implies (#[trigger] monitors[o]).str("name"@) is Some by {
                assert(head[o] == monitors[o]);
            }
        } else {
            let o = choose|o: int| 0 <= o < head.len() && !((#[trigger] head[o]).str("name"@) is Some);
            assert(monitors[o] == head[o]);
        }
    }
}

/// A scene can be told exactly if Mango lists monitors and clients, and every monitor has a name.
pub proof fn mango_scenes_need_names(monitors: Tree, clients: Tree)
    ensures
        mango_whole(monitors, clients) is Some <==> {
            &&& clients.array("clients"@) is Some
            &&& monitors.array("monitors"@) matches Some(all) && forall|o: int|
                0 <= o < all.len() ==> (#[trigger] all[o]).str("name"@) is Some
        },
{
    if monitors.array("monitors"@) is Some && clients.array("clients"@) is Some {
        lemma_mango_needs(monitors.array("monitors"@)->0, clients.array("clients"@)->0);
    }
}

proof fn lemma_niri_needs(workspaces: Seq<Tree>, windows: Seq<Tree>)
    ensures
        niri_outputs(workspaces, windows) is Some <==> forall|o: int|
            0 <= o < workspaces.len() ==> ((#[trigger] workspaces[o]).bool("is_active"@) != Some(true) || workspaces[o].str("output"@) is None || workspaces[o].u64("id"@) is Some),
    decreases workspaces.len(),
{
    if workspaces.len() > 0 {
        let head = workspaces.drop_last();
        lemma_niri_needs(head, windows);
        assert(workspaces[workspaces.len() - 1] == workspaces.last());
        if niri_outputs(head, windows) is Some {
            assert forall|o: int| 0 <= o < workspaces.len() - 1 implies ((#[trigger] workspaces[o]).bool("is_active"@) != Some(true) || workspaces[o].str("output"@) is None || workspaces[o].u64("id"@) is Some) by {
                assert(head[o] == workspaces[o]);
            }
        } else {
            let o = choose|o: int| 0 <= o < head.len() && !(((#[trigger] head[o]).bool("is_active"@) != Some(true) || head[o].str("output"@) is None || head[o].u64("id"@) is Some));
            assert(workspaces[o] == head[o]);
        }
    }
}

/// A scene can be told exactly if Niri lists workspaces and windows, and every active workspace that
/// is on an output has a number.
pub proof fn niri_scenes_need_numbers(workspaces: Tree, windows: Tree)
    ensures
        niri_whole(workspaces, windows) is Some <==> {
            &&& windows.as_array() is Some
            &&& workspaces.as_array() matches Some(all) && forall|k: int|
                0 <= k < all.len() ==> ((#[trigger] all[k]).bool("is_active"@) != Some(true) || all[k].str(
                    "output"@,
                ) is None || all[k].u64("id"@) is Some)
        },
        niri_whole(workspaces, windows) matches Some(whole) ==> whole.areas is None,
{
    if workspaces.as_array() is Some && windows.as_array() is Some {
        lemma_niri_needs(workspaces.as_array()->0, windows.as_array()->0);
    }
}

proof fn lemma_hyprland_needs(monitors: Seq<Tree>, clients: Seq<Tree>)
    ensures
        hyprland_outputs(monitors, clients) is Some <==> forall|o: int|
            0 <= o < monitors.len() ==> ((#[trigger] monitors[o]).str("name"@) is Some && monitors[o].i64("id"@) is Some && monitors[o].member("activeWorkspace"@).i64("id"@) is Some),
    decreases monitors.len(),
{
    if monitors.len() > 0 {
        let head = monitors.drop_last();
        lemma_hyprland_needs(head, clients);
        assert(monitors[monitors.len() - 1] == monitors.last());
        if hyprland_outputs(head, clients) is Some {
            assert forall|o: int| 0 <= o < monitors.len() - 1 implies ((#[trigger] monitors[o]).str("name"@) is Some && monitors[o].i64("id"@) is Some && monitors[o].member("activeWorkspace"@).i64("id"@) is Some) by {
                assert(head[o] == monitors[o]);
            }
        } else {
            let o = choose|o: int| 0 <= o < head.len() && !(((#[trigger] head[o]).str("name"@) is Some && head[o].i64("id"@) is Some && head[o].member("activeWorkspace"@).i64("id"@) is Some));
            assert(monitors[o] == head[o]);
        }
    }
}

/// A scene can be told exactly if Hyprland lists monitors and clients, and every monitor has a name, a
/// number and an active workspace.
pub proof fn hyprland_scenes_need_names(monitors: Tree, clients: Tree)
    ensures
        hyprland_whole(monitors, clients) is Some <==> {
            &&& clients.as_array() is Some
            &&& monitors.as_array() matches Some(all) && forall|o: int|
                0 <= o < all.len() ==> ((#[trigger] all[o]).str("name"@) is Some && all[o].i64("id"@) is Some
                    && all[o].member("activeWorkspace"@).i64("id"@) is Some)
        },
{
    if monitors.as_array() is Some && clients.as_array() is Some {
        lemma_hyprland_needs(monitors.as_array()->0, clients.as_array()->0);
    }
}

/// Whether a value tells an area that need not be scaled.
pub open spec fn tells_area(t: Tree, a: Area) -> bool {
    &&& t.bits("x"@) == Some(a.x) && ordinary(a.x)
    &&& t.bits("y"@) == Some(a.y) && ordinary(a.y)
    &&& t.bits("width"@) == Some(a.width) && above_zero(a.width)
    &&& t.bits("height"@) == Some(a.height) && above_zero(a.height)
    &&& a.scale is None
}

/// Whether a Hyprland monitor tells an area: on its side, it is as wide as its picture is high.
pub open spec fn tells_scaled_area(t: Tree, a: Area) -> bool {
    &&& t.bits("x"@) == Some(a.x) && ordinary(a.x)
    &&& t.bits("y"@) == Some(a.y) && ordinary(a.y)
    &&& t.u64("transform"@) matches Some(turn) && (if turn % 2 == 0 {
        t.bits("width"@) == Some(a.width) && t.bits("height"@) == Some(a.height)
    } else {
        t.bits("height"@) == Some(a.width) && t.bits("width"@) == Some(a.height)
    })
    &&& above_zero(a.width) && above_zero(a.height)
    &&& a.scale matches Some(scale) && t.bits("scale"@) == Some(scale) && above_zero(scale)
}

/// Whether an output of a compositor tells an area.
pub open spec fn tells_output_area(kind: Global, output: Tree, a: Area) -> bool {
    match kind {
        Global::Mango => tells_area(output, a),
        Global::Sway => tells_area(output.member("rect"@), a),
        Global::Hyprland => tells_scaled_area(output, a),
    }
}

proof fn lemma_area(kind: Global, output: Tree, a: Area)
    ensures
        area_of(kind, output) == Some(a) <==> tells_output_area(kind, output, a),
{
    let t = if kind is Sway { output.member("rect"@) } else { output };
    if t.bits("x"@) is Some {
        lemma_numbers(t.bits("x"@)->0);
    }
    if t.bits("y"@) is Some {
        lemma_numbers(t.bits("y"@)->0);
    }
    if t.bits("width"@) is Some {
        lemma_numbers(t.bits("width"@)->0);
    }
    if t.bits("height"@) is Some {
        lemma_numbers(t.bits("height"@)->0);
    }
    if t.bits("scale"@) is Some {
        lemma_numbers(t.bits("scale"@)->0);
    }
}

/// The areas of a scene are those that outputs with a name tell.
pub proof fn areas_are_those_of_the_outputs(kind: Global, outputs: Seq<Tree>, name: Seq<char>, a: Area)
    ensures
        areas_of(kind, outputs).contains((name, a)) <==> exists|o: int|
            0 <= o < outputs.len() && (#[trigger] outputs[o]).str("name"@) == Some(name) && tells_output_area(
                kind,
                outputs[o],
                a,
            ),
    decreases outputs.len(),
{
    if outputs.len() > 0 {
        let head = outputs.drop_last();
        let output = outputs.last();
        let before = areas_of(kind, head);
        let after = areas_of(kind, outputs);
        areas_are_those_of_the_outputs(kind, head, name, a);
        lemma_area(kind, output, a);
        assert(outputs[outputs.len() - 1] == output);
        if before.contains((name, a)) {
            let o = choose|o: int|
                0 <= o < head.len() && (#[trigger] head[o]).str("name"@) == Some(name) && tells_output_area(
                    kind,
                    head[o],
                    a,
                );
            assert(outputs[o] == head[o]);
            let k = choose|k: int| 0 <= k < before.len() && before[k] == (name, a);
            assert(after[k] == (name, a));
        }
        if output.str("name"@) == Some(name) && area_of(kind, output) == Some(a) {
            assert(after[before.len() as int] == (name, a));
        }
        if exists|o: int|
            0 <= o < outputs.len() && (#[trigger] outputs[o]).str("name"@) == Some(name) && tells_output_area(
                kind,
                outputs[o],
                a,
            ) {
            let o = choose|o: int|
                0 <= o < outputs.len() && (#[trigger] outputs[o]).str("name"@) == Some(name) && tells_output_area(
                    kind,
                    outputs[o],
                    a,
                );
            if o < head.len() {
                assert(head[o] == outputs[o]);
            }
        }
        if after.contains((name, a)) && !before.contains((name, a)) {
            let k = choose|k: int| 0 <= k < after.len() && after[k] == (name, a);
            if k < before.len() {
                assert(before[k] == (name, a));
            }
        }
    }
}

/// A scene comes with the areas that its own outputs tell.
pub proof fn scenes_come_with_their_areas(first: Tree, second: Tree)
    ensures
        mango_whole(first, second) matches Some(whole) ==> whole.areas == Some(
            areas_of(Global::Mango, first.array("monitors"@)->0),
        ),
        hyprland_whole(first, second) matches Some(whole) ==> whole.areas == Some(
            areas_of(Global::Hyprland, first.as_array()->0),
        ),
        sway_whole(first, second) matches Some(whole) ==> whole.areas == Some(
            areas_of(Global::Sway, second.array("nodes"@)->0),
        ),
{
}

proof fn lemma_put_absent(scene: Seq<SceneView>, name: Seq<char>, windows: WindowsView, other: Seq<char>)
    ensures
        windows_on(put(scene, name, windows), other) is Some <==> windows_on(scene, other) is Some || other == name,
{
    put_is_found(scene, name, windows, other);
}

/// A scene has exactly the outputs that are listed. Those of Niri are those that show a workspace, and
/// Sway's own output is left out.
pub proof fn scenes_hold_the_listed_outputs(outputs: Seq<Tree>, others: Seq<Tree>, name: Seq<char>)
    ensures
        mango_outputs(outputs, others) matches Some(scene) ==> (windows_on(scene, name) is Some <==> any(
            outputs,
            |t: Tree| t.str("name"@) == Some(name),
        )),
        hyprland_outputs(outputs, others) matches Some(scene) ==> (windows_on(scene, name) is Some <==> any(
            outputs,
            |t: Tree| t.str("name"@) == Some(name),
        )),
        niri_outputs(outputs, others) matches Some(scene) ==> (windows_on(scene, name) is Some <==> any(
            outputs,
            |t: Tree| niri_shows(t, name),
        )),
        sway_outputs(others, outputs) matches Some(scene) ==> (windows_on(scene, name) is Some <==> name != "__i3"@ && any(
            outputs,
            |t: Tree| t.str("name"@) == Some(name),
        )),
    decreases outputs.len(),
{
    let named = |t: Tree| t.str("name"@) == Some(name);
    let shown = |t: Tree| niri_shows(t, name);
    if outputs.len() > 0 {
        let head = outputs.drop_last();
        let last = outputs.last();
        scenes_hold_the_listed_outputs(head, others, name);
        lemma_any_last(outputs, named);
        lemma_any_last(outputs, shown);
        if last.str("name"@) is Some {
            let n = last.str("name"@)->0;
            if mango_outputs(head, others) is Some {
                lemma_put_absent(mango_outputs(head, others)->0, n, mango_output(last, n, others), name);
            }
            if hyprland_outputs(head, others) is Some && shown_of(last) is Some {
                lemma_put_absent(
                    hyprland_outputs(head, others)->0,
                    n,
                    hyprland_clients(shown_of(last)->0, others),
                    name,
                );
            }
            if sway_outputs(others, head) is Some && last.array("nodes"@) is Some {
                lemma_put_absent(
                    sway_outputs(others, head)->0,
                    n,
                    sway_workspaces(others, last.array("nodes"@)->0, corner_of(last.member("rect"@))),
                    name,
                );
            }
        }
        if niri_outputs(head, others) is Some && last.str("output"@) is Some && last.u64("id"@) is Some {
            lemma_put_absent(
                niri_outputs(head, others)->0,
                last.str("output"@)->0,
                niri_windows(last.u64("id"@)->0, others),
                name,
            );
        }
    }
}

} // verus!
