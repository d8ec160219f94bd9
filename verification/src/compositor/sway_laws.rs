//! What holds of the scenes that Sway tells, window by window.

use vstd::prelude::*;
use crate::compositor::scene_laws::{last_named, lemma_place, lemma_with, tells_place};
use crate::compositor::scenes::{
    corner_of, local_to, rect_of, sway_all, sway_outputs, sway_shows, sway_whole, sway_with, sway_workspaces,
};
use crate::compositor::visibility::{
    decided_on, put_is_found, windows_on, HideDecision, Placement, WindowsView,
};
use crate::json::{items_are_smaller, Tree};

verus! {

/// Whether a way down a Sway tree leads from a node to the window `w`, past no node that is hidden. A
/// step goes to a child in the layout, or to one that floats above it. `raised` tells whether the
/// window or something on the way floats; `above` whether something above the node does.
pub open spec fn leads_to(node: Tree, above: bool, way: Seq<(bool, int)>, w: Tree, raised: bool) -> bool
    decreases way.len(),
{
    let here = above || node.str("type"@) == Some("floating_con"@) || node.str("floating"@) == Some("user_on"@)
        || node.str("floating"@) == Some("auto_on"@);
    &&& node.bool("visible"@) != Some(false)
    &&& if way.len() == 0 {
        &&& w == node
        &&& raised == here
        &&& (node.u64("pid"@) matches Some(pid) && pid > 0) || node.u64("window"@) is Some
    } else {
        node.array(if way[0].0 { "floating_nodes"@ } else { "nodes"@ }) matches Some(children)
            && 0 <= way[0].1 < children.len() && leads_to(
            children[way[0].1],
            here || way[0].0,
            way.drop_first(),
            w,
            raised,
        )
    }
}

/// Whether a window is in the way of a bar wherever it stands: it does not float, or is fullscreen.
pub open spec fn fills(w: Tree, raised: bool) -> bool {
    !raised || (w.u64("fullscreen_mode"@) matches Some(mode) && mode != 0)
}

/// Whether a node holds a window of some kind.
pub open spec fn holds(node: Tree, above: bool, kind: spec_fn(Tree, bool) -> bool) -> bool {
    exists|way: Seq<(bool, int)>, w: Tree, raised: bool| #[trigger]
        leads_to(node, above, way, w, raised) && kind(w, raised)
}

/// Whether one of several nodes holds a window of some kind.
pub open spec fn any_holds(nodes: Seq<Tree>, above: bool, kind: spec_fn(Tree, bool) -> bool) -> bool {
    exists|i: int| 0 <= i < nodes.len() && holds(#[trigger] nodes[i], above, kind)
}

spec fn any_below(node: Tree, key: Seq<char>, above: bool, kind: spec_fn(Tree, bool) -> bool) -> bool {
    node.array(key) matches Some(children) && any_holds(children, above, kind)
}

spec fn raised_here(node: Tree, above: bool) -> bool {
    above || node.str("type"@) == Some("floating_con"@) || node.str("floating"@) == Some("user_on"@) || node.str(
        "floating"@,
    ) == Some("auto_on"@)
}

spec fn window_here(node: Tree) -> bool {
    (node.u64("pid"@) matches Some(pid) && pid > 0) || node.u64("window"@) is Some
}

proof fn lemma_holds(node: Tree, above: bool, kind: spec_fn(Tree, bool) -> bool)
    ensures
        node.bool("visible"@) == Some(false) ==> !holds(node, above, kind),
        node.bool("visible"@) != Some(false) ==> (holds(node, above, kind) <==> (window_here(node) && kind(
            node,
            raised_here(node, above),
        )) || any_below(node, "nodes"@, raised_here(node, above), kind) || any_below(
            node,
            "floating_nodes"@,
            true,
            kind,
        )),
{
    let here = raised_here(node, above);
    if node.bool("visible"@) != Some(false) {
        if holds(node, above, kind) {
            let (way, w, raised) = choose|way: Seq<(bool, int)>, w: Tree, raised: bool| #[trigger]
                leads_to(node, above, way, w, raised) && kind(w, raised);
            if way.len() > 0 {
                let key = if way[0].0 { "floating_nodes"@ } else { "nodes"@ };
                let children = node.array(key)->0;
                assert(leads_to(children[way[0].1], here || way[0].0, way.drop_first(), w, raised));
                assert(holds(children[way[0].1], here || way[0].0, kind));
                assert(any_holds(children, here || way[0].0, kind));
            }
        }
        if window_here(node) && kind(node, here) {
            assert(leads_to(node, above, Seq::empty(), node, here));
        }
        if any_below(node, "nodes"@, here, kind) {
            lemma_up(node, above, false, kind);
        }
        if any_below(node, "floating_nodes"@, true, kind) {
            lemma_up(node, above, true, kind);
        }
    }
}

proof fn lemma_up(node: Tree, above: bool, floating: bool, kind: spec_fn(Tree, bool) -> bool)
    requires
        node.bool("visible"@) != Some(false),
        any_below(
            node,
            if floating { "floating_nodes"@ } else { "nodes"@ },
            raised_here(node, above) || floating,
            kind,
        ),
    ensures
        holds(node, above, kind),
{
    let up = raised_here(node, above) || floating;
    let children = node.array(if floating { "floating_nodes"@ } else { "nodes"@ })->0;
    let i = choose|i: int| 0 <= i < children.len() && holds(#[trigger] children[i], up, kind);
    let (way, w, raised) = choose|way: Seq<(bool, int)>, w: Tree, raised: bool| #[trigger]
        leads_to(children[i], up, way, w, raised) && kind(w, raised);
    let longer = seq![(floating, i)] + way;
    assert(longer.drop_first() =~= way);
    assert(leads_to(node, above, longer, w, raised));
}

spec fn filling() -> spec_fn(Tree, bool) -> bool {
    |w: Tree, raised: bool| fills(w, raised)
}

spec fn standing_at(corner: Tree, p: Placement) -> spec_fn(Tree, bool) -> bool {
    |w: Tree, raised: bool| !fills(w, raised) && tells_place(w.member("rect"@), corner, p)
}

spec fn lost(corner: Tree) -> spec_fn(Tree, bool) -> bool {
    |w: Tree, raised: bool| !fills(w, raised) && forall|p: Placement| !tells_place(w.member("rect"@), corner, p)
}

proof fn lemma_node(state: WindowsView, node: Tree, above: bool, corner: Tree, p: Placement)
    ensures
        ({
            let after = sway_with(state, node, above, corner_of(corner));
            &&& after.tiled <==> state.tiled || holds(node, above, filling())
            &&& after.floating.contains(p) <==> state.floating.contains(p) || holds(node, above, standing_at(corner, p))
            &&& after.incomplete <==> state.incomplete || holds(node, above, lost(corner))
        }),
    decreases node, 0nat,
{
    lemma_holds(node, above, filling());
    lemma_holds(node, above, standing_at(corner, p));
    lemma_holds(node, above, lost(corner));
    items_are_smaller(node, "nodes"@);
    items_are_smaller(node, "floating_nodes"@);
    let origin = corner_of(corner);
    if node.bool("visible"@) != Some(false) {
        let up = raised_here(node, above);
        let place = local_to(rect_of(node.member("rect"@)), origin);
        lemma_place(node.member("rect"@), corner, p);
        let a = if window_here(node) {
            state.with(Some(!fills(node, up)), place)
        } else {
            state
        };
        if window_here(node) {
            lemma_with(state, fills(node, up), place, p);
            if place is Some {
                lemma_place(node.member("rect"@), corner, place->0);
            } else {
                assert forall|q: Placement| !tells_place(node.member("rect"@), corner, q) by {
                    lemma_place(node.member("rect"@), corner, q);
                }
            }
        }
        let b = match node.array("nodes"@) {
            Some(children) => sway_all(a, children, up, origin),
            None => a,
        };
        if node.array("nodes"@) is Some {
            lemma_nodes(a, node.array("nodes"@)->0, up, corner, p);
        }
        if node.array("floating_nodes"@) is Some {
            lemma_nodes(b, node.array("floating_nodes"@)->0, true, corner, p);
        }
    }
}

proof fn lemma_nodes(state: WindowsView, nodes: Seq<Tree>, above: bool, corner: Tree, p: Placement)
    ensures
        ({
            let after = sway_all(state, nodes, above, corner_of(corner));
            &&& after.tiled <==> state.tiled || any_holds(nodes, above, filling())
            &&& after.floating.contains(p) <==> state.floating.contains(p) || any_holds(
                nodes,
                above,
                standing_at(corner, p),
            )
            &&& after.incomplete <==> state.incomplete || any_holds(nodes, above, lost(corner))
        }),
    decreases nodes, 1nat,
{
    if nodes.len() > 0 {
        assert(decreases_to!(nodes => nodes.drop_last()));
        assert(decreases_to!(nodes => nodes.last()));
        lemma_nodes(state, nodes.drop_last(), above, corner, p);
        let before = sway_all(state, nodes.drop_last(), above, corner_of(corner));
        lemma_node(before, nodes.last(), above, corner, p);
        lemma_any_last(nodes, above, filling());
        lemma_any_last(nodes, above, standing_at(corner, p));
        lemma_any_last(nodes, above, lost(corner));
    }
}

proof fn lemma_any_last(nodes: Seq<Tree>, above: bool, kind: spec_fn(Tree, bool) -> bool)
    requires
        nodes.len() > 0,
    ensures
        any_holds(nodes, above, kind) <==> any_holds(nodes.drop_last(), above, kind) || holds(
            nodes.last(),
            above,
            kind,
        ),
{
    let head = nodes.drop_last();
    if any_holds(nodes, above, kind) {
        let i = choose|i: int| 0 <= i < nodes.len() && holds(#[trigger] nodes[i], above, kind);
        if i < head.len() {
            assert(head[i] == nodes[i]);
        }
    }
    if any_holds(head, above, kind) {
        let i = choose|i: int| 0 <= i < head.len() && holds(#[trigger] head[i], above, kind);
        assert(nodes[i] == head[i]);
    }
    assert(nodes[nodes.len() - 1] == nodes.last());
}

/// Whether Sway lists a workspace as visible.
pub open spec fn on_screen(listed: Seq<Tree>, workspace: Tree) -> bool {
    exists|i: int|
        0 <= i < listed.len() && #[trigger] listed[i].bool("visible"@) == Some(true) && workspace.str("name"@) is Some
            && listed[i].str("name"@) == workspace.str("name"@)
}

/// Whether an output shows a window of some kind.
pub open spec fn shows_window(listed: Seq<Tree>, output: Tree, kind: spec_fn(Tree, bool) -> bool) -> bool {
    output.array("nodes"@) matches Some(workspaces) && exists|i: int|
        0 <= i < workspaces.len() && on_screen(listed, #[trigger] workspaces[i]) && holds(workspaces[i], false, kind)
}

spec fn some_holds(listed: Seq<Tree>, workspaces: Seq<Tree>, kind: spec_fn(Tree, bool) -> bool) -> bool {
    exists|i: int|
        0 <= i < workspaces.len() && on_screen(listed, #[trigger] workspaces[i]) && holds(workspaces[i], false, kind)
}

proof fn lemma_some_last(listed: Seq<Tree>, workspaces: Seq<Tree>, kind: spec_fn(Tree, bool) -> bool)
    requires
        workspaces.len() > 0,
    ensures
        some_holds(listed, workspaces, kind) <==> some_holds(listed, workspaces.drop_last(), kind) || (on_screen(
            listed,
            workspaces.last(),
        ) && holds(workspaces.last(), false, kind)),
{
    let head = workspaces.drop_last();
    if some_holds(listed, workspaces, kind) {
        let i = choose|i: int|
            0 <= i < workspaces.len() && on_screen(listed, #[trigger] workspaces[i]) && holds(workspaces[i], false, kind);
        if i < head.len() {
            assert(head[i] == workspaces[i]);
        }
    }
    if some_holds(listed, head, kind) {
        let i = choose|i: int|
            0 <= i < head.len() && on_screen(listed, #[trigger] head[i]) && holds(head[i], false, kind);
        assert(workspaces[i] == head[i]);
    }
    assert(workspaces[workspaces.len() - 1] == workspaces.last());
}

proof fn lemma_workspaces(listed: Seq<Tree>, workspaces: Seq<Tree>, corner: Tree, p: Placement)
    ensures
        ({
            let after = sway_workspaces(listed, workspaces, corner_of(corner));
            &&& after.tiled <==> some_holds(listed, workspaces, filling())
            &&& after.floating.contains(p) <==> some_holds(listed, workspaces, standing_at(corner, p))
            &&& after.incomplete <==> some_holds(listed, workspaces, lost(corner))
        }),
    decreases workspaces.len(),
{
    if workspaces.len() > 0 {
        let workspace = workspaces.last();
        lemma_workspaces(listed, workspaces.drop_last(), corner, p);
        let before = sway_workspaces(listed, workspaces.drop_last(), corner_of(corner));
        lemma_node(before, workspace, false, corner, p);
        lemma_some_last(listed, workspaces, filling());
        lemma_some_last(listed, workspaces, standing_at(corner, p));
        lemma_some_last(listed, workspaces, lost(corner));
        match workspace.str("name"@) {
            Some(name) => {
                if sway_shows(listed, name) {
                    let i = choose|i: int|
                        0 <= i < listed.len() && (#[trigger] listed[i]).flag("visible"@) && listed[i].str("name"@)
                            == Some(name);
                    assert(listed[i].bool("visible"@) == Some(true));
                    assert(on_screen(listed, workspace));
                } else if on_screen(listed, workspace) {
                    let i = choose|i: int|
                        0 <= i < listed.len() && #[trigger] listed[i].bool("visible"@) == Some(true)
                            && workspace.str("name"@) is Some && listed[i].str("name"@) == workspace.str("name"@);
                    assert(listed[i].flag("visible"@));
                }
            },
            None => {},
        }
    }
}

proof fn lemma_outputs(listed: Seq<Tree>, outputs: Seq<Tree>, o: int, name: Seq<char>)
    requires
        sway_outputs(listed, outputs) is Some,
        last_named(outputs, o, name),
        name != "__i3"@,
    ensures
        outputs[o].array("nodes"@) is Some,
        windows_on(sway_outputs(listed, outputs)->0, name) == Some(
            sway_workspaces(listed, outputs[o].array("nodes"@)->0, corner_of(outputs[o].member("rect"@))),
        ),
    decreases outputs.len(),
{
    let head = outputs.drop_last();
    let output = outputs.last();
    let before = sway_outputs(listed, head)->0;
    let n = output.str("name"@)->0;
    if o < head.len() {
        assert(head[o] == outputs[o]);
        assert forall|k: int| o < k < head.len() implies (#[trigger] head[k]).str("name"@) != Some(name) by {
            assert(head[k] == outputs[k]);
        }
        lemma_outputs(listed, head, o, name);
        assert(outputs[outputs.len() - 1].str("name"@) != Some(name));
        if n != "__i3"@ {
            put_is_found(
                before,
                n,
                sway_workspaces(listed, output.array("nodes"@)->0, corner_of(output.member("rect"@))),
                name,
            );
        }
    } else {
        put_is_found(
            before,
            n,
            sway_workspaces(listed, output.array("nodes"@)->0, corner_of(output.member("rect"@))),
            name,
        );
    }
}

/// A scene can be told exactly if every output has a name and, but for Sway's own, workspaces.
pub proof fn sway_scenes_need_names(workspaces: Tree, tree: Tree)
    ensures
        sway_whole(workspaces, tree) is Some <==> {
            &&& workspaces.as_array() is Some
            &&& tree.array("nodes"@) matches Some(outputs) && forall|o: int|
                0 <= o < outputs.len() ==> (#[trigger] outputs[o]).str("name"@) is Some && (outputs[o].array(
                    "nodes"@,
                ) is Some || outputs[o].str("name"@) == Some("__i3"@))
        },
{
    if workspaces.as_array() is Some && tree.array("nodes"@) is Some {
        lemma_needs(workspaces.as_array()->0, tree.array("nodes"@)->0);
    }
}

proof fn lemma_needs(listed: Seq<Tree>, outputs: Seq<Tree>)
    ensures
        sway_outputs(listed, outputs) is Some <==> forall|o: int|
            0 <= o < outputs.len() ==> (#[trigger] outputs[o]).str("name"@) is Some && (outputs[o].array(
                "nodes"@,
            ) is Some || outputs[o].str("name"@) == Some("__i3"@)),
    decreases outputs.len(),
{
    if outputs.len() > 0 {
        let head = outputs.drop_last();
        lemma_needs(listed, head);
        assert(forall|o: int| 0 <= o < head.len() ==> head[o] == #[trigger] outputs[o]);
        assert(outputs[outputs.len() - 1] == outputs.last());
        if sway_outputs(listed, head) is Some {
            assert forall|o: int| 0 <= o < outputs.len() - 1 implies (#[trigger] outputs[o]).str("name"@) is Some && (
            outputs[o].array("nodes"@) is Some || outputs[o].str("name"@) == Some("__i3"@)) by {
                assert(head[o] == outputs[o]);
            }
        } else {
            let o = choose|o: int|
                0 <= o < head.len() && !((#[trigger] head[o]).str("name"@) is Some && (head[o].array("nodes"@) is Some
                    || head[o].str("name"@) == Some("__i3"@)));
            assert(outputs[o] == head[o]);
        }
    }
}

/// An output of Sway is tiled exactly if a workspace that is shown on it holds a visible window that
/// does not float, or is fullscreen. Then its bar hides, whatever the rectangles are.
pub proof fn sway_tiles_hide_the_bar(
    workspaces: Tree,
    tree: Tree,
    o: int,
    name: Seq<char>,
    meets: Seq<bool>,
    bar_is_empty: bool,
)
    requires
        sway_whole(workspaces, tree) is Some,
        last_named(tree.array("nodes"@)->0, o, name),
        name != "__i3"@,
    ensures
        ({
            let outputs = sway_whole(workspaces, tree)->0.outputs;
            let tiled = shows_window(
                workspaces.as_array()->0,
                tree.array("nodes"@)->0[o],
                |w: Tree, raised: bool| fills(w, raised),
            );
            &&& windows_on(outputs, name) matches Some(windows) && windows.tiled == tiled
            &&& tiled ==> decided_on(outputs, name, meets, bar_is_empty) == HideDecision::Hide
        }),
{
    let listed = workspaces.as_array()->0;
    let nodes = tree.array("nodes"@)->0;
    lemma_outputs(listed, nodes, o, name);
    let p = arbitrary();
    lemma_workspaces(listed, nodes[o].array("nodes"@)->0, nodes[o].member("rect"@), p);
}

/// A window of Sway is listed as floating exactly if it or something above it floats, it is not
/// fullscreen and its rectangle is told. One whose rectangle is not told leaves the scene incomplete.
pub proof fn sway_floating_windows_are_listed(workspaces: Tree, tree: Tree, o: int, name: Seq<char>, p: Placement)
    requires
        sway_whole(workspaces, tree) is Some,
        last_named(tree.array("nodes"@)->0, o, name),
        name != "__i3"@,
    ensures
        ({
            let outputs = sway_whole(workspaces, tree)->0.outputs;
            let listed = workspaces.as_array()->0;
            let output = tree.array("nodes"@)->0[o];
            let corner = output.member("rect"@);
            windows_on(outputs, name) matches Some(windows) && {
                &&& windows.floating.contains(p) <==> shows_window(
                    listed,
                    output,
                    |w: Tree, raised: bool| !fills(w, raised) && tells_place(w.member("rect"@), corner, p),
                )
                &&& windows.incomplete <==> shows_window(
                    listed,
                    output,
                    |w: Tree, raised: bool|
                        !fills(w, raised) && forall|q: Placement| !tells_place(w.member("rect"@), corner, q),
                )
            }
        }),
{
    let listed = workspaces.as_array()->0;
    let nodes = tree.array("nodes"@)->0;
    lemma_outputs(listed, nodes, o, name);
    lemma_workspaces(listed, nodes[o].array("nodes"@)->0, nodes[o].member("rect"@), p);
    let corner = nodes[o].member("rect"@);
    assert(standing_at(corner, p) == (|w: Tree, raised: bool|
        !fills(w, raised) && tells_place(w.member("rect"@), corner, p)));
}

} // verus!
