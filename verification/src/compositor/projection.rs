//! Floating windows that reach over to other outputs.
//!
//! Some compositors draw floating windows in the global layout of the outputs, so that a window
//! counts for every output it meets.

use vstd::prelude::*;
use crate::compositor::visibility::{scenes, OutputScene, OutputWindows, Placement, Point, Projection, SceneView, WindowsView};
use crate::table::Table;
use crate::text;

verus! {

/// The area of an output. Its numbers are bit patterns of doubles; where there is a scale, width
/// and height are still to be divided by it.
#[derive(Clone, Copy, Debug, PartialEq, Eq, Structural)]
pub struct Area {
    pub x: u64,
    pub y: u64,
    pub width: u64,
    pub height: u64,
    pub scale: Option<u64>,
}

/// Areas with the names of their outputs.
pub open spec fn named_areas(areas: Seq<(String, Area)>) -> Seq<(Seq<char>, Area)> {
    areas.map_values(|a: (String, Area)| (a.0@, a.1))
}

/// The areas of outputs by their names. Those that are not valid do not count, and of two with one
/// name the later does.
pub open spec fn valid_areas(areas: Seq<(Seq<char>, Area)>, valid: Seq<bool>) -> Map<Seq<char>, Area>
    decreases areas.len(),
{
    if areas.len() == 0 {
        Map::empty()
    } else {
        let before = valid_areas(areas.drop_last(), valid);
        if valid[areas.len() - 1] {
            before.insert(areas.last().0, areas.last().1)
        } else {
            before
        }
    }
}

/// The areas of outputs by their names. `valid` tells which are rectangles once they are divided by
/// their scales.
pub fn areas_by_name(areas: &Vec<(String, Area)>, valid: &Vec<bool>) -> (table: Table<String, Area>)
    requires
        valid@.len() == areas@.len(),
    ensures
        table@ == valid_areas(named_areas(areas@), valid@),
{
    let ghost all = named_areas(areas@);
    let mut table: Table<String, Area> = Table::new();
    let mut i: usize = 0;
    proof {
        assert(all.take(0) =~= Seq::empty());
    }
    while i < areas.len()
        invariant
            i <= areas@.len(),
            valid@.len() == areas@.len(),
            all == named_areas(areas@),
            table@ == valid_areas(all.take(i as int), valid@),
        decreases areas@.len() - i,
    {
        proof {
            assert(all.take(i + 1).drop_last() =~= all.take(i as int));
            assert(all.take(i + 1).last() == (areas@[i as int].0@, areas@[i as int].1));
        }
        if valid[i] {
            table.insert(areas[i].0.clone(), areas[i].1);
        }
        i += 1;
    }
    proof {
        assert(all.take(i as int) =~= all);
    }
    table
}

/// A floating window of one output that meets another.
#[derive(Debug)]
pub struct Crossing {
    /// The output that the window is on.
    pub owner: String,
    /// The place of the window among the floating windows of that output.
    pub index: usize,
    /// The output that it meets.
    pub output: String,
}

/// What a [`Crossing`] holds.
pub struct CrossingView {
    pub owner: Seq<char>,
    pub index: int,
    pub output: Seq<char>,
}

impl View for Crossing {
    type V = CrossingView;

    open spec fn view(&self) -> CrossingView {
        CrossingView { owner: self.owner@, index: self.index as int, output: self.output@ }
    }
}

/// What the crossings of a list hold.
pub open spec fn crossing_views(list: Seq<Crossing>) -> Seq<CrossingView> {
    list.map_values(|c: Crossing| c@)
}

/// A window in the coordinates of another output.
pub open spec fn shifted(window: Placement, from: Area, to: Area) -> Placement {
    Placement {
        projection: Some(Projection { from: Point { x: from.x, y: from.y }, to: Point { x: to.x, y: to.y } }),
        ..window
    }
}

/// What the first `n` floating windows of an output bring to the output `name`.
pub open spec fn arriving_from(
    owner: SceneView,
    n: nat,
    name: Seq<char>,
    areas: Map<Seq<char>, Area>,
    crossings: Seq<CrossingView>,
) -> Seq<Placement>
    decreases n,
{
    if n == 0 {
        Seq::empty()
    } else {
        let i = (n - 1) as nat;
        let before = arriving_from(owner, i, name, areas, crossings);
        if crossings.contains(CrossingView { owner: owner.name, index: i as int, output: name }) {
            before.push(shifted(owner.windows.floating[i as int], areas[owner.name], areas[name]))
        } else {
            before
        }
    }
}

/// What the windows of other outputs bring to the output `name`. Windows of an output whose area
/// is unknown bring nothing.
pub open spec fn arriving(
    scene: Seq<SceneView>,
    name: Seq<char>,
    areas: Map<Seq<char>, Area>,
    crossings: Seq<CrossingView>,
) -> Seq<Placement>
    decreases scene.len(),
{
    if scene.len() == 0 {
        Seq::empty()
    } else {
        let before = arriving(scene.drop_last(), name, areas, crossings);
        let owner = scene.last();
        if owner.name != name && areas.dom().contains(owner.name) {
            before + arriving_from(owner, owner.windows.floating.len(), name, areas, crossings)
        } else {
            before
        }
    }
}

/// An output with the windows that arrive from the others; incomplete where its area is unknown.
pub open spec fn completed(
    scene: Seq<SceneView>,
    output: SceneView,
    areas: Map<Seq<char>, Area>,
    crossings: Seq<CrossingView>,
) -> SceneView {
    SceneView {
        name: output.name,
        windows: if areas.dom().contains(output.name) {
            WindowsView {
                floating: output.windows.floating + arriving(scene, output.name, areas, crossings),
                ..output.windows
            }
        } else {
            WindowsView { incomplete: true, ..output.windows }
        },
    }
}

/// The scene in which every output has the windows that meet it.
pub open spec fn projected(
    scene: Seq<SceneView>,
    areas: Map<Seq<char>, Area>,
    crossings: Seq<CrossingView>,
) -> Seq<SceneView> {
    scene.map_values(|output: SceneView| completed(scene, output, areas, crossings))
}

fn is_crossing(crossings: &Vec<Crossing>, owner: &str, index: usize, output: &str) -> (yes: bool)
    ensures
        yes == crossing_views(crossings@).contains(
            (CrossingView { owner: owner@, index: index as int, output: output@ }),
        ),
{
    let ghost wanted = CrossingView { owner: owner@, index: index as int, output: output@ };
    let ghost all = crossing_views(crossings@);
    let mut i: usize = 0;
    while i < crossings.len()
        invariant
            i <= crossings@.len(),
            all == crossing_views(crossings@),
            wanted == (CrossingView { owner: owner@, index: index as int, output: output@ }),
            forall|j: int| 0 <= j < i ==> #[trigger] all[j] != wanted,
        decreases crossings@.len() - i,
    {
        let c = &crossings[i];
        assert(all[i as int] == c@);
        if c.index == index && text::str_eq(c.owner.as_str(), owner) && text::str_eq(c.output.as_str(), output) {
            assert(all[i as int] == wanted);
            return true;
        }
        i += 1;
    }
    false
}

fn gather_from(
    owner: &OutputScene,
    from: Area,
    name: &str,
    to: Area,
    Ghost(areas): Ghost<Map<Seq<char>, Area>>,
    crossings: &Vec<Crossing>,
    found: &mut Vec<Placement>,
)
    requires
        areas[owner.name@] == from,
        areas[name@] == to,
    ensures
        final(found)@ == old(found)@ + arriving_from(
            owner@,
            owner.windows.floating@.len(),
            name@,
            areas,
            crossing_views(crossings@),
        ),
{
    let ghost before = found@;
    let mut i: usize = 0;
    proof {
        assert(found@ =~= before + arriving_from(owner@, 0, name@, areas, crossing_views(crossings@)));
    }
    while i < owner.windows.floating.len()
        invariant
            i <= owner.windows.floating@.len(),
            areas[owner.name@] == from,
            areas[name@] == to,
            found@ == before + arriving_from(owner@, i as nat, name@, areas, crossing_views(crossings@)),
        decreases owner.windows.floating@.len() - i,
    {
        let ghost held = found@;
        if is_crossing(crossings, owner.name.as_str(), i, name) {
            let window = owner.windows.floating[i];
            let projection = Some(
                Projection { from: Point { x: from.x, y: from.y }, to: Point { x: to.x, y: to.y } },
            );
            found.push(
                Placement {
                    x: window.x,
                    y: window.y,
                    width: window.width,
                    height: window.height,
                    origin: window.origin,
                    projection,
                },
            );
        }
        i += 1;
        proof {
            assert(found@ =~= before + arriving_from(owner@, i as nat, name@, areas, crossing_views(crossings@)));
        }
    }
}

fn gather(
    scene: &Vec<OutputScene>,
    name: &str,
    to: Area,
    areas: &Table<String, Area>,
    crossings: &Vec<Crossing>,
) -> (found: Vec<Placement>)
    requires
        areas@[name@] == to,
    ensures
        found@ == arriving(scenes(scene@), name@, areas@, crossing_views(crossings@)),
{
    let ghost whole = scenes(scene@);
    let mut found: Vec<Placement> = Vec::new();
    let mut i: usize = 0;
    proof {
        assert(whole.take(0) =~= Seq::empty());
    }
    while i < scene.len()
        invariant
            i <= scene@.len(),
            whole == scenes(scene@),
            areas@[name@] == to,
            found@ == arriving(whole.take(i as int), name@, areas@, crossing_views(crossings@)),
        decreases scene@.len() - i,
    {
        let owner = &scene[i];
        proof {
            assert(whole.take(i + 1).drop_last() =~= whole.take(i as int));
            assert(whole.take(i + 1).last() == owner@);
        }
        if !text::str_eq(owner.name.as_str(), name) {
            match areas.get(&owner.name) {
                Some(from) => gather_from(owner, *from, name, to, Ghost(areas@), crossings, &mut found),
                None => {}
            }
        }
        i += 1;
    }
    proof {
        assert(whole.take(i as int) =~= whole);
    }
    found
}

fn copy_placements(list: &Vec<Placement>) -> (copy: Vec<Placement>)
    ensures
        copy@ == list@,
{
    let mut copy: Vec<Placement> = Vec::new();
    let mut i: usize = 0;
    while i < list.len()
        invariant
            i <= list@.len(),
            copy@ == list@.take(i as int),
        decreases list@.len() - i,
    {
        copy.push(list[i]);
        proof {
            assert(list@.take(i + 1) =~= list@.take(i as int).push(list@[i as int]));
        }
        i += 1;
    }
    proof {
        assert(list@.take(i as int) =~= list@);
    }
    copy
}

/// Adds to every output the floating windows of other outputs that meet it. `areas` are the
/// outputs whose area is known, and `crossings` tells which windows meet which outputs.
pub fn project_floating(scene: &Vec<OutputScene>, areas: &Table<String, Area>, crossings: &Vec<Crossing>) -> (whole: Vec<
    OutputScene,
>)
    ensures
        scenes(whole@) == projected(scenes(scene@), areas@, crossing_views(crossings@)),
{
    let ghost given = scenes(scene@);
    let ghost wanted = projected(given, areas@, crossing_views(crossings@));
    let mut whole: Vec<OutputScene> = Vec::new();
    let mut i: usize = 0;
    while i < scene.len()
        invariant
            i <= scene@.len(),
            given == scenes(scene@),
            wanted == projected(given, areas@, crossing_views(crossings@)),
            whole@.len() == i,
            forall|j: int| 0 <= j < i ==> (#[trigger] whole@[j])@ == wanted[j],
        decreases scene@.len() - i,
    {
        let output = &scene[i];
        let mut floating = copy_placements(&output.windows.floating);
        let mut incomplete = output.windows.incomplete;
        match areas.get(&output.name) {
            Some(to) => {
                let mut more = gather(scene, output.name.as_str(), *to, areas, crossings);
                floating.append(&mut more);
            }
            None => incomplete = true,
        }
        let entry = OutputScene {
            name: output.name.clone(),
            windows: OutputWindows { tiled: output.windows.tiled, floating, incomplete },
        };
        proof {
            assert(given[i as int] == output@);
            assert(entry@ == wanted[i as int]);
        }
        whole.push(entry);
        i += 1;
    }
    proof {
        assert(scenes(whole@) =~= wanted);
    }
    whole
}

/// Projection keeps every output with its own windows; it only adds floating ones.
pub proof fn projection_keeps_own_windows(
    scene: Seq<SceneView>,
    areas: Map<Seq<char>, Area>,
    crossings: Seq<CrossingView>,
    i: int,
)
    requires
        0 <= i < scene.len(),
    ensures
        projected(scene, areas, crossings).len() == scene.len(),
        projected(scene, areas, crossings)[i].name == scene[i].name,
        projected(scene, areas, crossings)[i].windows.tiled == scene[i].windows.tiled,
        scene[i].windows.floating.is_prefix_of(projected(scene, areas, crossings)[i].windows.floating),
        scene[i].windows.incomplete ==> projected(scene, areas, crossings)[i].windows.incomplete,
{
}

proof fn lemma_nothing_arrives(
    scene: Seq<SceneView>,
    name: Seq<char>,
    areas: Map<Seq<char>, Area>,
    crossings: Seq<CrossingView>,
)
    requires
        forall|j: int|
            0 <= j < scene.len() && (#[trigger] scene[j]).name != name ==> scene[j].windows.floating.len() == 0,
    ensures
        arriving(scene, name, areas, crossings) == Seq::<Placement>::empty(),
    decreases scene.len(),
{
    if scene.len() > 0 {
        lemma_nothing_arrives(scene.drop_last(), name, areas, crossings);
        let owner = scene.last();
        if owner.name != name {
            assert(scene[scene.len() - 1].windows.floating.len() == 0);
        }
        assert(arriving(scene, name, areas, crossings) =~= Seq::<Placement>::empty());
    }
}

/// Tiled windows are never projected: an output is left as it is, but for an unknown area, where
/// no other output has floating windows.
pub proof fn only_floating_windows_are_projected(
    scene: Seq<SceneView>,
    areas: Map<Seq<char>, Area>,
    crossings: Seq<CrossingView>,
    i: int,
)
    requires
        0 <= i < scene.len(),
        areas.dom().contains(scene[i].name),
        forall|j: int|
            0 <= j < scene.len() && (#[trigger] scene[j]).name != scene[i].name ==> scene[j].windows.floating.len() == 0,
    ensures
        projected(scene, areas, crossings)[i] == scene[i],
{
    lemma_nothing_arrives(scene, scene[i].name, areas, crossings);
    assert(scene[i].windows.floating + Seq::<Placement>::empty() =~= scene[i].windows.floating);
}

proof fn lemma_arriving_from(
    owner: SceneView,
    n: nat,
    name: Seq<char>,
    areas: Map<Seq<char>, Area>,
    crossings: Seq<CrossingView>,
    q: Placement,
)
    requires
        n <= owner.windows.floating.len(),
    ensures
        arriving_from(owner, n, name, areas, crossings).contains(q) <==> exists|k: int|
            0 <= k < n && crossings.contains(CrossingView { owner: owner.name, index: k, output: name }) && moved(
                #[trigger] owner.windows.floating[k],
                areas[owner.name],
                areas[name],
                q,
            ),
    decreases n,
{
    if n > 0 {
        let i = (n - 1) as nat;
        let before = arriving_from(owner, i, name, areas, crossings);
        let after = arriving_from(owner, n, name, areas, crossings);
        lemma_arriving_from(owner, i, name, areas, crossings, q);
        let window = owner.windows.floating[i as int];
        assert(moved(window, areas[owner.name], areas[name], q) <==> q == shifted(
            window,
            areas[owner.name],
            areas[name],
        ));
        if before.contains(q) {
            let j = choose|j: int| 0 <= j < before.len() && before[j] == q;
            assert(after[j] == q);
        }
        if after.len() > before.len() {
            assert(after[before.len() as int] == shifted(window, areas[owner.name], areas[name]));
        }
    }
}

/// Whether `q` is a floating window of one output in the coordinates of another: the corner of the one is
/// added, that of the other subtracted.
pub open spec fn moved(window: Placement, from: Area, to: Area, q: Placement) -> bool {
    &&& q.x == window.x && q.y == window.y && q.width == window.width && q.height == window.height
    &&& q.origin == window.origin
    &&& q.projection matches Some(way) && way.from.x == from.x && way.from.y == from.y && way.to.x == to.x && way.to.y
        == to.y
}

/// Whether `q` is brought to an output by a window of another whose area is known.
pub open spec fn brought(
    owner: SceneView,
    name: Seq<char>,
    areas: Map<Seq<char>, Area>,
    crossings: Seq<CrossingView>,
    q: Placement,
) -> bool {
    owner.name != name && areas.dom().contains(owner.name) && exists|k: int|
        0 <= k < owner.windows.floating.len() && crossings.contains(
            CrossingView { owner: owner.name, index: k, output: name },
        ) && moved(#[trigger] owner.windows.floating[k], areas[owner.name], areas[name], q)
}

proof fn lemma_arriving(
    scene: Seq<SceneView>,
    name: Seq<char>,
    areas: Map<Seq<char>, Area>,
    crossings: Seq<CrossingView>,
    q: Placement,
)
    ensures
        arriving(scene, name, areas, crossings).contains(q) <==> exists|j: int|
            0 <= j < scene.len() && brought(#[trigger] scene[j], name, areas, crossings, q),
    decreases scene.len(),
{
    if scene.len() > 0 {
        let head = scene.drop_last();
        let owner = scene.last();
        let before = arriving(head, name, areas, crossings);
        let after = arriving(scene, name, areas, crossings);
        let more = arriving_from(owner, owner.windows.floating.len(), name, areas, crossings);
        lemma_arriving(head, name, areas, crossings, q);
        lemma_arriving_from(owner, owner.windows.floating.len(), name, areas, crossings, q);
        assert(scene[scene.len() - 1] == owner);
        if before.contains(q) {
            let j = choose|j: int| 0 <= j < head.len() && brought(#[trigger] head[j], name, areas, crossings, q);
            assert(scene[j] == head[j]);
            let k = choose|k: int| 0 <= k < before.len() && before[k] == q;
            assert(after[k] == q);
        }
        if owner.name != name && areas.dom().contains(owner.name) {
            if more.contains(q) {
                let k = choose|k: int| 0 <= k < more.len() && more[k] == q;
                assert(after[before.len() + k] == q);
            }
            if after.contains(q) {
                let k = choose|k: int| 0 <= k < after.len() && after[k] == q;
                if k < before.len() {
                    assert(before[k] == q);
                } else {
                    assert(more[k - before.len()] == q);
                }
            }
        }
        if exists|j: int| 0 <= j < scene.len() && brought(#[trigger] scene[j], name, areas, crossings, q) {
            let j = choose|j: int| 0 <= j < scene.len() && brought(#[trigger] scene[j], name, areas, crossings, q);
            if j < head.len() {
                assert(head[j] == scene[j]);
            }
        }
    }
}

/// An output has a floating window exactly if it had it before, or a window of another output meets it
/// and the areas of both are known. An output whose area is not known is incomplete.
pub proof fn windows_reach_the_outputs_they_meet(
    scene: Seq<SceneView>,
    areas: Map<Seq<char>, Area>,
    crossings: Seq<CrossingView>,
    i: int,
    q: Placement,
)
    requires
        0 <= i < scene.len(),
    ensures
        ({
            let after = projected(scene, areas, crossings)[i].windows;
            let known = areas.dom().contains(scene[i].name);
            &&& after.floating.contains(q) <==> scene[i].windows.floating.contains(q) || (known && exists|j: int|
                0 <= j < scene.len() && brought(#[trigger] scene[j], scene[i].name, areas, crossings, q))
            &&& after.incomplete <==> scene[i].windows.incomplete || !known
        }),
{
    let own = scene[i].windows.floating;
    let more = arriving(scene, scene[i].name, areas, crossings);
    lemma_arriving(scene, scene[i].name, areas, crossings, q);
    if own.contains(q) {
        let k = choose|k: int| 0 <= k < own.len() && own[k] == q;
        assert((own + more)[k] == q);
    }
    if more.contains(q) {
        let k = choose|k: int| 0 <= k < more.len() && more[k] == q;
        assert((own + more)[own.len() + k] == q);
    }
    if (own + more).contains(q) {
        let k = choose|k: int| 0 <= k < (own + more).len() && (own + more)[k] == q;
        if k < own.len() {
            assert(own[k] == q);
        } else {
            assert(more[k - own.len()] == q);
        }
    }
}

/// The area of an output is the last valid one that is told under its name.
pub proof fn the_last_valid_area_counts(areas: Seq<(Seq<char>, Area)>, valid: Seq<bool>, name: Seq<char>)
    requires
        valid.len() == areas.len(),
    ensures
        valid_areas(areas, valid).dom().contains(name) <==> exists|k: int|
            0 <= k < areas.len() && valid[k] && (#[trigger] areas[k]).0 == name,
        forall|k: int|
            0 <= k < areas.len() && valid[k] && (#[trigger] areas[k]).0 == name && (forall|l: int|
                k < l < areas.len() ==> !(valid[l] && (#[trigger] areas[l]).0 == name)) ==> valid_areas(areas, valid)[name]
                == areas[k].1,
{
    lemma_last_valid(areas, valid, areas.len(), name);
    assert(areas.take(areas.len() as int) =~= areas);
}

proof fn lemma_last_valid(areas: Seq<(Seq<char>, Area)>, valid: Seq<bool>, n: nat, name: Seq<char>)
    requires
        valid.len() == areas.len(),
        n <= areas.len(),
    ensures
        valid_areas(areas.take(n as int), valid).dom().contains(name) <==> exists|k: int|
            0 <= k < n && valid[k] && (#[trigger] areas[k]).0 == name,
        forall|k: int|
            0 <= k < n && valid[k] && (#[trigger] areas[k]).0 == name && (forall|l: int|
                k < l < n ==> !(valid[l] && (#[trigger] areas[l]).0 == name)) ==> valid_areas(
                areas.take(n as int),
                valid,
            )[name] == areas[k].1,
    decreases n,
{
    if n > 0 {
        let m = (n - 1) as nat;
        lemma_last_valid(areas, valid, m, name);
        assert(areas.take(n as int).drop_last() =~= areas.take(m as int));
        assert(areas.take(n as int).last() == areas[m as int]);
        assert forall|k: int|
            0 <= k < n && valid[k] && (#[trigger] areas[k]).0 == name && (forall|l: int|
                k < l < n ==> !(valid[l] && (#[trigger] areas[l]).0 == name)) implies valid_areas(
            areas.take(n as int),
            valid,
        )[name] == areas[k].1 by {
            if k < m {
                assert(!(valid[m as int] && areas[m as int].0 == name));
            }
        }
    }
}

} // verus!
