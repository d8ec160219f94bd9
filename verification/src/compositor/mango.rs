//! Mango: workspaces, focus and keyboard layout from its `all-monitors` documents.

use vstd::prelude::*;
use vstd::string::*;
use crate::compositor::{
    KeyboardLayoutInfo, OutputView, PerOutputState, Window, WindowInfo, WindowInfoView,
    WindowView, WorkspaceMeta, WorkspaceSnapshot, WorkspaceView, window_views,
};
use crate::json::{trees, Json, Tree};
use crate::hashed::IdSet;
use crate::table::{as_map, lemma_as_map, Comparable, Table};
use crate::text::{self, chars_of, digits};

verus! {

/// How many tags there are until a document tells.
pub const DEFAULT_WORKSPACE_COUNT: u32 = 9;

/// The workspace number by which Mango tells its overview.
pub const OVERVIEW_WORKSPACE_ID: i32 = 0;

/// The name of the overview.
pub const OVERVIEW_WORKSPACE_NAME: &'static str = "overview";

/// What the backend knows.
#[derive(Debug)]
pub struct MangoSharedState {
    pub snapshot: WorkspaceSnapshot,
    /// Where the outputs are.
    pub output_geometry: Table<String, (i64, i64)>,
    pub focused_window: Option<WindowInfo>,
    pub focused_client_id: Option<u64>,
    pub windows: Vec<Window>,
    pub keyboard_layout: Option<KeyboardLayoutInfo>,
    pub tag_count: u32,
}

/// What a [`MangoSharedState`] holds.
pub struct MangoView {
    pub snapshot: WorkspaceView,
    pub geometry: Map<Seq<char>, (i64, i64)>,
    pub focused_window: Option<WindowInfoView>,
    pub focused_client_id: Option<u64>,
    pub windows: Seq<WindowView>,
    pub layout: Option<LayoutView>,
    pub tag_count: u32,
}

/// What an optional window holds.
pub open spec fn info_of(info: Option<WindowInfo>) -> Option<WindowInfoView> {
    match info {
        Some(i) => Some(i@),
        None => None,
    }
}

/// What a [`KeyboardLayoutInfo`] holds.
pub struct LayoutView {
    pub name: Seq<char>,
    pub count: Option<u32>,
}

/// What an optional layout holds.
pub open spec fn layout_of(layout: Option<KeyboardLayoutInfo>) -> Option<LayoutView> {
    match layout {
        Some(l) => Some(LayoutView { name: l.layout_name@, count: l.layout_count }),
        None => None,
    }
}

impl View for MangoSharedState {
    type V = MangoView;

    open spec fn view(&self) -> MangoView {
        MangoView {
            snapshot: self.snapshot@,
            geometry: self.output_geometry@,
            focused_window: info_of(self.focused_window),
            focused_client_id: self.focused_client_id,
            windows: window_views(self.windows@),
            layout: layout_of(self.keyboard_layout),
            tag_count: self.tag_count,
        }
    }
}

impl MangoView {
    pub open spec fn initial() -> MangoView {
        MangoView {
            snapshot: WorkspaceView::empty(),
            geometry: Map::empty(),
            focused_window: None,
            focused_client_id: None,
            windows: Seq::empty(),
            layout: None,
            tag_count: DEFAULT_WORKSPACE_COUNT,
        }
    }
}

impl Default for MangoSharedState {
    fn default() -> (state: Self)
        ensures
            state@ == MangoView::initial(),
    {
        let state = MangoSharedState {
            snapshot: WorkspaceSnapshot::default(),
            output_geometry: Table::new(),
            focused_window: None,
            focused_client_id: None,
            windows: Vec::new(),
            keyboard_layout: None,
            tag_count: DEFAULT_WORKSPACE_COUNT,
        };
        proof {
            assert(state@.windows =~= Seq::empty());
        }
        state
    }
}

/// The workspace number that a document gives, cut to 32 bits.
pub open spec fn number(id: i64) -> i32 {
    id as i32
}

pub(crate) fn to_number(id: i64) -> (n: i32)
    ensures
        n == number(id),
{
    #[verifier::truncate]
    (id as i32)
}

/// The number of clients on a tag, cut to 32 bits.
pub open spec fn client_count(tag: Tree) -> u32 {
    match tag.u64("client_count"@) {
        Some(n) => n as u32,
        None => 0,
    }
}

fn count_clients(tag: &Json) -> (n: u32)
    ensures
        n == client_count(tag@),
{
    match tag.get_u64("client_count") {
        Some(n) => #[verifier::truncate]
        (n as u32),
        None => 0,
    }
}

/// The tags that a monitor shows.
pub open spec fn active_tags(monitor: Tree) -> Set<i32> {
    match monitor.array("active_tags"@) {
        Some(tags) => Set::new(
            |id: i32|
                exists|i: int| 0 <= i < tags.len() && (#[trigger] tags[i]).as_i64() is Some && number(tags[i].as_i64()->0) == id,
        ),
        None => Set::empty(),
    }
}

/// What has been gathered of a monitor and its tags.
pub struct Gathered {
    pub output: OutputView,
    pub all: WorkspaceView,
    pub max_tag: u32,
}

/// Adds up the windows of a workspace over all outputs, in 32 bits.
pub open spec fn counted(counts: Map<i32, u32>, id: i32, n: u32) -> Map<i32, u32> {
    let known = if counts.dom().contains(id) { counts[id] } else { 0 };
    counts.insert(id, ((known + n) % 0x1_0000_0000) as u32)
}

/// Takes one tag into account. In the overview tags neither count as occupied nor as active.
pub open spec fn with_tag(g: Gathered, focused: bool, active: Set<i32>, tag: Tree) -> Gathered {
    match tag.i64("index"@) {
        None => g,
        Some(index) => {
            let id = number(index);
            let n = client_count(tag);
            let overview = active.contains(OVERVIEW_WORKSPACE_ID);
            let is_active = if active == Set::<i32>::empty() { tag.flag("is_active"@) } else { active.contains(id) };
            let urgent = tag.flag("is_urgent"@);
            let o = g.output;
            let a = g.all;
            let occupied = !overview && n > 0;
            let shown = !overview && is_active;
            Gathered {
                output: OutputView {
                    counts: if overview { o.counts } else { o.counts.insert(id, n) },
                    occupied: if occupied { o.occupied.insert(id) } else { o.occupied },
                    active: if shown { o.active.insert(id) } else { o.active },
                    urgent: if urgent && o.urgent is Some { Some(o.urgent->0.insert(id)) } else { o.urgent },
                },
                all: WorkspaceView {
                    counts: if occupied { counted(a.counts, id, n) } else { a.counts },
                    occupied: if occupied { a.occupied.insert(id) } else { a.occupied },
                    active: if shown && focused { a.active.insert(id) } else { a.active },
                    urgent: if urgent { a.urgent.insert(id) } else { a.urgent },
                    ..a
                },
                max_tag: if id > g.max_tag { id as u32 } else { g.max_tag },
            }
        },
    }
}

/// Takes tags into account, one after the other.
pub open spec fn with_tags(g: Gathered, focused: bool, active: Set<i32>, tags: Seq<Tree>) -> Gathered
    decreases tags.len(),
{
    if tags.len() == 0 {
        g
    } else {
        with_tag(with_tags(g, focused, active, tags.drop_last()), focused, active, tags.last())
    }
}

/// What has been gathered of all monitors so far.
pub struct Collected {
    pub all: WorkspaceView,
    pub geometry: Map<Seq<char>, (i64, i64)>,
    pub max_tag: u32,
}

impl Collected {
    pub open spec fn nothing() -> Collected {
        Collected { all: WorkspaceView::empty(), geometry: Map::empty(), max_tag: 0 }
    }
}

/// The state of an output as a monitor's tags begin: what an earlier monitor of the same name
/// left, with no urgent workspace.
pub open spec fn fresh_output(all: WorkspaceView, name: Seq<char>) -> OutputView {
    let known = if all.per_output.dom().contains(name) { all.per_output[name] } else { OutputView::empty() };
    OutputView { urgent: Some(Set::empty()), ..known }
}

/// Takes one monitor into account. Monitors without a name are left out.
pub open spec fn with_monitor(c: Collected, monitor: Tree) -> Collected {
    match monitor.str("name"@) {
        None => c,
        Some(name) => {
            let x = monitor.i64("x"@);
            let y = monitor.i64("y"@);
            let geometry = if x is Some && y is Some { c.geometry.insert(name, (x->0, y->0)) } else { c.geometry };
            let focused = monitor.flag("active"@);
            let active = active_tags(monitor);
            let start = Gathered { output: fresh_output(c.all, name), all: c.all, max_tag: c.max_tag };
            let end = match monitor.array("tags"@) {
                None => start,
                Some(tags) => {
                    let g = with_tags(start, focused, active, tags);
                    if active.contains(OVERVIEW_WORKSPACE_ID) {
                        Gathered {
                            output: OutputView { active: g.output.active.insert(OVERVIEW_WORKSPACE_ID), ..g.output },
                            all: WorkspaceView {
                                active: if focused { g.all.active.insert(OVERVIEW_WORKSPACE_ID) } else { g.all.active },
                                ..g.all
                            },
                            ..g
                        }
                    } else {
                        g
                    }
                },
            };
            Collected {
                all: WorkspaceView { per_output: end.all.per_output.insert(name, end.output), ..end.all },
                geometry,
                max_tag: end.max_tag,
            }
        },
    }
}

/// Takes monitors into account, one after the other.
pub open spec fn collected(monitors: Seq<Tree>) -> Collected
    decreases monitors.len(),
{
    if monitors.len() == 0 {
        Collected::nothing()
    } else {
        with_monitor(collected(monitors.drop_last()), monitors.last())
    }
}

/// The backend after an `all-monitors` document.
pub open spec fn with_monitors(s: MangoView, document: Tree) -> MangoView {
    match document.array("monitors"@) {
        None => s,
        Some(monitors) => {
            let c = collected(monitors);
            MangoView {
                snapshot: c.all,
                geometry: if c.geometry == Map::<Seq<char>, (i64, i64)>::empty() { s.geometry } else { c.geometry },
                tag_count: if c.max_tag > 0 { c.max_tag } else { s.tag_count },
                ..s
            }
        },
    }
}

/// Whether the workspaces of two states differ.
pub open spec fn workspaces_differ(a: MangoView, b: MangoView) -> bool {
    a.tag_count != b.tag_count || a.snapshot != b.snapshot
}

fn read_active_tags(monitor: &Json) -> (active: IdSet)
    ensures
        active@ == active_tags(monitor@),
{
    let mut active = IdSet::new();
    match monitor.get_array("active_tags") {
        Some(tags) => {
            let ghost all = trees(tags@);
            let mut i: usize = 0;
            while i < tags.len()
                invariant
                    i <= tags@.len(),
                    all == trees(tags@),
                    forall|id: i32|
                        active@.contains(id) <==> exists|j: int|
                            0 <= j < i && (#[trigger] all[j]).as_i64() is Some && number(all[j].as_i64()->0) == id,
                decreases tags@.len() - i,
            {
                let ghost before = active@;
                let read = tags[i].as_i64();
                assert(all[i as int] == tags@[i as int]@);
                match read {
                    Some(id) => {
                        active.insert(to_number(id));
                    }
                    None => {}
                }
                proof {
                    assert forall|id: i32| active@.contains(id) <==> exists|j: int|
                        0 <= j < i + 1 && (#[trigger] all[j]).as_i64() is Some && number(all[j].as_i64()->0) == id by {
                        if active@.contains(id) && !before.contains(id) {
                            assert(all[i as int].as_i64() is Some);
                        }
                        if before.contains(id) {
                            let j = choose|j: int|
                                0 <= j < i && (#[trigger] all[j]).as_i64() is Some && number(all[j].as_i64()->0) == id;
                            assert(0 <= j < i + 1);
                        }
                    }
                }
                i += 1;
            }
            proof {
                assert(active@ =~= active_tags(monitor@));
            }
        }
        None => {}
    }
    active
}

fn gather_tag(
    tag: &Json,
    focused: bool,
    active: &IdSet,
    output: &mut PerOutputState,
    all: &mut WorkspaceSnapshot,
    max_tag: &mut u32,
)
    ensures
        (Gathered { output: final(output)@, all: final(all)@, max_tag: *final(max_tag) }) == with_tag(
            (Gathered { output: old(output)@, all: old(all)@, max_tag: *old(max_tag) }),
            focused,
            active@,
            tag@,
        ),
{
    let index = match tag.get_i64("index") {
        Some(i) => i,
        None => {
            return;
        }
    };
    let id: i32 = to_number(index);
    if id > 0 && id as u32 > *max_tag {
        *max_tag = id as u32;
    }
    let is_active = if active.is_empty() { tag.has_flag("is_active") } else { active.contains(&id) };
    let is_urgent = tag.has_flag("is_urgent");
    let n: u32 = count_clients(tag);
    if !active.contains(&OVERVIEW_WORKSPACE_ID) {
        output.window_counts.insert(id, n);
        if n > 0 {
            output.occupied_workspaces.insert(id);
            let known: u32 = match all.window_counts.get(&id) {
                Some(k) => *k,
                None => 0,
            };
            all.window_counts.insert(id, known.wrapping_add(n));
            all.occupied_workspaces.insert(id);
        }
        if is_active {
            output.active_workspace.insert(id);
            if focused {
                all.active_workspace.insert(id);
            }
        }
    }
    if is_urgent {
        all.urgent_workspaces.insert(id);
        match &mut output.urgent_workspaces {
            Some(urgent) => {
                urgent.insert(id);
            }
            None => {}
        }
    }
}

fn gather_monitor(
    monitor: &Json,
    all: &mut WorkspaceSnapshot,
    geometry: &mut Table<String, (i64, i64)>,
    max_tag: &mut u32,
)
    ensures
        (Collected { all: final(all)@, geometry: final(geometry)@, max_tag: *final(max_tag) }) == with_monitor(
            (Collected { all: old(all)@, geometry: old(geometry)@, max_tag: *old(max_tag) }),
            monitor@,
        ),
{
    let name = match monitor.get_str("name") {
        Some(n) => n,
        None => {
            return;
        }
    };
    match (monitor.get_i64("x"), monitor.get_i64("y")) {
        (Some(x), Some(y)) => geometry.insert(name.to_string(), (x, y)),
        _ => {}
    }
    let focused = monitor.has_flag("active");
    let ghost known = all@;
    let mut output = match all.per_output.remove_named(name) {
        Some(state) => state,
        None => PerOutputState::default(),
    };
    proof {
        assert(all@.per_output =~= known.per_output.remove(name@));
    }
    output.urgent_workspaces = Some(IdSet::new());
    match monitor.get_array("tags") {
        Some(tags) => {
            let active = read_active_tags(monitor);
            let ghost whole = trees(tags@);
            let ghost start = Gathered { output: output@, all: known, max_tag: *max_tag };
            let ghost outputs = all@.per_output;
            let mut i: usize = 0;
            proof {
                assert(whole.take(0) =~= Seq::empty());
            }
            while i < tags.len()
                invariant
                    i <= tags@.len(),
                    whole == trees(tags@),
                    all@.per_output == outputs,
                    (Gathered {
                        output: output@,
                        all: WorkspaceView { per_output: known.per_output, ..all@ },
                        max_tag: *max_tag,
                    }) == with_tags(start, focused, active@, whole.take(i as int)),
                decreases tags@.len() - i,
            {
                gather_tag(&tags[i], focused, &active, &mut output, all, max_tag);
                proof {
                    assert(whole.take(i + 1).drop_last() =~= whole.take(i as int));
                    assert(whole.take(i + 1).last() == tags@[i as int]@);
                }
                i += 1;
            }
            proof {
                assert(whole.take(i as int) =~= whole);
            }
            if active.contains(&OVERVIEW_WORKSPACE_ID) {
                output.active_workspace.insert(OVERVIEW_WORKSPACE_ID);
                if focused {
                    all.active_workspace.insert(OVERVIEW_WORKSPACE_ID);
                }
            }
        }
        None => {}
    }
    let ghost rest = all@.per_output;
    let ghost done = output@;
    all.per_output.insert(name.to_string(), output);
    proof {
        assert(all@.per_output =~= rest.insert(name@, done));
        assert(all@.per_output =~= known.per_output.insert(name@, done));
    }
}

/// What an update changed.
#[derive(Clone, Copy, Debug, PartialEq, Eq, Structural)]
pub struct MonitorChanges {
    pub workspace: bool,
    pub focused_window: bool,
    pub window_list: bool,
    pub keyboard_layout: bool,
}

/// Takes the workspaces of an `all-monitors` document over and tells whether they changed.
pub fn apply_workspace_from_monitors(shared: &mut MangoSharedState, value: &Json) -> (changed: bool)
    ensures
        final(shared)@ == with_monitors(old(shared)@, value@),
        changed == workspaces_differ(old(shared)@, final(shared)@),
{
    let monitors = match value.get_array("monitors") {
        Some(m) => m,
        None => {
            return false;
        }
    };
    let mut all = WorkspaceSnapshot::default();
    let mut geometry: Table<String, (i64, i64)> = Table::new();
    let mut max_tag: u32 = 0;
    let ghost whole = trees(monitors@);
    let mut i: usize = 0;
    proof {
        assert(whole.take(0) =~= Seq::empty());
    }
    while i < monitors.len()
        invariant
            i <= monitors@.len(),
            whole == trees(monitors@),
            (Collected { all: all@, geometry: geometry@, max_tag }) == collected(whole.take(i as int)),
        decreases monitors@.len() - i,
    {
        gather_monitor(&monitors[i], &mut all, &mut geometry, &mut max_tag);
        proof {
            assert(whole.take(i + 1).drop_last() =~= whole.take(i as int));
            assert(whole.take(i + 1).last() == monitors@[i as int]@);
        }
        i += 1;
    }
    proof {
        assert(whole.take(i as int) =~= whole);
    }
    let mut tags_changed = false;
    if max_tag > 0 {
        tags_changed = shared.tag_count != max_tag;
        shared.tag_count = max_tag;
    }
    if !geometry.is_empty() {
        shared.output_geometry = geometry;
    }
    if shared.snapshot.equals(&all) {
        tags_changed
    } else {
        shared.snapshot = all;
        true
    }
}

/// The first of some monitors that is active.
pub open spec fn first_active(monitors: Seq<Tree>) -> Option<Tree>
    decreases monitors.len(),
{
    if monitors.len() == 0 {
        None
    } else if monitors[0].flag("active"@) {
        Some(monitors[0])
    } else {
        first_active(monitors.drop_first())
    }
}

/// The active monitor of a document.
pub open spec fn active(document: Tree) -> Option<Tree> {
    match document.array("monitors"@) {
        Some(monitors) => first_active(monitors),
        None => None,
    }
}

fn active_monitor(value: &Json) -> (monitor: Option<&Json>)
    ensures
        match monitor {
            Some(m) => active(value@) == Some(m@),
            None => active(value@) is None,
        },
{
    let monitors = match value.get_array("monitors") {
        Some(m) => m,
        None => {
            return None;
        }
    };
    let ghost whole = trees(monitors@);
    let mut i: usize = 0;
    proof {
        assert(whole.skip(0) =~= whole);
    }
    while i < monitors.len()
        invariant
            i <= monitors@.len(),
            whole == trees(monitors@),
            value@.array("monitors"@) == Some(whole),
            first_active(whole) == first_active(whole.skip(i as int)),
        decreases monitors@.len() - i,
    {
        proof {
            assert(whole.skip(i as int)[0] == monitors@[i as int]@);
            assert(whole.skip(i as int).drop_first() =~= whole.skip(i + 1));
        }
        if monitors[i].has_flag("active") {
            return Some(&monitors[i]);
        }
        i += 1;
    }
    None
}

/// The text under a key, empty where there is none.
pub open spec fn text_or_empty(t: Tree, key: Seq<char>) -> Seq<char> {
    match t.str(key) {
        Some(s) => s,
        None => Seq::empty(),
    }
}

pub(crate) fn read_text(value: &Json, key: &str) -> (s: String)
    ensures
        s@ == text_or_empty(value@, key@),
{
    match value.get_str(key) {
        Some(t) => t.to_string(),
        None => String::new(),
    }
}

/// The focus that a document tells.
pub struct Focus {
    pub id: Option<u64>,
    pub info: WindowInfoView,
}

/// The focus that a document tells: the client of its active monitor, if that monitor has a
/// name and tells its client.
pub open spec fn focus(document: Tree) -> Option<Focus> {
    match active(document) {
        Some(monitor) => match (monitor.str("name"@), monitor.get("active_client"@)) {
            (Some(output), Some(client)) => Some(
                Focus {
                    id: client.u64("id"@),
                    info: WindowInfoView {
                        title: text_or_empty(client, "title"@),
                        app_id: text_or_empty(client, "appid"@),
                        output: Some(output),
                    },
                },
            ),
            _ => None,
        },
        None => None,
    }
}

/// The backend after the focus of a document.
pub open spec fn with_focus(s: MangoView, document: Tree) -> MangoView {
    match focus(document) {
        Some(f) => MangoView { focused_window: Some(f.info), focused_client_id: f.id, ..s },
        None => s,
    }
}

/// Whether the focus of two states differs.
pub open spec fn focus_differs(a: MangoView, b: MangoView) -> bool {
    a.focused_client_id != b.focused_client_id || a.focused_window != b.focused_window
}

/// Takes the focused window of an `all-monitors` document over and tells whether it changed.
pub fn apply_focused_window_from_monitors(shared: &mut MangoSharedState, value: &Json) -> (changed: bool)
    ensures
        final(shared)@ == with_focus(old(shared)@, value@),
        changed == focus_differs(old(shared)@, final(shared)@),
{
    let monitor = match active_monitor(value) {
        Some(m) => m,
        None => {
            return false;
        }
    };
    match (monitor.get_str("name"), monitor.get("active_client")) {
        (Some(output), Some(client)) => {
            let id = client.get_u64("id");
            let info = WindowInfo {
                title: read_text(client, "title"),
                app_id: read_text(client, "appid"),
                output: Some(output.to_string()),
            };
            let same_window = match &shared.focused_window {
                Some(known) => known.equals(&info),
                None => false,
            };
            let changed = shared.focused_client_id != id || !same_window;
            shared.focused_client_id = id;
            shared.focused_window = Some(info);
            changed
        }
        _ => false,
    }
}

/// The keyboard layout that a document tells.
pub open spec fn layout(document: Tree) -> Option<Seq<char>> {
    match active(document) {
        Some(monitor) => monitor.str("keyboardlayout"@),
        None => None,
    }
}

/// The backend after the keyboard layout of a document.
pub open spec fn with_layout(s: MangoView, document: Tree) -> MangoView {
    match layout(document) {
        Some(name) => MangoView { layout: Some(LayoutView { name, count: None }), ..s },
        None => s,
    }
}

/// Takes the keyboard layout of an `all-monitors` document over and tells whether it changed.
pub fn apply_keyboard_layout_from_monitors(shared: &mut MangoSharedState, value: &Json) -> (changed: bool)
    ensures
        final(shared)@ == with_layout(old(shared)@, value@),
        changed == (old(shared)@.layout != final(shared)@.layout),
{
    let monitor = match active_monitor(value) {
        Some(m) => m,
        None => {
            return false;
        }
    };
    match monitor.get_str("keyboardlayout") {
        Some(name) => {
            let same = match &shared.keyboard_layout {
                Some(known) => text::str_eq(known.layout_name.as_str(), name) && known.layout_count.is_none(),
                None => false,
            };
            if same {
                false
            } else {
                shared.keyboard_layout = Some(KeyboardLayoutInfo { layout_name: name.to_string(), layout_count: None });
                true
            }
        }
        None => false,
    }
}

/// A window after the focus went to `focused`.
pub open spec fn refocused(w: WindowView, focused: Option<u64>) -> WindowView {
    WindowView { is_focused: focused == Some(w.id), ..w }
}

/// The windows after the focus went to `focused`.
pub open spec fn all_refocused(windows: Seq<WindowView>, focused: Option<u64>) -> Seq<WindowView> {
    windows.map_values(|w: WindowView| refocused(w, focused))
}

/// Marks the focused window in the list and tells whether a mark changed.
pub fn apply_window_list_focus(shared: &mut MangoSharedState, focused_id: Option<u64>) -> (changed: bool)
    ensures
        final(shared)@ == (MangoView { windows: all_refocused(old(shared)@.windows, focused_id), ..old(shared)@ }),
        changed == (old(shared)@.windows != final(shared)@.windows),
{
    let ghost before = shared@;
    let ghost windows = shared.windows@;
    let mut changed = false;
    let mut i: usize = 0;
    while i < shared.windows.len()
        invariant
            i <= shared.windows@.len(),
            shared.windows@.len() == windows.len(),
            before.windows == window_views(windows),
            shared@ == (MangoView { windows: shared@.windows, ..before }),
            forall|j: int| 0 <= j < i ==> (#[trigger] shared.windows@[j])@ == refocused(windows[j]@, focused_id),
            forall|j: int| i <= j < windows.len() ==> #[trigger] shared.windows@[j] == windows[j],
            changed == exists|j: int| 0 <= j < i && (#[trigger] windows[j])@ != refocused(windows[j]@, focused_id),
        decreases windows.len() - i,
    {
        let ghost held = changed;
        let mut window = shared.windows[i].clone();
        let is_focused = match focused_id {
            Some(id) => id == window.id,
            None => false,
        };
        changed = changed || window.is_focused != is_focused;
        window.is_focused = is_focused;
        shared.windows.set(i, window);
        proof {
            assert(shared.windows@[i as int]@ == refocused(windows[i as int]@, focused_id));
            if changed && !held {
                assert(windows[i as int]@ != refocused(windows[i as int]@, focused_id));
            }
            if held {
                let j = choose|j: int| 0 <= j < i && (#[trigger] windows[j])@ != refocused(windows[j]@, focused_id);
                assert(0 <= j < i + 1);
            }
        }
        i += 1;
    }
    proof {
        let wanted = all_refocused(before.windows, focused_id);
        assert(shared@.windows =~= wanted);
        if changed {
            let j = choose|j: int| 0 <= j < i && (#[trigger] windows[j])@ != refocused(windows[j]@, focused_id);
            assert(before.windows[j] != wanted[j]);
        } else {
            assert(before.windows =~= wanted);
        }
    }
    changed
}

/// The backend after an `all-monitors` update.
pub open spec fn updated(s: MangoView, document: Tree) -> MangoView {
    let a = with_monitors(s, document);
    let b = with_focus(a, document);
    let c = if focus_differs(a, b) {
        MangoView { windows: all_refocused(b.windows, b.focused_client_id), ..b }
    } else {
        b
    };
    with_layout(c, document)
}

/// Takes an `all-monitors` update over and tells what changed. The window list counts as
/// changed with the workspaces.
pub fn apply_monitor_update(shared: &mut MangoSharedState, value: &Json) -> (changes: MonitorChanges)
    ensures
        final(shared)@ == updated(old(shared)@, value@),
        changes.workspace == workspaces_differ(old(shared)@, final(shared)@),
        changes.focused_window == focus_differs(old(shared)@, final(shared)@),
        changes.window_list == (changes.workspace || old(shared)@.windows != final(shared)@.windows),
        changes.keyboard_layout == (old(shared)@.layout != final(shared)@.layout),
{
    let workspace = apply_workspace_from_monitors(shared, value);
    let focused_window = apply_focused_window_from_monitors(shared, value);
    let mut window_list = workspace;
    if focused_window {
        let focused_id = shared.focused_client_id;
        if apply_window_list_focus(shared, focused_id) {
            window_list = true;
        }
    }
    let keyboard_layout = apply_keyboard_layout_from_monitors(shared, value);
    MonitorChanges { workspace, focused_window, window_list, keyboard_layout }
}

/// An update that has just been taken over changes nothing.
pub proof fn update_is_idempotent(s: MangoView, document: Tree)
    ensures
        updated(updated(s, document), document) == updated(s, document),
{
}

/// Whether a workspace is shown on the focused output or on any other.
pub open spec fn overview_shown(all: WorkspaceView) -> bool {
    ||| all.active.contains(OVERVIEW_WORKSPACE_ID)
    ||| exists|name: Seq<char>| #[trigger]
        all.per_output.dom().contains(name) && all.per_output[name].active.contains(OVERVIEW_WORKSPACE_ID)
}

/// What a [`WorkspaceMeta`] holds.
pub struct MetaView {
    pub id: i32,
    pub idx: i32,
    pub name: Seq<char>,
    pub output: Option<Seq<char>>,
}

impl View for WorkspaceMeta {
    type V = MetaView;

    open spec fn view(&self) -> MetaView {
        MetaView { id: self.id, idx: self.idx, name: self.name@, output: chars_of(self.output) }
    }
}

/// What the entries of a list hold.
pub open spec fn metas(list: Seq<WorkspaceMeta>) -> Seq<MetaView> {
    list.map_values(|m: WorkspaceMeta| m@)
}

/// The tag with a positive number.
pub open spec fn tag_meta(id: int) -> MetaView {
    MetaView { id: id as i32, idx: id as i32, name: digits(id as nat), output: None }
}

/// The overview as a workspace.
pub open spec fn overview_meta() -> MetaView {
    MetaView { id: OVERVIEW_WORKSPACE_ID, idx: OVERVIEW_WORKSPACE_ID, name: OVERVIEW_WORKSPACE_NAME@, output: None }
}

/// The tags from 1 on, read as a signed number, and the overview where it is shown.
pub open spec fn listed(count: u32, all: WorkspaceView) -> Seq<MetaView> {
    let n = count as i32;
    let tags = Seq::new(if n > 0 { n as nat } else { 0 }, |i: int| tag_meta(i + 1));
    if overview_shown(all) {
        tags.push(overview_meta())
    } else {
        tags
    }
}

fn shows_overview(snapshot: &WorkspaceSnapshot) -> (yes: bool)
    ensures
        yes == overview_shown(snapshot@),
{
    let entries = snapshot.per_output.entries();
    proof {
        lemma_as_map(entries@);
    }
    let mut i: usize = 0;
    while i < entries.len()
        invariant
            i <= entries@.len(),
            entries@ == snapshot.per_output.pairs(),
            snapshot.per_output@ == as_map(entries@),
            forall|j: int|
                0 <= j < entries@.len() ==> as_map(entries@).dom().contains((#[trigger] entries@[j]).0@)
                    && as_map(entries@)[entries@[j].0@] == entries@[j].1,
            forall|j: int| 0 <= j < i ==> !(#[trigger] entries@[j]).1@.active.contains(OVERVIEW_WORKSPACE_ID),
        decreases entries@.len() - i,
    {
        if entries[i].1.active_workspace.contains(&OVERVIEW_WORKSPACE_ID) {
            proof {
                let name = entries@[i as int].0@;
                assert(snapshot@.per_output.dom().contains(name));
            }
            return true;
        }
        i += 1;
    }
    let yes = snapshot.active_workspace.contains(&OVERVIEW_WORKSPACE_ID);
    proof {
        if overview_shown(snapshot@) && !yes {
            let name = choose|name: Seq<char>| #[trigger]
                snapshot@.per_output.dom().contains(name) && snapshot@.per_output[name].active.contains(
                    OVERVIEW_WORKSPACE_ID,
                );
            assert(as_map(entries@).dom().contains(name));
        }
    }
    yes
}

/// The workspaces that can be listed.
pub fn mango_workspace_meta(count: u32, snapshot: &WorkspaceSnapshot) -> (workspaces: Vec<WorkspaceMeta>)
    ensures
        metas(workspaces@) == listed(count, snapshot@),
{
    let n: i32 = #[verifier::truncate]
    (count as i32);
    let mut workspaces: Vec<WorkspaceMeta> = Vec::new();
    let last: u64 = if n > 0 { n as u64 } else { 0 };
    let mut id: u64 = 0;
    while id < last
        invariant
            id <= last <= i32::MAX,
            workspaces@.len() == id,
            forall|j: int| 0 <= j < id ==> (#[trigger] workspaces@[j])@ == tag_meta(j + 1),
        decreases last - id,
    {
        id += 1;
        workspaces.push(WorkspaceMeta { id: id as i32, idx: id as i32, name: text::decimal(id), output: None });
    }
    if shows_overview(snapshot) {
        workspaces.push(
            WorkspaceMeta {
                id: OVERVIEW_WORKSPACE_ID,
                idx: OVERVIEW_WORKSPACE_ID,
                name: OVERVIEW_WORKSPACE_NAME.to_string(),
                output: None,
            },
        );
    }
    proof {
        assert(metas(workspaces@) =~= listed(count, snapshot@));
    }
    workspaces
}

} // verus!
