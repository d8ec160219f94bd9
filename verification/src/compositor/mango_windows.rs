//! Mango: the window list from its `all-clients` documents.

use vstd::prelude::*;
use vstd::string::*;
use crate::compositor::mango::{number, read_text, text_or_empty, to_number, MangoSharedState, MangoView};
use crate::compositor::{same_windows, window_views, Window, WindowView};
use crate::json::{trees, Json, Tree};
use crate::order::{self, ranked, Order, Ranked};
use crate::table::Table;
use crate::text::{self, chars_before, chars_of};

verus! {

/// Whether a client is a scratchpad, shown or not.
pub open spec fn scratchpad(client: Tree) -> bool {
    client.flag("is_scratchpad"@) || client.flag("is_namedscratchpad"@)
}

fn is_scratchpad_client(client: &Json) -> (yes: bool)
    ensures
        yes == scratchpad(client@),
{
    client.has_flag("is_scratchpad") || client.has_flag("is_namedscratchpad")
}

/// Whether a client is a scratchpad that is put away: it has no tags.
pub open spec fn dismissed(client: Tree) -> bool {
    scratchpad(client) && !(client.array("tags"@) is Some && client.array("tags"@)->0.len() > 0)
}

fn is_dismissed_scratchpad(client: &Json) -> (yes: bool)
    ensures
        yes == dismissed(client@),
{
    if !is_scratchpad_client(client) {
        return false;
    }
    match client.get_array("tags") {
        Some(tags) => tags.len() == 0,
        None => true,
    }
}

/// The first tag of a client.
pub open spec fn first_tag(client: Tree) -> Option<i32> {
    match client.array("tags"@) {
        Some(tags) => if tags.len() > 0 && tags[0].as_i64() is Some {
            Some(number(tags[0].as_i64()->0))
        } else {
            None
        },
        None => None,
    }
}

fn read_first_tag(client: &Json) -> (tag: Option<i32>)
    ensures
        tag == first_tag(client@),
{
    match client.get_array("tags") {
        Some(tags) => {
            if tags.len() == 0 {
                return None;
            }
            match tags[0].as_i64() {
                Some(id) => Some(to_number(id)),
                None => None,
            }
        }
        None => None,
    }
}

/// The window of a client with an id. Where the focus is known, it decides which window is
/// focused; otherwise the client's own mark does.
pub open spec fn window_of(client: Tree, focused: Option<u64>, known: bool) -> Option<WindowView> {
    match client.u64("id"@) {
        Some(id) => Some(
            WindowView {
                id,
                title: text_or_empty(client, "title"@),
                app_id: text_or_empty(client, "appid"@),
                workspace_id: first_tag(client),
                output: client.str("monitor"@),
                is_focused: if known { focused == Some(id) } else { client.flag("is_focused"@) },
                is_urgent: client.flag("is_urgent"@),
                is_scratchpad: scratchpad(client),
            },
        ),
        None => None,
    }
}

fn client_value_to_window(value: &Json, focused: Option<u64>, known: bool) -> (window: Option<Window>)
    ensures
        match window {
            Some(w) => window_of(value@, focused, known) == Some(w@),
            None => window_of(value@, focused, known) is None,
        },
{
    let id = match value.get_u64("id") {
        Some(i) => i,
        None => {
            return None;
        }
    };
    let is_focused = if known {
        match focused {
            Some(f) => f == id,
            None => false,
        }
    } else {
        value.has_flag("is_focused")
    };
    let output = match value.get_str("monitor") {
        Some(name) => Some(name.to_string()),
        None => None,
    };
    Some(
        Window {
            id,
            title: read_text(value, "title"),
            app_id: read_text(value, "appid"),
            workspace_id: read_first_tag(value),
            output,
            is_focused,
            is_urgent: value.has_flag("is_urgent"),
            is_scratchpad: is_scratchpad_client(value),
        },
    )
}

/// The windows of some clients: neither swallowed clients nor dismissed scratchpads.
pub open spec fn windows_of(clients: Seq<Tree>, focused: Option<u64>, known: bool) -> Seq<WindowView>
    decreases clients.len(),
{
    if clients.len() == 0 {
        Seq::empty()
    } else {
        let before = windows_of(clients.drop_last(), focused, known);
        let client = clients.last();
        match window_of(client, focused, known) {
            Some(window) => if client.flag("is_swallowedby"@) || dismissed(client) {
                before
            } else {
                before.push(window)
            },
            None => before,
        }
    }
}

/// A window and the values that rank it.
pub struct Placed {
    pub window: WindowView,
    pub at: (i64, i64),
    pub output: Seq<char>,
    pub workspace: i32,
}

/// Where the output of a window is; windows on unknown outputs come last.
pub open spec fn placed(window: WindowView, geometry: Map<Seq<char>, (i64, i64)>) -> Placed {
    let output = match window.output {
        Some(name) => name,
        None => Seq::empty(),
    };
    Placed {
        window,
        at: if geometry.dom().contains(output) { geometry[output] } else { (i64::MAX, i64::MAX) },
        output,
        workspace: match window.workspace_id {
            Some(id) => id,
            None => i32::MAX,
        },
    }
}

/// By the place of the output, then by its name, then by workspace.
pub open spec fn stands_before(a: Placed, b: Placed) -> bool {
    if a.at.0 != b.at.0 {
        a.at.0 < b.at.0
    } else if a.at.1 != b.at.1 {
        a.at.1 < b.at.1
    } else if a.output != b.output {
        chars_before(a.output, b.output)
    } else {
        a.workspace < b.workspace
    }
}

impl Order for Placed {
    open spec fn before(self, other: Self) -> bool {
        stands_before(self, other)
    }

    proof fn before_is_asymmetric(a: Self, b: Self) {
        text::chars_before_is_asymmetric(a.output, b.output);
    }

    proof fn before_is_weak(a: Self, b: Self, c: Self) {
        text::chars_before_is_weak(a.output, b.output, c.output);
        text::chars_before_is_asymmetric(a.output, c.output);
        text::chars_before_is_total(a.output, b.output);
        text::chars_before_is_total(b.output, c.output);
    }
}

/// The windows as the task bar shows them.
pub open spec fn arranged(windows: Seq<WindowView>, geometry: Map<Seq<char>, (i64, i64)>) -> Seq<WindowView> {
    ranked(windows.map_values(|w: WindowView| placed(w, geometry))).map_values(|p: Placed| p.window)
}

/// A window with the values that rank it.
struct PlacedWindow {
    window: Window,
    at: (i64, i64),
    output: String,
    workspace: i32,
}

impl View for PlacedWindow {
    type V = Placed;

    closed spec fn view(&self) -> Placed {
        Placed { window: self.window@, at: self.at, output: self.output@, workspace: self.workspace }
    }
}

impl Order for PlacedWindow {
    closed spec fn before(self, other: Self) -> bool {
        stands_before(self@, other@)
    }

    proof fn before_is_asymmetric(a: Self, b: Self) {
        Placed::before_is_asymmetric(a@, b@);
    }

    proof fn before_is_weak(a: Self, b: Self, c: Self) {
        Placed::before_is_weak(a@, b@, c@);
    }
}

impl Ranked for PlacedWindow {
    fn is_before(&self, other: &Self) -> (yes: bool) {
        if self.at.0 != other.at.0 {
            self.at.0 < other.at.0
        } else if self.at.1 != other.at.1 {
            self.at.1 < other.at.1
        } else if self.output != other.output {
            text::str_before(self.output.as_str(), other.output.as_str())
        } else {
            self.workspace < other.workspace
        }
    }
}

/// The place of a window's output and the output's name.
pub fn window_output_sort_key(window: &Window, output_geometry: &Table<String, (i64, i64)>) -> (key: (
    i64,
    i64,
    String,
))
    ensures
        (key.0, key.1) == placed(window@, output_geometry@).at,
        key.2@ == placed(window@, output_geometry@).output,
{
    let output = match &window.output {
        Some(name) => name.clone(),
        None => String::new(),
    };
    match output_geometry.get(&output) {
        Some(at) => (at.0, at.1, output),
        None => (i64::MAX, i64::MAX, output),
    }
}

fn place(window: Window, geometry: &Table<String, (i64, i64)>) -> (entry: PlacedWindow)
    ensures
        entry@ == placed(window@, geometry@),
        entry.window == window,
{
    let (x, y, output) = window_output_sort_key(&window, geometry);
    let workspace: i32 = match window.workspace_id {
        Some(id) => id,
        None => i32::MAX,
    };
    PlacedWindow { window, at: (x, y), output, workspace }
}

fn arrange(entries: Vec<PlacedWindow>) -> (windows: Vec<Window>)
    ensures
        window_views(windows@) == ranked(entries@.map_values(|e: PlacedWindow| e@)).map_values(|p: Placed| p.window),
{
    let ghost input = entries@;
    let ghost f = |e: PlacedWindow| e@;
    let mut rest = order::stable_sort(entries);
    let ghost sorted = rest@;
    proof {
        order::ranked_commutes_with_map(input, f);
    }
    let mut reversed: Vec<Window> = Vec::new();
    while rest.len() > 0
        invariant
            rest@.len() + reversed@.len() == sorted.len(),
            rest@ == sorted.take(rest@.len() as int),
            forall|i: int|
                0 <= i < reversed@.len() ==> #[trigger] reversed@[i] == sorted[sorted.len() - 1 - i].window,
        decreases rest@.len(),
    {
        let ghost n = rest@.len();
        match rest.pop() {
            Some(entry) => {
                proof {
                    assert(entry == sorted[n - 1]);
                    assert(rest@ =~= sorted.take(n - 1));
                }
                reversed.push(entry.window);
            }
            None => {}
        }
    }
    let mut windows: Vec<Window> = Vec::new();
    while reversed.len() > 0
        invariant
            reversed@.len() + windows@.len() == sorted.len(),
            forall|i: int|
                0 <= i < reversed@.len() ==> #[trigger] reversed@[i] == sorted[sorted.len() - 1 - i].window,
            forall|i: int| 0 <= i < windows@.len() ==> #[trigger] windows@[i] == sorted[i].window,
        decreases reversed@.len(),
    {
        match reversed.pop() {
            Some(window) => windows.push(window),
            None => {}
        }
    }
    proof {
        let seen = ranked(input.map_values(f)).map_values(|p: Placed| p.window);
        assert forall|i: int| 0 <= i < sorted.len() implies window_views(windows@)[i] == seen[i] by {
            assert(ranked(input.map_values(f))[i] == sorted[i]@);
        }
        assert(window_views(windows@) =~= seen);
    }
    windows
}

/// The window list of a document.
pub open spec fn listed_windows(s: MangoView, document: Tree) -> Seq<WindowView> {
    match document.array("clients"@) {
        Some(clients) => arranged(windows_of(clients, s.focused_client_id, s.focused_window is Some), s.geometry),
        None => s.windows,
    }
}

proof fn lemma_windows_follow_focus(clients: Seq<Tree>, focused: Option<u64>)
    ensures
        forall|i: int|
            0 <= i < windows_of(clients, focused, true).len() ==> (#[trigger] windows_of(
                clients,
                focused,
                true,
            )[i]).is_focused == (focused == Some(windows_of(clients, focused, true)[i].id)),
    decreases clients.len(),
{
    if clients.len() > 0 {
        lemma_windows_follow_focus(clients.drop_last(), focused);
    }
}

/// Once a focus is known, the windows that a document lists as focused are those with the
/// focused id, whatever the clients say of themselves.
pub proof fn known_focus_decides(s: MangoView, document: Tree, i: int)
    requires
        s.focused_window is Some,
        document.array("clients"@) is Some,
        0 <= i < listed_windows(s, document).len(),
    ensures
        listed_windows(s, document)[i].is_focused == (s.focused_client_id == Some(listed_windows(s, document)[i].id)),
{
    let windows = windows_of(document.array("clients"@)->0, s.focused_client_id, true);
    let geometry = s.geometry;
    let entries = windows.map_values(|w: WindowView| placed(w, geometry));
    let entry = ranked(entries)[i];
    order::ranked_holds_the_same(entries, entry);
    assert(ranked(entries).contains(entry));
    let k = choose|k: int| 0 <= k < entries.len() && entries[k] == entry;
    lemma_windows_follow_focus(document.array("clients"@)->0, s.focused_client_id);
    assert(entry.window == windows[k]);
}

/// Takes the windows of an `all-clients` document over and tells whether the list changed.
/// Once a focus is known it decides which window is focused: a client may keep its own mark
/// after the focus went to an empty workspace.
pub fn apply_window_list_from_clients(shared: &mut MangoSharedState, value: &Json) -> (changed: bool)
    ensures
        final(shared)@ == (MangoView { windows: listed_windows(old(shared)@, value@), ..old(shared)@ }),
        changed == (old(shared)@.windows != final(shared)@.windows),
{
    let clients = match value.get_array("clients") {
        Some(c) => c,
        None => {
            return false;
        }
    };
    let focused = shared.focused_client_id;
    let known = shared.focused_window.is_some();
    let ghost geometry = shared.output_geometry@;
    let ghost whole = trees(clients@);
    let ghost f = |w: WindowView| placed(w, geometry);
    let mut entries: Vec<PlacedWindow> = Vec::new();
    let mut i: usize = 0;
    proof {
        assert(whole.take(0) =~= Seq::empty());
        assert(entries@.map_values(|e: PlacedWindow| e@) =~= windows_of(whole.take(0), focused, known).map_values(f));
    }
    while i < clients.len()
        invariant
            i <= clients@.len(),
            whole == trees(clients@),
            geometry == shared.output_geometry@,
            f == (|w: WindowView| placed(w, geometry)),
            entries@.map_values(|e: PlacedWindow| e@) == windows_of(whole.take(i as int), focused, known).map_values(f),
        decreases clients@.len() - i,
    {
        let client = &clients[i];
        let ghost before = windows_of(whole.take(i as int), focused, known);
        let ghost listed = entries@;
        proof {
            assert(whole.take(i + 1).drop_last() =~= whole.take(i as int));
            assert(whole.take(i + 1).last() == client@);
        }
        if !client.has_flag("is_swallowedby") {
            match client_value_to_window(client, focused, known) {
                Some(window) => {
                    if !is_dismissed_scratchpad(client) {
                        let ghost w = window@;
                        entries.push(place(window, &shared.output_geometry));
                        proof {
                            assert(before.push(w).map_values(f) =~= before.map_values(f).push(placed(w, geometry)));
                            assert(entries@.map_values(|e: PlacedWindow| e@) =~= listed.map_values(
                                |e: PlacedWindow| e@,
                            ).push(placed(w, geometry)));
                        }
                    }
                }
                None => {}
            }
        }
        i += 1;
    }
    proof {
        assert(whole.take(i as int) =~= whole);
    }
    let windows = arrange(entries);
    if same_windows(&shared.windows, &windows) {
        false
    } else {
        shared.windows = windows;
        true
    }
}

} // verus!
