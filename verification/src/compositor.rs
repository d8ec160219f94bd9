//! What the panel knows of the compositor: workspaces, windows, layouts and window scenes.

pub mod figures;
pub mod layout_names;
pub mod mango;
pub mod mango_backend;
pub mod mango_laws;
pub mod mango_layouts;
pub mod mango_windows;
pub mod projection;
pub mod reader;
pub mod scene_laws;
pub mod scenes;
pub mod sway_laws;
pub mod visibility;

use std::collections::HashMap;
use vstd::prelude::*;
use crate::hashed::IdSet;
use crate::table::{Comparable, Table};
use crate::text::{self, chars_of};

verus! {

/// Workspaces of one output.
#[derive(Debug)]
pub struct PerOutputState {
    pub active_workspace: IdSet,
    pub occupied_workspaces: IdSet,
    /// Urgent workspaces, where the compositor tells them per output.
    pub urgent_workspaces: Option<IdSet>,
    pub window_counts: HashMap<i32, u32>,
}

/// What a [`PerOutputState`] holds.
pub struct OutputView {
    pub active: Set<i32>,
    pub occupied: Set<i32>,
    pub urgent: Option<Set<i32>>,
    pub counts: Map<i32, u32>,
}

impl OutputView {
    pub open spec fn empty() -> OutputView {
        OutputView { active: Set::empty(), occupied: Set::empty(), urgent: None, counts: Map::empty() }
    }
}

/// What an optional set holds.
pub open spec fn set_of(set: Option<IdSet>) -> Option<Set<i32>> {
    match set {
        Some(s) => Some(s@),
        None => None,
    }
}

impl View for PerOutputState {
    type V = OutputView;

    open spec fn view(&self) -> OutputView {
        OutputView {
            active: self.active_workspace@,
            occupied: self.occupied_workspaces@,
            urgent: set_of(self.urgent_workspaces),
            counts: self.window_counts@,
        }
    }
}

impl Default for PerOutputState {
    fn default() -> (state: Self)
        ensures
            state@ == OutputView::empty(),
    {
        PerOutputState {
            active_workspace: IdSet::new(),
            occupied_workspaces: IdSet::new(),
            urgent_workspaces: None,
            window_counts: HashMap::new(),
        }
    }
}

impl Comparable for PerOutputState {
    type Meaning = OutputView;

    open spec fn meaning(self) -> OutputView {
        self@
    }

    fn equals(&self, other: &Self) -> (yes: bool) {
        let urgent = match (&self.urgent_workspaces, &other.urgent_workspaces) {
            (Some(a), Some(b)) => a.equals(b),
            (None, None) => true,
            _ => false,
        };
        self.active_workspace.equals(&other.active_workspace) && self.occupied_workspaces.equals(
            &other.occupied_workspaces,
        ) && urgent && self.window_counts.equals(&other.window_counts)
    }
}

/// Workspaces of all outputs.
#[derive(Debug)]
pub struct WorkspaceSnapshot {
    /// Active workspaces of the focused output.
    pub active_workspace: IdSet,
    pub occupied_workspaces: IdSet,
    pub urgent_workspaces: IdSet,
    /// Windows on each occupied workspace, all outputs together.
    pub window_counts: HashMap<i32, u32>,
    pub per_output: Table<String, PerOutputState>,
}

/// What a [`WorkspaceSnapshot`] holds.
pub struct WorkspaceView {
    pub active: Set<i32>,
    pub occupied: Set<i32>,
    pub urgent: Set<i32>,
    pub counts: Map<i32, u32>,
    pub per_output: Map<Seq<char>, OutputView>,
}

impl WorkspaceView {
    pub open spec fn empty() -> WorkspaceView {
        WorkspaceView {
            active: Set::empty(),
            occupied: Set::empty(),
            urgent: Set::empty(),
            counts: Map::empty(),
            per_output: Map::empty(),
        }
    }
}

impl View for WorkspaceSnapshot {
    type V = WorkspaceView;

    open spec fn view(&self) -> WorkspaceView {
        WorkspaceView {
            active: self.active_workspace@,
            occupied: self.occupied_workspaces@,
            urgent: self.urgent_workspaces@,
            counts: self.window_counts@,
            per_output: self.per_output.meanings(),
        }
    }
}

impl Default for WorkspaceSnapshot {
    fn default() -> (snapshot: Self)
        ensures
            snapshot@ == WorkspaceView::empty(),
    {
        let snapshot = WorkspaceSnapshot {
            active_workspace: IdSet::new(),
            occupied_workspaces: IdSet::new(),
            urgent_workspaces: IdSet::new(),
            window_counts: HashMap::new(),
            per_output: Table::new(),
        };
        proof {
            assert(snapshot@.per_output =~= Map::empty());
        }
        snapshot
    }
}

impl Comparable for WorkspaceSnapshot {
    type Meaning = WorkspaceView;

    open spec fn meaning(self) -> WorkspaceView {
        self@
    }

    fn equals(&self, other: &Self) -> (yes: bool) {
        self.active_workspace.equals(&other.active_workspace) && self.occupied_workspaces.equals(
            &other.occupied_workspaces,
        ) && self.urgent_workspaces.equals(&other.urgent_workspaces) && self.window_counts.equals(&other.window_counts)
            && self.per_output.equals(&other.per_output)
    }
}

/// The focused window.
#[derive(Debug)]
pub struct WindowInfo {
    pub title: String,
    pub app_id: String,
    pub output: Option<String>,
}

/// What a [`WindowInfo`] holds.
pub struct WindowInfoView {
    pub title: Seq<char>,
    pub app_id: Seq<char>,
    pub output: Option<Seq<char>>,
}

impl View for WindowInfo {
    type V = WindowInfoView;

    open spec fn view(&self) -> WindowInfoView {
        WindowInfoView { title: self.title@, app_id: self.app_id@, output: chars_of(self.output) }
    }
}

impl Clone for WindowInfo {
    fn clone(&self) -> (copy: Self)
        ensures
            copy == *self,
    {
        WindowInfo { title: self.title.clone(), app_id: self.app_id.clone(), output: self.output.clone() }
    }
}

impl Comparable for WindowInfo {
    type Meaning = WindowInfoView;

    open spec fn meaning(self) -> WindowInfoView {
        self@
    }

    fn equals(&self, other: &Self) -> (yes: bool) {
        self.title == other.title && self.app_id == other.app_id && text::opt_eq(&self.output, &other.output)
    }
}

/// A window of the task bar.
#[derive(Debug)]
pub struct Window {
    pub id: u64,
    pub title: String,
    pub app_id: String,
    pub workspace_id: Option<i32>,
    pub output: Option<String>,
    pub is_focused: bool,
    pub is_urgent: bool,
    pub is_scratchpad: bool,
}

/// What a [`Window`] holds.
pub struct WindowView {
    pub id: u64,
    pub title: Seq<char>,
    pub app_id: Seq<char>,
    pub workspace_id: Option<i32>,
    pub output: Option<Seq<char>>,
    pub is_focused: bool,
    pub is_urgent: bool,
    pub is_scratchpad: bool,
}

impl View for Window {
    type V = WindowView;

    open spec fn view(&self) -> WindowView {
        WindowView {
            id: self.id,
            title: self.title@,
            app_id: self.app_id@,
            workspace_id: self.workspace_id,
            output: chars_of(self.output),
            is_focused: self.is_focused,
            is_urgent: self.is_urgent,
            is_scratchpad: self.is_scratchpad,
        }
    }
}

impl Clone for Window {
    fn clone(&self) -> (copy: Self)
        ensures
            copy == *self,
    {
        Window {
            id: self.id,
            title: self.title.clone(),
            app_id: self.app_id.clone(),
            workspace_id: self.workspace_id,
            output: self.output.clone(),
            is_focused: self.is_focused,
            is_urgent: self.is_urgent,
            is_scratchpad: self.is_scratchpad,
        }
    }
}

impl Comparable for Window {
    type Meaning = WindowView;

    open spec fn meaning(self) -> WindowView {
        self@
    }

    fn equals(&self, other: &Self) -> (yes: bool) {
        self.id == other.id && self.title == other.title && self.app_id == other.app_id && self.workspace_id
            == other.workspace_id && text::opt_eq(&self.output, &other.output) && self.is_focused == other.is_focused
            && self.is_urgent == other.is_urgent && self.is_scratchpad == other.is_scratchpad
    }
}

/// What the windows of a list hold.
pub open spec fn window_views(windows: Seq<Window>) -> Seq<WindowView> {
    windows.map_values(|w: Window| w@)
}

/// Whether two lists of windows hold the same.
pub fn same_windows(a: &Vec<Window>, b: &Vec<Window>) -> (yes: bool)
    ensures
        yes == (window_views(a@) == window_views(b@)),
{
    if a.len() != b.len() {
        proof {
            assert(window_views(a@).len() != window_views(b@).len());
        }
        return false;
    }
    let mut i: usize = 0;
    while i < a.len()
        invariant
            i <= a@.len(),
            a@.len() == b@.len(),
            forall|j: int| 0 <= j < i ==> a@[j]@ == b@[j]@,
        decreases a@.len() - i,
    {
        if !a[i].equals(&b[i]) {
            proof {
                assert(window_views(a@)[i as int] != window_views(b@)[i as int]);
            }
            return false;
        }
        i += 1;
    }
    proof {
        assert(window_views(a@) =~= window_views(b@));
    }
    true
}

/// The keyboard layout.
#[derive(Debug)]
pub struct KeyboardLayoutInfo {
    pub layout_name: String,
    /// How many layouts there are, where the compositor tells.
    pub layout_count: Option<u32>,
}

/// A workspace that can be listed.
#[derive(Debug)]
pub struct WorkspaceMeta {
    pub id: i32,
    pub idx: i32,
    pub name: String,
    pub output: Option<String>,
}

/// Each set of workspaces is told as itself.
pub proof fn workspaces_are_told_set_by_set(w: WorkspaceSnapshot)
    ensures
        w@.active == w.active_workspace@,
        w@.occupied == w.occupied_workspaces@,
        w@.urgent == w.urgent_workspaces@,
        w@.counts == w.window_counts@,
        w@.per_output == w.per_output.meanings(),
{
}

/// Each set of workspaces of an output is told as itself.
pub proof fn outputs_are_told_set_by_set(o: PerOutputState)
    ensures
        o@.active == o.active_workspace@,
        o@.occupied == o.occupied_workspaces@,
        o@.urgent == set_of(o.urgent_workspaces),
        o@.counts == o.window_counts@,
{
}

/// Each field of a window is told as itself.
pub proof fn windows_are_told_field_by_field(w: Window)
    ensures
        w@.id == w.id,
        w@.title == w.title@,
        w@.app_id == w.app_id@,
        w@.workspace_id == w.workspace_id,
        w@.output == chars_of(w.output),
        w@.is_focused == w.is_focused,
        w@.is_urgent == w.is_urgent,
        w@.is_scratchpad == w.is_scratchpad,
{
}

} // verus!
