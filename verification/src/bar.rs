//! The bar: where it is, and how its widgets are grouped.

use vstd::prelude::*;
use vstd::string::*;
use crate::config::options::{integer_of, OptionTree, ConfigOption};
use crate::paths::{join_path, joined_path};
use crate::table::Table;
use crate::text::{self, chars_of, views};

verus! {

/// The edge of the screen at which the bar is.
#[derive(Clone, Copy, Debug, PartialEq, Eq, Structural)]
pub enum BarPosition {
    Top,
    Bottom,
    Left,
    Right,
}

impl BarPosition {
    pub open spec fn vertical(self) -> bool {
        self == BarPosition::Left || self == BarPosition::Right
    }

    /// Whether the bar runs from top to bottom.
    pub fn is_vertical(self) -> (yes: bool)
        ensures
            yes == self.vertical(),
    {
        match self {
            BarPosition::Left | BarPosition::Right => true,
            BarPosition::Top | BarPosition::Bottom => false,
        }
    }

    /// Whether the bar runs from left to right.
    pub fn is_horizontal(self) -> (yes: bool)
        ensures
            yes == !self.vertical(),
    {
        !self.is_vertical()
    }
}

/// When the bar is shown.
#[derive(Clone, Copy, Debug, PartialEq, Eq, Structural)]
pub enum BarVisibility {
    Always,
    /// Only for the pointer.
    AutoHide,
    /// Unless windows are in the way.
    Intellihide,
}

/// The direction in which things follow each other.
#[derive(Clone, Copy, Debug, PartialEq, Eq, Structural)]
pub enum Orientation {
    Horizontal,
    Vertical,
}

/// The direction in which widgets follow each other: along the bar.
pub fn bar_flow_orientation_for(position: BarPosition) -> (orientation: Orientation)
    ensures
        orientation == if position.vertical() { Orientation::Vertical } else { Orientation::Horizontal },
{
    if position.is_vertical() {
        Orientation::Vertical
    } else {
        Orientation::Horizontal
    }
}

/// The direction in which the margin and the bar follow each other: across the bar.
pub fn shell_orientation_for(position: BarPosition) -> (orientation: Orientation)
    ensures
        orientation == if position.vertical() { Orientation::Horizontal } else { Orientation::Vertical },
{
    if position.is_vertical() {
        Orientation::Horizontal
    } else {
        Orientation::Vertical
    }
}

/// The width and height that the margin at the edge of the screen asks for; -1 leaves a side open.
pub fn screen_margin_spacer_size(position: BarPosition, margin: i32) -> (size: (i32, i32))
    ensures
        size == if position.vertical() { (margin, -1i32) } else { (-1i32, margin) },
{
    if position.is_vertical() {
        (margin, -1)
    } else {
        (-1, margin)
    }
}

/// Whether the margin at the edge of the screen comes before the bar.
pub fn screen_margin_spacer_precedes_bar(position: BarPosition) -> (yes: bool)
    ensures
        yes == (position == BarPosition::Top || position == BarPosition::Left),
{
    match position {
        BarPosition::Top | BarPosition::Left => true,
        BarPosition::Bottom | BarPosition::Right => false,
    }
}

/// Which popover a widget opens.
#[derive(Clone, Copy, Debug, PartialEq, Eq, Structural)]
pub enum PopoverKind {
    /// One that neighbouring widgets share.
    System,
    /// One of its own.
    Unmergeable,
}

/// What a widget means for grouping.
#[derive(Clone, Copy, Debug, PartialEq, Eq, Structural)]
pub enum MergeKind {
    Popover(PopoverKind),
    Spacer,
}

/// Neighbouring widgets that are one group, from `start` up to `end`.
#[derive(Clone, Copy, Debug, PartialEq, Eq, Structural)]
pub struct Run {
    pub kind: PopoverKind,
    pub start: usize,
    pub end: usize,
}

/// The groups after one more widget at the place `at`. A spacer joins the group before it; those
/// that come first join the first group.
pub open spec fn runs_with(runs: Seq<Run>, at: int, kind: MergeKind) -> Seq<Run> {
    let longer = Run { end: (at + 1) as usize, ..runs.last() };
    match kind {
        MergeKind::Spacer => if runs.len() > 0 {
            runs.drop_last().push(longer)
        } else {
            runs
        },
        MergeKind::Popover(k) => if runs.len() > 0 && runs.last().kind == k && k == PopoverKind::System {
            runs.drop_last().push(longer)
        } else {
            runs.push(
                Run { kind: k, start: if runs.len() > 0 { at as usize } else { 0 }, end: (at + 1) as usize },
            )
        },
    }
}

/// The groups of some widgets.
pub open spec fn runs_of(kinds: Seq<MergeKind>) -> Seq<Run>
    decreases kinds.len(),
{
    if kinds.len() == 0 {
        Seq::empty()
    } else {
        runs_with(runs_of(kinds.drop_last()), kinds.len() - 1, kinds.last())
    }
}

/// The groups of some widgets.
pub fn compute_merge_runs(kinds: &[MergeKind]) -> (runs: Vec<Run>)
    ensures
        runs@ == runs_of(kinds@),
{
    let mut runs: Vec<Run> = Vec::new();
    let mut i: usize = 0;
    proof {
        assert(kinds@.take(0) =~= Seq::empty());
    }
    while i < kinds.len()
        invariant
            i <= kinds@.len(),
            runs@ == runs_of(kinds@.take(i as int)),
        decreases kinds@.len() - i,
    {
        let ghost before = runs@;
        proof {
            assert(kinds@.take(i + 1).drop_last() =~= kinds@.take(i as int));
        }
        let joins = match kinds[i] {
            MergeKind::Spacer => true,
            MergeKind::Popover(k) => runs.len() > 0 && runs[runs.len() - 1].kind == k && k == PopoverKind::System,
        };
        if joins {
            if runs.len() > 0 {
                let last: usize = runs.len() - 1;
                let run = runs[last];
                runs.set(last, Run { kind: run.kind, start: run.start, end: i + 1 });
                proof {
                    assert(runs@ =~= before.drop_last().push(Run { end: (i + 1) as usize, ..before.last() }));
                }
            }
        } else {
            match kinds[i] {
                MergeKind::Popover(k) => {
                    let start: usize = if runs.len() > 0 { i } else { 0 };
                    runs.push(Run { kind: k, start, end: i + 1 });
                }
                MergeKind::Spacer => {}
            }
        }
        i += 1;
    }
    proof {
        assert(kinds@.take(i as int) =~= kinds@);
    }
    runs
}

/// Whether groups follow each other without a gap from the first of `n` widgets to the last.
pub open spec fn covers(runs: Seq<Run>, n: int) -> bool {
    &&& runs.len() > 0
    &&& runs[0].start == 0
    &&& runs.last().end == n
    &&& forall|i: int| 0 <= i < runs.len() ==> (#[trigger] runs[i]).start < runs[i].end
    &&& forall|i: int, j: int|
        #![trigger runs[i], runs[j]]
        0 <= i && j == i + 1 && j < runs.len() ==> runs[i].end == runs[j].start
}

/// Every widget is in exactly one group, spacers too; spacers alone form none.
pub proof fn runs_cover_all_widgets(kinds: Seq<MergeKind>)
    requires
        kinds.len() <= usize::MAX,
    ensures
        (exists|i: int| 0 <= i < kinds.len() && (#[trigger] kinds[i]) is Popover) ==> covers(
            runs_of(kinds),
            kinds.len() as int,
        ),
        (forall|i: int| 0 <= i < kinds.len() ==> (#[trigger] kinds[i]) is Spacer) ==> runs_of(kinds) == Seq::<
            Run,
        >::empty(),
    decreases kinds.len(),
{
    if kinds.len() > 0 {
        let before = kinds.drop_last();
        runs_cover_all_widgets(before);
        let runs = runs_of(before);
        if forall|i: int| 0 <= i < before.len() ==> (#[trigger] before[i]) is Spacer {
            assert(runs == Seq::<Run>::empty());
            if kinds.last() is Popover {
                assert(covers(runs_of(kinds), kinds.len() as int));
            } else {
                assert forall|i: int| 0 <= i < kinds.len() implies (#[trigger] kinds[i]) is Spacer by {
                    if i < before.len() {
                        assert(before[i] is Spacer);
                    }
                }
            }
        } else {
            let i = choose|i: int| 0 <= i < before.len() && !((#[trigger] before[i]) is Spacer);
            assert(before[i] is Popover);
            assert(covers(runs, before.len() as int));
            assert(kinds[i] is Popover);
            let after = runs_of(kinds);
            assert(covers(after, kinds.len() as int)) by {
                assert forall|a: int, b: int|
                    #![trigger after[a], after[b]]
                    0 <= a && b == a + 1 && b < after.len() implies after[a].end == after[b].start by {
                    if b < runs.len() {
                        assert(runs[a].end == runs[b].start);
                    }
                }
            }
        }
    }
}

/// Two widgets with popovers of their own are never in one group.
pub proof fn unmergeable_stays_alone(kinds: Seq<MergeKind>, r: int, i: int, j: int)
    requires
        kinds.len() <= usize::MAX,
        0 <= r < runs_of(kinds).len(),
        runs_of(kinds)[r].start <= i < j < runs_of(kinds)[r].end,
        j < kinds.len(),
        kinds[i] is Popover,
        kinds[j] is Popover,
    ensures
        kinds[i] == MergeKind::Popover(PopoverKind::System),
        kinds[j] == MergeKind::Popover(PopoverKind::System),
        runs_of(kinds)[r].kind == PopoverKind::System,
{
    lemma_kinds_within(kinds);
    assert(within_kind(kinds, runs_of(kinds)[r], i, j));
}

/// What holds of two places with popovers within one group.
spec fn within_kind(kinds: Seq<MergeKind>, run: Run, i: int, j: int) -> bool {
    run.start <= i < j < run.end && kinds[i] is Popover && kinds[j] is Popover ==> run.kind == PopoverKind::System
        && kinds[i] == MergeKind::Popover(PopoverKind::System) && kinds[j] == MergeKind::Popover(PopoverKind::System)
}

proof fn lemma_kinds_within(kinds: Seq<MergeKind>)
    requires
        kinds.len() <= usize::MAX,
    ensures
        forall|r: int, i: int, j: int|
            #![trigger within_kind(kinds, runs_of(kinds)[r], i, j)]
            0 <= r < runs_of(kinds).len() && j < kinds.len() ==> within_kind(kinds, runs_of(kinds)[r], i, j),
        forall|r: int, i: int|
            #![trigger runs_of(kinds)[r], kinds[i]]
            0 <= r < runs_of(kinds).len() && runs_of(kinds)[r].start <= i < runs_of(kinds)[r].end && i < kinds.len()
                && kinds[i] is Popover ==> kinds[i] == MergeKind::Popover(runs_of(kinds)[r].kind),
        forall|r: int| 0 <= r < runs_of(kinds).len() ==> (#[trigger] runs_of(kinds)[r]).end <= kinds.len(),
        runs_of(kinds).len() == 0 ==> forall|i: int| 0 <= i < kinds.len() ==> (#[trigger] kinds[i]) is Spacer,
    decreases kinds.len(),
{
    if kinds.len() > 0 {
        let before = kinds.drop_last();
        lemma_kinds_within(before);
        let runs = runs_of(before);
        let after = runs_of(kinds);
        let n = before.len() as int;
        assert forall|i: int| 0 <= i < n implies #[trigger] kinds[i] == before[i] by {}
        assert forall|r: int, i: int|
            #![trigger after[r], kinds[i]]
            0 <= r < after.len() && after[r].start <= i < after[r].end && i < kinds.len() && kinds[i] is Popover implies
            kinds[i] == MergeKind::Popover(after[r].kind) by {
            if i < n {
                assert(before[i] == kinds[i]);
                if r < runs.len() {
                    assert(runs[r].kind == after[r].kind);
                    assert(runs[r].start == after[r].start);
                    if i < runs[r].end {
                    } else {
                        assert(false) by {
                            lemma_last_ends(before);
                        }
                    }
                } else {
                    if runs.len() == 0 {
                        assert(before[i] is Spacer);
                    }
                }
            }
        }
        assert forall|r: int, i: int, j: int|
            #![trigger within_kind(kinds, after[r], i, j)]
            0 <= r < after.len() && j < kinds.len() implies within_kind(kinds, after[r], i, j) by {
            if after[r].start <= i < j < after[r].end && kinds[i] is Popover && kinds[j] is Popover {
                assert(kinds[i] == MergeKind::Popover(after[r].kind));
                assert(kinds[j] == MergeKind::Popover(after[r].kind));
                assert(before[i] == kinds[i]);
                if j < n {
                    assert(before[j] == kinds[j]);
                    if r < runs.len() {
                        assert(within_kind(before, runs[r], i, j));
                        if j >= runs[r].end {
                            lemma_last_ends(before);
                        }
                    } else if runs.len() == 0 {
                        assert(before[i] is Spacer);
                    }
                } else {
                    if r >= runs.len() {
                        if runs.len() == 0 {
                            assert(before[i] is Spacer);
                        }
                    }
                }
            }
        }
        if after.len() == 0 {
            assert forall|i: int| 0 <= i < kinds.len() implies (#[trigger] kinds[i]) is Spacer by {
                if i < n {
                    assert(before[i] is Spacer);
                }
            }
        }
    }
}

proof fn lemma_last_ends(kinds: Seq<MergeKind>)
    requires
        kinds.len() <= usize::MAX,
    ensures
        runs_of(kinds).len() > 0 ==> runs_of(kinds).last().end == kinds.len(),
    decreases kinds.len(),
{
    if kinds.len() > 0 {
        lemma_last_ends(kinds.drop_last());
    }
}

/// A path, unless it is in the list already.
pub open spec fn listed_once(list: Seq<Seq<char>>, path: Seq<char>) -> Seq<Seq<char>> {
    if list.contains(path) {
        list
    } else {
        list.push(path)
    }
}

/// Where the style sheet of the user may be: beside the configuration, in the configuration
/// directories of the user, and in the working directory. No place is listed twice.
pub open spec fn css_places(
    config_dir: Option<Seq<char>>,
    xdg_config_home: Option<Seq<char>>,
    home: Option<Seq<char>>,
) -> Seq<Seq<char>> {
    let a = match config_dir {
        Some(dir) => listed_once(Seq::empty(), joined_path(dir, "style.css"@)),
        None => Seq::empty(),
    };
    let b = match xdg_config_home {
        Some(dir) => listed_once(a, joined_path(dir, "vibepanel/style.css"@)),
        None => a,
    };
    let c = match home {
        Some(dir) => listed_once(b, joined_path(dir, ".config/vibepanel/style.css"@)),
        None => b,
    };
    listed_once(c, "style.css"@)
}

fn list_once(list: &mut Vec<String>, path: String)
    ensures
        views(final(list)@) == listed_once(views(old(list)@), path@),
{
    if !text::list_contains(list, path.as_str()) {
        let ghost before = views(list@);
        let ghost added = path@;
        list.push(path);
        proof {
            assert(views(list@) =~= before.push(added));
        }
    }
}

/// Where the style sheet of the user may be, most wanted first.
pub fn user_css_search_paths_from_env(
    config_dir: Option<&str>,
    xdg_config_home: Option<&str>,
    home: Option<&str>,
) -> (paths: Vec<String>)
    ensures
        views(paths@) == css_places(
            (match config_dir {
                Some(d) => Some(d@),
                None => None,
            }),
            (match xdg_config_home {
                Some(d) => Some(d@),
                None => None,
            }),
            (match home {
                Some(d) => Some(d@),
                None => None,
            }),
        ),
{
    let mut paths: Vec<String> = Vec::new();
    proof {
        assert(views(paths@) =~= Seq::empty());
    }
    match config_dir {
        Some(dir) => list_once(&mut paths, join_path(dir, "style.css")),
        None => {}
    }
    match xdg_config_home {
        Some(dir) => list_once(&mut paths, join_path(dir, "vibepanel/style.css")),
        None => {}
    }
    match home {
        Some(dir) => list_once(&mut paths, join_path(dir, ".config/vibepanel/style.css")),
        None => {}
    }
    list_once(&mut paths, "style.css".to_string());
    paths
}

/// The first of some places that exists.
pub fn find_user_css(paths: &Vec<String>, present: &Vec<bool>) -> (found: Option<String>)
    requires
        present@.len() == paths@.len(),
    ensures
        match found {
            Some(path) => exists|i: int|
                0 <= i < paths@.len() && #[trigger] present@[i] && paths@[i]@ == path@ && forall|j: int|
                    0 <= j < i ==> !present@[j],
            None => forall|i: int| 0 <= i < paths@.len() ==> !present@[i],
        },
{
    let mut i: usize = 0;
    while i < paths.len()
        invariant
            i <= paths@.len(),
            present@.len() == paths@.len(),
            forall|j: int| 0 <= j < i ==> !present@[j],
        decreases paths@.len() - i,
    {
        if present[i] {
            return Some(paths[i].clone());
        }
        i += 1;
    }
    None
}

/// Whether a widget has a width of its own: an integer above zero.
pub fn entry_has_fixed_width_option(options: &Table<String, ConfigOption>) -> (yes: bool)
    ensures
        yes == (options@.dom().contains("width"@) && integer_of(options@["width"@]@) is Some && integer_of(
            options@["width"@]@,
        )->0 > 0),
{
    match options.get_named("width") {
        Some(value) => match value.value().as_integer() {
            Some(n) => n > 0,
            None => false,
        },
        None => false,
    }
}

/// Neighbouring groups never both share a popover: they would be one.
pub proof fn shared_popovers_are_one_group(kinds: Seq<MergeKind>, r: int)
    requires
        0 <= r,
        r + 1 < runs_of(kinds).len(),
    ensures
        !(runs_of(kinds)[r].kind == PopoverKind::System && runs_of(kinds)[r + 1].kind == PopoverKind::System),
    decreases kinds.len(),
{
    if kinds.len() > 0 {
        let before = runs_of(kinds.drop_last());
        let after = runs_of(kinds);
        if r + 1 < before.len() {
            shared_popovers_are_one_group(kinds.drop_last(), r);
            assert(after[r].kind == before[r].kind);
            assert(after[r + 1].kind == before[r + 1].kind);
        } else if before.len() > 0 {
            assert(after[r].kind == before[r].kind);
        }
    }
}

/// The style sheet of the user is looked for beside the configuration, then in the user's directories, then here. No
/// place is looked at twice.
pub proof fn sheets_are_looked_for_in_order(config: Option<Seq<char>>, xdg: Option<Seq<char>>, home: Option<Seq<char>>)
    ensures
        ({
            let places = css_places(config, xdg, home);
            &&& config matches Some(dir) ==> places[0] == joined_path(dir, "style.css"@)
            &&& config is None && xdg is Some ==> places[0] == joined_path(xdg->0, "vibepanel/style.css"@)
            &&& config is None && xdg is None && home is Some ==> places[0] == joined_path(
                home->0,
                ".config/vibepanel/style.css"@,
            )
            &&& config matches Some(dir) ==> places.contains(joined_path(dir, "style.css"@))
            &&& xdg matches Some(dir) ==> places.contains(joined_path(dir, "vibepanel/style.css"@))
            &&& home matches Some(dir) ==> places.contains(joined_path(dir, ".config/vibepanel/style.css"@))
            &&& places.contains("style.css"@)
            &&& places.no_duplicates()
            &&& places.len() > 0
        }),
{
    let a = match config {
        Some(dir) => listed_once(Seq::empty(), joined_path(dir, "style.css"@)),
        None => Seq::empty(),
    };
    let b = match xdg {
        Some(dir) => listed_once(a, joined_path(dir, "vibepanel/style.css"@)),
        None => a,
    };
    let c = match home {
        Some(dir) => listed_once(b, joined_path(dir, ".config/vibepanel/style.css"@)),
        None => b,
    };
    if config is Some {
        lemma_listed_once(Seq::empty(), joined_path(config->0, "style.css"@));
    }
    if xdg is Some {
        lemma_listed_once(a, joined_path(xdg->0, "vibepanel/style.css"@));
    }
    if home is Some {
        lemma_listed_once(b, joined_path(home->0, ".config/vibepanel/style.css"@));
    }
    lemma_listed_once(c, "style.css"@);
}

proof fn lemma_listed_once(list: Seq<Seq<char>>, path: Seq<char>)
    ensures
        listed_once(list, path).contains(path),
        list.no_duplicates() ==> listed_once(list, path).no_duplicates(),
        forall|p: Seq<char>| list.contains(p) ==> #[trigger] listed_once(list, path).contains(p),
        list.len() > 0 ==> listed_once(list, path)[0] == list[0],
        list.len() == 0 ==> listed_once(list, path)[0] == path,
        listed_once(list, path).len() > 0,
{
    let after = listed_once(list, path);
    if !list.contains(path) {
        assert(after[list.len() as int] == path);
        assert forall|p: Seq<char>| list.contains(p) implies #[trigger] after.contains(p) by {
            let i = choose|i: int| 0 <= i < list.len() && list[i] == p;
            assert(after[i] == p);
        }
        if list.no_duplicates() {
            assert forall|i: int, j: int| 0 <= i < after.len() && 0 <= j < after.len() && i != j implies after[i] != after[j] by {
                if i < list.len() {
                    assert(list.contains(list[i]));
                }
                if j < list.len() {
                    assert(list.contains(list[j]));
                }
            }
        }
    } else {
        let i = choose|i: int| 0 <= i < list.len() && list[i] == path;
        assert(list.len() > 0);
    }
}

/// Bars run from top to bottom at the sides, and from left to right above and below.
pub proof fn bars_at_the_sides_are_vertical(position: BarPosition)
    ensures
        position is Left || position is Right ==> position.vertical(),
        position is Top || position is Bottom ==> !position.vertical(),
{
}

} // verus!
