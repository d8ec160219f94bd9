//! Window scenes: whether windows leave room for the bar of an output.
//!
//! Tiled windows need no geometry. Of floating windows the scene keeps the numbers that the
//! compositor told, as the bit patterns of doubles, and the shifts that bring them to the
//! coordinates of an output.

use vstd::prelude::*;
use crate::text;

verus! {

/// What the windows of an output mean for its bar.
#[derive(Clone, Copy, Debug, PartialEq, Eq, Structural)]
pub enum HideDecision {
    /// A window covers the bar or is tiled against it.
    Hide,
    /// Nothing is in the way.
    Show,
    /// The windows are not known well enough.
    Unknown,
}

/// A point, as the bit patterns of two doubles.
#[derive(Clone, Copy, Debug, PartialEq, Eq, Structural)]
pub struct Point {
    pub x: u64,
    pub y: u64,
}

/// A shift from the coordinates of one output to those of another, through the global ones.
#[derive(Clone, Copy, Debug, PartialEq, Eq, Structural)]
pub struct Projection {
    /// The corner of the output that the window is on: added.
    pub from: Point,
    /// The corner of the output that the window also covers: subtracted.
    pub to: Point,
}

/// The rectangle of a floating window. Its numbers are bit patterns of doubles.
#[derive(Clone, Copy, Debug, PartialEq, Eq, Structural)]
pub struct Placement {
    pub x: u64,
    pub y: u64,
    pub width: u64,
    pub height: u64,
    /// A corner to subtract first.
    pub origin: Option<Point>,
    /// A shift to another output to apply then.
    pub projection: Option<Projection>,
}

/// Whether a bit pattern is that of a finite double.
pub open spec fn finite(bits: u64) -> bool {
    bits % 0x8000_0000_0000_0000 < 0x7ff0_0000_0000_0000
}

/// Whether a bit pattern is that of a finite double above zero.
pub open spec fn positive(bits: u64) -> bool {
    0 < bits < 0x7ff0_0000_0000_0000
}

pub(crate) fn is_finite(bits: u64) -> (yes: bool)
    ensures
        yes == finite(bits),
{
    bits % 0x8000_0000_0000_0000 < 0x7ff0_0000_0000_0000
}

pub(crate) fn is_positive(bits: u64) -> (yes: bool)
    ensures
        yes == positive(bits),
{
    0 < bits && bits < 0x7ff0_0000_0000_0000
}

impl Placement {
    /// A rectangle needs finite numbers, and a width and a height above zero.
    pub open spec fn made(x: u64, y: u64, width: u64, height: u64) -> Option<Placement> {
        if finite(x) && finite(y) && positive(width) && positive(height) {
            Some(Placement { x, y, width, height, origin: None, projection: None })
        } else {
            None
        }
    }

    /// A rectangle needs finite numbers, and a width and a height above zero.
    pub fn new(x: u64, y: u64, width: u64, height: u64) -> (placement: Option<Self>)
        ensures
            placement == Placement::made(x, y, width, height),
    {
        if is_finite(x) && is_finite(y) && is_positive(width) && is_positive(height) {
            Some(Placement { x, y, width, height, origin: None, projection: None })
        } else {
            None
        }
    }
}

/// The windows of an output.
#[derive(Debug)]
pub struct OutputWindows {
    pub tiled: bool,
    /// Floating windows in the coordinates of the output.
    pub floating: Vec<Placement>,
    pub incomplete: bool,
}

/// What an [`OutputWindows`] holds.
pub struct WindowsView {
    pub tiled: bool,
    pub floating: Seq<Placement>,
    pub incomplete: bool,
}

impl View for OutputWindows {
    type V = WindowsView;

    open spec fn view(&self) -> WindowsView {
        WindowsView { tiled: self.tiled, floating: self.floating@, incomplete: self.incomplete }
    }
}

impl WindowsView {
    pub open spec fn empty() -> WindowsView {
        WindowsView { tiled: false, floating: Seq::empty(), incomplete: false }
    }

    /// With one more window. A window of unknown kind, or a floating one without a place, makes
    /// the scene incomplete.
    pub open spec fn with(self, floating: Option<bool>, place: Option<Placement>) -> WindowsView {
        match floating {
            Some(false) => WindowsView { tiled: true, ..self },
            Some(true) => match place {
                Some(p) => WindowsView { floating: self.floating.push(p), ..self },
                None => WindowsView { incomplete: true, ..self },
            },
            None => WindowsView { incomplete: true, ..self },
        }
    }

    /// What the windows mean for a bar, given which floating windows meet it.
    pub open spec fn decided(self, meets: Seq<bool>, bar_is_empty: bool) -> HideDecision {
        if self.tiled || meets.contains(true) {
            HideDecision::Hide
        } else if self.incomplete || (self.floating.len() > 0 && bar_is_empty) {
            HideDecision::Unknown
        } else {
            HideDecision::Show
        }
    }
}

impl Default for OutputWindows {
    fn default() -> (windows: Self)
        ensures
            windows@ == WindowsView::empty(),
    {
        OutputWindows { tiled: false, floating: Vec::new(), incomplete: false }
    }
}

fn any(flags: &Vec<bool>) -> (yes: bool)
    ensures
        yes == flags@.contains(true),
{
    let mut i: usize = 0;
    while i < flags.len()
        invariant
            i <= flags@.len(),
            forall|j: int| 0 <= j < i ==> !#[trigger] flags@[j],
        decreases flags@.len() - i,
    {
        if flags[i] {
            assert(flags@[i as int] == true);
            return true;
        }
        i += 1;
    }
    false
}

impl OutputWindows {
    /// What the windows mean for a bar. `meets` tells of each floating window whether it meets a
    /// part of the bar.
    pub fn decision(&self, meets: &Vec<bool>, bar_is_empty: bool) -> (decision: HideDecision)
        requires
            meets@.len() == self.floating@.len(),
        ensures
            decision == self@.decided(meets@, bar_is_empty),
    {
        if self.tiled || any(meets) {
            HideDecision::Hide
        } else if self.incomplete || (self.floating.len() > 0 && bar_is_empty) {
            HideDecision::Unknown
        } else {
            HideDecision::Show
        }
    }

    /// Adds a window.
    pub fn add(&mut self, floating: Option<bool>, place: Option<Placement>)
        ensures
            final(self)@ == old(self)@.with(floating, place),
    {
        match floating {
            Some(false) => self.tiled = true,
            Some(true) => match place {
                Some(p) => self.floating.push(p),
                None => self.incomplete = true,
            },
            None => self.incomplete = true,
        }
    }
}

/// A bar hides exactly if a window is tiled or a floating one meets it. It shows exactly if nothing is in
/// the way and nothing is left open: neither by the windows nor, where some float, by the bar.
pub proof fn bars_give_way_to_windows(windows: WindowsView, meets: Seq<bool>, bar_is_empty: bool)
    requires
        meets.len() == windows.floating.len(),
    ensures
        ({
            let decision = windows.decided(meets, bar_is_empty);
            let met = exists|i: int| 0 <= i < meets.len() && #[trigger] meets[i];
            &&& decision == HideDecision::Hide <==> windows.tiled || met
            &&& decision == HideDecision::Show <==> !windows.tiled && !met && !windows.incomplete && (meets.len() == 0
                || !bar_is_empty)
        }),
{
    if meets.contains(true) {
        let i = choose|i: int| 0 <= i < meets.len() && meets[i] == true;
        assert(meets[i]);
    }
    if exists|i: int| 0 <= i < meets.len() && #[trigger] meets[i] {
        let i = choose|i: int| 0 <= i < meets.len() && #[trigger] meets[i];
        assert(meets[i] == true);
    }
}

/// A bar on an output that a scene does not have is not decided.
pub proof fn missing_outputs_are_unknown(scene: Seq<SceneView>, output: Seq<char>, meets: Seq<bool>, bar_is_empty: bool)
    requires
        forall|i: int| 0 <= i < scene.len() ==> (#[trigger] scene[i]).name != output,
    ensures
        decided_on(scene, output, meets, bar_is_empty) == HideDecision::Unknown,
    decreases scene.len(),
{
    if scene.len() > 0 {
        let head = scene.drop_last();
        assert(scene[scene.len() - 1].name != output);
        assert forall|i: int| 0 <= i < head.len() implies (#[trigger] head[i]).name != output by {
            assert(head[i] == scene[i]);
        }
        missing_outputs_are_unknown(head, output, meets, bar_is_empty);
    }
}

/// A tiled window hides the bar, whatever else is known.
pub proof fn tiled_hides(
    state: WindowsView,
    floating: Option<bool>,
    place: Option<Placement>,
    meets: Seq<bool>,
    bar_is_empty: bool,
)
    requires
        state.tiled || floating == Some(false),
    ensures
        state.with(floating, place).decided(meets, bar_is_empty) is Hide,
{
}

/// Windows of unknown kind or place never count as an empty scene.
pub proof fn unknown_is_not_empty(
    state: WindowsView,
    floating: Option<bool>,
    place: Option<Placement>,
    meets: Seq<bool>,
    bar_is_empty: bool,
)
    requires
        floating is None || (floating == Some(true) && place is None),
    ensures
        !(state.with(floating, place).decided(meets, bar_is_empty) is Show),
{
}

/// Once incomplete or hidden by tiles, a scene stays so when windows are added.
pub proof fn adding_keeps_doubts(state: WindowsView, floating: Option<bool>, place: Option<Placement>)
    ensures
        state.tiled ==> state.with(floating, place).tiled,
        state.incomplete ==> state.with(floating, place).incomplete,
        state.floating.is_prefix_of(state.with(floating, place).floating),
{
}

/// An output and its windows.
#[derive(Debug)]
pub struct OutputScene {
    pub name: String,
    pub windows: OutputWindows,
}

/// What an [`OutputScene`] holds.
pub struct SceneView {
    pub name: Seq<char>,
    pub windows: WindowsView,
}

impl View for OutputScene {
    type V = SceneView;

    open spec fn view(&self) -> SceneView {
        SceneView { name: self.name@, windows: self.windows@ }
    }
}

/// What the outputs of a scene hold.
pub open spec fn scenes(outputs: Seq<OutputScene>) -> Seq<SceneView> {
    outputs.map_values(|o: OutputScene| o@)
}

/// The scene with the windows of one output set.
pub open spec fn put(scene: Seq<SceneView>, name: Seq<char>, windows: WindowsView) -> Seq<SceneView>
    decreases scene.len(),
{
    if scene.len() == 0 {
        seq![SceneView { name, windows }]
    } else if scene.last().name == name {
        scene.drop_last().push(SceneView { name, windows })
    } else {
        put(scene.drop_last(), name, windows).push(scene.last())
    }
}

/// The windows of an output, if the scene has it.
pub open spec fn windows_on(scene: Seq<SceneView>, name: Seq<char>) -> Option<WindowsView>
    decreases scene.len(),
{
    if scene.len() == 0 {
        None
    } else if scene.last().name == name {
        Some(scene.last().windows)
    } else {
        windows_on(scene.drop_last(), name)
    }
}

/// What is set is found, and other outputs keep their windows.
pub proof fn put_is_found(scene: Seq<SceneView>, name: Seq<char>, windows: WindowsView, other: Seq<char>)
    ensures
        windows_on(put(scene, name, windows), name) == Some(windows),
        other != name ==> windows_on(put(scene, name, windows), other) == windows_on(scene, other),
    decreases scene.len(),
{
    reveal_with_fuel(windows_on, 2);
    if scene.len() == 0 {
        assert(put(scene, name, windows).drop_last() =~= Seq::empty());
    } else if scene.last().name == name {
        assert(put(scene, name, windows).drop_last() =~= scene.drop_last());
    } else {
        put_is_found(scene.drop_last(), name, windows, other);
        assert(put(scene, name, windows).drop_last() =~= put(scene.drop_last(), name, windows));
    }
}

proof fn lemma_put_at(scene: Seq<SceneView>, i: int, name: Seq<char>, windows: WindowsView)
    requires
        0 <= i < scene.len(),
        scene[i].name == name,
        forall|j: int| i < j < scene.len() ==> (#[trigger] scene[j]).name != name,
    ensures
        put(scene, name, windows) == scene.update(i, SceneView { name, windows }),
    decreases scene.len(),
{
    if i == scene.len() - 1 {
        assert(scene.drop_last().push(SceneView { name, windows }) =~= scene.update(i, SceneView { name, windows }));
    } else {
        lemma_put_at(scene.drop_last(), i, name, windows);
        assert(scene.drop_last().update(i, SceneView { name, windows }).push(scene.last()) =~= scene.update(
            i,
            SceneView { name, windows },
        ));
    }
}

proof fn lemma_put_absent(scene: Seq<SceneView>, name: Seq<char>, windows: WindowsView)
    requires
        forall|j: int| 0 <= j < scene.len() ==> (#[trigger] scene[j]).name != name,
    ensures
        put(scene, name, windows) == seq![SceneView { name, windows }] + scene,
    decreases scene.len(),
{
    if scene.len() > 0 {
        lemma_put_absent(scene.drop_last(), name, windows);
        assert((seq![SceneView { name, windows }] + scene.drop_last()).push(scene.last()) =~= seq![
            SceneView { name, windows },
        ] + scene);
    } else {
        assert(seq![SceneView { name, windows }] + scene =~= seq![SceneView { name, windows }]);
    }
}

/// Sets the windows of an output.
pub(crate) fn put_windows(scene: &mut Vec<OutputScene>, name: &str, windows: OutputWindows)
    ensures
        scenes(final(scene)@) == put(scenes(old(scene)@), name@, windows@),
{
    let ghost before = scenes(scene@);
    let mut i: usize = scene.len();
    while i > 0
        invariant
            i <= scene@.len(),
            before == scenes(scene@),
            scenes(scene@) == scenes(old(scene)@),
            forall|j: int| i <= j < before.len() ==> (#[trigger] before[j]).name != name@,
        decreases i,
    {
        i -= 1;
        assert(before[i as int] == scene@[i as int]@);
        if text::str_eq(scene[i].name.as_str(), name) {
            proof {
                lemma_put_at(before, i as int, name@, windows@);
            }
            let ghost held = windows@;
            scene.set(i, OutputScene { name: name.to_string(), windows });
            proof {
                assert(scenes(scene@) =~= before.update(i as int, SceneView { name: name@, windows: held }));
            }
            return;
        }
    }
    proof {
        lemma_put_absent(before, name@, windows@);
    }
    let ghost held = windows@;
    scene.insert(0, OutputScene { name: name.to_string(), windows });
    proof {
        assert(scenes(scene@) =~= seq![SceneView { name: name@, windows: held }] + before);
    }
}

/// What the windows of a scene mean for a bar on an output; unknown for an output that the scene
/// does not have.
pub open spec fn decided_on(
    scene: Seq<SceneView>,
    output: Seq<char>,
    meets: Seq<bool>,
    bar_is_empty: bool,
) -> HideDecision {
    match windows_on(scene, output) {
        Some(windows) => windows.decided(meets, bar_is_empty),
        None => HideDecision::Unknown,
    }
}

/// The windows of an output.
pub fn windows_of_output<'a>(scene: &'a Vec<OutputScene>, name: &str) -> (windows: Option<&'a OutputWindows>)
    ensures
        match windows {
            Some(w) => windows_on(scenes(scene@), name@) == Some(w@),
            None => windows_on(scenes(scene@), name@) is None,
        },
{
    let ghost whole = scenes(scene@);
    let mut i: usize = scene.len();
    proof {
        assert(whole.take(i as int) =~= whole);
    }
    while i > 0
        invariant
            i <= scene@.len(),
            whole == scenes(scene@),
            windows_on(whole, name@) == windows_on(whole.take(i as int), name@),
        decreases i,
    {
        i -= 1;
        proof {
            assert(whole.take(i + 1).drop_last() =~= whole.take(i as int));
            assert(whole.take(i + 1).last() == scene@[i as int]@);
        }
        if text::str_eq(scene[i].name.as_str(), name) {
            return Some(&scene[i].windows);
        }
    }
    None
}

/// What the windows of a scene mean for a bar on an output.
pub fn decision_on(scene: &Vec<OutputScene>, output: &str, meets: &Vec<bool>, bar_is_empty: bool) -> (decision: HideDecision)
    requires
        windows_on(scenes(scene@), output@) is Some ==> meets@.len() == windows_on(
            scenes(scene@),
            output@,
        )->0.floating.len(),
    ensures
        decision == decided_on(scenes(scene@), output@, meets@, bar_is_empty),
{
    match windows_of_output(scene, output) {
        Some(windows) => windows.decision(meets, bar_is_empty),
        None => HideDecision::Unknown,
    }
}

} // verus!
