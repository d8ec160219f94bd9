//! Scenes as numbers that can be compared, once the places of floating windows are computed.

use vstd::prelude::*;
use crate::config::options::{equal_doubles, not_a_number, same_double};
use crate::table::{as_map, lemma_as_map, Table};

verus! {

/// A rectangle in the coordinates of an output. Its numbers are bit patterns of doubles.
#[derive(Clone, Copy, Debug, PartialEq, Eq, Structural)]
pub struct PlacedRect {
    pub x: u64,
    pub y: u64,
    pub width: u64,
    pub height: u64,
}

/// The windows of an output.
#[derive(Debug)]
pub struct OutputFigures {
    pub tiled: bool,
    /// Where floating windows stand.
    pub floating: Vec<PlacedRect>,
    pub incomplete: bool,
}

impl PlacedRect {
    /// Whether two rectangles are equal as doubles.
    pub open spec fn equal(self, other: PlacedRect) -> bool {
        &&& equal_doubles(self.x, other.x)
        &&& equal_doubles(self.y, other.y)
        &&& equal_doubles(self.width, other.width)
        &&& equal_doubles(self.height, other.height)
    }

    /// Whether all its numbers are numbers.
    pub open spec fn is_told(self) -> bool {
        !not_a_number(self.x) && !not_a_number(self.y) && !not_a_number(self.width) && !not_a_number(self.height)
    }

    fn same(&self, other: &PlacedRect) -> (yes: bool)
        ensures
            yes == self.equal(*other),
    {
        same_double(self.x, other.x) && same_double(self.y, other.y) && same_double(self.width, other.width)
            && same_double(self.height, other.height)
    }
}

impl OutputFigures {
    /// Whether the windows of two outputs are equal.
    pub open spec fn equal(self, other: OutputFigures) -> bool {
        &&& self.tiled == other.tiled
        &&& self.incomplete == other.incomplete
        &&& self.floating@.len() == other.floating@.len()
        &&& forall|i: int| 0 <= i < self.floating@.len() ==> (#[trigger] self.floating@[i]).equal(other.floating@[i])
    }

    fn same(&self, other: &OutputFigures) -> (yes: bool)
        ensures
            yes == self.equal(*other),
    {
        if self.tiled != other.tiled || self.incomplete != other.incomplete || self.floating.len()
            != other.floating.len() {
            return false;
        }
        let mut i: usize = 0;
        while i < self.floating.len()
            invariant
                i <= self.floating@.len(),
                self.floating@.len() == other.floating@.len(),
                forall|j: int| 0 <= j < i ==> (#[trigger] self.floating@[j]).equal(other.floating@[j]),
            decreases self.floating@.len() - i,
        {
            if !self.floating[i].same(&other.floating[i]) {
                assert(!self.floating@[i as int].equal(other.floating@[i as int]));
                return false;
            }
            i += 1;
        }
        true
    }
}

/// Whether two scenes have the same outputs with equal windows.
pub open spec fn same_scene(a: Map<Seq<char>, OutputFigures>, b: Map<Seq<char>, OutputFigures>) -> bool {
    &&& a.dom() == b.dom()
    &&& forall|name: Seq<char>| #[trigger] a.dom().contains(name) ==> a[name].equal(b[name])
}

fn figures_within(a: &Table<String, OutputFigures>, b: &Table<String, OutputFigures>) -> (yes: bool)
    ensures
        yes == forall|name: Seq<char>| #[trigger]
            a@.dom().contains(name) ==> b@.dom().contains(name) && a@[name].equal(b@[name]),
{
    let entries = a.entries();
    proof {
        lemma_as_map(entries@);
    }
    let mut i: usize = 0;
    while i < entries.len()
        invariant
            i <= entries@.len(),
            entries@ == a.pairs(),
            forall|j: int|
                0 <= j < entries@.len() ==> a@.dom().contains((#[trigger] entries@[j]).0@) && a@[entries@[j].0@]
                    == entries@[j].1,
            forall|j: int|
                0 <= j < i ==> b@.dom().contains((#[trigger] entries@[j]).0@) && entries@[j].1.equal(
                    b@[entries@[j].0@],
                ),
        decreases entries@.len() - i,
    {
        match b.get(&entries[i].0) {
            Some(other) => {
                if !entries[i].1.same(other) {
                    assert(a@.dom().contains(entries@[i as int].0@));
                    return false;
                }
            }
            None => {
                assert(a@.dom().contains(entries@[i as int].0@));
                return false;
            }
        }
        i += 1;
    }
    proof {
        assert forall|name: Seq<char>| #[trigger] a@.dom().contains(name) implies b@.dom().contains(name)
            && a@[name].equal(b@[name]) by {
            assert(as_map(entries@).dom().contains(name));
            let j = choose|j: int| 0 <= j < entries@.len() && (#[trigger] entries@[j]).0@ == name;
            assert(entries@[j].0@ == name);
        }
    }
    true
}

proof fn lemma_equal_is_symmetric()
    ensures
        forall|a: OutputFigures, b: OutputFigures| #[trigger] a.equal(b) ==> b.equal(a),
{
    assert forall|a: OutputFigures, b: OutputFigures| #[trigger] a.equal(b) implies b.equal(a) by {
        assert forall|i: int| 0 <= i < b.floating@.len() implies (#[trigger] b.floating@[i]).equal(a.floating@[i]) by {
            assert(a.floating@[i].equal(b.floating@[i]));
        }
    }
}

/// Whether a scene that was read differs from the one before, so that listeners are told.
pub fn scene_changed(old_scene: &Table<String, OutputFigures>, new_scene: &Table<String, OutputFigures>) -> (changed:
    bool)
    ensures
        changed == !same_scene(old_scene@, new_scene@),
{
    let same = figures_within(old_scene, new_scene) && figures_within(new_scene, old_scene);
    proof {
        lemma_equal_is_symmetric();
        if same {
            assert(old_scene@.dom() =~= new_scene@.dom());
        }
    }
    !same
}

/// A scene that is read again unchanged is not told.
pub proof fn unchanged_scenes_are_silent(scene: Map<Seq<char>, OutputFigures>)
    requires
        forall|name: Seq<char>, i: int|
            scene.dom().contains(name) && 0 <= i < scene[name].floating@.len() ==> (
            #[trigger] scene[name].floating@[i]).is_told(),
    ensures
        same_scene(scene, scene),
{
    assert forall|name: Seq<char>| #[trigger] scene.dom().contains(name) implies scene[name].equal(scene[name]) by {
        assert forall|i: int| 0 <= i < scene[name].floating@.len() implies (#[trigger] scene[name].floating@[i]).equal(
            scene[name].floating@[i],
        ) by {
            assert(scene[name].floating@[i].is_told());
        }
    }
}

/// Scenes whose outputs, tiles or doubts differ are told, and so are windows that moved to another number.
pub proof fn different_scenes_are_told(
    a: Map<Seq<char>, OutputFigures>,
    b: Map<Seq<char>, OutputFigures>,
    name: Seq<char>,
    i: int,
)
    requires
        same_scene(a, b),
    ensures
        a.dom().contains(name) <==> b.dom().contains(name),
        a.dom().contains(name) ==> {
            &&& a[name].tiled == b[name].tiled && a[name].incomplete == b[name].incomplete
            &&& a[name].floating@.len() == b[name].floating@.len()
            &&& 0 <= i < a[name].floating@.len() ==> {
                let p = a[name].floating@[i];
                let q = b[name].floating@[i];
                &&& p.x == q.x || (p.x % 0x8000_0000_0000_0000 == 0 && q.x % 0x8000_0000_0000_0000 == 0)
                &&& p.y == q.y || (p.y % 0x8000_0000_0000_0000 == 0 && q.y % 0x8000_0000_0000_0000 == 0)
                &&& p.width == q.width || (p.width % 0x8000_0000_0000_0000 == 0 && q.width % 0x8000_0000_0000_0000 == 0)
                &&& p.height == q.height || (p.height % 0x8000_0000_0000_0000 == 0 && q.height % 0x8000_0000_0000_0000 == 0)
            }
        },
{
    if a.dom().contains(name) && 0 <= i < a[name].floating@.len() {
        assert(a[name].equal(b[name]));
        assert(a[name].floating@[i].equal(b[name].floating@[i]));
    }
}

} // verus!
