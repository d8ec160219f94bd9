//! The window layouts that Mango has built in.

use vstd::prelude::*;
use vstd::string::*;
use crate::text;

verus! {

/// What is known of a window layout.
#[derive(Clone, Copy, Debug)]
pub struct MangoLayout {
    pub name: &'static str,
    pub symbol: &'static str,
    pub label: &'static str,
}

/// The layouts, in the order in which Mango lists them.
pub open spec fn catalog() -> Seq<MangoLayout> {
    seq![
        MangoLayout { name: "tile", symbol: "T", label: "Tile" },
        MangoLayout { name: "scroller", symbol: "S", label: "Scroller" },
        MangoLayout { name: "grid", symbol: "G", label: "Grid" },
        MangoLayout { name: "monocle", symbol: "M", label: "Monocle" },
        MangoLayout { name: "deck", symbol: "K", label: "Deck" },
        MangoLayout { name: "center_tile", symbol: "CT", label: "Center Tile" },
        MangoLayout { name: "right_tile", symbol: "RT", label: "Right Tile" },
        MangoLayout { name: "vertical_scroller", symbol: "VS", label: "Vertical Scroller" },
        MangoLayout { name: "vertical_tile", symbol: "VT", label: "Vertical Tile" },
        MangoLayout { name: "vertical_grid", symbol: "VG", label: "Vertical Grid" },
        MangoLayout { name: "vertical_deck", symbol: "VK", label: "Vertical Deck" },
        MangoLayout { name: "dwindle", symbol: "DW", label: "Dwindle" },
        MangoLayout { name: "fair", symbol: "F", label: "Fair" },
        MangoLayout { name: "vertical_fair", symbol: "VF", label: "Vertical Fair" },
    ]
}

/// The layouts, in the order in which Mango lists them.
pub fn mango_layouts() -> (layouts: Vec<MangoLayout>)
    ensures
        layouts@ == catalog(),
{
    let mut layouts: Vec<MangoLayout> = Vec::new();
    layouts.push(MangoLayout { name: "tile", symbol: "T", label: "Tile" });
    layouts.push(MangoLayout { name: "scroller", symbol: "S", label: "Scroller" });
    layouts.push(MangoLayout { name: "grid", symbol: "G", label: "Grid" });
    layouts.push(MangoLayout { name: "monocle", symbol: "M", label: "Monocle" });
    layouts.push(MangoLayout { name: "deck", symbol: "K", label: "Deck" });
    layouts.push(MangoLayout { name: "center_tile", symbol: "CT", label: "Center Tile" });
    layouts.push(MangoLayout { name: "right_tile", symbol: "RT", label: "Right Tile" });
    layouts.push(MangoLayout { name: "vertical_scroller", symbol: "VS", label: "Vertical Scroller" });
    layouts.push(MangoLayout { name: "vertical_tile", symbol: "VT", label: "Vertical Tile" });
    layouts.push(MangoLayout { name: "vertical_grid", symbol: "VG", label: "Vertical Grid" });
    layouts.push(MangoLayout { name: "vertical_deck", symbol: "VK", label: "Vertical Deck" });
    layouts.push(MangoLayout { name: "dwindle", symbol: "DW", label: "Dwindle" });
    layouts.push(MangoLayout { name: "fair", symbol: "F", label: "Fair" });
    layouts.push(MangoLayout { name: "vertical_fair", symbol: "VF", label: "Vertical Fair" });
    proof {
        assert(layouts@ =~= catalog());
    }
    layouts
}

/// No two layouts share a name or a symbol.
pub proof fn names_and_symbols_are_unique(i: int, j: int)
    requires
        0 <= i < j < catalog().len(),
    ensures
        catalog()[i].name@ != catalog()[j].name@,
        catalog()[i].symbol@ != catalog()[j].symbol@,
{
    reveal_strlit("tile");
    reveal_strlit("scroller");
    reveal_strlit("grid");
    reveal_strlit("monocle");
    reveal_strlit("deck");
    reveal_strlit("center_tile");
    reveal_strlit("right_tile");
    reveal_strlit("vertical_scroller");
    reveal_strlit("vertical_tile");
    reveal_strlit("vertical_grid");
    reveal_strlit("vertical_deck");
    reveal_strlit("dwindle");
    reveal_strlit("fair");
    reveal_strlit("vertical_fair");
    reveal_strlit("T");
    reveal_strlit("S");
    reveal_strlit("G");
    reveal_strlit("M");
    reveal_strlit("K");
    reveal_strlit("CT");
    reveal_strlit("RT");
    reveal_strlit("VS");
    reveal_strlit("VT");
    reveal_strlit("VG");
    reveal_strlit("VK");
    reveal_strlit("DW");
    reveal_strlit("F");
    reveal_strlit("VF");
    let a = catalog()[i];
    let b = catalog()[j];
    assert(a.name@.len() != b.name@.len() || a.name@[0] != b.name@[0] || a.name@[9] != b.name@[9]);
    assert(a.symbol@.len() != b.symbol@.len() || a.symbol@[0] != b.symbol@[0] || a.symbol@[1] != b.symbol@[1]);
}

/// The first of some layouts with a name.
pub open spec fn first_named(layouts: Seq<MangoLayout>, name: Seq<char>) -> Option<MangoLayout>
    decreases layouts.len(),
{
    if layouts.len() == 0 {
        None
    } else if layouts[0].name@ == name {
        Some(layouts[0])
    } else {
        first_named(layouts.drop_first(), name)
    }
}

/// The first of some layouts with a symbol.
pub open spec fn first_with_symbol(layouts: Seq<MangoLayout>, symbol: Seq<char>) -> Option<MangoLayout>
    decreases layouts.len(),
{
    if layouts.len() == 0 {
        None
    } else if layouts[0].symbol@ == symbol {
        Some(layouts[0])
    } else {
        first_with_symbol(layouts.drop_first(), symbol)
    }
}

/// The layout with a name.
pub fn by_name(name: &str) -> (layout: Option<MangoLayout>)
    ensures
        layout == first_named(catalog(), name@),
{
    let layouts = mango_layouts();
    let mut i: usize = 0;
    proof {
        assert(layouts@.skip(0) =~= layouts@);
    }
    while i < layouts.len()
        invariant
            i <= layouts@.len(),
            layouts@ == catalog(),
            first_named(layouts@, name@) == first_named(layouts@.skip(i as int), name@),
        decreases layouts@.len() - i,
    {
        proof {
            assert(layouts@.skip(i as int).drop_first() =~= layouts@.skip(i + 1));
        }
        if text::str_eq(layouts[i].name, name) {
            return Some(layouts[i]);
        }
        i += 1;
    }
    None
}

/// The layout with a symbol.
pub fn by_symbol(symbol: &str) -> (layout: Option<MangoLayout>)
    ensures
        layout == first_with_symbol(catalog(), symbol@),
{
    let layouts = mango_layouts();
    let mut i: usize = 0;
    proof {
        assert(layouts@.skip(0) =~= layouts@);
    }
    while i < layouts.len()
        invariant
            i <= layouts@.len(),
            layouts@ == catalog(),
            first_with_symbol(layouts@, symbol@) == first_with_symbol(layouts@.skip(i as int), symbol@),
        decreases layouts@.len() - i,
    {
        proof {
            assert(layouts@.skip(i as int).drop_first() =~= layouts@.skip(i + 1));
        }
        if text::str_eq(layouts[i].symbol, symbol) {
            return Some(layouts[i]);
        }
        i += 1;
    }
    None
}

proof fn lemma_first(layouts: Seq<MangoLayout>, i: int)
    requires
        0 <= i < layouts.len(),
        forall|a: int, b: int|
            #![trigger layouts[a], layouts[b]]
            0 <= a < b < layouts.len() ==> layouts[a].name@ != layouts[b].name@ && layouts[a].symbol@
                != layouts[b].symbol@,
    ensures
        first_named(layouts, layouts[i].name@) == Some(layouts[i]),
        first_with_symbol(layouts, layouts[i].symbol@) == Some(layouts[i]),
    decreases layouts.len(),
{
    if i > 0 {
        assert(layouts[0].name@ != layouts[i].name@);
        lemma_first(layouts.drop_first(), i - 1);
    }
}

/// Every layout is found by its name and by its symbol.
pub proof fn every_layout_is_found(i: int)
    requires
        0 <= i < catalog().len(),
    ensures
        first_named(catalog(), catalog()[i].name@) == Some(catalog()[i]),
        first_with_symbol(catalog(), catalog()[i].symbol@) == Some(catalog()[i]),
{
    let layouts = catalog();
    assert forall|a: int, b: int|
        #![trigger layouts[a], layouts[b]]
        0 <= a < b < layouts.len() implies layouts[a].name@ != layouts[b].name@ && layouts[a].symbol@
        != layouts[b].symbol@ by {
        names_and_symbols_are_unique(a, b);
    }
    lemma_first(layouts, i);
}

/// Whether Mango has a layout of a name that it shows by a symbol and that is called by a label.
pub open spec fn is_listed(name: &'static str, symbol: &'static str, label: &'static str) -> bool {
    catalog().contains(MangoLayout { name, symbol, label })
}

/// Each layout has its symbol and its label; there are no others.
pub proof fn layouts_have_their_symbols()
    ensures
        catalog().len() == 14,
        is_listed("tile", "T", "Tile"),
        is_listed("scroller", "S", "Scroller"),
        is_listed("grid", "G", "Grid"),
        is_listed("monocle", "M", "Monocle"),
        is_listed("deck", "K", "Deck"),
        is_listed("center_tile", "CT", "Center Tile"),
        is_listed("right_tile", "RT", "Right Tile"),
        is_listed("vertical_scroller", "VS", "Vertical Scroller"),
        is_listed("vertical_tile", "VT", "Vertical Tile"),
        is_listed("vertical_grid", "VG", "Vertical Grid"),
        is_listed("vertical_deck", "VK", "Vertical Deck"),
        is_listed("dwindle", "DW", "Dwindle"),
        is_listed("fair", "F", "Fair"),
        is_listed("vertical_fair", "VF", "Vertical Fair"),
{
    let all = catalog();
    assert(all[0] == (MangoLayout { name: "tile", symbol: "T", label: "Tile" }));
    assert(all[1] == (MangoLayout { name: "scroller", symbol: "S", label: "Scroller" }));
    assert(all[2] == (MangoLayout { name: "grid", symbol: "G", label: "Grid" }));
    assert(all[3] == (MangoLayout { name: "monocle", symbol: "M", label: "Monocle" }));
    assert(all[4] == (MangoLayout { name: "deck", symbol: "K", label: "Deck" }));
    assert(all[5] == (MangoLayout { name: "center_tile", symbol: "CT", label: "Center Tile" }));
    assert(all[6] == (MangoLayout { name: "right_tile", symbol: "RT", label: "Right Tile" }));
    assert(all[7] == (MangoLayout { name: "vertical_scroller", symbol: "VS", label: "Vertical Scroller" }));
    assert(all[8] == (MangoLayout { name: "vertical_tile", symbol: "VT", label: "Vertical Tile" }));
    assert(all[9] == (MangoLayout { name: "vertical_grid", symbol: "VG", label: "Vertical Grid" }));
    assert(all[10] == (MangoLayout { name: "vertical_deck", symbol: "VK", label: "Vertical Deck" }));
    assert(all[11] == (MangoLayout { name: "dwindle", symbol: "DW", label: "Dwindle" }));
    assert(all[12] == (MangoLayout { name: "fair", symbol: "F", label: "Fair" }));
    assert(all[13] == (MangoLayout { name: "vertical_fair", symbol: "VF", label: "Vertical Fair" }));
}

/// A name or a symbol that no layout has finds none, and what is found has the name or the symbol.
pub proof fn unknown_layouts_are_not_found(layouts: Seq<MangoLayout>, text: Seq<char>)
    ensures
        (forall|k: int| 0 <= k < layouts.len() ==> (#[trigger] layouts[k]).name@ != text) ==> first_named(layouts, text) is None,
        (forall|k: int| 0 <= k < layouts.len() ==> (#[trigger] layouts[k]).symbol@ != text) ==> first_with_symbol(
            layouts,
            text,
        ) is None,
        first_named(layouts, text) is Some ==> first_named(layouts, text)->0.name@ == text,
        first_with_symbol(layouts, text) is Some ==> first_with_symbol(layouts, text)->0.symbol@ == text,
    decreases layouts.len(),
{
    if layouts.len() > 0 {
        let rest = layouts.drop_first();
        unknown_layouts_are_not_found(rest, text);
        assert(forall|k: int| 0 <= k < rest.len() ==> #[trigger] rest[k] == layouts[k + 1]);
    }
}

} // verus!
