//! How the widgets of a configuration are listed: where they are placed and what their settings are.

use vstd::prelude::*;
use vstd::string::*;
use crate::config::options::{toml_text, ConfigOption, OptionTree};
use crate::config::{alert_option, building_options, builds, does_build, is_alert_option, same_handling};
use crate::config::{Config, WidgetOptions, WidgetPlacement, WidgetsConfig};
use crate::table::{as_map, distinct, lemma_as_map, Key, Table};
use crate::text::{self, alphabetical, alphabetical_holds_all, chars_of, digits, quoted, separated, views};

verus! {

/// How a placement is written.
pub open spec fn placement_name(side: Seq<char>, placement: WidgetPlacement) -> Seq<char> {
    match placement {
        WidgetPlacement::Single(name) => side + ":"@ + name@,
        WidgetPlacement::Group { group } => side + ":group:["@ + separated(views(group@), ", "@) + "]"@,
    }
}

/// How the placements of a side are written.
pub open spec fn side_names(side: Seq<char>, placements: Seq<WidgetPlacement>) -> Seq<Seq<char>> {
    placements.map_values(|p: WidgetPlacement| placement_name(side, p))
}

/// How all placements are written, from left to right.
pub open spec fn placement_names(w: WidgetsConfig) -> Seq<Seq<char>> {
    side_names("left"@, w.left@) + side_names("center"@, w.center@) + side_names("right"@, w.right@)
}

fn write_placement(side: &str, placement: &WidgetPlacement) -> (s: String)
    ensures
        s@ == placement_name(side@, *placement),
{
    match placement {
        WidgetPlacement::Single(name) => {
            let start = text::joined(side, ":");
            text::joined(start.as_str(), name.as_str())
        }
        WidgetPlacement::Group { group } => {
            let start = text::joined(side, ":group:[");
            let inner = text::join_texts(group, ", ");
            let middle = text::joined(start.as_str(), inner.as_str());
            text::joined(middle.as_str(), "]")
        }
    }
}

fn write_side(side: &str, placements: &Vec<WidgetPlacement>, names: &mut Vec<String>)
    ensures
        views(final(names)@) == views(old(names)@) + side_names(side@, placements@),
{
    let ghost before = views(names@);
    let ghost all = side_names(side@, placements@);
    let mut i: usize = 0;
    proof {
        assert(before + all.take(0) =~= before);
    }
    while i < placements.len()
        invariant
            i <= placements@.len(),
            all == side_names(side@, placements@),
            views(names@) == before + all.take(i as int),
        decreases placements@.len() - i,
    {
        let ghost held = views(names@);
        let name = write_placement(side, &placements[i]);
        let ghost added = name@;
        names.push(name);
        proof {
            assert(all[i as int] == added);
            assert(views(names@) =~= held.push(added));
            assert(before + all.take(i + 1) =~= (before + all.take(i as int)).push(added));
        }
        i += 1;
    }
    proof {
        assert(all.take(i as int) =~= all);
    }
}

/// How the placements of widgets are written, from left to right.
pub fn write_placements(widgets: &WidgetsConfig) -> (names: Vec<String>)
    ensures
        views(names@) == placement_names(*widgets),
{
    let mut names: Vec<String> = Vec::new();
    proof {
        assert(views(names@) =~= Seq::empty());
        assert(Seq::empty() + side_names("left"@, widgets.left@) =~= side_names(
            "left"@,
            widgets.left@,
        ));
    }
    write_side("left", &widgets.left, &mut names);
    write_side("center", &widgets.center, &mut names);
    write_side("right", &widgets.right, &mut names);
    names
}

/// How a text that may be missing is written.
pub open spec fn optional_text(t: Option<Seq<char>>) -> Seq<char> {
    match t {
        Some(s) => "Some("@ + quoted(s) + ")"@,
        None => "None"@,
    }
}

/// How a number that may be missing is written.
pub open spec fn optional_number(n: Option<u64>) -> Seq<char> {
    match n {
        Some(k) => "Some("@ + digits(k as nat) + ")"@,
        None => "None"@,
    }
}

/// How an option is written: its name and its value.
pub open spec fn option_text(name: Seq<char>, value: OptionTree) -> Seq<char> {
    "("@ + quoted(name) + ", "@ + toml_text(value) + ")"@
}

/// How options are written, in the order of their names.
pub open spec fn option_texts(options: Map<Seq<char>, ConfigOption>) -> Seq<Seq<char>> {
    alphabetical(options.dom()).map_values(|k: Seq<char>| option_text(k, options[k]@))
}

/// How the settings of a widget are written, but for those that change nothing that is built.
pub open spec fn settings_text(widget: Seq<char>, o: WidgetOptions) -> Seq<char> {
    "config:"@ + widget + ":disabled="@ + (if o.disabled { "true"@ } else { "false"@ }) + ",click_r="@ + optional_text(
        chars_of(o.on_click_right),
    ) + ",click_m="@ + optional_text(chars_of(o.on_click_middle)) + ",show_if="@ + optional_text(chars_of(o.show_if))
        + ",show_if_interval="@ + optional_number(o.show_if_interval) + ",["@ + separated(
        option_texts(building_options(widget, o.options@)),
        ", "@,
    ) + "]"@
}

/// The widgets whose settings count when widgets are built.
pub open spec fn built(configs: Map<Seq<char>, WidgetOptions>) -> Set<Seq<char>> {
    configs.dom().filter(|k: Seq<char>| builds(k, configs[k]))
}

/// How the settings of widgets are written, in the order of the widgets' names.
pub open spec fn settings_texts(configs: Map<Seq<char>, WidgetOptions>) -> Seq<Seq<char>> {
    alphabetical(built(configs)).map_values(|k: Seq<char>| settings_text(k, configs[k]))
}

/// How the placements of widgets and their settings are written.
pub open spec fn names_of(w: WidgetsConfig) -> Seq<Seq<char>> {
    placement_names(w) + settings_texts(w.widget_configs@)
}

fn write_optional(t: &Option<String>) -> (s: String)
    ensures
        s@ == optional_text(chars_of(*t)),
{
    match t {
        Some(s) => {
            let inner = text::joined("Some(", text::quote(s.as_str()).as_str());
            text::joined(inner.as_str(), ")")
        }
        None => "None".to_owned(),
    }
}

fn write_optional_number(n: Option<u64>) -> (s: String)
    ensures
        s@ == optional_number(n),
{
    match n {
        Some(k) => {
            let inner = text::joined("Some(", text::decimal(k).as_str());
            text::joined(inner.as_str(), ")")
        }
        None => "None".to_owned(),
    }
}

fn write_option(name: &str, value: &ConfigOption) -> (s: String)
    ensures
        s@ == option_text(name@, value@),
{
    let s = text::joined("(", text::quote(name).as_str());
    let s = text::joined(s.as_str(), ", ");
    let s = text::joined(s.as_str(), value.text());
    text::joined(s.as_str(), ")")
}

/// The names of the options of a widget that change how it is built.
fn building_names(widget: &str, options: &Table<String, ConfigOption>) -> (names: Vec<String>)
    ensures
        views(names@).no_duplicates(),
        views(names@).to_set() == building_options(widget@, options@).dom(),
{
    let battery = text::str_eq(widget, "battery");
    let entries = options.entries();
    proof {
        lemma_as_map(entries@);
    }
    let mut names: Vec<String> = Vec::new();
    let mut i: usize = 0;
    while i < entries.len()
        invariant
            i <= entries@.len(),
            distinct(entries@),
            views(names@).no_duplicates(),
            forall|k: Seq<char>| #[trigger]
                views(names@).contains(k) <==> !(battery && alert_option(k)) && as_map(
                    entries@.take(i as int),
                ).dom().contains(k),
        decreases entries@.len() - i,
    {
        let ghost before = views(names@);
        let name = &entries[i].0;
        if !(battery && is_alert_option(name.as_str())) {
            names.push(name.clone());
            proof {
                assert(views(names@) =~= before.push(entries@[i as int].0@));
            }
        }
        proof {
            lemma_next_key(entries@, i as int);
            lemma_pushed(before, entries@[i as int].0@);
            let seen = as_map(entries@.take(i as int)).dom();
            assert forall|k: Seq<char>| #[trigger]
                views(names@).contains(k) <==> !(battery && alert_option(k)) && as_map(
                    entries@.take(i + 1),
                ).dom().contains(k) by {
                assert(before.contains(k) <==> !(battery && alert_option(k)) && seen.contains(k));
            }
        }
        i += 1;
    }
    proof {
        assert(entries@.take(i as int) =~= entries@);
        assert(views(names@).to_set() =~= building_options(widget@, options@).dom());
    }
    names
}

/// One more entry adds its key, which no entry before it has.
proof fn lemma_next_key<V>(entries: Seq<(String, V)>, i: int)
    requires
        distinct(entries),
        0 <= i < entries.len(),
    ensures
        !as_map(entries.take(i)).dom().contains(entries[i].0@),
        as_map(entries.take(i + 1)).dom() == as_map(entries.take(i)).dom().insert(entries[i].0@),
{
    let head = entries.take(i);
    assert(distinct(head)) by {
        assert forall|a: int, b: int| #![trigger head[a], head[b]] 0 <= a < b < head.len() implies head[a].0.id()
            != head[b].0.id() by {
            assert(entries[a].0.id() != entries[b].0.id());
        }
    }
    lemma_as_map(head);
    if as_map(head).dom().contains(entries[i].0@) {
        let j = choose|j: int| 0 <= j < head.len() && (#[trigger] head[j]).0@ == entries[i].0@;
        assert(entries[j].0.id() != entries[i].0.id());
    }
    assert(entries.take(i + 1).drop_last() =~= head);
    assert(entries.take(i + 1).last() == entries[i]);
}

proof fn lemma_pushed(s: Seq<Seq<char>>, x: Seq<char>)
    ensures
        forall|k: Seq<char>| s.push(x).contains(k) <==> s.contains(k) || k == x,
        s.no_duplicates() && !s.contains(x) ==> s.push(x).no_duplicates(),
{
    let t = s.push(x);
    assert forall|k: Seq<char>| t.contains(k) <==> s.contains(k) || k == x by {
        if s.contains(k) {
            let i = choose|i: int| 0 <= i < s.len() && s[i] == k;
            assert(t[i] == k);
        }
        assert(t[s.len() as int] == x);
    }
}

fn write_options(widget: &str, options: &Table<String, ConfigOption>) -> (texts: Vec<String>)
    ensures
        views(texts@) == option_texts(building_options(widget@, options@)),
{
    let ghost building = building_options(widget@, options@);
    let names = text::alphabetized(building_names(widget, options));
    let mut texts: Vec<String> = Vec::new();
    let mut i: usize = 0;
    while i < names.len()
        invariant
            i <= names@.len(),
            building == building_options(widget@, options@),
            views(names@).to_set() == building.dom(),
            views(texts@) == views(names@).take(i as int).map_values(|k: Seq<char>| option_text(k, building[k]@)),
        decreases names@.len() - i,
    {
        let ghost before = views(texts@);
        proof {
            assert(views(names@)[i as int] == names@[i as int]@);
            assert(views(names@).to_set().contains(names@[i as int]@));
        }
        if let Some(value) = options.get(&names[i]) {
            texts.push(write_option(names[i].as_str(), value));
        }
        proof {
            assert(views(texts@) =~= before.push(texts@.last()@));
            assert(views(texts@) =~= views(names@).take(i + 1).map_values(|k: Seq<char>| option_text(k, building[k]@)));
        }
        i += 1;
    }
    proof {
        assert(views(names@).take(i as int) =~= views(names@));
    }
    texts
}

fn write_settings(widget: &str, o: &WidgetOptions) -> (s: String)
    ensures
        s@ == settings_text(widget@, *o),
{
    let options = text::join_texts(&write_options(widget, &o.options), ", ");
    let s = text::joined("config:", widget);
    let s = text::joined(s.as_str(), ":disabled=");
    let s = text::joined(s.as_str(), if o.disabled { "true" } else { "false" });
    let s = text::joined(s.as_str(), ",click_r=");
    let s = text::joined(s.as_str(), write_optional(&o.on_click_right).as_str());
    let s = text::joined(s.as_str(), ",click_m=");
    let s = text::joined(s.as_str(), write_optional(&o.on_click_middle).as_str());
    let s = text::joined(s.as_str(), ",show_if=");
    let s = text::joined(s.as_str(), write_optional(&o.show_if).as_str());
    let s = text::joined(s.as_str(), ",show_if_interval=");
    let s = text::joined(s.as_str(), write_optional_number(o.show_if_interval).as_str());
    let s = text::joined(s.as_str(), ",[");
    let s = text::joined(s.as_str(), options.as_str());
    text::joined(s.as_str(), "]")
}

/// The names of the widgets whose settings count when widgets are built.
fn built_names(configs: &Table<String, WidgetOptions>) -> (names: Vec<String>)
    ensures
        views(names@).no_duplicates(),
        views(names@).to_set() == built(configs@),
{
    let entries = configs.entries();
    proof {
        lemma_as_map(entries@);
    }
    let mut names: Vec<String> = Vec::new();
    let mut i: usize = 0;
    while i < entries.len()
        invariant
            i <= entries@.len(),
            distinct(entries@),
            configs@ == as_map(entries@),
            forall|j: int| 0 <= j < entries@.len() ==> configs@[(#[trigger] entries@[j]).0@] == entries@[j].1,
            views(names@).no_duplicates(),
            forall|k: Seq<char>| #[trigger]
                views(names@).contains(k) <==> builds(k, configs@[k]) && as_map(
                    entries@.take(i as int),
                ).dom().contains(k),
        decreases entries@.len() - i,
    {
        let ghost before = views(names@);
        let name = &entries[i].0;
        if does_build(name.as_str(), &entries[i].1) {
            names.push(name.clone());
            proof {
                assert(views(names@) =~= before.push(entries@[i as int].0@));
            }
        }
        proof {
            lemma_next_key(entries@, i as int);
            lemma_pushed(before, entries@[i as int].0@);
            let seen = as_map(entries@.take(i as int)).dom();
            assert forall|k: Seq<char>| #[trigger] views(names@).contains(k) <==> builds(k, configs@[k]) && as_map(
                entries@.take(i + 1),
            ).dom().contains(k) by {
                assert(before.contains(k) <==> builds(k, configs@[k]) && seen.contains(k));
            }
        }
        i += 1;
    }
    proof {
        assert(entries@.take(i as int) =~= entries@);
        assert(views(names@).to_set() =~= built(configs@));
    }
    names
}

/// How the placements of widgets are written, from left to right, and behind them the settings of
/// widgets, in the order of the widgets' names.
pub fn widget_names(config: &Config) -> (names: Vec<String>)
    ensures
        views(names@) == names_of(config.widgets),
{
    let configs = &config.widgets.widget_configs;
    let ghost placed = placement_names(config.widgets);
    let widgets = text::alphabetized(built_names(configs));
    let mut names = write_placements(&config.widgets);
    let mut i: usize = 0;
    proof {
        assert(placed + views(widgets@).take(0).map_values(|k: Seq<char>| settings_text(k, configs@[k])) =~= placed);
    }
    while i < widgets.len()
        invariant
            i <= widgets@.len(),
            views(widgets@).to_set() == built(configs@),
            views(names@) == placed + views(widgets@).take(i as int).map_values(
                |k: Seq<char>| settings_text(k, configs@[k]),
            ),
        decreases widgets@.len() - i,
    {
        let ghost before = views(names@);
        proof {
            assert(views(widgets@)[i as int] == widgets@[i as int]@);
            assert(views(widgets@).to_set().contains(widgets@[i as int]@));
        }
        if let Some(options) = configs.get(&widgets[i]) {
            names.push(write_settings(widgets[i].as_str(), options));
        }
        proof {
            assert(views(names@) =~= before.push(names@.last()@));
            assert(views(names@) =~= placed + views(widgets@).take(i + 1).map_values(
                |k: Seq<char>| settings_text(k, configs@[k]),
            ));
        }
        i += 1;
    }
    proof {
        assert(views(widgets@).take(i as int) =~= views(widgets@));
    }
    names
}

/// Settings that hold the same are listed alike, whatever order they come in.
pub proof fn equal_settings_are_listed_alike(
    a: Map<Seq<char>, WidgetOptions>,
    b: Map<Seq<char>, WidgetOptions>,
)
    requires
        a.dom().finite(),
        forall|k: Seq<char>| #[trigger] a.dom().contains(k) ==> a[k].options@.dom().finite(),
        a.dom() == b.dom(),
        forall|k: Seq<char>| #[trigger] a.dom().contains(k) ==> same_handling(a[k], b[k]),
        forall|k: Seq<char>| #[trigger]
            a.dom().contains(k) ==> building_options(k, a[k].options@).dom() == building_options(
                k,
                b[k].options@,
            ).dom(),
        forall|k: Seq<char>, o: Seq<char>|
            a.dom().contains(k) && building_options(k, a[k].options@).dom().contains(o) ==> (
            #[trigger] a[k].options@[o])@ == b[k].options@[o]@,
    ensures
        settings_texts(a) == settings_texts(b),
{
    let nothing = Map::<Seq<char>, ConfigOption>::empty();
    assert forall|k: Seq<char>| a.dom().contains(k) implies builds(k, a[k]) == builds(k, b[k]) && settings_text(k, a[k])
        == settings_text(k, b[k]) by {
        assert(same_handling(a[k], b[k]));
        let x = building_options(k, a[k].options@);
        let y = building_options(k, b[k].options@);
        assert(x == nothing <==> y == nothing) by {
            if x == nothing {
                assert(y =~= nothing);
            }
            if y == nothing {
                assert(x =~= nothing);
            }
        }
        alphabetical_holds_all(x.dom());
        let names = alphabetical(x.dom());
        assert forall|i: int| 0 <= i < names.len() implies option_texts(x)[i] == option_texts(y)[i] by {
            assert(names.to_set().contains(names[i]));
            assert(a[k].options@[names[i]]@ == b[k].options@[names[i]]@);
        }
        assert(option_texts(x) =~= option_texts(y));
    }
    assert(built(a) =~= built(b));
    alphabetical_holds_all(built(a));
    let widgets = alphabetical(built(a));
    assert forall|i: int| 0 <= i < widgets.len() implies settings_texts(a)[i] == settings_texts(b)[i] by {
        assert(widgets.to_set().contains(widgets[i]));
    }
    assert(settings_texts(a) =~= settings_texts(b));
}

/// Placements are listed from left to right, each with its side and the widget's name, or the names of its group.
pub proof fn placements_are_listed_with_their_side(w: WidgetsConfig, i: int)
    ensures
        placement_names(w).len() == w.left@.len() + w.center@.len() + w.right@.len(),
        ({
            let l = w.left@.len();
            let c = w.center@.len();
            let names = placement_names(w);
            &&& 0 <= i < l ==> match w.left@[i] {
                WidgetPlacement::Single(name) => names[i] == "left"@ + ":"@ + name@,
                WidgetPlacement::Group { group } => names[i] == "left"@ + ":group:["@ + separated(
                    views(group@),
                    ", "@,
                ) + "]"@,
            }
            &&& 0 <= i < c ==> match w.center@[i] {
                WidgetPlacement::Single(name) => names[l + i] == "center"@ + ":"@ + name@,
                WidgetPlacement::Group { group } => names[l + i] == "center"@ + ":group:["@ + separated(
                    views(group@),
                    ", "@,
                ) + "]"@,
            }
            &&& 0 <= i < w.right@.len() ==> match w.right@[i] {
                WidgetPlacement::Single(name) => names[l + c + i] == "right"@ + ":"@ + name@,
                WidgetPlacement::Group { group } => names[l + c + i] == "right"@ + ":group:["@ + separated(
                    views(group@),
                    ", "@,
                ) + "]"@,
            }
        }),
{
    let l = w.left@.len() as int;
    let c = w.center@.len() as int;
    let names = placement_names(w);
    if 0 <= i < l {
        assert(names[i] == side_names("left"@, w.left@)[i]);
    }
    if 0 <= i < c {
        assert(names[l + i] == side_names("center"@, w.center@)[i]);
    }
    if 0 <= i < w.right@.len() {
        assert(names[l + c + i] == side_names("right"@, w.right@)[i]);
    }
}

/// The settings of a widget are listed under its name: whether it is disabled, its clicks, its condition, how often
/// that is looked at, and its options. What is not set is `None`.
pub proof fn settings_are_listed_by_name(widget: Seq<char>, o: WidgetOptions, t: String, n: u64)
    ensures
        ({
            let right = optional_text(chars_of(o.on_click_right));
            let middle = optional_text(chars_of(o.on_click_middle));
            let condition = optional_text(chars_of(o.show_if));
            let interval = optional_number(o.show_if_interval);
            let options = separated(option_texts(building_options(widget, o.options@)), ", "@);
            let word = if o.disabled {
                "true"@
            } else {
                "false"@
            };
            settings_text(widget, o) == "config:"@ + widget + ":disabled="@ + word + ",click_r="@ + right + ",click_m="@
                + middle + ",show_if="@ + condition + ",show_if_interval="@ + interval + ",["@ + options + "]"@
        }),
        optional_text(None) == "None"@,
        optional_text(Some(t@)) == "Some("@ + quoted(t@) + ")"@,
        optional_number(None) == "None"@,
        optional_number(Some(n)) == "Some("@ + digits(n as nat) + ")"@,
{
}

/// Of an option its name and its value are listed, and of a widget every option in the order of their names.
pub proof fn options_are_listed_in_order(options: Map<Seq<char>, ConfigOption>, i: int, j: int)
    requires
        options.dom().finite(),
        0 <= i < j < option_texts(options).len(),
    ensures
        ({
            let names = alphabetical(options.dom());
            &&& options.dom().contains(names[i]) && options.dom().contains(names[j])
            &&& option_texts(options)[i] == "("@ + quoted(names[i]) + ", "@ + toml_text(options[names[i]]@) + ")"@
            &&& option_texts(options)[j] == "("@ + quoted(names[j]) + ", "@ + toml_text(options[names[j]]@) + ")"@
        }),
{
    alphabetical_holds_all(options.dom());
}

} // verus!
