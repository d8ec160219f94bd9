//! The configuration of the panel, and what a change of it means.

pub mod css;
pub mod manager;
pub mod names;
pub mod options;
pub mod watch;

use vstd::prelude::*;
use vstd::string::*;
use crate::bar::BarPosition;
use crate::config::names::{placement_names, write_placements};
use crate::config::options::{
    alike, alike_itself, equal_doubles, equal_optional_doubles, flag_of, same_double, same_optional_double,
    ConfigOption, OptionTree, Sameness,
};
use crate::table::{as_map, lemma_as_map, Table};
use crate::text::{self, chars_of, views};

verus! {

/// Whether colours are dark or light, or follow the desktop.
#[derive(Clone, Copy, Debug, PartialEq, Eq, Structural)]
pub enum SchemePolarity {
    Dark,
    Light,
    Gtk,
}

/// The settings of icons.
#[derive(Debug)]
pub struct IconsConfig {
    pub theme: String,
    pub weight: u32,
}

/// The settings of colours and effects.
#[derive(Debug)]
pub struct ThemeConfig {
    pub mode: String,
    pub scheme: Option<SchemePolarity>,
    pub wallpaper: Option<String>,
    pub popover: Option<String>,
    pub icons: IconsConfig,
    pub animations: bool,
    pub ripple: bool,
    pub blur: bool,
    /// The other settings of the section.
    pub other: Table<String, ConfigOption>,
}

/// The settings of the bar. Doubles are kept as bit patterns.
#[derive(Debug)]
pub struct BarConfig {
    pub size: u32,
    pub screen_margin: u32,
    pub spacing: u32,
    pub inset: u32,
    pub padding: u32,
    pub border_radius: u32,
    pub popover_offset: u32,
    pub position: String,
    /// The edge that the position means.
    pub side: BarPosition,
    pub background_color: Option<String>,
    pub background_opacity: u64,
    pub outline: Option<bool>,
    pub outputs: Vec<String>,
}

/// A widget, or widgets in a group.
#[derive(Debug)]
pub enum WidgetPlacement {
    Single(String),
    Group { group: Vec<String> },
}

/// The settings of a widget.
#[derive(Debug)]
pub struct WidgetOptions {
    pub disabled: bool,
    pub on_click_right: Option<String>,
    pub on_click_middle: Option<String>,
    pub show_if: Option<String>,
    pub show_if_interval: Option<u64>,
    pub options: Table<String, ConfigOption>,
}

/// The settings of all widgets.
#[derive(Debug)]
pub struct WidgetsConfig {
    pub left: Vec<WidgetPlacement>,
    pub center: Vec<WidgetPlacement>,
    pub right: Vec<WidgetPlacement>,
    pub widget_configs: Table<String, WidgetOptions>,
    pub background_color: Option<String>,
    pub background_opacity: u64,
    pub popover_background_opacity: Option<u64>,
    pub border_radius: u32,
    pub outline: Option<bool>,
}

/// The units of the weather.
#[derive(Clone, Copy, Debug, PartialEq, Eq, Structural)]
pub enum WeatherUnits {
    Metric,
    Imperial,
}

/// The settings of the weather. Doubles are kept as bit patterns.
#[derive(Debug)]
pub struct WeatherConfig {
    pub auto_locate: bool,
    pub latitude: Option<u64>,
    pub longitude: Option<u64>,
    pub location: Option<String>,
    pub units: WeatherUnits,
    /// The units of the wind, where they are set on their own.
    pub wind_units: Option<String>,
    pub refresh_interval: u64,
}

/// Settings that are seldom needed.
#[derive(Debug)]
pub struct AdvancedConfig {
    pub compositor: String,
    pub pango_font_rendering: bool,
}

/// The settings of low-battery alerts.
#[derive(Clone, Copy, Debug, PartialEq, Eq, Structural)]
pub struct BatteryAlertConfig {
    pub enabled: bool,
    pub low_threshold: u32,
    pub critical_threshold: u32,
}

/// A configuration.
#[derive(Debug)]
pub struct Config {
    pub bar: BarConfig,
    pub theme: ThemeConfig,
    pub widgets: WidgetsConfig,
    pub weather: WeatherConfig,
    pub advanced: AdvancedConfig,
    pub battery_alert: BatteryAlertConfig,
    /// Whether the volume may go above its nominal maximum.
    pub allow_overdrive: bool,
}

/// Whether options are the same under every name.
pub open spec fn same_options(
    how: Sameness,
    a: Map<Seq<char>, ConfigOption>,
    b: Map<Seq<char>, ConfigOption>,
) -> bool {
    &&& a.dom() == b.dom()
    &&& forall|k: Seq<char>| #[trigger] a.dom().contains(k) ==> alike(how, a[k]@, b[k]@)
}

/// The options that say when the battery alerts: they do not change how a widget is built.
pub open spec fn alert_option(name: Seq<char>) -> bool {
    name == "alerts"@ || name == "low_threshold"@ || name == "critical_threshold"@
}

/// The options of a widget that change how it is built.
pub open spec fn building_options(widget: Seq<char>, options: Map<Seq<char>, ConfigOption>) -> Map<
    Seq<char>,
    ConfigOption,
> {
    if widget == "battery"@ {
        options.remove("alerts"@).remove("low_threshold"@).remove("critical_threshold"@)
    } else {
        options
    }
}

/// Whether the settings of a widget count when widgets are built: those of a battery that only say
/// when it alerts do not.
pub open spec fn builds(widget: Seq<char>, o: WidgetOptions) -> bool {
    widget != "battery"@ || o.disabled || o.on_click_right is Some || o.on_click_middle is Some || o.show_if is Some
        || o.show_if_interval is Some || building_options(widget, o.options@) != Map::<Seq<char>, ConfigOption>::empty()
}

/// Whether the settings of a widget, but for its options, are the same.
pub open spec fn same_handling(a: WidgetOptions, b: WidgetOptions) -> bool {
    &&& a.disabled == b.disabled
    &&& chars_of(a.on_click_right) == chars_of(b.on_click_right)
    &&& chars_of(a.on_click_middle) == chars_of(b.on_click_middle)
    &&& chars_of(a.show_if) == chars_of(b.show_if)
    &&& a.show_if_interval == b.show_if_interval
}

/// Whether a widget is built the same from both settings.
pub open spec fn same_building(widget: Seq<char>, a: WidgetOptions, b: WidgetOptions) -> bool {
    same_handling(a, b) && same_options(
        Sameness::Identical,
        building_options(widget, a.options@),
        building_options(widget, b.options@),
    )
}

/// Whether all widgets are built the same from both settings.
pub open spec fn same_buildings(a: Map<Seq<char>, WidgetOptions>, b: Map<Seq<char>, WidgetOptions>) -> bool {
    &&& forall|k: Seq<char>| #[trigger]
        a.dom().contains(k) && builds(k, a[k]) ==> b.dom().contains(k) && builds(k, b[k]) && same_building(k, a[k], b[k])
    &&& forall|k: Seq<char>| #[trigger]
        b.dom().contains(k) && builds(k, b[k]) ==> a.dom().contains(k) && builds(k, a[k])
}

/// Whether the settings of widgets are equal.
pub open spec fn equal_widgets(a: Map<Seq<char>, WidgetOptions>, b: Map<Seq<char>, WidgetOptions>) -> bool {
    &&& a.dom() == b.dom()
    &&& forall|k: Seq<char>| #[trigger]
        a.dom().contains(k) ==> same_handling(a[k], b[k]) && same_options(Sameness::Equal, a[k].options@, b[k].options@)
}

pub(crate) fn is_alert_option(name: &str) -> (yes: bool)
    ensures
        yes == alert_option(name@),
{
    text::str_eq(name, "alerts") || text::str_eq(name, "low_threshold") || text::str_eq(name, "critical_threshold")
}

/// Whether the options of `a` are in `b`; those that only say when the battery alerts may be left
/// out on both sides.
fn options_within(
    a: &Table<String, ConfigOption>,
    b: &Table<String, ConfigOption>,
    how: Sameness,
    without_alerts: bool,
) -> (yes: bool)
    ensures
        yes == forall|k: Seq<char>| #[trigger]
            a@.dom().contains(k) && !(without_alerts && alert_option(k)) ==> b@.dom().contains(k) && alike(
                how,
                a@[k]@,
                b@[k]@,
            ),
{
    let entries = a.entries();
    proof {
        lemma_as_map(entries@);
    }
    let mut i: usize = 0;
    while i < entries.len()
        invariant
            i <= entries@.len(),
            entries@ == a.pairs(),
            forall|j: int|
                0 <= j < entries@.len() ==> a@.dom().contains((#[trigger] entries@[j]).0@) && a@[entries@[j].0@]
                    == entries@[j].1,
            forall|j: int|
                0 <= j < i && !(without_alerts && alert_option((#[trigger] entries@[j]).0@)) ==> b@.dom().contains(
                    entries@[j].0@,
                ) && alike(how, entries@[j].1@, b@[entries@[j].0@]@),
        decreases entries@.len() - i,
    {
        let name = &entries[i].0;
        if !(without_alerts && is_alert_option(name.as_str())) {
            match b.get(name) {
                Some(value) => {
                    if !entries[i].1.value().same(value.value(), how) {
                        assert(a@.dom().contains(entries@[i as int].0@));
                        return false;
                    }
                }
                None => {
                    assert(a@.dom().contains(entries@[i as int].0@));
                    return false;
                }
            }
        }
        i += 1;
    }
    proof {
        assert forall|k: Seq<char>| #[trigger]
            a@.dom().contains(k) && !(without_alerts && alert_option(k)) implies b@.dom().contains(k) && alike(
            how,
            a@[k]@,
            b@[k]@,
        ) by {
            assert(as_map(entries@).dom().contains(k));
            let j = choose|j: int| 0 <= j < entries@.len() && (#[trigger] entries@[j]).0@ == k;
            assert(entries@[j].0@ == k);
        }
    }
    true
}

fn is_same_options(a: &Table<String, ConfigOption>, b: &Table<String, ConfigOption>, how: Sameness) -> (yes: bool)
    ensures
        yes == same_options(how, a@, b@),
{
    let yes = options_within(a, b, how, false) && names_within(b, a, false);
    proof {
        if yes {
            assert(a@.dom() =~= b@.dom());
        }
    }
    yes
}

/// Whether the names of options of `a` are in `b`.
fn names_within(a: &Table<String, ConfigOption>, b: &Table<String, ConfigOption>, without_alerts: bool) -> (yes: bool)
    ensures
        yes == forall|k: Seq<char>| #[trigger]
            a@.dom().contains(k) && !(without_alerts && alert_option(k)) ==> b@.dom().contains(k),
{
    let entries = a.entries();
    proof {
        lemma_as_map(entries@);
    }
    let mut i: usize = 0;
    while i < entries.len()
        invariant
            i <= entries@.len(),
            entries@ == a.pairs(),
            forall|j: int| 0 <= j < entries@.len() ==> a@.dom().contains((#[trigger] entries@[j]).0@),
            forall|j: int|
                0 <= j < i && !(without_alerts && alert_option((#[trigger] entries@[j]).0@)) ==> b@.dom().contains(
                    entries@[j].0@,
                ),
        decreases entries@.len() - i,
    {
        let name = &entries[i].0;
        if !(without_alerts && is_alert_option(name.as_str())) && !b.contains_key(name) {
            assert(a@.dom().contains(entries@[i as int].0@));
            return false;
        }
        i += 1;
    }
    proof {
        assert forall|k: Seq<char>| #[trigger]
            a@.dom().contains(k) && !(without_alerts && alert_option(k)) implies b@.dom().contains(k) by {
            assert(as_map(entries@).dom().contains(k));
            let j = choose|j: int| 0 <= j < entries@.len() && (#[trigger] entries@[j]).0@ == k;
            assert(entries@[j].0@ == k);
        }
    }
    true
}

fn is_same_handling(a: &WidgetOptions, b: &WidgetOptions) -> (yes: bool)
    ensures
        yes == same_handling(*a, *b),
{
    let intervals = match (a.show_if_interval, b.show_if_interval) {
        (Some(x), Some(y)) => x == y,
        (None, None) => true,
        _ => false,
    };
    a.disabled == b.disabled && text::opt_eq(&a.on_click_right, &b.on_click_right) && text::opt_eq(
        &a.on_click_middle,
        &b.on_click_middle,
    ) && text::opt_eq(&a.show_if, &b.show_if) && intervals
}

fn is_same_building(widget: &str, a: &WidgetOptions, b: &WidgetOptions) -> (yes: bool)
    ensures
        yes == same_building(widget@, *a, *b),
{
    let battery = text::str_eq(widget, "battery");
    let yes = is_same_handling(a, b) && options_within(&a.options, &b.options, Sameness::Identical, battery)
        && names_within(&b.options, &a.options, battery);
    proof {
        let x = building_options(widget@, a.options@);
        let y = building_options(widget@, b.options@);
        assert forall|k: Seq<char>| x.dom().contains(k) == (a.options@.dom().contains(k) && !(battery && alert_option(k)))
            by {}
        assert forall|k: Seq<char>| y.dom().contains(k) == (b.options@.dom().contains(k) && !(battery && alert_option(k)))
            by {}
        if yes {
            assert(x.dom() =~= y.dom());
        } else if same_building(widget@, *a, *b) {
            assert forall|k: Seq<char>| #[trigger]
                a.options@.dom().contains(k) && !(battery && alert_option(k)) implies b.options@.dom().contains(k)
                && alike(Sameness::Identical, a.options@[k]@, b.options@[k]@) by {
                assert(x.dom().contains(k));
            }
            assert forall|k: Seq<char>| #[trigger]
                b.options@.dom().contains(k) && !(battery && alert_option(k)) implies a.options@.dom().contains(k) by {
                assert(y.dom().contains(k));
            }
        }
    }
    yes
}

pub(crate) fn does_build(widget: &str, o: &WidgetOptions) -> (yes: bool)
    ensures
        yes == builds(widget@, *o),
{
    if !text::str_eq(widget, "battery") {
        return true;
    }
    if o.disabled || o.on_click_right.is_some() || o.on_click_middle.is_some() || o.show_if.is_some()
        || o.show_if_interval.is_some() {
        return true;
    }
    let nothing: Table<String, ConfigOption> = Table::new();
    let yes = !names_within(&o.options, &nothing, true);
    proof {
        let x = building_options(widget@, o.options@);
        let empty = Map::<Seq<char>, ConfigOption>::empty();
        if yes {
            let k = choose|k: Seq<char>| #[trigger] o.options@.dom().contains(k) && !alert_option(k);
            assert(x.dom().contains(k));
        } else {
            assert(x =~= empty) by {
                assert forall|k: Seq<char>| !x.dom().contains(k) by {
                    if x.dom().contains(k) {
                        assert(o.options@.dom().contains(k));
                    }
                }
            }
        }
    }
    yes
}

fn buildings_within(
    a: &Table<String, WidgetOptions>,
    b: &Table<String, WidgetOptions>,
    compared: bool,
) -> (yes: bool)
    ensures
        yes == forall|k: Seq<char>| #[trigger]
            a@.dom().contains(k) && builds(k, a@[k]) ==> b@.dom().contains(k) && builds(k, b@[k]) && (compared
                ==> same_building(k, a@[k], b@[k])),
{
    let entries = a.entries();
    proof {
        lemma_as_map(entries@);
    }
    let mut i: usize = 0;
    while i < entries.len()
        invariant
            i <= entries@.len(),
            entries@ == a.pairs(),
            forall|j: int|
                0 <= j < entries@.len() ==> a@.dom().contains((#[trigger] entries@[j]).0@) && a@[entries@[j].0@]
                    == entries@[j].1,
            forall|j: int|
                0 <= j < i && builds((#[trigger] entries@[j]).0@, entries@[j].1) ==> b@.dom().contains(entries@[j].0@)
                    && builds(entries@[j].0@, b@[entries@[j].0@]) && (compared ==> same_building(
                    entries@[j].0@,
                    entries@[j].1,
                    b@[entries@[j].0@],
                )),
        decreases entries@.len() - i,
    {
        let name = &entries[i].0;
        let options = &entries[i].1;
        if does_build(name.as_str(), options) {
            match b.get(name) {
                Some(other) => {
                    if !does_build(name.as_str(), other) || (compared && !is_same_building(
                        name.as_str(),
                        options,
                        other,
                    )) {
                        assert(a@.dom().contains(entries@[i as int].0@));
                        return false;
                    }
                }
                None => {
                    assert(a@.dom().contains(entries@[i as int].0@));
                    return false;
                }
            }
        }
        i += 1;
    }
    proof {
        assert forall|k: Seq<char>| #[trigger] a@.dom().contains(k) && builds(k, a@[k]) implies b@.dom().contains(k)
            && builds(k, b@[k]) && (compared ==> same_building(k, a@[k], b@[k])) by {
            assert(as_map(entries@).dom().contains(k));
            let j = choose|j: int| 0 <= j < entries@.len() && (#[trigger] entries@[j]).0@ == k;
            assert(entries@[j].0@ == k);
        }
    }
    true
}

fn widgets_within(a: &Table<String, WidgetOptions>, b: &Table<String, WidgetOptions>) -> (yes: bool)
    ensures
        yes == forall|k: Seq<char>| #[trigger]
            a@.dom().contains(k) ==> b@.dom().contains(k) && same_handling(a@[k], b@[k]) && same_options(
                Sameness::Equal,
                a@[k].options@,
                b@[k].options@,
            ),
{
    let entries = a.entries();
    proof {
        lemma_as_map(entries@);
    }
    let mut i: usize = 0;
    while i < entries.len()
        invariant
            i <= entries@.len(),
            entries@ == a.pairs(),
            forall|j: int|
                0 <= j < entries@.len() ==> a@.dom().contains((#[trigger] entries@[j]).0@) && a@[entries@[j].0@]
                    == entries@[j].1,
            forall|j: int|
                0 <= j < i ==> b@.dom().contains((#[trigger] entries@[j]).0@) && same_handling(
                    entries@[j].1,
                    b@[entries@[j].0@],
                ) && same_options(Sameness::Equal, entries@[j].1.options@, b@[entries@[j].0@].options@),
        decreases entries@.len() - i,
    {
        match b.get(&entries[i].0) {
            Some(other) => {
                if !is_same_handling(&entries[i].1, other) || !is_same_options(
                    &entries[i].1.options,
                    &other.options,
                    Sameness::Equal,
                ) {
                    assert(a@.dom().contains(entries@[i as int].0@));
                    return false;
                }
            }
            None => {
                assert(a@.dom().contains(entries@[i as int].0@));
                return false;
            }
        }
        i += 1;
    }
    proof {
        assert forall|k: Seq<char>| #[trigger] a@.dom().contains(k) implies b@.dom().contains(k) && same_handling(
            a@[k],
            b@[k],
        ) && same_options(Sameness::Equal, a@[k].options@, b@[k].options@) by {
            assert(as_map(entries@).dom().contains(k));
            let j = choose|j: int| 0 <= j < entries@.len() && (#[trigger] entries@[j]).0@ == k;
            assert(entries@[j].0@ == k);
        }
    }
    true
}

fn widget_names_within(a: &Table<String, WidgetOptions>, b: &Table<String, WidgetOptions>) -> (yes: bool)
    ensures
        yes == a@.dom().subset_of(b@.dom()),
{
    let entries = a.entries();
    proof {
        lemma_as_map(entries@);
    }
    let mut i: usize = 0;
    while i < entries.len()
        invariant
            i <= entries@.len(),
            entries@ == a.pairs(),
            forall|j: int| 0 <= j < entries@.len() ==> a@.dom().contains((#[trigger] entries@[j]).0@),
            forall|j: int| 0 <= j < i ==> b@.dom().contains((#[trigger] entries@[j]).0@),
        decreases entries@.len() - i,
    {
        if !b.contains_key(&entries[i].0) {
            assert(a@.dom().contains(entries@[i as int].0@));
            return false;
        }
        i += 1;
    }
    proof {
        assert forall|k: Seq<char>| a@.dom().contains(k) implies b@.dom().contains(k) by {
            assert(as_map(entries@).dom().contains(k));
            let j = choose|j: int| 0 <= j < entries@.len() && (#[trigger] entries@[j]).0@ == k;
            assert(entries@[j].0@ == k);
        }
    }
    true
}

/// Whether the settings of some widget differ: new, changed or removed ones.
pub fn per_widget_styles_changed(old_config: &Config, new_config: &Config) -> (changed: bool)
    ensures
        changed == !equal_widgets(old_config.widgets.widget_configs@, new_config.widgets.widget_configs@),
{
    let a = &old_config.widgets.widget_configs;
    let b = &new_config.widgets.widget_configs;
    let same = widgets_within(a, b) && widget_names_within(b, a);
    proof {
        if same {
            assert(a@.dom() =~= b@.dom());
        }
    }
    !same
}

/// Whether the themes are equal.
pub open spec fn equal_themes(a: ThemeConfig, b: ThemeConfig) -> bool {
    &&& a.mode@ == b.mode@
    &&& a.scheme == b.scheme
    &&& chars_of(a.wallpaper) == chars_of(b.wallpaper)
    &&& chars_of(a.popover) == chars_of(b.popover)
    &&& a.icons.theme@ == b.icons.theme@
    &&& a.icons.weight == b.icons.weight
    &&& a.animations == b.animations
    &&& a.ripple == b.ripple
    &&& a.blur == b.blur
    &&& same_options(Sameness::Equal, a.other@, b.other@)
}

fn same_scheme(a: Option<SchemePolarity>, b: Option<SchemePolarity>) -> (yes: bool)
    ensures
        yes == (a == b),
{
    match (a, b) {
        (Some(x), Some(y)) => x == y,
        (None, None) => true,
        _ => false,
    }
}

fn same_flag(a: Option<bool>, b: Option<bool>) -> (yes: bool)
    ensures
        yes == (a == b),
{
    match (a, b) {
        (Some(x), Some(y)) => x == y,
        (None, None) => true,
        _ => false,
    }
}

fn is_equal_theme(a: &ThemeConfig, b: &ThemeConfig) -> (yes: bool)
    ensures
        yes == equal_themes(*a, *b),
{
    a.mode == b.mode && same_scheme(a.scheme, b.scheme) && text::opt_eq(&a.wallpaper, &b.wallpaper) && text::opt_eq(
        &a.popover,
        &b.popover,
    ) && a.icons.theme == b.icons.theme && a.icons.weight == b.icons.weight && a.animations == b.animations && a.ripple
        == b.ripple && a.blur == b.blur && is_same_options(&a.other, &b.other, Sameness::Equal)
}

/// Whether settings that decide about colours and sizes differ: the theme, and what the bar, the
/// widgets and the fonts add to it.
pub open spec fn theme_changed(a: Config, b: Config) -> bool {
    ||| !equal_themes(a.theme, b.theme)
    ||| chars_of(a.bar.background_color) != chars_of(b.bar.background_color)
    ||| !equal_doubles(a.bar.background_opacity, b.bar.background_opacity)
    ||| a.bar.border_radius != b.bar.border_radius
    ||| a.bar.padding != b.bar.padding
    ||| a.bar.position@ != b.bar.position@
    ||| a.bar.size != b.bar.size
    ||| a.bar.outline != b.bar.outline
    ||| chars_of(a.widgets.background_color) != chars_of(b.widgets.background_color)
    ||| !equal_doubles(a.widgets.background_opacity, b.widgets.background_opacity)
    ||| !equal_optional_doubles(a.widgets.popover_background_opacity, b.widgets.popover_background_opacity)
    ||| a.widgets.border_radius != b.widgets.border_radius
    ||| a.widgets.outline != b.widgets.outline
    ||| a.advanced.pango_font_rendering != b.advanced.pango_font_rendering
    ||| !equal_widgets(a.widgets.widget_configs@, b.widgets.widget_configs@)
}

/// Whether settings that decide about colours and sizes differ.
pub fn config_theme_changed(old_config: &Config, new_config: &Config) -> (changed: bool)
    ensures
        changed == theme_changed(*old_config, *new_config),
{
    let a = old_config;
    let b = new_config;
    let theme = is_equal_theme(&a.theme, &b.theme);
    let bar = text::opt_eq(&a.bar.background_color, &b.bar.background_color) && same_double(
        a.bar.background_opacity,
        b.bar.background_opacity,
    ) && a.bar.border_radius == b.bar.border_radius && a.bar.padding == b.bar.padding && a.bar.position
        == b.bar.position && a.bar.size == b.bar.size && same_flag(a.bar.outline, b.bar.outline);
    let widgets = text::opt_eq(&a.widgets.background_color, &b.widgets.background_color) && same_double(
        a.widgets.background_opacity,
        b.widgets.background_opacity,
    ) && same_optional_double(a.widgets.popover_background_opacity, b.widgets.popover_background_opacity)
        && a.widgets.border_radius == b.widgets.border_radius && same_flag(a.widgets.outline, b.widgets.outline);
    !theme || !bar || !widgets || a.advanced.pango_font_rendering != b.advanced.pango_font_rendering
        || per_widget_styles_changed(a, b)
}

/// Whether widgets are placed or built differently. Settings are compared by what they hold, not by
/// how [`names::widget_names`] lists them.
pub open spec fn widgets_changed(a: WidgetsConfig, b: WidgetsConfig) -> bool {
    placement_names(a) != placement_names(b) || !same_buildings(a.widget_configs@, b.widget_configs@)
}

/// Whether widgets are placed or built differently.
pub fn config_widgets_changed(old_config: &Config, new_config: &Config) -> (changed: bool)
    ensures
        changed == widgets_changed(old_config.widgets, new_config.widgets),
{
    let a = &old_config.widgets.widget_configs;
    let b = &new_config.widgets.widget_configs;
    let same = buildings_within(a, b, true) && buildings_within(b, a, false);
    !same || !text::same_texts(&write_placements(&old_config.widgets), &write_placements(&new_config.widgets))
}

/// Whether settings that decide about the structure of the bar differ.
pub open spec fn structure_changed(a: Config, b: Config) -> bool {
    ||| a.bar.size != b.bar.size
    ||| a.bar.screen_margin != b.bar.screen_margin
    ||| a.bar.spacing != b.bar.spacing
    ||| a.bar.inset != b.bar.inset
    ||| !equal_doubles(a.bar.background_opacity, b.bar.background_opacity)
    ||| a.bar.padding != b.bar.padding
    ||| a.bar.position@ != b.bar.position@
    ||| widgets_changed(a.widgets, b.widgets)
    ||| a.advanced.compositor@ != b.advanced.compositor@
}

/// Whether settings that decide about the structure of the bar differ.
pub fn config_structure_changed(old_config: &Config, new_config: &Config) -> (changed: bool)
    ensures
        changed == structure_changed(*old_config, *new_config),
{
    let a = old_config;
    let b = new_config;
    a.bar.size != b.bar.size || a.bar.screen_margin != b.bar.screen_margin || a.bar.spacing != b.bar.spacing
        || a.bar.inset != b.bar.inset || !same_double(a.bar.background_opacity, b.bar.background_opacity)
        || a.bar.padding != b.bar.padding || a.bar.position != b.bar.position || config_widgets_changed(a, b)
        || a.advanced.compositor != b.advanced.compositor
}

/// Settings of the battery that only say when it alerts change nothing that is built, whatever
/// they were before and are then.
pub proof fn alert_options_do_not_rebuild(
    a: Map<Seq<char>, WidgetOptions>,
    b: Map<Seq<char>, WidgetOptions>,
    option: Seq<char>,
    value: ConfigOption,
)
    requires
        alert_option(option),
        a.dom().contains("battery"@),
        b.dom() == a.dom(),
        forall|k: Seq<char>| #[trigger] a.dom().contains(k) && k != "battery"@ ==> b[k] == a[k],
        same_handling(a["battery"@], b["battery"@]),
        b["battery"@].options@ == a["battery"@].options@.insert(option, value),
    ensures
        same_buildings(a, b),
{
    let battery = "battery"@;
    assert(building_options(battery, a[battery].options@) =~= building_options(battery, b[battery].options@));
    assert forall|k: Seq<char>| #[trigger] a.dom().contains(k) && builds(k, a[k]) implies b.dom().contains(k) && builds(
        k,
        b[k],
    ) && same_building(k, a[k], b[k]) by {
        let x = building_options(k, a[k].options@);
        assert forall|o: Seq<char>| #[trigger] x.dom().contains(o) implies alike(Sameness::Identical, x[o]@, x[o]@) by {
            alike_itself(x[o]@);
        }
    }
}

/// A configuration that is read again without a change does not rebuild the bar, whatever order the
/// settings of its widgets and their options come in. An opacity that is not a number equals
/// nothing, so it is left out.
pub proof fn unchanged_configuration(a: Config, b: Config)
    requires
        b == (Config {
            widgets: WidgetsConfig { widget_configs: b.widgets.widget_configs, ..a.widgets },
            ..a
        }),
        b.widgets.widget_configs@.dom() == a.widgets.widget_configs@.dom(),
        forall|k: Seq<char>| #[trigger]
            a.widgets.widget_configs@.dom().contains(k) ==> same_handling(
                a.widgets.widget_configs@[k],
                b.widgets.widget_configs@[k],
            ) && b.widgets.widget_configs@[k].options@ == a.widgets.widget_configs@[k].options@,
        equal_doubles(a.bar.background_opacity, a.bar.background_opacity),
    ensures
        !structure_changed(a, b),
{
    let x = a.widgets.widget_configs@;
    let y = b.widgets.widget_configs@;
    assert forall|k: Seq<char>| #[trigger] x.dom().contains(k) implies builds(k, x[k]) == builds(k, y[k]) && same_building(
        k,
        x[k],
        y[k],
    ) by {
        let options = building_options(k, x[k].options@);
        assert forall|o: Seq<char>| #[trigger] options.dom().contains(o) implies alike(
            Sameness::Identical,
            options[o]@,
            options[o]@,
        ) by {
            alike_itself(options[o]@);
        }
    }
}

/// The name of a widget without its argument.
pub open spec fn base_name(name: Seq<char>) -> Seq<char> {
    crate::config::css::up_to(name, ':', ':')
}

/// The name of a widget without its argument.
pub fn widget_base_name(name: &str) -> (base: String)
    ensures
        base@ == base_name(name@),
{
    let chars = text::to_chars(name);
    proof {
        assert(chars@.skip(0) =~= chars@);
    }
    crate::config::css::head_up_to(&chars, 0, ':', ':')
}

/// The widgets that a placement names.
pub open spec fn named_by(placement: WidgetPlacement) -> Seq<Seq<char>> {
    match placement {
        WidgetPlacement::Single(name) => seq![name@],
        WidgetPlacement::Group { group } => views(group@),
    }
}

/// Whether some placement names a widget, with or without an argument.
pub open spec fn placed_in(placements: Seq<WidgetPlacement>, base: Seq<char>) -> bool {
    exists|i: int, j: int|
        0 <= i < placements.len() && 0 <= j < named_by(placements[i]).len() && base_name(
            #[trigger] named_by(placements[i])[j],
        ) == base
}

/// Whether the settings of a widget switch it off.
pub open spec fn disabled(w: WidgetsConfig, name: Seq<char>) -> bool {
    w.widget_configs@.dom().contains(name) && w.widget_configs@[name].disabled
}

/// Whether a widget is placed somewhere and not switched off.
pub open spec fn enabled(w: WidgetsConfig, name: Seq<char>) -> bool {
    (placed_in(w.left@, name) || placed_in(w.center@, name) || placed_in(w.right@, name)) && !disabled(w, name)
}

fn is_placed_in(placements: &Vec<WidgetPlacement>, base: &str) -> (yes: bool)
    ensures
        yes == placed_in(placements@, base@),
{
    let mut i: usize = 0;
    while i < placements.len()
        invariant
            i <= placements@.len(),
            forall|a: int, b: int|
                0 <= a < i && 0 <= b < named_by(placements@[a]).len() ==> base_name(
                    #[trigger] named_by(placements@[a])[b],
                ) != base@,
        decreases placements@.len() - i,
    {
        let ghost names = named_by(placements@[i as int]);
        match &placements[i] {
            WidgetPlacement::Single(name) => {
                if text::str_eq(widget_base_name(name.as_str()).as_str(), base) {
                    assert(base_name(named_by(placements@[i as int])[0]) == base@);
                    return true;
                }
            }
            WidgetPlacement::Group { group } => {
                let mut j: usize = 0;
                while j < group.len()
                    invariant
                        i < placements@.len(),
                        j <= group@.len(),
                        names == named_by(placements@[i as int]),
                        names == views(group@),
                        forall|b: int| 0 <= b < j ==> base_name(#[trigger] names[b]) != base@,
                    decreases group@.len() - j,
                {
                    assert(names[j as int] == group@[j as int]@);
                    if text::str_eq(widget_base_name(group[j].as_str()).as_str(), base) {
                        assert(base_name(named_by(placements@[i as int])[j as int]) == base@);
                        return true;
                    }
                    j += 1;
                }
            }
        }
        i += 1;
    }
    false
}

impl WidgetsConfig {
    /// The settings of a widget.
    pub fn get_options(&self, name: &str) -> (options: Option<&WidgetOptions>)
        ensures
            options is Some == self.widget_configs@.dom().contains(name@),
            options is Some ==> *options->0 == self.widget_configs@[name@],
    {
        self.widget_configs.get_named(name)
    }

    /// Whether the settings of a widget switch it off.
    pub fn is_disabled(&self, name: &str) -> (yes: bool)
        ensures
            yes == disabled(*self, name@),
    {
        match self.get_options(name) {
            Some(options) => options.disabled,
            None => false,
        }
    }

    /// Whether a widget is placed somewhere and not switched off.
    pub fn is_enabled(&self, name: &str) -> (yes: bool)
        ensures
            yes == enabled(*self, name@),
    {
        (is_placed_in(&self.left, name) || is_placed_in(&self.center, name) || is_placed_in(&self.right, name))
            && !self.is_disabled(name)
    }
}

/// The settings of the weather service.
#[derive(Debug)]
pub struct ResolvedWeatherConfig {
    pub enabled: bool,
    pub auto_locate: bool,
    pub latitude: Option<u64>,
    pub longitude: Option<u64>,
    pub location: Option<String>,
    pub units: WeatherUnits,
    pub wind_units: Option<String>,
    pub refresh_interval: u64,
}

/// Whether the clock is set to show the weather.
pub open spec fn clock_shows_weather(w: WidgetsConfig) -> bool {
    let configs = w.widget_configs@;
    configs.dom().contains("clock"@) && configs["clock"@].options@.dom().contains("show_weather"@) && flag_of(
        configs["clock"@].options@["show_weather"@]@,
    ) == Some(true)
}

/// Whether something shows the weather: its own widget, or a clock that is set to.
pub open spec fn weather_enabled(w: WidgetsConfig) -> bool {
    enabled(w, "weather"@) || (enabled(w, "clock"@) && clock_shows_weather(w))
}

/// The settings of the weather service. It runs only where something shows the weather.
pub fn weather_config_from_config(config: &Config) -> (weather: ResolvedWeatherConfig)
    ensures
        weather.enabled == weather_enabled(config.widgets),
        weather.auto_locate == config.weather.auto_locate,
        weather.latitude == config.weather.latitude,
        weather.longitude == config.weather.longitude,
        chars_of(weather.location) == chars_of(config.weather.location),
        weather.units == config.weather.units,
        chars_of(weather.wind_units) == chars_of(config.weather.wind_units),
        weather.refresh_interval == config.weather.refresh_interval,
{
    let shows = match config.widgets.get_options("clock") {
        Some(options) => match options.options.get_named("show_weather") {
            Some(value) => match value.value().as_bool() {
                Some(flag) => flag,
                None => false,
            },
            None => false,
        },
        None => false,
    };
    let weather = &config.weather;
    ResolvedWeatherConfig {
        enabled: config.widgets.is_enabled("weather") || (config.widgets.is_enabled("clock") && shows),
        auto_locate: weather.auto_locate,
        latitude: weather.latitude,
        longitude: weather.longitude,
        location: weather.location.clone(),
        units: weather.units,
        wind_units: weather.wind_units.clone(),
        refresh_interval: weather.refresh_interval,
    }
}

/// Whether colours follow the desktop.
pub open spec fn uses_gtk_scheme(theme: ThemeConfig) -> bool {
    theme.mode@ == "auto"@ && theme.scheme == Some(SchemePolarity::Gtk)
}

/// Whether colours follow the desktop.
pub fn config_uses_gtk_scheme(config: &Config) -> (yes: bool)
    ensures
        yes == uses_gtk_scheme(config.theme),
{
    text::str_eq(config.theme.mode.as_str(), "auto") && same_scheme(config.theme.scheme, Some(SchemePolarity::Gtk))
}

/// The preference that the desktop tells; none for values without one.
pub open spec fn preference(value: Seq<char>) -> Option<SchemePolarity> {
    if value == "prefer-dark"@ {
        Some(SchemePolarity::Dark)
    } else if value == "prefer-light"@ {
        Some(SchemePolarity::Light)
    } else {
        None
    }
}

/// The preference that the desktop tells.
pub fn scheme_from_gtk_color_scheme_value(value: &str) -> (scheme: Option<SchemePolarity>)
    ensures
        scheme == preference(value@),
{
    if text::str_eq(value, "prefer-dark") {
        Some(SchemePolarity::Dark)
    } else if text::str_eq(value, "prefer-light") {
        Some(SchemePolarity::Light)
    } else {
        None
    }
}

/// The scheme to build colours with: that of the desktop where colours follow it. `desktop` is the
/// value that the desktop tells, if it tells one.
pub fn resolve_gtk_scheme(config: &Config, desktop: &Option<String>) -> (scheme: Option<SchemePolarity>)
    ensures
        scheme == if uses_gtk_scheme(config.theme) {
            match chars_of(*desktop) {
                Some(value) => preference(value),
                None => None,
            }
        } else {
            config.theme.scheme
        },
{
    if config_uses_gtk_scheme(config) {
        match desktop {
            Some(value) => scheme_from_gtk_color_scheme_value(value.as_str()),
            None => None,
        }
    } else {
        config.theme.scheme
    }
}

/// The bar is built anew when its size, its margins, its spacing, its inset, its padding, its edge, its opacity or the
/// compositor changes, and when widgets are placed or built differently. Themes, weather and alerts do not do that.
pub proof fn structures_change_with_what_is_built(a: Config, b: Config)
    ensures
        a.bar.size != b.bar.size || a.bar.screen_margin != b.bar.screen_margin || a.bar.spacing != b.bar.spacing
            || a.bar.inset != b.bar.inset || a.bar.padding != b.bar.padding || a.bar.position@ != b.bar.position@
            || a.advanced.compositor@ != b.advanced.compositor@ ==> structure_changed(a, b),
        widgets_changed(a.widgets, b.widgets) ==> structure_changed(a, b),
        a.bar.background_opacity != b.bar.background_opacity && (a.bar.background_opacity % 0x8000_0000_0000_0000 != 0
            || b.bar.background_opacity % 0x8000_0000_0000_0000 != 0) ==> structure_changed(a, b),
        structure_changed(a, b) == structure_changed(
            a,
            Config { theme: a.theme, weather: a.weather, battery_alert: a.battery_alert, ..b },
        ),
{
}

/// Colours and sizes are computed anew when anything of the theme changes, or of what the bar, the widgets and the fonts
/// add to it.
pub proof fn themes_change_with_what_is_seen(a: Config, b: Config)
    ensures
        a.theme.mode@ != b.theme.mode@ || a.theme.scheme != b.theme.scheme || chars_of(a.theme.wallpaper) != chars_of(
            b.theme.wallpaper,
        ) || chars_of(a.theme.popover) != chars_of(b.theme.popover) || a.theme.icons.theme@ != b.theme.icons.theme@
            || a.theme.icons.weight != b.theme.icons.weight || a.theme.animations != b.theme.animations || a.theme.ripple
            != b.theme.ripple || a.theme.blur != b.theme.blur || a.theme.other@.dom() != b.theme.other@.dom()
            ==> theme_changed(a, b),
        chars_of(a.bar.background_color) != chars_of(b.bar.background_color) || a.bar.border_radius != b.bar.border_radius
            || a.bar.padding != b.bar.padding || a.bar.position@ != b.bar.position@ || a.bar.size != b.bar.size
            || a.bar.outline != b.bar.outline ==> theme_changed(a, b),
        chars_of(a.widgets.background_color) != chars_of(b.widgets.background_color) || a.widgets.border_radius
            != b.widgets.border_radius || a.widgets.outline != b.widgets.outline || (
        a.widgets.popover_background_opacity is Some) != (b.widgets.popover_background_opacity is Some)
            || a.advanced.pango_font_rendering != b.advanced.pango_font_rendering ==> theme_changed(a, b),
        a.widgets.widget_configs@.dom() != b.widgets.widget_configs@.dom() ==> theme_changed(a, b),
        theme_changed(a, b) == theme_changed(a, Config { weather: a.weather, battery_alert: a.battery_alert, ..b }),
{
}

/// A widget is built differently when it is switched, when its clicks or conditions change, and when an option changes
/// or comes or goes; of a battery those that only say when it alerts do not count.
pub proof fn widgets_change_with_their_settings(
    a: WidgetsConfig,
    b: WidgetsConfig,
    name: Seq<char>,
    option: Seq<char>,
)
    requires
        a.widget_configs@.dom().contains(name),
        b.widget_configs@.dom().contains(name),
        name != "battery"@,
    ensures
        ({
            let x = a.widget_configs@[name];
            let y = b.widget_configs@[name];
            &&& x.disabled != y.disabled || chars_of(x.on_click_right) != chars_of(y.on_click_right) || chars_of(
                x.on_click_middle,
            ) != chars_of(y.on_click_middle) || chars_of(x.show_if) != chars_of(y.show_if) || x.show_if_interval
                != y.show_if_interval ==> widgets_changed(a, b)
            &&& x.options@.dom().contains(option) != y.options@.dom().contains(option) ==> widgets_changed(a, b)
            &&& x.options@.dom().contains(option) && y.options@.dom().contains(option) && !alike(
                Sameness::Identical,
                x.options@[option]@,
                y.options@[option]@,
            ) ==> widgets_changed(a, b)
        }),
{
    let x = a.widget_configs@;
    let y = b.widget_configs@;
    assert(builds(name, x[name]));
    if !widgets_changed(a, b) {
        assert(x.dom().contains(name) && builds(name, x[name]));
        assert(same_building(name, x[name], y[name]));
    }
}

/// A widget with settings that comes or goes is built differently.
pub proof fn widgets_change_when_settings_come_or_go(a: WidgetsConfig, b: WidgetsConfig, name: Seq<char>)
    requires
        a.widget_configs@.dom().contains(name) != b.widget_configs@.dom().contains(name),
        name != "battery"@,
    ensures
        widgets_changed(a, b),
{
    let x = a.widget_configs@;
    let y = b.widget_configs@;
    if x.dom().contains(name) {
        assert(x.dom().contains(name) && builds(name, x[name]));
    } else {
        assert(y.dom().contains(name) && builds(name, y[name]));
    }
}

/// Options that say when the battery alerts are told by their names, and count for no other widget.
pub proof fn alert_options_are_told_by_name(name: Seq<char>, widget: Seq<char>, options: Map<Seq<char>, ConfigOption>)
    ensures
        alert_option(name) <==> name == "alerts"@ || name == "low_threshold"@ || name == "critical_threshold"@,
        widget != "battery"@ ==> building_options(widget, options) == options,
        widget == "battery"@ ==> (building_options(widget, options).dom().contains(name) <==> options.dom().contains(name)
            && name != "alerts"@ && name != "low_threshold"@ && name != "critical_threshold"@),
{
}

/// A widget is named by what stands before the colon, if there is one.
pub proof fn widgets_are_named_before_the_colon(name: Seq<char>, argument: Seq<char>)
    requires
        !name.contains(':'),
    ensures
        base_name(name) == name,
        base_name(name + seq![':'] + argument) == name,
{
    lemma_base(name, Seq::empty());
    lemma_base(name, seq![':'] + argument);
    assert(name + Seq::<char>::empty() =~= name);
    assert(name + seq![':'] + argument =~= name + (seq![':'] + argument));
}

proof fn lemma_base(name: Seq<char>, rest: Seq<char>)
    requires
        !name.contains(':'),
        rest.len() > 0 ==> rest[0] == ':',
    ensures
        base_name(name + rest) == name,
{
    let s = name + rest;
    let taken = crate::config::css::up_to(s, ':', ':');
    crate::config::css::texts_are_taken_up_to_the_first(s, ':', ':');
    assert(taken =~= s.take(taken.len() as int));
    if taken.len() > name.len() {
        assert(taken[name.len() as int] == rest[0]);
        assert(taken.contains(':'));
    }
    if taken.len() < name.len() {
        assert(s[taken.len() as int] == name[taken.len() as int]);
        assert(name.contains(':'));
    }
    assert(taken =~= name);
}

/// A widget is enabled exactly if it is placed on some side, alone or in a group, and its settings do not switch it off.
pub proof fn placed_widgets_are_enabled(w: WidgetsConfig, name: String, i: int, base: Seq<char>)
    requires
        base_name(name@) == base,
    ensures
        0 <= i < w.left@.len() && w.left@[i] == WidgetPlacement::Single(name) ==> (enabled(w, base) <==> !(
        w.widget_configs@.dom().contains(base) && w.widget_configs@[base].disabled)),
        0 <= i < w.center@.len() && w.center@[i] == WidgetPlacement::Single(name) ==> (enabled(w, base) <==> !(
        w.widget_configs@.dom().contains(base) && w.widget_configs@[base].disabled)),
        0 <= i < w.right@.len() && w.right@[i] == WidgetPlacement::Single(name) ==> (enabled(w, base) <==> !(
        w.widget_configs@.dom().contains(base) && w.widget_configs@[base].disabled)),
        w.left@.len() == 0 && w.center@.len() == 0 && w.right@.len() == 0 ==> !enabled(w, base),
{
    if 0 <= i < w.left@.len() && w.left@[i] == WidgetPlacement::Single(name) {
        assert(base_name(named_by(w.left@[i])[0]) == base);
    }
    if 0 <= i < w.center@.len() && w.center@[i] == WidgetPlacement::Single(name) {
        assert(base_name(named_by(w.center@[i])[0]) == base);
    }
    if 0 <= i < w.right@.len() && w.right@[i] == WidgetPlacement::Single(name) {
        assert(base_name(named_by(w.right@[i])[0]) == base);
    }
}

/// Widgets in a group count as those that stand alone.
pub proof fn grouped_widgets_are_enabled(w: WidgetsConfig, group: Vec<String>, i: int, j: int)
    requires
        0 <= i < w.left@.len(),
        w.left@[i] == (WidgetPlacement::Group { group }),
        0 <= j < group@.len(),
    ensures
        ({
            let base = base_name(group@[j]@);
            enabled(w, base) <==> !(w.widget_configs@.dom().contains(base) && w.widget_configs@[base].disabled)
        }),
{
    assert(named_by(w.left@[i])[j] == group@[j]@);
    assert(base_name(named_by(w.left@[i])[j]) == base_name(group@[j]@));
}

/// The weather is asked for exactly if its widget is enabled, or a clock that is set to show it.
pub proof fn weather_is_asked_for_where_it_is_shown(w: WidgetsConfig)
    ensures
        enabled(w, "weather"@) ==> weather_enabled(w),
        weather_enabled(w) && !enabled(w, "weather"@) ==> enabled(w, "clock"@) && w.widget_configs@.dom().contains("clock"@)
            && w.widget_configs@["clock"@].options@.dom().contains("show_weather"@)
            && w.widget_configs@["clock"@].options@["show_weather"@]@ == OptionTree::Boolean(true),
        enabled(w, "clock"@) && w.widget_configs@.dom().contains("clock"@) && w.widget_configs@["clock"@].options@.dom().contains(
            "show_weather"@,
        ) && w.widget_configs@["clock"@].options@["show_weather"@]@ == OptionTree::Boolean(true) ==> weather_enabled(w),
{
}

/// The desktop prefers dark or light exactly if it says so in these words, and is asked only in the automatic mode.
pub proof fn desktops_prefer_in_their_words(value: Seq<char>, theme: ThemeConfig)
    ensures
        preference(value) == Some(SchemePolarity::Dark) <==> value == "prefer-dark"@,
        preference(value) == Some(SchemePolarity::Light) <==> value == "prefer-light"@,
        preference(value) != Some(SchemePolarity::Gtk),
        uses_gtk_scheme(theme) <==> theme.mode@ == "auto"@ && theme.scheme == Some(SchemePolarity::Gtk),
{
    reveal_strlit("prefer-dark");
    reveal_strlit("prefer-light");
    assert("prefer-dark"@.len() != "prefer-light"@.len());
}

} // verus!
