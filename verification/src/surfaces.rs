//! How surfaces are styled beyond what style sheets can say: the room for shadows, and fonts.

use vstd::prelude::*;
use crate::config::manager::ConfigManager;

verus! {

/// How many units of Pango make a pixel or a point.
pub const PANGO_SCALE: i32 = 1024;

/// The styles of surfaces.
#[derive(Debug)]
pub struct SurfaceStyles {
    pub background_color: String,
    pub text_color: String,
    pub font_family: String,
    /// In pixels.
    pub font_size: u32,
    pub shadows_enabled: bool,
}

/// What [`SurfaceStyles`] hold.
pub struct StylesView {
    pub background_color: Seq<char>,
    pub text_color: Seq<char>,
    pub font_family: Seq<char>,
    pub font_size: u32,
    pub shadows_enabled: bool,
}

impl View for SurfaceStyles {
    type V = StylesView;

    open spec fn view(&self) -> StylesView {
        StylesView {
            background_color: self.background_color@,
            text_color: self.text_color@,
            font_family: self.font_family@,
            font_size: self.font_size,
            shadows_enabled: self.shadows_enabled,
        }
    }
}

/// The styles before any were set: those of a dark theme.
pub open spec fn dark_styles() -> StylesView {
    StylesView {
        background_color: "#111217"@,
        text_color: "#ffffff"@,
        font_family: "monospace"@,
        font_size: 14,
        shadows_enabled: true,
    }
}

/// The styles before any were set: those of a dark theme.
pub fn default_surface_styles() -> (styles: SurfaceStyles)
    ensures
        styles@ == dark_styles(),
{
    SurfaceStyles {
        background_color: "#111217".to_owned(),
        text_color: "#ffffff".to_owned(),
        font_family: "monospace".to_owned(),
        font_size: 14,
        shadows_enabled: true,
    }
}

/// The room around the content of a surface.
#[derive(Clone, Copy, Debug, PartialEq, Eq, Structural)]
pub struct Margins {
    pub top: i32,
    pub bottom: i32,
    pub start: i32,
    pub end: i32,
}

/// The room of size `m` on every side but the one at the bar.
pub open spec fn away_from_bar(m: i32, bar_is_bottom: bool) -> Margins {
    if bar_is_bottom {
        Margins { top: m, bottom: 0, start: m, end: m }
    } else {
        Margins { top: 0, bottom: m, start: m, end: m }
    }
}

/// The outline that is drawn while a surface moves.
#[derive(Clone, Copy, Debug, PartialEq, Eq, Structural)]
pub enum Outline {
    /// In the color of the widget's outline.
    Colored,
    Transparent,
}

/// The styles in use.
#[derive(Debug)]
pub struct SurfaceStyleManager {
    pub styles: SurfaceStyles,
    /// Whether fonts are set on labels themselves and not by style sheets.
    pub pango_font_rendering: bool,
}

impl SurfaceStyleManager {
    pub fn new(styles: SurfaceStyles) -> (manager: SurfaceStyleManager)
        ensures
            manager.styles == styles,
            !manager.pango_font_rendering,
    {
        SurfaceStyleManager { styles, pango_font_rendering: false }
    }

    /// Sets the manager of the process, unless there is one already.
    pub fn init_global_with_config(
        slot: &mut Option<SurfaceStyleManager>,
        styles: SurfaceStyles,
        pango_font_rendering: bool,
    )
        ensures
            *old(slot) is Some ==> *final(slot) == *old(slot),
            *old(slot) is None ==> *final(slot) == Some(SurfaceStyleManager { styles, pango_font_rendering }),
    {
        if slot.is_some() {
            return;
        }
        let mut manager = SurfaceStyleManager::new(styles);
        manager.pango_font_rendering = pango_font_rendering;
        *slot = Some(manager);
    }

    /// Fills the place of the manager of the process: where none was set, with a dark theme.
    pub fn global(slot: &mut Option<SurfaceStyleManager>)
        ensures
            *old(slot) is Some ==> *final(slot) == *old(slot),
            *old(slot) is None ==> {
                &&& *final(slot) is Some
                &&& (*final(slot))->0.styles@ == dark_styles()
                &&& !(*final(slot))->0.pango_font_rendering
            },
    {
        if slot.is_none() {
            *slot = Some(SurfaceStyleManager::new(default_surface_styles()));
        }
    }

    /// Takes new styles.
    pub fn reconfigure(&mut self, styles: SurfaceStyles, pango_font_rendering: bool)
        ensures
            *final(self) == (SurfaceStyleManager { styles, pango_font_rendering }),
    {
        self.styles = styles;
        self.pango_font_rendering = pango_font_rendering;
    }

    pub fn background_color(&self) -> (color: String)
        ensures
            color@ == self.styles@.background_color,
    {
        self.styles.background_color.clone()
    }

    pub fn text_color(&self) -> (color: String)
        ensures
            color@ == self.styles@.text_color,
    {
        self.styles.text_color.clone()
    }

    pub fn shadows_enabled(&self) -> (yes: bool)
        ensures
            yes == self.styles@.shadows_enabled,
    {
        self.styles.shadows_enabled
    }

    /// The room for shadows, where there are any.
    pub open spec fn room(self, base_margin: i32) -> i32 {
        if self.styles@.shadows_enabled {
            base_margin
        } else {
            0
        }
    }

    /// The room for shadows, where there are any.
    pub fn shadow_margin(&self, base_margin: i32) -> (m: i32)
        ensures
            m == self.room(base_margin),
    {
        if self.shadows_enabled() {
            base_margin
        } else {
            0
        }
    }

    /// The room around a popover: none at the bar, that for shadows on the other sides.
    pub fn apply_shadow_margins(&self, base_margin: i32, bar_is_bottom: bool) -> (margins: Margins)
        ensures
            margins == away_from_bar(self.room(base_margin), bar_is_bottom),
    {
        let m: i32 = self.shadow_margin(base_margin);
        if bar_is_bottom {
            Margins { top: m, bottom: 0, start: m, end: m }
        } else {
            Margins { top: 0, bottom: m, start: m, end: m }
        }
    }

    /// The outline that a floating surface is drawn with while it moves, in place of the one of its
    /// style sheet.
    pub fn apply_animated_surface_outline(&self, config: &ConfigManager, active: bool) -> (outline: AnimatedOutline)
        ensures
            outline == moving_outline(*config, active),
    {
        let width: u32 = config.surface_outline_width();
        let color = if active && width > 0 {
            Outline::Colored
        } else {
            Outline::Transparent
        };
        AnimatedOutline { active, radius: config.surface_border_radius(), width, color }
    }

    /// The size at which a label is styled, if labels are: `computed` is what style sheets make of
    /// it, where they say.
    pub fn apply_pango_attrs(&self, computed: Option<u32>) -> (size: Option<u32>)
        ensures
            size == (if self.pango_font_rendering {
                Some(size_or(computed, self.styles@.font_size))
            } else {
                None
            }),
    {
        if !self.pango_font_rendering {
            return None;
        }
        match computed {
            Some(size) => Some(size),
            None => Some(self.styles.font_size),
        }
    }

    /// The sizes at which the labels of a tree of widgets are styled, if labels are: one entry for
    /// each label, the outer before the inner, without a size for one that stays as it is.
    pub fn apply_pango_attrs_all(&self, widget: &Widget) -> (sizes: Vec<Option<u32>>)
        ensures
            sizes@ == (if self.pango_font_rendering {
                label_sizes(*widget, self.styles@.font_size)
            } else {
                Seq::empty()
            }),
    {
        let mut sizes: Vec<Option<u32>> = Vec::new();
        if self.pango_font_rendering {
            style_labels(widget, self.styles.font_size, &mut sizes);
            proof {
                assert(Seq::empty() + label_sizes(*widget, self.styles.font_size) =~= label_sizes(
                    *widget,
                    self.styles.font_size,
                ));
            }
        }
        sizes
    }
}

/// The outline of a surface that moves.
#[derive(Clone, Copy, Debug, PartialEq, Eq, Structural)]
pub struct AnimatedOutline {
    pub active: bool,
    /// In pixels.
    pub radius: u32,
    /// In pixels.
    pub width: u32,
    pub color: Outline,
}

/// The outline of a floating surface: it has a color only while the surface moves and outlines can
/// be seen.
pub open spec fn moving_outline(config: ConfigManager, active: bool) -> AnimatedOutline {
    let width = if config.palette.surface_outline_enabled && config.palette.outline_opacity_pct > 0 {
        config.palette.outline_width_px
    } else {
        0
    };
    AnimatedOutline {
        active,
        radius: config.palette.surface_border_radius,
        width,
        color: if active && width > 0 {
            Outline::Colored
        } else {
            Outline::Transparent
        },
    }
}

/// A label among widgets.
#[derive(Clone, Copy, Debug)]
pub struct Label {
    /// Whether it shows an icon by the name of a glyph, which a styled font would break.
    pub symbol: bool,
    /// The size that style sheets make of it, in pixels.
    pub computed: Option<u32>,
}

/// A widget with those inside it.
#[derive(Debug)]
pub struct Widget {
    pub label: Option<Label>,
    pub children: Vec<Widget>,
}

/// The size that style sheets make, or the one that counts without them.
pub open spec fn size_or(computed: Option<u32>, base: u32) -> u32 {
    match computed {
        Some(size) => size,
        None => base,
    }
}

/// The sizes of the labels of a widget and of those inside it, the outer before the inner. A symbol
/// has none.
pub open spec fn label_sizes(widget: Widget, base: u32) -> Seq<Option<u32>>
    decreases widget,
{
    let own = match widget.label {
        Some(label) => seq![if label.symbol { None } else { Some(size_or(label.computed, base)) }],
        None => Seq::empty(),
    };
    own + all_label_sizes(widget.children@, base)
}

/// The sizes of the labels of several widgets.
pub open spec fn all_label_sizes(widgets: Seq<Widget>, base: u32) -> Seq<Option<u32>>
    decreases widgets,
{
    if widgets.len() == 0 {
        Seq::empty()
    } else {
        all_label_sizes(widgets.drop_last(), base) + label_sizes(widgets.last(), base)
    }
}

fn style_labels(widget: &Widget, base: u32, sizes: &mut Vec<Option<u32>>)
    ensures
        final(sizes)@ == old(sizes)@ + label_sizes(*widget, base),
    decreases widget,
{
    let ghost before = sizes@;
    let ghost own: Seq<Option<u32>> = match widget.label {
        Some(label) => seq![if label.symbol { None } else { Some(size_or(label.computed, base)) }],
        None => Seq::empty(),
    };
    match widget.label {
        Some(label) => {
            let size = if label.symbol {
                None
            } else {
                match label.computed {
                    Some(size) => Some(size),
                    None => Some(base),
                }
            };
            sizes.push(size);
        }
        None => {}
    }
    proof {
        assert(sizes@ =~= before + own);
        assert(widget.children@.take(0) =~= Seq::empty());
        assert(sizes@ =~= before + own + all_label_sizes(widget.children@.take(0), base));
    }
    let mut i: usize = 0;
    while i < widget.children.len()
        invariant
            i <= widget.children@.len(),
            sizes@ == before + own + all_label_sizes(widget.children@.take(i as int), base),
        decreases widget.children@.len() - i,
    {
        let ghost so_far = all_label_sizes(widget.children@.take(i as int), base);
        proof {
            assert(decreases_to!(widget => widget.children@[i as int]));
            assert(widget.children@.take(i + 1).drop_last() =~= widget.children@.take(i as int));
        }
        style_labels(&widget.children[i], base, sizes);
        proof {
            assert(sizes@ =~= before + own + (so_far + label_sizes(widget.children@[i as int], base)));
        }
        i += 1;
    }
    proof {
        assert(widget.children@.take(i as int) =~= widget.children@);
        assert(sizes@ =~= before + (own + all_label_sizes(widget.children@, base)));
    }
}

/// The integer nearest to the fraction `n` by `d`; of two as near, the larger.
pub open spec fn nearest(n: int, d: int) -> int {
    (2 * n + d) / (2 * d)
}

/// The size in pixels of a font whose size is `pango_size`, in units of Pango: of a pixel if
/// `absolute`, else of a point, of which 72 make 96 pixels. Sizes that are not set are zero.
pub open spec fn pixels(pango_size: i32, absolute: bool) -> Option<int> {
    if pango_size <= 0 {
        None
    } else {
        let px = if absolute {
            nearest(pango_size as int, PANGO_SCALE as int)
        } else {
            nearest(pango_size * 96, PANGO_SCALE * 72)
        };
        Some(if px < 1 { 1 } else { px })
    }
}

/// The size of a font in pixels, at least one.
pub fn get_computed_font_size(pango_size: i32, absolute: bool) -> (size: Option<u32>)
    ensures
        size is Some <==> pixels(pango_size, absolute) is Some,
        size is Some ==> size->0 == pixels(pango_size, absolute)->0,
{
    if pango_size <= 0 {
        return None;
    }
    let n: u64 = pango_size as u64;
    let px: u64 = if absolute {
        (2 * n + 1024) / 2048
    } else {
        (2 * (n * 96) + 73728) / 147456
    };
    Some(if px < 1 { 1 } else { px as u32 })
}

/// The size in points of a font of so many pixels.
pub open spec fn points(px: u32) -> int {
    nearest(px * 72, 96)
}

/// The size, in units of Pango, at which a label is styled to have so many pixels.
pub fn pango_size(font_size_px: u32) -> (size: i32)
    requires
        points(font_size_px) * PANGO_SCALE <= i32::MAX,
    ensures
        size == points(font_size_px) * PANGO_SCALE,
{
    let n: u64 = font_size_px as u64;
    let pt: u64 = (2 * (n * 72) + 96) / 192;
    (pt * 1024) as i32
}

/// Without shadows a popover has no room around it.
pub proof fn no_shadows_no_room(manager: SurfaceStyleManager, base_margin: i32, bar_is_bottom: bool)
    requires
        !manager.styles@.shadows_enabled,
    ensures
        away_from_bar(manager.room(base_margin), bar_is_bottom) == (Margins { top: 0, bottom: 0, start: 0, end: 0 }),
{
}

/// A popover is flush with the bar.
pub proof fn popovers_touch_the_bar(m: i32, bar_is_bottom: bool)
    ensures
        bar_is_bottom ==> away_from_bar(m, bar_is_bottom).bottom == 0,
        !bar_is_bottom ==> away_from_bar(m, bar_is_bottom).top == 0,
{
}

/// A popover has the room for shadows on three sides and none at the bar.
pub proof fn room_is_on_three_sides(manager: SurfaceStyleManager, base: i32, bar_is_bottom: bool)
    ensures
        ({
            let margins = away_from_bar(manager.room(base), bar_is_bottom);
            let room = if manager.styles@.shadows_enabled { base } else { 0 };
            &&& margins.start == room && margins.end == room
            &&& bar_is_bottom ==> margins.top == room && margins.bottom == 0
            &&& !bar_is_bottom ==> margins.bottom == room && margins.top == 0
        }),
{
}

/// A font is as many pixels high as its size tells, to the nearest, and at least one.
pub proof fn fonts_have_the_nearest_number_of_pixels(size: i32)
    requires
        size > 0,
    ensures
        pixels(size, true) matches Some(px) && px >= 1 && (px > 1 || 2 * size >= 1024 ==> 2048 * px - 1024 <= 2 * size < 2048
            * px + 1024),
        pixels(size, false) matches Some(px) && px >= 1 && (px > 1 || 2 * size * 96 >= 73728 ==> 147456 * px - 73728 <= 2
            * size * 96 < 147456 * px + 73728),
        pixels(0, true) is None,
{
    let a = (2 * size + 1024) / 2048;
    assert(2048 * a <= 2 * size + 1024 < 2048 * a + 2048);
    let b = (2 * (size * 96) + 73728) / 147456;
    assert(147456 * b <= 2 * (size * 96) + 73728 < 147456 * b + 147456);
}

/// A font of so many pixels has three quarters as many points, to the nearest.
pub proof fn points_are_three_quarters_of_pixels(px: u32)
    ensures
        4 * points(px) - 2 <= 3 * px < 4 * points(px) + 2,
{
    let p = (2 * (px * 72) + 96) / 192;
    assert(192 * p <= 2 * (px * 72) + 96 < 192 * p + 192);
}

/// A moving surface keeps its rounding. Its outline is coloured while it is active and can be seen.
pub proof fn moving_outlines_are_seen_while_active(config: ConfigManager, active: bool)
    ensures
        ({
            let outline = moving_outline(config, active);
            let seen = config.palette.surface_outline_enabled && config.palette.outline_opacity_pct > 0
                && config.palette.outline_width_px > 0;
            &&& outline.radius == config.palette.surface_border_radius && outline.active == active
            &&& outline.color == Outline::Colored <==> active && seen
            &&& seen ==> outline.width == config.palette.outline_width_px
            &&& !seen ==> outline.width == 0
        }),
{
}

/// Labels have the size that style sheets make of them, else the usual one. A symbol has none, and what is within a
/// widget comes behind it.
pub proof fn labels_have_their_computed_size(widget: Widget, base: u32)
    ensures
        widget.label matches Some(label) ==> {
            let first = label_sizes(widget, base)[0];
            &&& label_sizes(widget, base).len() > 0
            &&& label.symbol ==> first is None
            &&& !label.symbol && label.computed is Some ==> first == label.computed
            &&& !label.symbol && label.computed is None ==> first == Some(base)
            &&& label_sizes(widget, base).skip(1) =~= all_label_sizes(widget.children@, base)
        },
        widget.label is None ==> label_sizes(widget, base) =~= all_label_sizes(widget.children@, base),
{
}

/// Before styles are set, surfaces are dark with white text, a font of a fixed width of 14 pixels and shadows.
pub proof fn surfaces_begin_dark()
    ensures
        ({
            let s = dark_styles();
            &&& s.background_color == "#111217"@ && s.text_color == "#ffffff"@
            &&& s.font_family == "monospace"@ && s.font_size == 14 && s.shadows_enabled
        }),
{
}

} // verus!
