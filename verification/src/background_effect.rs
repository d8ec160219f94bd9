//! Which parts of surfaces the compositor is asked to blur.

use std::collections::HashSet;
use vstd::prelude::*;
use crate::config::options::{equal_doubles, same_double};
use crate::surfaces::{away_from_bar, Margins, SurfaceStyleManager};
use crate::text;

verus! {

pub const MANAGER_INTERFACE: &'static str = "ext_background_effect_manager_v1";

pub const COMPOSITOR_INTERFACE: &'static str = "wl_compositor";

/// A rectangle of a surface.
#[derive(Clone, Copy, Debug, PartialEq, Eq, Structural)]
pub struct Rect {
    pub x: i32,
    pub y: i32,
    pub width: i32,
    pub height: i32,
}

/// A rectangle in the plane.
pub struct RectView {
    pub x: int,
    pub y: int,
    pub width: int,
    pub height: int,
}

impl View for Rect {
    type V = RectView;

    open spec fn view(&self) -> RectView {
        RectView { x: self.x as int, y: self.y as int, width: self.width as int, height: self.height as int }
    }
}

/// The rectangles of a list.
pub open spec fn rect_views(rects: Seq<Rect>) -> Seq<RectView> {
    rects.map_values(|r: Rect| r@)
}

impl RectView {
    /// Whether it holds anything.
    pub open spec fn is_filled(self) -> bool {
        self.width > 0 && self.height > 0
    }

    /// Whether the rows of its corners can be told, if it has any with that radius.
    pub open spec fn fits(self, radius: int) -> bool {
        let r = clamped_radius(self, radius);
        self.is_filled() && r > 0 ==> self.x + inset(r, 0) <= i32::MAX && self.y + self.height <= i32::MAX
    }

    /// Whether it lies in another.
    pub open spec fn lies_in(self, other: RectView) -> bool {
        &&& other.x <= self.x
        &&& self.x + self.width <= other.x + other.width
        &&& other.y <= self.y
        &&& self.y + self.height <= other.y + other.height
    }

    /// Whether it reaches a row.
    pub open spec fn meets_row(self, row: int) -> bool {
        self.y <= row < self.y + self.height
    }
}

/// Four times the square of half the chord that row `i` cuts from a circle of radius `r`. Rows are
/// counted from the top, and are cut in their middle: at `r - i - 1/2` from the center.
pub open spec fn chord(r: int, i: int) -> int {
    4 * r * r - (2 * r - 1 - 2 * i) * (2 * r - 1 - 2 * i)
}

/// Whether `h` is the integer nearest to half the square root of `q`.
pub open spec fn nearest_half(q: int, h: int) -> bool {
    1 <= h && (2 * h - 1) * (2 * h - 1) < q <= (2 * h + 1) * (2 * h + 1)
}

/// Half the width of row `i` of a circle of radius `r`, to the nearest integer.
pub open spec fn half_width(r: int, i: int) -> int {
    choose|h: int| nearest_half(chord(r, i), h)
}

/// How far row `i` of a corner of radius `r` stands back.
pub open spec fn inset(r: int, i: int) -> int {
    r - half_width(r, i)
}

/// Row `i` of the upper corners of a rectangle.
pub open spec fn top_row(rect: RectView, r: int, i: int) -> RectView {
    RectView {
        x: rect.x + inset(r, i),
        y: rect.y + i,
        width: rect.width - 2 * inset(r, i),
        height: 1,
    }
}

/// Row `i` of the lower corners of a rectangle, counted from below.
pub open spec fn bottom_row(rect: RectView, r: int, i: int) -> RectView {
    RectView { y: rect.y + rect.height - 1 - i, ..top_row(rect, r, i) }
}

/// The first `n` rows of the corners, above and below in turn.
pub open spec fn corner_rows(rect: RectView, r: int, n: int) -> Seq<RectView>
    decreases n,
{
    if n <= 0 {
        Seq::empty()
    } else {
        corner_rows(rect, r, n - 1).push(top_row(rect, r, n - 1)).push(bottom_row(rect, r, n - 1))
    }
}

/// The radius that corners of a rectangle can have at most.
pub open spec fn largest_radius(rect: RectView) -> int {
    if rect.width < rect.height {
        rect.width / 2
    } else {
        rect.height / 2
    }
}

/// The radius that corners have where `r` is asked for. A radius too large makes a pill.
pub open spec fn clamped_radius(rect: RectView, r: int) -> int {
    if r <= largest_radius(rect) {
        r
    } else {
        largest_radius(rect)
    }
}

/// What stands between the corners above and those below.
pub open spec fn middle(rect: RectView, r: int) -> Seq<RectView> {
    if rect.height > 2 * r {
        seq![RectView { y: rect.y + r, height: rect.height - 2 * r, ..rect }]
    } else {
        Seq::empty()
    }
}

/// The rectangles that make up one with rounded corners.
pub open spec fn rounded(rect: RectView, radius: int) -> Seq<RectView> {
    let r = clamped_radius(rect, radius);
    if !rect.is_filled() {
        Seq::empty()
    } else if r <= 0 {
        seq![rect]
    } else {
        middle(rect, r) + corner_rows(rect, r, r)
    }
}

/// Only one integer is nearest.
pub proof fn nearest_half_is_unique(q: int, a: int, b: int)
    requires
        nearest_half(q, a),
        nearest_half(q, b),
    ensures
        a == b,
{
    if a < b {
        assert((2 * a + 1) * (2 * a + 1) <= (2 * b - 1) * (2 * b - 1)) by (nonlinear_arith)
            requires
                1 <= a < b,
        ;
    }
    if b < a {
        assert((2 * b + 1) * (2 * b + 1) <= (2 * a - 1) * (2 * a - 1)) by (nonlinear_arith)
            requires
                1 <= b < a,
        ;
    }
}

proof fn lemma_chord(r: int, i: int)
    requires
        0 <= i < r,
    ensures
        3 <= chord(r, i) < 4 * r * r,
        4 * r * r < (2 * r + 1) * (2 * r + 1),
{
    let odd = 2 * r - 1 - 2 * i;
    assert(1 <= odd * odd <= (2 * r - 1) * (2 * r - 1)) by (nonlinear_arith)
        requires
            1 <= odd <= 2 * r - 1,
    ;
    assert((2 * r - 1) * (2 * r - 1) == 4 * r * r - 4 * r + 1) by (nonlinear_arith);
    assert((2 * r + 1) * (2 * r + 1) == 4 * r * r + 4 * r + 1) by (nonlinear_arith);
}

/// Half the width of a row is at least one and at most the radius.
pub proof fn half_width_is_bounded(r: int, i: int)
    requires
        0 <= i < r,
    ensures
        nearest_half(chord(r, i), half_width(r, i)),
        1 <= half_width(r, i) <= r,
{
    lemma_chord(r, i);
    let h = lemma_half_exists(chord(r, i), r);
    assert(nearest_half(chord(r, i), h));
    nearest_half_is_unique(chord(r, i), h, half_width(r, i));
}

proof fn lemma_half_exists(q: int, most: int) -> (h: int)
    requires
        1 < q <= (2 * most + 1) * (2 * most + 1),
        1 <= most,
    ensures
        1 <= h <= most,
        nearest_half(q, h),
    decreases most,
{
    if (2 * most - 1) * (2 * most - 1) < q {
        most
    } else {
        if most == 1 {
            assert((2 * most - 1) * (2 * most - 1) == 1) by (nonlinear_arith)
                requires
                    most == 1,
            ;
        }
        assert(2 * (most - 1) + 1 == 2 * most - 1);
        lemma_half_exists(q, most - 1)
    }
}

/// The rows of a corner get wider towards the middle.
pub proof fn rows_widen_inward(r: int, i: int, j: int)
    requires
        0 <= i <= j < r,
    ensures
        half_width(r, i) <= half_width(r, j),
        inset(r, j) <= inset(r, i),
{
    half_width_is_bounded(r, i);
    half_width_is_bounded(r, j);
    let a = 2 * r - 1 - 2 * i;
    let b = 2 * r - 1 - 2 * j;
    assert(b * b <= a * a) by (nonlinear_arith)
        requires
            0 <= b <= a,
    ;
    let h = half_width(r, i);
    let k = half_width(r, j);
    if k < h {
        assert((2 * k + 1) * (2 * k + 1) <= (2 * h - 1) * (2 * h - 1)) by (nonlinear_arith)
            requires
                1 <= k < h,
        ;
    }
}

proof fn lemma_corner_rows(rect: RectView, r: int, n: int)
    requires
        0 <= n,
    ensures
        corner_rows(rect, r, n).len() == 2 * n,
        forall|i: int|
            0 <= i < n ==> #[trigger] corner_rows(rect, r, n)[2 * i] == top_row(rect, r, i) && corner_rows(
                rect,
                r,
                n,
            )[2 * i + 1] == bottom_row(rect, r, i),
    decreases n,
{
    if n > 0 {
        lemma_corner_rows(rect, r, n - 1);
        let before = corner_rows(rect, r, n - 1);
        let now = corner_rows(rect, r, n);
        assert forall|i: int| 0 <= i < n implies #[trigger] now[2 * i] == top_row(rect, r, i) && now[2 * i + 1]
            == bottom_row(rect, r, i) by {
            if i < n - 1 {
                assert(now[2 * i] == before[2 * i]);
                assert(now[2 * i + 1] == before[2 * i + 1]);
            }
        }
    }
}

proof fn lemma_rounded(rect: RectView, r: int, k: int)
    requires
        rect.is_filled(),
        1 <= r <= largest_radius(rect),
        0 <= k < rounded(rect, r).len(),
    ensures
        ({
            let m = middle(rect, r).len() as int;
            let i = (k - m) / 2;
            let e = rounded(rect, r)[k];
            &&& m <= 1
            &&& rounded(rect, r).len() == m + 2 * r
            &&& k < m ==> e == middle(rect, r)[0]
            &&& k >= m ==> 0 <= i < r && (if (k - m) % 2 == 0 {
                e == top_row(rect, r, i)
            } else {
                e == bottom_row(rect, r, i)
            })
        }),
{
    lemma_corner_rows(rect, r, r);
    let m = middle(rect, r).len() as int;
    let rows = corner_rows(rect, r, r);
    if k >= m {
        let i = (k - m) / 2;
        assert(rounded(rect, r)[k] == rows[k - m]);
        assert(rows[2 * i] == top_row(rect, r, i));
        if (k - m) % 2 == 0 {
            assert(k - m == 2 * i);
        } else {
            assert(k - m == 2 * i + 1);
        }
    }
}

proof fn lemma_clamped(rect: RectView, radius: int)
    requires
        rect.is_filled(),
    ensures
        rounded(rect, radius) == rounded(rect, clamped_radius(rect, radius)),
{
}

/// Nothing outside the rectangle is blurred, and every part holds something.
pub proof fn rounding_stays_inside(rect: RectView, radius: int, k: int)
    requires
        0 <= k < rounded(rect, radius).len(),
    ensures
        rounded(rect, radius)[k].lies_in(rect),
        rounded(rect, radius)[k].is_filled(),
{
    let r = clamped_radius(rect, radius);
    if r > 0 {
        lemma_clamped(rect, radius);
        lemma_rounded(rect, r, k);
        let m = middle(rect, r).len() as int;
        if k >= m {
            half_width_is_bounded(r, (k - m) / 2);
        }
    }
}

/// Every row of the rectangle is blurred once.
pub proof fn rows_are_covered_once(rect: RectView, radius: int, row: int)
    requires
        rect.is_filled(),
        rect.meets_row(row),
    ensures
        exists|k: int| 0 <= k < rounded(rect, radius).len() && #[trigger] rounded(rect, radius)[k].meets_row(row),
        forall|k: int, l: int|
            0 <= k < rounded(rect, radius).len() && 0 <= l < rounded(rect, radius).len()
                && #[trigger] rounded(rect, radius)[k].meets_row(row) && #[trigger] rounded(rect, radius)[l].meets_row(
                row,
            ) ==> k == l,
{
    let r = clamped_radius(rect, radius);
    let parts = rounded(rect, radius);
    lemma_clamped(rect, radius);
    if r <= 0 {
        assert(parts[0].meets_row(row));
    } else {
        let m = middle(rect, r).len() as int;
        lemma_corner_rows(rect, r, r);
        let rows = corner_rows(rect, r, r);
        if row < rect.y + r {
            let i = row - rect.y;
            assert(rows[2 * i] == top_row(rect, r, i));
            assert(parts[m + 2 * i] == rows[2 * i]);
            assert(parts[m + 2 * i].meets_row(row));
        } else if row >= rect.y + rect.height - r {
            let i = rect.y + rect.height - 1 - row;
            assert(rows[2 * i] == top_row(rect, r, i));
            assert(parts[m + 2 * i + 1] == rows[2 * i + 1]);
            assert(parts[m + 2 * i + 1].meets_row(row));
        } else {
            assert(parts[0].meets_row(row));
        }
        assert forall|k: int, l: int|
            0 <= k < parts.len() && 0 <= l < parts.len() && #[trigger] parts[k].meets_row(row)
                && #[trigger] parts[l].meets_row(row) implies k == l by {
            lemma_rounded(rect, r, k);
            lemma_rounded(rect, r, l);
        }
    }
}

/// A radius that is too large makes the same pill as the largest that fits.
pub proof fn large_radii_make_pills(rect: RectView, a: int, b: int)
    requires
        a >= largest_radius(rect),
        b >= largest_radius(rect),
    ensures
        rounded(rect, a) == rounded(rect, b),
{
}

fn is_wider(h: u64, q: u64) -> (yes: bool)
    requires
        h <= 0x3fff_ffff,
    ensures
        yes == ((2 * h + 1) * (2 * h + 1) < q),
{
    let odd: u64 = 2 * h + 1;
    proof {
        assert(odd * odd <= 0x7fff_ffff * 0x7fff_ffff) by (nonlinear_arith)
            requires
                0 <= odd <= 0x7fff_ffff,
        ;
    }
    odd * odd < q
}

/// Half the width of a row of a circle.
fn row_half_width(r: i32, i: i32) -> (h: i32)
    requires
        0 <= i < r,
        2 * r <= i32::MAX,
    ensures
        h == half_width(r as int, i as int),
        1 <= h <= r,
{
    proof {
        lemma_chord(r as int, i as int);
        half_width_is_bounded(r as int, i as int);
        assert(4 * r * r <= 0x7fff_ffff * 0x7fff_ffff) by (nonlinear_arith)
            requires
                0 <= 2 * r <= 0x7fff_ffff,
        ;
        let odd = 2 * r - 1 - 2 * i;
        assert(0 <= odd * odd <= 4 * r * r) by (nonlinear_arith)
            requires
                0 <= odd <= 2 * r,
        ;
        assert(((2 * r) as u64) * ((2 * r) as u64) == 4 * r * r) by (nonlinear_arith)
            requires
                0 <= 2 * r <= 0x7fff_ffff,
        ;
    }
    let wide: u64 = (2 * r) as u64;
    let odd: u64 = (2 * r - 1 - 2 * i) as u64;
    let q: u64 = wide * wide - odd * odd;
    let mut h: u64 = 1;
    proof {
        assert((2 * h - 1) * (2 * h - 1) == 1) by (nonlinear_arith)
            requires
                h == 1,
        ;
    }
    while h < r as u64 && is_wider(h, q)
        invariant
            1 <= h <= r,
            0 < r <= 0x3fff_ffff,
            q == chord(r as int, i as int),
            (2 * h - 1) * (2 * h - 1) < q,
        decreases r - h,
    {
        h += 1;
        proof {
            assert(2 * (h - 1) + 1 == 2 * h - 1);
        }
    }
    proof {
        assert(nearest_half(q as int, h as int));
        nearest_half_is_unique(q as int, h as int, half_width(r as int, i as int));
    }
    h as i32
}

/// Whether the rows of the corners of a rectangle can be told.
pub fn corners_fit(rect: &Rect, radius: i32) -> (yes: bool)
    ensures
        yes == rect@.fits(radius as int),
{
    if rect.width <= 0 || rect.height <= 0 {
        return true;
    }
    let half: i32 = if rect.width < rect.height {
        rect.width / 2
    } else {
        rect.height / 2
    };
    let r: i32 = if radius <= half {
        radius
    } else {
        half
    };
    if r <= 0 {
        return true;
    }
    let back: i32 = r - row_half_width(r, 0);
    rect.x as i64 + back as i64 <= i32::MAX as i64 && rect.y as i64 + rect.height as i64 <= i32::MAX as i64
}

/// Appends the rectangles that make up one with rounded corners.
pub fn add_rounded_rect(region: &mut Vec<Rect>, rect: &Rect, radius: i32)
    requires
        rect@.fits(radius as int),
    ensures
        rect_views(final(region)@) == rect_views(old(region)@) + rounded(rect@, radius as int),
{
    let ghost before = rect_views(region@);
    if rect.width <= 0 || rect.height <= 0 {
        proof {
            assert(before + rounded(rect@, radius as int) =~= before);
        }
        return;
    }
    let half: i32 = if rect.width < rect.height {
        rect.width / 2
    } else {
        rect.height / 2
    };
    let r: i32 = if radius <= half {
        radius
    } else {
        half
    };
    if r <= 0 {
        region.push(*rect);
        proof {
            assert(rect_views(region@) =~= before + rounded(rect@, radius as int));
        }
        return;
    }
    if rect.height > 2 * r {
        region.push(Rect { x: rect.x, y: rect.y + r, width: rect.width, height: rect.height - 2 * r });
    }
    let ghost start = before + middle(rect@, r as int);
    proof {
        assert(rect_views(region@) =~= start);
        assert(start + corner_rows(rect@, r as int, 0) =~= start);
    }
    let mut i: i32 = 0;
    while i < r
        invariant
            0 <= i <= r,
            r <= rect.width / 2,
            r <= rect.height / 2,
            rect.x + inset(r as int, 0) <= i32::MAX,
            rect.y + rect.height <= i32::MAX,
            rect_views(region@) == start + corner_rows(rect@, r as int, i as int),
        decreases r - i,
    {
        let back: i32 = r - row_half_width(r, i);
        proof {
            rows_widen_inward(r as int, 0, i as int);
        }
        let ghost held = rect_views(region@);
        region.push(Rect { x: rect.x + back, y: rect.y + i, width: rect.width - 2 * back, height: 1 });
        region.push(
            Rect {
                x: rect.x + back,
                y: rect.y + (rect.height - 1 - i),
                width: rect.width - 2 * back,
                height: 1,
            },
        );
        proof {
            assert(rect_views(region@) =~= held.push(top_row(rect@, r as int, i as int)).push(
                bottom_row(rect@, r as int, i as int),
            ));
            assert(rect_views(region@) =~= start + corner_rows(rect@, r as int, i + 1));
        }
        i += 1;
    }
    proof {
        assert(rect_views(region@) =~= before + rounded(rect@, radius as int));
    }
}

/// The room around what is blurred of a surface, and the radius of its corners.
#[derive(Clone, Copy, Debug, PartialEq, Eq, Structural)]
pub struct ShadowLayout {
    pub margins: Margins,
    pub radius: i32,
}

impl ShadowLayout {
    /// No margin is negative.
    pub open spec fn is_valid(self) -> bool {
        self.margins.top >= 0 && self.margins.bottom >= 0 && self.margins.start >= 0 && self.margins.end >= 0
    }

    /// Whether no margin is negative.
    pub fn has_margins(&self) -> (yes: bool)
        ensures
            yes == self.is_valid(),
    {
        self.margins.top >= 0 && self.margins.bottom >= 0 && self.margins.start >= 0 && self.margins.end >= 0
    }
}

/// The layout of a surface with room for shadows. Without such room its corners are not rounded.
pub open spec fn layout_for(
    shadow_margin: i32,
    styles: SurfaceStyleManager,
    bar_is_bottom: bool,
    border_radius: i32,
) -> ShadowLayout {
    ShadowLayout {
        margins: if shadow_margin > 0 && styles.room(shadow_margin) > 0 {
            away_from_bar(styles.room(shadow_margin), bar_is_bottom)
        } else {
            Margins { top: 0, bottom: 0, start: 0, end: 0 }
        },
        radius: if shadow_margin > 0 {
            border_radius
        } else {
            0
        },
    }
}

/// The layout of a surface with room for shadows.
pub fn compute_shadow_layout(
    shadow_margin: i32,
    styles: &SurfaceStyleManager,
    bar_is_bottom: bool,
    border_radius: i32,
) -> (layout: ShadowLayout)
    ensures
        layout == layout_for(shadow_margin, *styles, bar_is_bottom, border_radius),
        layout.is_valid(),
{
    let m: i32 = if shadow_margin > 0 {
        styles.shadow_margin(shadow_margin)
    } else {
        0
    };
    let margins = if m > 0 {
        styles.apply_shadow_margins(shadow_margin, bar_is_bottom)
    } else {
        Margins { top: 0, bottom: 0, start: 0, end: 0 }
    };
    let radius: i32 = if shadow_margin > 0 {
        border_radius
    } else {
        0
    };
    ShadowLayout { margins, radius }
}

/// What is blurred of a popover begins where its content begins.
pub proof fn blur_follows_the_content(
    shadow_margin: i32,
    styles: SurfaceStyleManager,
    bar_is_bottom: bool,
    border_radius: i32,
)
    requires
        shadow_margin >= 0,
    ensures
        layout_for(shadow_margin, styles, bar_is_bottom, border_radius).margins == away_from_bar(
            styles.room(shadow_margin),
            bar_is_bottom,
        ),
{
}

/// What a surface of the given size holds within its margins.
pub open spec fn content(width: i32, height: i32, layout: ShadowLayout) -> RectView {
    RectView {
        x: layout.margins.start as int,
        y: layout.margins.top as int,
        width: width - layout.margins.start - layout.margins.end,
        height: height - layout.margins.top - layout.margins.bottom,
    }
}

fn content_region(width: i32, height: i32, layout: &ShadowLayout) -> (region: Vec<Rect>)
    requires
        layout.is_valid(),
    ensures
        rect_views(region@) == rounded(content(width, height, *layout), layout.radius as int),
{
    let mut region: Vec<Rect> = Vec::new();
    let w: i64 = width as i64 - layout.margins.start as i64 - layout.margins.end as i64;
    let h: i64 = height as i64 - layout.margins.top as i64 - layout.margins.bottom as i64;
    proof {
        assert(rect_views(region@) =~= Seq::empty());
    }
    if w <= 0 || h <= 0 {
        return region;
    }
    let rect = Rect { x: layout.margins.start, y: layout.margins.top, width: w as i32, height: h as i32 };
    proof {
        let r = clamped_radius(rect@, layout.radius as int);
        if r > 0 {
            half_width_is_bounded(r, 0);
        }
    }
    add_rounded_rect(&mut region, &rect, layout.radius);
    proof {
        assert(Seq::<RectView>::empty() + rounded(rect@, layout.radius as int) =~= rounded(
            rect@,
            layout.radius as int,
        ));
        assert(rect@ == content(width, height, *layout));
    }
    region
}

/// What is to be done to blur a part of a surface.
#[derive(Debug)]
pub struct Blur {
    /// Whether the surface has no effect object yet and one is to be made.
    pub create: bool,
    /// The rectangles that make up the part.
    pub region: Vec<Rect>,
}

/// What comes of a request to blur a popover.
#[derive(Debug)]
pub enum RegionStep {
    /// The surface has no size yet, and a retry is on its way.
    Wait,
    /// The surface has no size yet: it is to be tried again when idle.
    Retry,
    /// The compositor cannot blur.
    Unavailable,
    /// The part is blurred. With `watch`, changes of size are to be watched from now on.
    Apply { blur: Blur, watch: bool },
}

/// What comes of a request to blur the content of a surface.
#[derive(Debug)]
pub enum SurfaceStep {
    /// The surface is not ready. With `watch`, changes of size are to be watched from now on.
    Defer { watch: bool },
    /// The compositor cannot blur.
    Unavailable,
    /// The content is blurred, and the surface is to be committed.
    Apply { blur: Blur },
}

/// Where a widget stands on a surface: the bit patterns of four floats, and the same rounded.
#[derive(Clone, Copy, Debug, PartialEq, Eq, Structural)]
pub struct Bounds {
    pub x: u32,
    pub y: u32,
    pub width: u32,
    pub height: u32,
    pub rounded: Rect,
}

/// Whether a float, given by its bit pattern, is zero or more.
pub open spec fn not_negative(bits: u32) -> bool {
    bits <= 0x7f80_0000 || bits == 0x8000_0000
}

/// Whether a float, given by its bit pattern, is more than zero.
pub open spec fn more_than_zero(bits: u32) -> bool {
    0 < bits <= 0x7f80_0000
}

impl Bounds {
    /// Whether the widget was laid out.
    pub open spec fn are_valid(self) -> bool {
        not_negative(self.x) && not_negative(self.y) && more_than_zero(self.width) && more_than_zero(self.height)
    }

    fn are_laid_out(&self) -> (yes: bool)
        ensures
            yes == self.are_valid(),
    {
        let placed = (self.x <= 0x7f80_0000 || self.x == 0x8000_0000) && (self.y <= 0x7f80_0000 || self.y
            == 0x8000_0000);
        placed && 0 < self.width && self.width <= 0x7f80_0000 && 0 < self.height && self.height <= 0x7f80_0000
    }
}

/// What of the protocol was bound, and which surfaces have an effect object.
pub struct BlurState {
    pub manager: bool,
    pub compositor: bool,
    /// By the identifier of the surface.
    pub effects: HashSet<u32>,
}

/// What a [`BlurState`] holds.
pub struct BlurView {
    pub manager: bool,
    pub compositor: bool,
    pub effects: Set<u32>,
}

impl View for BlurState {
    type V = BlurView;

    open spec fn view(&self) -> BlurView {
        BlurView { manager: self.manager, compositor: self.compositor, effects: self.effects@ }
    }
}

impl BlurView {
    /// Whether effects can be had.
    pub open spec fn can_blur(self) -> bool {
        self.manager && self.compositor
    }

    /// Whether something of a surface of the given size is blurred, which has to be laid out.
    pub open spec fn draws(self, width: i32, height: i32, bounds: Option<Bounds>) -> bool {
        self.can_blur() && width > 1 && height > 1 && bounds is Some && bounds->0.are_valid()
    }

    /// With an effect object for a surface, if effects can be had.
    pub open spec fn with_effect(self, surface: u32) -> BlurView {
        if self.can_blur() {
            BlurView { effects: self.effects.insert(surface), ..self }
        } else {
            self
        }
    }
}

/// What a compositor offers is bound.
#[derive(Clone, Copy, Debug, PartialEq, Eq, Structural)]
pub enum BlurGlobal {
    Manager(u32),
    Compositor(u32),
}

/// What is bound of what a compositor offers, and in which version.
pub open spec fn wanted(interface: Seq<char>, version: u32) -> Option<BlurGlobal> {
    if interface == MANAGER_INTERFACE@ {
        Some(BlurGlobal::Manager(if version < 1 { version } else { 1 }))
    } else if interface == COMPOSITOR_INTERFACE@ {
        Some(BlurGlobal::Compositor(if version < 4 { version } else { 4 }))
    } else {
        None
    }
}

impl BlurState {
    pub fn new() -> (state: BlurState)
        ensures
            state@ == (BlurView { manager: false, compositor: false, effects: Set::empty() }),
    {
        let state = BlurState { manager: false, compositor: false, effects: HashSet::new() };
        proof {
            assert(state@.effects =~= Set::<u32>::empty());
        }
        state
    }

    /// The compositor offers an interface. Says what is to be bound.
    pub fn global_offered(&mut self, interface: &str, version: u32) -> (bind: Option<BlurGlobal>)
        ensures
            bind == wanted(interface@, version),
            final(self)@ == (match bind {
                Some(BlurGlobal::Manager(_)) => BlurView { manager: true, ..old(self)@ },
                Some(BlurGlobal::Compositor(_)) => BlurView { compositor: true, ..old(self)@ },
                None => old(self)@,
            }),
    {
        if text::str_eq(interface, MANAGER_INTERFACE) {
            self.manager = true;
            Some(BlurGlobal::Manager(if version < 1 { version } else { 1 }))
        } else if text::str_eq(interface, COMPOSITOR_INTERFACE) {
            self.compositor = true;
            Some(BlurGlobal::Compositor(if version < 4 { version } else { 4 }))
        } else {
            None
        }
    }

    /// Asks for the effect object of a surface. A second one must never be made for the same surface.
    /// Nothing comes back if effects cannot be had, else whether one is to be made.
    pub fn get_or_create_effect(&mut self, surface: u32) -> (create: Option<bool>)
        ensures
            create == (if old(self)@.can_blur() {
                Some(!old(self)@.effects.contains(surface))
            } else {
                None
            }),
            final(self)@ == old(self)@.with_effect(surface),
    {
        if !self.manager || !self.compositor {
            return None;
        }
        if self.effects.contains(&surface) {
            proof {
                assert(self@.effects.insert(surface) =~= self@.effects);
            }
            return Some(false);
        }
        self.effects.insert(surface);
        proof {
            assert(self@.effects =~= old(self)@.effects.insert(surface));
        }
        Some(true)
    }

    /// A surface is no longer blurred. Says whether it has an effect object to be destroyed.
    pub fn remove_blur_region(&mut self, surface: u32) -> (destroy: bool)
        ensures
            destroy == old(self)@.effects.contains(surface),
            final(self)@ == (BlurView { effects: old(self)@.effects.remove(surface), ..old(self)@ }),
    {
        let destroy = self.effects.remove(&surface);
        proof {
            assert(self@.effects =~= old(self)@.effects.remove(surface));
        }
        destroy
    }

    /// Blurs the content of a popover of the given size. `retry_pending` tells whether a retry is on
    /// its way, `watched` whether its size is watched.
    pub fn apply_blur_region(
        &mut self,
        surface: u32,
        width: i32,
        height: i32,
        layout: &ShadowLayout,
        retry_pending: bool,
        watched: bool,
    ) -> (step: RegionStep)
        requires
            layout.is_valid(),
        ensures
            if width <= 0 || height <= 0 {
                &&& final(self)@ == old(self)@
                &&& if retry_pending {
                    step is Wait
                } else {
                    step is Retry
                }
            } else {
                &&& final(self)@ == old(self)@.with_effect(surface)
                &&& match step {
                    RegionStep::Unavailable => !old(self)@.can_blur(),
                    RegionStep::Apply { blur, watch } => {
                        &&& old(self)@.can_blur()
                        &&& blur.create == !old(self)@.effects.contains(surface)
                        &&& rect_views(blur.region@) == rounded(
                            content(width, height, *layout),
                            layout.radius as int,
                        )
                        &&& watch == !watched
                    },
                    _ => false,
                }
            },
    {
        if width <= 0 || height <= 0 {
            return if retry_pending {
                RegionStep::Wait
            } else {
                RegionStep::Retry
            };
        }
        match self.get_or_create_effect(surface) {
            None => RegionStep::Unavailable,
            Some(create) => {
                let region = content_region(width, height, layout);
                RegionStep::Apply { blur: Blur { create, region }, watch: !watched }
            },
        }
    }

    /// Blurs the islands of a bar without a background. Nothing comes back where there are none or
    /// the compositor cannot blur.
    pub fn apply_bar_island_blur_regions(&mut self, surface: u32, islands: &Vec<Rect>, radius: i32) -> (blur: Option<
        Blur,
    >)
        requires
            old(self)@.can_blur() ==> forall|i: int|
                0 <= i < islands@.len() ==> (#[trigger] islands@[i])@.fits(radius as int),
        ensures
            if islands@.len() == 0 {
                blur is None && final(self)@ == old(self)@
            } else {
                &&& final(self)@ == old(self)@.with_effect(surface)
                &&& blur is Some <==> old(self)@.can_blur()
                &&& blur is Some ==> {
                    &&& blur->0.create == !old(self)@.effects.contains(surface)
                    &&& rect_views(blur->0.region@) == all_rounded(rect_views(islands@), radius as int)
                }
            },
    {
        if islands.len() == 0 {
            return None;
        }
        match self.get_or_create_effect(surface) {
            None => None,
            Some(create) => {
                let mut region: Vec<Rect> = Vec::new();
                let mut i: usize = 0;
                let ghost all = rect_views(islands@);
                proof {
                    assert(rect_views(region@) =~= all_rounded(all.take(0), radius as int));
                }
                while i < islands.len()
                    invariant
                        i <= islands@.len(),
                        all == rect_views(islands@),
                        forall|j: int| 0 <= j < islands@.len() ==> (#[trigger] islands@[j])@.fits(radius as int),
                        rect_views(region@) == all_rounded(all.take(i as int), radius as int),
                    decreases islands@.len() - i,
                {
                    proof {
                        assert(islands@[i as int]@.fits(radius as int));
                        assert(all.take(i + 1).drop_last() =~= all.take(i as int));
                        assert(all.take(i + 1).last() == islands@[i as int]@);
                    }
                    add_rounded_rect(&mut region, &islands[i], radius);
                    i += 1;
                }
                proof {
                    assert(all.take(i as int) =~= all);
                }
                Some(Blur { create, region })
            },
        }
    }

    /// Whether something of a surface of the given size is blurred.
    pub fn draws(&self, width: i32, height: i32, bounds: &Option<Bounds>) -> (yes: bool)
        ensures
            yes == self@.draws(width, height, *bounds),
    {
        self.manager && self.compositor && width > 1 && height > 1 && match bounds {
            Some(b) => b.are_laid_out(),
            None => false,
        }
    }

    /// Blurs the content of a surface without margins, once it was laid out. `watched` tells whether
    /// the size of the surface is watched.
    pub fn apply_blur_surface(
        &mut self,
        surface: u32,
        width: i32,
        height: i32,
        bounds: Option<Bounds>,
        radius: i32,
        watched: bool,
    ) -> (step: SurfaceStep)
        requires
            old(self)@.draws(width, height, bounds) ==> bounds->0.rounded@.fits(radius as int),
        ensures
            if width > 1 && height > 1 && bounds is Some && bounds->0.are_valid() {
                &&& final(self)@ == old(self)@.with_effect(surface)
                &&& match step {
                    SurfaceStep::Unavailable => !old(self)@.can_blur(),
                    SurfaceStep::Apply { blur } => {
                        &&& old(self)@.can_blur()
                        &&& blur.create == !old(self)@.effects.contains(surface)
                        &&& rect_views(blur.region@) == rounded(bounds->0.rounded@, radius as int)
                    },
                    SurfaceStep::Defer { .. } => false,
                }
            } else {
                &&& final(self)@ == old(self)@
                &&& step is Defer
                &&& step->watch == !watched
            },
    {
        if width <= 1 || height <= 1 {
            return SurfaceStep::Defer { watch: !watched };
        }
        match bounds {
            Some(b) => {
                if !b.are_laid_out() {
                    return SurfaceStep::Defer { watch: !watched };
                }
                match self.get_or_create_effect(surface) {
                    None => SurfaceStep::Unavailable,
                    Some(create) => {
                        let mut region: Vec<Rect> = Vec::new();
                        proof {
                            assert(rect_views(region@) =~= Seq::empty());
                            assert(Seq::<RectView>::empty() + rounded(b.rounded@, radius as int) =~= rounded(
                                b.rounded@,
                                radius as int,
                            ));
                        }
                        add_rounded_rect(&mut region, &b.rounded, radius);
                        SurfaceStep::Apply { blur: Blur { create, region } }
                    },
                }
            },
            None => SurfaceStep::Defer { watch: !watched },
        }
    }

    /// Blurs the bar as a whole, once it was laid out. Nothing is done where its background, the bit
    /// pattern of whose opacity is given, is not seen at all: then its islands are blurred one by
    /// one.
    pub fn apply_bar_blur_region(
        &mut self,
        opacity: u64,
        surface: u32,
        width: i32,
        height: i32,
        bounds: Option<Bounds>,
        radius: i32,
        watched: bool,
    ) -> (step: Option<SurfaceStep>)
        requires
            !equal_doubles(opacity, 0) && old(self)@.draws(width, height, bounds) ==> bounds->0.rounded@.fits(
                radius as int,
            ),
        ensures
            step is None <==> equal_doubles(opacity, 0),
            match step {
                None => final(self)@ == old(self)@,
                Some(step) => if width > 1 && height > 1 && bounds is Some && bounds->0.are_valid() {
                    &&& final(self)@ == old(self)@.with_effect(surface)
                    &&& match step {
                        SurfaceStep::Unavailable => !old(self)@.can_blur(),
                        SurfaceStep::Apply { blur } => {
                            &&& old(self)@.can_blur()
                            &&& blur.create == !old(self)@.effects.contains(surface)
                            &&& rect_views(blur.region@) == rounded(bounds->0.rounded@, radius as int)
                        },
                        SurfaceStep::Defer { .. } => false,
                    }
                } else {
                    &&& final(self)@ == old(self)@
                    &&& step is Defer
                    &&& step->watch == !watched
                },
            },
    {
        if same_double(opacity, 0) {
            return None;
        }
        Some(self.apply_blur_surface(surface, width, height, bounds, radius, watched))
    }
}

/// The rectangles that make up several with rounded corners.
pub open spec fn all_rounded(rects: Seq<RectView>, radius: int) -> Seq<RectView>
    decreases rects.len(),
{
    if rects.len() == 0 {
        Seq::empty()
    } else {
        all_rounded(rects.drop_last(), radius) + rounded(rects.last(), radius)
    }
}

/// For a surface that is blurred again no second effect object is made until the first is destroyed.
pub proof fn one_effect_for_a_surface(state: BlurView, surface: u32)
    requires
        state.can_blur(),
    ensures
        state.with_effect(surface).effects.contains(surface),
        state.with_effect(surface).with_effect(surface) == state.with_effect(surface),
{
    assert(state.with_effect(surface).effects.insert(surface) =~= state.with_effect(surface).effects);
}

/// The rows of a corner follow the circle: half the width of a row is the integer nearest to half the chord that the
/// middle of the row cuts from it.
pub proof fn corners_follow_the_circle(r: int, i: int)
    requires
        0 <= i < r,
    ensures
        ({
            let h = r - inset(r, i);
            &&& 1 <= h <= r
            &&& (2 * h - 1) * (2 * h - 1) < (2 * i + 1) * (4 * r - 2 * i - 1) <= (2 * h + 1) * (2 * h + 1)
        }),
{
    half_width_is_bounded(r, i);
    assert((2 * i + 1) * (4 * r - 2 * i - 1) == 4 * r * r - (2 * r - 1 - 2 * i) * (2 * r - 1 - 2 * i)) by (nonlinear_arith);
}

/// Upper and lower corners mirror each other, and so do left and right: every row stands back as far on both sides.
pub proof fn corners_mirror_each_other(rect: RectView, r: int, i: int)
    ensures
        ({
            let top = top_row(rect, r, i);
            let bottom = bottom_row(rect, r, i);
            &&& top.x == bottom.x && top.width == bottom.width && top.height == 1 && bottom.height == 1
            &&& top.y - rect.y == (rect.y + rect.height) - (bottom.y + bottom.height)
            &&& top.x - rect.x == (rect.x + rect.width) - (top.x + top.width)
            &&& top.y == rect.y + i
        }),
{
}

/// What a popover holds lies within its margins.
pub proof fn contents_lie_within_their_margins(width: i32, height: i32, layout: ShadowLayout)
    ensures
        ({
            let c = content(width, height, layout);
            &&& c.x == layout.margins.start && c.y == layout.margins.top
            &&& c.x + c.width + layout.margins.end == width
            &&& c.y + c.height + layout.margins.bottom == height
        }),
{
}

/// Corners are rounded exactly where there is room for shadows to be asked for.
pub proof fn corners_are_rounded_with_room(
    shadow_margin: i32,
    styles: SurfaceStyleManager,
    bar_is_bottom: bool,
    border_radius: i32,
)
    ensures
        shadow_margin > 0 ==> layout_for(shadow_margin, styles, bar_is_bottom, border_radius).radius == border_radius,
        shadow_margin <= 0 ==> layout_for(shadow_margin, styles, bar_is_bottom, border_radius).radius == 0,
{
}

/// A surface is blurred exactly if the compositor can, the surface has a size and what is blurred was laid out: at a
/// place that is not negative, with a size above zero.
pub proof fn surfaces_are_blurred_once_laid_out(state: BlurView, width: i32, height: i32, b: Bounds)
    ensures
        state.draws(width, height, Some(b)) <==> state.manager && state.compositor && width > 1 && height > 1 && (b.x
            < 0x8000_0000 && b.x <= 0x7f80_0000 || b.x == 0x8000_0000) && (b.y < 0x8000_0000 && b.y <= 0x7f80_0000 || b.y
            == 0x8000_0000) && 0 < b.width <= 0x7f80_0000 && 0 < b.height <= 0x7f80_0000,
        !state.draws(width, height, None),
{
}

/// The interfaces for effects and surfaces are bound, in the versions that are known at most.
pub proof fn known_interfaces_are_bound(interface: Seq<char>, version: u32)
    ensures
        wanted(interface, version) matches Some(BlurGlobal::Manager(v)) ==> v <= 1 && v <= version,
        wanted(interface, version) matches Some(BlurGlobal::Compositor(v)) ==> v <= 4 && v <= version,
        interface == MANAGER_INTERFACE@ ==> wanted(interface, version) is Some && wanted(interface, version)->0 is Manager,
        interface != MANAGER_INTERFACE@ && interface != COMPOSITOR_INTERFACE@ ==> wanted(interface, version) is None,
        version >= 1 && interface == MANAGER_INTERFACE@ ==> wanted(interface, version) == Some(BlurGlobal::Manager(1)),
{
}

} // verus!
