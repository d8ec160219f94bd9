use vibepanel::activation::{ActivationGlobal, ActivationState, DeviceStep, Devices, Input};
use vibepanel::background_effect::{
    add_rounded_rect, compute_shadow_layout, corners_fit, BlurGlobal, BlurState, Bounds, Rect,
    RegionStep, ShadowLayout, SurfaceStep,
};
use vibepanel::dbus::{asks_for_owner, error_named, has_resumed, is_dbus_disconnect, DBusError};
use vibepanel::desktop_notification::{send_with_id, Urgency};
use vibepanel::notification::notification_from;
use vibepanel::surfaces::{
    default_surface_styles, get_computed_font_size, pango_size, Label, Margins,
    SurfaceStyleManager, Widget,
};

const ALL: Devices = Devices {
    pointer: true,
    keyboard: true,
    touch: true,
};

fn bound() -> ActivationState {
    let mut state = ActivationState::new();
    assert_eq!(
        state.global_offered("xdg_activation_v1", 3),
        Some(ActivationGlobal::Activation(1))
    );
    assert!(!state.is_ready());
    assert_eq!(state.global_offered("wl_seat", 9), Some(ActivationGlobal::Seat(5)));
    assert_eq!(state.global_offered("wl_seat", 9), None);
    assert_eq!(state.global_offered("wl_output", 1), None);
    assert!(state.is_ready());
    state
}

#[test]
fn a_token_is_asked_for_with_the_click() {
    let mut state = bound();
    state.pointer_button(1);
    assert_eq!(state.create_token(), None);
    state.pointer_enter(10);
    state.pointer_button(2);
    assert_eq!(
        state.create_token(),
        Some(Input {
            serial: 2,
            surface: 10
        })
    );
    // The click is used up.
    assert_eq!(state.create_token(), None);
    assert!(state.asks_again(0, false));
    assert!(state.asks_again(1, false));
    assert!(!state.asks_again(1, true));
    assert!(!state.asks_again(2, false));
    state.token_done("token".to_string());
    assert!(!state.asks_again(1, false));
    assert_eq!(state.take_token(), Some("token".to_string()));
    assert_eq!(state.take_token(), None);
    state.token_done(String::new());
    assert_eq!(state.take_token(), None);
}

#[test]
fn surfaces_that_were_left_are_forgotten() {
    let mut state = bound();
    state.pointer_enter(10);
    state.pointer_button(2);
    state.keyboard_enter(11);
    state.keyboard_leave(11);
    assert!(state.last_input.is_some());
    state.pointer_leave(10);
    assert_eq!(state.last_input, None);
    state.keyboard_enter(11);
    state.keyboard_key(3);
    state.touch_down(4, 12);
    state.keyboard_leave(11);
    assert_eq!(
        state.last_input,
        Some(Input {
            serial: 4,
            surface: 12
        })
    );
}

#[test]
fn devices_are_taken_and_released() {
    let mut state = ActivationState::new();
    let steps = state.capabilities(ALL);
    assert_eq!(steps.pointer, DeviceStep::Get);
    assert_eq!(steps.touch, DeviceStep::Get);
    let steps = state.capabilities(ALL);
    assert_eq!(steps.keyboard, DeviceStep::Keep);
    state.pointer_enter(10);
    state.pointer_button(2);
    let steps = state.capabilities(Devices {
        pointer: false,
        ..ALL
    });
    assert_eq!(steps.pointer, DeviceStep::Release);
    assert_eq!(state.pointer_surface, None);
    assert_eq!(state.last_input, None);
}

fn rect(x: i32, y: i32, width: i32, height: i32) -> Rect {
    Rect {
        x,
        y,
        width,
        height,
    }
}

/// The inset of a row as floating-point numbers give it.
fn float_inset(radius: i32, i: i32) -> i32 {
    let r = f64::from(radius);
    let dy = r - 0.5 - f64::from(i);
    (r - (r * r - dy * dy).sqrt()).round() as i32
}

#[test]
fn corners_are_rounded_row_by_row() {
    let mut region = Vec::new();
    add_rounded_rect(&mut region, &rect(10, 20, 100, 50), 0);
    assert_eq!(region, vec![rect(10, 20, 100, 50)]);
    region.clear();
    add_rounded_rect(&mut region, &rect(10, 20, 0, 50), 4);
    assert_eq!(region, vec![]);
    add_rounded_rect(&mut region, &rect(10, 20, 100, 50), 2);
    assert_eq!(
        region,
        vec![
            rect(10, 22, 100, 46),
            rect(11, 20, 98, 1),
            rect(11, 69, 98, 1),
            rect(10, 21, 100, 1),
            rect(10, 68, 100, 1),
        ]
    );
}

#[test]
fn rows_are_the_nearest_to_the_circle() {
    for radius in 1..200 {
        let mut region = Vec::new();
        add_rounded_rect(&mut region, &rect(0, 0, 2 * radius, 2 * radius), radius);
        assert_eq!(region.len(), 2 * radius as usize);
        for i in 0..radius {
            let inset = float_inset(radius, i);
            assert_eq!(
                region[2 * i as usize],
                rect(inset, i, 2 * radius - 2 * inset, 1)
            );
            assert_eq!(
                region[2 * i as usize + 1],
                rect(inset, 2 * radius - 1 - i, 2 * radius - 2 * inset, 1)
            );
        }
    }
}

#[test]
fn a_radius_too_large_makes_a_pill() {
    let mut pill = Vec::new();
    add_rounded_rect(&mut pill, &rect(0, 0, 40, 10), 500);
    let mut same = Vec::new();
    add_rounded_rect(&mut same, &rect(0, 0, 40, 10), 5);
    assert_eq!(pill, same);
    let mut line = Vec::new();
    add_rounded_rect(&mut line, &rect(0, 0, 40, 1), 500);
    assert_eq!(line, vec![rect(0, 0, 40, 1)]);
}

fn blur_state() -> BlurState {
    let mut state = BlurState::new();
    assert_eq!(
        state.global_offered("ext_background_effect_manager_v1", 2),
        Some(BlurGlobal::Manager(1))
    );
    assert_eq!(state.get_or_create_effect(1), None);
    assert_eq!(
        state.global_offered("wl_compositor", 6),
        Some(BlurGlobal::Compositor(4))
    );
    assert_eq!(state.global_offered("wl_shm", 1), None);
    state
}

#[test]
fn popovers_are_blurred_within_their_margins() {
    let mut state = blur_state();
    let mut styles = SurfaceStyleManager::new(default_surface_styles());
    let layout = compute_shadow_layout(8, &styles, true, 0);
    assert_eq!(
        layout.margins,
        Margins {
            top: 8,
            bottom: 0,
            start: 8,
            end: 8
        }
    );
    assert_eq!(compute_shadow_layout(8, &styles, false, 3).margins.top, 0);
    assert_eq!(compute_shadow_layout(0, &styles, false, 3).radius, 0);
    assert!(matches!(
        state.apply_blur_region(5, 0, 50, &layout, false, false),
        RegionStep::Retry
    ));
    assert!(matches!(
        state.apply_blur_region(5, 0, 50, &layout, true, false),
        RegionStep::Wait
    ));
    match state.apply_blur_region(5, 100, 50, &layout, false, false) {
        RegionStep::Apply { blur, watch } => {
            assert!(blur.create && watch);
            assert_eq!(blur.region, vec![rect(8, 8, 84, 42)]);
        }
        other => panic!("{other:?}"),
    }
    match state.apply_blur_region(5, 100, 50, &layout, false, true) {
        RegionStep::Apply { blur, watch } => assert!(!blur.create && !watch),
        other => panic!("{other:?}"),
    }
    assert!(state.remove_blur_region(5));
    assert!(!state.remove_blur_region(5));
    assert_eq!(state.get_or_create_effect(5), Some(true));
    styles.styles.shadows_enabled = false;
    let layout = compute_shadow_layout(8, &styles, true, 3);
    assert_eq!(layout.margins.top, 0);
    assert_eq!(layout.radius, 3);
    assert!(matches!(
        BlurState::new().apply_blur_region(5, 100, 50, &layout, false, true),
        RegionStep::Unavailable
    ));
}

fn bounds(x: f32, y: f32, width: f32, height: f32) -> Option<Bounds> {
    Some(Bounds {
        x: x.to_bits(),
        y: y.to_bits(),
        width: width.to_bits(),
        height: height.to_bits(),
        rounded: rect(
            x.round() as i32,
            y.round() as i32,
            width.round() as i32,
            height.round() as i32,
        ),
    })
}

#[test]
fn surfaces_are_blurred_once_they_are_laid_out() {
    let mut state = blur_state();
    for (width, height, b) in [
        (1, 50, bounds(0.0, 0.0, 10.0, 10.0)),
        (50, 1, bounds(0.0, 0.0, 10.0, 10.0)),
        (50, 50, None),
        (50, 50, bounds(-1.0, 0.0, 10.0, 10.0)),
        (50, 50, bounds(0.0, f32::NAN, 10.0, 10.0)),
        (50, 50, bounds(0.0, 0.0, 0.0, 10.0)),
        (50, 50, bounds(0.0, 0.0, 10.0, -3.0)),
    ] {
        assert!(matches!(
            state.apply_blur_surface(3, width, height, b, 0, false),
            SurfaceStep::Defer { watch: true }
        ));
        assert!(matches!(
            state.apply_blur_surface(3, width, height, b, 0, true),
            SurfaceStep::Defer { watch: false }
        ));
    }
    match state.apply_blur_surface(3, 50, 50, bounds(-0.0, 1.4, 10.6, 10.0), 0, false) {
        SurfaceStep::Apply { blur } => {
            assert!(blur.create);
            assert_eq!(blur.region, vec![rect(0, 1, 11, 10)]);
        }
        other => panic!("{other:?}"),
    }
    assert!(matches!(
        BlurState::new().apply_blur_surface(3, 50, 50, bounds(0.0, 0.0, 1.0, 1.0), 0, false),
        SurfaceStep::Unavailable
    ));
}

#[test]
fn islands_are_blurred_one_by_one() {
    let mut state = blur_state();
    assert!(state.apply_bar_island_blur_regions(1, &vec![], 0).is_none());
    let islands = vec![rect(0, 0, 10, 10), rect(20, 0, 10, 10)];
    let blur = state.apply_bar_island_blur_regions(1, &islands, 0).unwrap();
    assert_eq!(blur.region, islands);
    let mut whole = |opacity: f64| {
        let place = bounds(0.0, 0.0, 10.0, 10.0);
        state.apply_bar_blur_region(opacity.to_bits(), 2, 50, 50, place, 0, false)
    };
    assert!(whole(0.0).is_none());
    assert!(whole(-0.0).is_none());
    match whole(0.3) {
        Some(SurfaceStep::Apply { blur }) => assert_eq!(blur.region, vec![rect(0, 0, 10, 10)]),
        other => panic!("{other:?}"),
    }
}

#[test]
fn styles_are_set_once_and_reconfigured() {
    let mut slot = None;
    SurfaceStyleManager::global(&mut slot);
    let mut styles = default_surface_styles();
    styles.background_color = "#ffffff".to_string();
    SurfaceStyleManager::init_global_with_config(&mut slot, styles, true);
    let manager = slot.as_mut().unwrap();
    assert_eq!(manager.background_color(), "#111217");
    assert_eq!(manager.text_color(), "#ffffff");
    assert_eq!(manager.apply_pango_attrs(Some(9)), None);
    let mut styles = default_surface_styles();
    styles.shadows_enabled = false;
    manager.reconfigure(styles, true);
    assert!(!manager.shadows_enabled());
    assert_eq!(manager.shadow_margin(12), 0);
    assert_eq!(manager.apply_shadow_margins(12, true).start, 0);
    assert_eq!(manager.apply_pango_attrs(Some(9)), Some(9));
    assert_eq!(manager.apply_pango_attrs(None), Some(14));
    let mut fresh = None;
    SurfaceStyleManager::init_global_with_config(&mut fresh, default_surface_styles(), true);
    assert!(fresh.unwrap().pango_font_rendering);
}

#[test]
fn font_sizes_are_converted_as_with_floats() {
    assert_eq!(get_computed_font_size(0, true), None);
    assert_eq!(get_computed_font_size(-5, false), None);
    assert_eq!(get_computed_font_size(1, true), Some(1));
    for size in (1..4_000_000).step_by(97) {
        let px = (f64::from(size) / 1024.0).round() as u32;
        assert_eq!(get_computed_font_size(size, true), Some(px.max(1)));
        let px = (f64::from(size) / 1024.0 * 96.0 / 72.0).round() as u32;
        assert_eq!(get_computed_font_size(size, false), Some(px.max(1)));
    }
    assert_eq!(get_computed_font_size(i32::MAX, false), Some(2_796_203));
    for px in 0..3000 {
        let pt = (f64::from(px) * 72.0 / 96.0).round() as i32;
        assert_eq!(pango_size(px), pt * 1024);
    }
}

#[test]
fn labels_of_a_tree_are_styled() {
    let label = |symbol: bool, computed: Option<u32>, children: Vec<Widget>| Widget {
        label: Some(Label { symbol, computed }),
        children,
    };
    let tree = Widget {
        label: None,
        children: vec![
            label(false, Some(20), vec![label(false, None, vec![])]),
            label(true, Some(24), vec![]),
            label(false, Some(11), vec![]),
        ],
    };
    let mut manager = SurfaceStyleManager::new(default_surface_styles());
    assert!(manager.apply_pango_attrs_all(&tree).is_empty());
    manager.reconfigure(default_surface_styles(), true);
    assert_eq!(
        manager.apply_pango_attrs_all(&tree),
        vec![Some(20), Some(14), None, Some(11)]
    );
}

#[test]
fn daemons_that_are_slow_are_not_gone() {
    assert!(is_dbus_disconnect(DBusError::ServiceUnknown, None));
    assert!(is_dbus_disconnect(DBusError::NameHasNoOwner, None));
    assert!(is_dbus_disconnect(DBusError::Disconnected, None));
    assert!(!is_dbus_disconnect(DBusError::Other, Some(false)));
    assert!(asks_for_owner(DBusError::NoReply) && !asks_for_owner(DBusError::Other));
    assert!(is_dbus_disconnect(DBusError::NoReply, Some(false)));
    assert!(!is_dbus_disconnect(DBusError::NoReply, Some(true)));
    assert!(!is_dbus_disconnect(DBusError::NoReply, None));
    assert_eq!(
        error_named(Some("org.freedesktop.DBus.Error.Disconnected")),
        DBusError::Disconnected
    );
    assert_eq!(error_named(Some("org.example.Error")), DBusError::Other);
    assert_eq!(error_named(None), DBusError::Other);
    assert!(has_resumed(Some(false)));
    assert!(!has_resumed(Some(true)) && !has_resumed(None));
}

#[test]
fn notifications_sent_are_understood() {
    assert_eq!(Urgency::Normal.as_hint(), 1);
    let request = send_with_id("Low", "20%", "battery-low", Urgency::Critical, true, true);
    let shown = notification_from(&request, 9, 0);
    assert_eq!(shown.id, 9);
    assert_eq!(shown.app_name, "vibepanel");
    assert_eq!(shown.summary, "Low");
    assert_eq!(shown.body, "20%");
    assert_eq!(shown.app_icon, "battery-low");
    assert_eq!(shown.urgency, 2);
    assert_eq!(shown.expire_timeout, -1);
    assert!(shown.transient && shown.close_toast_on_close);
    assert!(shown.actions.is_empty());
    assert_eq!(request.replaces_id, Some(0));
}

#[test]
fn rectangles_at_the_edge_of_the_range_are_blurred() {
    let far = rect(i32::MAX - 3, 0, 10, 10);
    assert!(corners_fit(&far, 0));
    let mut region = vec![];
    add_rounded_rect(&mut region, &far, 0);
    assert_eq!(region, vec![far]);
    assert!(corners_fit(&rect(i32::MAX - 3, 0, 10, 10), 5));
    assert!(!corners_fit(&rect(i32::MAX - 2, 0, 10, 10), 5));
    assert!(!corners_fit(&rect(0, i32::MAX - 9, 10, 10), 1));
    assert!(corners_fit(&rect(0, i32::MAX, 10, 0), 5));
}

#[test]
fn only_laid_out_surfaces_are_drawn() {
    let bounds = |width: f32| {
        Some(Bounds {
            x: 0.0f32.to_bits(),
            y: (-0.0f32).to_bits(),
            width: width.to_bits(),
            height: 2.0f32.to_bits(),
            rounded: rect(0, 0, 4, 2),
        })
    };
    let mut state = BlurState::new();
    assert!(!state.draws(10, 10, &bounds(4.0)));
    state.manager = true;
    state.compositor = true;
    assert!(state.draws(10, 10, &bounds(4.0)));
    assert!(!state.draws(1, 10, &bounds(4.0)));
    assert!(!state.draws(10, 10, &bounds(0.0)));
    assert!(!state.draws(10, 10, &bounds(f32::NAN)));
    assert!(!state.draws(10, 10, &None));
}

#[test]
fn margins_are_not_negative() {
    let layout = |top: i32| ShadowLayout {
        margins: Margins {
            top,
            bottom: 0,
            start: 0,
            end: 0,
        },
        radius: 4,
    };
    assert!(layout(0).has_margins());
    assert!(!layout(-1).has_margins());
}
