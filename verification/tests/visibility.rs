use vibepanel::compositor::figures::{scene_changed, OutputFigures, PlacedRect};
use vibepanel::compositor::projection::{areas_by_name, project_floating, Area, Crossing};
use vibepanel::compositor::reader::{
    message, notify_changed, reply, Framing, Pause, RefreshState, VisibilityReader,
};
use vibepanel::compositor::scenes::{
    hyprland_scene, mango_scene, niri_scene, sway_scene, Scene,
};
use vibepanel::compositor::visibility::{
    decision_on, windows_of_output, HideDecision, OutputScene, OutputWindows, Placement,
};
use vibepanel::json::{parse, Json};
use vibepanel::table::Table;

#[derive(Clone, Copy, Debug, PartialEq)]
struct Rect {
    x: f64,
    y: f64,
    width: f64,
    height: f64,
}

impl Rect {
    fn new(x: f64, y: f64, width: f64, height: f64) -> Option<Rect> {
        let finite = x.is_finite() && y.is_finite() && width.is_finite() && height.is_finite();
        (finite && width > 0.0 && height > 0.0).then_some(Rect {
            x,
            y,
            width,
            height,
        })
    }

    fn intersects(self, other: Rect) -> bool {
        self.x < other.x + other.width
            && self.x + self.width > other.x
            && self.y < other.y + other.height
            && self.y + self.height > other.y
    }

    fn translated(self, x: f64, y: f64) -> Rect {
        Rect {
            x: self.x + x,
            y: self.y + y,
            ..self
        }
    }
}

fn placed(p: &Placement) -> Rect {
    let mut rect = Rect {
        x: f64::from_bits(p.x),
        y: f64::from_bits(p.y),
        width: f64::from_bits(p.width),
        height: f64::from_bits(p.height),
    };
    if let Some(origin) = p.origin {
        rect = rect.translated(-f64::from_bits(origin.x), -f64::from_bits(origin.y));
    }
    if let Some(shift) = p.projection {
        rect = rect
            .translated(f64::from_bits(shift.from.x), f64::from_bits(shift.from.y))
            .translated(-f64::from_bits(shift.to.x), -f64::from_bits(shift.to.y));
    }
    rect
}

fn area_rect(area: &Area) -> Option<Rect> {
    let scale = area.scale.map_or(1.0, f64::from_bits);
    Rect::new(
        f64::from_bits(area.x),
        f64::from_bits(area.y),
        f64::from_bits(area.width) / scale,
        f64::from_bits(area.height) / scale,
    )
}

fn placement(rect: Option<Rect>) -> Option<Placement> {
    let rect = rect?;
    Placement::new(
        rect.x.to_bits(),
        rect.y.to_bits(),
        rect.width.to_bits(),
        rect.height.to_bits(),
    )
}

/// The scene with its floating windows projected to the outputs that they meet.
fn complete(scene: Scene) -> Vec<OutputScene> {
    let Some(areas) = scene.areas else {
        return scene.outputs;
    };
    let told = areas.iter().map(|(_, area)| area_rect(area).is_some()).collect();
    let valid = areas_by_name(&areas, &told);
    let mut crossings = Vec::new();
    for owner in &scene.outputs {
        let Some(from) = valid.get_named(&owner.name).and_then(area_rect) else {
            continue;
        };
        for (index, window) in owner.windows.floating.iter().enumerate() {
            let global = placed(window).translated(from.x, from.y);
            for (name, area) in valid.entries() {
                if *name != owner.name && global.intersects(area_rect(area).unwrap()) {
                    crossings.push(Crossing {
                        owner: owner.name.clone(),
                        index,
                        output: name.clone(),
                    });
                }
            }
        }
    }
    project_floating(&scene.outputs, &valid, &crossings)
}

/// The scene with the places of its floating windows.
fn figures(scene: &Vec<OutputScene>) -> Table<String, OutputFigures> {
    let mut table = Table::new();
    for output in scene {
        let floating = output
            .windows
            .floating
            .iter()
            .map(|window| {
                let rect = placed(window);
                PlacedRect {
                    x: rect.x.to_bits(),
                    y: rect.y.to_bits(),
                    width: rect.width.to_bits(),
                    height: rect.height.to_bits(),
                }
            })
            .collect();
        let figures = OutputFigures {
            tiled: output.windows.tiled,
            floating,
            incomplete: output.windows.incomplete,
        };
        table.insert(output.name.clone(), figures);
    }
    table
}

fn decide(windows: &OutputWindows, footprint: &[Rect]) -> HideDecision {
    let meets: Vec<bool> = windows
        .floating
        .iter()
        .map(|w| footprint.iter().any(|bar| placed(w).intersects(*bar)))
        .collect();
    windows.decision(&meets, footprint.is_empty())
}

fn on<'a>(scene: &'a Vec<OutputScene>, name: &str) -> &'a OutputWindows {
    windows_of_output(scene, name).unwrap()
}

fn json(text: &str) -> Json {
    parse(text).unwrap()
}

fn bar() -> Rect {
    Rect::new(400.0, 10.0, 200.0, 32.0).unwrap()
}

#[test]
fn stop_interrupts_idle_and_throttled_waits() {
    for throttle in [0u64, 60_000_000_000] {
        let mut signal = RefreshState::new();
        assert_eq!(signal.wait(false, 0, throttle), Pause::Idle);
        if throttle > 0 {
            signal.request();
            assert_eq!(signal.wait(false, 0, throttle), Pause::Throttled);
        }
        signal.stop();
        assert_eq!(signal.wait(false, 0, throttle), Pause::End);
    }
}

#[test]
fn bursts_are_read_once() {
    let mut signal = Some(RefreshState::new());
    notify_changed(&mut signal);
    notify_changed(&mut signal);
    let state = signal.as_mut().unwrap();
    assert_eq!(state.wait(false, 5, 10), Pause::Throttled);
    assert_eq!(state.wait(true, 10, 10), Pause::Read);
    assert_eq!(state.wait(false, 11, 10), Pause::Idle);
    assert_eq!(state.wait(true, 12, 10), Pause::Read);
    let mut none = None;
    notify_changed(&mut none);
    assert!(none.is_none());
}

#[test]
fn geometry_polling_is_limited_to_floaters_without_layout_events() {
    let mut windows = OutputWindows::default();
    let scene = |windows: OutputWindows| {
        Some(vec![OutputScene {
            name: "A".into(),
            windows,
        }])
    };
    let reader = VisibilityReader::Sway(String::new());
    assert_eq!(reader.fallback_interval(&scene(OutputWindows::default())), None);
    windows.tiled = true;
    let tiled = scene(windows);
    assert_eq!(reader.fallback_interval(&tiled), None);
    let mut windows = OutputWindows::default();
    windows.tiled = true;
    windows.floating.push(placement(Some(bar())).unwrap());
    let floating = scene(windows);
    assert_eq!(reader.fallback_interval(&floating), Some(100_000_000));
    assert_eq!(
        VisibilityReader::Niri(String::new()).fallback_interval(&floating),
        None
    );
    assert_eq!(reader.fallback_interval(&None), Some(1_000_000_000));
    let next = reader.after_read(&floating, 7);
    assert_eq!(next.fallback_ns, Some(100_000_000));
    assert_eq!(next.not_before, 100_000_007);
    let mut windows = OutputWindows::default();
    windows.incomplete = true;
    assert_eq!(reader.fallback_interval(&scene(windows)), Some(1_000_000_000));
}

#[test]
fn islands_ignore_empty_edge_space_and_edge_contact() {
    let mut state = OutputWindows::default();
    state.add(Some(true), placement(Rect::new(0.0, 0.0, 200.0, 200.0)));
    state.add(Some(true), placement(Rect::new(400.0, 42.0, 200.0, 200.0)));
    assert_eq!(decide(&state, &[bar()]), HideDecision::Show);
    state.add(Some(true), placement(Rect::new(400.0, 41.5, 200.0, 200.0)));
    assert_eq!(decide(&state, &[bar()]), HideDecision::Hide);
}

#[test]
fn tiled_windows_need_no_geometry_and_unknown_is_not_empty() {
    let mut state = OutputWindows::default();
    assert_eq!(decide(&state, &[]), HideDecision::Show);
    state.add(Some(true), None);
    assert_eq!(decide(&state, &[bar()]), HideDecision::Unknown);
    state.add(Some(false), None);
    assert_eq!(decide(&state, &[]), HideDecision::Hide);
}

#[test]
fn niri_uses_each_outputs_active_workspace_and_full_width_ids() {
    let workspaces = json(
        r#"[
            {"id":4294967297,"output":"A","is_active":true},
            {"id":2,"output":"B","is_active":true},
            {"id":3,"output":"A","is_active":false}
        ]"#,
    );
    let windows = json(
        r#"[
            {"workspace_id":4294967297,"is_floating":false,"layout":{}},
            {"workspace_id":2,"is_floating":true,"layout":{
                "tile_pos_in_workspace_view":[450,0],"tile_size":[100,100]}},
            {"workspace_id":3,"is_floating":false}
        ]"#,
    );
    let scene = complete(niri_scene(&workspaces, &windows).unwrap());
    assert!(on(&scene, "A").tiled);
    assert!(!on(&scene, "B").tiled);
    assert_eq!(decide(on(&scene, "B"), &[bar()]), HideDecision::Hide);
    assert!(niri_scene(&json("null"), &windows).is_none());
}

#[test]
fn mango_includes_special_clients_but_not_minimized_or_hidden() {
    let monitors = json(r#"{"monitors":[{"name":"A","x":-1000,"y":0,"active_tags":[1,3]}]}"#);
    let clients = json(
        r#"{"clients":[
            {"monitor":"A","is_visible":true,"is_floating":true,"tags":[0],
             "x":-550,"y":0,"width":100,"height":100},
            {"monitor":"A","is_visible":true,"is_floating":false,"is_minimized":true},
            {"monitor":"A","is_visible":false,"is_floating":false}
        ]}"#,
    );
    let scene = complete(mango_scene(&monitors, &clients).unwrap());
    assert!(!on(&scene, "A").tiled);
    assert_eq!(decide(on(&scene, "A"), &[bar()]), HideDecision::Hide);
}

#[test]
fn hyprland_accounts_for_special_workspaces_and_pinned_windows() {
    let monitors = json(
        r#"[{"name":"A","id":0,"x":0,"y":0,
            "activeWorkspace":{"id":1},"specialWorkspace":{"id":-99}}]"#,
    );
    let clients = json(
        r#"[
            {"monitor":0,"workspace":{"id":2},"floating":false},
            {"monitor":0,"workspace":{"id":-99},"floating":true,"at":[450,0],"size":[100,100]},
            {"monitor":0,"workspace":{"id":1},"floating":false,"hidden":true}
        ]"#,
    );
    let scene = complete(hyprland_scene(&monitors, &clients).unwrap());
    assert!(!on(&scene, "A").tiled);
    assert_eq!(decide(on(&scene, "A"), &[bar()]), HideDecision::Hide);
    let pinned = json(
        r#"[{"monitor":0,"workspace":{"id":2},"floating":true,
            "pinned":true,"at":[450,0],"size":[100,100]}]"#,
    );
    let scene = complete(hyprland_scene(&monitors, &pinned).unwrap());
    assert_eq!(decide(on(&scene, "A"), &[bar()]), HideDecision::Hide);
}

#[test]
fn mango_projects_visible_floaters_but_not_tiled_or_hidden_clients() {
    let monitors = json(
        r#"{"monitors":[
            {"name":"A","x":-1000,"y":0,"width":1000,"height":800},
            {"name":"B","x":0,"y":0,"width":1000,"height":800}
        ]}"#,
    );
    let clients = |is_visible: bool, is_floating: bool| {
        json(&format!(
            r#"{{"clients":[
                {{"monitor":"A","is_visible":{is_visible},"is_floating":{is_floating},
                 "x":-100,"y":0,"width":200,"height":200}}
            ]}}"#
        ))
    };
    let edge = Rect::new(0.0, 0.0, 1000.0, 32.0).unwrap();
    let scene = complete(mango_scene(&monitors, &clients(true, true)).unwrap());
    assert_eq!(decide(on(&scene, "A"), &[edge]), HideDecision::Hide);
    assert_eq!(decide(on(&scene, "B"), &[edge]), HideDecision::Hide);
    for clients in [clients(true, false), clients(false, true)] {
        let scene = complete(mango_scene(&monitors, &clients).unwrap());
        assert_eq!(decide(on(&scene, "B"), &[edge]), HideDecision::Show);
    }
}

#[test]
fn hyprland_projects_from_owner_workspace_using_logical_output_bounds() {
    let monitors = json(
        r#"[
            {"name":"A","id":0,"x":0,"y":0,"width":1920,"height":1080,
             "scale":1.5,"transform":0,"activeWorkspace":{"id":1}},
            {"name":"B","id":1,"x":1280,"y":0,"width":1920,"height":1080,
             "scale":1.5,"transform":1,"activeWorkspace":{"id":2}}
        ]"#,
    );
    let clients = |workspace: i32, pinned: &str, fullscreen: &str| {
        json(&format!(
            r#"[{{"monitor":0,"workspace":{{"id":{workspace}}},"floating":true,
                "at":[1200,0],"size":[200,200]{pinned}{fullscreen}}}]"#
        ))
    };
    let bar = Rect::new(0.0, 0.0, 720.0, 32.0).unwrap();
    let scene = hyprland_scene(&monitors, &clients(1, "", "")).unwrap();
    let areas = areas_by_name(scene.areas.as_ref().unwrap(), &vec![true; 2]);
    assert_eq!(
        area_rect(areas.get_named("B").unwrap()),
        Rect::new(1280.0, 0.0, 720.0, 1280.0)
    );
    let decision = |clients: &Json, output: &str| {
        let scene = complete(hyprland_scene(&monitors, clients).unwrap());
        decide(on(&scene, output), &[bar])
    };
    assert_eq!(decision(&clients(1, "", ""), "B"), HideDecision::Hide);
    assert_eq!(decision(&clients(3, "", ""), "B"), HideDecision::Show);
    let pinned = r#","pinned":true"#;
    assert_eq!(decision(&clients(3, pinned, ""), "B"), HideDecision::Hide);
    for fullscreen in [r#","fullscreen":2"#, r#","fullscreen":true"#] {
        let clients = clients(3, pinned, fullscreen);
        assert_eq!(decision(&clients, "A"), HideDecision::Hide);
        assert_eq!(decision(&clients, "B"), HideDecision::Show);
    }
}

#[test]
fn niri_floating_geometry_stays_on_its_own_output() {
    let workspaces = json(
        r#"[
            {"id":1,"output":"A","is_active":true},
            {"id":2,"output":"B","is_active":true}
        ]"#,
    );
    let windows = json(
        r#"[{"workspace_id":1,"is_floating":true,"layout":{
            "tile_pos_in_workspace_view":[-100,0],"tile_size":[2000,200]}}]"#,
    );
    let scene = complete(niri_scene(&workspaces, &windows).unwrap());
    assert_eq!(decide(on(&scene, "A"), &[bar()]), HideDecision::Hide);
    assert_eq!(decide(on(&scene, "B"), &[bar()]), HideDecision::Show);
}

#[test]
fn sway_tree_preserves_floating_ancestry_and_workspace_visibility() {
    let workspaces = json(r#"[{"name":"web","visible":true}]"#);
    let tree = json(
        r#"{"nodes":[{"name":"A","rect":{"x":1000,"y":0},"nodes":[
            {"name":"hidden","nodes":[{"pid":1}]},
            {"name":"web","nodes":[],"floating_nodes":[{"type":"floating_con","nodes":[
                {"pid":2,"visible":true,"rect":{"x":1450,"y":0,"width":100,"height":100}}
            ]}]}
        ]}]}"#,
    );
    let scene = complete(sway_scene(&workspaces, &tree).unwrap());
    assert!(!on(&scene, "A").tiled);
    assert_eq!(decide(on(&scene, "A"), &[bar()]), HideDecision::Hide);
}

#[test]
fn worker_sleeps_until_event_and_notifies_only_for_changed_scenes() {
    let reader = VisibilityReader::Niri(String::new());
    let (first, second) = reader.queries();
    assert_eq!(first.request, "\"Workspaces\"\n");
    assert_eq!(second.request, "\"Windows\"\n");
    assert_eq!(first.framing, Framing::Line);
    let workspaces = json(r#"{"Ok":{"Workspaces":[{"id":1,"output":"A","is_active":true}]}}"#);
    let empty = json(r#"{"Ok":{"Windows":[]}}"#);
    let tiled = json(r#"{"Ok":{"Windows":[{"workspace_id":1,"is_floating":false}]}}"#);
    let mut signal = RefreshState::new();
    signal.request();
    assert_eq!(signal.wait(false, 0, 0), Pause::Read);
    let scene = Some(reader.read(&workspaces, &empty).unwrap().outputs);
    assert!(!on(scene.as_ref().unwrap(), "A").tiled);
    let told = figures(scene.as_ref().unwrap());
    assert!(scene_changed(&Table::new(), &told));
    // Nothing is read until something is asked for.
    let next = reader.after_read(&scene, 0);
    assert_eq!(next.fallback_ns, None);
    assert_eq!(signal.wait(false, 250_000_000, next.not_before), Pause::Idle);
    signal.request();
    assert_eq!(signal.wait(false, 250_000_000, next.not_before), Pause::Read);
    let unchanged = reader.read(&workspaces, &empty).unwrap().outputs;
    assert!(!scene_changed(&told, &figures(&unchanged)));
    let scene = reader.read(&workspaces, &tiled).unwrap().outputs;
    assert!(on(&scene, "A").tiled);
    assert!(scene_changed(&told, &figures(&scene)));
    signal.stop();
    assert_eq!(signal.wait(false, 300_000_000, next.not_before), Pause::End);
}

#[test]
fn outputs_that_are_not_in_the_scene_are_unknown() {
    let scene = vec![OutputScene {
        name: "A".into(),
        windows: OutputWindows::default(),
    }];
    assert_eq!(decision_on(&scene, "A", &vec![], true), HideDecision::Show);
    assert_eq!(decision_on(&scene, "B", &vec![], true), HideDecision::Unknown);
}

#[test]
fn replies_are_checked() {
    assert!(reply(&b"{\"a\": 1}".to_vec()).is_some());
    assert!(reply(&b"nonsense".to_vec()).is_none());
    assert!(reply(&vec![b' '; 16_777_217]).is_none());
    assert!(message(4, 4, &b"[]".to_vec()).is_some());
    assert!(message(4, 5, &b"[]".to_vec()).is_none());
    assert!(placement(Some(Rect {
        x: f64::NAN,
        ..bar()
    }))
    .is_none());
    assert!(placement(Some(Rect {
        width: 0.0,
        ..bar()
    }))
    .is_none());
}

#[test]
fn scenes_are_compared_by_numbers() {
    let scene = |x: f64, tiled: bool| {
        let mut table = Table::new();
        let rect = PlacedRect {
            x: x.to_bits(),
            y: 0,
            width: 1.0f64.to_bits(),
            height: 1.0f64.to_bits(),
        };
        let figures = OutputFigures {
            tiled,
            floating: vec![rect],
            incomplete: false,
        };
        table.insert("A".to_string(), figures);
        table
    };
    assert!(!scene_changed(&scene(2.0, false), &scene(2.0, false)));
    assert!(!scene_changed(&scene(0.0, false), &scene(-0.0, false)));
    assert!(scene_changed(&scene(2.0, false), &scene(3.0, false)));
    assert!(scene_changed(&scene(2.0, false), &scene(2.0, true)));
    assert!(scene_changed(&scene(f64::NAN, false), &scene(f64::NAN, false)));
    assert!(scene_changed(&scene(2.0, false), &Table::new()));
    assert!(scene_changed(&Table::new(), &scene(2.0, false)));
}

#[test]
fn areas_that_are_not_valid_replace_none() {
    let monitor = |x: f64, width: f64| {
        format!(
            r#"{{"name":"A","id":0,"activeWorkspace":{{"id":1}},"x":{x},"y":0,"width":{width},"height":600,"scale":1,"transform":0}}"#
        )
    };
    let areas = |second: f64| {
        let monitors = json(&format!("[{},{}]", monitor(5.0, 800.0), monitor(7.0, second)));
        hyprland_scene(&monitors, &json("[]")).unwrap().areas.unwrap()
    };
    assert_eq!(areas(0.0).len(), 1);
    assert_eq!(areas(0.0)[0].1.x, 5.0f64.to_bits());
    let both = areas(800.0);
    let x = |valid: Vec<bool>| areas_by_name(&both, &valid).get_named("A").map(|a| a.x);
    assert_eq!(x(vec![true, true]), Some(7.0f64.to_bits()));
    assert_eq!(x(vec![true, false]), Some(5.0f64.to_bits()));
    assert_eq!(x(vec![false, false]), None);
}
