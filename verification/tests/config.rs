use vibepanel::bar::BarPosition;
use vibepanel::config::css::{
    css_import_values, local_css_import_path, strip_css_comments, CSS_IMPORT_SCAN_LIMIT,
};
use vibepanel::config::manager::{
    first_picture, plan_config, reload_message, ConfigManager, ConfigMessage, Extracted,
    FirstPicture, MessageStep, Palette, Source,
};
use vibepanel::config::names::widget_names;
use vibepanel::config::options::{from_toml, OptionValue, Sameness, ConfigOption};
use vibepanel::config::watch::{
    arm_style_dirs, compute_style_watch_paths, is_style_change_path, style_watch_dirs, Armed,
    CssScan, FileChange, StyleWatcher,
};
use vibepanel::config::{
    config_structure_changed, config_theme_changed, config_uses_gtk_scheme, config_widgets_changed,
    per_widget_styles_changed, resolve_gtk_scheme, scheme_from_gtk_color_scheme_value,
    weather_config_from_config, widget_base_name, AdvancedConfig, BarConfig,
    BatteryAlertConfig, Config, IconsConfig, SchemePolarity, ThemeConfig, WeatherConfig,
    WeatherUnits, WidgetOptions, WidgetPlacement, WidgetsConfig,
};
use vibepanel::paths::{
    join_path, make_absolute, normalize_path, parent_as_written, NormalPath, PathSet,
};
use vibepanel::surfaces::{default_surface_styles, Outline, SurfaceStyleManager};
use vibepanel::table::Table;

fn default_config() -> Config {
    Config {
        bar: BarConfig {
            size: 36,
            screen_margin: 0,
            spacing: 8,
            inset: 8,
            padding: 4,
            border_radius: 30,
            popover_offset: 1,
            position: "top".to_string(),
            side: BarPosition::Top,
            background_color: None,
            background_opacity: 0.0f64.to_bits(),
            outline: None,
            outputs: vec![],
        },
        theme: ThemeConfig {
            mode: "dark".to_string(),
            scheme: None,
            wallpaper: None,
            popover: None,
            icons: IconsConfig {
                theme: "material".to_string(),
                weight: 400,
            },
            animations: true,
            ripple: true,
            blur: true,
            other: Table::new(),
        },
        widgets: WidgetsConfig {
            left: vec![],
            center: vec![],
            right: vec![],
            widget_configs: Table::new(),
            background_color: None,
            background_opacity: 1.0f64.to_bits(),
            popover_background_opacity: None,
            border_radius: 40,
            outline: None,
        },
        weather: WeatherConfig {
            auto_locate: false,
            latitude: None,
            longitude: None,
            location: None,
            units: WeatherUnits::Metric,
            wind_units: None,
            refresh_interval: 900,
        },
        advanced: AdvancedConfig {
            compositor: "auto".to_string(),
            pango_font_rendering: false,
        },
        battery_alert: BatteryAlertConfig {
            enabled: true,
            low_threshold: 20,
            critical_threshold: 10,
        },
        allow_overdrive: false,
    }
}

fn default_options() -> WidgetOptions {
    WidgetOptions {
        disabled: false,
        on_click_right: None,
        on_click_middle: None,
        show_if: None,
        show_if_interval: None,
        options: Table::new(),
    }
}

fn with_options(items: Vec<(&str, toml::Value)>) -> WidgetOptions {
    let mut options = default_options();
    for (name, value) in items {
        options.options.insert(name.to_string(), ConfigOption::from_toml(value));
    }
    options
}

fn single(name: &str) -> WidgetPlacement {
    WidgetPlacement::Single(name.to_string())
}

fn path(text: &str) -> NormalPath {
    normalize_path(text, &None)
}

fn set(texts: &[&str]) -> PathSet {
    let mut paths = PathSet::new();
    for text in texts {
        paths.insert(path(text));
    }
    paths
}

/// The style sheets that are reached from one, in the given files.
fn discover(root: &str, files: &[(&str, &str)]) -> PathSet {
    let mut scan = CssScan::new(path(root));
    while let Some(sheet) = scan.next() {
        let text = sheet.to_text();
        if let Some((_, css)) = files.iter().find(|(name, _)| *name == text) {
            scan.add_sheet(&sheet, css, &None);
        }
    }
    scan.seen
}

#[test]
fn test_make_absolute_passthrough_for_absolute_path() {
    let absolute = "/tmp/vibepanel-style.css";
    assert_eq!(make_absolute(absolute, &Some("/home/user".to_string())), absolute);
}

#[test]
fn test_weather_config_enabled_when_referenced() {
    let mut config = default_config();
    config.widgets.right.push(single("weather"));
    assert!(weather_config_from_config(&config).enabled);
}

#[test]
fn test_weather_config_enabled_when_referenced_with_inline_arg() {
    let mut config = default_config();
    config.widgets.right.push(single("weather:compact"));
    assert!(weather_config_from_config(&config).enabled);
}

#[test]
fn test_weather_config_disabled_widget_does_not_enable_service() {
    let mut config = default_config();
    config.widgets.right.push(single("weather"));
    let mut options = default_options();
    options.disabled = true;
    config.widgets.widget_configs.insert("weather".to_string(), options);
    assert!(!weather_config_from_config(&config).enabled);
}

#[test]
fn test_weather_config_location_without_consumer_does_not_enable_service() {
    let mut config = default_config();
    config.weather.location = Some("Berlin".to_string());
    assert!(!weather_config_from_config(&config).enabled);
}

#[test]
fn test_weather_config_enabled_when_clock_embeds_weather() {
    let mut config = default_config();
    config.widgets.right.push(single("clock"));
    config.widgets.widget_configs.insert(
        "clock".to_string(),
        with_options(vec![("show_weather", toml::Value::Boolean(true))]),
    );
    assert!(weather_config_from_config(&config).enabled);
}

#[test]
fn test_weather_config_parses_top_level_options() {
    let mut config = default_config();
    config.weather.auto_locate = true;
    config.weather.latitude = Some(40.7128f64.to_bits());
    config.weather.longitude = Some((-74.0060f64).to_bits());
    config.weather.location = Some("New York".to_string());
    config.weather.units = WeatherUnits::Imperial;
    config.weather.refresh_interval = 1200;

    let weather = weather_config_from_config(&config);

    assert!(!weather.enabled);
    assert!(weather.auto_locate);
    assert_eq!(weather.latitude.map(f64::from_bits), Some(40.7128));
    assert_eq!(weather.longitude.map(f64::from_bits), Some(-74.0060));
    assert_eq!(weather.location.as_deref(), Some("New York"));
    assert_eq!(weather.units, WeatherUnits::Imperial);
    assert_eq!(weather.refresh_interval, 1200);
}

#[test]
fn test_make_absolute_joins_current_dir_for_relative_path() {
    let here = Some("/home/user/project".to_string());
    assert_eq!(make_absolute("style.css", &here), "/home/user/project/style.css");
    assert_eq!(make_absolute("style.css", &None), "style.css");
    assert_eq!(join_path("/home/user/", "style.css"), "/home/user/style.css");
}

#[test]
fn test_css_import_values_supports_common_forms() {
    let css = r#"
            @import "colors.css";
            @import 'layout.css';
            @import url("widgets.css");
            @import url('popover.css');
            @import url(plain.css);
            @IMPORT /* generated */ URL("upper.css");
            @import
                "multiline.css";
            @import url(
                "multiline-url.css"
            );
        "#;

    assert_eq!(
        css_import_values(css),
        vec![
            "colors.css",
            "layout.css",
            "widgets.css",
            "popover.css",
            "plain.css",
            "upper.css",
            "multiline.css",
            "multiline-url.css",
        ]
    );
}

#[test]
fn test_css_import_values_ignores_comments_and_longer_at_rules() {
    let css = r#"
            /* @import "comment.css"; */
            @important "not-an-import.css";
            @importurl("also-not-an-import.css");
            @import "real.css";
        "#;

    assert_eq!(css_import_values(css), vec!["real.css"]);
    assert!(css_import_values("/* unterminated @import \"fake.css\";").is_empty());
}

#[test]
fn test_css_import_values_rejects_escaped_and_oversized_values() {
    assert!(css_import_values(r#"@import "escaped\"name.css";"#).is_empty());
    let long = format!("@import \"{}\";", "a".repeat(600));
    assert!(css_import_values(&long).is_empty());
}

#[test]
fn test_local_css_import_path_rejects_non_file_urls() {
    assert_eq!(local_css_import_path("../theme.css").as_deref(), Some("../theme.css"));
    assert!(local_css_import_path("https://example.com/theme.css").is_none());
    assert!(local_css_import_path("resource:///theme.css").is_none());
    assert!(local_css_import_path("data:text/css,body{}").is_none());
}

#[test]
fn comments_and_local_paths() {
    assert_eq!(strip_css_comments("a/* b */c"), "ac");
    assert_eq!(strip_css_comments("a/* b"), "a");
    assert!(local_css_import_path("file:///etc/theme.css").is_none());
    assert_eq!(local_css_import_path(" ./a:b.css ").as_deref(), Some("./a:b.css"));
    assert!(local_css_import_path("//host/theme.css").is_none());
    assert!(local_css_import_path("#id").is_none());
    assert!(local_css_import_path("  ").is_none());
}

#[test]
fn test_discover_css_dependencies_resolves_nested_imports_and_cycles() {
    let files = [
        (
            "/cfg/style.css",
            "@import \"nested/colors.css\"; @import \"missing.css\";",
        ),
        ("/cfg/nested/colors.css", "@import \"../base.css\";"),
        ("/cfg/base.css", "@import \"style.css\";"),
    ];
    let dependencies = discover("/cfg/style.css", &files);
    assert_eq!(dependencies.len(), 4);
    assert!(dependencies.contains(&path("/cfg/style.css")));
    assert!(dependencies.contains(&path("/cfg/nested/colors.css")));
    assert!(dependencies.contains(&path("/cfg/base.css")));
    assert!(dependencies.contains(&path("/cfg/missing.css")));
}

#[test]
fn test_discover_css_dependencies_caps_total_work() {
    let css = (0..CSS_IMPORT_SCAN_LIMIT)
        .map(|index| format!("@import \"{index}.css\";"))
        .collect::<String>();
    let files = [("/cfg/style.css", css.as_str())];
    assert_eq!(discover("/cfg/style.css", &files).len(), CSS_IMPORT_SCAN_LIMIT);
}

#[test]
fn test_is_style_change_path_matches_dependency_or_parent_directory() {
    let target = path("/run/matugen/colors.css");
    let watched_paths = set(&["/run/matugen/colors.css"]);

    assert!(is_style_change_path(&target, &watched_paths));
    assert!(is_style_change_path(&path("/run/matugen"), &watched_paths));
    assert!(!is_style_change_path(&path("/home/user/.cache/colors.css"), &watched_paths));
    assert!(!is_style_change_path(&path("/tmp/style.css"), &watched_paths));
}

#[test]
fn test_compute_style_watch_paths_adds_symlink_target_dir() {
    // The style sheet links to a file elsewhere, whose text is read under its own path.
    let files = [
        ("/cfg/style.css", "@import \"imported.css\";"),
        ("/cfg/imported.css", "/* imported */"),
    ];
    let sheets = discover("/cfg/style.css", &files);
    let targets = set(&["/target/colors.css"]);
    let watched_paths =
        compute_style_watch_paths(&vec!["/cfg/style.css".to_string()], &sheets, &targets, &None);
    let watch_dirs = style_watch_dirs(&watched_paths, &path("/cfg"));

    assert!(watch_dirs.contains(&path("/target")));
    assert!(!watch_dirs.contains(&path("/cfg")));
    assert!(watched_paths.contains(&path("/target/colors.css")));
    assert!(watched_paths.contains(&path("/cfg/imported.css")));
}

#[test]
fn test_compute_style_watch_paths_discovers_import_added_after_startup() {
    let search = vec!["/cfg/style.css".to_string()];
    let none = PathSet::new();
    let sheets = discover("/cfg/style.css", &[("/cfg/style.css", "/* no imports */")]);
    let initial = compute_style_watch_paths(&search, &sheets, &none, &None);
    assert!(!style_watch_dirs(&initial, &path("/cfg")).contains(&path("/external")));
    assert!(!initial.contains(&path("/external/colors.css")));

    let files = [
        ("/cfg/style.css", "@import \"/external/colors.css\";"),
        ("/external/colors.css", "/* generated colors */"),
    ];
    let sheets = discover("/cfg/style.css", &files);
    let refreshed = compute_style_watch_paths(&search, &sheets, &none, &None);
    assert!(style_watch_dirs(&refreshed, &path("/cfg")).contains(&path("/external")));
    assert!(refreshed.contains(&path("/external/colors.css")));
}

#[test]
fn watched_directories_follow_the_style_sheets() {
    let mut watcher = StyleWatcher::new(
        path("/cfg/config.toml"),
        set(&["/cfg/style.css", "/run/a.css"]),
    );
    assert!(watcher.config_dir().same(&path("/cfg")));
    let (stale, wanted) = watcher.plan(false);
    assert_eq!(stale.len(), 0);
    assert_eq!(wanted.len(), 1);
    watcher.started(wanted);

    let change = watcher.files_changed(&vec!["/cfg/./config.toml".to_string()], &None);
    assert_eq!(
        change,
        FileChange {
            reload_config: true,
            reload_style: false
        }
    );
    assert!(!watcher.begin_round());
    // The configuration is known by its path alone.
    let change = watcher.files_changed(&vec!["/cfg/x/../config.toml".to_string()], &None);
    assert!(!change.reload_config);

    let change = watcher.files_changed(&vec!["/run/x/../a.css".to_string()], &None);
    assert!(change.reload_style);
    assert!(watcher.begin_round());
    // The sheet at /run has vanished, and one at /new is imported now.
    assert!(watcher.rescanned(set(&["/cfg/style.css", "/new/b.css"]), &set(&["/run/a.css"])));
    assert!(watcher.watched.contains(&path("/run/a.css")));
    let (stale, wanted) = watcher.plan(true);
    assert_eq!(stale.len(), 0);
    assert_eq!(wanted.len(), 2);
    let mut failed = PathSet::new();
    let outcomes = wanted
        .paths()
        .iter()
        .map(|dir| if dir.to_text() == "/new" { Armed::Refused } else { Armed::Watching })
        .collect();
    let (armed, fresh) = arm_style_dirs(&wanted, &outcomes, &mut failed);
    assert_eq!(armed.len(), 1);
    assert!(fresh.contains(&path("/new")));
    assert!(failed.contains(&path("/new")));
    // A refusal is told once.
    let (_, fresh) = arm_style_dirs(&wanted, &outcomes, &mut failed);
    assert_eq!(fresh.len(), 0);
    assert!(!watcher.end_round(true, armed));
    assert!(watcher.watch_failed().reload_style);
}

#[test]
fn paths_are_normalized() {
    assert_eq!(path("/a/./b/../c").to_text(), "/a/c");
    assert_eq!(path("/../a//b").to_text(), "/a/b");
    assert!(path("/").parent().is_none());
    assert_eq!(path("/a/b").parent().unwrap().to_text(), "/a");
    assert!(path("/a/b/..").same(&path("/a")));
    assert!(!path("/a").same(&path("a")));
}

#[test]
fn test_config_theme_changed_detects_theme_struct() {
    let old = default_config();
    assert!(!config_theme_changed(&old, &default_config()));

    let mut new = default_config();
    new.theme.popover = Some("light".to_string());
    assert!(config_theme_changed(&old, &new));
}

#[test]
fn test_gtk_color_scheme_value_resolution() {
    assert_eq!(
        scheme_from_gtk_color_scheme_value("prefer-dark"),
        Some(SchemePolarity::Dark)
    );
    assert_eq!(
        scheme_from_gtk_color_scheme_value("prefer-light"),
        Some(SchemePolarity::Light)
    );
    assert_eq!(scheme_from_gtk_color_scheme_value("default"), None);
    assert_eq!(scheme_from_gtk_color_scheme_value("unexpected"), None);
}

#[test]
fn test_config_uses_gtk_scheme_only_for_auto_mode() {
    let mut config = default_config();
    config.theme.mode = "auto".to_string();
    config.theme.scheme = Some(SchemePolarity::Gtk);
    assert!(config_uses_gtk_scheme(&config));
    let desktop = Some("prefer-light".to_string());
    assert_eq!(resolve_gtk_scheme(&config, &desktop), Some(SchemePolarity::Light));
    assert_eq!(resolve_gtk_scheme(&config, &None), None);

    config.theme.mode = "gtk".to_string();
    assert!(!config_uses_gtk_scheme(&config));
    assert_eq!(resolve_gtk_scheme(&config, &desktop), Some(SchemePolarity::Gtk));
}

#[test]
fn test_config_theme_changed_non_theme_css_fields() {
    let old = default_config();

    let mut new = default_config();
    new.bar.background_opacity = 0.5f64.to_bits();
    assert!(config_theme_changed(&old, &new));

    let mut new = default_config();
    new.widgets.popover_background_opacity = Some(0.9f64.to_bits());
    assert!(config_theme_changed(&old, &new));

    let mut new = default_config();
    new.bar.position = "right".to_string();
    assert!(config_theme_changed(&old, &new));

    let mut new = default_config();
    new.bar.padding = old.bar.padding + 1;
    assert!(config_theme_changed(&old, &new));
}

#[test]
fn test_config_theme_changed_detects_bar_outline_override() {
    let old = default_config();

    let mut new = default_config();
    new.bar.outline = Some(true);
    assert!(config_theme_changed(&old, &new));

    let mut new = default_config();
    new.bar.outline = Some(false);
    assert!(config_theme_changed(&old, &new));
}

#[test]
fn test_config_theme_changed_detects_bar_padding_tokens() {
    let old = default_config();

    let mut new = default_config();
    new.bar.padding = old.bar.padding + 1;
    assert!(config_theme_changed(&old, &new));
}

#[test]
fn test_config_theme_changed_detects_bar_position_padding_side() {
    let old = default_config();

    let mut new = default_config();
    new.bar.position = "bottom".to_string();
    assert!(config_theme_changed(&old, &new));
}

#[test]
fn test_config_theme_changed_detects_widgets_outline_override() {
    let old = default_config();

    let mut new = default_config();
    new.widgets.outline = Some(true);
    assert!(config_theme_changed(&old, &new));

    let mut new = default_config();
    new.widgets.outline = Some(false);
    assert!(config_theme_changed(&old, &new));
}

#[test]
fn test_widget_names() {
    let mut config = default_config();
    config.widgets.left.push(single("workspaces"));
    config.widgets.right.push(single("clock"));
    config.widgets.right.push(WidgetPlacement::Group {
        group: vec!["cpu".to_string(), "memory".to_string()],
    });

    let names = widget_names(&config);
    assert!(names.iter().any(|n| n == "left:workspaces"));
    assert!(names.iter().any(|n| n == "right:clock"));
    assert!(names.iter().any(|n| n == "right:group:[cpu, memory]"));
}

#[test]
fn test_widget_names_includes_show_if_fields() {
    let before = || {
        let mut config = default_config();
        config.widgets.right.push(single("clock"));
        config
    };
    let with_show_if = || {
        let mut config = before();
        let mut options = default_options();
        options.show_if = Some("true".to_string());
        config.widgets.widget_configs.insert("clock".to_string(), options);
        config
    };
    let names_before = widget_names(&before());
    let names_with_show_if = widget_names(&with_show_if());
    assert_ne!(names_before, names_with_show_if);
    assert!(config_widgets_changed(&before(), &with_show_if()));

    let mut with_interval = before();
    let mut options = default_options();
    options.show_if = Some("true".to_string());
    options.show_if_interval = Some(30);
    with_interval.widgets.widget_configs.insert("clock".to_string(), options);
    let names_with_interval = widget_names(&with_interval);
    assert_ne!(names_with_show_if, names_with_interval);
    assert!(config_widgets_changed(&with_show_if(), &with_interval));
    assert!(!config_widgets_changed(&with_show_if(), &with_show_if()));
}

#[test]
fn settings_are_listed_behind_the_placements() {
    let mut config = default_config();
    config.widgets.left.push(single("clock"));
    let nested: toml::value::Table = [
        ("b".to_string(), toml::Value::Float(-0.0)),
        ("a".to_string(), toml::Value::Array(vec![toml::Value::Integer(1), toml::Value::Boolean(false)])),
    ]
    .into_iter()
    .collect();
    let format = toml::Value::String("say \"hi\"\n".to_string());
    let mut clock = with_options(vec![
        ("nested", toml::Value::Table(nested.clone())),
        ("format", format.clone()),
        ("alerts", toml::Value::Boolean(true)),
    ]);
    clock.disabled = true;
    clock.on_click_right = Some("notify 'x'".to_string());
    clock.show_if_interval = Some(30);
    config.widgets.widget_configs.insert("clock".to_string(), clock);
    config.widgets.widget_configs.insert(
        "battery".to_string(),
        with_options(vec![
            ("alerts", toml::Value::Boolean(false)),
            ("show_icon", toml::Value::Float(1.5)),
        ]),
    );

    let alerts = "alerts".to_string();
    let items = vec![
        (alerts, toml::Value::Boolean(true)),
        ("format".to_string(), format),
        ("nested".to_string(), toml::Value::Table(nested)),
    ];
    assert_eq!(
        widget_names(&config),
        vec![
            "left:clock".to_string(),
            "config:battery:disabled=false,click_r=None,click_m=None,show_if=None,\
             show_if_interval=None,[(\"show_icon\", Float(1.5))]"
                .to_string(),
            format!(
                "config:clock:disabled=true,click_r={:?},click_m=None,show_if=None,\
                 show_if_interval={:?},{:?}",
                Some("notify 'x'"),
                Some(30),
                items
            ),
        ]
    );

    let mut silent = default_config();
    silent.widgets.widget_configs.insert(
        "battery".to_string(),
        with_options(vec![("low_threshold", toml::Value::Integer(30))]),
    );
    assert!(widget_names(&silent).is_empty());
}

#[test]
fn test_widget_fingerprint_is_stable_for_equivalent_configs() {
    let first_nested: toml::value::Table = [
        ("a".to_string(), toml::Value::Integer(1)),
        ("b".to_string(), toml::Value::Integer(2)),
    ]
    .into_iter()
    .collect();
    let second_nested: toml::value::Table = [
        ("b".to_string(), toml::Value::Integer(2)),
        ("a".to_string(), toml::Value::Integer(1)),
    ]
    .into_iter()
    .collect();

    let mut first = default_config();
    first.widgets.widget_configs.insert(
        "clock".to_string(),
        with_options(vec![
            ("format", toml::Value::String("%H:%M".to_string())),
            ("show_icon", toml::Value::Boolean(true)),
            ("nested", toml::Value::Table(first_nested)),
        ]),
    );
    first.widgets.widget_configs.insert(
        "battery".to_string(),
        with_options(vec![("show_icon", toml::Value::Boolean(true))]),
    );

    let mut second = default_config();
    second.widgets.widget_configs.insert(
        "battery".to_string(),
        with_options(vec![("show_icon", toml::Value::Boolean(true))]),
    );
    second.widgets.widget_configs.insert(
        "clock".to_string(),
        with_options(vec![
            ("show_icon", toml::Value::Boolean(true)),
            ("format", toml::Value::String("%H:%M".to_string())),
            ("nested", toml::Value::Table(second_nested)),
        ]),
    );

    assert_eq!(widget_names(&first), widget_names(&second));
    assert!(!config_widgets_changed(&first, &second));
    assert!(!config_structure_changed(&first, &second));
    assert!(!per_widget_styles_changed(&first, &second));
}

#[test]
fn test_battery_alert_options_do_not_trigger_structural_change() {
    let with_battery = || {
        let mut config = default_config();
        config.widgets.right.push(single("battery"));
        config
    };
    let old = with_battery();
    let mut new = with_battery();
    new.widgets.widget_configs.insert(
        "battery".to_string(),
        with_options(vec![
            ("alerts", toml::Value::Boolean(false)),
            ("low_threshold", toml::Value::Integer(30)),
            ("critical_threshold", toml::Value::Integer(10)),
        ]),
    );

    assert!(!config_structure_changed(&old, &new));
}

#[test]
fn test_battery_alert_options_do_not_trigger_structural_change_with_other_options() {
    let with_threshold = |threshold: i64| {
        let mut config = default_config();
        config.widgets.right.push(single("battery"));
        config.widgets.widget_configs.insert(
            "battery".to_string(),
            with_options(vec![
                ("show_icon", toml::Value::Boolean(true)),
                ("low_threshold", toml::Value::Integer(threshold)),
            ]),
        );
        config
    };

    assert!(!config_structure_changed(&with_threshold(20), &with_threshold(30)));
}

#[test]
fn test_battery_non_alert_options_still_trigger_structural_change() {
    let with_battery = || {
        let mut config = default_config();
        config.widgets.right.push(single("battery"));
        config
    };
    let old = with_battery();
    let mut new = with_battery();
    new.widgets.widget_configs.insert(
        "battery".to_string(),
        with_options(vec![("show_icon", toml::Value::Boolean(false))]),
    );

    assert!(config_structure_changed(&old, &new));
}

#[test]
fn options_are_taken_from_toml() {
    let when = "1979-05-27T07:32:00Z".parse::<toml::value::Datetime>().unwrap();
    let value = toml::Value::Array(vec![
        toml::Value::String("a".to_string()),
        toml::Value::Float(1.5),
        toml::Value::Datetime(when),
    ]);
    let OptionValue::Array(items) = from_toml(value) else {
        panic!("an array stays one");
    };
    assert!(matches!(&items[0], OptionValue::Text(t) if t == "a"));
    assert!(matches!(&items[1], OptionValue::Float(bits) if *bits == 1.5f64.to_bits()));
    assert!(matches!(&items[2], OptionValue::Datetime(_)));
    let same = from_toml(toml::Value::Datetime(when));
    let later = "1979-05-27T07:32:01Z".parse::<toml::value::Datetime>().unwrap();
    assert!(items[2].same(&same, Sameness::Identical));
    assert!(!items[2].same(&from_toml(toml::Value::Datetime(later)), Sameness::Equal));
    assert_eq!(items[0].as_bool(), None);
    assert_eq!(from_toml(toml::Value::Integer(-3)).as_integer(), Some(-3));
    assert_eq!(from_toml(toml::Value::Boolean(true)).as_bool(), Some(true));
}

#[test]
fn zeros_are_equal_but_not_identical() {
    let zero = OptionValue::Float(0.0f64.to_bits());
    let negative = OptionValue::Float((-0.0f64).to_bits());
    let nan = OptionValue::Float(f64::NAN.to_bits());
    assert!(zero.same(&negative, Sameness::Equal));
    assert!(!zero.same(&negative, Sameness::Identical));
    assert!(!nan.same(&nan, Sameness::Equal));
    assert!(nan.same(&nan, Sameness::Identical));
}

#[test]
fn widget_arguments_are_cut_off() {
    assert_eq!(widget_base_name("weather:compact"), "weather");
    assert_eq!(widget_base_name("clock"), "clock");
}

fn palette() -> Palette {
    Palette {
        surface_border_radius: 10,
        bar_border_radius: 12,
        widget_border_radius: 8,
        radius_pill: 18,
        bar_outline_enabled: true,
        widget_outline_enabled: false,
        surface_outline_enabled: true,
        outline_width_px: 2,
        outline_opacity_pct: 20,
    }
}

fn nothing() -> Extracted {
    Extracted {
        color: None,
        luminance: None,
    }
}

#[test]
fn new_configurations_are_applied() {
    let old = default_config();
    let mut new = default_config();
    new.theme.mode = "auto".to_string();
    new.battery_alert.low_threshold = 25;
    let plan = plan_config(&old, &new);
    assert_eq!(plan.theme, Some(Source::Image));
    assert!(plan.detect_wallpaper && plan.battery_alert && plan.polling && plan.notify);
    assert!(!plan.rebuild && !plan.load_css && !plan.icons && !plan.forget_wallpaper);

    let mut manager = ConfigManager::new(old, palette(), None, None, nothing());
    let found = Extracted {
        color: Some(0xff_00_00),
        luminance: Some(0.5f64.to_bits()),
    };
    let detected = Some("/pictures/a.png".to_string());
    assert_eq!(manager.picture_for(&new, &plan, &detected), detected);
    let material = manager.apply_config(new, &plan, detected, found);
    assert_eq!(material, found);
    assert!(manager.polling);

    // Another look is begun only when the last one has ended.
    let poll = manager.check_wallpaper_changed().unwrap();
    assert_eq!(poll.known.as_deref(), Some("/pictures/a.png"));
    assert!(manager.check_wallpaper_changed().is_none());
    manager.wallpaper_unchanged();
    assert!(manager.check_wallpaper_changed().is_some());
    assert!(manager.wallpaper_found(Some("/pictures/b.png".to_string()), nothing()));
    assert_eq!(manager.wallpaper_path.as_deref(), Some("/pictures/b.png"));
    assert!(manager.stop_wallpaper_polling());
    assert!(manager.start_wallpaper_polling());
    assert!(manager.handle_gtk_color_scheme_changed().is_none());

    let mut plain = default_config();
    plain.advanced.compositor = "sway".to_string();
    plain.battery_alert.low_threshold = 25;
    let plan = plan_config(&manager.config, &plain);
    assert_eq!(plan.theme, Some(Source::Plain));
    assert!(plan.rebuild && !plan.load_css && plan.forget_wallpaper);
    manager.apply_config(plain, &plan, None, nothing());
    assert!(manager.wallpaper_path.is_none() && !manager.polling);
    // What a late look found is dropped.
    assert!(!manager.wallpaper_found(Some("/pictures/c.png".to_string()), nothing()));
    assert!(manager.wallpaper_path.is_none());
}

#[test]
fn settings_are_read_from_the_active_configuration() {
    let mut config = default_config();
    let mut options = with_options(vec![("format", toml::Value::String("%H".to_string()))]);
    options.on_click_right = Some("toggle".to_string());
    options.show_if = Some("test".to_string());
    options.show_if_interval = Some(0);
    config.widgets.widget_configs.insert("clock".to_string(), options);
    config.theme.animations = false;
    let path = Some("/home/user/.config/vibepanel/config.toml".to_string());
    let manager = ConfigManager::new(config, palette(), path, None, nothing());
    assert_eq!(manager.animation_duration(200), 0);
    assert!(manager.bar_outline_visible() && !manager.widget_outline_visible());
    assert_eq!(manager.surface_outline_width(), 2);
    assert!(manager.surface_outline_visible());
    assert_eq!(
        manager.config_dir().as_deref(),
        Some("/home/user/.config/vibepanel")
    );
    assert!(manager.get_widget_option("clock", "format").is_some());
    assert!(manager.get_widget_option("clock", "other").is_none());
    assert_eq!(
        manager.get_click_handlers("clock"),
        (Some("toggle".to_string()), None)
    );
    assert_eq!(manager.get_show_if("clock"), (Some("test".to_string()), None));
    assert_eq!(manager.get_show_if("battery"), (None, None));
    assert_eq!(manager.bar_position(), BarPosition::Top);
    assert!(manager.bar_position().is_horizontal());
    assert_eq!(manager.bar_size(), 36);
    assert_eq!(manager.bar_padding(), 4);
    assert_eq!(manager.widget_radius_percent(), 40);
    assert_eq!(manager.bar_background_opacity(), 0.0f64.to_bits());
    assert!(manager.ripple_enabled() && manager.blur_enabled());
    assert!(!manager.weather_config().enabled);

    let mut slot = None;
    assert!(ConfigManager::init_global(&mut slot, manager));
    let second = ConfigManager::new(default_config(), palette(), None, None, nothing());
    assert!(!ConfigManager::init_global(&mut slot, second));
    assert!(ConfigManager::global(&slot).config_path.is_some());
}

#[test]
fn first_colours_come_from_the_configured_picture() {
    let mut config = default_config();
    assert!(matches!(first_picture(&config), FirstPicture::Plain));
    config.theme.mode = "auto".to_string();
    config.bar.outputs = vec!["DP-1".to_string(), "DP-2".to_string()];
    assert!(matches!(
        first_picture(&config),
        FirstPicture::Detect { output: Some(name) } if name == "DP-1"
    ));
    config.theme.wallpaper = Some("/a.png".to_string());
    assert!(matches!(first_picture(&config), FirstPicture::Named { path } if path == "/a.png"));
}

#[test]
fn unusable_configurations_are_told() {
    assert!(matches!(
        reload_message(Err("no file".to_string()), None),
        ConfigMessage::Error(e) if e == "Failed to reload config: no file"
    ));
    assert!(matches!(
        reload_message(Ok(default_config()), Some("size".to_string())),
        ConfigMessage::Error(e) if e == "Config validation failed: size"
    ));
    assert!(matches!(
        reload_message(Ok(default_config()), None),
        ConfigMessage::Reloaded(_)
    ));
}

#[test]
fn outlines_are_drawn_while_surfaces_move() {
    let outline = |active: bool, width: u32| {
        let mut palette = palette();
        palette.outline_width_px = width;
        let config = ConfigManager::new(default_config(), palette, None, None, nothing());
        SurfaceStyleManager::new(default_surface_styles())
            .apply_animated_surface_outline(&config, active)
    };
    let drawn = outline(true, 2);
    assert_eq!((drawn.radius, drawn.width, drawn.color), (10, 2, Outline::Colored));
    assert!(drawn.active);
    assert_eq!(outline(false, 2).color, Outline::Transparent);
    assert!(!outline(false, 2).active);
    assert_eq!(outline(true, 0).color, Outline::Transparent);
}

#[test]
fn directories_are_those_that_paths_write() {
    let pieces = ["", ".", "..", "a", "config.toml"];
    let mut paths = vec![String::new()];
    for _ in 0..4 {
        let longer: Vec<String> = paths
            .iter()
            .flat_map(|p| pieces.iter().map(move |piece| format!("{p}{piece}/")))
            .collect();
        paths.extend(longer);
    }
    let cut: Vec<String> = paths.iter().filter_map(|p| Some(p.strip_suffix('/')?.to_string())).collect();
    for path in paths.iter().chain(&cut) {
        let expected = std::path::Path::new(path).parent().and_then(|p| p.to_str());
        assert_eq!(parent_as_written(path).as_deref(), expected, "{path}");
    }
    assert_eq!(parent_as_written("../config.toml").as_deref(), Some(".."));
    assert_eq!(parent_as_written("dir/..").as_deref(), Some("dir"));
    assert_eq!(parent_as_written("config.toml").as_deref(), Some(""));
    assert_eq!(parent_as_written("/"), None);
}

#[test]
fn messages_of_the_watcher_are_followed() {
    let mut manager = ConfigManager::new(default_config(), palette(), None, None, nothing());
    match manager.handle_config_message(ConfigMessage::Error("broken".to_string())) {
        MessageStep::Keep { error } => assert_eq!(error, "broken"),
        other => panic!("{other:?}"),
    }
    assert!(matches!(
        manager.handle_config_message(ConfigMessage::StyleCssChanged),
        MessageStep::LoadStyles
    ));
    let mut new = default_config();
    new.bar.size += 1;
    new.allow_overdrive = true;
    new.weather.refresh_interval = 77;
    match manager.handle_config_message(ConfigMessage::Reloaded(new)) {
        MessageStep::Apply {
            config,
            plan,
            allow_overdrive,
            weather,
        } => {
            assert!(allow_overdrive);
            assert_eq!(weather.refresh_interval, 77);
            assert!(!weather.enabled);
            assert_eq!(plan, plan_config(&default_config(), &config));
            let size = config.bar.size;
            manager.apply_config(config, &plan, None, nothing());
            assert_eq!(manager.bar_size(), size);
        }
        other => panic!("{other:?}"),
    }
}

#[test]
fn a_wallpaper_that_is_known_is_not_new() {
    let mut config = default_config();
    config.theme.mode = "auto".to_string();
    let known = Some("/a.png".to_string());
    let mut manager = ConfigManager::new(config, palette(), None, known.clone(), nothing());
    let poll = manager.check_wallpaper_changed().unwrap();
    assert!(poll.is_same(&known));
    assert!(!poll.is_same(&Some("/b.png".to_string())));
    assert!(!poll.is_same(&None));
}
