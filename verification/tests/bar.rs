use std::path::Path;
use vibepanel::bar::{
    bar_flow_orientation_for, compute_merge_runs, entry_has_fixed_width_option, find_user_css,
    screen_margin_spacer_precedes_bar, screen_margin_spacer_size, shell_orientation_for,
    user_css_search_paths_from_env, BarPosition, MergeKind, Orientation, PopoverKind,
};
use vibepanel::config::options::ConfigOption;
use vibepanel::table::Table;

const SYSTEM: PopoverKind = PopoverKind::System;
const UNMERGEABLE: PopoverKind = PopoverKind::Unmergeable;

fn merge_runs(kinds: &[MergeKind]) -> Vec<(PopoverKind, usize, usize)> {
    compute_merge_runs(kinds)
        .into_iter()
        .map(|run| (run.kind, run.start, run.end))
        .collect()
}

#[test]
fn merge_runs_empty() {
    assert_eq!(merge_runs(&[]), vec![]);
}

#[test]
fn merge_runs_unmergeable_never_grouped() {
    let runs = merge_runs(&[
        MergeKind::Popover(UNMERGEABLE),
        MergeKind::Popover(UNMERGEABLE),
        MergeKind::Popover(UNMERGEABLE),
    ]);
    assert_eq!(
        runs,
        vec![
            (UNMERGEABLE, 0, 1),
            (UNMERGEABLE, 1, 2),
            (UNMERGEABLE, 2, 3),
        ]
    );
}

#[test]
fn merge_runs_system_grouping() {
    // Consecutive system widgets merge into one run.
    assert_eq!(
        merge_runs(&[
            MergeKind::Popover(SYSTEM),
            MergeKind::Popover(SYSTEM),
            MergeKind::Popover(SYSTEM),
        ]),
        vec![(SYSTEM, 0, 3)]
    );
    // An unmergeable one breaks a run; a single system widget stays single.
    assert_eq!(
        merge_runs(&[
            MergeKind::Popover(SYSTEM),
            MergeKind::Popover(SYSTEM),
            MergeKind::Popover(UNMERGEABLE),
            MergeKind::Popover(SYSTEM),
        ]),
        vec![(SYSTEM, 0, 2), (UNMERGEABLE, 2, 3), (SYSTEM, 3, 4)],
    );
    // A single system widget is its own run.
    assert_eq!(
        merge_runs(&[MergeKind::Popover(SYSTEM)]),
        vec![(SYSTEM, 0, 1)]
    );
}

#[test]
fn bar_flow_orientation_matches_position() {
    assert_eq!(
        bar_flow_orientation_for(BarPosition::Top),
        Orientation::Horizontal
    );
    assert_eq!(
        bar_flow_orientation_for(BarPosition::Bottom),
        Orientation::Horizontal
    );
    assert_eq!(
        bar_flow_orientation_for(BarPosition::Left),
        Orientation::Vertical
    );
    assert_eq!(
        bar_flow_orientation_for(BarPosition::Right),
        Orientation::Vertical
    );
}

#[test]
fn screen_margin_shell_orientation_matches_screen_edge() {
    assert_eq!(
        shell_orientation_for(BarPosition::Top),
        Orientation::Vertical
    );
    assert_eq!(
        shell_orientation_for(BarPosition::Bottom),
        Orientation::Vertical
    );
    assert_eq!(
        shell_orientation_for(BarPosition::Left),
        Orientation::Horizontal
    );
    assert_eq!(
        shell_orientation_for(BarPosition::Right),
        Orientation::Horizontal
    );

    assert_eq!(screen_margin_spacer_size(BarPosition::Top, 12), (-1, 12));
    assert_eq!(screen_margin_spacer_size(BarPosition::Right, 12), (12, -1));
    assert!(screen_margin_spacer_precedes_bar(BarPosition::Top));
    assert!(screen_margin_spacer_precedes_bar(BarPosition::Left));
    assert!(!screen_margin_spacer_precedes_bar(BarPosition::Bottom));
    assert!(!screen_margin_spacer_precedes_bar(BarPosition::Right));
}

#[test]
fn merge_runs_spacer_absorbed_between_same_kind() {
    assert_eq!(
        merge_runs(&[
            MergeKind::Popover(SYSTEM),
            MergeKind::Spacer,
            MergeKind::Popover(SYSTEM),
        ]),
        vec![(SYSTEM, 0, 3)]
    );
}

#[test]
fn merge_runs_spacer_absorbed_into_left_run() {
    assert_eq!(
        merge_runs(&[
            MergeKind::Popover(SYSTEM),
            MergeKind::Spacer,
            MergeKind::Popover(UNMERGEABLE),
        ]),
        vec![(SYSTEM, 0, 2), (UNMERGEABLE, 2, 3)]
    );
}

#[test]
fn merge_runs_leading_spacer_absorbed() {
    assert_eq!(
        merge_runs(&[
            MergeKind::Spacer,
            MergeKind::Popover(SYSTEM),
            MergeKind::Popover(SYSTEM),
        ]),
        vec![(SYSTEM, 0, 3)]
    );
}

#[test]
fn merge_runs_trailing_spacer_absorbed() {
    assert_eq!(
        merge_runs(&[MergeKind::Popover(SYSTEM), MergeKind::Spacer]),
        vec![(SYSTEM, 0, 2)]
    );
}

#[test]
fn merge_runs_all_spacers_get_no_runs() {
    // Spacers only join painted groups; alone they build nothing.
    assert_eq!(
        merge_runs(&[MergeKind::Spacer, MergeKind::Spacer]),
        Vec::new()
    );
}

#[test]
fn user_css_search_paths_config_dir_first() {
    let paths = user_css_search_paths_from_env(
        Some("/custom/config/dir"),
        Some("/xdg-home"),
        Some("/home/test"),
    );
    assert_eq!(
        paths,
        vec![
            "/custom/config/dir/style.css",
            "/xdg-home/vibepanel/style.css",
            "/home/test/.config/vibepanel/style.css",
            "style.css",
        ]
    );
}

#[test]
fn user_css_search_paths_deduplicates() {
    let paths = user_css_search_paths_from_env(
        Some("/home/test/.config/vibepanel"),
        Some("/home/test/.config"),
        Some("/home/test"),
    );
    assert_eq!(
        paths,
        vec!["/home/test/.config/vibepanel/style.css", "style.css"]
    );
}

#[test]
fn user_css_search_paths_none_config_dir_still_has_entries() {
    let paths = user_css_search_paths_from_env(None, None, None);
    assert_eq!(
        paths,
        vec!["style.css"],
        "without config/XDG/HOME, only the CWD fallback remains"
    );
}

#[test]
fn user_css_search_paths_xdg_dedup_with_home() {
    let paths = user_css_search_paths_from_env(None, Some("/home/test/.config"), Some("/home/test"));
    assert_eq!(
        paths,
        vec!["/home/test/.config/vibepanel/style.css", "style.css"]
    );
}

#[test]
fn find_user_css_returns_none_when_no_file_exists() {
    let dir = "/vibepanel_test_missing_css";
    let paths = user_css_search_paths_from_env(Some(dir), Some(dir), Some(dir));
    let present: Vec<bool> = paths.iter().map(|p| Path::new(p).exists()).collect();
    assert_eq!(find_user_css(&paths, &present), None);
}

#[test]
fn find_user_css_finds_existing_file() {
    let dir = "/vibepanel_test_css";
    let style_path = "/vibepanel_test_css/style.css".to_string();
    let paths = user_css_search_paths_from_env(Some(dir), Some(dir), Some(dir));
    let present: Vec<bool> = paths.iter().map(|p| *p == style_path).collect();
    assert_eq!(find_user_css(&paths, &present), Some(style_path));
}

#[test]
fn user_css_is_taken_from_the_first_place_that_has_it() {
    let paths = user_css_search_paths_from_env(Some("/c"), Some("/x"), Some("/h"));
    let found = find_user_css(&paths, &vec![false, true, true, true]);
    assert_eq!(found, Some("/x/vibepanel/style.css".to_string()));
}

fn options_with_width(width: Option<toml::Value>) -> Table<String, ConfigOption> {
    let mut options = Table::new();
    if let Some(value) = width {
        options.insert("width".to_string(), ConfigOption::from_toml(value));
    }
    options
}

#[test]
fn entry_has_fixed_width_option_matches_spacer_config_parsing() {
    let positive = options_with_width(Some(toml::Value::Integer(50)));
    assert!(
        entry_has_fixed_width_option(&positive),
        "positive integer width must count as fixed"
    );

    let flexible = options_with_width(None);
    assert!(
        !entry_has_fixed_width_option(&flexible),
        "missing width must count as flexible"
    );

    let invalid_string = options_with_width(Some(toml::Value::String("oops".to_string())));
    assert!(
        !entry_has_fixed_width_option(&invalid_string),
        "non-integer width must count as flexible"
    );

    let negative = options_with_width(Some(toml::Value::Integer(-5)));
    assert!(
        !entry_has_fixed_width_option(&negative),
        "negative width must count as flexible"
    );
}
