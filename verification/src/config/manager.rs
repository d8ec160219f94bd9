//! The active configuration: what is read from it, and what follows when a new one takes its place.

use vstd::prelude::*;
use vstd::string::*;
use crate::bar::BarPosition;
use crate::config::options::ConfigOption;
use crate::config::{
    config_structure_changed, config_theme_changed, config_uses_gtk_scheme, structure_changed, theme_changed,
    uses_gtk_scheme, weather_config_from_config, weather_enabled, Config, ResolvedWeatherConfig, ThemeConfig,
};
use crate::paths::{parent_as_written, written_parent};
use crate::text::{self, chars_of, views};

verus! {

/// How often the wallpaper is looked at, in seconds.
pub const WALLPAPER_POLL_INTERVAL_SECS: u32 = 2;

/// How long changes of files are gathered, in milliseconds.
pub const FILE_CHANGE_DEBOUNCE_MS: u64 = 300;

/// What is read from the colours and sizes that were computed.
#[derive(Clone, Copy, Debug, PartialEq, Eq, Structural)]
pub struct Palette {
    pub surface_border_radius: u32,
    pub bar_border_radius: u32,
    pub widget_border_radius: u32,
    pub radius_pill: u32,
    pub bar_outline_enabled: bool,
    pub widget_outline_enabled: bool,
    pub surface_outline_enabled: bool,
    pub outline_width_px: u32,
    pub outline_opacity_pct: u32,
}

/// What a picture gave: its main colour, and its luminance as the bit pattern of a double.
#[derive(Clone, Copy, Debug, PartialEq, Eq, Structural)]
pub struct Extracted {
    pub color: Option<u32>,
    pub luminance: Option<u64>,
}

/// The active configuration, and what was gathered to compute colours from it.
#[derive(Debug)]
pub struct ConfigManager {
    pub config: Config,
    pub palette: Palette,
    pub config_path: Option<String>,
    /// The wallpaper that was found.
    pub wallpaper_path: Option<String>,
    /// What the wallpaper gave.
    pub cached: Extracted,
    /// Whether the wallpaper is looked at from time to time.
    pub polling: bool,
    /// Whether the wallpaper is being looked at.
    pub poll_in_progress: bool,
}

/// Whether colours come from a picture.
pub open spec fn automatic(theme: ThemeConfig) -> bool {
    theme.mode@ == "auto"@
}

fn is_automatic(theme: &ThemeConfig) -> (yes: bool)
    ensures
        yes == automatic(*theme),
{
    text::str_eq(theme.mode.as_str(), "auto")
}

/// Whether colours come from whatever wallpaper is shown.
pub open spec fn follows_wallpaper(theme: ThemeConfig) -> bool {
    automatic(theme) && theme.wallpaper is None
}

fn does_follow_wallpaper(theme: &ThemeConfig) -> (yes: bool)
    ensures
        yes == follows_wallpaper(*theme),
{
    is_automatic(theme) && theme.wallpaper.is_none()
}

/// Whether colours come from another picture than before.
pub open spec fn source_changed(a: ThemeConfig, b: ThemeConfig) -> bool {
    !automatic(a) || chars_of(a.wallpaper) != chars_of(b.wallpaper)
}

/// Where the colours of a new theme come from.
#[derive(Clone, Copy, Debug, PartialEq, Eq, Structural)]
pub enum Source {
    /// No picture.
    Plain,
    /// A picture that is to be read.
    Image,
    /// The colour that the last picture gave.
    Cached,
}

/// What a new configuration asks for, in this order.
#[derive(Clone, Copy, Debug, PartialEq, Eq, Structural)]
pub struct ApplyPlan {
    /// Set the icons up again, and tell the network's listeners, which choose icons.
    pub icons: bool,
    /// Find the wallpaper.
    pub detect_wallpaper: bool,
    /// Compute the colours, from what is told.
    pub theme: Option<Source>,
    /// Set the battery alerts up again.
    pub battery_alert: bool,
    /// Begin or end looking at the wallpaper, as the new configuration says.
    pub polling: bool,
    /// Forget the wallpaper.
    pub forget_wallpaper: bool,
    /// Load the style sheet; computing colours has loaded it already.
    pub load_css: bool,
    /// Build the bars again.
    pub rebuild: bool,
    /// Tell those who follow the colours.
    pub notify: bool,
}

/// What a new configuration asks for.
pub open spec fn planned(a: Config, b: Config) -> ApplyPlan {
    let theme = theme_changed(a, b);
    let structure = structure_changed(a, b);
    let wallpaper = a.theme.mode@ != b.theme.mode@ || chars_of(a.theme.wallpaper) != chars_of(b.theme.wallpaper);
    ApplyPlan {
        icons: a.theme.icons.theme@ != b.theme.icons.theme@ || a.theme.icons.weight != b.theme.icons.weight,
        detect_wallpaper: follows_wallpaper(b.theme) && source_changed(a.theme, b.theme),
        theme: if !theme {
            None
        } else if !automatic(b.theme) {
            Some(Source::Plain)
        } else if source_changed(a.theme, b.theme) {
            Some(Source::Image)
        } else {
            Some(Source::Cached)
        },
        battery_alert: a.battery_alert != b.battery_alert,
        polling: wallpaper,
        forget_wallpaper: wallpaper && !follows_wallpaper(b.theme),
        load_css: structure && !theme,
        rebuild: structure,
        notify: theme,
    }
}

/// What a new configuration asks for.
pub fn plan_config(old_config: &Config, new_config: &Config) -> (plan: ApplyPlan)
    ensures
        plan == planned(*old_config, *new_config),
{
    let a = &old_config.theme;
    let b = &new_config.theme;
    let theme = config_theme_changed(old_config, new_config);
    let structure = config_structure_changed(old_config, new_config);
    let picture = !text::opt_eq(&a.wallpaper, &b.wallpaper);
    let source = !is_automatic(a) || picture;
    let wallpaper = a.mode != b.mode || picture;
    let follows = does_follow_wallpaper(b);
    let step = if !theme {
        None
    } else if !is_automatic(b) {
        Some(Source::Plain)
    } else if source {
        Some(Source::Image)
    } else {
        Some(Source::Cached)
    };
    ApplyPlan {
        icons: a.icons.theme != b.icons.theme || a.icons.weight != b.icons.weight,
        detect_wallpaper: follows && source,
        theme: step,
        battery_alert: old_config.battery_alert != new_config.battery_alert,
        polling: wallpaper,
        forget_wallpaper: wallpaper && !follows,
        load_css: structure && !theme,
        rebuild: structure,
        notify: theme,
    }
}

/// A picture is read only for colours that come from one, and only where it may be another than
/// before.
pub proof fn pictures_are_read_when_needed(a: Config, b: Config)
    ensures
        planned(a, b).theme == Some(Source::Image) ==> automatic(b.theme) && source_changed(a.theme, b.theme),
        planned(a, b).detect_wallpaper ==> follows_wallpaper(b.theme),
        planned(a, b).detect_wallpaper ==> !planned(a, b).forget_wallpaper,
{
}

/// Whenever the bars are built again the style sheet is loaded, once: either on its own or with
/// the colours.
pub proof fn rebuilding_loads_styles_once(a: Config, b: Config)
    ensures
        planned(a, b).rebuild ==> (planned(a, b).load_css <==> planned(a, b).theme is None),
        planned(a, b).load_css ==> planned(a, b).rebuild,
        planned(a, b).notify <==> planned(a, b).theme is Some,
{
}

/// Where the first colours come from.
#[derive(Debug)]
pub enum FirstPicture {
    /// No picture.
    Plain,
    /// The wallpaper, on that output if one is named.
    Detect { output: Option<String> },
    /// A picture that is named.
    Named { path: String },
}

/// The first output that is named.
pub open spec fn first_output(outputs: Seq<String>) -> Option<Seq<char>> {
    if outputs.len() > 0 {
        Some(outputs[0]@)
    } else {
        None
    }
}

fn first_of(outputs: &Vec<String>) -> (output: Option<String>)
    ensures
        chars_of(output) == first_output(outputs@),
{
    if outputs.len() > 0 {
        Some(outputs[0].clone())
    } else {
        None
    }
}

/// Where the first colours of a configuration come from.
pub fn first_picture(config: &Config) -> (picture: FirstPicture)
    ensures
        picture is Plain <==> !automatic(config.theme),
        picture is Detect <==> follows_wallpaper(config.theme),
        picture is Detect ==> chars_of(picture->output) == first_output(config.bar.outputs@),
        picture is Named ==> Some(picture->path@) == chars_of(config.theme.wallpaper),
{
    if !is_automatic(&config.theme) {
        return FirstPicture::Plain;
    }
    match &config.theme.wallpaper {
        Some(path) => FirstPicture::Named { path: path.clone() },
        None => FirstPicture::Detect { output: first_of(&config.bar.outputs) },
    }
}

/// The search for the wallpaper that was begun.
#[derive(Debug)]
pub struct WallpaperPoll {
    pub known: Option<String>,
    pub output: Option<String>,
}

impl WallpaperPoll {
    /// Whether the wallpaper that was found is the one that was known.
    pub fn is_same(&self, found: &Option<String>) -> (yes: bool)
        ensures
            yes == (chars_of(self.known) == chars_of(*found)),
    {
        text::opt_eq(&self.known, found)
    }
}

impl ConfigManager {
    /// A manager for a first configuration. `detected` is the wallpaper that was found for it, and
    /// `extracted` what the picture gave.
    pub fn new(
        config: Config,
        palette: Palette,
        config_path: Option<String>,
        detected: Option<String>,
        extracted: Extracted,
    ) -> (manager: Self)
        ensures
            manager.config == config,
            manager.palette == palette,
            manager.config_path == config_path,
            manager.wallpaper_path == if follows_wallpaper(config.theme) { detected } else { None },
            manager.cached == if automatic(config.theme) {
                extracted
            } else {
                (Extracted { color: None, luminance: None })
            },
            !manager.polling,
            !manager.poll_in_progress,
    {
        let wallpaper_path = if does_follow_wallpaper(&config.theme) { detected } else { None };
        let cached = if is_automatic(&config.theme) { extracted } else { Extracted { color: None, luminance: None } };
        ConfigManager {
            config,
            palette,
            config_path,
            wallpaper_path,
            cached,
            polling: false,
            poll_in_progress: false,
        }
    }

    /// Puts the first manager in place and tells whether it was taken; later ones are not.
    pub fn init_global(slot: &mut Option<ConfigManager>, manager: ConfigManager) -> (taken: bool)
        ensures
            taken == (*old(slot) is None),
            *final(slot) == if taken { Some(manager) } else { *old(slot) },
    {
        if slot.is_some() {
            return false;
        }
        *slot = Some(manager);
        true
    }

    /// The manager that was put in place.
    pub fn global(slot: &Option<ConfigManager>) -> (manager: &ConfigManager)
        requires
            slot is Some,
        ensures
            Some(*manager) == *slot,
    {
        slot.as_ref().unwrap()
    }

    /// The picture to read for a new configuration: the one that it names, or else the wallpaper.
    pub fn picture_for(&self, new_config: &Config, plan: &ApplyPlan, detected: &Option<String>) -> (path: Option<String>)
        ensures
            chars_of(path) == (match chars_of(new_config.theme.wallpaper) {
                Some(named) => Some(named),
                None => if plan.detect_wallpaper { chars_of(*detected) } else { chars_of(self.wallpaper_path) },
            }),
    {
        match &new_config.theme.wallpaper {
            Some(named) => Some(named.clone()),
            None => if plan.detect_wallpaper { detected.clone() } else { self.wallpaper_path.clone() },
        }
    }

    /// Takes a new configuration over. `detected` and `extracted` answer what the plan asked for.
    /// Returned is what the new colours are computed from.
    pub fn apply_config(
        &mut self,
        new_config: Config,
        plan: &ApplyPlan,
        detected: Option<String>,
        extracted: Extracted,
    ) -> (material: Extracted)
        requires
            *plan == planned(old(self).config, new_config),
        ensures
            final(self).config == new_config,
            final(self).palette == old(self).palette,
            final(self).config_path == old(self).config_path,
            final(self).poll_in_progress == old(self).poll_in_progress,
            final(self).polling == if plan.polling {
                follows_wallpaper(new_config.theme)
            } else {
                old(self).polling
            },
            final(self).wallpaper_path == if plan.forget_wallpaper {
                None
            } else if plan.detect_wallpaper {
                detected
            } else {
                old(self).wallpaper_path
            },
            final(self).cached == if plan.theme == Some(Source::Image) { extracted } else { old(self).cached },
            material.luminance == final(self).cached.luminance,
            material.color == if plan.theme == Some(Source::Plain) || plan.theme is None {
                None
            } else {
                final(self).cached.color
            },
    {
        if plan.detect_wallpaper {
            self.wallpaper_path = detected;
        }
        let mut color = None;
        match plan.theme {
            Some(Source::Image) => {
                self.cached = extracted;
                color = extracted.color;
            }
            Some(Source::Cached) => color = self.cached.color,
            _ => {}
        }
        if plan.polling {
            self.polling = does_follow_wallpaper(&new_config.theme);
        }
        if plan.forget_wallpaper {
            self.wallpaper_path = None;
        }
        self.config = new_config;
        Extracted { color, luminance: self.cached.luminance }
    }

    /// Begins or ends looking at the wallpaper, as the configuration says.
    pub fn start_wallpaper_polling(&mut self) -> (polls: bool)
        ensures
            polls == follows_wallpaper(old(self).config.theme),
            *final(self) == (ConfigManager { polling: polls, ..*old(self) }),
    {
        let polls = does_follow_wallpaper(&self.config.theme);
        self.polling = polls;
        polls
    }

    /// Ends looking at the wallpaper and tells whether that was going on.
    pub fn stop_wallpaper_polling(&mut self) -> (polled: bool)
        ensures
            polled == old(self).polling,
            *final(self) == (ConfigManager { polling: false, ..*old(self) }),
    {
        let polled = self.polling;
        self.polling = false;
        polled
    }

    /// Begins a look at the wallpaper, unless one is under way.
    pub fn check_wallpaper_changed(&mut self) -> (poll: Option<WallpaperPoll>)
        ensures
            poll is None <==> old(self).poll_in_progress,
            poll is Some ==> chars_of(poll->0.known) == chars_of(old(self).wallpaper_path),
            poll is Some ==> chars_of(poll->0.output) == first_output(old(self).config.bar.outputs@),
            *final(self) == (ConfigManager { poll_in_progress: true, ..*old(self) }),
    {
        if self.poll_in_progress {
            return None;
        }
        let known = self.wallpaper_path.clone();
        let output = first_of(&self.config.bar.outputs);
        self.poll_in_progress = true;
        Some(WallpaperPoll { known, output })
    }

    /// Ends a look at the wallpaper that found the one that was known.
    pub fn wallpaper_unchanged(&mut self)
        ensures
            *final(self) == (ConfigManager { poll_in_progress: false, ..*old(self) }),
    {
        self.poll_in_progress = false;
    }

    /// Ends a look that found another wallpaper, and tells whether colours are to be computed. What
    /// was found is dropped if the configuration no longer follows the wallpaper.
    pub fn wallpaper_found(&mut self, path: Option<String>, extracted: Extracted) -> (rebuild: bool)
        ensures
            rebuild == follows_wallpaper(old(self).config.theme),
            *final(self) == if rebuild {
                ConfigManager { poll_in_progress: false, wallpaper_path: path, cached: extracted, ..*old(self) }
            } else {
                ConfigManager { poll_in_progress: false, ..*old(self) }
            },
    {
        self.poll_in_progress = false;
        if !does_follow_wallpaper(&self.config.theme) {
            return false;
        }
        self.wallpaper_path = path;
        self.cached = extracted;
        true
    }

    /// What colours are computed from after the desktop changed its preference; nothing where they
    /// do not follow it.
    pub fn handle_gtk_color_scheme_changed(&self) -> (material: Option<Extracted>)
        ensures
            material == if uses_gtk_scheme(self.config.theme) { Some(self.cached) } else { None },
    {
        if config_uses_gtk_scheme(&self.config) {
            Some(self.cached)
        } else {
            None
        }
    }

    /// The settings of the weather service.
    pub fn weather_config(&self) -> (weather: ResolvedWeatherConfig)
        ensures
            weather.enabled == weather_enabled(self.config.widgets),
            weather.auto_locate == self.config.weather.auto_locate,
            weather.latitude == self.config.weather.latitude,
            weather.longitude == self.config.weather.longitude,
            chars_of(weather.location) == chars_of(self.config.weather.location),
            weather.units == self.config.weather.units,
            chars_of(weather.wind_units) == chars_of(self.config.weather.wind_units),
            weather.refresh_interval == self.config.weather.refresh_interval,
    {
        weather_config_from_config(&self.config)
    }

    pub fn surface_border_radius(&self) -> (radius: u32)
        ensures
            radius == self.palette.surface_border_radius,
    {
        self.palette.surface_border_radius
    }

    pub fn bar_border_radius(&self) -> (radius: u32)
        ensures
            radius == self.palette.bar_border_radius,
    {
        self.palette.bar_border_radius
    }

    /// The radius of widget islands; that of the bar also takes its padding in.
    pub fn widget_border_radius(&self) -> (radius: u32)
        ensures
            radius == self.palette.widget_border_radius,
    {
        self.palette.widget_border_radius
    }

    /// Whether outlines can be seen at all.
    fn outlines_visible(&self) -> (yes: bool)
        ensures
            yes == (self.palette.outline_width_px > 0 && self.palette.outline_opacity_pct > 0),
    {
        self.palette.outline_width_px > 0 && self.palette.outline_opacity_pct > 0
    }

    pub fn bar_outline_visible(&self) -> (yes: bool)
        ensures
            yes == (self.palette.bar_outline_enabled && self.palette.outline_width_px > 0
                && self.palette.outline_opacity_pct > 0),
    {
        self.palette.bar_outline_enabled && self.outlines_visible()
    }

    pub fn widget_outline_visible(&self) -> (yes: bool)
        ensures
            yes == (self.palette.widget_outline_enabled && self.palette.outline_width_px > 0
                && self.palette.outline_opacity_pct > 0),
    {
        self.palette.widget_outline_enabled && self.outlines_visible()
    }

    /// The width of the outline of floating surfaces in pixels, 0 where it cannot be seen.
    pub fn surface_outline_width(&self) -> (width: u32)
        ensures
            width == if self.palette.surface_outline_enabled && self.palette.outline_opacity_pct > 0 {
                self.palette.outline_width_px
            } else {
                0
            },
    {
        if self.palette.surface_outline_enabled && self.outlines_visible() {
            self.palette.outline_width_px
        } else {
            0
        }
    }

    pub fn surface_outline_visible(&self) -> (yes: bool)
        ensures
            yes == (self.palette.surface_outline_enabled && self.palette.outline_width_px > 0
                && self.palette.outline_opacity_pct > 0),
    {
        self.surface_outline_width() > 0
    }

    pub fn radius_pill(&self) -> (radius: u32)
        ensures
            radius == self.palette.radius_pill,
    {
        self.palette.radius_pill
    }

    /// The rounding of widgets in percent, as it is configured.
    pub fn widget_radius_percent(&self) -> (percent: u32)
        ensures
            percent == self.config.widgets.border_radius,
    {
        self.config.widgets.border_radius
    }

    pub fn bar_size(&self) -> (size: u32)
        ensures
            size == self.config.bar.size,
    {
        self.config.bar.size
    }

    pub fn bar_padding(&self) -> (padding: u32)
        ensures
            padding == self.config.bar.padding,
    {
        self.config.bar.padding
    }

    pub fn screen_margin(&self) -> (margin: u32)
        ensures
            margin == self.config.bar.screen_margin,
    {
        self.config.bar.screen_margin
    }

    pub fn popover_offset(&self) -> (offset: u32)
        ensures
            offset == self.config.bar.popover_offset,
    {
        self.config.bar.popover_offset
    }

    /// The opacity of the bar, as the bit pattern of a double.
    pub fn bar_background_opacity(&self) -> (bits: u64)
        ensures
            bits == self.config.bar.background_opacity,
    {
        self.config.bar.background_opacity
    }

    pub fn bar_position(&self) -> (position: BarPosition)
        ensures
            position == self.config.bar.side,
    {
        self.config.bar.side
    }

    pub fn animations_enabled(&self) -> (yes: bool)
        ensures
            yes == self.config.theme.animations,
    {
        self.config.theme.animations
    }

    /// A duration, or 0 where there are no animations.
    pub fn animation_duration(&self, default_ms: u32) -> (ms: u32)
        ensures
            ms == if self.config.theme.animations { default_ms } else { 0 },
    {
        if self.animations_enabled() {
            default_ms
        } else {
            0
        }
    }

    pub fn ripple_enabled(&self) -> (yes: bool)
        ensures
            yes == self.config.theme.ripple,
    {
        self.config.theme.ripple
    }

    pub fn blur_enabled(&self) -> (yes: bool)
        ensures
            yes == self.config.theme.blur,
    {
        self.config.theme.blur
    }

    /// The directory of the configuration file, as its path writes it.
    pub fn config_dir(&self) -> (dir: Option<String>)
        ensures
            chars_of(dir) == (match chars_of(self.config_path) {
                Some(path) => written_parent(path),
                None => None,
            }),
    {
        match &self.config_path {
            Some(path) => parent_as_written(path.as_str()),
            None => None,
        }
    }

    /// An option of a widget.
    pub fn get_widget_option(&self, widget_name: &str, option_name: &str) -> (value: Option<&ConfigOption>)
        ensures
            value is Some <==> self.config.widgets.widget_configs@.dom().contains(widget_name@)
                && self.config.widgets.widget_configs@[widget_name@].options@.dom().contains(option_name@),
            value is Some ==> *value->0 == self.config.widgets.widget_configs@[widget_name@].options@[option_name@],
    {
        match self.config.widgets.get_options(widget_name) {
            Some(options) => options.options.get_named(option_name),
            None => None,
        }
    }

    /// The commands for clicks on a widget with the right and the middle button.
    pub fn get_click_handlers(&self, widget_name: &str) -> (handlers: (Option<String>, Option<String>))
        ensures
            ({
                let configs = self.config.widgets.widget_configs@;
                if configs.dom().contains(widget_name@) {
                    chars_of(handlers.0) == chars_of(configs[widget_name@].on_click_right) && chars_of(handlers.1)
                        == chars_of(configs[widget_name@].on_click_middle)
                } else {
                    handlers.0 is None && handlers.1 is None
                }
            }),
    {
        match self.config.widgets.get_options(widget_name) {
            Some(options) => (options.on_click_right.clone(), options.on_click_middle.clone()),
            None => (None, None),
        }
    }

    /// The command that decides whether a widget is shown, and how often it is run; an interval of 0
    /// counts as none.
    pub fn get_show_if(&self, widget_name: &str) -> (condition: (Option<String>, Option<u64>))
        ensures
            ({
                let configs = self.config.widgets.widget_configs@;
                if configs.dom().contains(widget_name@) {
                    chars_of(condition.0) == chars_of(configs[widget_name@].show_if) && condition.1 == (
                    match configs[widget_name@].show_if_interval {
                        Some(n) => if n > 0 { Some(n) } else { None },
                        None => None,
                    })
                } else {
                    condition.0 is None && condition.1 is None
                }
            }),
    {
        match self.config.widgets.get_options(widget_name) {
            Some(options) => {
                let interval = match options.show_if_interval {
                    Some(n) => if n > 0 { Some(n) } else { None },
                    None => None,
                };
                (options.show_if.clone(), interval)
            }
            None => (None, None),
        }
    }
}

/// What the watcher of the configuration tells.
#[derive(Debug)]
pub enum ConfigMessage {
    /// A new configuration was read.
    Reloaded(Config),
    /// The configuration changed, but cannot be used; the old one stays.
    Error(String),
    /// A style sheet changed.
    StyleCssChanged,
}

/// What is told after the configuration was read: the new one, or why it cannot be used. `problem`
/// is what is wrong with a configuration that could be read.
pub fn reload_message(read: Result<Config, String>, problem: Option<String>) -> (message: ConfigMessage)
    ensures
        match read {
            Err(e) => message is Error && message->Error_0@ == "Failed to reload config: "@ + e@,
            Ok(config) => match problem {
                Some(p) => message is Error && message->Error_0@ == "Config validation failed: "@ + p@,
                None => message == ConfigMessage::Reloaded(config),
            },
        },
{
    match read {
        Err(e) => ConfigMessage::Error(text::joined("Failed to reload config: ", e.as_str())),
        Ok(config) => match problem {
            Some(p) => ConfigMessage::Error(text::joined("Config validation failed: ", p.as_str())),
            None => ConfigMessage::Reloaded(config),
        },
    }
}

/// What follows a message of the watcher.
#[derive(Debug)]
pub enum MessageStep {
    /// The configuration stays as it is; the error is told.
    Keep { error: String },
    /// Another configuration takes its place. The audio service gets its limit first, the plan is
    /// carried out, and the weather service gets its settings.
    Apply { config: Config, plan: ApplyPlan, allow_overdrive: bool, weather: ResolvedWeatherConfig },
    /// The style sheet is loaded again.
    LoadStyles,
}

impl MessageStep {
    /// The configuration after the step.
    pub open spec fn leaves(self, config: Config) -> Config {
        match self {
            MessageStep::Apply { config: new_config, .. } => new_config,
            _ => config,
        }
    }
}

/// Whether the settings of the weather service are those of a configuration.
pub open spec fn weather_from(weather: ResolvedWeatherConfig, config: Config) -> bool {
    &&& weather.enabled == weather_enabled(config.widgets)
    &&& weather.auto_locate == config.weather.auto_locate
    &&& weather.latitude == config.weather.latitude
    &&& weather.longitude == config.weather.longitude
    &&& chars_of(weather.location) == chars_of(config.weather.location)
    &&& weather.units == config.weather.units
    &&& chars_of(weather.wind_units) == chars_of(config.weather.wind_units)
    &&& weather.refresh_interval == config.weather.refresh_interval
}

impl ConfigManager {
    /// What follows a message of the watcher. An error changes nothing.
    pub fn handle_config_message(&self, message: ConfigMessage) -> (step: MessageStep)
        ensures
            match message {
                ConfigMessage::Reloaded(new_config) => {
                    &&& step is Apply
                    &&& step->config == new_config
                    &&& step->plan == planned(self.config, new_config)
                    &&& step->allow_overdrive == new_config.allow_overdrive
                    &&& weather_from(step->weather, new_config)
                    &&& step.leaves(self.config) == new_config
                },
                ConfigMessage::Error(error) => {
                    &&& step == (MessageStep::Keep { error })
                    &&& step.leaves(self.config) == self.config
                },
                ConfigMessage::StyleCssChanged => {
                    &&& step is LoadStyles
                    &&& step.leaves(self.config) == self.config
                },
            },
    {
        match message {
            ConfigMessage::Reloaded(config) => {
                let plan = plan_config(&self.config, &config);
                let weather = weather_config_from_config(&config);
                let allow_overdrive = config.allow_overdrive;
                MessageStep::Apply { config, plan, allow_overdrive, weather }
            }
            ConfigMessage::Error(error) => MessageStep::Keep { error },
            ConfigMessage::StyleCssChanged => MessageStep::LoadStyles,
        }
    }
}

/// What a new configuration asks for, change by change. Icons are set up for another theme or weight. Colours come from
/// a picture in the automatic mode: from a new one where the mode or the picture is new, else from the last. The
/// wallpaper is looked for where none is named, and forgotten where it no longer counts.
pub proof fn changes_ask_for_what_they_touch(a: Config, b: Config)
    ensures
        ({
            let plan = planned(a, b);
            let auto = b.theme.mode@ == "auto"@;
            let was_auto = a.theme.mode@ == "auto"@;
            let other_picture = chars_of(a.theme.wallpaper) != chars_of(b.theme.wallpaper);
            let follows = auto && b.theme.wallpaper is None;
            &&& plan.icons <==> a.theme.icons.theme@ != b.theme.icons.theme@ || a.theme.icons.weight != b.theme.icons.weight
            &&& plan.detect_wallpaper <==> follows && (!was_auto || other_picture)
            &&& plan.theme is Some <==> theme_changed(a, b)
            &&& plan.theme == Some(Source::Plain) <==> theme_changed(a, b) && !auto
            &&& plan.theme == Some(Source::Image) <==> theme_changed(a, b) && auto && (!was_auto || other_picture)
            &&& plan.theme == Some(Source::Cached) <==> theme_changed(a, b) && auto && was_auto && !other_picture
            &&& plan.battery_alert <==> a.battery_alert != b.battery_alert
            &&& plan.polling <==> a.theme.mode@ != b.theme.mode@ || other_picture
            &&& plan.forget_wallpaper <==> (a.theme.mode@ != b.theme.mode@ || other_picture) && !follows
            &&& plan.rebuild <==> structure_changed(a, b)
            &&& plan.load_css <==> structure_changed(a, b) && !theme_changed(a, b)
            &&& plan.notify <==> theme_changed(a, b)
        }),
{
}

/// The first output that is named is the one whose wallpaper counts.
pub proof fn the_first_output_counts(outputs: Seq<String>)
    ensures
        outputs.len() > 0 ==> first_output(outputs) == Some(outputs[0]@),
        outputs.len() == 0 ==> first_output(outputs) is None,
{
}

/// The weather service works with the settings of the configuration, each with its own.
pub proof fn weather_is_set_up_as_configured(weather: ResolvedWeatherConfig, config: Config)
    requires
        weather_from(weather, config),
    ensures
        weather.enabled == weather_enabled(config.widgets),
        weather.auto_locate == config.weather.auto_locate,
        weather.latitude == config.weather.latitude,
        weather.longitude == config.weather.longitude,
        chars_of(weather.location) == chars_of(config.weather.location),
        weather.units == config.weather.units,
        chars_of(weather.wind_units) == chars_of(config.weather.wind_units),
        weather.refresh_interval == config.weather.refresh_interval,
{
}

/// Only a configuration that is applied takes the place of the last one.
pub proof fn configurations_stay_until_applied(step: MessageStep, config: Config)
    ensures
        step is Apply ==> step.leaves(config) == step->config,
        !(step is Apply) ==> step.leaves(config) == config,
{
}

} // verus!
