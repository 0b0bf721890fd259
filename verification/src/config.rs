//! Pinned-app entries of the dock configuration, the configuration's default
//! values, and the rules that check a configuration.

use vstd::prelude::*;
use vstd::string::*;

verus! {

// ── Default values ────────────────────────────────────────────────────────────

/// Default length of the visibility and zoom animations, in milliseconds.
pub fn default_animation_duration() -> (r: u64)
    ensures
        r == 200,
{
    200
}

/// Default for the switches that are on unless configured otherwise.
pub fn default_true() -> (r: bool)
    ensures
        r,
{
    true
}

/// Default delay before the dock hides, in milliseconds.
pub fn default_hide_delay() -> (r: u64)
    ensures
        r == 500,
{
    500
}

/// Default time the cursor must rest at the bottom edge before the dock
/// appears, in milliseconds.
pub fn default_smart_trigger_delay() -> (r: u64)
    ensures
        r == 1000,
{
    1000
}

/// Default number of columns of a folder popup.
pub fn default_folder_columns() -> (r: u32)
    ensures
        r == 3,
{
    3
}

/// Default icon size inside a folder popup, in pixels.
pub fn default_folder_icon_size() -> (r: u32)
    ensures
        r == 48,
{
    48
}

// ── AppEntry ─────────────────────────────────────────────────────────────────

/// One item of the dock's pinned list.
#[derive(Debug)]
pub enum AppEntry {
    /// A launchable application.
    App {
        name: String,
        exec_line: String,
        args: String,
        icon: String,
        custom_icon_path: Option<String>,
        desktop_file: Option<String>,
    },
    /// A visual separator.
    Spacer,
    /// A folder groups multiple apps into a popup panel.
    /// Nested folders inside a folder are ignored.
    Folder { name: String, icon: Option<String>, apps: Vec<AppEntry>, show_miniatures: bool },
}

/// The name shown for an entry; a spacer is shown as `---Spacer---`.
pub open spec fn entry_name(e: AppEntry) -> Seq<char> {
    match e {
        AppEntry::App { name, .. } => name@,
        AppEntry::Spacer => "---Spacer---"@,
        AppEntry::Folder { name, .. } => name@,
    }
}

impl AppEntry {
    /// An app with the given name and every other field empty.
    pub fn new(name: String) -> (r: Self)
        ensures
            r matches AppEntry::App { name: n, exec_line, args, icon, custom_icon_path, desktop_file }
                && n == name && exec_line@.len() == 0 && args@.len() == 0 && icon@.len() == 0
                && custom_icon_path is None && desktop_file is None,
    {
        AppEntry::App {
            name,
            exec_line: String::new(),
            args: String::new(),
            icon: String::new(),
            custom_icon_path: None,
            desktop_file: None,
        }
    }

    /// A spacer.
    pub fn new_spacer() -> (r: Self)
        ensures
            r is Spacer,
    {
        AppEntry::Spacer
    }

    /// An empty folder with the given name, no icon and no miniatures.
    pub fn new_folder(name: String) -> (r: Self)
        ensures
            r matches AppEntry::Folder { name: n, icon, apps, show_miniatures }
                && n == name && icon is None && apps@.len() == 0 && !show_miniatures,
    {
        AppEntry::Folder { name, icon: None, apps: Vec::new(), show_miniatures: false }
    }

    /// Whether this entry is a spacer.
    pub fn is_spacer(&self) -> (r: bool)
        ensures
            r == (*self is Spacer),
    {
        match self {
            AppEntry::Spacer => true,
            _ => false,
        }
    }

    /// Whether this entry is a folder.
    pub fn is_folder(&self) -> (r: bool)
        ensures
            r == (*self is Folder),
    {
        match self {
            AppEntry::Folder { .. } => true,
            _ => false,
        }
    }

    /// The entry's name; a spacer answers `---Spacer---`.
    pub fn name(&self) -> (r: &str)
        ensures
            r@ == entry_name(*self),
    {
        match self {
            AppEntry::App { name, .. } => name.as_str(),
            AppEntry::Spacer => "---Spacer---",
            AppEntry::Folder { name, .. } => name.as_str(),
        }
    }

    /// The name that can be edited, for apps and folders.
    pub fn name_mut(&mut self) -> (r: Option<&mut String>)
        ensures
            (*old(self) is Spacer) <==> r is None,
            r is None ==> *final(self) == *old(self),
            match r {
                Some(n) => match *old(self) {
                    AppEntry::App { name, exec_line, args, icon, custom_icon_path, desktop_file } =>
                        *n == name && *final(self) == (AppEntry::App {
                            name: *final(n), exec_line, args, icon, custom_icon_path, desktop_file,
                        }),
                    AppEntry::Folder { name, icon, apps, show_miniatures } =>
                        *n == name && *final(self) == (AppEntry::Folder {
                            name: *final(n), icon, apps, show_miniatures,
                        }),
                    AppEntry::Spacer => false,
                },
                None => true,
            },
    {
        match self {
            AppEntry::App { name, .. } => Some(name),
            AppEntry::Folder { name, .. } => Some(name),
            AppEntry::Spacer => None,
        }
    }

    /// The command of an app.
    pub fn exec_mut(&mut self) -> (r: Option<&mut String>)
        ensures
            (*old(self) is App) <==> r is Some,
            r is None ==> *final(self) == *old(self),
            match r {
                Some(x) => match *old(self) {
                    AppEntry::App { name, exec_line, args, icon, custom_icon_path, desktop_file } =>
                        *x == exec_line && *final(self) == (AppEntry::App {
                            name, exec_line: *final(x), args, icon, custom_icon_path, desktop_file,
                        }),
                    _ => false,
                },
                None => true,
            },
    {
        match self {
            AppEntry::App { exec_line, .. } => Some(exec_line),
            _ => None,
        }
    }

    /// The extra arguments of an app.
    pub fn args_mut(&mut self) -> (r: Option<&mut String>)
        ensures
            (*old(self) is App) <==> r is Some,
            r is None ==> *final(self) == *old(self),
            match r {
                Some(x) => match *old(self) {
                    AppEntry::App { name, exec_line, args, icon, custom_icon_path, desktop_file } =>
                        *x == args && *final(self) == (AppEntry::App {
                            name, exec_line, args: *final(x), icon, custom_icon_path, desktop_file,
                        }),
                    _ => false,
                },
                None => true,
            },
    {
        match self {
            AppEntry::App { args, .. } => Some(args),
            _ => None,
        }
    }

    /// The icon-theme name of an app.
    pub fn icon_mut(&mut self) -> (r: Option<&mut String>)
        ensures
            (*old(self) is App) <==> r is Some,
            r is None ==> *final(self) == *old(self),
            match r {
                Some(x) => match *old(self) {
                    AppEntry::App { name, exec_line, args, icon, custom_icon_path, desktop_file } =>
                        *x == icon && *final(self) == (AppEntry::App {
                            name, exec_line, args, icon: *final(x), custom_icon_path, desktop_file,
                        }),
                    _ => false,
                },
                None => true,
            },
    {
        match self {
            AppEntry::App { icon, .. } => Some(icon),
            _ => None,
        }
    }

    /// The icon of a folder.
    pub fn folder_icon_mut(&mut self) -> (r: Option<&mut Option<String>>)
        ensures
            (*old(self) is Folder) <==> r is Some,
            r is None ==> *final(self) == *old(self),
            match r {
                Some(x) => match *old(self) {
                    AppEntry::Folder { name, icon, apps, show_miniatures } =>
                        *x == icon && *final(self) == (AppEntry::Folder {
                            name, icon: *final(x), apps, show_miniatures,
                        }),
                    _ => false,
                },
                None => true,
            },
    {
        match self {
            AppEntry::Folder { icon, .. } => Some(icon),
            _ => None,
        }
    }

    /// The custom icon file of an app.
    pub fn custom_icon_path_mut(&mut self) -> (r: Option<&mut Option<String>>)
        ensures
            (*old(self) is App) <==> r is Some,
            r is None ==> *final(self) == *old(self),
            match r {
                Some(x) => match *old(self) {
                    AppEntry::App { name, exec_line, args, icon, custom_icon_path, desktop_file } =>
                        *x == custom_icon_path && *final(self) == (AppEntry::App {
                            name, exec_line, args, icon, custom_icon_path: *final(x), desktop_file,
                        }),
                    _ => false,
                },
                None => true,
            },
    {
        match self {
            AppEntry::App { custom_icon_path, .. } => Some(custom_icon_path),
            _ => None,
        }
    }

    /// The desktop file of an app.
    pub fn desktop_file_mut(&mut self) -> (r: Option<&mut Option<String>>)
        ensures
            (*old(self) is App) <==> r is Some,
            r is None ==> *final(self) == *old(self),
            match r {
                Some(x) => match *old(self) {
                    AppEntry::App { name, exec_line, args, icon, custom_icon_path, desktop_file } =>
                        *x == desktop_file && *final(self) == (AppEntry::App {
                            name, exec_line, args, icon, custom_icon_path, desktop_file: *final(x),
                        }),
                    _ => false,
                },
                None => true,
            },
    {
        match self {
            AppEntry::App { desktop_file, .. } => Some(desktop_file),
            _ => None,
        }
    }

    /// The apps inside a folder, for editing.
    pub fn folder_apps_mut(&mut self) -> (r: Option<&mut Vec<AppEntry>>)
        ensures
            (*old(self) is Folder) <==> r is Some,
            r is None ==> *final(self) == *old(self),
            match r {
                Some(x) => match *old(self) {
                    AppEntry::Folder { name, icon, apps, show_miniatures } =>
                        *x == apps && *final(self) == (AppEntry::Folder {
                            name, icon, apps: *final(x), show_miniatures,
                        }),
                    _ => false,
                },
                None => true,
            },
    {
        match self {
            AppEntry::Folder { apps, .. } => Some(apps),
            _ => None,
        }
    }

    /// Whether a folder shows miniatures of its apps, for editing.
    pub fn folder_show_miniatures_mut(&mut self) -> (r: Option<&mut bool>)
        ensures
            (*old(self) is Folder) <==> r is Some,
            r is None ==> *final(self) == *old(self),
            match r {
                Some(x) => match *old(self) {
                    AppEntry::Folder { name, icon, apps, show_miniatures } =>
                        *x == show_miniatures && *final(self) == (AppEntry::Folder {
                            name, icon, apps, show_miniatures: *final(x),
                        }),
                    _ => false,
                },
                None => true,
            },
    {
        match self {
            AppEntry::Folder { show_miniatures, .. } => Some(show_miniatures),
            _ => None,
        }
    }

    /// The apps inside a folder.
    pub fn folder_apps(&self) -> (r: Option<&Vec<AppEntry>>)
        ensures
            match *self {
                AppEntry::Folder { apps, .. } => r == Some(&apps),
                _ => r is None,
            },
    {
        match self {
            AppEntry::Folder { apps, .. } => Some(apps),
            _ => None,
        }
    }
}

// ── Placement and indicator style ────────────────────────────────────────────

/// The screen edge the dock is attached to.
#[derive(Debug, Clone, Copy, PartialEq, Eq, Structural)]
pub enum DockPosition {
    Top,
    Bottom,
    Left,
    Right,
}

/// How a running app is marked on the dock.
#[derive(Debug, Clone, Copy, PartialEq, Eq, Structural)]
pub enum ActiveIndicatorStyle {
    Dot,
    Underline,
    Border,
    Glow,
}

impl DockPosition {
    /// The position the settings button switches to: bottom, top, left, right,
    /// then bottom again.
    pub fn next(self) -> (r: Self)
        ensures
            r == (match self {
                DockPosition::Bottom => DockPosition::Top,
                DockPosition::Top => DockPosition::Left,
                DockPosition::Left => DockPosition::Right,
                DockPosition::Right => DockPosition::Bottom,
            }),
    {
        match self {
            DockPosition::Bottom => DockPosition::Top,
            DockPosition::Top => DockPosition::Left,
            DockPosition::Left => DockPosition::Right,
            DockPosition::Right => DockPosition::Bottom,
        }
    }
}

impl ActiveIndicatorStyle {
    /// The style the settings button switches to: dot, underline, border,
    /// glow, then dot again.
    pub fn next(self) -> (r: Self)
        ensures
            r == (match self {
                ActiveIndicatorStyle::Dot => ActiveIndicatorStyle::Underline,
                ActiveIndicatorStyle::Underline => ActiveIndicatorStyle::Border,
                ActiveIndicatorStyle::Border => ActiveIndicatorStyle::Glow,
                ActiveIndicatorStyle::Glow => ActiveIndicatorStyle::Dot,
            }),
    {
        match self {
            ActiveIndicatorStyle::Dot => ActiveIndicatorStyle::Underline,
            ActiveIndicatorStyle::Underline => ActiveIndicatorStyle::Border,
            ActiveIndicatorStyle::Border => ActiveIndicatorStyle::Glow,
            ActiveIndicatorStyle::Glow => ActiveIndicatorStyle::Dot,
        }
    }
}

impl Default for ActiveIndicatorStyle {
    /// A dot under the icon.
    fn default() -> (r: Self)
        ensures
            r == ActiveIndicatorStyle::Dot,
    {
        ActiveIndicatorStyle::Dot
    }
}

// ── Default pinned apps ──────────────────────────────────────────────────────

/// An app with a name and an icon-theme name, everything else empty.
pub open spec fn is_plain_app(e: AppEntry, name: Seq<char>, icon: Seq<char>) -> bool {
    e matches AppEntry::App { name: n, exec_line, args, icon: i, custom_icon_path, desktop_file }
        && n@ == name && i@ == icon && exec_line@.len() == 0 && args@.len() == 0
        && custom_icon_path is None && desktop_file is None
}

fn plain_app(name: &str, icon: &str) -> (r: AppEntry)
    ensures
        is_plain_app(r, name@, icon@),
{
    AppEntry::App {
        name: String::from_str(name),
        exec_line: String::new(),
        args: String::new(),
        icon: String::from_str(icon),
        custom_icon_path: None,
        desktop_file: None,
    }
}

/// The apps pinned on first run: Firefox, Files and Terminal.
pub fn default_pinned_apps() -> (r: Vec<AppEntry>)
    ensures
        r@.len() == 3,
        is_plain_app(r@[0], "Firefox"@, "firefox"@),
        is_plain_app(r@[1], "Files"@, "system-file-manager"@),
        is_plain_app(r@[2], "Terminal"@, "utilities-terminal"@),
{
    let mut v: Vec<AppEntry> = Vec::new();
    v.push(plain_app("Firefox", "firefox"));
    v.push(plain_app("Files", "system-file-manager"));
    v.push(plain_app("Terminal", "utilities-terminal"));
    v
}

// ── Validation ───────────────────────────────────────────────────────────────

/// Why a configuration is refused.
#[derive(Debug, Clone, Copy, PartialEq, Eq, Structural)]
pub enum ConfigError {
    IconSizeZero,
    DockHeightZero,
    OpacityOutOfRange,
    NegativeBorderRadius,
    AnimationDurationZero,
    ZoomBelowOne,
}

/// The first rule, in the order the checks are made, that the values break.
/// The three fractional settings are given by the outcome of their test:
/// `opacity_in_range` is "not below 0.0 and not above 1.0", `radius_non_negative`
/// is "not below 0.0", `zoom_at_least_one` is "not below 1.0".
pub open spec fn first_violation(
    icon_size: u32,
    dock_height: u32,
    opacity_in_range: bool,
    radius_non_negative: bool,
    animation_duration_ms: u64,
    zoom_at_least_one: bool,
) -> Option<ConfigError> {
    if icon_size == 0 {
        Some(ConfigError::IconSizeZero)
    } else if dock_height == 0 {
        Some(ConfigError::DockHeightZero)
    } else if !opacity_in_range {
        Some(ConfigError::OpacityOutOfRange)
    } else if !radius_non_negative {
        Some(ConfigError::NegativeBorderRadius)
    } else if animation_duration_ms == 0 {
        Some(ConfigError::AnimationDurationZero)
    } else if !zoom_at_least_one {
        Some(ConfigError::ZoomBelowOne)
    } else {
        None
    }
}

/// Checks configuration values in a fixed order and reports the first rule
/// that they break.
pub fn validate_settings(
    icon_size: u32,
    dock_height: u32,
    opacity_in_range: bool,
    radius_non_negative: bool,
    animation_duration_ms: u64,
    zoom_at_least_one: bool,
) -> (r: Result<(), ConfigError>)
    ensures
        r is Ok <==> first_violation(icon_size, dock_height, opacity_in_range, radius_non_negative,
            animation_duration_ms, zoom_at_least_one) is None,
        r matches Err(e) ==> first_violation(icon_size, dock_height, opacity_in_range,
            radius_non_negative, animation_duration_ms, zoom_at_least_one) == Some(e),
{
    if icon_size == 0 {
        return Err(ConfigError::IconSizeZero);
    }
    if dock_height == 0 {
        return Err(ConfigError::DockHeightZero);
    }
    if !opacity_in_range {
        return Err(ConfigError::OpacityOutOfRange);
    }
    if !radius_non_negative {
        return Err(ConfigError::NegativeBorderRadius);
    }
    if animation_duration_ms == 0 {
        return Err(ConfigError::AnimationDurationZero);
    }
    if !zoom_at_least_one {
        return Err(ConfigError::ZoomBelowOne);
    }
    Ok(())
}

/// The message shown for each refused rule.
pub open spec fn error_text(e: ConfigError) -> Seq<char> {
    match e {
        ConfigError::IconSizeZero => "icon_size must be greater than 0"@,
        ConfigError::DockHeightZero => "dock_height must be greater than 0"@,
        ConfigError::OpacityOutOfRange => "background_opacity must be between 0.0 and 1.0"@,
        ConfigError::NegativeBorderRadius => "border_radius cannot be negative"@,
        ConfigError::AnimationDurationZero => "animation_duration_ms must be greater than 0"@,
        ConfigError::ZoomBelowOne => "icon_zoom_on_hover must be at least 1.0"@,
    }
}

impl ConfigError {
    /// The human-readable message for this error.
    pub fn message(&self) -> (r: String)
        ensures
            r@ == error_text(*self),
    {
        match self {
            ConfigError::IconSizeZero => String::from_str("icon_size must be greater than 0"),
            ConfigError::DockHeightZero => String::from_str("dock_height must be greater than 0"),
            ConfigError::OpacityOutOfRange => String::from_str(
                "background_opacity must be between 0.0 and 1.0",
            ),
            ConfigError::NegativeBorderRadius => String::from_str("border_radius cannot be negative"),
            ConfigError::AnimationDurationZero => String::from_str(
                "animation_duration_ms must be greater than 0",
            ),
            ConfigError::ZoomBelowOne => String::from_str("icon_zoom_on_hover must be at least 1.0"),
        }
    }
}

} // verus!
