//! How the daemon's configuration is put together: the config file's
//! values over the built-in defaults, command-line flags over both, and the
//! choice of the config file itself.

use vstd::prelude::*;

use crate::cli::Args;
use crate::config::{config_result, is_default_config, ConfigError, CoreConfig};
use crate::foreground::opt_text;
use crate::hyprland::same_text;
use crate::text::parse_unsigned;
use crate::text::parsed_unsigned;

verus! {

/// The engine settings a config file may set; absent keys keep the
/// built-in value.
#[derive(Debug, Clone, Default)]
pub struct CoreFileConfig {
    pub mode: Option<String>,
    pub deadzone_units: Option<i32>,
    pub full_speed_units: Option<i32>,
    pub max_offset_units: Option<i32>,
    pub scroll_speed_step_distances: Option<Vec<i32>>,
    pub tick_hz: Option<u32>,
    pub invert_vertical: Option<bool>,
    pub invert_horizontal: Option<bool>,
    pub suppress_motion_while_pending: Option<bool>,
    pub suppress_motion_while_scrolling: Option<bool>,
    pub replay_pending_motion_on_click: Option<bool>,
    pub emit_hires_wheel: Option<bool>,
    pub emit_legacy_wheel: Option<bool>,
    pub min_hires_units_per_event: Option<i32>,
    pub horizontal_scroll: Option<bool>,
    pub max_detents_per_tick: Option<i32>,
}

/// The daemon settings a config file may set.
#[derive(Debug, Clone, Default)]
pub struct DaemonFileConfig {
    pub device: Option<String>,
    pub grab: Option<bool>,
    pub dry_run: Option<bool>,
    pub safety_timeout_seconds: Option<u64>,
    pub core: CoreFileConfig,
}

/// The configuration the daemon runs with.
#[derive(Debug, Clone)]
pub struct ResolvedConfig {
    pub core: CoreConfig,
    pub device: Option<String>,
    pub grab: bool,
    pub dry_run: bool,
    pub safety_timeout_seconds: Option<u64>,
}

/// The value set in the file, or else the base value.
pub open spec fn or_base<T>(set: Option<T>, base: T) -> T {
    match set {
        Some(v) => v,
        None => base,
    }
}

/// `r` is `base` with every value that `f` sets replaced.
pub open spec fn is_override(r: CoreConfig, f: CoreFileConfig, base: CoreConfig) -> bool {
    &&& opt_text(r.mode) == (match f.mode {
        Some(m) => Some(m@),
        None => opt_text(base.mode),
    })
    &&& r.deadzone_units == or_base(f.deadzone_units, base.deadzone_units)
    &&& r.full_speed_units == or_base(f.full_speed_units, base.full_speed_units)
    &&& r.max_offset_units == or_base(f.max_offset_units, base.max_offset_units)
    &&& r.scroll_speed_step_distances@ == (match f.scroll_speed_step_distances {
        Some(v) => v@,
        None => base.scroll_speed_step_distances@,
    })
    &&& r.tick_hz == or_base(f.tick_hz, base.tick_hz)
    &&& r.invert_vertical == or_base(f.invert_vertical, base.invert_vertical)
    &&& r.invert_horizontal == or_base(f.invert_horizontal, base.invert_horizontal)
    &&& r.suppress_motion_while_pending == or_base(
        f.suppress_motion_while_pending,
        base.suppress_motion_while_pending,
    )
    &&& r.suppress_motion_while_scrolling == or_base(
        f.suppress_motion_while_scrolling,
        base.suppress_motion_while_scrolling,
    )
    &&& r.replay_pending_motion_on_click == or_base(
        f.replay_pending_motion_on_click,
        base.replay_pending_motion_on_click,
    )
    &&& r.emit_hires_wheel == or_base(f.emit_hires_wheel, base.emit_hires_wheel)
    &&& r.emit_legacy_wheel == or_base(f.emit_legacy_wheel, base.emit_legacy_wheel)
    &&& r.min_hires_units_per_event == or_base(
        f.min_hires_units_per_event,
        base.min_hires_units_per_event,
    )
    &&& r.horizontal_scroll == or_base(f.horizontal_scroll, base.horizontal_scroll)
    &&& r.max_detents_per_tick == or_base(f.max_detents_per_tick, base.max_detents_per_tick)
}

/// The value set, or else the base value.
fn pick<T>(set: Option<T>, base: T) -> (r: T)
    ensures
        r == or_base(set, base),
{
    match set {
        Some(v) => v,
        None => base,
    }
}

impl CoreFileConfig {
    /// `base` with every value this file sets replaced.
    pub fn into_core(self, base: CoreConfig) -> (r: CoreConfig)
        ensures
            is_override(r, self, base),
    {
        CoreConfig {
            mode: match self.mode {
                Some(m) => Some(m),
                None => base.mode,
            },
            deadzone_units: pick(self.deadzone_units, base.deadzone_units),
            full_speed_units: pick(self.full_speed_units, base.full_speed_units),
            max_offset_units: pick(self.max_offset_units, base.max_offset_units),
            scroll_speed_step_distances: pick(
                self.scroll_speed_step_distances,
                base.scroll_speed_step_distances,
            ),
            tick_hz: pick(self.tick_hz, base.tick_hz),
            invert_vertical: pick(self.invert_vertical, base.invert_vertical),
            invert_horizontal: pick(self.invert_horizontal, base.invert_horizontal),
            suppress_motion_while_pending: pick(
                self.suppress_motion_while_pending,
                base.suppress_motion_while_pending,
            ),
            suppress_motion_while_scrolling: pick(
                self.suppress_motion_while_scrolling,
                base.suppress_motion_while_scrolling,
            ),
            replay_pending_motion_on_click: pick(
                self.replay_pending_motion_on_click,
                base.replay_pending_motion_on_click,
            ),
            emit_hires_wheel: pick(self.emit_hires_wheel, base.emit_hires_wheel),
            emit_legacy_wheel: pick(self.emit_legacy_wheel, base.emit_legacy_wheel),
            min_hires_units_per_event: pick(
                self.min_hires_units_per_event,
                base.min_hires_units_per_event,
            ),
            horizontal_scroll: pick(self.horizontal_scroll, base.horizontal_scroll),
            max_detents_per_tick: pick(self.max_detents_per_tick, base.max_detents_per_tick),
        }
    }
}

/// The resolved configuration for the command line and the config file
/// (when one was read): defaults, overridden by the file, overridden by
/// the flags; `None` when the engine configuration breaks a rule.
pub open spec fn resolved_ok(args: Args, file: Option<DaemonFileConfig>, r: ResolvedConfig) -> bool {
    let file_device = match file {
        Some(f) => opt_text(f.device),
        None => None,
    };
    let file_grab = match file {
        Some(f) => or_base(f.grab, true),
        None => true,
    };
    let file_dry_run = match file {
        Some(f) => or_base(f.dry_run, false),
        None => false,
    };
    let file_timeout = match file {
        Some(f) => f.safety_timeout_seconds,
        None => None,
    };
    &&& opt_text(r.device) == (match args.device {
        Some(d) => Some(d@),
        None => file_device,
    })
    &&& r.grab == (file_grab && !args.no_grab)
    &&& r.dry_run == (file_dry_run || args.dry_run)
    &&& r.safety_timeout_seconds == (match args.safety_timeout_seconds {
        Some(t) => Some(t),
        None => file_timeout,
    })
}

/// The engine configuration resolved from the file: the defaults with the
/// file's values.
pub open spec fn resolved_core(file: Option<DaemonFileConfig>, core: CoreConfig) -> bool {
    match file {
        Some(f) => exists|d: CoreConfig| is_default_config(d) && is_override(core, f.core, d),
        None => is_default_config(core),
    }
}

/// Combines defaults, the config file and the command line, then checks
/// the engine configuration.
pub fn resolve(args: &Args, file: Option<DaemonFileConfig>) -> (r: Result<ResolvedConfig, ConfigError>)
    ensures
        match r {
            Ok(c) => resolved_ok(*args, file, c) && resolved_core(file, c.core) && config_result(
                c.core,
            ) is Ok,
            Err(e) => exists|core: CoreConfig|
                resolved_core(file, core) && config_result(core) == Err::<(), ConfigError>(e),
        },
{
    let base = CoreConfig::default();
    let ghost defaults = base;
    let mut core = base;
    let mut device: Option<String> = None;
    let mut grab = true;
    let mut dry_run = false;
    let mut safety_timeout_seconds: Option<u64> = None;
    let ghost file0 = file;
    if let Some(f) = file {
        core = f.core.into_core(core);
        if let Some(v) = f.device {
            device = Some(v);
        }
        if let Some(v) = f.grab {
            grab = v;
        }
        if let Some(v) = f.dry_run {
            dry_run = v;
        }
        if let Some(v) = f.safety_timeout_seconds {
            safety_timeout_seconds = Some(v);
        }
    }
    proof {
        if file0 is Some {
            assert(is_default_config(defaults) && is_override(core, file0->0.core, defaults));
        }
    }
    if let Some(v) = &args.device {
        device = Some(v.clone());
    }
    if args.no_grab {
        grab = false;
    }
    if args.dry_run {
        dry_run = true;
    }
    if let Some(v) = args.safety_timeout_seconds {
        safety_timeout_seconds = Some(v);
    }
    match core.validate() {
        Ok(()) => Ok(ResolvedConfig { core, device, grab, dry_run, safety_timeout_seconds }),
        Err(e) => Err(e),
    }
}

/// The config file to use: the one given on the command line, else the
/// invoking user's when running under `sudo`, else the default location.
pub open spec fn chosen_config_path(
    explicit: Option<Seq<char>>,
    sudo_user_path: Option<Seq<char>>,
    default_path: Option<Seq<char>>,
) -> Option<Seq<char>> {
    match explicit {
        Some(p) => Some(p),
        None => match sudo_user_path {
            Some(p) => Some(p),
            None => default_path,
        },
    }
}

pub fn effective_config_path(
    args: &Args,
    sudo_user_path: Option<String>,
    default_path: Option<String>,
) -> (r: Option<String>)
    ensures
        opt_text(r) == chosen_config_path(
            opt_text(args.config),
            opt_text(sudo_user_path),
            opt_text(default_path),
        ),
{
    match &args.config {
        Some(p) => Some(p.clone()),
        None => match sudo_user_path {
            Some(p) => Some(p),
            None => default_path,
        },
    }
}

/// The user named by `SUDO_USER` whose configuration to use: set, not
/// empty, and not `root`.
pub open spec fn sudo_target(sudo_user: Option<Seq<char>>) -> Option<Seq<char>> {
    match sudo_user {
        Some(u) => if u.len() == 0 || u == "root"@ {
            None
        } else {
            Some(u)
        },
        None => None,
    }
}

pub fn sudo_user_name(sudo_user: Option<String>) -> (r: Option<String>)
    ensures
        opt_text(r) == sudo_target(opt_text(sudo_user)),
{
    match sudo_user {
        Some(u) => {
            if u.as_str().unicode_len() == 0 || same_text(u.as_str(), "root") {
                None
            } else {
                Some(u)
            }
        },
        None => None,
    }
}

/// `base` joined with a path component, as a path join does: an absolute
/// component replaces `base`; otherwise a separator is inserted unless
/// `base` is empty or already ends with one.
pub open spec fn join_path(base: Seq<char>, component: Seq<char>) -> Seq<char> {
    if component.len() > 0 && component[0] == '/' {
        component
    } else if base.len() == 0 {
        component
    } else if base.last() == '/' {
        base + component
    } else {
        base + "/"@ + component
    }
}

pub fn join(base: String, component: &str) -> (r: String)
    ensures
        r@ == join_path(base@, component@),
{
    if component.unicode_len() > 0 && component.get_char(0) == '/' {
        return String::from_str(component);
    }
    let n = base.as_str().unicode_len();
    if n == 0 {
        String::from_str(component)
    } else if base.as_str().get_char(n - 1) == '/' {
        base.concat(component)
    } else {
        base.concat("/").concat(component)
    }
}

/// The configuration file inside a configuration base directory (such as
/// `~/.config`): one lowercase directory for every way of running.
pub open spec fn config_file_under(config_home: Seq<char>) -> Seq<char> {
    join_path(join_path(config_home, "wayland-wheeltani"@), "config.toml"@)
}

/// The configuration file in the capitalised legacy directory, still read
/// when it is the only one present.
pub open spec fn legacy_config_file_under(config_home: Seq<char>) -> Seq<char> {
    join_path(join_path(config_home, "Wayland-Wheeltani"@), "config.toml"@)
}

/// The configuration file inside a user's home directory.
pub open spec fn user_config_file(home: Seq<char>) -> Seq<char> {
    config_file_under(join_path(home, ".config"@))
}

/// The legacy configuration file inside a user's home directory.
pub open spec fn legacy_user_config_file(home: Seq<char>) -> Seq<char> {
    legacy_config_file_under(join_path(home, ".config"@))
}

pub fn config_file_path(config_home: String) -> (r: String)
    ensures
        r@ == config_file_under(config_home@),
{
    proof {
        reveal_strlit("wayland-wheeltani");
        reveal_strlit("config.toml");
    }
    join(join(config_home, "wayland-wheeltani"), "config.toml")
}

pub fn legacy_config_file_path(config_home: String) -> (r: String)
    ensures
        r@ == legacy_config_file_under(config_home@),
{
    proof {
        reveal_strlit("Wayland-Wheeltani");
        reveal_strlit("config.toml");
    }
    join(join(config_home, "Wayland-Wheeltani"), "config.toml")
}

pub fn user_config_path(home: String) -> (r: String)
    ensures
        r@ == user_config_file(home@),
{
    proof {
        reveal_strlit(".config");
    }
    config_file_path(join(home, ".config"))
}

pub fn legacy_user_config_path(home: String) -> (r: String)
    ensures
        r@ == legacy_user_config_file(home@),
{
    proof {
        reveal_strlit(".config");
    }
    legacy_config_file_path(join(home, ".config"))
}

/// What became of the legacy configuration directory when choosing the
/// file to read.
#[derive(Debug, Clone, Copy, PartialEq, Eq, Structural)]
pub enum LegacyConfig {
    /// There is no legacy file.
    Absent,
    /// The legacy file is read: it is the only one present.
    InUse,
    /// Both files exist; the current one is read and the legacy one ignored.
    Shadowed,
}

/// The file to read: the legacy one only when it exists and the current
/// one does not.
pub open spec fn chosen_config_file(
    current: Seq<char>,
    legacy: Seq<char>,
    current_exists: bool,
    legacy_exists: bool,
) -> Seq<char> {
    if legacy_exists && !current_exists {
        legacy
    } else {
        current
    }
}

pub open spec fn legacy_status(current_exists: bool, legacy_exists: bool) -> LegacyConfig {
    if !legacy_exists {
        LegacyConfig::Absent
    } else if current_exists {
        LegacyConfig::Shadowed
    } else {
        LegacyConfig::InUse
    }
}

/// Chooses between the current and the legacy configuration file, given
/// which of them exist, and reports what became of the legacy one.
pub fn choose_config_file(
    current: String,
    legacy: String,
    current_exists: bool,
    legacy_exists: bool,
) -> (r: (String, LegacyConfig))
    ensures
        r.0@ == chosen_config_file(current@, legacy@, current_exists, legacy_exists),
        r.1 == legacy_status(current_exists, legacy_exists),
{
    if !legacy_exists {
        (current, LegacyConfig::Absent)
    } else if current_exists {
        (current, LegacyConfig::Shadowed)
    } else {
        (legacy, LegacyConfig::InUse)
    }
}

/// The owner (uid, gid) to give written files when running under `sudo`:
/// both `SUDO_UID` and `SUDO_GID` set to unsigned 32-bit numbers.
pub fn sudo_owner(sudo_uid: Option<String>, sudo_gid: Option<String>) -> (r: Option<(u32, u32)>)
    ensures
        r matches Some((uid, gid)) ==> sudo_uid matches Some(u) && sudo_gid matches Some(g)
            && parsed_unsigned(u@, u32::MAX as int) == Some(uid as int) && parsed_unsigned(
            g@,
            u32::MAX as int,
        ) == Some(gid as int),
        r is None ==> match (sudo_uid, sudo_gid) {
            (Some(u), Some(g)) => parsed_unsigned(u@, u32::MAX as int) is None || parsed_unsigned(
                g@,
                u32::MAX as int,
            ) is None,
            _ => true,
        },
{
    let uid = match &sudo_uid {
        Some(u) => parse_unsigned(u.as_str(), u32::MAX as u64),
        None => return None,
    };
    let gid = match &sudo_gid {
        Some(g) => parse_unsigned(g.as_str(), u32::MAX as u64),
        None => return None,
    };
    match (uid, gid) {
        (Some(u), Some(g)) => Some((u as u32, g as u32)),
        _ => None,
    }
}

} // verus!
