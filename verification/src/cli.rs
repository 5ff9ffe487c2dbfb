//! Command-line options and the log filter they select.

use vstd::prelude::*;

verus! {

/// The daemon's command-line options. Paths are kept as UTF-8 text.
#[derive(Debug, Clone, PartialEq, Eq)]
pub struct Args {
    pub device: Option<String>,
    pub config: Option<String>,
    /// Interactively choose a mouse and save it to the config file, then exit.
    pub setup: bool,
    pub list_devices: bool,
    pub no_grab: bool,
    pub dry_run: bool,
    /// Never prompt interactively; fail if no device is configured.
    pub no_interactive: bool,
    pub verbose: u8,
    pub safety_timeout_seconds: Option<u64>,
}

/// The log filter for a verbosity level: info by default, debug with one
/// `-v`, trace with more.
pub open spec fn directive_for(verbose: u8) -> Seq<char> {
    if verbose == 0 {
        "wayland_wheeltani=info,middle_scroll_core=warn"@
    } else if verbose == 1 {
        "wayland_wheeltani=debug,middle_scroll_core=info"@
    } else {
        "wayland_wheeltani=trace,middle_scroll_core=trace"@
    }
}

impl Args {
    pub fn log_directive(&self) -> (d: &'static str)
        ensures
            d@ == directive_for(self.verbose),
    {
        match self.verbose {
            0 => "wayland_wheeltani=info,middle_scroll_core=warn",
            1 => "wayland_wheeltani=debug,middle_scroll_core=info",
            _ => "wayland_wheeltani=trace,middle_scroll_core=trace",
        }
    }
}

} // verus!
