//! Hyprland: the active window from `.socket2.sock` event lines, and where
//! that socket lives.

use vstd::prelude::*;

use crate::foreground::{non_empty, non_empty_string, opt_text, ForegroundApp, ForegroundSourceKind};
use crate::config_loader::{join, join_path};
use crate::text::{find, split_once, trim, trim_str};

verus! {

/// What an event line says about the active window: `None` unless it is an
/// `activewindow` event; otherwise its class and title. The data is
/// `WINDOWCLASS,WINDOWTITLE`, split at the first comma only (a title may
/// contain commas); both parts are trimmed, and empty parts are absent.
pub open spec fn active_window_of(line: Seq<char>) -> Option<(Option<Seq<char>>, Option<Seq<char>>)> {
    match split_once(line, ">>"@) {
        None => None,
        Some((event, data)) => if event != "activewindow"@ {
            None
        } else {
            Some(window_fields_of(data))
        },
    }
}

/// Whether two texts are equal, character by character.
pub fn same_text(a: &str, b: &str) -> (r: bool)
    ensures
        r == (a@ == b@),
{
    let n = a.unicode_len();
    if n != b.unicode_len() {
        return false;
    }
    let mut i: usize = 0;
    while i < n
        invariant
            n == a@.len(),
            n == b@.len(),
            i <= n,
            forall|k: int| 0 <= k < i ==> a@[k] == b@[k],
        decreases n - i,
    {
        if a.get_char(i) != b.get_char(i) {
            return false;
        }
        i += 1;
    }
    assert(a@ =~= b@);
    true
}

/// The class and title carried by `activewindow` data.
pub open spec fn window_fields_of(data: Seq<char>) -> (Option<Seq<char>>, Option<Seq<char>>) {
    match split_once(data, ","@) {
        Some((class, title)) => (non_empty(trim(class)), non_empty(trim(title))),
        None => (non_empty(trim(data)), None),
    }
}

fn window_fields(data: &str) -> (r: (Option<String>, Option<String>))
    ensures
        (opt_text(r.0), opt_text(r.1)) == window_fields_of(data@),
{
    let comma = ",";
    proof {
        reveal_strlit(",");
    }
    let n = data.unicode_len();
    match find(data, comma) {
        Some(q) => {
            let class = data.substring_char(0, q);
            let title = data.substring_char(q + 1, n);
            assert(split_once(data@, ","@) == Some((class@, title@)));
            (non_empty_string(trim_str(class)), non_empty_string(trim_str(title)))
        },
        None => (non_empty_string(trim_str(data)), None),
    }
}

/// Parses a single `.socket2.sock` line. Returns an app only for
/// `activewindow` events.
pub fn parse_event_line(line: &str) -> (r: Option<ForegroundApp>)
    ensures
        r is None <==> active_window_of(line@) is None,
        r matches Some(app) ==> {
            &&& active_window_of(line@) == Some((opt_text(app.class), opt_text(app.title)))
            &&& app.app_id is None
            &&& app.resource_class is None
            &&& app.pid is None
            &&& app.source == ForegroundSourceKind::Hyprland
        },
{
    let n = line.unicode_len();
    let sep = ">>";
    proof {
        reveal_strlit(">>");
    }
    let p = match find(line, sep) {
        Some(p) => p,
        None => return None,
    };
    let event = line.substring_char(0, p);
    let data = line.substring_char(p + 2, n);
    assert(split_once(line@, ">>"@) == Some((event@, data@)));
    let name = "activewindow";
    if !same_text(event, name) {
        return None;
    }
    let (class, title) = window_fields(data);
    assert(active_window_of(line@) == Some(window_fields_of(data@)));
    Some(
        ForegroundApp {
            app_id: None,
            class,
            resource_class: None,
            title,
            pid: None,
            source: ForegroundSourceKind::Hyprland,
        },
    )
}


/// A Hyprland instance signature is in use when it is set and not empty.
pub fn instance_signature(value: Option<String>) -> (r: Option<String>)
    ensures
        opt_text(r) == match opt_text(value) {
            Some(v) => non_empty(v),
            None => None,
        },
{
    match value {
        Some(v) => non_empty_string(v.as_str()),
        None => None,
    }
}

/// Where the event socket of an instance lives under the runtime directory.
pub open spec fn runtime_socket2(runtime_dir: Seq<char>, signature: Seq<char>) -> Seq<char> {
    join_path(join_path(join_path(runtime_dir, "hypr"@), signature), ".socket2.sock"@)
}

/// Where older Hyprland releases put the event socket.
pub open spec fn legacy_socket2(signature: Seq<char>) -> Seq<char> {
    join_path(join_path("/tmp/hypr"@, signature), ".socket2.sock"@)
}

pub fn runtime_socket2_path(runtime_dir: String, signature: &str) -> (r: String)
    ensures
        r@ == runtime_socket2(runtime_dir@, signature@),
{
    join(join(join(runtime_dir, "hypr"), signature), ".socket2.sock")
}

pub fn legacy_socket2_path(signature: &str) -> (r: String)
    ensures
        r@ == legacy_socket2(signature@),
{
    join(join(String::from_str("/tmp/hypr"), signature), ".socket2.sock")
}

/// The socket to connect to: the runtime-directory one when it exists,
/// otherwise the legacy location.
pub fn socket2_path(signature: &str, runtime_candidate: Option<String>, runtime_candidate_exists: bool) -> (r: String)
    ensures
        r@ == match runtime_candidate {
            Some(p) => if runtime_candidate_exists {
                p@
            } else {
                legacy_socket2(signature@)
            },
            None => legacy_socket2(signature@),
        },
{
    match runtime_candidate {
        Some(p) => if runtime_candidate_exists {
            p
        } else {
            legacy_socket2_path(signature)
        },
        None => legacy_socket2_path(signature),
    }
}

/// The first instance, from index `i` on, whose event socket exists.
pub open spec fn first_live_instance(instances: Seq<(String, bool)>, i: int) -> Option<Seq<char>>
    decreases instances.len() - i,
{
    if i < 0 || i >= instances.len() {
        None
    } else if instances[i].1 {
        Some(instances[i].0@)
    } else {
        first_live_instance(instances, i + 1)
    }
}

/// The event socket to use. With an instance signature set: the one under
/// the runtime directory when it exists, otherwise the legacy location.
/// Without one (as under a user service manager): the socket of the first
/// instance listed under `$XDG_RUNTIME_DIR/hypr` whose socket exists.
/// `instances` pairs each listed instance with whether its socket exists.
pub open spec fn discovered_socket2(
    signature: Option<Seq<char>>,
    runtime_dir: Option<Seq<char>>,
    runtime_candidate_exists: bool,
    instances: Seq<(String, bool)>,
) -> Option<Seq<char>> {
    match signature {
        Some(sig) => if sig.len() > 0 {
            match runtime_dir {
                Some(d) => if runtime_candidate_exists {
                    Some(runtime_socket2(d, sig))
                } else {
                    Some(legacy_socket2(sig))
                },
                None => Some(legacy_socket2(sig)),
            }
        } else {
            scanned_socket2(runtime_dir, instances)
        },
        None => scanned_socket2(runtime_dir, instances),
    }
}

/// The socket found by scanning the runtime directory's `hypr` entries.
pub open spec fn scanned_socket2(runtime_dir: Option<Seq<char>>, instances: Seq<(String, bool)>) -> Option<Seq<char>> {
    match runtime_dir {
        Some(d) => match first_live_instance(instances, 0) {
            Some(sig) => Some(runtime_socket2(d, sig)),
            None => None,
        },
        None => None,
    }
}

/// The socket of the first live instance listed under the runtime directory.
pub fn runtime_dir_socket2(runtime_dir: Option<String>, instances: &Vec<(String, bool)>) -> (r: Option<String>)
    ensures
        opt_text(r) == scanned_socket2(opt_text(runtime_dir), instances@),
{
    let ghost rt = opt_text(runtime_dir);
    let d = match runtime_dir {
        Some(d) => d,
        None => return None,
    };
    let mut i: usize = 0;
    while i < instances.len()
        invariant
            i <= instances@.len(),
            rt == Some(d@),
            rt == opt_text(runtime_dir),
            first_live_instance(instances@, 0) == first_live_instance(instances@, i as int),
        decreases instances@.len() - i,
    {
        if instances[i].1 {
            let sig = instances[i].0.as_str();
            assert(first_live_instance(instances@, i as int) == Some(sig@));
            return Some(runtime_socket2_path(d, sig));
        }
        i += 1;
    }
    None
}

/// The event socket from the value of `HYPRLAND_INSTANCE_SIGNATURE`, the
/// runtime directory, whether the signature's socket exists under it, and
/// the instances listed there.
pub fn socket2_choice(
    signature: Option<String>,
    runtime_dir: Option<String>,
    runtime_candidate_exists: bool,
    instances: &Vec<(String, bool)>,
) -> (r: Option<String>)
    ensures
        opt_text(r) == discovered_socket2(
            opt_text(signature),
            opt_text(runtime_dir),
            runtime_candidate_exists,
            instances@,
        ),
{
    match instance_signature(signature) {
        Some(sig) => {
            let candidate = match runtime_dir {
                Some(d) => Some(runtime_socket2_path(d, sig.as_str())),
                None => None,
            };
            Some(socket2_path(sig.as_str(), candidate, runtime_candidate_exists))
        },
        None => runtime_dir_socket2(runtime_dir, instances),
    }
}

/// True when an event socket was chosen (advertised or found) and exists.
pub fn is_available(socket: &Option<String>, socket_exists: bool) -> (b: bool)
    ensures
        b == (socket is Some && socket_exists),
{
    socket.is_some() && socket_exists
}
} // verus!
