use wayland_wheeltani::foreground::{next_backoff_millis, ForegroundApp, ForegroundSnapshot, ForegroundSourceKind};
use wayland_wheeltani::hyprland::{
    instance_signature, legacy_socket2_path, parse_event_line, runtime_dir_socket2,
    runtime_socket2_path, socket2_choice, socket2_path,
};
use wayland_wheeltani::sway::{
    decode_header, encode_msg, find_focused, native_order, u32_bytes, u32_of_bytes, ByteOrder, refresh, runtime_dir_socket, socket_name_matches,
    socket_path, TreeNode, WindowProperties, IPC_GET_TREE,
};

fn node(focused: bool) -> TreeNode {
    TreeNode {
        focused,
        app_id: None,
        name: None,
        pid: None,
        window_properties: None,
        nodes: Vec::new(),
        floating_nodes: Vec::new(),
    }
}

#[test]
fn parses_activewindow_class_and_title() {
    let app = parse_event_line("activewindow>>firefox,Mozilla Firefox").expect("parsed");
    assert_eq!(app.class.as_deref(), Some("firefox"));
    assert_eq!(app.title.as_deref(), Some("Mozilla Firefox"));
    assert_eq!(app.source, ForegroundSourceKind::Hyprland);
}

#[test]
fn parses_empty_activewindow() {
    let app = parse_event_line("activewindow>>,").expect("parsed");
    assert!(app.class.is_none());
    assert!(app.title.is_none());
}

#[test]
fn title_with_commas_is_kept_whole() {
    let app = parse_event_line("activewindow>>code,main.rs, project, vim").expect("parsed");
    assert_eq!(app.class.as_deref(), Some("code"));
    assert_eq!(app.title.as_deref(), Some("main.rs, project, vim"));
}

#[test]
fn ignores_other_events() {
    assert!(parse_event_line("windowtitlev2>>0x123,Title").is_none());
    assert!(parse_event_line("workspace>>1").is_none());
}

#[test]
fn activewindow_without_comma_has_only_a_class() {
    let app = parse_event_line("activewindow>>  kitty  ").expect("parsed");
    assert_eq!(app.class.as_deref(), Some("kitty"));
    assert!(app.title.is_none());
    assert!(parse_event_line("activewindow").is_none());
    assert!(parse_event_line("activewindowv2>>abc").is_none());
}

#[test]
fn hyprland_socket_locations() {
    assert_eq!(instance_signature(Some(String::new())), None);
    assert_eq!(instance_signature(Some("abc".to_owned())), Some("abc".to_owned()));
    assert_eq!(
        runtime_socket2_path("/run/user/1000".to_owned(), "abc"),
        "/run/user/1000/hypr/abc/.socket2.sock"
    );
    assert_eq!(legacy_socket2_path("abc"), "/tmp/hypr/abc/.socket2.sock");
    let runtime = Some("/run/user/1000/hypr/abc/.socket2.sock".to_owned());
    assert_eq!(socket2_path("abc", runtime.clone(), true), "/run/user/1000/hypr/abc/.socket2.sock");
    assert_eq!(socket2_path("abc", runtime, false), "/tmp/hypr/abc/.socket2.sock");
}

#[test]
fn finds_wayland_node_with_app_id() {
    let mut leaf = node(true);
    leaf.app_id = Some("org.mozilla.firefox".to_owned());
    leaf.name = Some("Firefox".to_owned());
    leaf.pid = Some(42);
    let mut middle = node(false);
    middle.nodes = vec![leaf];
    let mut tree = node(false);
    tree.nodes = vec![middle];

    let app = find_focused(&tree).expect("focused node");
    assert_eq!(app.app_id.as_deref(), Some("org.mozilla.firefox"));
    assert_eq!(app.title.as_deref(), Some("Firefox"));
    assert_eq!(app.pid, Some(42));
    assert_eq!(app.source, ForegroundSourceKind::Sway);
}

#[test]
fn finds_xwayland_node_with_window_properties() {
    let mut leaf = node(true);
    leaf.name = Some("Blender".to_owned());
    leaf.window_properties = Some(WindowProperties {
        class: Some("Blender".to_owned()),
        instance: Some("blender".to_owned()),
    });
    let mut tree = node(false);
    tree.nodes = vec![leaf];

    let app = find_focused(&tree).expect("focused node");
    assert_eq!(app.class.as_deref(), Some("Blender"));
    assert_eq!(app.resource_class.as_deref(), Some("blender"));
    assert!(app.app_id.is_none());
}

#[test]
fn returns_none_without_focused_node() {
    let mut tree = node(false);
    tree.nodes = vec![node(false)];
    assert!(find_focused(&tree).is_none());
}

#[test]
fn searches_floating_nodes() {
    let mut leaf = node(true);
    leaf.app_id = Some("mpv".to_owned());
    leaf.name = Some("video".to_owned());
    let mut tree = node(false);
    tree.floating_nodes = vec![leaf];

    let app = find_focused(&tree).expect("focused floating node");
    assert_eq!(app.app_id.as_deref(), Some("mpv"));
}

#[test]
fn tiled_nodes_are_searched_before_floating_ones() {
    let mut tiled = node(true);
    tiled.app_id = Some("tiled".to_owned());
    tiled.pid = Some(u64::from(u32::MAX) + 1);
    tiled.name = Some(String::new());
    let mut floating = node(true);
    floating.app_id = Some("floating".to_owned());
    let mut tree = node(false);
    tree.nodes = vec![node(false), tiled];
    tree.floating_nodes = vec![floating];

    let app = find_focused(&tree).expect("focused");
    assert_eq!(app.app_id.as_deref(), Some("tiled"));
    assert_eq!(app.pid, None);
    assert_eq!(app.title, None);
}

#[test]
fn sway_socket_prefers_swaysock() {
    let none: Vec<String> = Vec::new();
    let rt = Some("/run/user/1000".to_owned());
    let entries = vec!["sway-ipc.1000.77.sock".to_owned()];
    assert_eq!(
        socket_path(Some("/a".to_owned()), Some("/b".to_owned()), rt.clone(), &entries),
        Some("/a".to_owned())
    );
    assert_eq!(
        socket_path(Some(String::new()), Some("/b".to_owned()), rt.clone(), &entries),
        Some("/b".to_owned())
    );
    assert_eq!(socket_path(None, Some(String::new()), None, &none), None);
    assert_eq!(socket_path(None, Some(String::new()), rt, &none), None);
}

#[test]
fn sway_socket_found_in_runtime_dir_without_environment() {
    let rt = Some("/run/user/1000".to_owned());
    let entries = vec![
        "bus".to_owned(),
        "sway-ipc.sock".to_owned(),
        "sway-ipc.1000.1234.sock.lock".to_owned(),
        "sway-ipc.1000.1234.sock".to_owned(),
        "sway-ipc.1000.99.sock".to_owned(),
    ];
    assert_eq!(
        socket_path(None, None, rt.clone(), &entries),
        Some("/run/user/1000/sway-ipc.1000.1234.sock".to_owned())
    );
    assert_eq!(socket_path(None, None, None, &entries), None);
    assert_eq!(runtime_dir_socket(Some(String::new()), &entries), None);
    assert_eq!(runtime_dir_socket(rt, &vec!["wayland-1".to_owned()]), None);
    assert!(socket_name_matches("sway-ipc..sock"));
    assert!(!socket_name_matches("sway-ipc.sock"));
    assert!(!socket_name_matches("xsway-ipc.1.sock"));
}

#[test]
fn hyprland_socket_found_without_signature() {
    let rt = Some("/run/user/1000".to_owned());
    let instances = vec![("dead".to_owned(), false), ("live".to_owned(), true), ("other".to_owned(), true)];
    assert_eq!(
        socket2_choice(None, rt.clone(), false, &instances),
        Some("/run/user/1000/hypr/live/.socket2.sock".to_owned())
    );
    assert_eq!(
        socket2_choice(Some(String::new()), rt.clone(), false, &instances),
        Some("/run/user/1000/hypr/live/.socket2.sock".to_owned())
    );
    assert_eq!(socket2_choice(None, rt.clone(), false, &vec![("dead".to_owned(), false)]), None);
    assert_eq!(socket2_choice(None, None, false, &instances), None);
    assert_eq!(runtime_dir_socket2(rt.clone(), &Vec::new()), None);
    assert_eq!(
        socket2_choice(Some("abc".to_owned()), rt.clone(), true, &instances),
        Some("/run/user/1000/hypr/abc/.socket2.sock".to_owned())
    );
    assert_eq!(
        socket2_choice(Some("abc".to_owned()), rt, false, &instances),
        Some("/tmp/hypr/abc/.socket2.sock".to_owned())
    );
    assert_eq!(
        socket2_choice(Some("abc".to_owned()), None, true, &instances),
        Some("/tmp/hypr/abc/.socket2.sock".to_owned())
    );
}

#[test]
fn refresh_maps_query_results() {
    let app = ForegroundApp {
        app_id: Some("mpv".to_owned()),
        class: None,
        resource_class: None,
        title: None,
        pid: None,
        source: ForegroundSourceKind::Sway,
    };
    assert_eq!(refresh(Some(Some(app.clone()))), Some(ForegroundSnapshot::Known(app)));
    assert_eq!(
        refresh(Some(None)),
        Some(ForegroundSnapshot::Unknown {
            reason: "no focused window in sway tree".to_owned()
        })
    );
    assert_eq!(refresh(None), None);
}

#[test]
fn ipc_frames_round_trip_the_header() {
    let order = native_order();
    let buf = encode_msg(order, IPC_GET_TREE, b"[\"window\"]").expect("framed");
    assert_eq!(&buf[0..6], b"i3-ipc");
    assert_eq!(buf.len(), 14 + 10);
    assert_eq!(&buf[6..10], &10u32.to_ne_bytes());
    assert_eq!(&buf[10..14], &IPC_GET_TREE.to_ne_bytes());
    let mut header = [0u8; 14];
    header.copy_from_slice(&buf[0..14]);
    assert_eq!(decode_header(order, &header), Some((10, IPC_GET_TREE)));
    header[0] = b'x';
    assert_eq!(decode_header(order, &header), None);
}

#[test]
fn native_order_matches_the_machine() {
    let expected = if u32::from_ne_bytes([1, 0, 0, 0]) == 1 { ByteOrder::Little } else { ByteOrder::Big };
    assert_eq!(native_order(), expected);
}

#[test]
fn integers_in_both_byte_orders() {
    assert_eq!(u32_bytes(ByteOrder::Little, 0x0102_0304), [4, 3, 2, 1]);
    assert_eq!(u32_bytes(ByteOrder::Big, 0x0102_0304), [1, 2, 3, 4]);
    assert_eq!(u32_of_bytes(ByteOrder::Little, [4, 3, 2, 1]), 0x0102_0304);
    assert_eq!(u32_of_bytes(ByteOrder::Big, [0xff, 0, 0, 1]), 0xff00_0001);
    let buf = encode_msg(ByteOrder::Big, 2, b"ab").expect("framed");
    assert_eq!(buf, b"i3-ipc\x00\x00\x00\x02\x00\x00\x00\x02ab".to_vec());
    let mut header = [0u8; 14];
    header.copy_from_slice(&buf[0..14]);
    assert_eq!(decode_header(ByteOrder::Big, &header), Some((2, 2)));
    assert_eq!(decode_header(ByteOrder::Little, &header), Some((0x0200_0000, 0x0200_0000)));
}

#[test]
fn provider_backoff_doubles_up_to_the_cap() {
    assert_eq!(next_backoff_millis(250), 500);
    assert_eq!(next_backoff_millis(1000), 2000);
    assert_eq!(next_backoff_millis(1500), 2000);
}
