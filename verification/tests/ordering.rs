use wayland_wheeltani::device::{sort_by_path, DeviceInfo};
use wayland_wheeltani::text::is_text_before;

fn device(path: &str) -> DeviceInfo {
    DeviceInfo {
        path: path.to_owned(),
        name: format!("mouse at {path}"),
        phys: None,
        keys: vec![],
        axes: vec![],
    }
}

#[test]
fn text_order_is_character_order() {
    assert!(is_text_before("/dev/input/event10", "/dev/input/event9"));
    assert!(!is_text_before("/dev/input/event9", "/dev/input/event10"));
    assert!(is_text_before("/dev/input/event1", "/dev/input/event10"));
    assert!(!is_text_before("abc", "abc"));
    assert!(is_text_before("", "a"));
    assert!(!is_text_before("a", ""));
}

#[test]
fn devices_are_listed_in_path_order() {
    let found = vec![
        device("/dev/input/event9"),
        device("/dev/input/event12"),
        device("/dev/input/event3"),
        device("/dev/input/event10"),
    ];
    let paths: Vec<String> = sort_by_path(found).into_iter().map(|d| d.path).collect();
    assert_eq!(
        paths,
        vec![
            "/dev/input/event10",
            "/dev/input/event12",
            "/dev/input/event3",
            "/dev/input/event9",
        ]
    );
    assert!(sort_by_path(Vec::new()).is_empty());
}

#[test]
fn sorting_keeps_every_device() {
    let found = vec![device("/b"), device("/a"), device("/b")];
    let sorted = sort_by_path(found);
    assert_eq!(sorted.len(), 3);
    assert_eq!(sorted[0].path, "/a");
    assert_eq!(sorted[1].path, "/b");
    assert_eq!(sorted[2].path, "/b");
    assert_eq!(sorted[0].name, "mouse at /a");
}
