//! Which input devices count as mice, and what of their capabilities is
//! shown when listing them.

use vstd::prelude::*;

use crate::event_router::{
    BTN_BACK, BTN_EXTRA, BTN_FORWARD, BTN_LEFT, BTN_MIDDLE, BTN_RIGHT, BTN_SIDE, REL_HWHEEL,
    REL_HWHEEL_HI_RES, REL_WHEEL, REL_WHEEL_HI_RES, REL_X, REL_Y,
};
use crate::hyprland::same_text;
use crate::text::{decimal_text, is_text_before, lemma_text_before_transitive, push_decimal, text_before};

verus! {

/// The name of the virtual mouse the daemon creates; it is never offered
/// as an input device.
pub const VIRTUAL_MOUSE_NAME: &'static str = "Wayland-Wheeltani Virtual Mouse";

/// A candidate mouse: its device node, name, physical path, and the
/// listed buttons and relative axes it supports (as Linux codes).
#[derive(Debug, Clone, PartialEq, Eq)]
pub struct DeviceInfo {
    pub path: String,
    pub name: String,
    pub phys: Option<String>,
    pub keys: Vec<u16>,
    pub axes: Vec<u16>,
}

/// The mouse buttons shown in a listing, in order.
pub open spec fn listed_buttons() -> Seq<u16> {
    seq![BTN_LEFT, BTN_RIGHT, BTN_MIDDLE, BTN_SIDE, BTN_EXTRA, BTN_FORWARD, BTN_BACK]
}

/// The relative axes shown in a listing, in order.
pub open spec fn listed_axes() -> Seq<u16> {
    seq![REL_X, REL_Y, REL_WHEEL, REL_HWHEEL, REL_WHEEL_HI_RES, REL_HWHEEL_HI_RES]
}

/// The codes of `listed` that `supported` contains, in the order of `listed`.
pub open spec fn present(listed: Seq<u16>, supported: Seq<u16>) -> Seq<u16>
    decreases listed.len(),
{
    if listed.len() == 0 {
        Seq::empty()
    } else {
        let before = present(listed.drop_last(), supported);
        if supported.contains(listed.last()) {
            before.push(listed.last())
        } else {
            before
        }
    }
}

fn contains_code(set: &Vec<u16>, code: u16) -> (b: bool)
    ensures
        b == set@.contains(code),
{
    let mut i: usize = 0;
    while i < set.len()
        invariant
            i <= set@.len(),
            forall|k: int| 0 <= k < i ==> set@[k] != code,
        decreases set@.len() - i,
    {
        if set[i] == code {
            return true;
        }
        i += 1;
    }
    false
}

fn collect_present(listed: &Vec<u16>, supported: &Vec<u16>) -> (r: Vec<u16>)
    ensures
        r@ == present(listed@, supported@),
{
    let mut out: Vec<u16> = Vec::new();
    let mut i: usize = 0;
    while i < listed.len()
        invariant
            i <= listed@.len(),
            out@ == present(listed@.take(i as int), supported@),
        decreases listed@.len() - i,
    {
        proof {
            assert(listed@.take(i + 1).drop_last() =~= listed@.take(i as int));
        }
        if contains_code(supported, listed[i]) {
            out.push(listed[i]);
        }
        i += 1;
    }
    proof {
        assert(listed@.take(i as int) =~= listed@);
    }
    out
}

/// A device is offered as a mouse when it is not the daemon's own virtual
/// mouse, reports buttons and relative axes, has a left button, and moves
/// on both X and Y.
pub open spec fn is_mouse(name: Seq<char>, keys: Option<Seq<u16>>, axes: Option<Seq<u16>>) -> bool {
    &&& name != VIRTUAL_MOUSE_NAME@
    &&& keys matches Some(k) && k.contains(BTN_LEFT)
    &&& axes matches Some(a) && a.contains(REL_X) && a.contains(REL_Y)
}

/// The listing entry of a device, or `None` when it is not a mouse.
pub fn inspect(
    path: String,
    name: String,
    phys: Option<String>,
    keys: Option<Vec<u16>>,
    axes: Option<Vec<u16>>,
) -> (r: Option<DeviceInfo>)
    ensures
        r is Some <==> is_mouse(
            name@,
            match keys {
                Some(k) => Some(k@),
                None => None,
            },
            match axes {
                Some(a) => Some(a@),
                None => None,
            },
        ),
        r matches Some(info) ==> info.path == path && info.name == name && info.phys == phys
            && info.keys@ == present(listed_buttons(), keys->0@) && info.axes@ == present(
            listed_axes(),
            axes->0@,
        ),
{
    if same_text(name.as_str(), VIRTUAL_MOUSE_NAME) {
        return None;
    }
    let keys = match keys {
        Some(k) => k,
        None => return None,
    };
    let axes = match axes {
        Some(a) => a,
        None => return None,
    };
    let has_btn_left = contains_code(&keys, BTN_LEFT);
    let has_rel_xy = contains_code(&axes, REL_X) && contains_code(&axes, REL_Y);
    if !(has_btn_left && has_rel_xy) {
        return None;
    }
    let buttons = vec![BTN_LEFT, BTN_RIGHT, BTN_MIDDLE, BTN_SIDE, BTN_EXTRA, BTN_FORWARD, BTN_BACK];
    let listed = vec![REL_X, REL_Y, REL_WHEEL, REL_HWHEEL, REL_WHEEL_HI_RES, REL_HWHEEL_HI_RES];
    assert(buttons@ =~= listed_buttons());
    assert(listed@ =~= listed_axes());
    Some(
        DeviceInfo {
            path,
            name,
            phys,
            keys: collect_present(&buttons, &keys),
            axes: collect_present(&listed, &axes),
        },
    )
}


/// The name of a button code, as listed.
pub open spec fn key_name(code: u16) -> Seq<char> {
    if code == BTN_LEFT {
        "BTN_LEFT"@
    } else if code == BTN_RIGHT {
        "BTN_RIGHT"@
    } else if code == BTN_MIDDLE {
        "BTN_MIDDLE"@
    } else if code == BTN_SIDE {
        "BTN_SIDE"@
    } else if code == BTN_EXTRA {
        "BTN_EXTRA"@
    } else if code == BTN_FORWARD {
        "BTN_FORWARD"@
    } else if code == BTN_BACK {
        "BTN_BACK"@
    } else {
        "unknown key: "@ + decimal_text(code as nat)
    }
}

/// The name of a relative axis code, as listed.
pub open spec fn axis_name(code: u16) -> Seq<char> {
    if code == REL_X {
        "REL_X"@
    } else if code == REL_Y {
        "REL_Y"@
    } else if code == REL_WHEEL {
        "REL_WHEEL"@
    } else if code == REL_HWHEEL {
        "REL_HWHEEL"@
    } else if code == REL_WHEEL_HI_RES {
        "REL_WHEEL_HI_RES"@
    } else if code == REL_HWHEEL_HI_RES {
        "REL_HWHEEL_HI_RES"@
    } else {
        "unknown key: "@ + decimal_text(code as nat)
    }
}

/// The names of `codes` separated by single spaces.
pub open spec fn joined_names(codes: Seq<u16>, keys: bool) -> Seq<char>
    decreases codes.len(),
{
    let name = |c: u16| if keys { key_name(c) } else { axis_name(c) };
    if codes.len() == 0 {
        Seq::empty()
    } else if codes.len() == 1 {
        name(codes[0])
    } else {
        joined_names(codes.drop_last(), keys) + " "@ + name(codes.last())
    }
}

/// The lines describing the device numbered `number` (counted from one).
pub open spec fn entry_lines(number: nat, d: DeviceInfo) -> Seq<Seq<char>> {
    let head = seq![
        "["@ + decimal_text(number) + "] "@ + d.path@,
        "    name: "@ + d.name@,
    ];
    let phys = match d.phys {
        Some(p) => seq!["    phys: "@ + p@],
        None => Seq::empty(),
    };
    let keys = if d.keys@.len() > 0 {
        seq!["      EV_KEY: "@ + joined_names(d.keys@, true)]
    } else {
        Seq::empty()
    };
    let axes = if d.axes@.len() > 0 {
        seq!["      EV_REL: "@ + joined_names(d.axes@, false)]
    } else {
        Seq::empty()
    };
    head + phys + seq!["    supports:"@] + keys + axes + seq![Seq::<char>::empty()]
}

/// The entries of `devices`, in order.
pub open spec fn entries(devices: Seq<DeviceInfo>) -> Seq<Seq<char>>
    decreases devices.len(),
{
    if devices.len() == 0 {
        Seq::empty()
    } else {
        entries(devices.drop_last()) + entry_lines(devices.len() as nat, devices.last())
    }
}

/// The lines of a device listing: a hint when nothing was found, otherwise
/// a heading, a blank line and one entry per device.
pub open spec fn listing(devices: Seq<DeviceInfo>) -> Seq<Seq<char>> {
    if devices.len() == 0 {
        seq![
            "No mouse-like input devices found under /dev/input/."@,
            "Hint: you may need to run this with elevated privileges."@,
        ]
    } else {
        seq!["Candidate mice:"@, Seq::<char>::empty()] + entries(devices)
    }
}

pub open spec fn texts(lines: Seq<String>) -> Seq<Seq<char>> {
    lines.map_values(|l: String| l@)
}

fn push_line(out: &mut Vec<String>, line: String)
    ensures
        texts(final(out)@) == texts(old(out)@).push(line@),
{
    let ghost before = out@;
    out.push(line);
    assert(texts(out@) =~= texts(before).push(line@));
}

fn push_name(out: &mut String, code: u16, keys: bool)
    ensures
        final(out)@ == old(out)@ + (if keys { key_name(code) } else { axis_name(code) }),
{
    let name: &str = if keys {
        match code {
            BTN_LEFT => "BTN_LEFT",
            BTN_RIGHT => "BTN_RIGHT",
            BTN_MIDDLE => "BTN_MIDDLE",
            BTN_SIDE => "BTN_SIDE",
            BTN_EXTRA => "BTN_EXTRA",
            BTN_FORWARD => "BTN_FORWARD",
            BTN_BACK => "BTN_BACK",
            _ => "",
        }
    } else {
        match code {
            REL_X => "REL_X",
            REL_Y => "REL_Y",
            REL_WHEEL => "REL_WHEEL",
            REL_HWHEEL => "REL_HWHEEL",
            REL_WHEEL_HI_RES => "REL_WHEEL_HI_RES",
            REL_HWHEEL_HI_RES => "REL_HWHEEL_HI_RES",
            _ => "",
        }
    };
    let known = if keys {
        BTN_LEFT <= code && code <= BTN_BACK
    } else {
        code == REL_X || code == REL_Y || code == REL_WHEEL || code == REL_HWHEEL || code
            == REL_WHEEL_HI_RES || code == REL_HWHEEL_HI_RES
    };
    if known {
        out.append(name);
    } else {
        out.append("unknown key: ");
        push_decimal(out, code as u128);
        proof {
            assert(final(out)@ =~= old(out)@ + ("unknown key: "@ + decimal_text(code as nat)));
        }
    }
}

fn push_names(out: &mut String, codes: &Vec<u16>, keys: bool)
    ensures
        final(out)@ == old(out)@ + joined_names(codes@, keys),
{
    let mut i: usize = 0;
    while i < codes.len()
        invariant
            i <= codes@.len(),
            out@ == old(out)@ + joined_names(codes@.take(i as int), keys),
        decreases codes@.len() - i,
    {
        proof {
            assert(codes@.take(i + 1).drop_last() =~= codes@.take(i as int));
            assert(codes@.take(i + 1).last() == codes@[i as int]);
        }
        if i > 0 {
            out.append(" ");
        }
        push_name(out, codes[i], keys);
        proof {
            if i == 0 {
                assert(codes@.take(1)[0] == codes@[0]);
                assert(codes@.take(0) =~= Seq::<u16>::empty());
                assert(out@ =~= old(out)@ + joined_names(codes@.take(1), keys));
            } else {
                assert(out@ =~= old(out)@ + joined_names(codes@.take(i + 1), keys));
            }
        }
        i += 1;
    }
    proof {
        assert(codes@.take(i as int) =~= codes@);
    }
}

fn push_entry(out: &mut Vec<String>, number: u64, d: &DeviceInfo)
    ensures
        texts(final(out)@) == texts(old(out)@) + entry_lines(number as nat, *d),
{
    let ghost start = texts(out@);
    let mut head = String::from_str("[");
    push_decimal(&mut head, number as u128);
    head.append("] ");
    head.append(d.path.as_str());
    push_line(out, head);
    let mut name = String::from_str("    name: ");
    name.append(d.name.as_str());
    push_line(out, name);
    if let Some(p) = &d.phys {
        let mut line = String::from_str("    phys: ");
        line.append(p.as_str());
        push_line(out, line);
    }
    push_line(out, String::from_str("    supports:"));
    if d.keys.len() > 0 {
        let mut line = String::from_str("      EV_KEY: ");
        push_names(&mut line, &d.keys, true);
        push_line(out, line);
    }
    if d.axes.len() > 0 {
        let mut line = String::from_str("      EV_REL: ");
        push_names(&mut line, &d.axes, false);
        push_line(out, line);
    }
    push_line(out, String::new());
    proof {
        let e = entry_lines(number as nat, *d);
        assert(texts(out@) =~= start + e);
    }
}

/// The lines of a device listing.
pub fn listing_lines(devices: &Vec<DeviceInfo>) -> (lines: Vec<String>)
    requires
        devices@.len() < u64::MAX,
    ensures
        texts(lines@) == listing(devices@),
{
    let mut out: Vec<String> = Vec::new();
    if devices.len() == 0 {
        push_line(&mut out, String::from_str("No mouse-like input devices found under /dev/input/."));
        push_line(
            &mut out,
            String::from_str("Hint: you may need to run this with elevated privileges."),
        );
        assert(texts(out@) =~= listing(devices@));
        return out;
    }
    push_line(&mut out, String::from_str("Candidate mice:"));
    push_line(&mut out, String::new());
    let ghost heading = texts(out@);
    let mut i: usize = 0;
    while i < devices.len()
        invariant
            i <= devices@.len(),
            devices@.len() < u64::MAX,
            texts(out@) == heading + entries(devices@.take(i as int)),
        decreases devices@.len() - i,
    {
        proof {
            assert(devices@.take(i + 1).drop_last() =~= devices@.take(i as int));
            assert(devices@.take(i + 1).last() == devices@[i as int]);
        }
        push_entry(&mut out, (i + 1) as u64, &devices[i]);
        proof {
            assert(texts(out@) =~= heading + entries(devices@.take(i + 1)));
        }
        i += 1;
    }
    proof {
        assert(devices@.take(i as int) =~= devices@);
        assert(texts(out@) =~= listing(devices@));
    }
    out
}
/// Devices in order of their paths: no device comes after one whose path
/// is later in character order. For device nodes of one directory (as
/// under `/dev/input`) this is the order of the paths.
pub open spec fn sorted_by_path(devices: Seq<DeviceInfo>) -> bool {
    forall|i: int, j: int|
        0 <= i < j < devices.len() ==> !text_before(devices[j].path@, devices[i].path@)
}

/// The index of a device whose path no other device's path comes before.
fn first_by_path(devices: &Vec<DeviceInfo>) -> (m: usize)
    requires
        devices@.len() > 0,
    ensures
        m < devices@.len(),
        forall|k: int|
            0 <= k < devices@.len() ==> !text_before(devices@[k].path@, devices@[m as int].path@),
{
    let mut m: usize = 0;
    let mut k: usize = 1;
    proof {
        crate::text::lemma_text_before_irreflexive(devices@[0].path@);
    }
    while k < devices.len()
        invariant
            0 < k <= devices@.len(),
            m < k,
            forall|t: int| 0 <= t < k ==> !text_before(devices@[t].path@, devices@[m as int].path@),
        decreases devices@.len() - k,
    {
        if is_text_before(devices[k].path.as_str(), devices[m].path.as_str()) {
            proof {
                assert forall|t: int| 0 <= t <= k implies !text_before(
                    devices@[t].path@,
                    devices@[k as int].path@,
                ) by {
                    if t < k && text_before(devices@[t].path@, devices@[k as int].path@) {
                        lemma_text_before_transitive(
                            devices@[t].path@,
                            devices@[k as int].path@,
                            devices@[m as int].path@,
                        );
                    }
                    if t == k {
                        crate::text::lemma_text_before_irreflexive(devices@[k as int].path@);
                    }
                }
            }
            m = k;
        }
        k += 1;
    }
    m
}

/// The devices ordered by path: the same devices, each path no later than
/// the next one.
pub fn sort_by_path(devices: Vec<DeviceInfo>) -> (r: Vec<DeviceInfo>)
    ensures
        r@.to_multiset() == devices@.to_multiset(),
        sorted_by_path(r@),
{
    broadcast use vstd::seq_lib::group_to_multiset_ensures;

    let mut rest = devices;
    let mut out: Vec<DeviceInfo> = Vec::new();
    while rest.len() > 0
        invariant
            out@.to_multiset().add(rest@.to_multiset()) == devices@.to_multiset(),
            sorted_by_path(out@),
            forall|i: int, k: int|
                0 <= i < out@.len() && 0 <= k < rest@.len() ==> !text_before(
                    rest@[k].path@,
                    out@[i].path@,
                ),
        decreases rest@.len(),
    {
        let m = first_by_path(&rest);
        let ghost before = rest@;
        let d = rest.remove(m);
        proof {
            vstd::seq_lib::to_multiset_remove(before, m as int);
            before.to_multiset_ensures();
            assert forall|k: int| 0 <= k < rest@.len() implies rest@[k] == before[if k < m {
                k
            } else {
                k + 1
            }] by {}
        }
        let ghost out_before = out@;
        out.push(d);
        proof {
            out_before.to_multiset_ensures();
            assert(out@ == out_before.push(d));
            assert(out@.to_multiset().add(rest@.to_multiset()) =~= devices@.to_multiset());
        }
    }
    out
}

} // verus!
