//! Sway / i3: the focused node of a `GET_TREE` layout tree, the IPC socket
//! advertised in the environment or found in the runtime directory, and the
//! snapshot a tree query leads to.

use vstd::prelude::*;

use crate::config_loader::{join, join_path};
use crate::text::{matches_at, occurs_at};
use crate::foreground::{
    non_empty, non_empty_string, opt_text, ForegroundApp, ForegroundSnapshot,
    ForegroundSourceKind,
};

verus! {

broadcast use vstd::std_specs::vec::group_vec_axioms;

/// The `window_properties` of an `XWayland` node: its string-valued
/// `class` and `instance` members.
#[derive(Debug, Clone, PartialEq, Eq)]
pub struct WindowProperties {
    pub class: Option<String>,
    pub instance: Option<String>,
}

/// A node of the layout tree, holding the members the provider reads:
/// `focused` (true only when the member is the boolean `true`), the
/// string-valued `app_id` and `name`, the non-negative integer `pid`, the
/// `window_properties` object, and the `nodes` and `floating_nodes` arrays
/// (empty when absent).
#[derive(Debug)]
pub struct TreeNode {
    pub focused: bool,
    pub app_id: Option<String>,
    pub name: Option<String>,
    pub pid: Option<u64>,
    pub window_properties: Option<WindowProperties>,
    pub nodes: Vec<TreeNode>,
    pub floating_nodes: Vec<TreeNode>,
}

/// The first focused node in a depth-first, pre-order search: the node
/// itself, then its tiled children, then its floating children.
pub open spec fn focused_node(node: TreeNode) -> Option<TreeNode>
    decreases node, 1int,
{
    if node.focused {
        Some(node)
    } else {
        match focused_in(node.nodes@) {
            Some(found) => Some(found),
            None => focused_in(node.floating_nodes@),
        }
    }
}

/// The first focused node among `nodes`, searched in order.
pub open spec fn focused_in(nodes: Seq<TreeNode>) -> Option<TreeNode>
    decreases nodes, 0int,
{
    if nodes.len() == 0 {
        None
    } else {
        match focused_node(nodes[0]) {
            Some(found) => Some(found),
            None => focused_in(nodes.subrange(1, nodes.len() as int)),
        }
    }
}

/// A string member as the provider keeps it: present and non-empty.
pub open spec fn kept_text(o: Option<String>) -> Option<Seq<char>> {
    match o {
        Some(s) => non_empty(s@),
        None => None,
    }
}

/// `app` is what the provider reports for `node`: `app_id` from `app_id`,
/// the title from `name`, the pid when it fits in 32 bits, class and
/// resource class from the window properties' `class` and `instance`;
/// empty strings count as absent.
pub open spec fn app_of_node(node: TreeNode, app: ForegroundApp) -> bool {
    &&& opt_text(app.app_id) == kept_text(node.app_id)
    &&& opt_text(app.title) == kept_text(node.name)
    &&& app.pid == (match node.pid {
        Some(p) => if p <= u32::MAX {
            Some(p as u32)
        } else {
            None
        },
        None => None,
    })
    &&& opt_text(app.class) == (match node.window_properties {
        Some(props) => kept_text(props.class),
        None => None,
    })
    &&& opt_text(app.resource_class) == (match node.window_properties {
        Some(props) => kept_text(props.instance),
        None => None,
    })
    &&& app.source == ForegroundSourceKind::Sway
}

fn kept_string(o: &Option<String>) -> (r: Option<String>)
    ensures
        opt_text(r) == kept_text(*o),
{
    match o {
        Some(s) => non_empty_string(s.as_str()),
        None => None,
    }
}

fn node_to_app(node: &TreeNode) -> (app: ForegroundApp)
    ensures
        app_of_node(*node, app),
{
    let app_id = kept_string(&node.app_id);
    let title = kept_string(&node.name);
    let pid = match node.pid {
        Some(p) => if p <= u32::MAX as u64 {
            Some(p as u32)
        } else {
            None
        },
        None => None,
    };
    let (class, instance) = match &node.window_properties {
        Some(props) => (kept_string(&props.class), kept_string(&props.instance)),
        None => (None, None),
    };
    ForegroundApp {
        app_id,
        class,
        resource_class: instance,
        title,
        pid,
        source: ForegroundSourceKind::Sway,
    }
}

proof fn lemma_focused_in_skip(nodes: Seq<TreeNode>, i: int)
    requires
        0 <= i < nodes.len(),
        focused_node(nodes[i]) is None,
    ensures
        focused_in(nodes.subrange(i, nodes.len() as int)) == focused_in(
            nodes.subrange(i + 1, nodes.len() as int),
        ),
{
    let s = nodes.subrange(i, nodes.len() as int);
    assert(s[0] == nodes[i]);
    assert(s.subrange(1, s.len() as int) =~= nodes.subrange(i + 1, nodes.len() as int));
}

fn find_in(nodes: &Vec<TreeNode>) -> (r: Option<ForegroundApp>)
    ensures
        r is None <==> focused_in(nodes@) is None,
        r matches Some(app) ==> app_of_node(focused_in(nodes@)->0, app),
    decreases nodes, 0int,
{
    let mut i: usize = 0;
    proof {
        assert(nodes@.subrange(0, nodes@.len() as int) =~= nodes@);
    }
    while i < nodes.len()
        invariant
            i <= nodes@.len(),
            focused_in(nodes@) == focused_in(nodes@.subrange(i as int, nodes@.len() as int)),
        decreases nodes@.len() - i,
    {
        let found = find_focused(&nodes[i]);
        let ghost s = nodes@.subrange(i as int, nodes@.len() as int);
        proof {
            assert(s[0] == nodes@[i as int]);
        }
        match found {
            Some(app) => {
                return Some(app);
            },
            None => {
                proof {
                    lemma_focused_in_skip(nodes@, i as int);
                }
            },
        }
        i += 1;
    }
    proof {
        assert(nodes@.subrange(i as int, nodes@.len() as int) =~= Seq::<TreeNode>::empty());
    }
    None
}

/// Recursively finds the node with `focused == true` and maps it to a
/// [`ForegroundApp`]. Searches both tiled (`nodes`) and `floating_nodes`.
pub fn find_focused(node: &TreeNode) -> (r: Option<ForegroundApp>)
    ensures
        r is None <==> focused_node(*node) is None,
        r matches Some(app) ==> app_of_node(focused_node(*node)->0, app),
    decreases node, 1int,
{
    if node.focused {
        return Some(node_to_app(node));
    }
    match find_in(&node.nodes) {
        Some(app) => Some(app),
        None => find_in(&node.floating_nodes),
    }
}

/// The first non-empty socket path among `SWAYSOCK` then `I3SOCK`.
pub open spec fn chosen_socket(swaysock: Option<Seq<char>>, i3sock: Option<Seq<char>>) -> Option<Seq<char>> {
    match swaysock {
        Some(s) if s.len() > 0 => Some(s),
        _ => match i3sock {
            Some(s) if s.len() > 0 => Some(s),
            _ => None,
        },
    }
}

/// A file name of the form `sway-ipc.*.sock`, the name Sway gives its IPC
/// socket in the runtime directory.
pub open spec fn is_socket_name(name: Seq<char>) -> bool {
    &&& name.len() >= 14
    &&& occurs_at(name, "sway-ipc."@, 0)
    &&& occurs_at(name, ".sock"@, name.len() - 5)
}

pub fn socket_name_matches(name: &str) -> (b: bool)
    ensures
        b == is_socket_name(name@),
{
    proof {
        reveal_strlit("sway-ipc.");
        reveal_strlit(".sock");
    }
    let n = name.unicode_len();
    if n < 14 {
        return false;
    }
    matches_at(name, n, "sway-ipc.", 9, 0) && matches_at(name, n, ".sock", 5, n - 5)
}

/// The first of `names`, from index `i` on, that is a socket name.
pub open spec fn first_socket_name(names: Seq<String>, i: int) -> Option<Seq<char>>
    decreases names.len() - i,
{
    if i < 0 || i >= names.len() {
        None
    } else if is_socket_name(names[i]@) {
        Some(names[i]@)
    } else {
        first_socket_name(names, i + 1)
    }
}

/// The socket found by scanning the runtime directory: the first of its
/// entries (in the order listed) named like a Sway IPC socket.
pub open spec fn scanned_socket(runtime_dir: Option<Seq<char>>, names: Seq<String>) -> Option<Seq<char>> {
    match runtime_dir {
        Some(d) => if d.len() > 0 {
            match first_socket_name(names, 0) {
                Some(n) => Some(join_path(d, n)),
                None => None,
            }
        } else {
            None
        },
        None => None,
    }
}

/// The IPC socket to use: the one advertised by `SWAYSOCK`, else by
/// `I3SOCK`; when neither is set (as under a user service manager), the one
/// found in the runtime directory.
pub open spec fn discovered_socket(
    swaysock: Option<Seq<char>>,
    i3sock: Option<Seq<char>>,
    runtime_dir: Option<Seq<char>>,
    names: Seq<String>,
) -> Option<Seq<char>> {
    match chosen_socket(swaysock, i3sock) {
        Some(s) => Some(s),
        None => scanned_socket(runtime_dir, names),
    }
}

/// The socket in the runtime directory `runtime_dir` (`XDG_RUNTIME_DIR`),
/// given the names of the entries listed there.
pub fn runtime_dir_socket(runtime_dir: Option<String>, names: &Vec<String>) -> (r: Option<String>)
    ensures
        opt_text(r) == scanned_socket(opt_text(runtime_dir), names@),
{
    let ghost rt = opt_text(runtime_dir);
    let d = match runtime_dir {
        Some(d) => d,
        None => return None,
    };
    if d.as_str().unicode_len() == 0 {
        return None;
    }
    let mut i: usize = 0;
    while i < names.len()
        invariant
            i <= names@.len(),
            rt == Some(d@),
            rt == opt_text(runtime_dir),
            d@.len() > 0,
            first_socket_name(names@, 0) == first_socket_name(names@, i as int),
        decreases names@.len() - i,
    {
        let name = names[i].as_str();
        if socket_name_matches(name) {
            assert(first_socket_name(names@, i as int) == Some(name@));
            let p = join(d, name);
            assert(scanned_socket(rt, names@) == Some(p@));
            return Some(p);
        }
        i += 1;
    }
    None
}

/// The IPC socket path from the values of `SWAYSOCK` and `I3SOCK`, falling
/// back to the runtime directory's entries when neither is set.
pub fn socket_path(
    swaysock: Option<String>,
    i3sock: Option<String>,
    runtime_dir: Option<String>,
    names: &Vec<String>,
) -> (r: Option<String>)
    ensures
        opt_text(r) == discovered_socket(
            opt_text(swaysock),
            opt_text(i3sock),
            opt_text(runtime_dir),
            names@,
        ),
{
    if let Some(s) = swaysock {
        if s.as_str().unicode_len() > 0 {
            return Some(s);
        }
    }
    if let Some(s) = i3sock {
        if s.as_str().unicode_len() > 0 {
            return Some(s);
        }
    }
    runtime_dir_socket(runtime_dir, names)
}

/// True when an IPC socket was chosen (advertised or found) and exists.
pub fn is_available(socket: &Option<String>, socket_exists: bool) -> (b: bool)
    ensures
        b == (socket is Some && socket_exists),
{
    socket.is_some() && socket_exists
}

/// The snapshot to store after a tree query: the focused app when one was
/// found, `Unknown` when the tree has no focused node, and nothing new (the
/// previous snapshot stays) when the query failed.
pub fn refresh(query: Option<Option<ForegroundApp>>) -> (r: Option<ForegroundSnapshot>)
    ensures
        query is None ==> r is None,
        query matches Some(Some(app)) ==> r == Some(ForegroundSnapshot::Known(app)),
        query matches Some(None) ==> r matches Some(ForegroundSnapshot::Unknown { reason }) && reason@
            == "no focused window in sway tree"@,
{
    match query {
        Some(Some(app)) => Some(ForegroundSnapshot::Known(app)),
        Some(None) => Some(
            ForegroundSnapshot::Unknown { reason: String::from_str("no focused window in sway tree") },
        ),
        None => None,
    }
}


/// The i3 IPC message types the provider sends.
pub const IPC_SUBSCRIBE: u32 = 2;
pub const IPC_GET_TREE: u32 = 4;

/// Every i3 IPC message starts with these six bytes: `i3-ipc`.
pub open spec fn ipc_magic() -> Seq<u8> {
    seq![0x69u8, 0x33u8, 0x2du8, 0x69u8, 0x70u8, 0x63u8]
}

/// The four bytes of `x`, least significant first.
pub open spec fn le_bytes(x: u32) -> Seq<u8> {
    seq![
        (x % 0x100) as u8,
        ((x / 0x100) % 0x100) as u8,
        ((x / 0x1_0000) % 0x100) as u8,
        ((x / 0x100_0000) % 0x100) as u8,
    ]
}

/// The four bytes of `x`, most significant first.
pub open spec fn be_bytes(x: u32) -> Seq<u8> {
    seq![
        ((x / 0x100_0000) % 0x100) as u8,
        ((x / 0x1_0000) % 0x100) as u8,
        ((x / 0x100) % 0x100) as u8,
        (x % 0x100) as u8,
    ]
}

/// The two byte orders a machine may use for its integers.
#[derive(Debug, Clone, Copy, PartialEq, Eq, Structural)]
pub enum ByteOrder {
    Little,
    Big,
}

/// The four bytes of `x` in byte order `o`.
pub open spec fn ordered_bytes(o: ByteOrder, x: u32) -> Seq<u8> {
    match o {
        ByteOrder::Little => le_bytes(x),
        ByteOrder::Big => be_bytes(x),
    }
}

/// The number whose four bytes in byte order `o` are `b`.
pub open spec fn ordered_value(o: ByteOrder, b: Seq<u8>) -> int {
    match o {
        ByteOrder::Little => b[0] + 0x100 * b[1] + 0x1_0000 * b[2] + 0x100_0000 * b[3],
        ByteOrder::Big => b[3] + 0x100 * b[2] + 0x1_0000 * b[1] + 0x100_0000 * b[0],
    }
}

/// Reading back the bytes of a number gives the number.
pub proof fn lemma_ordered_round_trip(o: ByteOrder, x: u32)
    ensures
        ordered_value(o, ordered_bytes(o, x)) == x,
{
    let b = ordered_bytes(o, x);
    let x0 = x % 0x100;
    let x1 = (x / 0x100) % 0x100;
    let x2 = (x / 0x1_0000) % 0x100;
    let x3 = (x / 0x100_0000) % 0x100;
    assert(x0 + 0x100 * x1 + 0x1_0000 * x2 + 0x100_0000 * x3 == x) by (bit_vector)
        requires
            x0 == x % 0x100,
            x1 == (x / 0x100) % 0x100,
            x2 == (x / 0x1_0000) % 0x100,
            x3 == (x / 0x100_0000) % 0x100,
    ;
}

/// Calls `u32::to_ne_bytes`: the bytes of `x` in the machine's byte order,
/// which is either little- or big-endian. Which one is not stated.
#[verifier::external_body]
fn u32_to_ne_bytes(x: u32) -> (r: [u8; 4])
    ensures
        r@ == le_bytes(x) || r@ == be_bytes(x),
{
    x.to_ne_bytes()
}

/// The machine's byte order, as `u32::to_ne_bytes` lays out the number 1.
/// The i3 IPC header carries its numbers in this order.
pub fn native_order() -> (o: ByteOrder) {
    let one = u32_to_ne_bytes(1);
    if one[0] == 1 {
        ByteOrder::Little
    } else {
        ByteOrder::Big
    }
}

/// The four bytes of `x` in byte order `o`.
pub fn u32_bytes(o: ByteOrder, x: u32) -> (r: [u8; 4])
    ensures
        r@ == ordered_bytes(o, x),
{
    let b0 = (x % 0x100) as u8;
    let b1 = ((x / 0x100) % 0x100) as u8;
    let b2 = ((x / 0x1_0000) % 0x100) as u8;
    let b3 = ((x / 0x100_0000) % 0x100) as u8;
    let r = match o {
        ByteOrder::Little => [b0, b1, b2, b3],
        ByteOrder::Big => [b3, b2, b1, b0],
    };
    assert(r@ =~= ordered_bytes(o, x));
    r
}

/// The number whose four bytes in byte order `o` are `b`.
pub fn u32_of_bytes(o: ByteOrder, b: [u8; 4]) -> (r: u32)
    ensures
        r == ordered_value(o, b@),
{
    let (lo, m1, m2, hi) = match o {
        ByteOrder::Little => (b[0], b[1], b[2], b[3]),
        ByteOrder::Big => (b[3], b[2], b[1], b[0]),
    };
    lo as u32 + 0x100 * (m1 as u32) + 0x1_0000 * (m2 as u32) + 0x100_0000 * (hi as u32)
}

fn push_all(out: &mut Vec<u8>, bytes: &[u8])
    ensures
        final(out)@ == old(out)@ + bytes@,
{
    let mut i: usize = 0;
    while i < bytes.len()
        invariant
            i <= bytes@.len(),
            out@ == old(out)@ + bytes@.take(i as int),
        decreases bytes@.len() - i,
    {
        out.push(bytes[i]);
        proof {
            assert(bytes@.take(i + 1) =~= bytes@.take(i as int).push(bytes@[i as int]));
        }
        i += 1;
    }
    proof {
        assert(bytes@.take(i as int) =~= bytes@);
    }
}

/// An IPC message: the magic, the payload length and the message type (each
/// four bytes in byte order `o`), then the payload.
pub open spec fn ipc_frame(o: ByteOrder, msg_type: u32, payload: Seq<u8>) -> Seq<u8> {
    ipc_magic() + ordered_bytes(o, payload.len() as u32) + ordered_bytes(o, msg_type) + payload
}

/// What an IPC header says: `None` when it does not start with the magic,
/// otherwise the payload length and the message type, read in byte order `o`.
pub open spec fn header_fields(o: ByteOrder, header: Seq<u8>) -> Option<(int, int)> {
    if header.subrange(0, 6) != ipc_magic() {
        None
    } else {
        Some((ordered_value(o, header.subrange(6, 10)), ordered_value(o, header.subrange(10, 14))))
    }
}

/// Frames an IPC message in byte order `o`; `None` when the payload is too
/// large for a 32-bit length.
pub fn encode_msg(o: ByteOrder, msg_type: u32, payload: &[u8]) -> (r: Option<Vec<u8>>)
    ensures
        r is None <==> payload@.len() > u32::MAX,
        r matches Some(buf) ==> buf@ == ipc_frame(o, msg_type, payload@),
{
    if payload.len() > u32::MAX as usize {
        return None;
    }
    let len = payload.len() as u32;
    let mut buf: Vec<u8> = vec![0x69u8, 0x33u8, 0x2du8, 0x69u8, 0x70u8, 0x63u8];
    let len_bytes = u32_bytes(o, len);
    let type_bytes = u32_bytes(o, msg_type);
    assert(buf@ =~= ipc_magic());
    push_all(&mut buf, &len_bytes);
    push_all(&mut buf, &type_bytes);
    push_all(&mut buf, payload);
    Some(buf)
}

/// Reads an IPC header in byte order `o`: `None` when it does not start with
/// the magic, otherwise the payload length and the message type.
pub fn decode_header(o: ByteOrder, header: &[u8; 14]) -> (r: Option<(u32, u32)>)
    ensures
        match header_fields(o, header@) {
            None => r is None,
            Some((len, msg_type)) => r == Some((len as u32, msg_type as u32)),
        },
{
    let magic_ok = header[0] == 0x69 && header[1] == 0x33 && header[2] == 0x2d && header[3] == 0x69
        && header[4] == 0x70 && header[5] == 0x63;
    if !magic_ok {
        proof {
            if header@.subrange(0, 6) == ipc_magic() {
                assert(header@.subrange(0, 6)[0] == header@[0]);
                assert(header@.subrange(0, 6)[1] == header@[1]);
                assert(header@.subrange(0, 6)[2] == header@[2]);
                assert(header@.subrange(0, 6)[3] == header@[3]);
                assert(header@.subrange(0, 6)[4] == header@[4]);
                assert(header@.subrange(0, 6)[5] == header@[5]);
            }
        }
        return None;
    }
    assert(header@.subrange(0, 6) =~= ipc_magic());
    let len_bytes: [u8; 4] = [header[6], header[7], header[8], header[9]];
    let type_bytes: [u8; 4] = [header[10], header[11], header[12], header[13]];
    assert(len_bytes@ =~= header@.subrange(6, 10));
    assert(type_bytes@ =~= header@.subrange(10, 14));
    Some((u32_of_bytes(o, len_bytes), u32_of_bytes(o, type_bytes)))
}

/// Decoding the header of a framed message, in the byte order it was framed
/// in, gives back the payload length and the message type.
pub proof fn lemma_header_round_trip(o: ByteOrder, msg_type: u32, payload: Seq<u8>)
    requires
        payload.len() <= u32::MAX,
    ensures
        header_fields(o, ipc_frame(o, msg_type, payload).take(14)) == Some(
            (payload.len() as int, msg_type as int),
        ),
{
    let f = ipc_frame(o, msg_type, payload);
    let h = f.take(14);
    let len = payload.len() as u32;
    assert(h.subrange(0, 6) =~= ipc_magic());
    assert(h.subrange(6, 10) =~= ordered_bytes(o, len));
    assert(h.subrange(10, 14) =~= ordered_bytes(o, msg_type));
    lemma_ordered_round_trip(o, len);
    lemma_ordered_round_trip(o, msg_type);
}
} // verus!
