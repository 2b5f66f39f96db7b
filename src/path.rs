//! Routable paths: the device's own routing nodes followed by a file-name node.
use vstd::prelude::*;

verus! {

/// Bytes of the header that starts every encoded node (type, sub-type, length).
pub const NODE_HEADER_BYTES: usize = 4;

/// Largest encoded size of a node: its length field is sixteen bits wide.
pub const NODE_MAX_BYTES: usize = 0xFFFF;

/// One routing node of a device's path, carried through unchanged.
#[derive(Clone, Debug, PartialEq, Eq)]
pub struct DeviceNode {
    pub node_type: u8,
    pub sub_type: u8,
    pub data: Vec<u8>,
}

pub struct DeviceNodeView {
    pub node_type: u8,
    pub sub_type: u8,
    pub data: Seq<u8>,
}

impl View for DeviceNode {
    type V = DeviceNodeView;

    open spec fn view(&self) -> DeviceNodeView {
        DeviceNodeView { node_type: self.node_type, sub_type: self.sub_type, data: self.data@ }
    }
}

/// A node of a routable path: a device node, or the terminal file name
/// (UCS-2 code units, without the terminating zero).
#[derive(Clone, Debug, PartialEq, Eq)]
pub enum PathNode {
    Device(DeviceNode),
    FileName(Vec<u16>),
}

pub enum PathNodeView {
    Device(DeviceNodeView),
    FileName(Seq<u16>),
}

impl View for PathNode {
    type V = PathNodeView;

    open spec fn view(&self) -> PathNodeView {
        match self {
            PathNode::Device(d) => PathNodeView::Device(d@),
            PathNode::FileName(n) => PathNodeView::FileName(n@),
        }
    }
}

/// An ordered sequence of routing nodes that ends in a file-name node.
#[derive(Clone, Debug, PartialEq, Eq)]
pub struct RoutablePath {
    pub nodes: Vec<PathNode>,
}

impl View for RoutablePath {
    type V = Seq<PathNodeView>;

    open spec fn view(&self) -> Seq<PathNodeView> {
        self.nodes@.map_values(|n: PathNode| n@)
    }
}

impl RoutablePath {
    /// The path is non-empty and its last node names `name`.
    pub open spec fn names(&self, name: Seq<u16>) -> bool {
        self@.len() > 0 && self@.last() == PathNodeView::FileName(name)
    }
}

pub open spec fn nodes_view(nodes: Seq<DeviceNode>) -> Seq<DeviceNodeView> {
    nodes.map_values(|d: DeviceNode| d@)
}

/// The encoded node (header and data) fits its sixteen-bit length field.
pub open spec fn device_node_fits(n: DeviceNodeView) -> bool {
    NODE_HEADER_BYTES + n.data.len() <= NODE_MAX_BYTES
}

/// The encoded file-name node (header, two bytes per code unit and a
/// terminating zero unit) fits its sixteen-bit length field.
pub open spec fn file_node_fits(name: Seq<u16>) -> bool {
    NODE_HEADER_BYTES + 2 * (name.len() + 1) <= NODE_MAX_BYTES
}

/// A path to `name` on a device with routing nodes `device` can be built.
pub open spec fn can_route(device: Seq<DeviceNodeView>, name: Seq<u16>) -> bool {
    &&& forall|i: int| 0 <= i < device.len() ==> device_node_fits(#[trigger] device[i])
    &&& file_node_fits(name)
}

/// Every device node in order, then the file-name node.
pub open spec fn route_to(device: Seq<DeviceNodeView>, name: Seq<u16>) -> Seq<PathNodeView> {
    device.map_values(|d: DeviceNodeView| PathNodeView::Device(d)).push(PathNodeView::FileName(name))
}

fn copy_bytes(src: &Vec<u8>) -> (r: Vec<u8>)
    ensures
        r@ == src@,
{
    let mut r: Vec<u8> = Vec::with_capacity(src.len());
    let mut i: usize = 0;
    while i < src.len()
        invariant
            i <= src@.len(),
            r@ == src@.subrange(0, i as int),
        decreases src@.len() - i,
    {
        r.push(src[i]);
        i += 1;
        assert(r@ =~= src@.subrange(0, i as int));
    }
    assert(r@ =~= src@);
    r
}

fn copy_units(src: &Vec<u16>) -> (r: Vec<u16>)
    ensures
        r@ == src@,
{
    let mut r: Vec<u16> = Vec::with_capacity(src.len());
    let mut i: usize = 0;
    while i < src.len()
        invariant
            i <= src@.len(),
            r@ == src@.subrange(0, i as int),
        decreases src@.len() - i,
    {
        r.push(src[i]);
        i += 1;
        assert(r@ =~= src@.subrange(0, i as int));
    }
    assert(r@ =~= src@);
    r
}

impl DeviceNode {
    pub fn duplicate(&self) -> (r: DeviceNode)
        ensures
            r@ == self@,
    {
        DeviceNode { node_type: self.node_type, sub_type: self.sub_type, data: copy_bytes(&self.data) }
    }
}

/// Builds the path to `file_name` on a device whose own path is `device`:
/// copies every device node and appends a file-name node. Fails exactly when
/// some node would not fit its length field.
pub fn build_routable_path(device: &Vec<DeviceNode>, file_name: &Vec<u16>) -> (r: Option<
    RoutablePath,
>)
    ensures
        r is Some <==> can_route(nodes_view(device@), file_name@),
        r matches Some(p) ==> p@ == route_to(nodes_view(device@), file_name@),
        r matches Some(p) ==> p.names(file_name@),
{
    let ghost dv = nodes_view(device@);
    if file_name.len() > (NODE_MAX_BYTES - NODE_HEADER_BYTES) / 2 - 1 {
        return None;
    }
    let mut nodes: Vec<PathNode> = Vec::new();
    let mut i: usize = 0;
    while i < device.len()
        invariant
            i <= device@.len(),
            dv == nodes_view(device@),
            forall|j: int| 0 <= j < i ==> device_node_fits(#[trigger] dv[j]),
            nodes@.len() == i,
            forall|j: int| 0 <= j < i ==> (#[trigger] nodes@[j])@ == PathNodeView::Device(dv[j]),
        decreases device@.len() - i,
    {
        let node = &device[i];
        if node.data.len() > NODE_MAX_BYTES - NODE_HEADER_BYTES {
            assert(!device_node_fits(dv[i as int]));
            return None;
        }
        nodes.push(PathNode::Device(node.duplicate()));
        i += 1;
    }
    nodes.push(PathNode::FileName(copy_units(file_name)));
    let p = RoutablePath { nodes };
    assert(p@ =~= route_to(dv, file_name@));
    Some(p)
}

} // verus!
