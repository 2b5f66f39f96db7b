//! Discovery: which probed devices hold the target file, and the path to it.
use vstd::prelude::*;
use crate::path::{
    build_routable_path, can_route, nodes_view, route_to, DeviceNode, DeviceNodeView,
    PathNodeView, RoutablePath,
};

verus! {

/// The probe step at which a device was given up.
#[derive(Clone, Copy, Debug, PartialEq, Eq, Structural)]
pub enum ProbeError {
    /// Exclusive filesystem access could not be acquired.
    OpenFileSystem,
    /// The filesystem's root directory could not be opened.
    OpenVolume,
    /// The target file could not be opened read-only (absent or unreadable).
    OpenFile,
    /// The device's routing-path capability could not be acquired.
    OpenDevicePath,
    /// The path to the file could not be built from the device's nodes.
    BuildPath,
}

/// What the platform layer found on one device, in enumeration order.
/// Probing stops at the first step that fails.
#[derive(Clone, Debug, PartialEq, Eq)]
pub enum DeviceProbe {
    Failed(ProbeError),
    /// Every platform step succeeded: the file is there, and these are the
    /// routing nodes of the device's own path.
    Reached { device_handle: u64, nodes: Vec<DeviceNode> },
}

pub enum DeviceProbeView {
    Failed(ProbeError),
    Reached { device_handle: u64, nodes: Seq<DeviceNodeView> },
}

impl View for DeviceProbe {
    type V = DeviceProbeView;

    open spec fn view(&self) -> DeviceProbeView {
        match self {
            DeviceProbe::Failed(e) => DeviceProbeView::Failed(*e),
            DeviceProbe::Reached { device_handle, nodes } => DeviceProbeView::Reached {
                device_handle: *device_handle,
                nodes: nodes_view(nodes@),
            },
        }
    }
}

/// A device that holds the target file.
#[derive(Clone, Debug, PartialEq, Eq)]
pub struct BootTarget {
    pub path: RoutablePath,
    pub device_handle: u64,
    /// One-based position of the device in the enumeration.
    pub ordinal: usize,
}

pub struct BootTargetView {
    pub path: Seq<PathNodeView>,
    pub device_handle: u64,
    pub ordinal: nat,
}

impl View for BootTarget {
    type V = BootTargetView;

    open spec fn view(&self) -> BootTargetView {
        BootTargetView { path: self.path@, device_handle: self.device_handle, ordinal: self.ordinal as nat }
    }
}

pub open spec fn probes_view(probes: Seq<DeviceProbe>) -> Seq<DeviceProbeView> {
    probes.map_values(|p: DeviceProbe| p@)
}

pub open spec fn targets_view(targets: Seq<BootTarget>) -> Seq<BootTargetView> {
    targets.map_values(|t: BootTarget| t@)
}

/// No probe step failed on the device, the path to `name` included.
pub open spec fn probe_succeeds(p: DeviceProbeView, name: Seq<u16>) -> bool {
    match p {
        DeviceProbeView::Reached { nodes, .. } => can_route(nodes, name),
        DeviceProbeView::Failed(_) => false,
    }
}

/// The target that the device at zero-based position `i` yields.
pub open spec fn target_at(probes: Seq<DeviceProbeView>, i: int, name: Seq<u16>) -> BootTargetView {
    match probes[i] {
        DeviceProbeView::Reached { device_handle, nodes } => BootTargetView {
            path: route_to(nodes, name),
            device_handle,
            ordinal: (i + 1) as nat,
        },
        DeviceProbeView::Failed(_) => BootTargetView {
            path: Seq::empty(),
            device_handle: 0,
            ordinal: (i + 1) as nat,
        },
    }
}

/// The targets of every device on which probing succeeded, in enumeration order.
pub open spec fn discover_spec(probes: Seq<DeviceProbeView>, name: Seq<u16>) -> Seq<BootTargetView>
    decreases probes.len(),
{
    if probes.len() == 0 {
        Seq::empty()
    } else {
        let before = discover_spec(probes.drop_last(), name);
        let last = probes.len() - 1;
        if probe_succeeds(probes[last], name) {
            before.push(target_at(probes, last, name))
        } else {
            before
        }
    }
}

/// Why the device's probe was given up, or the path to `name` on it.
pub fn probe_result(probe: &DeviceProbe, name: &Vec<u16>) -> (r: Result<RoutablePath, ProbeError>)
    ensures
        r is Ok <==> probe_succeeds(probe@, name@),
        r matches Ok(p) ==> probe@ matches DeviceProbeView::Reached { nodes, .. } && p@ == route_to(
            nodes,
            name@,
        ),
        r matches Ok(p) ==> p.names(name@),
        probe@ matches DeviceProbeView::Failed(e) ==> r == Err::<RoutablePath, ProbeError>(e),
        probe@ is Reached && r is Err ==> r == Err::<RoutablePath, ProbeError>(ProbeError::BuildPath),
{
    match probe {
        DeviceProbe::Failed(e) => Err(*e),
        DeviceProbe::Reached { nodes, .. } => match build_routable_path(nodes, name) {
            Some(p) => Ok(p),
            None => Err(ProbeError::BuildPath),
        },
    }
}

/// Every device on which no probe step failed becomes a target, numbered by
/// its one-based position among all probed devices; the others are skipped.
pub fn discover(probes: &Vec<DeviceProbe>, name: &Vec<u16>) -> (r: Vec<BootTarget>)
    ensures
        targets_view(r@) == discover_spec(probes_view(probes@), name@),
        forall|j: int| 0 <= j < r@.len() ==> (#[trigger] r@[j]).path.names(name@),
{
    let ghost pv = probes_view(probes@);
    let mut targets: Vec<BootTarget> = Vec::new();
    let mut i: usize = 0;
    while i < probes.len()
        invariant
            i <= probes@.len(),
            pv == probes_view(probes@),
            targets_view(targets@) == discover_spec(pv.subrange(0, i as int), name@),
            forall|j: int| 0 <= j < targets@.len() ==> (#[trigger] targets@[j]).path.names(name@),
        decreases probes@.len() - i,
    {
        let probe = &probes[i];
        let ghost prefix = pv.subrange(0, i + 1);
        assert(prefix.drop_last() =~= pv.subrange(0, i as int));
        assert(prefix[i as int] == pv[i as int]);
        match probe_result(probe, name) {
            Ok(path) => {
                let handle = match probe {
                    DeviceProbe::Reached { device_handle, .. } => *device_handle,
                    DeviceProbe::Failed(_) => 0,
                };
                let t = BootTarget { path, device_handle: handle, ordinal: i + 1 };
                targets.push(t);
                assert(targets_view(targets@) =~= discover_spec(prefix, name@));
            },
            Err(_) => {},
        }
        i += 1;
    }
    assert(pv.subrange(0, probes@.len() as int) =~= pv);
    targets
}

/// The path to `name` on the first device that holds it, if any.
pub fn find_device_path(probes: &Vec<DeviceProbe>, name: &Vec<u16>) -> (r: Option<RoutablePath>)
    ensures
        r is None <==> discover_spec(probes_view(probes@), name@).len() == 0,
        r matches Some(p) ==> p@ == discover_spec(probes_view(probes@), name@)[0].path,
        r matches Some(p) ==> p.names(name@),
{
    let mut targets = discover(probes, name);
    if targets.len() == 0 {
        None
    } else {
        let t = targets.remove(0);
        Some(t.path)
    }
}

/// When no device passes every probe step (in particular when there are no
/// devices), discovery finds nothing.
pub proof fn lemma_discover_none(probes: Seq<DeviceProbeView>, name: Seq<u16>)
    requires
        forall|i: int| 0 <= i < probes.len() ==> !probe_succeeds(#[trigger] probes[i], name),
    ensures
        discover_spec(probes, name) == Seq::<BootTargetView>::empty(),
    decreases probes.len(),
{
    if probes.len() > 0 {
        let rest = probes.drop_last();
        assert forall|i: int| 0 <= i < rest.len() implies !probe_succeeds(#[trigger] rest[i], name) by {
            assert(rest[i] == probes[i]);
        }
        lemma_discover_none(rest, name);
    }
}

/// When exactly one device, at zero-based position `k`, passes every probe
/// step, discovery yields that device alone, with ordinal `k + 1`.
pub proof fn lemma_discover_single(probes: Seq<DeviceProbeView>, name: Seq<u16>, k: int)
    requires
        0 <= k < probes.len(),
        probe_succeeds(probes[k], name),
        forall|i: int| 0 <= i < probes.len() && i != k ==> !probe_succeeds(#[trigger] probes[i], name),
    ensures
        discover_spec(probes, name) == seq![target_at(probes, k, name)],
        discover_spec(probes, name)[0].ordinal == k + 1,
    decreases probes.len(),
{
    let rest = probes.drop_last();
    let last = probes.len() - 1;
    if k == last {
        assert forall|i: int| 0 <= i < rest.len() implies !probe_succeeds(#[trigger] rest[i], name) by {
            assert(rest[i] == probes[i]);
        }
        lemma_discover_none(rest, name);
        assert(Seq::<BootTargetView>::empty().push(target_at(probes, k, name)) =~= seq![target_at(probes, k, name)]);
    } else {
        assert forall|i: int| 0 <= i < rest.len() && i != k implies !probe_succeeds(#[trigger] rest[i], name) by {
            assert(rest[i] == probes[i]);
        }
        assert(rest[k] == probes[k]);
        lemma_discover_single(rest, name, k);
        assert(target_at(rest, k, name) == target_at(probes, k, name));
    }
}

/// Every discovered target comes from a device on which no probe step
/// failed: the device at its ordinal passed every step, and the target is
/// the one that device yields.
pub proof fn lemma_discover_only_clean(probes: Seq<DeviceProbeView>, name: Seq<u16>)
    ensures
        forall|j: int| 0 <= j < discover_spec(probes, name).len() ==> {
            let t = #[trigger] discover_spec(probes, name)[j];
            &&& 1 <= t.ordinal <= probes.len()
            &&& probe_succeeds(probes[t.ordinal - 1], name)
            &&& t == target_at(probes, t.ordinal - 1, name)
        },
    decreases probes.len(),
{
    if probes.len() > 0 {
        let rest = probes.drop_last();
        lemma_discover_only_clean(rest, name);
        let d = discover_spec(probes, name);
        let dr = discover_spec(rest, name);
        assert forall|j: int| 0 <= j < d.len() implies {
            let t = #[trigger] d[j];
            &&& 1 <= t.ordinal <= probes.len()
            &&& probe_succeeds(probes[t.ordinal - 1], name)
            &&& t == target_at(probes, t.ordinal - 1, name)
        } by {
            if j < dr.len() {
                let t = dr[j];
                assert(d[j] == t);
                assert(rest[t.ordinal - 1] == probes[t.ordinal - 1]);
                assert(target_at(rest, t.ordinal - 1, name) == target_at(probes, t.ordinal - 1, name));
            }
        }
    }
}

} // verus!
