use chainload::{
    discover, resolve, run, AbortReason, BootAction, BootEvent, BootSequencer, BootState, BootStatus,
    DeviceNode, DeviceProbe, PathNode, ProbeError, Resolution, Stage, HANDOFF_DELAY_US,
};

fn units(s: &str) -> Vec<u16> {
    s.encode_utf16().collect()
}

#[test]
fn boot_manager_on_second_device_boots() {
    let name = units(r"\EFI\Microsoft\Boot\bootmgfw.efi");
    let p2_nodes = vec![DeviceNode { node_type: 4, sub_type: 1, data: vec![2, 0, 0, 0] }];
    let probes = vec![
        DeviceProbe::Failed(ProbeError::OpenFile),
        DeviceProbe::Reached { device_handle: 2, nodes: p2_nodes.clone() },
        DeviceProbe::Failed(ProbeError::OpenFile),
    ];
    let found = discover(&probes, &name);
    assert_eq!(found.len(), 1);
    assert_eq!(found[0].ordinal, 2);
    assert_eq!(found[0].path.nodes, vec![PathNode::Device(p2_nodes[0].clone()), PathNode::FileName(name)]);
    assert_eq!(resolve(found.len(), &vec![]), (Resolution::Selected(0), 0));

    let events = vec![
        BootEvent::Begin,
        BootEvent::Found(1),
        BootEvent::Loaded,
        BootEvent::ControlReturned,
        BootEvent::Found(found.len()),
        BootEvent::Chosen(0),
        BootEvent::Stalled,
        BootEvent::Loaded,
    ];
    let (state, actions) = run(&events);
    assert_eq!(state, BootState::StartBootManager);
    assert_eq!(
        actions,
        vec![
            BootAction::Discover(Stage::Hypervisor),
            BootAction::Load(Stage::Hypervisor, 0),
            BootAction::Start(Stage::Hypervisor),
            BootAction::Discover(Stage::BootManager),
            BootAction::Select(1),
            BootAction::Stall(HANDOFF_DELAY_US),
            BootAction::Load(Stage::BootManager, 0),
            BootAction::Start(Stage::BootManager),
        ]
    );
}

#[test]
fn missing_hypervisor_aborts_before_any_load() {
    let name = units(r"\EFI\Boot\illusion.efi");
    let probes = vec![DeviceProbe::Failed(ProbeError::OpenFile), DeviceProbe::Failed(ProbeError::OpenFile)];
    let found = discover(&probes, &name);
    assert!(found.is_empty());
    let (state, actions) = run(&vec![BootEvent::Begin, BootEvent::Found(found.len()), BootEvent::Loaded]);
    assert_eq!(state, BootState::Aborted(AbortReason::NotFound(Stage::Hypervisor)));
    assert!(!actions.iter().any(|a| matches!(a, BootAction::Load(_, _) | BootAction::Start(_))));
    assert_eq!(actions[1], BootAction::Exit(BootStatus::Aborted));
}

#[test]
fn two_candidates_invalid_key_then_two() {
    let choice = resolve(2, &vec![chainload::PollEvent::Key(chainload::KeyEvent::Printable('x')), chainload::PollEvent::Key(chainload::KeyEvent::Printable('2'))]);
    assert_eq!(choice, (Resolution::Selected(1), 2));
    let mut s = BootSequencer { state: BootState::FindBootManager };
    assert_eq!(s.step(BootEvent::Found(2)), BootAction::Select(2));
    assert_eq!(s.step(BootEvent::Chosen(1)), BootAction::Stall(HANDOFF_DELAY_US));
    assert_eq!(s.step(BootEvent::Stalled), BootAction::Load(Stage::BootManager, 1));
}

#[test]
fn load_failure_never_starts() {
    let events = vec![BootEvent::Begin, BootEvent::Found(2), BootEvent::LoadFailed, BootEvent::Loaded, BootEvent::ControlReturned];
    let (state, actions) = run(&events);
    assert_eq!(state, BootState::Aborted(AbortReason::LoadFailed(Stage::Hypervisor)));
    assert!(!actions.iter().any(|a| matches!(a, BootAction::Start(_))));
    let mut s = BootSequencer { state: BootState::LoadBootManager(0) };
    assert_eq!(s.step(BootEvent::LoadFailed), BootAction::Exit(BootStatus::Aborted));
    assert_eq!(s.state, BootState::Aborted(AbortReason::LoadFailed(Stage::BootManager)));
}

#[test]
fn start_failures_abort() {
    let (state, _) = run(&vec![BootEvent::Begin, BootEvent::Found(1), BootEvent::Loaded, BootEvent::StartFailed]);
    assert_eq!(state, BootState::Aborted(AbortReason::StartFailed(Stage::Hypervisor)));
    let mut s = BootSequencer { state: BootState::StartBootManager };
    assert_eq!(s.step(BootEvent::StartFailed), BootAction::Exit(BootStatus::Aborted));
    assert_eq!(s.state, BootState::Aborted(AbortReason::StartFailed(Stage::BootManager)));
}

#[test]
fn missing_boot_manager_aborts() {
    let mut s = BootSequencer { state: BootState::FindBootManager };
    assert_eq!(s.step(BootEvent::Found(0)), BootAction::Exit(BootStatus::Aborted));
    assert_eq!(s.state, BootState::Aborted(AbortReason::NotFound(Stage::BootManager)));
}

#[test]
fn user_abort_never_loads() {
    let mut s = BootSequencer { state: BootState::SelectBootManager(3) };
    assert_eq!(s.step(BootEvent::SelectionAborted), BootAction::Exit(BootStatus::Aborted));
    assert_eq!(s.step(BootEvent::Stalled), BootAction::Exit(BootStatus::Aborted));
    assert_eq!(s.state, BootState::Aborted(AbortReason::UserAbort));
}

#[test]
fn unexpected_events_abort() {
    let mut s = BootSequencer::new();
    assert_eq!(s.step(BootEvent::Loaded), BootAction::Exit(BootStatus::Aborted));
    assert_eq!(s.state, BootState::Aborted(AbortReason::UnexpectedEvent));
    let mut t = BootSequencer { state: BootState::SelectBootManager(2) };
    assert_eq!(t.step(BootEvent::Chosen(2)), BootAction::Exit(BootStatus::Aborted));
}

#[test]
fn returning_boot_manager_is_success() {
    let mut s = BootSequencer { state: BootState::StartBootManager };
    assert_eq!(s.step(BootEvent::ControlReturned), BootAction::Exit(BootStatus::Success));
    assert_eq!(s.step(BootEvent::Begin), BootAction::Exit(BootStatus::Success));
    assert_eq!(s.state, BootState::Success);
}
