use stui::host::{CloseBehavior, CloseRequest, CloseRequestSource, HostState};
use stui::render::{LayerRole, PresentModel, RenderIntent, Rgb24};
use stui::runtime::{
    black_box_components, black_box_events, black_box_host, black_box_surface, BehaviorPhase,
    BlackBoxComponentTree, BlackBoxRuntime, BlackBoxRuntimeState, CloseDecision,
    FillComponentState, InheritedFillSemantics, RootComponentState, RuntimeCommand,
    RuntimeDeclaration, RuntimeEvent, RuntimeExitReason,
};
use stui::surface::{Extent, SurfaceState};

#[test]
fn black_box_declaration_names_host_surface_components_and_events() {
    let host = black_box_host();
    assert_eq!(host.id.0, "black-box.host");
    assert_eq!(host.role, "desktop-host");
    assert_eq!(host.close_behavior, CloseBehavior::ManagedByRuntime);
    assert_eq!(host.primary_surface.0, "black-box.surface");

    let surface = black_box_surface();
    assert_eq!(surface.id.0, "black-box.surface");
    assert_eq!(surface.role, "present-target");
    assert_eq!(surface.initial_extent, Extent::new(320, 240));
    assert!(!surface.decorated);

    let components = black_box_components();
    assert_eq!(components.len(), 2);
    assert_eq!(components[0].id.0, "black-box.root");
    assert!(components[0].parent.is_none());
    assert_eq!(components[1].id.0, "black-box.fill");
    assert_eq!(components[1].role, "solid-fill-component");
    assert_eq!(components[1].parent.as_ref().map(|p| p.0), Some("black-box.root"));

    let events = black_box_events();
    let ids: Vec<&str> = events.iter().map(|e| e.id.0).collect();
    assert_eq!(
        ids,
        vec![
            "host.resumed",
            "host.close-requested",
            "input.escape-pressed",
            "surface.invalidated",
            "development.set-behavior",
            "runtime.snapshots-synchronized",
        ]
    );

    let declaration = RuntimeDeclaration::black_box();
    assert_eq!(declaration.components, components);
    assert_eq!(declaration.events, events);
}

#[test]
fn root_margin_is_a_24th_of_the_shorter_side_but_never_below_base() {
    let root = RootComponentState::black_box();
    assert_eq!(root.base_margin, 4);
    assert_eq!(root.resolved_margin(Extent::new(320, 240)), 10);
    assert_eq!(root.resolved_margin(Extent::new(240, 960)), 10);
    assert_eq!(root.resolved_margin(Extent::new(48, 48)), 4);
    assert_eq!(root.resolved_margin(Extent::new(0, 0)), 4);
    assert_eq!(root.resolved_margin(Extent::new(2400, 2400)), 100);
}

#[test]
fn fill_tint_saturates_each_channel() {
    let fill = FillComponentState { base_color: Rgb24::new(254, 0, 255) };
    let inherited = InheritedFillSemantics { tint: Rgb24::new(4, 4, 4), layer: LayerRole::Overlay };
    assert_eq!(fill.resolve(inherited), Rgb24::new(255, 4, 255));
    assert_eq!(FillComponentState::black_box().base_color, Rgb24::new(0, 0, 0));
}

#[test]
fn tree_resolution_follows_the_behavior_phase() {
    let tree = BlackBoxComponentTree::black_box();
    let extent = Extent::new(320, 240);

    let booting = tree.resolve(extent, BehaviorPhase::Booting);
    assert_eq!(booting.root.frame_color, Rgb24::new(20, 20, 20));
    assert_eq!(booting.root.margin, 12);
    assert_eq!(booting.root.fill.color, Rgb24::new(4, 4, 4));
    assert_eq!(booting.root.fill.layer, LayerRole::Overlay);

    let idle = tree.resolve(extent, BehaviorPhase::Idle);
    assert_eq!(idle.root.frame_color, Rgb24::new(8, 8, 8));
    assert_eq!(idle.root.margin, 10);
    assert_eq!(idle.root.fill.color, Rgb24::new(0, 0, 0));
    assert_eq!(idle.root.fill.layer, LayerRole::Foreground);

    let closing = tree.resolve(extent, BehaviorPhase::Closing);
    assert_eq!(closing.root.frame_color, Rgb24::new(3, 3, 3));
    assert_eq!(closing.root.margin, 16);
    assert_eq!(closing.root.fill.color, Rgb24::new(0, 0, 0));
    assert_eq!(closing.root.fill.layer, LayerRole::Overlay);

    assert_eq!(
        idle.present_model(),
        PresentModel {
            layer: LayerRole::Foreground,
            intent: RenderIntent::ClearInset {
                background: Rgb24::new(8, 8, 8),
                inset: Rgb24::new(0, 0, 0),
                margin: 10,
            },
        }
    );
}

#[test]
fn margin_bias_saturates_at_the_largest_margin() {
    let tree = BlackBoxComponentTree {
        root: RootComponentState { base_margin: u32::MAX - 1 },
        fill: FillComponentState::black_box(),
    };
    let resolved = tree.resolve(Extent::new(320, 240), BehaviorPhase::Closing);
    assert_eq!(resolved.root.margin, u32::MAX);
}

#[test]
fn runtime_starts_booting_hidden_and_unpresented() {
    let runtime = BlackBoxRuntime::new();
    let state = runtime.state();
    assert_eq!(state, BlackBoxRuntimeState::new(Extent::new(320, 240)));
    assert_eq!(state.behavior, BehaviorPhase::Booting);
    assert_eq!(state.host, HostState { visible: false, close_requested: false });
    assert_eq!(state.surface, SurfaceState::new(Extent::new(320, 240), false));
    assert!(!state.presented_at_least_once);
    assert_eq!(runtime.declaration(), &RuntimeDeclaration::black_box());
    assert_eq!(BlackBoxRuntime::default(), runtime);
}

#[test]
fn host_resume_moves_to_idle_and_requests_a_redraw() {
    let mut runtime = BlackBoxRuntime::new();
    let commands = runtime.handle_event(RuntimeEvent::HostResumed);
    assert_eq!(commands, vec![RuntimeCommand::RequestRedraw]);
    assert_eq!(runtime.state().behavior, BehaviorPhase::Idle);
}

#[test]
fn first_invalidation_presents_and_shows_the_host_once() {
    let mut runtime = BlackBoxRuntime::new();
    runtime.handle_event(RuntimeEvent::HostResumed);
    let expected = PresentModel::clear_inset_in_layer(
        LayerRole::Foreground,
        Rgb24::new(8, 8, 8),
        Rgb24::new(0, 0, 0),
        10,
    );
    let first = runtime.handle_event(RuntimeEvent::SurfaceInvalidated);
    assert_eq!(
        first,
        vec![RuntimeCommand::Present(expected), RuntimeCommand::SetHostVisible(true)]
    );
    assert!(runtime.state().presented_at_least_once);
    let second = runtime.handle_event(RuntimeEvent::SurfaceInvalidated);
    assert_eq!(second, vec![RuntimeCommand::Present(expected)]);
    assert!(runtime.state().presented_at_least_once);
}

#[test]
fn close_requests_are_accepted_with_the_source_as_reason() {
    let mut runtime = BlackBoxRuntime::new();
    let commands =
        runtime.handle_event(RuntimeEvent::CloseRequested(CloseRequest::new(CloseRequestSource::Host)));
    assert_eq!(
        commands,
        vec![RuntimeCommand::CompleteClose(CloseDecision::Accept(
            RuntimeExitReason::HostRequestedClose
        ))]
    );
    assert!(runtime.state().host.close_requested);
    assert_eq!(runtime.state().behavior, BehaviorPhase::Closing);

    let mut runtime = BlackBoxRuntime::new();
    let commands = runtime.handle_event(RuntimeEvent::CloseRequested(CloseRequest::new(
        CloseRequestSource::DevelopmentShortcut,
    )));
    assert_eq!(
        commands,
        vec![RuntimeCommand::CompleteClose(CloseDecision::Accept(RuntimeExitReason::EscapePressed))]
    );
}

#[test]
fn forced_behavior_requests_a_redraw() {
    let mut runtime = BlackBoxRuntime::new();
    let commands = runtime.handle_event(RuntimeEvent::DevelopmentSetBehavior(BehaviorPhase::Closing));
    assert_eq!(commands, vec![RuntimeCommand::RequestRedraw]);
    assert_eq!(runtime.state().behavior, BehaviorPhase::Closing);
    assert!(!runtime.state().presented_at_least_once);
}

#[test]
fn snapshot_synchronisation_replaces_host_and_surface_only() {
    let mut runtime = BlackBoxRuntime::new();
    let host = HostState { visible: true, close_requested: true };
    let surface = SurfaceState::new(Extent::new(640, 480), true);
    let commands = runtime.handle_event(RuntimeEvent::SnapshotsSynchronized { host, surface });
    assert!(commands.is_empty());
    let state = runtime.state();
    assert_eq!(state.host, host);
    assert_eq!(state.surface, surface);
    assert_eq!(state.behavior, BehaviorPhase::Booting);
    assert!(!state.presented_at_least_once);

    let commands = runtime.handle_event(RuntimeEvent::SurfaceInvalidated);
    match commands[0] {
        RuntimeCommand::Present(model) => match model.intent {
            RenderIntent::ClearInset { margin, .. } => assert_eq!(margin, 22),
            RenderIntent::ClearSolid { .. } => panic!("expected an inset present"),
        },
        _ => panic!("expected a present first"),
    }
}

#[test]
fn packed_colours_are_zero_red_green_blue() {
    assert_eq!(Rgb24::new(0x12, 0x34, 0x56).into_u32(), 0x0012_3456);
    assert_eq!(Rgb24::new(255, 255, 255).into_u32(), 0x00ff_ffff);
    assert_eq!(Rgb24::new(0, 0, 0).into_u32(), 0);
    assert_eq!(Rgb24::new(1, 0, 0).into_u32(), 0x0001_0000);
}

#[test]
fn present_model_constructors_default_to_the_foreground() {
    let red = Rgb24::new(255, 0, 0);
    assert_eq!(
        PresentModel::clear_solid(red),
        PresentModel { layer: LayerRole::Foreground, intent: RenderIntent::ClearSolid { color: red } }
    );
    assert_eq!(
        PresentModel::clear_inset(red, Rgb24::new(0, 0, 0), 3).layer,
        LayerRole::Foreground
    );
    assert_eq!(
        PresentModel::clear_solid_in_layer(LayerRole::Background, red).layer,
        LayerRole::Background
    );
}

#[test]
fn a_run_shows_the_host_once_and_never_hides_it() {
    let mut runtime = BlackBoxRuntime::new();
    let events = vec![
        RuntimeEvent::HostResumed,
        RuntimeEvent::SurfaceInvalidated,
        RuntimeEvent::SnapshotsSynchronized {
            host: HostState { visible: false, close_requested: false },
            surface: SurfaceState::new(Extent::new(10, 10), false),
        },
        RuntimeEvent::SurfaceInvalidated,
        RuntimeEvent::DevelopmentSetBehavior(BehaviorPhase::Booting),
        RuntimeEvent::SurfaceInvalidated,
        RuntimeEvent::CloseRequested(CloseRequest::new(CloseRequestSource::Host)),
    ];
    let mut all = Vec::new();
    for event in events {
        all.extend(runtime.handle_event(event));
        assert_eq!(runtime.state().components, BlackBoxComponentTree::black_box());
    }
    let shows = all.iter().filter(|c| matches!(c, RuntimeCommand::SetHostVisible(_))).count();
    assert_eq!(shows, 1);
    assert!(!all.contains(&RuntimeCommand::SetHostVisible(false)));
    assert!(!all.contains(&RuntimeCommand::CompleteClose(CloseDecision::Ignore)));
    assert!(runtime.state().presented_at_least_once);
}
