use stui::desktop::{
    plan_black_box_session, render_frame, DesktopHost, DesktopHostConfig, DesktopInput,
    DesktopPresenter, DesktopRunReport, DesktopSession, DesktopSessionPlan, HostAction,
};
use stui::host::{CloseBehavior, CloseRequest, CloseRequestSource, HostCapabilities, HostPort, HostState};
use stui::render::{LayerRole, PresentModel, RenderIntent, Rgb24};
use stui::runtime::{
    black_box_surface, BehaviorPhase, CloseDecision, RuntimeCommand, RuntimeDeclaration,
    RuntimeEvent, RuntimeExitReason,
};
use stui::surface::{Extent, PresentCapabilities, PresentPort, SurfaceState};

fn window() -> Extent {
    Extent::new(320, 240)
}

fn run_commands(session: &mut DesktopSession, commands: Vec<RuntimeCommand>, window: Extent) -> Vec<HostAction> {
    commands.into_iter().map(|c| session.execute_command(c, window)).collect()
}

#[test]
fn black_box_plan() {
    let plan = plan_black_box_session();
    assert_eq!(plan.host.id.0, "black-box.host");
    assert_eq!(plan.host.role, "desktop-host");
    assert_eq!(plan.host.close_behavior, CloseBehavior::ManagedByRuntime);
    assert_eq!(plan.host.primary_surface.0, "black-box.surface");
    assert_eq!(plan.surface.id.0, "black-box.surface");
    assert_eq!(plan.surface.role, "present-target");
    assert_eq!(plan.surface.initial_extent, Extent::new(320, 240));
    assert!(!plan.surface.decorated);
    assert_eq!(plan.host_state, HostState { visible: false, close_requested: false });
    assert_eq!(plan.surface_state, SurfaceState::new(Extent::new(320, 240), false));
    assert_eq!(
        DesktopHostConfig::black_box(),
        DesktopHostConfig { initial_extent: Extent::new(320, 240), decorated: false }
    );
}

#[test]
fn plans_take_extent_and_decoration_from_the_config() {
    let config = DesktopHostConfig { initial_extent: Extent::new(800, 600), decorated: true };
    let plan = DesktopSessionPlan::from_runtime(&RuntimeDeclaration::black_box(), config);
    assert_eq!(plan.surface.initial_extent, Extent::new(800, 600));
    assert!(plan.surface.decorated);
    assert_eq!(plan.surface_state, SurfaceState::new(Extent::new(800, 600), false));
    assert_eq!(plan.host.id.0, "black-box.host");
}

#[test]
fn solid_frames_fill_every_pixel() {
    let frame = render_frame(RenderIntent::ClearSolid { color: Rgb24::new(255, 0, 0) }, 2, 2);
    assert_eq!(frame, vec![0x00ff_0000; 4]);
    assert!(render_frame(RenderIntent::ClearSolid { color: Rgb24::new(1, 2, 3) }, 5, 0).is_empty());
}

#[test]
fn inset_frames_draw_the_inset_inside_the_margin() {
    let intent = RenderIntent::ClearInset {
        background: Rgb24::new(1, 1, 1),
        inset: Rgb24::new(2, 2, 2),
        margin: 1,
    };
    let bg = 0x0001_0101;
    let inset = 0x0002_0202;
    assert_eq!(
        render_frame(intent, 4, 3),
        vec![bg, bg, bg, bg, bg, inset, inset, bg, bg, bg, bg, bg]
    );
    let no_room = RenderIntent::ClearInset {
        background: Rgb24::new(1, 1, 1),
        inset: Rgb24::new(2, 2, 2),
        margin: 2,
    };
    assert_eq!(render_frame(no_room, 4, 3), vec![bg; 12]);
    let zero_margin = RenderIntent::ClearInset {
        background: Rgb24::new(1, 1, 1),
        inset: Rgb24::new(2, 2, 2),
        margin: 0,
    };
    assert_eq!(render_frame(zero_margin, 3, 2), vec![inset; 6]);
}

#[test]
fn host_model_tracks_visibility_and_close_requests() {
    let plan = plan_black_box_session();
    let mut host = DesktopHost::new(plan.host.clone(), plan.host_state);
    assert_eq!(host.descriptor(), &plan.host);
    assert_eq!(
        host.capabilities(),
        HostCapabilities {
            supports_repositioning: false,
            supports_transparency: false,
            supports_irregular_interaction: false,
        }
    );
    host.set_visible(true);
    assert_eq!(host.state(), HostState { visible: true, close_requested: false });
    host.set_close_requested(true);
    assert_eq!(host.state(), HostState { visible: true, close_requested: true });
}

#[test]
fn presenter_draws_on_its_extent_and_skips_empty_ones() {
    let surface = black_box_surface();
    let model = PresentModel::clear_solid(Rgb24::new(0, 0, 255));
    let mut presenter = DesktopPresenter::new(surface.clone(), SurfaceState::new(Extent::new(0, 5), false));
    assert_eq!(
        presenter.capabilities(),
        PresentCapabilities {
            supports_transparency: false,
            supports_irregular_shape: false,
            supports_clear_solid: true,
            supports_clear_inset: true,
        }
    );
    assert_eq!(presenter.present(model), Ok(()));
    assert!(presenter.frame().is_empty());
    presenter.set_extent(Extent::new(4, 3));
    presenter.set_visibility(true);
    assert_eq!(presenter.present(model), Ok(()));
    assert_eq!(presenter.frame(), &[0x0000_00ff; 12][..]);
    assert_eq!(presenter.state(), SurfaceState::new(Extent::new(4, 3), true));
    assert_eq!(presenter.descriptor(), &surface);
}

#[test]
fn window_spec_is_hidden_fixed_and_planned() {
    let session = DesktopSession::new(plan_black_box_session(), None);
    let spec = session.window_spec();
    assert_eq!(spec.title, "stui black-box");
    assert!(!spec.decorated);
    assert!(!spec.resizable);
    assert!(!spec.visible);
    assert_eq!((spec.width, spec.height), (320, 240));
    assert_eq!(session.config(), DesktopHostConfig::black_box());
    assert_eq!(session.forced_behavior(), None);
    assert!(session.report().is_none());
    assert!(session.capabilities().is_none());
    assert!(session.frame().is_empty());
}

#[test]
fn inputs_before_the_window_exists_are_ignored() {
    let mut session = DesktopSession::new(plan_black_box_session(), None);
    assert_eq!(session.window_input(DesktopInput::CloseRequested), None);
    assert_eq!(session.window_input(DesktopInput::RedrawRequested), None);
    assert_eq!(session.execute_command(RuntimeCommand::RequestRedraw, window()), HostAction::Nothing);
}

#[test]
fn only_phase_changing_events_are_logged() {
    assert!(DesktopSession::should_log_event(&RuntimeEvent::HostResumed));
    assert!(DesktopSession::should_log_event(&RuntimeEvent::DevelopmentSetBehavior(BehaviorPhase::Idle)));
    assert!(DesktopSession::should_log_event(&RuntimeEvent::CloseRequested(CloseRequest::new(
        CloseRequestSource::Host
    ))));
    assert!(!DesktopSession::should_log_event(&RuntimeEvent::SurfaceInvalidated));
    assert!(!DesktopSession::should_log_event(&RuntimeEvent::SnapshotsSynchronized {
        host: HostState::default(),
        surface: SurfaceState::new(Extent::new(1, 1), true),
    }));
}

#[test]
fn resume_then_first_redraw_draws_and_shows_the_window() {
    let mut session = DesktopSession::new(plan_black_box_session(), None);
    session.attach();
    assert!(session.capabilities().is_some());

    let commands = session.handle_runtime_event(RuntimeEvent::HostResumed);
    assert_eq!(run_commands(&mut session, commands, window()), vec![HostAction::RequestRedraw]);
    assert_eq!(session.runtime().state().behavior, BehaviorPhase::Idle);

    let event = session.window_input(DesktopInput::RedrawRequested);
    assert_eq!(event, Some(RuntimeEvent::SurfaceInvalidated));
    let commands = session.handle_runtime_event(event.unwrap());
    assert_eq!(commands.len(), 2);
    let actions = run_commands(&mut session, commands, window());
    assert_eq!(actions, vec![HostAction::Draw, HostAction::SetWindowVisible(true)]);

    let state = session.runtime().state();
    assert!(state.presented_at_least_once);
    assert!(state.host.visible);
    assert!(state.surface.visible);
    assert_eq!(state.surface.extent, window());
    let frame = session.frame();
    assert_eq!(frame.len(), 320 * 240);
    let frame_colour = Rgb24::new(8, 8, 8).into_u32();
    let fill_colour = Rgb24::new(0, 0, 0).into_u32();
    assert_eq!(frame[0], frame_colour);
    assert_eq!(frame[10 * 320 + 10], fill_colour);
    assert_eq!(frame[9 * 320 + 10], frame_colour);

    let event = session.window_input(DesktopInput::RedrawRequested).unwrap();
    let commands = session.handle_runtime_event(event);
    assert_eq!(run_commands(&mut session, commands, window()), vec![HostAction::Draw]);
}

#[test]
fn development_keys_force_phases() {
    let mut session = DesktopSession::new(plan_black_box_session(), Some(BehaviorPhase::Closing));
    assert_eq!(session.forced_behavior(), Some(BehaviorPhase::Closing));
    session.attach();
    assert_eq!(
        session.window_input(DesktopInput::CharacterPressed("2".to_string())),
        Some(RuntimeEvent::DevelopmentSetBehavior(BehaviorPhase::Idle))
    );
    assert_eq!(
        session.window_input(DesktopInput::CharacterPressed("1".to_string())),
        Some(RuntimeEvent::DevelopmentSetBehavior(BehaviorPhase::Booting))
    );
    assert_eq!(
        session.set_behavior_event(BehaviorPhase::Closing),
        RuntimeEvent::DevelopmentSetBehavior(BehaviorPhase::Closing)
    );
    assert_eq!(session.window_input(DesktopInput::CharacterPressed("x".to_string())), None);
    assert_eq!(session.window_input(DesktopInput::CharacterPressed("12".to_string())), None);
    assert_eq!(session.window_input(DesktopInput::Other), None);

    let commands = session.handle_runtime_event(RuntimeEvent::DevelopmentSetBehavior(BehaviorPhase::Closing));
    assert_eq!(commands, vec![RuntimeCommand::RequestRedraw]);
    assert_eq!(session.runtime().state().behavior, BehaviorPhase::Closing);
}

#[test]
fn resize_changes_the_surface_extent_before_the_redraw() {
    let mut session = DesktopSession::new(plan_black_box_session(), None);
    session.attach();
    let event = session.window_input(DesktopInput::Resized(Extent::new(480, 480)));
    assert_eq!(event, Some(RuntimeEvent::SurfaceInvalidated));
    assert_eq!(session.runtime().state().surface.extent, Extent::new(480, 480));
    let commands = session.handle_runtime_event(event.unwrap());
    match commands[0] {
        RuntimeCommand::Present(model) => {
            assert_eq!(model.layer, LayerRole::Overlay);
            assert!(matches!(model.intent, RenderIntent::ClearInset { margin: 22, .. }));
        }
        _ => panic!("expected a present"),
    }
    let actions = run_commands(&mut session, commands, Extent::new(480, 480));
    assert_eq!(actions[0], HostAction::Draw);
    assert_eq!(session.frame().len(), 480 * 480);
}

#[test]
fn an_empty_window_is_not_drawn() {
    let mut session = DesktopSession::new(plan_black_box_session(), None);
    session.attach();
    let model = PresentModel::clear_solid(Rgb24::new(1, 1, 1));
    assert_eq!(
        session.execute_command(RuntimeCommand::Present(model), Extent::new(0, 0)),
        HostAction::Nothing
    );
    assert!(session.frame().is_empty());
}

#[test]
fn host_close_ends_the_session_with_a_report() {
    let mut session = DesktopSession::new(plan_black_box_session(), None);
    session.attach();
    let event = session.window_input(DesktopInput::CloseRequested).unwrap();
    assert_eq!(event, RuntimeEvent::CloseRequested(CloseRequest::new(CloseRequestSource::Host)));
    assert!(session.runtime().state().host.close_requested);
    let commands = session.handle_runtime_event(event);
    assert_eq!(run_commands(&mut session, commands, window()), vec![HostAction::Exit]);
    assert_eq!(
        session.report(),
        Some(DesktopRunReport {
            exit_reason: RuntimeExitReason::HostRequestedClose,
            presented_at_least_once: false,
        })
    );
}

#[test]
fn escape_ends_the_session_after_a_present() {
    let mut session = DesktopSession::new(plan_black_box_session(), None);
    session.attach();
    let event = session.window_input(DesktopInput::RedrawRequested).unwrap();
    let commands = session.handle_runtime_event(event);
    run_commands(&mut session, commands, window());
    let event = session.window_input(DesktopInput::EscapePressed).unwrap();
    let commands = session.handle_runtime_event(event);
    assert_eq!(run_commands(&mut session, commands, window()), vec![HostAction::Exit]);
    assert_eq!(
        session.report(),
        Some(DesktopRunReport { exit_reason: RuntimeExitReason::EscapePressed, presented_at_least_once: true })
    );
}

#[test]
fn an_ignored_close_clears_the_request() {
    let mut session = DesktopSession::new(plan_black_box_session(), None);
    session.attach();
    session.window_input(DesktopInput::CloseRequested);
    assert!(session.runtime().state().host.close_requested);
    let action = session.execute_command(RuntimeCommand::CompleteClose(CloseDecision::Ignore), window());
    assert_eq!(action, HostAction::Nothing);
    assert!(!session.runtime().state().host.close_requested);
    assert!(session.report().is_none());
}
