use stui::ipc::ChannelNamespace;
use stui::playground::{
    black_box_event_names, error_event_data, event_catalog_response, handle_control_request,
    handle_events_request, ipc_control_channel, ipc_events_channel, namespace_for,
    parse_behavior_phase, push_event, BlackBoxDebugBehavior, BlackBoxIpcService,
    BlackBoxPlayground, BlackBoxPlaygroundConfig, DebugSnapshotFormat, EventQueueState,
};
use stui::runtime::{BehaviorPhase, BlackBoxRuntime, RuntimeDeclaration};

fn config(forced: Option<BlackBoxDebugBehavior>, dump: bool, format: DebugSnapshotFormat) -> BlackBoxPlaygroundConfig {
    BlackBoxPlaygroundConfig { forced_behavior: forced, dump_snapshot: dump, snapshot_format: format }
}

#[test]
fn default_configuration() {
    assert_eq!(
        BlackBoxPlaygroundConfig::default(),
        config(None, false, DebugSnapshotFormat::Text)
    );
    assert_eq!(DebugSnapshotFormat::default(), DebugSnapshotFormat::Text);
    assert_eq!(BehaviorPhase::from(BlackBoxDebugBehavior::Booting), BehaviorPhase::Booting);
    assert_eq!(BehaviorPhase::from(BlackBoxDebugBehavior::Idle), BehaviorPhase::Idle);
    assert_eq!(BehaviorPhase::from(BlackBoxDebugBehavior::Closing), BehaviorPhase::Closing);
}

#[test]
fn loading_uses_the_black_box_declaration_and_plan() {
    let playground = BlackBoxPlayground::load(BlackBoxPlaygroundConfig::default());
    assert_eq!(playground.runtime, RuntimeDeclaration::black_box());
    assert_eq!(playground.plan, stui::desktop::plan_black_box_session());
    assert_eq!(playground.config, BlackBoxPlaygroundConfig::default());
}

#[test]
fn summaries() {
    let playground = BlackBoxPlayground::load(BlackBoxPlaygroundConfig::default());
    assert_eq!(
        playground.summary(),
        "playground=black-box host=black-box.host surface=black-box.surface extent=320x240 decorated=false forced_behavior=None dump_snapshot=false"
    );
    let playground =
        BlackBoxPlayground::load(config(Some(BlackBoxDebugBehavior::Idle), true, DebugSnapshotFormat::Json));
    assert_eq!(
        playground.summary(),
        "playground=black-box host=black-box.host surface=black-box.surface extent=320x240 decorated=false forced_behavior=Some(Idle) dump_snapshot=true"
    );
}

#[test]
fn text_snapshot_of_a_forced_phase() {
    let playground =
        BlackBoxPlayground::load(config(Some(BlackBoxDebugBehavior::Closing), true, DebugSnapshotFormat::Text));
    assert_eq!(
        playground.debug_snapshot_output(),
        "behavior=Closing host(visible=false close_requested=false) surface(extent=320x240 visible=false) root(frame=Rgb24 { red: 3, green: 3, blue: 3 } margin=16) fill(color=Rgb24 { red: 0, green: 0, blue: 0 } layer=Overlay) present=PresentModel { layer: Overlay, intent: ClearInset { background: Rgb24 { red: 3, green: 3, blue: 3 }, inset: Rgb24 { red: 0, green: 0, blue: 0 }, margin: 16 } } presented_at_least_once=false"
    );
}

#[test]
fn json_snapshot_is_a_document() {
    let playground =
        BlackBoxPlayground::load(config(Some(BlackBoxDebugBehavior::Idle), true, DebugSnapshotFormat::Json));
    let mut runtime = BlackBoxRuntime::new();
    runtime.handle_event(stui::runtime::RuntimeEvent::DevelopmentSetBehavior(BehaviorPhase::Idle));
    let expected = runtime.debug_document(Some(BehaviorPhase::Idle)).to_json();
    assert_eq!(playground.debug_snapshot_output(), expected);
    assert!(expected.contains("\"forced_behavior\":\"idle\""));

    let unforced = BlackBoxPlayground::load(config(None, true, DebugSnapshotFormat::Json));
    assert!(unforced.debug_snapshot_output().contains("\"forced_behavior\":null"));
}

#[test]
fn server_summary_and_channels() {
    let playground = BlackBoxPlayground::load(BlackBoxPlaygroundConfig::default());
    assert_eq!(
        playground.ipc_server_summary(Some("stim.dev"), None, "alpha"),
        "ipc_server runtime=black-box instance=alpha prefix=stim.dev control_channel=stim.dev.black-box.alpha.debug events_channel=stim.dev.black-box.alpha.events events_mode=request-response-poll"
    );
    assert!(playground
        .ipc_server_summary(None, Some("env.pfx"), "b")
        .contains("prefix=env.pfx control_channel=env.pfx.black-box.b.debug"));
    assert!(playground
        .ipc_server_summary(None, None, "b")
        .contains("prefix=stui.local control_channel=stui.local.black-box.b.debug"));
    assert_eq!(namespace_for(Some(" "), Some("env")).prefix(), "stui.local");
    assert_eq!(namespace_for(Some("p"), Some("env")).prefix(), "p");
    let namespace = ChannelNamespace::from_prefix("default");
    assert_eq!(ipc_control_channel(&namespace, "x y").as_str(), "default.black-box.x_y.debug");
    assert_eq!(ipc_events_channel(&namespace, "x y").as_str(), "default.black-box.x_y.events");
}

#[test]
fn event_catalog() {
    assert_eq!(
        black_box_event_names(),
        vec!["runtime.inspected", "runtime.behavior-changed", "runtime.shutdown-requested", "ipc.error"]
    );
    assert_eq!(
        event_catalog_response(&ChannelNamespace::default(), "alpha"),
        "{\"ok\":true,\"kind\":\"events\",\"data\":{\"catalog\":{\"runtime\":\"black-box\",\"instance\":\"alpha\",\"transport\":\"local-request-response\",\"events_channel\":\"stui.local.black-box.alpha.events\",\"control_channel\":\"stui.local.black-box.alpha.debug\",\"mode\":\"request-response-poll\",\"emits\":[\"runtime.inspected\",\"runtime.behavior-changed\",\"runtime.shutdown-requested\",\"ipc.error\"]},\"queue\":{\"capacity\":32,\"drop_policy\":\"drop-oldest\"}}}"
    );
}

#[test]
fn queue_drops_the_oldest_event_when_full() {
    let mut events = EventQueueState::default();
    let mut next_id: u64 = 1;
    for _ in 0..32 {
        push_event(&mut events, &mut next_id, "k", "{}");
    }
    assert_eq!(events.items.len(), 32);
    assert_eq!(events.dropped_since_last_poll, 0);
    assert_eq!(events.items[0], "{\"id\":1,\"kind\":\"k\",\"data\":{}}");
    push_event(&mut events, &mut next_id, "last", "[1]");
    assert_eq!(next_id, 34);
    assert_eq!(events.items.len(), 32);
    assert_eq!(events.items[0], "{\"id\":2,\"kind\":\"k\",\"data\":{}}");
    assert_eq!(events.items[31], "{\"id\":33,\"kind\":\"last\",\"data\":[1]}");
    assert_eq!(events.dropped_since_last_poll, 1);
    assert_eq!(events.total_dropped, 1);
}

#[test]
fn polling_drains_the_queue_and_reports_counters() {
    let mut events = EventQueueState::default();
    let mut next_id: u64 = 7;
    push_event(&mut events, &mut next_id, "a", "1");
    push_event(&mut events, &mut next_id, "b", "2");
    events.dropped_since_last_poll = 3;
    events.total_dropped = 5;
    let response = handle_events_request("alpha", &mut events, "POLL");
    assert_eq!(
        response,
        "{\"ok\":true,\"kind\":\"events.poll\",\"data\":{\"runtime\":\"black-box\",\"instance\":\"alpha\",\"events\":[{\"id\":7,\"kind\":\"a\",\"data\":1},{\"id\":8,\"kind\":\"b\",\"data\":2}],\"drained_count\":2,\"dropped_since_last_poll\":3,\"total_dropped\":5,\"queue_capacity\":32}}"
    );
    assert!(events.items.is_empty());
    assert_eq!(events.dropped_since_last_poll, 0);
    assert_eq!(events.total_dropped, 5);
    let empty = handle_events_request("alpha", &mut events, "poll");
    assert!(empty.contains("\"events\":[],\"drained_count\":0,\"dropped_since_last_poll\":0,\"total_dropped\":5"));
}

#[test]
fn unknown_events_requests_are_refused() {
    let mut events = EventQueueState::default();
    let mut next_id: u64 = 1;
    push_event(&mut events, &mut next_id, "a", "1");
    let response = handle_events_request("alpha", &mut events, "flush");
    assert_eq!(
        response,
        "{\"ok\":false,\"error\":{\"code\":\"unknown-events-request\",\"detail\":\"unknown events request: flush\"}}"
    );
    assert_eq!(events.items.len(), 1);
}

#[test]
fn behavior_names_are_trimmed_and_case_insensitive() {
    assert_eq!(parse_behavior_phase(" IDLE "), Some(BehaviorPhase::Idle));
    assert_eq!(parse_behavior_phase("Booting"), Some(BehaviorPhase::Booting));
    assert_eq!(parse_behavior_phase("closing\n"), Some(BehaviorPhase::Closing));
    assert_eq!(parse_behavior_phase("idle2"), None);
    assert_eq!(parse_behavior_phase(""), None);
}

#[test]
fn error_event_data_escapes() {
    assert_eq!(error_event_data("c", "d\"e"), "{\"code\":\"c\",\"detail\":\"d\\\"e\"}");
}

struct Control {
    namespace: ChannelNamespace,
    runtime: BlackBoxRuntime,
    events: EventQueueState,
    next_id: u64,
}

impl Control {
    fn new() -> Self {
        Control {
            namespace: ChannelNamespace::default(),
            runtime: BlackBoxRuntime::new(),
            events: EventQueueState::default(),
            next_id: 1,
        }
    }

    fn send(&mut self, request: &str) -> (String, bool) {
        handle_control_request(
            &self.namespace,
            "alpha",
            &mut self.runtime,
            &mut self.events,
            &mut self.next_id,
            request,
        )
    }
}

#[test]
fn inspect_reports_the_document_and_queues_it() {
    let mut control = Control::new();
    let document = control.runtime.debug_document(None).to_json();
    let (response, stop) = control.send("Inspect");
    assert!(!stop);
    assert_eq!(response, format!("{{\"ok\":true,\"kind\":\"inspect\",\"data\":{}}}", document));
    assert_eq!(control.events.items, vec![format!("{{\"id\":1,\"kind\":\"runtime.inspected\",\"data\":{}}}", document)]);
    assert_eq!(control.next_id, 2);
}

#[test]
fn events_request_answers_the_catalog_without_queueing() {
    let mut control = Control::new();
    let (response, stop) = control.send("EVENTS");
    assert!(!stop);
    assert_eq!(response, event_catalog_response(&ChannelNamespace::default(), "alpha"));
    assert!(control.events.items.is_empty());
    assert_eq!(control.next_id, 1);
}

#[test]
fn set_behavior_forces_the_phase() {
    let mut control = Control::new();
    let (response, stop) = control.send("set-behavior  Closing ");
    assert!(!stop);
    assert_eq!(control.runtime.state().behavior, BehaviorPhase::Closing);
    let document = control.runtime.debug_document(Some(BehaviorPhase::Closing)).to_json();
    assert_eq!(response, format!("{{\"ok\":true,\"kind\":\"set-behavior\",\"data\":{}}}", document));
    assert!(control.events.items[0].starts_with("{\"id\":1,\"kind\":\"runtime.behavior-changed\""));
}

#[test]
fn invalid_and_unknown_requests() {
    let mut control = Control::new();
    let (response, stop) = control.send("set-behavior sleepy");
    assert!(!stop);
    assert_eq!(
        response,
        "{\"ok\":false,\"error\":{\"code\":\"invalid-request\",\"detail\":\"expected one of: booting, idle, closing\"}}"
    );
    assert_eq!(
        control.events.items[0],
        "{\"id\":1,\"kind\":\"ipc.error\",\"data\":{\"code\":\"invalid-request\",\"detail\":\"expected one of: booting, idle, closing\"}}"
    );
    let (response, _) = control.send("Set-Behavior idle");
    assert_eq!(
        response,
        "{\"ok\":false,\"error\":{\"code\":\"unknown-request\",\"detail\":\"unknown request: Set-Behavior idle\"}}"
    );
    let (response, _) = control.send("say \"hi\"");
    assert_eq!(
        response,
        "{\"ok\":false,\"error\":{\"code\":\"unknown-request\",\"detail\":\"unknown request: say \\\"hi\\\"\"}}"
    );
    assert_eq!(control.events.items.len(), 3);
    assert_eq!(control.runtime.state().behavior, BehaviorPhase::Booting);
}

#[test]
fn shutdown_asks_the_server_to_stop() {
    let mut control = Control::new();
    let snapshot = control.runtime.debug_snapshot_json();
    let (response, stop) = control.send("SHUTDOWN");
    assert!(stop);
    assert_eq!(
        response,
        format!(
            "{{\"ok\":true,\"kind\":\"shutdown\",\"data\":{{\"runtime\":\"black-box\",\"status\":\"shutting-down\",\"snapshot\":{}}}}}",
            snapshot
        )
    );
    assert!(control.events.items[0].starts_with("{\"id\":1,\"kind\":\"runtime.shutdown-requested\""));
}

#[test]
fn service_with_a_forced_phase_queues_the_change() {
    let service = BlackBoxIpcService::new(
        ChannelNamespace::from_prefix("stim.dev"),
        "beta",
        Some(BlackBoxDebugBehavior::Closing),
    );
    assert_eq!(service.next_event_id(), 2);
    assert!(!service.should_stop_when_idle());
    assert_eq!(service.poll_idle_sleep_ms(), 15);
}

#[test]
fn service_stops_once_shutdown_is_delivered_and_the_queue_is_drained() {
    let mut service = BlackBoxIpcService::new(ChannelNamespace::default(), "alpha", None);
    assert_eq!(service.next_event_id(), 1);
    assert!(service.accepts_requests());
    let (response, stop) = service.handle_control("  inspect \n");
    assert!(!stop);
    assert!(response.starts_with("{\"ok\":true,\"kind\":\"inspect\""));
    service.mark_answered(stop);
    let (response, stop) = service.handle_control("shutdown");
    assert!(stop);
    assert!(response.starts_with("{\"ok\":true,\"kind\":\"shutdown\""));
    assert_eq!(service.next_event_id(), 3);
    let polled = service.handle_events(" poll ");
    assert!(polled.contains("\"drained_count\":2"));
    assert!(polled.contains("\"instance\":\"alpha\""));
    assert!(!service.should_stop_when_idle());
    service.mark_answered(stop);
    assert!(service.should_stop_when_idle());
    let refused = service.handle_events("peek");
    assert!(refused.contains("unknown events request: peek"));
}
