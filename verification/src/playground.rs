//! The black-box playground: its configuration, its text and JSON outputs,
//! and its IPC service (a control surface, and an events surface whose
//! queue drops its oldest entry when full). Sockets, the serve loop's
//! sleeping and the desktop run belong to the program.
use vstd::prelude::*;
use crate::desktop::{is_black_box_plan, plan_black_box_session, DesktopSessionPlan};
use crate::inspect::{
    behavior_debug, behavior_text, bool_text, document_json, snapshot_json, snapshot_of,
    summary_text,
};
use crate::ipc::{
    catalog_json, channel_name, error_envelope, escape_json_string, json_escaped, ok_envelope,
    ok_response, error_response, str_views, ChannelName, ChannelNamespace, IpcEventCatalog,
    IpcPolicy,
};
use crate::runtime::{
    initial_state, is_black_box_declaration, runtime_step, BehaviorPhase, BlackBoxRuntime,
    BlackBoxRuntimeState, RuntimeDeclaration, RuntimeEvent,
};
use crate::surface::Extent;
use crate::text::{
    ascii_lower, decimal, eq_ignore_ascii_case, push_decimal, str_eq_ignore_ascii_case, str_equal,
    str_strip_prefix, strip_prefix, trim, trimmed, joined, join_items,
};

verus! {

// ---------------------------------------------------------------------------
// Configuration
// ---------------------------------------------------------------------------

/// A phase a developer can force on the playground.
#[derive(Debug, Clone, Copy, PartialEq, Eq, Structural)]
pub enum BlackBoxDebugBehavior {
    Booting,
    Idle,
    Closing,
}

/// The runtime phase a forced playground phase stands for.
pub open spec fn debug_behavior_phase(b: BlackBoxDebugBehavior) -> BehaviorPhase {
    match b {
        BlackBoxDebugBehavior::Booting => BehaviorPhase::Booting,
        BlackBoxDebugBehavior::Idle => BehaviorPhase::Idle,
        BlackBoxDebugBehavior::Closing => BehaviorPhase::Closing,
    }
}

impl From<BlackBoxDebugBehavior> for BehaviorPhase {
    fn from(value: BlackBoxDebugBehavior) -> (p: BehaviorPhase) {
        match value {
            BlackBoxDebugBehavior::Booting => BehaviorPhase::Booting,
            BlackBoxDebugBehavior::Idle => BehaviorPhase::Idle,
            BlackBoxDebugBehavior::Closing => BehaviorPhase::Closing,
        }
    }
}

impl vstd::std_specs::convert::FromSpecImpl<BlackBoxDebugBehavior> for BehaviorPhase {
    open spec fn obeys_from_spec() -> bool {
        true
    }

    open spec fn from_spec(v: BlackBoxDebugBehavior) -> BehaviorPhase {
        debug_behavior_phase(v)
    }
}

fn to_phase(b: BlackBoxDebugBehavior) -> (p: BehaviorPhase)
    ensures
        p == debug_behavior_phase(b),
{
    BehaviorPhase::from(b)
}

/// How a snapshot is written out.
#[derive(Debug, Clone, Copy, PartialEq, Eq, Structural)]
pub enum DebugSnapshotFormat {
    Text,
    Json,
}

impl Default for DebugSnapshotFormat {
    fn default() -> (f: Self)
        ensures
            f == DebugSnapshotFormat::Text,
    {
        DebugSnapshotFormat::Text
    }
}

/// What a playground run is asked to do.
#[derive(Debug, Clone, Copy, PartialEq, Eq, Structural)]
pub struct BlackBoxPlaygroundConfig {
    pub forced_behavior: Option<BlackBoxDebugBehavior>,
    pub dump_snapshot: bool,
    pub snapshot_format: DebugSnapshotFormat,
}

impl Default for BlackBoxPlaygroundConfig {
    /// No forced phase, no snapshot dump, text snapshots.
    fn default() -> (c: Self)
        ensures
            c == (BlackBoxPlaygroundConfig {
                forced_behavior: None,
                dump_snapshot: false,
                snapshot_format: DebugSnapshotFormat::Text,
            }),
    {
        Self { forced_behavior: None, dump_snapshot: false, snapshot_format: DebugSnapshotFormat::Text }
    }
}

/// The black-box playground: its runtime declaration, desktop plan and
/// configuration.
#[derive(Debug, Clone, PartialEq, Eq)]
pub struct BlackBoxPlayground {
    pub runtime: RuntimeDeclaration,
    pub plan: DesktopSessionPlan,
    pub config: BlackBoxPlaygroundConfig,
}

/// A forced phase as `Debug` prints an `Option` of it.
pub open spec fn forced_debug(b: Option<BlackBoxDebugBehavior>) -> Seq<char> {
    match b {
        Some(v) => "Some("@ + behavior_debug(debug_behavior_phase(v)) + ")"@,
        None => "None"@,
    }
}

/// The playground's one-line summary.
pub open spec fn playground_summary(p: BlackBoxPlayground) -> Seq<char> {
    "playground=black-box host="@ + p.plan.host.id.0@ + " surface="@ + p.plan.surface.id.0@
        + " extent="@ + decimal(p.plan.surface.initial_extent.width as nat) + "x"@ + decimal(
        p.plan.surface.initial_extent.height as nat,
    ) + " decorated="@ + bool_text(p.plan.surface.decorated) + " forced_behavior="@
        + forced_debug(p.config.forced_behavior) + " dump_snapshot="@ + bool_text(
        p.config.dump_snapshot,
    )
}

/// The runtime state a snapshot request reports: a fresh runtime, moved
/// to the forced phase if there is one.
pub open spec fn snapshot_state(forced: Option<BlackBoxDebugBehavior>) -> BlackBoxRuntimeState {
    let init = initial_state(Extent { width: 320, height: 240 });
    match forced {
        Some(b) => runtime_step(init, RuntimeEvent::DevelopmentSetBehavior(debug_behavior_phase(b))).0,
        None => init,
    }
}

/// The forced phase as a runtime phase.
pub open spec fn forced_phase(forced: Option<BlackBoxDebugBehavior>) -> Option<BehaviorPhase> {
    match forced {
        Some(b) => Some(debug_behavior_phase(b)),
        None => None,
    }
}

fn push_bool(out: &mut String, b: bool)
    ensures
        final(out)@ == old(out)@ + bool_text(b),
{
    if b {
        out.append("true");
    } else {
        out.append("false");
    }
}

fn phase_debug_str(b: BehaviorPhase) -> (s: &'static str)
    ensures
        s@ == behavior_debug(b),
{
    match b {
        BehaviorPhase::Booting => "Booting",
        BehaviorPhase::Idle => "Idle",
        BehaviorPhase::Closing => "Closing",
    }
}

impl BlackBoxPlayground {
    /// The black-box declaration and plan under a configuration.
    pub fn load(config: BlackBoxPlaygroundConfig) -> (p: Self)
        ensures
            is_black_box_declaration(p.runtime),
            is_black_box_plan(p.plan),
            p.config == config,
    {
        Self { runtime: RuntimeDeclaration::black_box(), plan: plan_black_box_session(), config }
    }

    /// A one-line summary of the plan and configuration.
    pub fn summary(&self) -> (s: String)
        ensures
            s@ == playground_summary(*self),
    {
        let mut out = String::new();
        out.append("playground=black-box host=");
        out.append(self.plan.host.id.0);
        out.append(" surface=");
        out.append(self.plan.surface.id.0);
        out.append(" extent=");
        push_decimal(&mut out, self.plan.surface.initial_extent.width as u128);
        out.append("x");
        push_decimal(&mut out, self.plan.surface.initial_extent.height as u128);
        out.append(" decorated=");
        push_bool(&mut out, self.plan.surface.decorated);
        out.append(" forced_behavior=");
        let ghost mid = out@;
        match self.config.forced_behavior {
            Some(b) => {
                out.append("Some(");
                out.append(phase_debug_str(to_phase(b)));
                out.append(")");
                assert(out@ =~= mid + forced_debug(self.config.forced_behavior));
            },
            None => {
                out.append("None");
            },
        }
        out.append(" dump_snapshot=");
        push_bool(&mut out, self.config.dump_snapshot);
        assert(out@ =~= playground_summary(*self));
        out
    }

    /// The snapshot of a fresh runtime in the forced phase, as text or as a
    /// JSON document.
    pub fn debug_snapshot_output(&self) -> (s: String)
        ensures
            self.config.snapshot_format == DebugSnapshotFormat::Text ==> s@ == summary_text(
                snapshot_of(snapshot_state(self.config.forced_behavior)),
            ),
            self.config.snapshot_format == DebugSnapshotFormat::Json ==> s@ == document_json(
                "black-box"@,
                "black-box.host"@,
                "black-box.surface"@,
                forced_phase(self.config.forced_behavior),
                snapshot_of(snapshot_state(self.config.forced_behavior)),
            ),
    {
        let mut runtime = BlackBoxRuntime::new();
        let forced = match self.config.forced_behavior {
            Some(b) => Some(to_phase(b)),
            None => None,
        };
        if let Some(behavior) = forced {
            runtime.handle_event(RuntimeEvent::DevelopmentSetBehavior(behavior));
        }
        match self.config.snapshot_format {
            DebugSnapshotFormat::Text => runtime.debug_summary(),
            DebugSnapshotFormat::Json => runtime.debug_document(forced).to_json(),
        }
    }

    /// A one-line summary of the IPC server the playground would run.
    /// `env_prefix` is the value of the channel-prefix variable, if set.
    pub fn ipc_server_summary(
        &self,
        namespace_prefix: Option<&str>,
        env_prefix: Option<&str>,
        instance: &str,
    ) -> (s: String)
        ensures
            s@ == server_summary(namespace_of(namespace_prefix, env_prefix), instance@),
    {
        let namespace = namespace_for(namespace_prefix, env_prefix);
        let control = ipc_control_channel(&namespace, instance);
        let events = ipc_events_channel(&namespace, instance);
        let mut out = String::new();
        out.append("ipc_server runtime=black-box instance=");
        out.append(instance);
        out.append(" prefix=");
        out.append(namespace.prefix());
        out.append(" control_channel=");
        out.append(control.as_str());
        out.append(" events_channel=");
        out.append(events.as_str());
        out.append(" events_mode=request-response-poll");
        assert(out@ =~= server_summary(namespace@, instance@));
        out
    }
}

/// The summary of the IPC server for a namespace prefix and an instance.
pub open spec fn server_summary(prefix: Seq<char>, instance: Seq<char>) -> Seq<char> {
    "ipc_server runtime=black-box instance="@ + instance + " prefix="@ + prefix
        + " control_channel="@ + control_channel_name(prefix, instance) + " events_channel="@
        + events_channel_name(prefix, instance) + " events_mode=request-response-poll"@
}

// ---------------------------------------------------------------------------
// Channels
// ---------------------------------------------------------------------------

/// The namespace prefix for an explicit prefix, or else for the value of
/// the channel-prefix variable.
pub open spec fn namespace_of(prefix: Option<&str>, env_prefix: Option<&str>) -> Seq<char> {
    match prefix {
        Some(p) => crate::ipc::namespace_prefix(p@),
        None => match env_prefix {
            Some(v) => crate::ipc::namespace_prefix(v@),
            None => "stui.local"@,
        },
    }
}

/// The namespace for an explicit prefix, or else for the value of the
/// channel-prefix variable.
pub fn namespace_for(prefix: Option<&str>, env_prefix: Option<&str>) -> (n: ChannelNamespace)
    ensures
        n@ == namespace_of(prefix, env_prefix),
{
    match prefix {
        Some(p) => ChannelNamespace::from_prefix(p),
        None => ChannelNamespace::from_env_value(env_prefix),
    }
}

/// The control channel of an instance.
pub open spec fn control_channel_name(prefix: Seq<char>, instance: Seq<char>) -> Seq<char> {
    channel_name(prefix, "black-box"@, instance, "debug"@)
}

/// The events channel of an instance.
pub open spec fn events_channel_name(prefix: Seq<char>, instance: Seq<char>) -> Seq<char> {
    channel_name(prefix, "black-box"@, instance, "events"@)
}

pub fn ipc_control_channel(namespace: &ChannelNamespace, instance: &str) -> (c: ChannelName)
    ensures
        c@ == control_channel_name(namespace@, instance@),
{
    namespace.channel("black-box", instance, "debug")
}

pub fn ipc_events_channel(namespace: &ChannelNamespace, instance: &str) -> (c: ChannelName)
    ensures
        c@ == events_channel_name(namespace@, instance@),
{
    namespace.channel("black-box", instance, "events")
}

/// The kinds of event the playground emits.
pub fn black_box_event_names() -> (v: Vec<&'static str>)
    ensures
        str_views(v@) == event_names(),
{
    let mut v = Vec::new();
    v.push("runtime.inspected");
    v.push("runtime.behavior-changed");
    v.push("runtime.shutdown-requested");
    v.push("ipc.error");
    assert(str_views(v@) =~= event_names());
    v
}

/// The kinds of event the playground emits.
pub open spec fn event_names() -> Seq<Seq<char>> {
    seq![
        "runtime.inspected"@,
        "runtime.behavior-changed"@,
        "runtime.shutdown-requested"@,
        "ipc.error"@,
    ]
}

/// The answer to an `events` request: the catalog of the events surface
/// and its queue policy.
pub open spec fn catalog_response(prefix: Seq<char>, instance: Seq<char>) -> Seq<char> {
    ok_envelope(
        "events"@,
        "{\"catalog\":"@ + catalog_json(
            "black-box"@,
            instance,
            "local-request-response"@,
            events_channel_name(prefix, instance),
            control_channel_name(prefix, instance),
            "request-response-poll"@,
            event_names(),
        ) + ",\"queue\":{\"capacity\":"@ + decimal(32) + ",\"drop_policy\":\""@ + "drop-oldest"@
            + "\"}}"@,
    )
}

/// The catalog response for an instance.
pub fn event_catalog_response(namespace: &ChannelNamespace, instance: &str) -> (s: String)
    ensures
        s@ == catalog_response(namespace@, instance@),
{
    let control = ipc_control_channel(namespace, instance);
    let events = ipc_events_channel(namespace, instance);
    let names = black_box_event_names();
    let catalog = IpcEventCatalog {
        runtime: "black-box",
        instance,
        transport: "local-request-response",
        events_channel: events.as_str(),
        control_channel: control.as_str(),
        mode: "request-response-poll",
        emits: names.as_slice(),
    };
    let policy = IpcPolicy::default();
    let mut data = String::new();
    data.append("{\"catalog\":");
    let c = catalog.to_json();
    data.append(c.as_str());
    data.append(",\"queue\":{\"capacity\":");
    push_decimal(&mut data, policy.event_queue_capacity as u128);
    data.append(",\"drop_policy\":\"");
    data.append(policy.event_queue_drop_policy().as_str());
    data.append("\"}}");
    ok_response("events", data.as_str())
}

// ---------------------------------------------------------------------------
// The event queue
// ---------------------------------------------------------------------------

/// The events waiting for the next poll, and how many were dropped.
#[derive(Debug, Clone, PartialEq, Eq)]
pub struct EventQueueState {
    pub items: Vec<String>,
    pub dropped_since_last_poll: u64,
    pub total_dropped: u64,
}

/// The queue as text entries and counters.
pub struct QueueView {
    pub items: Seq<Seq<char>>,
    pub dropped_since_last_poll: u64,
    pub total_dropped: u64,
}

impl View for EventQueueState {
    type V = QueueView;

    open spec fn view(&self) -> QueueView {
        QueueView {
            items: Seq::new(self.items@.len(), |i: int| self.items@[i]@),
            dropped_since_last_poll: self.dropped_since_last_poll,
            total_dropped: self.total_dropped,
        }
    }
}

impl Default for EventQueueState {
    fn default() -> (q: Self)
        ensures
            q@.items.len() == 0,
            q.dropped_since_last_poll == 0,
            q.total_dropped == 0,
    {
        Self { items: Vec::new(), dropped_since_last_poll: 0, total_dropped: 0 }
    }
}

/// The capacity of the event queue.
pub open spec fn queue_capacity() -> nat {
    32
}

/// One queued event: `{"id":<id>,"kind":"<kind>","data":<data>}`.
pub open spec fn event_entry(id: u64, kind: Seq<char>, data: Seq<char>) -> Seq<char> {
    "{\"id\":"@ + decimal(id as nat) + ",\"kind\":\""@ + kind + "\",\"data\":"@ + data + "}"@
}

/// The queue after an event is pushed: when the queue is full, its oldest
/// entry is dropped and counted.
pub open spec fn queue_pushed(q: QueueView, id: u64, kind: Seq<char>, data: Seq<char>) -> QueueView {
    let full = q.items.len() >= queue_capacity();
    QueueView {
        items: (if full {
            q.items.drop_first()
        } else {
            q.items
        }).push(event_entry(id, kind, data)),
        dropped_since_last_poll: if full {
            (q.dropped_since_last_poll + 1) as u64
        } else {
            q.dropped_since_last_poll
        },
        total_dropped: if full {
            (q.total_dropped + 1) as u64
        } else {
            q.total_dropped
        },
    }
}

/// Queues an event under the next id and advances the id.
pub fn push_event(events: &mut EventQueueState, next_event_id: &mut u64, kind: &str, data_json: &str)
    requires
        *old(next_event_id) < u64::MAX,
        old(events).dropped_since_last_poll < u64::MAX,
        old(events).total_dropped < u64::MAX,
    ensures
        final(events)@ == queue_pushed(old(events)@, *old(next_event_id), kind@, data_json@),
        *final(next_event_id) == *old(next_event_id) + 1,
{
    let policy = IpcPolicy::default();
    match policy.event_queue_drop_policy() {
        crate::ipc::EventQueueDropPolicy::DropOldest => {
            if events.items.len() >= policy.event_queue_capacity {
                events.items.remove(0);
                events.dropped_since_last_poll = events.dropped_since_last_poll + 1;
                events.total_dropped = events.total_dropped + 1;
            }
        },
    }
    let mut entry = String::new();
    entry.append("{\"id\":");
    push_decimal(&mut entry, *next_event_id as u128);
    entry.append(",\"kind\":\"");
    entry.append(kind);
    entry.append("\",\"data\":");
    entry.append(data_json);
    entry.append("}");
    assert(entry@ =~= event_entry(*old(next_event_id), kind@, data_json@));
    events.items.push(entry);
    *next_event_id = *next_event_id + 1;
    assert(final(events)@.items =~= queue_pushed(old(events)@, *old(next_event_id), kind@, data_json@).items);
}

/// The error data of a failed request.
pub open spec fn error_event_json(code: Seq<char>, detail: Seq<char>) -> Seq<char> {
    "{\"code\":\""@ + json_escaped(code) + "\",\"detail\":\""@ + json_escaped(detail) + "\"}"@
}

pub fn error_event_data(code: &str, detail: &str) -> (s: String)
    ensures
        s@ == error_event_json(code@, detail@),
{
    let mut out = String::new();
    out.append("{\"code\":\"");
    let c = escape_json_string(code);
    out.append(c.as_str());
    out.append("\",\"detail\":\"");
    let d = escape_json_string(detail);
    out.append(d.as_str());
    out.append("\"}");
    assert(out@ =~= error_event_json(code@, detail@));
    out
}

// ---------------------------------------------------------------------------
// Requests
// ---------------------------------------------------------------------------

/// `s` with ASCII letters lower-cased.
pub open spec fn ascii_lowercase(s: Seq<char>) -> Seq<char> {
    Seq::new(s.len(), |i: int| ascii_lower(s[i]))
}

/// The phase a request value names: its trimmed, lower-cased text must be
/// `booting`, `idle` or `closing`.
pub open spec fn behavior_named(value: Seq<char>) -> Option<BehaviorPhase> {
    let v = ascii_lowercase(trimmed(value));
    if v == "booting"@ {
        Some(BehaviorPhase::Booting)
    } else if v == "idle"@ {
        Some(BehaviorPhase::Idle)
    } else if v == "closing"@ {
        Some(BehaviorPhase::Closing)
    } else {
        None
    }
}

fn to_ascii_lowercase(s: &str) -> (r: String)
    ensures
        r@ == ascii_lowercase(s@),
{
    let n = s.unicode_len();
    let mut out = String::new();
    let mut i: usize = 0;
    while i < n
        invariant
            i <= n,
            n == s@.len(),
            out@ =~= ascii_lowercase(s@.take(i as int)),
        decreases n - i,
    {
        let c = s.get_char(i);
        let l = if 'A' <= c && c <= 'Z' {
            let v: u8 = c as u8 + 32;
            v as char
        } else {
            c
        };
        out.push(l);
        assert(out@ =~= ascii_lowercase(s@.take(i + 1)));
        i = i + 1;
    }
    assert(s@.take(n as int) =~= s@);
    out
}

/// The phase named by a request value.
pub fn parse_behavior_phase(value: &str) -> (b: Option<BehaviorPhase>)
    ensures
        b == behavior_named(value@),
{
    let lowered = to_ascii_lowercase(trim(value));
    if str_equal(lowered.as_str(), "booting") {
        Some(BehaviorPhase::Booting)
    } else if str_equal(lowered.as_str(), "idle") {
        Some(BehaviorPhase::Idle)
    } else if str_equal(lowered.as_str(), "closing") {
        Some(BehaviorPhase::Closing)
    } else {
        None
    }
}

/// What a control request asks for.
pub enum ControlRequest {
    Inspect,
    Events,
    SetBehavior(BehaviorPhase),
    Shutdown,
    InvalidBehavior,
    Unknown,
}

/// How a control request is read, in this order: `inspect`, `events` and
/// `shutdown` in any case; `set-behavior ` followed by a phase name; and
/// `set-behavior ` followed by anything else.
pub open spec fn control_request(request: Seq<char>) -> ControlRequest {
    let value = strip_prefix(request, "set-behavior "@);
    if eq_ignore_ascii_case(request, "inspect"@) {
        ControlRequest::Inspect
    } else if eq_ignore_ascii_case(request, "events"@) {
        ControlRequest::Events
    } else if value is Some && behavior_named(value->0) is Some {
        ControlRequest::SetBehavior(behavior_named(value->0)->0)
    } else if eq_ignore_ascii_case(request, "shutdown"@) {
        ControlRequest::Shutdown
    } else if value is Some {
        ControlRequest::InvalidBehavior
    } else {
        ControlRequest::Unknown
    }
}

/// The document a control request reports for a runtime.
pub open spec fn runtime_document(
    runtime: &BlackBoxRuntime,
    state: BlackBoxRuntimeState,
    forced: Option<BehaviorPhase>,
) -> Seq<char> {
    document_json(
        "black-box"@,
        runtime.declared().host.id.0@,
        runtime.declared().surface.id.0@,
        forced,
        snapshot_of(state),
    )
}

/// The data of a shutdown answer.
pub open spec fn shutdown_json(state: BlackBoxRuntimeState) -> Seq<char> {
    "{\"runtime\":\"black-box\",\"status\":\"shutting-down\",\"snapshot\":"@ + snapshot_json(
        snapshot_of(state),
    ) + "}"@
}

/// The detail of an unknown request.
pub open spec fn unknown_detail(request: Seq<char>) -> Seq<char> {
    "unknown request: "@ + request
}

/// The answer to a control request, whether it asks the server to stop,
/// the runtime state after it, and the event it queues (kind and data).
pub open spec fn control_outcome(
    runtime: &BlackBoxRuntime,
    state: BlackBoxRuntimeState,
    prefix: Seq<char>,
    instance: Seq<char>,
    request: Seq<char>,
) -> (Seq<char>, bool, BlackBoxRuntimeState, Option<(Seq<char>, Seq<char>)>) {
    match control_request(request) {
        ControlRequest::Inspect => {
            let doc = runtime_document(runtime, state, None);
            (ok_envelope("inspect"@, doc), false, state, Some(("runtime.inspected"@, doc)))
        },
        ControlRequest::Events => (catalog_response(prefix, instance), false, state, None),
        ControlRequest::SetBehavior(b) => {
            let next = runtime_step(state, RuntimeEvent::DevelopmentSetBehavior(b)).0;
            let doc = runtime_document(runtime, next, Some(b));
            (ok_envelope("set-behavior"@, doc), false, next, Some(("runtime.behavior-changed"@, doc)))
        },
        ControlRequest::Shutdown => {
            let data = shutdown_json(state);
            (ok_envelope("shutdown"@, data), true, state, Some(("runtime.shutdown-requested"@, data)))
        },
        ControlRequest::InvalidBehavior => {
            let detail = "expected one of: booting, idle, closing"@;
            (
                error_envelope("invalid-request"@, detail),
                false,
                state,
                Some(("ipc.error"@, error_event_json("invalid-request"@, detail))),
            )
        },
        ControlRequest::Unknown => {
            let detail = unknown_detail(request);
            (
                error_envelope("unknown-request"@, detail),
                false,
                state,
                Some(("ipc.error"@, error_event_json("unknown-request"@, detail))),
            )
        },
    }
}

/// The queue after a control request.
pub open spec fn queue_after(
    q: QueueView,
    id: u64,
    event: Option<(Seq<char>, Seq<char>)>,
) -> QueueView {
    match event {
        Some((kind, data)) => queue_pushed(q, id, kind, data),
        None => q,
    }
}

fn unknown_request_detail(request: &str) -> (s: String)
    ensures
        s@ == unknown_detail(request@),
{
    let mut s = String::new();
    s.append("unknown request: ");
    s.append(request);
    s
}

fn shutdown_data(runtime: &BlackBoxRuntime) -> (s: String)
    ensures
        s@ == shutdown_json(runtime@),
{
    let mut data = String::new();
    data.append("{\"runtime\":\"black-box\",\"status\":\"shutting-down\",\"snapshot\":");
    let snapshot = runtime.debug_snapshot_json();
    data.append(snapshot.as_str());
    data.append("}");
    assert(data@ =~= shutdown_json(runtime@));
    data
}

/// Handles one control request: inspects, lists the event catalog, forces
/// a phase or asks the server to stop, and queues an event for each but
/// the catalog. Returns the answer and whether the server should stop.
pub fn handle_control_request(
    namespace: &ChannelNamespace,
    instance: &str,
    runtime: &mut BlackBoxRuntime,
    events: &mut EventQueueState,
    next_event_id: &mut u64,
    request: &str,
) -> (r: (String, bool))
    requires
        *old(next_event_id) < u64::MAX,
        old(events).dropped_since_last_poll < u64::MAX,
        old(events).total_dropped < u64::MAX,
    ensures
        ({
            let (response, stop, state, event) = control_outcome(
                old(runtime),
                old(runtime)@,
                namespace@,
                instance@,
                request@,
            );
            &&& r.0@ == response
            &&& r.1 == stop
            &&& final(runtime)@ == state
            &&& final(events)@ == queue_after(old(events)@, *old(next_event_id), event)
            &&& *final(next_event_id) == if event is Some {
                *old(next_event_id) + 1
            } else {
                *old(next_event_id) as int
            }
        }),
        final(runtime).declared() == old(runtime).declared(),
{
    if str_eq_ignore_ascii_case(request, "inspect") {
        let document = runtime.debug_document(None).to_json();
        push_event(events, next_event_id, "runtime.inspected", document.as_str());
        return (ok_response("inspect", document.as_str()), false);
    }
    if str_eq_ignore_ascii_case(request, "events") {
        return (event_catalog_response(namespace, instance), false);
    }
    let value = str_strip_prefix(request, "set-behavior ");
    let behavior = match value {
        Some(v) => parse_behavior_phase(v),
        None => None,
    };
    if let Some(behavior) = behavior {
        runtime.handle_event(RuntimeEvent::DevelopmentSetBehavior(behavior));
        let document = runtime.debug_document(Some(behavior)).to_json();
        push_event(events, next_event_id, "runtime.behavior-changed", document.as_str());
        return (ok_response("set-behavior", document.as_str()), false);
    }
    if str_eq_ignore_ascii_case(request, "shutdown") {
        let data = shutdown_data(runtime);
        push_event(events, next_event_id, "runtime.shutdown-requested", data.as_str());
        return (ok_response("shutdown", data.as_str()), true);
    }
    if value.is_some() {
        let data = error_event_data("invalid-request", "expected one of: booting, idle, closing");
        push_event(events, next_event_id, "ipc.error", data.as_str());
        return (error_response("invalid-request", "expected one of: booting, idle, closing"), false);
    }
    let detail = unknown_request_detail(request);
    let data = error_event_data("unknown-request", detail.as_str());
    push_event(events, next_event_id, "ipc.error", data.as_str());
    (error_response("unknown-request", detail.as_str()), false)
}

/// The answer to a `poll`: the drained events and the queue's counters.
pub open spec fn poll_json(instance: Seq<char>, q: QueueView) -> Seq<char> {
    "{\"runtime\":\"black-box\",\"instance\":\""@ + instance + "\",\"events\":"@ + "["@ + joined(
        q.items,
        ","@,
    ) + "]"@ + ",\"drained_count\":"@ + decimal(q.items.len()) + ",\"dropped_since_last_poll\":"@
        + decimal(q.dropped_since_last_poll as nat) + ",\"total_dropped\":"@ + decimal(
        q.total_dropped as nat,
    ) + ",\"queue_capacity\":"@ + decimal(32) + "}"@
}

/// The detail of an unknown events request.
pub open spec fn unknown_events_detail(request: Seq<char>) -> Seq<char> {
    "unknown events request: "@ + request
}

/// Handles one events request: `poll` (in any case) drains the queue and
/// resets the per-poll drop count; anything else is refused and leaves
/// the queue alone.
pub fn handle_events_request(instance: &str, events: &mut EventQueueState, request: &str) -> (s:
    String)
    ensures
        eq_ignore_ascii_case(request@, "poll"@) ==> s@ == ok_envelope(
            "events.poll"@,
            poll_json(instance@, old(events)@),
        ) && final(events)@.items.len() == 0 && final(events).dropped_since_last_poll == 0
            && final(events).total_dropped == old(events).total_dropped,
        !eq_ignore_ascii_case(request@, "poll"@) ==> s@ == error_envelope(
            "unknown-events-request"@,
            unknown_events_detail(request@),
        ) && final(events)@ == old(events)@,
{
    if str_eq_ignore_ascii_case(request, "poll") {
        let drained_items = join_items(&events.items, ",");
        let dropped_since_last_poll = events.dropped_since_last_poll;
        let total_dropped = events.total_dropped;
        let drained_count = events.items.len();
        events.items.clear();
        events.dropped_since_last_poll = 0;
        let mut data = String::new();
        data.append("{\"runtime\":\"black-box\",\"instance\":\"");
        data.append(instance);
        data.append("\",\"events\":");
        data.append("[");
        data.append(drained_items.as_str());
        data.append("]");
        data.append(",\"drained_count\":");
        push_decimal(&mut data, drained_count as u128);
        data.append(",\"dropped_since_last_poll\":");
        push_decimal(&mut data, dropped_since_last_poll as u128);
        data.append(",\"total_dropped\":");
        push_decimal(&mut data, total_dropped as u128);
        data.append(",\"queue_capacity\":");
        push_decimal(&mut data, IpcPolicy::default().event_queue_capacity as u128);
        data.append("}");
        assert(data@ =~= poll_json(instance@, old(events)@));
        assert(final(events)@.items =~= Seq::<Seq<char>>::empty());
        return ok_response("events.poll", data.as_str());
    }
    let mut detail = String::new();
    detail.append("unknown events request: ");
    detail.append(request);
    assert(events@.items =~= old(events)@.items);
    error_response("unknown-events-request", detail.as_str())
}

// ---------------------------------------------------------------------------
// The IPC service
// ---------------------------------------------------------------------------

/// The state the playground's IPC server keeps between requests.
pub struct BlackBoxIpcService {
    namespace: ChannelNamespace,
    instance: String,
    runtime: BlackBoxRuntime,
    events: EventQueueState,
    next_event_id: u64,
    shutdown_pending: bool,
}

/// The service's state: namespace prefix, instance, runtime state, event
/// queue, next event id and whether a shutdown was asked for.
pub struct ServiceView {
    pub prefix: Seq<char>,
    pub instance: Seq<char>,
    pub runtime: BlackBoxRuntimeState,
    pub queue: QueueView,
    pub next_event_id: u64,
    pub shutdown_pending: bool,
}

impl View for BlackBoxIpcService {
    type V = ServiceView;

    closed spec fn view(&self) -> ServiceView {
        ServiceView {
            prefix: self.namespace@,
            instance: self.instance@,
            runtime: self.runtime@,
            queue: self.events@,
            next_event_id: self.next_event_id,
            shutdown_pending: self.shutdown_pending,
        }
    }
}

/// What a service keeps true between requests: every dropped event was
/// pushed under an id below the next one (so the counters can always grow
/// by one), and the queue holds no more than its capacity.
pub open spec fn service_invariant(v: ServiceView) -> bool {
    &&& v.queue.total_dropped < v.next_event_id
    &&& v.queue.dropped_since_last_poll <= v.queue.total_dropped
    &&& v.queue.items.len() <= queue_capacity()
}

impl BlackBoxIpcService {
    /// The runtime the service drives, as a reference for its documents.
    pub closed spec fn runtime_ref(&self) -> &BlackBoxRuntime {
        &self.runtime
    }

    /// A service for an instance, with a fresh runtime moved to the forced
    /// phase if there is one (which queues the first event).
    pub fn new(
        namespace: ChannelNamespace,
        instance: &str,
        forced_behavior: Option<BlackBoxDebugBehavior>,
    ) -> (s: Self)
        ensures
            s@.prefix == namespace@,
            s@.instance == instance@,
            s@.runtime == snapshot_state(forced_behavior),
            is_black_box_declaration(s.runtime_ref().declared()),
            !s@.shutdown_pending,
            service_invariant(s@),
            forced_behavior is None ==> s@.queue.items.len() == 0 && s@.next_event_id == 1,
            forced_behavior matches Some(b) ==> s@.next_event_id == 2 && s@.queue.items == seq![
                event_entry(
                    1,
                    "runtime.behavior-changed"@,
                    runtime_document(
                        s.runtime_ref(),
                        snapshot_state(forced_behavior),
                        Some(debug_behavior_phase(b)),
                    ),
                ),
            ],
    {
        let mut runtime = BlackBoxRuntime::new();
        let mut events = EventQueueState::default();
        let mut next_event_id: u64 = 1;
        if let Some(b) = forced_behavior {
            let behavior = to_phase(b);
            runtime.handle_event(RuntimeEvent::DevelopmentSetBehavior(behavior));
            let document = runtime.debug_document(Some(behavior)).to_json();
            push_event(&mut events, &mut next_event_id, "runtime.behavior-changed", document.as_str());
            assert(events@.items =~= seq![
                event_entry(
                    1,
                    "runtime.behavior-changed"@,
                    runtime_document(&runtime, runtime@, Some(behavior)),
                ),
            ]);
        }
        Self {
            namespace,
            instance: instance.to_owned(),
            runtime,
            events,
            next_event_id,
            shutdown_pending: false,
        }
    }

    pub fn next_event_id(&self) -> (id: u64)
        ensures
            id == self@.next_event_id,
    {
        self.next_event_id
    }

    /// Whether the service can take another control request: its next
    /// event id can still grow and it keeps its invariant.
    pub fn accepts_requests(&self) -> (ok: bool)
        ensures
            ok == (self@.next_event_id < u64::MAX && service_invariant(self@)),
    {
        self.next_event_id < u64::MAX && self.events.total_dropped < self.next_event_id
            && self.events.dropped_since_last_poll <= self.events.total_dropped
            && self.events.items.len() <= 32
    }

    /// Answers a control request (trimmed first), and says whether it asks
    /// the server to stop; the stop is recorded by `mark_answered` once the
    /// answer has been delivered.
    pub fn handle_control(&mut self, request: &str) -> (r: (String, bool))
        requires
            old(self)@.next_event_id < u64::MAX,
            service_invariant(old(self)@),
        ensures
            ({
                let (answer, stop, state, event) = control_outcome(
                    old(self).runtime_ref(),
                    old(self)@.runtime,
                    old(self)@.prefix,
                    old(self)@.instance,
                    trimmed(request@),
                );
                &&& r.0@ == answer
                &&& r.1 == stop
                &&& final(self)@.runtime == state
                &&& final(self)@.queue == queue_after(old(self)@.queue, old(self)@.next_event_id, event)
                &&& final(self)@.next_event_id == if event is Some {
                    old(self)@.next_event_id + 1
                } else {
                    old(self)@.next_event_id as int
                }
            }),
            final(self)@.shutdown_pending == old(self)@.shutdown_pending,
            final(self)@.prefix == old(self)@.prefix,
            final(self)@.instance == old(self)@.instance,
            final(self).runtime_ref().declared() == old(self).runtime_ref().declared(),
            service_invariant(final(self)@),
    {
        let request = trim(request);
        handle_control_request(
            &self.namespace,
            self.instance.as_str(),
            &mut self.runtime,
            &mut self.events,
            &mut self.next_event_id,
            request,
        )
    }

    /// Records that an answer was delivered; an answer that asked the
    /// server to stop leaves a shutdown pending.
    pub fn mark_answered(&mut self, stop: bool)
        ensures
            final(self)@ == (ServiceView {
                shutdown_pending: old(self)@.shutdown_pending || stop,
                ..old(self)@
            }),
            final(self).runtime_ref() == old(self).runtime_ref(),
    {
        self.shutdown_pending = self.shutdown_pending || stop;
    }

    /// Answers an events request (trimmed first).
    pub fn handle_events(&mut self, request: &str) -> (response: String)
        ensures
            eq_ignore_ascii_case(trimmed(request@), "poll"@) ==> response@ == ok_envelope(
                "events.poll"@,
                poll_json(old(self)@.instance, old(self)@.queue),
            ) && final(self)@.queue.items.len() == 0 && final(self)@.queue.dropped_since_last_poll
                == 0 && final(self)@.queue.total_dropped == old(self)@.queue.total_dropped,
            !eq_ignore_ascii_case(trimmed(request@), "poll"@) ==> response@ == error_envelope(
                "unknown-events-request"@,
                unknown_events_detail(trimmed(request@)),
            ) && final(self)@.queue == old(self)@.queue,
            final(self)@.prefix == old(self)@.prefix,
            final(self)@.instance == old(self)@.instance,
            final(self)@.runtime == old(self)@.runtime,
            final(self)@.next_event_id == old(self)@.next_event_id,
            final(self)@.shutdown_pending == old(self)@.shutdown_pending,
            final(self).runtime_ref().declared() == old(self).runtime_ref().declared(),
            service_invariant(old(self)@) ==> service_invariant(final(self)@),
    {
        let request = trim(request);
        handle_events_request(self.instance.as_str(), &mut self.events, request)
    }

    /// Whether an idle server stops: a shutdown was asked for and every
    /// queued event has been polled.
    pub fn should_stop_when_idle(&self) -> (stop: bool)
        ensures
            stop == (self@.shutdown_pending && self@.queue.items.len() == 0),
    {
        self.shutdown_pending && self.events.items.len() == 0
    }

    /// How long an idle server sleeps between polls, in milliseconds.
    pub fn poll_idle_sleep_ms(&self) -> (ms: u64)
        ensures
            ms == 15,
    {
        IpcPolicy::default().poll_idle_sleep_ms
    }
}

// ---------------------------------------------------------------------------
// Laws of the event queue and the service
// ---------------------------------------------------------------------------

/// The queue never holds more than its capacity, keeps the newest event
/// last, and drops only its oldest entry.
pub proof fn lemma_queue_bounded(q: QueueView, id: u64, kind: Seq<char>, data: Seq<char>)
    requires
        q.items.len() <= queue_capacity(),
    ensures
        queue_pushed(q, id, kind, data).items.len() <= queue_capacity(),
        queue_pushed(q, id, kind, data).items.last() == event_entry(id, kind, data),
        q.items.len() < queue_capacity() ==> queue_pushed(q, id, kind, data).items == q.items.push(
            event_entry(id, kind, data),
        ),
        q.items.len() == queue_capacity() ==> queue_pushed(q, id, kind, data).items
            == q.items.drop_first().push(event_entry(id, kind, data)),
{
}

/// A drop is counted on both counters, and a push that finds room drops
/// nothing.
pub proof fn lemma_queue_drops_counted(q: QueueView, id: u64, kind: Seq<char>, data: Seq<char>)
    requires
        q.dropped_since_last_poll < u64::MAX,
        q.total_dropped < u64::MAX,
    ensures
        queue_pushed(q, id, kind, data).total_dropped - q.total_dropped == (if q.items.len()
            >= queue_capacity() {
            1int
        } else {
            0int
        }),
        queue_pushed(q, id, kind, data).dropped_since_last_poll - q.dropped_since_last_poll == (
        if q.items.len() >= queue_capacity() {
            1int
        } else {
            0int
        }),
{
}

/// Inspecting changes nothing in the runtime, and forcing a phase through
/// the control surface leaves the runtime in that phase; neither stops
/// the server.
pub proof fn lemma_control_requests(
    runtime: &BlackBoxRuntime,
    state: BlackBoxRuntimeState,
    prefix: Seq<char>,
    instance: Seq<char>,
    request: Seq<char>,
)
    ensures
        control_request(request) is Inspect ==> control_outcome(
            runtime,
            state,
            prefix,
            instance,
            request,
        ).2 == state,
        control_request(request) matches ControlRequest::SetBehavior(b) ==> control_outcome(
            runtime,
            state,
            prefix,
            instance,
            request,
        ).2.behavior == b,
        control_outcome(runtime, state, prefix, instance, request).1 <==> control_request(
            request,
        ) is Shutdown,
        !(control_request(request) is Events) ==> control_outcome(
            runtime,
            state,
            prefix,
            instance,
            request,
        ).3 is Some,
{
}


/// Every control answer follows the shared envelope convention: a success
/// envelope with a kind and its data, or an error envelope with a code and
/// a detail; it is an error exactly for an invalid or unknown request.
pub proof fn lemma_answers_are_envelopes(
    runtime: &BlackBoxRuntime,
    state: BlackBoxRuntimeState,
    prefix: Seq<char>,
    instance: Seq<char>,
    request: Seq<char>,
)
    ensures
        (control_request(request) is InvalidBehavior || control_request(request) is Unknown)
            ==> exists|code: Seq<char>, detail: Seq<char>|
            control_outcome(runtime, state, prefix, instance, request).0 == #[trigger] error_envelope(
                code,
                detail,
            ),
        !(control_request(request) is InvalidBehavior || control_request(request) is Unknown)
            ==> exists|kind: Seq<char>, data: Seq<char>|
            control_outcome(runtime, state, prefix, instance, request).0 == #[trigger] ok_envelope(
                kind,
                data,
            ),
{
    let answer = control_outcome(runtime, state, prefix, instance, request).0;
    match control_request(request) {
        ControlRequest::Inspect => {
            assert(answer == ok_envelope("inspect"@, runtime_document(runtime, state, None)));
        },
        ControlRequest::Events => {
            assert(answer == ok_envelope(
                "events"@,
                "{\"catalog\":"@ + catalog_json(
                    "black-box"@,
                    instance,
                    "local-request-response"@,
                    events_channel_name(prefix, instance),
                    control_channel_name(prefix, instance),
                    "request-response-poll"@,
                    event_names(),
                ) + ",\"queue\":{\"capacity\":"@ + decimal(32) + ",\"drop_policy\":\""@
                    + "drop-oldest"@ + "\"}}"@,
            ));
        },
        ControlRequest::SetBehavior(b) => {
            let next = runtime_step(state, RuntimeEvent::DevelopmentSetBehavior(b)).0;
            assert(answer == ok_envelope("set-behavior"@, runtime_document(runtime, next, Some(b))));
        },
        ControlRequest::Shutdown => {
            assert(answer == ok_envelope("shutdown"@, shutdown_json(state)));
        },
        ControlRequest::InvalidBehavior => {
            assert(answer == error_envelope(
                "invalid-request"@,
                "expected one of: booting, idle, closing"@,
            ));
        },
        ControlRequest::Unknown => {
            assert(answer == error_envelope("unknown-request"@, unknown_detail(request)));
        },
    }
}

} // verus!
