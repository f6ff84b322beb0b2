//! The black-box runtime: its declarations, a two-component tree resolved
//! under a behaviour phase, and the state machine that turns runtime events
//! into host commands.
use vstd::prelude::*;
use crate::component::ComponentDescriptor;
use crate::event::EventDescriptor;
use crate::host::{CloseBehavior, CloseRequest, CloseRequestSource, HostDescriptor, HostState};
use crate::render::{LayerRole, PresentModel, RenderIntent, Rgb24};
use crate::surface::{Extent, SurfaceDescriptor, SurfaceId, SurfaceState};
use crate::text::{decimal, hex_byte, push_decimal, push_hex_byte};

verus! {

// ---------------------------------------------------------------------------
// Declarations
// ---------------------------------------------------------------------------

/// The black-box host: managed by the runtime, presenting on the black-box
/// surface.
pub fn black_box_host() -> (d: HostDescriptor)
    ensures
        d.id.0@ == "black-box.host"@,
        d.role@ == "desktop-host"@,
        d.close_behavior == CloseBehavior::ManagedByRuntime,
        d.primary_surface.0@ == "black-box.surface"@,
{
    HostDescriptor::new(
        "black-box.host",
        "desktop-host",
        CloseBehavior::ManagedByRuntime,
        SurfaceId("black-box.surface"),
    )
}

/// The black-box surface: 320 by 240 pixels, undecorated.
pub fn black_box_surface() -> (d: SurfaceDescriptor)
    ensures
        d.id.0@ == "black-box.surface"@,
        d.role@ == "present-target"@,
        d.initial_extent == (Extent { width: 320, height: 240 }),
        !d.decorated,
{
    SurfaceDescriptor::new("black-box.surface", "present-target", Extent::new(320, 240), false)
}

/// Whether components are the black-box ones: a root, and a fill that is
/// its child.
pub open spec fn is_black_box_components(v: Seq<ComponentDescriptor>) -> bool {
    &&& v.len() == 2
    &&& v[0].id.0@ == "black-box.root"@
    &&& v[0].role@ == "root-component"@
    &&& v[0].parent is None
    &&& v[1].id.0@ == "black-box.fill"@
    &&& v[1].role@ == "solid-fill-component"@
    &&& v[1].parent matches Some(p) && p.0@ == "black-box.root"@
}

/// The black-box components: a root and a fill that is its child.
pub fn black_box_components() -> (v: Vec<ComponentDescriptor>)
    ensures
        is_black_box_components(v@),
{
    let mut v = Vec::new();
    v.push(ComponentDescriptor::root("black-box.root", "root-component"));
    v.push(ComponentDescriptor::child("black-box.fill", "solid-fill-component", "black-box.root"));
    v
}

/// Whether events are the ones the black-box runtime declares, in order,
/// with their details.
pub open spec fn is_black_box_events(v: Seq<EventDescriptor>) -> bool {
    &&& v.len() == 6
    &&& v[0].id.0@ == "host.resumed"@
    &&& v[0].detail@ == "host became active and is ready for runtime control"@
    &&& v[1].id.0@ == "host.close-requested"@
    &&& v[1].detail@ == "host requested graceful shutdown"@
    &&& v[2].id.0@ == "input.escape-pressed"@
    &&& v[2].detail@ == "development escape hatch for shutdown"@
    &&& v[3].id.0@ == "surface.invalidated"@
    &&& v[3].detail@ == "surface requested a redraw for the current frame"@
    &&& v[4].id.0@ == "development.set-behavior"@
    &&& v[4].detail@ == "development control forced a runtime behavior phase"@
    &&& v[5].id.0@ == "runtime.snapshots-synchronized"@
    &&& v[5].detail@ == "host and surface snapshots were synchronized into runtime state"@
}

/// The events the black-box runtime declares.
pub fn black_box_events() -> (v: Vec<EventDescriptor>)
    ensures
        is_black_box_events(v@),
{
    let mut v = Vec::new();
    v.push(
        EventDescriptor::new(
            "host.resumed",
            "host became active and is ready for runtime control",
        ),
    );
    v.push(EventDescriptor::new("host.close-requested", "host requested graceful shutdown"));
    v.push(EventDescriptor::new("input.escape-pressed", "development escape hatch for shutdown"));
    v.push(
        EventDescriptor::new(
            "surface.invalidated",
            "surface requested a redraw for the current frame",
        ),
    );
    v.push(
        EventDescriptor::new(
            "development.set-behavior",
            "development control forced a runtime behavior phase",
        ),
    );
    v.push(
        EventDescriptor::new(
            "runtime.snapshots-synchronized",
            "host and surface snapshots were synchronized into runtime state",
        ),
    );
    v
}

// ---------------------------------------------------------------------------
// Runtime vocabulary
// ---------------------------------------------------------------------------

/// How the runtime is currently behaving.
#[derive(Debug, Clone, Copy, PartialEq, Eq, Structural)]
pub enum BehaviorPhase {
    Booting,
    Idle,
    Closing,
}

/// The components the black-box runtime owns.
#[derive(Debug, Clone, Copy, PartialEq, Eq, Structural)]
pub enum RuntimeComponent {
    Root,
    Fill,
}

/// What the host reports to the runtime.
#[derive(Debug, Clone, Copy, PartialEq, Eq, Structural)]
pub enum RuntimeEvent {
    HostResumed,
    CloseRequested(CloseRequest),
    DevelopmentSetBehavior(BehaviorPhase),
    SurfaceInvalidated,
    SnapshotsSynchronized { host: HostState, surface: SurfaceState },
}

/// Why the runtime ended the session.
#[derive(Debug, Clone, Copy, PartialEq, Eq, Structural)]
pub enum RuntimeExitReason {
    HostRequestedClose,
    EscapePressed,
}

/// The runtime's answer to a close request.
#[derive(Debug, Clone, Copy, PartialEq, Eq, Structural)]
pub enum CloseDecision {
    Accept(RuntimeExitReason),
    Ignore,
}

/// What the runtime asks its host to do.
#[derive(Debug, Clone, Copy, PartialEq, Eq, Structural)]
pub enum RuntimeCommand {
    RequestRedraw,
    Present(PresentModel),
    SetHostVisible(bool),
    CompleteClose(CloseDecision),
}

// ---------------------------------------------------------------------------
// Components and their resolution
// ---------------------------------------------------------------------------

/// The root component's own state: the smallest frame margin.
#[derive(Debug, Clone, Copy, PartialEq, Eq, Structural)]
pub struct RootComponentState {
    pub base_margin: u32,
}

/// The frame margin for an extent: a 24th of the shorter side, but never
/// less than the base margin.
pub open spec fn margin_for(base_margin: u32, extent: Extent) -> u32 {
    let shorter = if extent.width <= extent.height {
        extent.width
    } else {
        extent.height
    };
    let adaptive = (shorter / 24) as u32;
    if adaptive >= base_margin {
        adaptive
    } else {
        base_margin
    }
}

impl RootComponentState {
    pub fn black_box() -> (s: Self)
        ensures
            s.base_margin == 4,
    {
        Self { base_margin: 4 }
    }

    pub fn resolved_margin(&self, extent: Extent) -> (m: u32)
        ensures
            m == margin_for(self.base_margin, extent),
    {
        let shorter = if extent.width <= extent.height {
            extent.width
        } else {
            extent.height
        };
        let adaptive = shorter / 24;
        if adaptive >= self.base_margin {
            adaptive
        } else {
            self.base_margin
        }
    }
}

/// The fill component's own state: its base colour.
#[derive(Debug, Clone, Copy, PartialEq, Eq, Structural)]
pub struct FillComponentState {
    pub base_color: Rgb24,
}

/// The two components of the black-box tree.
#[derive(Debug, Clone, Copy, PartialEq, Eq, Structural)]
pub struct BlackBoxComponentTree {
    pub root: RootComponentState,
    pub fill: FillComponentState,
}

/// The resolved fill: final colour and layer.
#[derive(Debug, Clone, Copy, PartialEq, Eq, Structural)]
pub struct ResolvedFillComponent {
    pub color: Rgb24,
    pub layer: LayerRole,
}

/// What the root hands down to the fill: a tint and a layer.
#[derive(Debug, Clone, Copy, PartialEq, Eq, Structural)]
pub struct InheritedFillSemantics {
    pub tint: Rgb24,
    pub layer: LayerRole,
}

/// The resolved root: frame colour, margin and the resolved fill.
#[derive(Debug, Clone, Copy, PartialEq, Eq, Structural)]
pub struct ResolvedRootComponent {
    pub frame_color: Rgb24,
    pub margin: u32,
    pub fill: ResolvedFillComponent,
}

/// The resolved black-box tree.
#[derive(Debug, Clone, Copy, PartialEq, Eq, Structural)]
pub struct ResolvedBlackBoxTree {
    pub root: ResolvedRootComponent,
}

/// Saturating addition of two bytes.
pub open spec fn sat_add_u8(a: u8, b: u8) -> u8 {
    if a + b > 255 {
        255
    } else {
        (a + b) as u8
    }
}

/// Saturating addition of two 32-bit values.
pub open spec fn sat_add_u32(a: u32, b: u32) -> u32 {
    if a + b > u32::MAX {
        u32::MAX
    } else {
        (a + b) as u32
    }
}

/// A colour tinted channel by channel, each channel saturating at 255.
pub open spec fn tinted(base: Rgb24, tint: Rgb24) -> Rgb24 {
    Rgb24 {
        red: sat_add_u8(base.red, tint.red),
        green: sat_add_u8(base.green, tint.green),
        blue: sat_add_u8(base.blue, tint.blue),
    }
}

/// The frame colour each phase resolves the root to.
pub open spec fn phase_frame_color(behavior: BehaviorPhase) -> Rgb24 {
    match behavior {
        BehaviorPhase::Booting => Rgb24 { red: 20, green: 20, blue: 20 },
        BehaviorPhase::Idle => Rgb24 { red: 8, green: 8, blue: 8 },
        BehaviorPhase::Closing => Rgb24 { red: 3, green: 3, blue: 3 },
    }
}

/// What the root hands down to the fill in each phase.
pub open spec fn phase_inherited(behavior: BehaviorPhase) -> InheritedFillSemantics {
    match behavior {
        BehaviorPhase::Booting => InheritedFillSemantics {
            tint: Rgb24 { red: 4, green: 4, blue: 4 },
            layer: LayerRole::Overlay,
        },
        BehaviorPhase::Idle => InheritedFillSemantics {
            tint: Rgb24 { red: 0, green: 0, blue: 0 },
            layer: LayerRole::Foreground,
        },
        BehaviorPhase::Closing => InheritedFillSemantics {
            tint: Rgb24 { red: 0, green: 0, blue: 0 },
            layer: LayerRole::Overlay,
        },
    }
}

/// The extra margin each phase adds to the root's resolved margin.
pub open spec fn phase_margin_bias(behavior: BehaviorPhase) -> u32 {
    match behavior {
        BehaviorPhase::Booting => 2,
        BehaviorPhase::Idle => 0,
        BehaviorPhase::Closing => 6,
    }
}

/// The tree as it resolves for an extent and a phase.
pub open spec fn resolve_tree(
    tree: BlackBoxComponentTree,
    extent: Extent,
    behavior: BehaviorPhase,
) -> ResolvedBlackBoxTree {
    let inherited = phase_inherited(behavior);
    ResolvedBlackBoxTree {
        root: ResolvedRootComponent {
            frame_color: phase_frame_color(behavior),
            margin: sat_add_u32(margin_for(tree.root.base_margin, extent), phase_margin_bias(behavior)),
            fill: ResolvedFillComponent {
                color: tinted(tree.fill.base_color, inherited.tint),
                layer: inherited.layer,
            },
        },
    }
}

/// The present model a resolved tree yields: the frame colour as
/// background, the fill colour inset by the margin, in the fill's layer.
pub open spec fn tree_present_model(tree: ResolvedBlackBoxTree) -> PresentModel {
    PresentModel {
        layer: tree.root.fill.layer,
        intent: RenderIntent::ClearInset {
            background: tree.root.frame_color,
            inset: tree.root.fill.color,
            margin: tree.root.margin,
        },
    }
}

impl FillComponentState {
    /// A black fill.
    pub fn black_box() -> (s: Self)
        ensures
            s.base_color == (Rgb24 { red: 0, green: 0, blue: 0 }),
    {
        Self { base_color: Rgb24::new(0, 0, 0) }
    }

    /// The fill's colour under what its parent hands down.
    pub fn resolve(&self, inherited: InheritedFillSemantics) -> (c: Rgb24)
        ensures
            c == tinted(self.base_color, inherited.tint),
    {
        Rgb24::new(
            self.base_color.red.saturating_add(inherited.tint.red),
            self.base_color.green.saturating_add(inherited.tint.green),
            self.base_color.blue.saturating_add(inherited.tint.blue),
        )
    }
}

impl BlackBoxComponentTree {
    pub fn black_box() -> (t: Self)
        ensures
            t.root.base_margin == 4,
            t.fill.base_color == (Rgb24 { red: 0, green: 0, blue: 0 }),
    {
        Self { root: RootComponentState::black_box(), fill: FillComponentState::black_box() }
    }

    /// Resolves the tree for the surface extent and the behaviour phase.
    pub fn resolve(&self, extent: Extent, behavior: BehaviorPhase) -> (r: ResolvedBlackBoxTree)
        ensures
            r == resolve_tree(*self, extent, behavior),
    {
        let (frame_color, inherited_fill, margin_bias) = match behavior {
            BehaviorPhase::Booting => (
                Rgb24::new(20, 20, 20),
                InheritedFillSemantics { tint: Rgb24::new(4, 4, 4), layer: LayerRole::Overlay },
                2u32,
            ),
            BehaviorPhase::Idle => (
                Rgb24::new(8, 8, 8),
                InheritedFillSemantics { tint: Rgb24::new(0, 0, 0), layer: LayerRole::Foreground },
                0u32,
            ),
            BehaviorPhase::Closing => (
                Rgb24::new(3, 3, 3),
                InheritedFillSemantics { tint: Rgb24::new(0, 0, 0), layer: LayerRole::Overlay },
                6u32,
            ),
        };
        ResolvedBlackBoxTree {
            root: ResolvedRootComponent {
                frame_color,
                margin: self.root.resolved_margin(extent).saturating_add(margin_bias),
                fill: ResolvedFillComponent {
                    color: self.fill.resolve(inherited_fill),
                    layer: inherited_fill.layer,
                },
            },
        }
    }
}

impl ResolvedBlackBoxTree {
    pub fn present_model(&self) -> (m: PresentModel)
        ensures
            m == tree_present_model(*self),
    {
        PresentModel::clear_inset_in_layer(
            self.root.fill.layer,
            self.root.frame_color,
            self.root.fill.color,
            self.root.margin,
        )
    }
}

// ---------------------------------------------------------------------------
// Runtime state and the state machine
// ---------------------------------------------------------------------------

/// Everything the runtime tracks between events.
#[derive(Debug, Clone, Copy, PartialEq, Eq, Structural)]
pub struct BlackBoxRuntimeState {
    pub host: HostState,
    pub surface: SurfaceState,
    pub components: BlackBoxComponentTree,
    pub behavior: BehaviorPhase,
    pub presented_at_least_once: bool,
}

/// The state a runtime starts in: hidden host and surface, black-box
/// components, booting, nothing presented yet.
pub open spec fn initial_state(initial_extent: Extent) -> BlackBoxRuntimeState {
    BlackBoxRuntimeState {
        host: HostState { visible: false, close_requested: false },
        surface: SurfaceState { extent: initial_extent, visible: false },
        components: BlackBoxComponentTree {
            root: RootComponentState { base_margin: 4 },
            fill: FillComponentState { base_color: Rgb24 { red: 0, green: 0, blue: 0 } },
        },
        behavior: BehaviorPhase::Booting,
        presented_at_least_once: false,
    }
}

impl BlackBoxRuntimeState {
    pub fn new(initial_extent: Extent) -> (s: Self)
        ensures
            s == initial_state(initial_extent),
    {
        Self {
            host: HostState { visible: false, close_requested: false },
            surface: SurfaceState { extent: initial_extent, visible: false },
            components: BlackBoxComponentTree::black_box(),
            behavior: BehaviorPhase::Booting,
            presented_at_least_once: false,
        }
    }
}

/// The resolved tree of a state.
pub open spec fn resolved_state(state: BlackBoxRuntimeState) -> ResolvedBlackBoxTree {
    resolve_tree(state.components, state.surface.extent, state.behavior)
}

/// The answer to a close request: every request is accepted, with the
/// reason its source gives.
pub open spec fn close_decision(request: CloseRequest) -> CloseDecision {
    match request.source {
        CloseRequestSource::Host => CloseDecision::Accept(RuntimeExitReason::HostRequestedClose),
        CloseRequestSource::DevelopmentShortcut => CloseDecision::Accept(
            RuntimeExitReason::EscapePressed,
        ),
    }
}

/// One step of the runtime: the state after `event` and the commands it
/// issues.
pub open spec fn runtime_step(state: BlackBoxRuntimeState, event: RuntimeEvent) -> (
    BlackBoxRuntimeState,
    Seq<RuntimeCommand>,
) {
    match event {
        RuntimeEvent::HostResumed => (
            BlackBoxRuntimeState { behavior: BehaviorPhase::Idle, ..state },
            seq![RuntimeCommand::RequestRedraw],
        ),
        RuntimeEvent::CloseRequested(request) => (
            BlackBoxRuntimeState {
                host: HostState { close_requested: true, ..state.host },
                behavior: BehaviorPhase::Closing,
                ..state
            },
            seq![RuntimeCommand::CompleteClose(close_decision(request))],
        ),
        RuntimeEvent::DevelopmentSetBehavior(behavior) => (
            BlackBoxRuntimeState { behavior, ..state },
            seq![RuntimeCommand::RequestRedraw],
        ),
        RuntimeEvent::SurfaceInvalidated => {
            let present = RuntimeCommand::Present(tree_present_model(resolved_state(state)));
            if state.presented_at_least_once {
                (state, seq![present])
            } else {
                (
                    BlackBoxRuntimeState { presented_at_least_once: true, ..state },
                    seq![present, RuntimeCommand::SetHostVisible(true)],
                )
            }
        },
        RuntimeEvent::SnapshotsSynchronized { host, surface } => (
            BlackBoxRuntimeState { host, surface, ..state },
            seq![],
        ),
    }
}

/// The static statement of what a runtime is made of.
#[derive(Debug, Clone, PartialEq, Eq)]
pub struct RuntimeDeclaration {
    pub host: HostDescriptor,
    pub surface: SurfaceDescriptor,
    pub components: Vec<ComponentDescriptor>,
    pub events: Vec<EventDescriptor>,
}

/// Whether a declaration is the black-box one (by the names and the
/// initial extent its host and surface carry).
pub open spec fn is_black_box_declaration(d: RuntimeDeclaration) -> bool {
    &&& d.host.id.0@ == "black-box.host"@
    &&& d.host.role@ == "desktop-host"@
    &&& d.host.close_behavior == CloseBehavior::ManagedByRuntime
    &&& d.host.primary_surface.0@ == "black-box.surface"@
    &&& d.surface.id.0@ == "black-box.surface"@
    &&& d.surface.role@ == "present-target"@
    &&& d.surface.initial_extent == (Extent { width: 320, height: 240 })
    &&& !d.surface.decorated
    &&& is_black_box_components(d.components@)
    &&& is_black_box_events(d.events@)
}

impl RuntimeDeclaration {
    pub fn black_box() -> (d: Self)
        ensures
            is_black_box_declaration(d),
    {
        Self {
            host: black_box_host(),
            surface: black_box_surface(),
            components: black_box_components(),
            events: black_box_events(),
        }
    }
}

/// The black-box runtime: its declaration and its state.
#[derive(Debug, Clone, PartialEq, Eq)]
pub struct BlackBoxRuntime {
    declaration: RuntimeDeclaration,
    state: BlackBoxRuntimeState,
}

impl View for BlackBoxRuntime {
    type V = BlackBoxRuntimeState;

    closed spec fn view(&self) -> BlackBoxRuntimeState {
        self.state
    }
}

impl BlackBoxRuntime {
    /// The declaration the runtime was made with.
    pub closed spec fn declared(&self) -> RuntimeDeclaration {
        self.declaration
    }

    /// A runtime made from the black-box declaration, in its initial state.
    pub fn new() -> (r: Self)
        ensures
            is_black_box_declaration(r.declared()),
            r@ == initial_state(Extent { width: 320, height: 240 }),
    {
        let declaration = RuntimeDeclaration::black_box();
        let state = BlackBoxRuntimeState::new(declaration.surface.initial_extent);
        Self { declaration, state }
    }

    pub fn declaration(&self) -> (d: &RuntimeDeclaration)
        ensures
            *d == self.declared(),
    {
        &self.declaration
    }

    pub fn state(&self) -> (s: BlackBoxRuntimeState)
        ensures
            s == self@,
    {
        self.state
    }

    /// Handles one runtime event and returns the commands for the host.
    pub fn handle_event(&mut self, event: RuntimeEvent) -> (commands: Vec<RuntimeCommand>)
        ensures
            (final(self)@, commands@) == runtime_step(old(self)@, event),
            final(self).declared() == old(self).declared(),
    {
        match event {
            RuntimeEvent::HostResumed => {
                self.state.behavior = BehaviorPhase::Idle;
                let mut v = Vec::new();
                v.push(RuntimeCommand::RequestRedraw);
                proof {
                    assert(v@ =~= seq![RuntimeCommand::RequestRedraw]);
                }
                v
            },
            RuntimeEvent::CloseRequested(request) => {
                self.state.host.close_requested = true;
                self.state.behavior = BehaviorPhase::Closing;
                let mut v = Vec::new();
                v.push(RuntimeCommand::CompleteClose(self.decide_close(request)));
                proof {
                    assert(v@ =~= seq![RuntimeCommand::CompleteClose(close_decision(request))]);
                }
                v
            },
            RuntimeEvent::DevelopmentSetBehavior(behavior) => {
                self.state.behavior = behavior;
                let mut v = Vec::new();
                v.push(RuntimeCommand::RequestRedraw);
                proof {
                    assert(v@ =~= seq![RuntimeCommand::RequestRedraw]);
                }
                v
            },
            RuntimeEvent::SurfaceInvalidated => self.render_commands(),
            RuntimeEvent::SnapshotsSynchronized { host, surface } => {
                self.state.host = host;
                self.state.surface = surface;
                let v = Vec::new();
                proof {
                    assert(v@ =~= Seq::<RuntimeCommand>::empty());
                }
                v
            },
        }
    }

    /// The decision for a close request.
    fn decide_close(&self, request: CloseRequest) -> (d: CloseDecision)
        ensures
            d == close_decision(request),
    {
        match request.source {
            CloseRequestSource::Host => CloseDecision::Accept(RuntimeExitReason::HostRequestedClose),
            CloseRequestSource::DevelopmentShortcut => CloseDecision::Accept(
                RuntimeExitReason::EscapePressed,
            ),
        }
    }

    /// Presents the resolved tree, and shows the host the first time.
    fn render_commands(&mut self) -> (commands: Vec<RuntimeCommand>)
        ensures
            (final(self)@, commands@) == runtime_step(old(self)@, RuntimeEvent::SurfaceInvalidated),
            final(self).declared() == old(self).declared(),
    {
        let resolved = self.state.components.resolve(self.state.surface.extent, self.state.behavior);
        let model = resolved.present_model();
        let mut commands = Vec::new();
        commands.push(RuntimeCommand::Present(model));
        if !self.state.presented_at_least_once {
            self.state.presented_at_least_once = true;
            commands.push(RuntimeCommand::SetHostVisible(true));
        }
        proof {
            let present = RuntimeCommand::Present(tree_present_model(resolved_state(old(self)@)));
            if old(self)@.presented_at_least_once {
                assert(commands@ =~= seq![present]);
            } else {
                assert(commands@ =~= seq![present, RuntimeCommand::SetHostVisible(true)]);
            }
        }
        commands
    }
}

impl Default for BlackBoxRuntime {
    fn default() -> (r: Self)
        ensures
            is_black_box_declaration(r.declared()),
            r@ == initial_state(Extent { width: 320, height: 240 }),
    {
        Self::new()
    }
}

// ---------------------------------------------------------------------------
// Laws of the runtime
// ---------------------------------------------------------------------------

/// Once the runtime has presented, it stays presented, whatever comes next.
pub proof fn lemma_presented_is_monotone(state: BlackBoxRuntimeState, event: RuntimeEvent)
    requires
        state.presented_at_least_once,
    ensures
        runtime_step(state, event).0.presented_at_least_once,
{
}

/// The host is shown exactly once: a `SetHostVisible` command comes only
/// from the first surface invalidation, and it always shows the host.
pub proof fn lemma_host_shown_once(state: BlackBoxRuntimeState, event: RuntimeEvent)
    ensures
        (exists|i: int|
            0 <= i < runtime_step(state, event).1.len() && #[trigger] runtime_step(
                state,
                event,
            ).1[i] is SetHostVisible) <==> (event is SurfaceInvalidated
            && !state.presented_at_least_once),
        forall|i: int|
            0 <= i < runtime_step(state, event).1.len() ==> (#[trigger] runtime_step(
                state,
                event,
            ).1[i] matches RuntimeCommand::SetHostVisible(v) ==> v),
{
    let cmds = runtime_step(state, event).1;
    if event is SurfaceInvalidated && !state.presented_at_least_once {
        assert(cmds[1] is SetHostVisible);
    }
}

/// A close request is never ignored: it marks the host as asked to close,
/// moves the runtime to `Closing`, and answers with one accepting decision
/// whose reason names the request's source.
pub proof fn lemma_close_request_accepted(state: BlackBoxRuntimeState, request: CloseRequest)
    ensures
        ({
            let (next, cmds) = runtime_step(state, RuntimeEvent::CloseRequested(request));
            &&& next.host.close_requested
            &&& next.behavior == BehaviorPhase::Closing
            &&& cmds.len() == 1
            &&& cmds[0] == RuntimeCommand::CompleteClose(
                CloseDecision::Accept(
                    match request.source {
                        CloseRequestSource::Host => RuntimeExitReason::HostRequestedClose,
                        CloseRequestSource::DevelopmentShortcut => RuntimeExitReason::EscapePressed,
                    },
                ),
            )
        }),
{
}

/// The resolved margin never drops below the root's base margin, and it
/// grows with the phase's bias unless it saturates.
pub proof fn lemma_margin_at_least_base(
    tree: BlackBoxComponentTree,
    extent: Extent,
    behavior: BehaviorPhase,
)
    ensures
        resolve_tree(tree, extent, behavior).root.margin >= tree.root.base_margin,
        resolve_tree(tree, extent, behavior).root.margin >= margin_for(tree.root.base_margin, extent),
{
}

/// A redraw presents the tree resolved from the state as it stands: the
/// phase's frame colour around the tinted fill, in the fill's layer.
pub proof fn lemma_present_follows_state(state: BlackBoxRuntimeState)
    ensures
        ({
            let (_, cmds) = runtime_step(state, RuntimeEvent::SurfaceInvalidated);
            let r = resolve_tree(state.components, state.surface.extent, state.behavior);
            &&& cmds.len() >= 1
            &&& cmds[0] == RuntimeCommand::Present(
                PresentModel {
                    layer: phase_inherited(state.behavior).layer,
                    intent: RenderIntent::ClearInset {
                        background: phase_frame_color(state.behavior),
                        inset: tinted(
                            state.components.fill.base_color,
                            phase_inherited(state.behavior).tint,
                        ),
                        margin: r.root.margin,
                    },
                },
            )
        }),
{
}

/// Only the behaviour events change the phase, only invalidation changes
/// whether the runtime has presented, and synchronising snapshots changes
/// nothing but the host and surface state.
pub proof fn lemma_step_frame(state: BlackBoxRuntimeState, event: RuntimeEvent)
    ensures
        ({
            let next = runtime_step(state, event).0;
            &&& next.components == state.components
            &&& (event is SnapshotsSynchronized || event is SurfaceInvalidated) ==> next.behavior
                == state.behavior
            &&& !(event is SurfaceInvalidated) ==> next.presented_at_least_once
                == state.presented_at_least_once
            &&& !(event is SnapshotsSynchronized) ==> next.surface == state.surface
        }),
{
}


/// The runtime's state after the first `k` events of `events`, from `state`.
pub open spec fn state_after_events(
    state: BlackBoxRuntimeState,
    events: Seq<RuntimeEvent>,
    k: int,
) -> BlackBoxRuntimeState
    decreases k,
{
    if k <= 0 {
        state
    } else {
        runtime_step(state_after_events(state, events, k - 1), events[k - 1]).0
    }
}

/// Every command the runtime issues for the first `k` events, in order.
pub open spec fn commands_for_events(
    state: BlackBoxRuntimeState,
    events: Seq<RuntimeEvent>,
    k: int,
) -> Seq<RuntimeCommand>
    decreases k,
{
    if k <= 0 {
        seq![]
    } else {
        commands_for_events(state, events, k - 1) + runtime_step(
            state_after_events(state, events, k - 1),
            events[k - 1],
        ).1
    }
}

/// How many commands show or hide the host.
pub open spec fn visibility_commands(cmds: Seq<RuntimeCommand>) -> nat
    decreases cmds.len(),
{
    if cmds.len() == 0 {
        0
    } else {
        visibility_commands(cmds.drop_last()) + if cmds.last() is SetHostVisible {
            1nat
        } else {
            0nat
        }
    }
}

proof fn lemma_visibility_commands_concat(a: Seq<RuntimeCommand>, b: Seq<RuntimeCommand>)
    ensures
        visibility_commands(a + b) == visibility_commands(a) + visibility_commands(b),
    decreases b.len(),
{
    if b.len() > 0 {
        assert((a + b).drop_last() =~= a + b.drop_last());
        lemma_visibility_commands_concat(a, b.drop_last());
    } else {
        assert(a + b =~= a);
    }
}

/// Over any run of events from a runtime that has not presented yet (a new
/// runtime among them): the components never change; once presented, the
/// runtime stays presented; the host is shown at most once, exactly when
/// the runtime first presents; and the host is never hidden and no close
/// is ever ignored.
pub proof fn lemma_runtime_run(state: BlackBoxRuntimeState, events: Seq<RuntimeEvent>)
    requires
        !state.presented_at_least_once,
    ensures
        forall|k: int|
            0 <= k <= events.len() ==> #[trigger] state_after_events(state, events, k).components
                == state.components,
        forall|i: int, j: int|
            0 <= i <= j <= events.len() && #[trigger] state_after_events(
                state,
                events,
                i,
            ).presented_at_least_once ==> #[trigger] state_after_events(
                state,
                events,
                j,
            ).presented_at_least_once,
        visibility_commands(commands_for_events(state, events, events.len() as int)) == if state_after_events(
            state,
            events,
            events.len() as int,
        ).presented_at_least_once {
            1nat
        } else {
            0nat
        },
        visibility_commands(commands_for_events(state, events, events.len() as int)) <= 1,
        forall|i: int|
            0 <= i < commands_for_events(state, events, events.len() as int).len() ==> {
                let c = #[trigger] commands_for_events(state, events, events.len() as int)[i];
                c != RuntimeCommand::SetHostVisible(false) && c != RuntimeCommand::CompleteClose(
                    CloseDecision::Ignore,
                )
            },
{
    lemma_runtime_run_prefix(state, events, events.len() as int);
    assert forall|i: int, j: int|
        0 <= i <= j <= events.len() && #[trigger] state_after_events(
            state,
            events,
            i,
        ).presented_at_least_once implies #[trigger] state_after_events(
            state,
            events,
            j,
        ).presented_at_least_once by {
        lemma_presented_stays(state, events, i, j);
    }
}

proof fn lemma_presented_stays(state: BlackBoxRuntimeState, events: Seq<RuntimeEvent>, i: int, j: int)
    requires
        0 <= i <= j <= events.len(),
        state_after_events(state, events, i).presented_at_least_once,
    ensures
        state_after_events(state, events, j).presented_at_least_once,
    decreases j - i,
{
    if i < j {
        lemma_presented_stays(state, events, i, j - 1);
        lemma_presented_is_monotone(state_after_events(state, events, j - 1), events[j - 1]);
    }
}

proof fn lemma_runtime_run_prefix(state: BlackBoxRuntimeState, events: Seq<RuntimeEvent>, n: int)
    requires
        !state.presented_at_least_once,
        0 <= n <= events.len(),
    ensures
        forall|k: int|
            0 <= k <= n ==> #[trigger] state_after_events(state, events, k).components
                == state.components,
        visibility_commands(commands_for_events(state, events, n)) == if state_after_events(
            state,
            events,
            n,
        ).presented_at_least_once {
            1nat
        } else {
            0nat
        },
        forall|i: int|
            0 <= i < commands_for_events(state, events, n).len() ==> {
                let c = #[trigger] commands_for_events(state, events, n)[i];
                c != RuntimeCommand::SetHostVisible(false) && c != RuntimeCommand::CompleteClose(
                    CloseDecision::Ignore,
                )
            },
    decreases n,
{
    if n > 0 {
        lemma_runtime_run_prefix(state, events, n - 1);
        let prev = state_after_events(state, events, n - 1);
        let e = events[n - 1];
        let before = commands_for_events(state, events, n - 1);
        let step = runtime_step(prev, e).1;
        lemma_visibility_commands_concat(before, step);
        lemma_step_frame(prev, e);
        lemma_host_shown_once(prev, e);
        let all = commands_for_events(state, events, n);
        assert(all == before + step);
        assert(visibility_commands(step) == if !prev.presented_at_least_once
            && e is SurfaceInvalidated {
            1nat
        } else {
            0nat
        }) by {
            reveal_with_fuel(visibility_commands, 3);
            if e is SurfaceInvalidated && !prev.presented_at_least_once {
                assert(step.drop_last().drop_last() =~= Seq::<RuntimeCommand>::empty());
            } else if e is SnapshotsSynchronized {
                assert(step =~= Seq::<RuntimeCommand>::empty());
            } else {
                assert(step.drop_last() =~= Seq::<RuntimeCommand>::empty());
            }
        }
        assert forall|i: int| 0 <= i < all.len() implies {
            let c = #[trigger] all[i];
            c != RuntimeCommand::SetHostVisible(false) && c != RuntimeCommand::CompleteClose(
                CloseDecision::Ignore,
            )
        } by {
            if i < before.len() {
                assert(all[i] == before[i]);
            } else {
                assert(all[i] == step[i - before.len()]);
            }
        }
    }
}

} // verus!
