//! The desktop side of a black-box session: the session plan, the host and
//! presenter models, the pixels a present model draws, and the session
//! that carries runtime commands out against them. Windows, event loops
//! and pixel buffers belong to the program; it hands this module plain
//! inputs and carries out the actions it returns.
use vstd::prelude::*;
use crate::host::{CloseBehavior, HostCapabilities, HostDescriptor, HostId, HostPort, HostState};
use crate::render::{packed_rgb, PresentModel, RenderIntent, Rgb24};
use crate::runtime::{
    runtime_step, BehaviorPhase, BlackBoxRuntime, BlackBoxRuntimeState, CloseDecision,
    RuntimeCommand, RuntimeDeclaration, RuntimeEvent, RuntimeExitReason, is_black_box_declaration,
};
use crate::host::{CloseRequest, CloseRequestSource};
use crate::surface::{Extent, PresentCapabilities, PresentPort, SurfaceDescriptor, SurfaceId, SurfaceState};
use crate::text::str_equal;

verus! {

// ---------------------------------------------------------------------------
// Plan
// ---------------------------------------------------------------------------

/// How the desktop host window starts.
#[derive(Debug, Clone, Copy, PartialEq, Eq, Structural)]
pub struct DesktopHostConfig {
    pub initial_extent: Extent,
    pub decorated: bool,
}

impl DesktopHostConfig {
    /// 320 by 240, undecorated.
    pub fn black_box() -> (c: Self)
        ensures
            c == (DesktopHostConfig {
                initial_extent: Extent { width: 320, height: 240 },
                decorated: false,
            }),
    {
        Self { initial_extent: Extent::new(320, 240), decorated: false }
    }
}

/// The descriptors and initial states a desktop session starts from.
#[derive(Debug, Clone, PartialEq, Eq)]
pub struct DesktopSessionPlan {
    pub host: HostDescriptor,
    pub surface: SurfaceDescriptor,
    pub host_state: HostState,
    pub surface_state: SurfaceState,
}

fn copy_host_descriptor(d: &HostDescriptor) -> (r: HostDescriptor)
    ensures
        r == *d,
{
    HostDescriptor {
        id: HostId(d.id.0),
        role: d.role,
        close_behavior: d.close_behavior,
        primary_surface: SurfaceId(d.primary_surface.0),
    }
}

fn copy_surface_descriptor(d: &SurfaceDescriptor) -> (r: SurfaceDescriptor)
    ensures
        r == *d,
{
    SurfaceDescriptor {
        id: SurfaceId(d.id.0),
        role: d.role,
        initial_extent: d.initial_extent,
        decorated: d.decorated,
    }
}

impl DesktopSessionPlan {
    /// The plan for a runtime's host and surface under a desktop config:
    /// the runtime's names and roles, a runtime-managed close, the config's
    /// extent and decoration, and a hidden host and surface.
    pub fn from_runtime(runtime: &RuntimeDeclaration, config: DesktopHostConfig) -> (p: Self)
        ensures
            p.host.id == runtime.host.id,
            p.host.role == runtime.host.role,
            p.host.close_behavior == CloseBehavior::ManagedByRuntime,
            p.host.primary_surface == runtime.host.primary_surface,
            p.surface.id == runtime.surface.id,
            p.surface.role == runtime.surface.role,
            p.surface.initial_extent == config.initial_extent,
            p.surface.decorated == config.decorated,
            p.host_state == (HostState { visible: false, close_requested: false }),
            p.surface_state == (SurfaceState { extent: config.initial_extent, visible: false }),
    {
        let host = HostDescriptor {
            id: HostId(runtime.host.id.0),
            role: runtime.host.role,
            close_behavior: CloseBehavior::ManagedByRuntime,
            primary_surface: SurfaceId(runtime.host.primary_surface.0),
        };
        let surface = SurfaceDescriptor {
            id: SurfaceId(runtime.surface.id.0),
            role: runtime.surface.role,
            initial_extent: config.initial_extent,
            decorated: config.decorated,
        };
        Self {
            host,
            surface,
            host_state: HostState::default(),
            surface_state: SurfaceState::new(config.initial_extent, false),
        }
    }
}

/// Whether a plan is the black-box one.
pub open spec fn is_black_box_plan(p: DesktopSessionPlan) -> bool {
    &&& p.host.id.0@ == "black-box.host"@
    &&& p.host.role@ == "desktop-host"@
    &&& p.host.close_behavior == CloseBehavior::ManagedByRuntime
    &&& p.host.primary_surface.0@ == "black-box.surface"@
    &&& p.surface.id.0@ == "black-box.surface"@
    &&& p.surface.role@ == "present-target"@
    &&& p.surface.initial_extent == (Extent { width: 320, height: 240 })
    &&& !p.surface.decorated
    &&& p.host_state == (HostState { visible: false, close_requested: false })
    &&& p.surface_state == (SurfaceState {
        extent: Extent { width: 320, height: 240 },
        visible: false,
    })
}

/// The plan for the black-box runtime in the black-box desktop config.
pub fn plan_black_box_session() -> (p: DesktopSessionPlan)
    ensures
        is_black_box_plan(p),
{
    let d = RuntimeDeclaration::black_box();
    DesktopSessionPlan::from_runtime(&d, DesktopHostConfig::black_box())
}

/// How a desktop session ended.
#[derive(Debug, Clone, Copy, PartialEq, Eq, Structural)]
pub struct DesktopRunReport {
    pub exit_reason: RuntimeExitReason,
    pub presented_at_least_once: bool,
}

/// The attributes of the window a session asks for.
#[derive(Debug, Clone, PartialEq, Eq)]
pub struct WindowSpec {
    pub title: &'static str,
    pub decorated: bool,
    pub resizable: bool,
    pub visible: bool,
    pub width: u32,
    pub height: u32,
}

// ---------------------------------------------------------------------------
// Pixels
// ---------------------------------------------------------------------------

/// Whether the inset rectangle of a `ClearInset` covers pixel `(x, y)`:
/// the margin must leave room on both axes, and the pixel must lie at
/// least `margin` pixels in from every edge.
pub open spec fn inset_covers(margin: u32, width: u32, height: u32, x: int, y: int) -> bool {
    &&& 2 * margin < width
    &&& 2 * margin < height
    &&& margin <= x < width - margin
    &&& margin <= y < height - margin
}

/// The packed colour of pixel `(x, y)` for an intent on a surface of the
/// given size.
pub open spec fn pixel_at(intent: RenderIntent, width: u32, height: u32, x: int, y: int) -> u32 {
    match intent {
        RenderIntent::ClearSolid { color } => packed_rgb(color.red, color.green, color.blue) as u32,
        RenderIntent::ClearInset { background, inset, margin } => if inset_covers(
            margin,
            width,
            height,
            x,
            y,
        ) {
            packed_rgb(inset.red, inset.green, inset.blue) as u32
        } else {
            packed_rgb(background.red, background.green, background.blue) as u32
        },
    }
}

/// The frame an intent draws: `width * height` pixels, row by row.
pub open spec fn rendered_frame(intent: RenderIntent, width: u32, height: u32) -> Seq<u32> {
    Seq::new(
        (width * height) as nat,
        |i: int| pixel_at(intent, width, height, i % (width as int), i / (width as int)),
    )
}

fn pixel(intent: RenderIntent, width: u32, height: u32, x: u32, y: u32) -> (p: u32)
    ensures
        p == pixel_at(intent, width, height, x as int, y as int),
{
    match intent {
        RenderIntent::ClearSolid { color } => color.into_u32(),
        RenderIntent::ClearInset { background, inset, margin } => {
            let twice = margin as u64 * 2;
            if twice < width as u64 && twice < height as u64 && margin <= x && x < width - margin
                && margin <= y && y < height - margin {
                inset.into_u32()
            } else {
                background.into_u32()
            }
        },
    }
}

/// Draws an intent into a new frame of `width * height` pixels.
pub fn render_frame(intent: RenderIntent, width: u32, height: u32) -> (frame: Vec<u32>)
    requires
        width > 0,
        width * height <= usize::MAX,
    ensures
        frame@ == rendered_frame(intent, width, height),
{
    let mut frame: Vec<u32> = Vec::new();
    let mut y: u32 = 0;
    while y < height
        invariant
            0 < width,
            y <= height,
            width * height <= usize::MAX,
            frame@.len() == y * width,
            forall|i: int|
                0 <= i < frame@.len() ==> #[trigger] frame@[i] == pixel_at(
                    intent,
                    width,
                    height,
                    i % (width as int),
                    i / (width as int),
                ),
        decreases height - y,
    {
        let mut x: u32 = 0;
        while x < width
            invariant
                0 < width,
                y < height,
                x <= width,
                width * height <= usize::MAX,
                frame@.len() == y * width + x,
                forall|i: int|
                    0 <= i < frame@.len() ==> #[trigger] frame@[i] == pixel_at(
                        intent,
                        width,
                        height,
                        i % (width as int),
                        i / (width as int),
                    ),
            decreases width - x,
        {
            proof {
                vstd::arithmetic::div_mod::lemma_fundamental_div_mod_converse(
                    y * width + x,
                    width as int,
                    y as int,
                    x as int,
                );
                assert((y + 1) * width <= height * width) by (nonlinear_arith)
                    requires
                        y < height,
                ;
            }
            let p = pixel(intent, width, height, x, y);
            frame.push(p);
            x = x + 1;
        }
        assert((y + 1) * width == y * width + width) by (nonlinear_arith);
        y = y + 1;
    }
    assert(height * width == width * height) by (nonlinear_arith);
    assert(frame@ =~= rendered_frame(intent, width, height));
    frame
}

// ---------------------------------------------------------------------------
// Host and presenter models
// ---------------------------------------------------------------------------

/// The desktop host as the runtime sees it.
#[derive(Debug, Clone, PartialEq, Eq)]
pub struct DesktopHost {
    descriptor: HostDescriptor,
    state: HostState,
    capabilities: HostCapabilities,
}

impl View for DesktopHost {
    type V = HostState;

    closed spec fn view(&self) -> HostState {
        self.state
    }
}

impl DesktopHost {
    /// The descriptor the host was made with.
    pub closed spec fn described(&self) -> HostDescriptor {
        self.descriptor
    }

    /// A desktop host; desktop hosts cannot move, be transparent or take
    /// irregular input.
    pub fn new(descriptor: HostDescriptor, state: HostState) -> (h: Self)
        ensures
            h@ == state,
            h.described() == descriptor,
    {
        Self { descriptor, state, capabilities: HostCapabilities::new(false, false, false) }
    }

    pub fn set_visible(&mut self, visible: bool)
        ensures
            final(self)@ == (HostState { visible, ..old(self)@ }),
            final(self).described() == old(self).described(),
    {
        self.state.visible = visible;
    }

    pub fn set_close_requested(&mut self, close_requested: bool)
        ensures
            final(self)@ == (HostState { close_requested, ..old(self)@ }),
            final(self).described() == old(self).described(),
    {
        self.state.close_requested = close_requested;
    }
}

impl HostPort for DesktopHost {
    fn descriptor(&self) -> (d: &HostDescriptor)
        ensures
            *d == self.described(),
    {
        &self.descriptor
    }

    fn state(&self) -> (s: HostState)
        ensures
            s == self@,
    {
        self.state
    }

    fn capabilities(&self) -> (c: HostCapabilities)
        ensures
            c == (HostCapabilities {
                supports_repositioning: false,
                supports_transparency: false,
                supports_irregular_interaction: false,
            }),
    {
        HostCapabilities::new(false, false, false)
    }
}

/// Why a present could not be drawn.
#[derive(Debug, Clone, Copy, PartialEq, Eq, Structural)]
pub enum FrameError {
    /// The surface holds more pixels than a frame can index.
    AreaTooLarge,
}

/// The desktop presenter: the surface's state and the last frame drawn.
#[derive(Debug, Clone, PartialEq, Eq)]
pub struct DesktopPresenter {
    descriptor: SurfaceDescriptor,
    state: SurfaceState,
    frame: Vec<u32>,
}

impl View for DesktopPresenter {
    type V = SurfaceState;

    closed spec fn view(&self) -> SurfaceState {
        self.state
    }
}

/// Whether a surface of this extent gets drawn at all.
pub open spec fn drawable(extent: Extent) -> bool {
    extent.width > 0 && extent.height > 0
}

impl DesktopPresenter {
    pub closed spec fn described(&self) -> SurfaceDescriptor {
        self.descriptor
    }

    /// The last frame drawn, row by row.
    pub closed spec fn frame_view(&self) -> Seq<u32> {
        self.frame@
    }

    /// A presenter that has drawn nothing yet.
    pub fn new(descriptor: SurfaceDescriptor, state: SurfaceState) -> (p: Self)
        ensures
            p@ == state,
            p.described() == descriptor,
            p.frame_view() == Seq::<u32>::empty(),
    {
        Self { descriptor, state, frame: Vec::new() }
    }

    pub fn set_visibility(&mut self, visible: bool)
        ensures
            final(self)@ == (SurfaceState { visible, ..old(self)@ }),
            final(self).described() == old(self).described(),
            final(self).frame_view() == old(self).frame_view(),
    {
        self.state.visible = visible;
    }

    pub fn set_extent(&mut self, extent: Extent)
        ensures
            final(self)@ == (SurfaceState { extent, ..old(self)@ }),
            final(self).described() == old(self).described(),
            final(self).frame_view() == old(self).frame_view(),
    {
        self.state.extent = extent;
    }

    /// The last frame drawn.
    pub fn frame(&self) -> (f: &[u32])
        ensures
            f@ == self.frame_view(),
    {
        self.frame.as_slice()
    }
}

impl PresentPort for DesktopPresenter {
    type Error = FrameError;

    fn descriptor(&self) -> (d: &SurfaceDescriptor)
        ensures
            *d == self.described(),
    {
        &self.descriptor
    }

    fn state(&self) -> (s: SurfaceState)
        ensures
            s == self@,
    {
        self.state
    }

    /// The desktop presenter draws solid and inset fills, opaque and
    /// rectangular.
    fn capabilities(&self) -> (c: PresentCapabilities)
        ensures
            c == (PresentCapabilities {
                supports_transparency: false,
                supports_irregular_shape: false,
                supports_clear_solid: true,
                supports_clear_inset: true,
            }),
    {
        PresentCapabilities::new(false, false, true, true)
    }

    /// Draws the model on the current extent; an empty extent draws nothing.
    fn present(&mut self, model: PresentModel) -> (r: Result<(), FrameError>)
        ensures
            final(self)@ == old(self)@,
            final(self).described() == old(self).described(),
            !drawable(old(self)@.extent) ==> r is Ok && final(self).frame_view() == old(
                self,
            ).frame_view(),
            drawable(old(self)@.extent) && old(self)@.extent.width * old(self)@.extent.height
                <= usize::MAX ==> r is Ok && final(self).frame_view() == rendered_frame(
                model.intent,
                old(self)@.extent.width,
                old(self)@.extent.height,
            ),
            drawable(old(self)@.extent) && old(self)@.extent.width * old(self)@.extent.height
                > usize::MAX ==> r == Err::<(), FrameError>(FrameError::AreaTooLarge)
                && final(self).frame_view() == old(self).frame_view(),
    {
        let width = self.state.extent.width;
        let height = self.state.extent.height;
        if width == 0 || height == 0 {
            return Ok(());
        }
        assert((width as u128) * (height as u128) <= 0xffff_ffff_ffff_ffff_ffff_ffff_ffff_ffffu128) by (nonlinear_arith)
            requires
                width <= u32::MAX,
                height <= u32::MAX,
        ;
        let area = (width as u128) * (height as u128);
        if area > usize::MAX as u128 {
            return Err(FrameError::AreaTooLarge);
        }
        self.frame = render_frame(model.intent, width, height);
        Ok(())
    }
}

// ---------------------------------------------------------------------------
// The session
// ---------------------------------------------------------------------------

/// What the program does after a command: nothing, ask the window for a
/// redraw, copy the presenter's frame to the window, show or hide the
/// window, or leave the event loop.
#[derive(Debug, Clone, Copy, PartialEq, Eq, Structural)]
pub enum HostAction {
    Nothing,
    RequestRedraw,
    Draw,
    SetWindowVisible(bool),
    Exit,
}

/// What the program's window reports.
#[derive(Debug, Clone, PartialEq, Eq)]
pub enum DesktopInput {
    CloseRequested,
    EscapePressed,
    CharacterPressed(String),
    Resized(Extent),
    RedrawRequested,
    Other,
}

/// The state of a session: the runtime's state, the host and surface
/// state once the window exists, the last frame, the planned initial
/// states, the forced phase and the report once the session has ended.
pub struct SessionView {
    pub runtime: BlackBoxRuntimeState,
    pub host: Option<HostState>,
    pub surface: Option<SurfaceState>,
    pub frame: Seq<u32>,
    pub plan_host: HostState,
    pub plan_surface: SurfaceState,
    pub forced_behavior: Option<BehaviorPhase>,
    pub report: Option<DesktopRunReport>,
}

/// The session after its host and surface state are synchronised into the
/// runtime; before the window exists, the planned states stand in.
pub open spec fn synced(v: SessionView) -> SessionView {
    let host = match v.host {
        Some(h) => h,
        None => v.plan_host,
    };
    let surface = match v.surface {
        Some(s) => s,
        None => v.plan_surface,
    };
    SessionView { runtime: BlackBoxRuntimeState { host, surface, ..v.runtime }, ..v }
}

/// The session once its window exists: host and surface in their planned
/// states, synchronised.
pub open spec fn attached(v: SessionView) -> SessionView {
    synced(
        SessionView {
            host: Some(v.plan_host),
            surface: Some(v.plan_surface),
            frame: Seq::empty(),
            ..v
        },
    )
}

/// The session after the runtime handles an event.
pub open spec fn event_step(v: SessionView, event: RuntimeEvent) -> (SessionView, Seq<RuntimeCommand>) {
    let (runtime, commands) = runtime_step(v.runtime, event);
    (SessionView { runtime, ..v }, commands)
}

/// Whether a present on a window of this extent is drawn.
pub open spec fn presents_frame(window: Extent) -> bool {
    drawable(window) && window.width * window.height <= usize::MAX
}

/// The session after carrying out one command, and what the program must
/// do for it; `window` is the window's current inner size.
pub open spec fn command_step(v: SessionView, command: RuntimeCommand, window: Extent) -> (
    SessionView,
    HostAction,
) {
    match command {
        RuntimeCommand::RequestRedraw => (
            v,
            if v.host is Some {
                HostAction::RequestRedraw
            } else {
                HostAction::Nothing
            },
        ),
        RuntimeCommand::Present(model) => match v.surface {
            Some(s) => {
                let frame = if presents_frame(window) {
                    rendered_frame(model.intent, window.width, window.height)
                } else {
                    v.frame
                };
                (
                    synced(
                        SessionView {
                            surface: Some(SurfaceState { extent: window, ..s }),
                            frame,
                            ..v
                        },
                    ),
                    if presents_frame(window) {
                        HostAction::Draw
                    } else {
                        HostAction::Nothing
                    },
                )
            },
            None => (synced(v), HostAction::Nothing),
        },
        RuntimeCommand::SetHostVisible(visible) => {
            let host = match v.host {
                Some(h) => Some(HostState { visible, ..h }),
                None => None,
            };
            let surface = match v.surface {
                Some(s) => Some(SurfaceState { visible, ..s }),
                None => None,
            };
            (
                synced(SessionView { host, surface, ..v }),
                if v.host is Some {
                    HostAction::SetWindowVisible(visible)
                } else {
                    HostAction::Nothing
                },
            )
        },
        RuntimeCommand::CompleteClose(CloseDecision::Accept(reason)) => (
            SessionView {
                report: Some(
                    DesktopRunReport {
                        exit_reason: reason,
                        presented_at_least_once: v.runtime.presented_at_least_once,
                    },
                ),
                ..v
            },
            HostAction::Exit,
        ),
        RuntimeCommand::CompleteClose(CloseDecision::Ignore) => {
            let host = match v.host {
                Some(h) => Some(HostState { close_requested: false, ..h }),
                None => None,
            };
            (synced(SessionView { host, ..v }), HostAction::Nothing)
        },
    }
}

/// The phase a development key forces: `1` booting, `2` idle, `3` closing.
pub open spec fn key_behavior(key: Seq<char>) -> Option<BehaviorPhase> {
    if key == "1"@ {
        Some(BehaviorPhase::Booting)
    } else if key == "2"@ {
        Some(BehaviorPhase::Idle)
    } else if key == "3"@ {
        Some(BehaviorPhase::Closing)
    } else {
        None
    }
}

/// The session after a window input, and the runtime event it leads to.
/// Inputs before the window exists are ignored.
pub open spec fn input_step(v: SessionView, input: DesktopInput) -> (SessionView, Option<RuntimeEvent>) {
    if v.host is None {
        (v, None)
    } else {
        match input {
            DesktopInput::CloseRequested => (
                synced(SessionView { host: Some(HostState { close_requested: true, ..v.host->0 }), ..v }),
                Some(RuntimeEvent::CloseRequested(CloseRequest { source: CloseRequestSource::Host })),
            ),
            DesktopInput::EscapePressed => (
                synced(SessionView { host: Some(HostState { close_requested: true, ..v.host->0 }), ..v }),
                Some(
                    RuntimeEvent::CloseRequested(
                        CloseRequest { source: CloseRequestSource::DevelopmentShortcut },
                    ),
                ),
            ),
            DesktopInput::CharacterPressed(key) => match key_behavior(key@) {
                Some(b) => (synced(v), Some(RuntimeEvent::DevelopmentSetBehavior(b))),
                None => (v, None),
            },
            DesktopInput::Resized(extent) => {
                let surface = match v.surface {
                    Some(s) => Some(SurfaceState { extent, ..s }),
                    None => None,
                };
                (synced(SessionView { surface, ..v }), Some(RuntimeEvent::SurfaceInvalidated))
            },
            DesktopInput::RedrawRequested => (synced(v), Some(RuntimeEvent::SurfaceInvalidated)),
            DesktopInput::Other => (v, None),
        }
    }
}

/// A black-box desktop session: the runtime, the host and presenter
/// models once the window exists, and the report once the session ends.
pub struct DesktopSession {
    plan: DesktopSessionPlan,
    forced_behavior: Option<BehaviorPhase>,
    runtime: BlackBoxRuntime,
    host: Option<DesktopHost>,
    presenter: Option<DesktopPresenter>,
    report: Option<DesktopRunReport>,
}

impl View for DesktopSession {
    type V = SessionView;

    closed spec fn view(&self) -> SessionView {
        SessionView {
            runtime: self.runtime@,
            host: match self.host {
                Some(h) => Some(h@),
                None => None,
            },
            surface: match self.presenter {
                Some(p) => Some(p@),
                None => None,
            },
            frame: match self.presenter {
                Some(p) => p.frame_view(),
                None => Seq::empty(),
            },
            plan_host: self.plan.host_state,
            plan_surface: self.plan.surface_state,
            forced_behavior: self.forced_behavior,
            report: self.report,
        }
    }
}

impl DesktopSession {
    /// The plan the session was made with.
    pub closed spec fn planned(&self) -> DesktopSessionPlan {
        self.plan
    }

    /// The runtime's declaration.
    pub closed spec fn declared(&self) -> RuntimeDeclaration {
        self.runtime.declared()
    }

    /// A session for a plan, with a fresh black-box runtime and no window.
    pub fn new(plan: DesktopSessionPlan, forced_behavior: Option<BehaviorPhase>) -> (s: Self)
        ensures
            s.planned() == plan,
            is_black_box_declaration(s.declared()),
            s@.runtime == crate::runtime::initial_state(Extent { width: 320, height: 240 }),
            s@.host is None,
            s@.surface is None,
            s@.frame == Seq::<u32>::empty(),
            s@.plan_host == plan.host_state,
            s@.plan_surface == plan.surface_state,
            s@.forced_behavior == forced_behavior,
            s@.report is None,
    {
        Self {
            plan,
            forced_behavior,
            runtime: BlackBoxRuntime::new(),
            host: None,
            presenter: None,
            report: None,
        }
    }

    /// The config the plan's surface was made from.
    pub fn config(&self) -> (c: DesktopHostConfig)
        ensures
            c == (DesktopHostConfig {
                initial_extent: self.planned().surface.initial_extent,
                decorated: self.planned().surface.decorated,
            }),
    {
        DesktopHostConfig {
            initial_extent: self.plan.surface.initial_extent,
            decorated: self.plan.surface.decorated,
        }
    }

    /// The window to create: titled, decorated as planned, fixed in size,
    /// hidden until the first present, at the planned extent.
    pub fn window_spec(&self) -> (w: WindowSpec)
        ensures
            w.title@ == "stui black-box"@,
            w.decorated == self.planned().surface.decorated,
            !w.resizable,
            !w.visible,
            w.width == self.planned().surface.initial_extent.width,
            w.height == self.planned().surface.initial_extent.height,
    {
        let config = self.config();
        WindowSpec {
            title: "stui black-box",
            decorated: config.decorated,
            resizable: false,
            visible: false,
            width: config.initial_extent.width,
            height: config.initial_extent.height,
        }
    }

    /// The runtime, for inspection.
    pub fn runtime(&self) -> (r: &BlackBoxRuntime)
        ensures
            r@ == self@.runtime,
            r.declared() == self.declared(),
    {
        &self.runtime
    }

    /// The phase forced at start, if any.
    pub fn forced_behavior(&self) -> (b: Option<BehaviorPhase>)
        ensures
            b == self@.forced_behavior,
    {
        self.forced_behavior
    }

    /// How the session ended, once it has.
    pub fn report(&self) -> (r: Option<DesktopRunReport>)
        ensures
            r == self@.report,
    {
        self.report
    }

    /// The host's and the presenter's capabilities, once the window exists:
    /// a desktop host cannot move, be transparent or take irregular input;
    /// a desktop presenter draws opaque, rectangular solid and inset fills.
    pub fn capabilities(&self) -> (c: Option<(HostCapabilities, PresentCapabilities)>)
        ensures
            (self@.host is Some && self@.surface is Some) <==> c is Some,
            c matches Some((h, p)) ==> h == (HostCapabilities {
                supports_repositioning: false,
                supports_transparency: false,
                supports_irregular_interaction: false,
            }) && p == (PresentCapabilities {
                supports_transparency: false,
                supports_irregular_shape: false,
                supports_clear_solid: true,
                supports_clear_inset: true,
            }),
    {
        match (&self.host, &self.presenter) {
            (Some(host), Some(presenter)) => Some((host.capabilities(), presenter.capabilities())),
            _ => None,
        }
    }

    /// The last frame drawn (empty before the window exists).
    pub fn frame(&self) -> (f: &[u32])
        ensures
            f@ == self@.frame,
    {
        match &self.presenter {
            Some(p) => p.frame(),
            None => &[],
        }
    }

    /// Feeds the host and surface state into the runtime.
    fn sync_snapshots(&mut self)
        ensures
            final(self)@ == synced(old(self)@),
            final(self).planned() == old(self).planned(),
            final(self).declared() == old(self).declared(),
    {
        let host = match &self.host {
            Some(h) => h.state(),
            None => self.plan.host_state,
        };
        let surface = match &self.presenter {
            Some(p) => p.state(),
            None => self.plan.surface_state,
        };
        self.runtime.handle_event(RuntimeEvent::SnapshotsSynchronized { host, surface });
    }

    /// The window now exists: model its host and presenter in their planned
    /// states and synchronise them into the runtime.
    pub fn attach(&mut self)
        ensures
            final(self)@ == attached(old(self)@),
            final(self).planned() == old(self).planned(),
            final(self).declared() == old(self).declared(),
    {
        self.host = Some(DesktopHost::new(copy_host_descriptor(&self.plan.host), self.plan.host_state));
        self.presenter = Some(
            DesktopPresenter::new(copy_surface_descriptor(&self.plan.surface), self.plan.surface_state),
        );
        self.sync_snapshots();
    }

    /// Whether the program logs the runtime after an event: every event but
    /// redraws and snapshot synchronisation.
    pub fn should_log_event(event: &RuntimeEvent) -> (r: bool)
        ensures
            r == !(*event is SurfaceInvalidated || *event is SnapshotsSynchronized),
    {
        match event {
            RuntimeEvent::SurfaceInvalidated => false,
            RuntimeEvent::SnapshotsSynchronized { .. } => false,
            _ => true,
        }
    }

    /// Synchronises, then gives the event that forces `behavior`.
    pub fn set_behavior_event(&mut self, behavior: BehaviorPhase) -> (e: RuntimeEvent)
        ensures
            final(self)@ == synced(old(self)@),
            e == RuntimeEvent::DevelopmentSetBehavior(behavior),
            final(self).planned() == old(self).planned(),
            final(self).declared() == old(self).declared(),
    {
        self.sync_snapshots();
        RuntimeEvent::DevelopmentSetBehavior(behavior)
    }

    /// Hands an event to the runtime and returns its commands.
    pub fn handle_runtime_event(&mut self, event: RuntimeEvent) -> (commands: Vec<RuntimeCommand>)
        ensures
            (final(self)@, commands@) == event_step(old(self)@, event),
            final(self).planned() == old(self).planned(),
            final(self).declared() == old(self).declared(),
    {
        self.runtime.handle_event(event)
    }

    /// Carries out a runtime command against the host and presenter models
    /// and says what the program must do; `window` is the window's current
    /// inner size.
    pub fn execute_command(&mut self, command: RuntimeCommand, window: Extent) -> (a: HostAction)
        ensures
            (final(self)@, a) == command_step(old(self)@, command, window),
            final(self).planned() == old(self).planned(),
            final(self).declared() == old(self).declared(),
    {
        match command {
            RuntimeCommand::RequestRedraw => {
                if self.host.is_some() {
                    HostAction::RequestRedraw
                } else {
                    HostAction::Nothing
                }
            },
            RuntimeCommand::Present(model) => {
                let mut action = HostAction::Nothing;
                if let Some(presenter) = self.presenter.as_mut() {
                    presenter.set_extent(window);
                    let drawn = presenter.present(model);
                    if window.width > 0 && window.height > 0 && drawn.is_ok() {
                        action = HostAction::Draw;
                    }
                }
                self.sync_snapshots();
                action
            },
            RuntimeCommand::SetHostVisible(visible) => {
                let mut action = HostAction::Nothing;
                if let Some(host) = self.host.as_mut() {
                    host.set_visible(visible);
                    action = HostAction::SetWindowVisible(visible);
                }
                if let Some(presenter) = self.presenter.as_mut() {
                    presenter.set_visibility(visible);
                }
                self.sync_snapshots();
                action
            },
            RuntimeCommand::CompleteClose(decision) => match decision {
                CloseDecision::Accept(reason) => {
                    self.report = Some(
                        DesktopRunReport {
                            exit_reason: reason,
                            presented_at_least_once: self.runtime.state().presented_at_least_once,
                        },
                    );
                    HostAction::Exit
                },
                CloseDecision::Ignore => {
                    if let Some(host) = self.host.as_mut() {
                        host.set_close_requested(false);
                    }
                    self.sync_snapshots();
                    HostAction::Nothing
                },
            },
        }
    }

    /// Takes a window input and gives the runtime event it leads to, after
    /// updating the host and surface models and synchronising them.
    pub fn window_input(&mut self, input: DesktopInput) -> (e: Option<RuntimeEvent>)
        ensures
            (final(self)@, e) == input_step(old(self)@, input),
            final(self).planned() == old(self).planned(),
            final(self).declared() == old(self).declared(),
    {
        if self.host.is_none() {
            return None;
        }
        match input {
            DesktopInput::CloseRequested => {
                if let Some(host) = self.host.as_mut() {
                    host.set_close_requested(true);
                }
                self.sync_snapshots();
                Some(RuntimeEvent::CloseRequested(CloseRequest::new(CloseRequestSource::Host)))
            },
            DesktopInput::EscapePressed => {
                if let Some(host) = self.host.as_mut() {
                    host.set_close_requested(true);
                }
                self.sync_snapshots();
                Some(
                    RuntimeEvent::CloseRequested(
                        CloseRequest::new(CloseRequestSource::DevelopmentShortcut),
                    ),
                )
            },
            DesktopInput::CharacterPressed(key) => {
                let behavior = if str_equal(key.as_str(), "1") {
                    Some(BehaviorPhase::Booting)
                } else if str_equal(key.as_str(), "2") {
                    Some(BehaviorPhase::Idle)
                } else if str_equal(key.as_str(), "3") {
                    Some(BehaviorPhase::Closing)
                } else {
                    None
                };
                match behavior {
                    Some(b) => Some(self.set_behavior_event(b)),
                    None => None,
                }
            },
            DesktopInput::Resized(extent) => {
                if let Some(presenter) = self.presenter.as_mut() {
                    presenter.set_extent(extent);
                }
                self.sync_snapshots();
                Some(RuntimeEvent::SurfaceInvalidated)
            },
            DesktopInput::RedrawRequested => {
                self.sync_snapshots();
                Some(RuntimeEvent::SurfaceInvalidated)
            },
            DesktopInput::Other => None,
        }
    }
}

// ---------------------------------------------------------------------------
// Laws of the session
// ---------------------------------------------------------------------------

/// A close request from the host ends the session gracefully: the host is
/// marked as asked to close, the runtime accepts, the program is told to
/// leave its loop, and the report names the host's request and whether
/// anything was presented.
pub proof fn lemma_host_close_ends_session(v: SessionView, window: Extent)
    requires
        v.host is Some,
    ensures
        ({
            let (v1, e) = input_step(v, DesktopInput::CloseRequested);
            let (v2, cmds) = event_step(v1, e->0);
            let (v3, action) = command_step(v2, cmds[0], window);
            &&& e == Some(RuntimeEvent::CloseRequested(CloseRequest { source: CloseRequestSource::Host }))
            &&& cmds.len() == 1
            &&& action == HostAction::Exit
            &&& v3.report == Some(
                DesktopRunReport {
                    exit_reason: RuntimeExitReason::HostRequestedClose,
                    presented_at_least_once: v.runtime.presented_at_least_once,
                },
            )
            &&& v3.runtime.host.close_requested
            &&& v3.runtime.behavior == BehaviorPhase::Closing
        }),
{
}

/// The escape key ends the session the same way, with the escape key as
/// the reason.
pub proof fn lemma_escape_ends_session(v: SessionView, window: Extent)
    requires
        v.host is Some,
    ensures
        ({
            let (v1, e) = input_step(v, DesktopInput::EscapePressed);
            let (v2, cmds) = event_step(v1, e->0);
            let (v3, action) = command_step(v2, cmds[0], window);
            &&& cmds.len() == 1
            &&& action == HostAction::Exit
            &&& v3.report == Some(
                DesktopRunReport {
                    exit_reason: RuntimeExitReason::EscapePressed,
                    presented_at_least_once: v.runtime.presented_at_least_once,
                },
            )
        }),
{
}

/// The first redraw of a session draws the resolved frame and then shows
/// the window: host, surface and runtime all record it as visible and
/// presented.
pub proof fn lemma_first_redraw_shows_window(v: SessionView, window: Extent)
    requires
        v.host is Some,
        v.surface is Some,
        !v.runtime.presented_at_least_once,
        presents_frame(window),
    ensures
        ({
            let (v1, e) = input_step(v, DesktopInput::RedrawRequested);
            let (v2, cmds) = event_step(v1, e->0);
            let (v3, a1) = command_step(v2, cmds[0], window);
            let (v4, a2) = command_step(v3, cmds[1], window);
            &&& cmds.len() == 2
            &&& a1 == HostAction::Draw
            &&& a2 == HostAction::SetWindowVisible(true)
            &&& v4.runtime.presented_at_least_once
            &&& v4.host == Some(HostState { visible: true, ..v.host->0 })
            &&& v4.runtime.host.visible
            &&& v4.runtime.surface.visible
            &&& v4.runtime.surface.extent == window
            &&& v4.frame.len() == window.width * window.height
        }),
{
}


/// A session ends only when the runtime accepts a close: no window input,
/// runtime event or other command sets or changes the report, and the
/// program is told to leave its loop exactly for an accepted close.
pub proof fn lemma_only_accepted_close_ends_session(
    v: SessionView,
    input: DesktopInput,
    event: RuntimeEvent,
    command: RuntimeCommand,
    window: Extent,
)
    ensures
        input_step(v, input).0.report == v.report,
        event_step(v, event).0.report == v.report,
        !(command matches RuntimeCommand::CompleteClose(CloseDecision::Accept(_))) ==> command_step(
            v,
            command,
            window,
        ).0.report == v.report,
        (command_step(v, command, window).1 == HostAction::Exit) <==> (
        command matches RuntimeCommand::CompleteClose(CloseDecision::Accept(_))),
{
}


/// The phase a development key names, if any: `1` booting, `2` idle, `3`
/// closing.
pub open spec fn development_key_phase(key: Seq<char>) -> Option<BehaviorPhase> {
    if key == seq!['1'] {
        Some(BehaviorPhase::Booting)
    } else if key == seq!['2'] {
        Some(BehaviorPhase::Idle)
    } else if key == seq!['3'] {
        Some(BehaviorPhase::Closing)
    } else {
        None
    }
}

/// Once the window exists, the development keys force phases: a press of
/// `1`, `2` or `3` gives the event that forces Booting, Idle or Closing,
/// and once the runtime has handled it the runtime is in that phase, asked
/// to redraw; a press of any other key gives no event and changes nothing.
pub proof fn lemma_development_keys(v: SessionView, key: String)
    requires
        v.host is Some,
    ensures
        key@ == seq!['1'] ==> input_step(v, DesktopInput::CharacterPressed(key)).1 == Some(
            RuntimeEvent::DevelopmentSetBehavior(BehaviorPhase::Booting),
        ),
        key@ == seq!['2'] ==> input_step(v, DesktopInput::CharacterPressed(key)).1 == Some(
            RuntimeEvent::DevelopmentSetBehavior(BehaviorPhase::Idle),
        ),
        key@ == seq!['3'] ==> input_step(v, DesktopInput::CharacterPressed(key)).1 == Some(
            RuntimeEvent::DevelopmentSetBehavior(BehaviorPhase::Closing),
        ),
        development_key_phase(key@) matches Some(phase) ==> ({
            let (v1, e) = input_step(v, DesktopInput::CharacterPressed(key));
            let (v2, cmds) = event_step(v1, e->0);
            &&& v2.runtime.behavior == phase
            &&& cmds == seq![RuntimeCommand::RequestRedraw]
        }),
        development_key_phase(key@) is None ==> input_step(v, DesktopInput::CharacterPressed(key))
            == (v, None::<RuntimeEvent>),
{
    reveal_strlit("1");
    reveal_strlit("2");
    reveal_strlit("3");
    assert("1"@ =~= seq!['1']);
    assert("2"@ =~= seq!['2']);
    assert("3"@ =~= seq!['3']);
    if key@.len() == 1 {
        assert(key@ == seq![key@[0]]);
        assert(key@ == "1"@ <==> key@[0] == '1');
        assert(key@ == "2"@ <==> key@[0] == '2');
        assert(key@ == "3"@ <==> key@[0] == '3');
    }
}


/// How window inputs reach the runtime: before the window exists every
/// input is ignored; afterwards a close request or the escape key marks
/// the host as asked to close and asks the runtime to close (from the host
/// or from the development shortcut), a resize gives the surface its new
/// extent and invalidates it, and a redraw request invalidates it.
pub proof fn lemma_window_inputs(v: SessionView, input: DesktopInput, extent: Extent)
    ensures
        v.host is None ==> input_step(v, input) == (v, None::<RuntimeEvent>),
        v.host is Some ==> ({
            let (v1, e) = input_step(v, DesktopInput::CloseRequested);
            &&& e == Some(
                RuntimeEvent::CloseRequested(CloseRequest { source: CloseRequestSource::Host }),
            )
            &&& v1.host == Some(HostState { close_requested: true, ..v.host->0 })
            &&& v1.runtime.host.close_requested
        }),
        v.host is Some ==> ({
            let (v1, e) = input_step(v, DesktopInput::EscapePressed);
            &&& e == Some(
                RuntimeEvent::CloseRequested(
                    CloseRequest { source: CloseRequestSource::DevelopmentShortcut },
                ),
            )
            &&& v1.runtime.host.close_requested
        }),
        v.host is Some && v.surface is Some ==> ({
            let (v1, e) = input_step(v, DesktopInput::Resized(extent));
            &&& e == Some(RuntimeEvent::SurfaceInvalidated)
            &&& v1.runtime.surface.extent == extent
            &&& v1.surface == Some(SurfaceState { extent, ..v.surface->0 })
        }),
        v.host is Some ==> input_step(v, DesktopInput::RedrawRequested).1 == Some(
            RuntimeEvent::SurfaceInvalidated,
        ),
        v.host is Some ==> input_step(v, DesktopInput::Other) == (v, None::<RuntimeEvent>),
{
}

} // verus!
