//! Inspection of the black-box runtime: snapshots of its state and their
//! JSON and one-line text renderings.
use vstd::prelude::*;
use crate::host::HostState;
use crate::render::{LayerRole, PresentModel, RenderIntent, Rgb24};
use crate::runtime::{
    resolved_state, tree_present_model, BehaviorPhase, BlackBoxRuntime, BlackBoxRuntimeState,
    ResolvedRootComponent,
};
use crate::surface::SurfaceState;
use crate::text::{decimal, hex_byte, push_decimal, push_hex_byte};

verus! {

// ---------------------------------------------------------------------------
// Words
// ---------------------------------------------------------------------------

/// The name of a phase in snapshots and requests.
pub open spec fn behavior_text(b: BehaviorPhase) -> Seq<char> {
    match b {
        BehaviorPhase::Booting => "booting"@,
        BehaviorPhase::Idle => "idle"@,
        BehaviorPhase::Closing => "closing"@,
    }
}

/// The name of a phase as `Debug` prints it.
pub open spec fn behavior_debug(b: BehaviorPhase) -> Seq<char> {
    match b {
        BehaviorPhase::Booting => "Booting"@,
        BehaviorPhase::Idle => "Idle"@,
        BehaviorPhase::Closing => "Closing"@,
    }
}

/// The name of a layer in snapshots.
pub open spec fn layer_text(l: LayerRole) -> Seq<char> {
    match l {
        LayerRole::Background => "background"@,
        LayerRole::Foreground => "foreground"@,
        LayerRole::Overlay => "overlay"@,
    }
}

/// The name of a layer as `Debug` prints it.
pub open spec fn layer_debug(l: LayerRole) -> Seq<char> {
    match l {
        LayerRole::Background => "Background"@,
        LayerRole::Foreground => "Foreground"@,
        LayerRole::Overlay => "Overlay"@,
    }
}

/// `true` or `false`.
pub open spec fn bool_text(b: bool) -> Seq<char> {
    if b {
        "true"@
    } else {
        "false"@
    }
}

impl BehaviorPhase {
    pub fn as_str(self) -> (s: &'static str)
        ensures
            s@ == behavior_text(self),
    {
        match self {
            BehaviorPhase::Booting => "booting",
            BehaviorPhase::Idle => "idle",
            BehaviorPhase::Closing => "closing",
        }
    }
}

fn behavior_debug_str(b: BehaviorPhase) -> (s: &'static str)
    ensures
        s@ == behavior_debug(b),
{
    match b {
        BehaviorPhase::Booting => "Booting",
        BehaviorPhase::Idle => "Idle",
        BehaviorPhase::Closing => "Closing",
    }
}

/// The snapshot name of a layer.
pub fn layer_role_as_str(layer: LayerRole) -> (s: &'static str)
    ensures
        s@ == layer_text(layer),
{
    match layer {
        LayerRole::Background => "background",
        LayerRole::Foreground => "foreground",
        LayerRole::Overlay => "overlay",
    }
}

fn layer_debug_str(layer: LayerRole) -> (s: &'static str)
    ensures
        s@ == layer_debug(layer),
{
    match layer {
        LayerRole::Background => "Background",
        LayerRole::Foreground => "Foreground",
        LayerRole::Overlay => "Overlay",
    }
}

fn push_bool(out: &mut String, b: bool)
    ensures
        final(out)@ == old(out)@ + bool_text(b),
{
    if b {
        out.append("true");
    } else {
        out.append("false");
    }
}

// ---------------------------------------------------------------------------
// Colours
// ---------------------------------------------------------------------------

/// `#rrggbb` in lower-case hexadecimal.
pub open spec fn rgb24_hex(c: Rgb24) -> Seq<char> {
    seq!['#'] + hex_byte(c.red) + hex_byte(c.green) + hex_byte(c.blue)
}

/// The `#rrggbb` rendering of a colour.
pub fn rgb24_hex_string(color: Rgb24) -> (s: String)
    ensures
        s@ == rgb24_hex(color),
{
    let mut s = String::new();
    s.push('#');
    push_hex_byte(&mut s, color.red);
    push_hex_byte(&mut s, color.green);
    push_hex_byte(&mut s, color.blue);
    assert(s@ =~= rgb24_hex(color));
    s
}

/// A colour as a JSON object with its channels and its hex rendering.
pub open spec fn rgb_json(c: Rgb24) -> Seq<char> {
    "{\"red\":"@ + decimal(c.red as nat) + ",\"green\":"@ + decimal(c.green as nat)
        + ",\"blue\":"@ + decimal(c.blue as nat) + ",\"hex\":\""@ + rgb24_hex(c) + "\"}"@
}

fn push_rgb_json(out: &mut String, c: Rgb24)
    ensures
        final(out)@ == old(out)@ + rgb_json(c),
{
    out.append("{\"red\":");
    push_decimal(out, c.red as u128);
    out.append(",\"green\":");
    push_decimal(out, c.green as u128);
    out.append(",\"blue\":");
    push_decimal(out, c.blue as u128);
    out.append(",\"hex\":\"");
    let hex = rgb24_hex_string(c);
    out.append(hex.as_str());
    out.append("\"}");
    assert(final(out)@ =~= old(out)@ + rgb_json(c));
}

/// A colour as `Debug` prints it.
pub open spec fn rgb_debug(c: Rgb24) -> Seq<char> {
    "Rgb24 { red: "@ + decimal(c.red as nat) + ", green: "@ + decimal(c.green as nat)
        + ", blue: "@ + decimal(c.blue as nat) + " }"@
}

fn push_rgb_debug(out: &mut String, c: Rgb24)
    ensures
        final(out)@ == old(out)@ + rgb_debug(c),
{
    out.append("Rgb24 { red: ");
    push_decimal(out, c.red as u128);
    out.append(", green: ");
    push_decimal(out, c.green as u128);
    out.append(", blue: ");
    push_decimal(out, c.blue as u128);
    out.append(" }");
    assert(final(out)@ =~= old(out)@ + rgb_debug(c));
}

/// A present model as `Debug` prints it.
pub open spec fn present_debug(m: PresentModel) -> Seq<char> {
    "PresentModel { layer: "@ + layer_debug(m.layer) + ", intent: "@ + match m.intent {
        RenderIntent::ClearSolid { color } => "ClearSolid { color: "@ + rgb_debug(color) + " }"@,
        RenderIntent::ClearInset { background, inset, margin } => "ClearInset { background: "@
            + rgb_debug(background) + ", inset: "@ + rgb_debug(inset) + ", margin: "@ + decimal(
            margin as nat,
        ) + " }"@,
    } + " }"@
}

fn push_present_debug(out: &mut String, m: PresentModel)
    ensures
        final(out)@ == old(out)@ + present_debug(m),
{
    out.append("PresentModel { layer: ");
    out.append(layer_debug_str(m.layer));
    out.append(", intent: ");
    let ghost mid = out@;
    match m.intent {
        RenderIntent::ClearSolid { color } => {
            out.append("ClearSolid { color: ");
            push_rgb_debug(out, color);
            out.append(" }");
            assert(out@ =~= mid + ("ClearSolid { color: "@ + rgb_debug(color) + " }"@));
        },
        RenderIntent::ClearInset { background, inset, margin } => {
            out.append("ClearInset { background: ");
            push_rgb_debug(out, background);
            out.append(", inset: ");
            push_rgb_debug(out, inset);
            out.append(", margin: ");
            push_decimal(out, margin as u128);
            out.append(" }");
            assert(out@ =~= mid + ("ClearInset { background: "@ + rgb_debug(background)
                + ", inset: "@ + rgb_debug(inset) + ", margin: "@ + decimal(margin as nat)
                + " }"@));
        },
    }
    out.append(" }");
    assert(final(out)@ =~= old(out)@ + present_debug(m));
}

// ---------------------------------------------------------------------------
// Snapshots
// ---------------------------------------------------------------------------

/// What an inspection of the runtime reports.
#[derive(Debug, Clone, Copy, PartialEq, Eq, Structural)]
pub struct BlackBoxDebugSnapshot {
    pub behavior: BehaviorPhase,
    pub host: HostState,
    pub surface: SurfaceState,
    pub root: ResolvedRootComponent,
    pub present: PresentModel,
    pub presented_at_least_once: bool,
}

/// The snapshot of a runtime state: the state's own fields, its resolved
/// root and the present model of that resolution.
pub open spec fn snapshot_of(state: BlackBoxRuntimeState) -> BlackBoxDebugSnapshot {
    BlackBoxDebugSnapshot {
        behavior: state.behavior,
        host: state.host,
        surface: state.surface,
        root: resolved_state(state).root,
        present: tree_present_model(resolved_state(state)),
        presented_at_least_once: state.presented_at_least_once,
    }
}

pub open spec fn host_json(h: HostState) -> Seq<char> {
    ",\"host\":{\"visible\":"@ + bool_text(h.visible) + ",\"close_requested\":"@ + bool_text(
        h.close_requested,
    ) + "}"@
}

pub open spec fn surface_json(s: SurfaceState) -> Seq<char> {
    ",\"surface\":{\"extent\":{\"width\":"@ + decimal(s.extent.width as nat) + ",\"height\":"@
        + decimal(s.extent.height as nat) + "},\"visible\":"@ + bool_text(s.visible) + "}"@
}

pub open spec fn root_json(r: ResolvedRootComponent) -> Seq<char> {
    ",\"root\":{\"frame_color\":"@ + rgb_json(r.frame_color) + ",\"margin\":"@ + decimal(
        r.margin as nat,
    ) + ",\"fill\":{\"color\":"@ + rgb_json(r.fill.color) + ",\"layer\":\""@ + layer_text(
        r.fill.layer,
    ) + "\"}}"@
}

/// The present part of a snapshot: the present layer, and the root's
/// frame colour, fill colour and margin as a `clear_inset` intent.
pub open spec fn present_json(layer: LayerRole, r: ResolvedRootComponent) -> Seq<char> {
    ",\"present\":{\"layer\":\""@ + layer_text(layer)
        + "\",\"intent\":{\"kind\":\"clear_inset\",\"background\":"@ + rgb_json(r.frame_color)
        + ",\"inset\":"@ + rgb_json(r.fill.color) + ",\"margin\":"@ + decimal(r.margin as nat)
        + "}}"@
}

/// The JSON object of a snapshot.
pub open spec fn snapshot_json(s: BlackBoxDebugSnapshot) -> Seq<char> {
    "{\"behavior\":\""@ + behavior_text(s.behavior) + "\""@ + host_json(s.host) + surface_json(
        s.surface,
    ) + root_json(s.root) + present_json(s.present.layer, s.root)
        + ",\"presented_at_least_once\":"@ + bool_text(s.presented_at_least_once) + "}"@
}

fn push_host_json(out: &mut String, h: HostState)
    ensures
        final(out)@ == old(out)@ + host_json(h),
{
    out.append(",\"host\":{\"visible\":");
    push_bool(out, h.visible);
    out.append(",\"close_requested\":");
    push_bool(out, h.close_requested);
    out.append("}");
    assert(final(out)@ =~= old(out)@ + host_json(h));
}

fn push_surface_json(out: &mut String, s: SurfaceState)
    ensures
        final(out)@ == old(out)@ + surface_json(s),
{
    out.append(",\"surface\":{\"extent\":{\"width\":");
    push_decimal(out, s.extent.width as u128);
    out.append(",\"height\":");
    push_decimal(out, s.extent.height as u128);
    out.append("},\"visible\":");
    push_bool(out, s.visible);
    out.append("}");
    assert(final(out)@ =~= old(out)@ + surface_json(s));
}

fn push_root_json(out: &mut String, r: ResolvedRootComponent)
    ensures
        final(out)@ == old(out)@ + root_json(r),
{
    out.append(",\"root\":{\"frame_color\":");
    push_rgb_json(out, r.frame_color);
    out.append(",\"margin\":");
    push_decimal(out, r.margin as u128);
    out.append(",\"fill\":{\"color\":");
    push_rgb_json(out, r.fill.color);
    out.append(",\"layer\":\"");
    out.append(layer_role_as_str(r.fill.layer));
    out.append("\"}}");
    assert(final(out)@ =~= old(out)@ + root_json(r));
}

fn push_present_json(out: &mut String, layer: LayerRole, r: ResolvedRootComponent)
    ensures
        final(out)@ == old(out)@ + present_json(layer, r),
{
    out.append(",\"present\":{\"layer\":\"");
    out.append(layer_role_as_str(layer));
    out.append("\",\"intent\":{\"kind\":\"clear_inset\",\"background\":");
    push_rgb_json(out, r.frame_color);
    out.append(",\"inset\":");
    push_rgb_json(out, r.fill.color);
    out.append(",\"margin\":");
    push_decimal(out, r.margin as u128);
    out.append("}}");
    assert(final(out)@ =~= old(out)@ + present_json(layer, r));
}

impl BlackBoxDebugSnapshot {
    /// The snapshot as a JSON object.
    pub fn to_json(&self) -> (s: String)
        ensures
            s@ == snapshot_json(*self),
    {
        let mut out = String::new();
        out.append("{\"behavior\":\"");
        out.append(self.behavior.as_str());
        out.append("\"");
        push_host_json(&mut out, self.host);
        push_surface_json(&mut out, self.surface);
        push_root_json(&mut out, self.root);
        push_present_json(&mut out, self.present.layer, self.root);
        out.append(",\"presented_at_least_once\":");
        push_bool(&mut out, self.presented_at_least_once);
        out.append("}");
        assert(out@ =~= snapshot_json(*self));
        out
    }
}

/// A snapshot with the names of the runtime, host and surface it came
/// from, and the phase a caller forced, if any.
#[derive(Debug, Clone, PartialEq, Eq)]
pub struct BlackBoxDebugDocument<'a> {
    pub runtime: &'a str,
    pub host_id: &'a str,
    pub surface_id: &'a str,
    pub forced_behavior: Option<BehaviorPhase>,
    pub snapshot: BlackBoxDebugSnapshot,
}

/// `"phase"` for a forced phase, `null` without one.
pub open spec fn forced_json(forced: Option<BehaviorPhase>) -> Seq<char> {
    match forced {
        Some(b) => "\""@ + behavior_text(b) + "\""@,
        None => "null"@,
    }
}

/// The JSON object of a document; the names are written as they are.
pub open spec fn document_json(
    runtime: Seq<char>,
    host_id: Seq<char>,
    surface_id: Seq<char>,
    forced: Option<BehaviorPhase>,
    snapshot: BlackBoxDebugSnapshot,
) -> Seq<char> {
    "{\"runtime\":\""@ + runtime + "\",\"host_id\":\""@ + host_id + "\",\"surface_id\":\""@
        + surface_id + "\",\"forced_behavior\":"@ + forced_json(forced) + ",\"snapshot\":"@
        + snapshot_json(snapshot) + "}"@
}

impl<'a> BlackBoxDebugDocument<'a> {
    /// The document as a JSON object.
    pub fn to_json(&self) -> (s: String)
        ensures
            s@ == document_json(
                self.runtime@,
                self.host_id@,
                self.surface_id@,
                self.forced_behavior,
                self.snapshot,
            ),
    {
        let mut out = String::new();
        out.append("{\"runtime\":\"");
        out.append(self.runtime);
        out.append("\",\"host_id\":\"");
        out.append(self.host_id);
        out.append("\",\"surface_id\":\"");
        out.append(self.surface_id);
        out.append("\",\"forced_behavior\":");
        let ghost mid = out@;
        match self.forced_behavior {
            Some(behavior) => {
                out.append("\"");
                out.append(behavior.as_str());
                out.append("\"");
                assert(out@ =~= mid + forced_json(self.forced_behavior));
            },
            None => {
                out.append("null");
            },
        }
        out.append(",\"snapshot\":");
        let snapshot = self.snapshot.to_json();
        out.append(snapshot.as_str());
        out.append("}");
        assert(out@ =~= document_json(
            self.runtime@,
            self.host_id@,
            self.surface_id@,
            self.forced_behavior,
            self.snapshot,
        ));
        out
    }
}

/// The first half of the summary: phase, host and surface.
pub open spec fn summary_head_text(s: BlackBoxDebugSnapshot) -> Seq<char> {
    "behavior="@ + behavior_debug(s.behavior) + " host(visible="@ + bool_text(s.host.visible)
        + " close_requested="@ + bool_text(s.host.close_requested) + ") surface(extent="@
        + decimal(s.surface.extent.width as nat) + "x"@ + decimal(s.surface.extent.height as nat)
        + " visible="@ + bool_text(s.surface.visible)
}

/// The second half of the summary: resolved root, fill and present model.
pub open spec fn summary_tail_text(s: BlackBoxDebugSnapshot) -> Seq<char> {
    ") root(frame="@ + rgb_debug(s.root.frame_color) + " margin="@ + decimal(
        s.root.margin as nat,
    ) + ") fill(color="@ + rgb_debug(s.root.fill.color) + " layer="@ + layer_debug(
        s.root.fill.layer,
    ) + ") present="@ + present_debug(s.present) + " presented_at_least_once="@ + bool_text(
        s.presented_at_least_once,
    )
}

/// The one-line text summary of a snapshot.
pub open spec fn summary_text(s: BlackBoxDebugSnapshot) -> Seq<char> {
    summary_head_text(s) + summary_tail_text(s)
}

fn summary_head(s: BlackBoxDebugSnapshot) -> (out: String)
    ensures
        out@ == summary_head_text(s),
{
    let mut out = String::new();
    out.append("behavior=");
    out.append(behavior_debug_str(s.behavior));
    out.append(" host(visible=");
    push_bool(&mut out, s.host.visible);
    out.append(" close_requested=");
    push_bool(&mut out, s.host.close_requested);
    out.append(") surface(extent=");
    push_decimal(&mut out, s.surface.extent.width as u128);
    out.append("x");
    push_decimal(&mut out, s.surface.extent.height as u128);
    out.append(" visible=");
    push_bool(&mut out, s.surface.visible);
    assert(out@ =~= summary_head_text(s));
    out
}

fn summary_tail(out: &mut String, s: BlackBoxDebugSnapshot)
    ensures
        final(out)@ == old(out)@ + summary_tail_text(s),
{
    out.append(") root(frame=");
    push_rgb_debug(out, s.root.frame_color);
    out.append(" margin=");
    push_decimal(out, s.root.margin as u128);
    out.append(") fill(color=");
    push_rgb_debug(out, s.root.fill.color);
    out.append(" layer=");
    out.append(layer_debug_str(s.root.fill.layer));
    out.append(") present=");
    push_present_debug(out, s.present);
    out.append(" presented_at_least_once=");
    push_bool(out, s.presented_at_least_once);
    assert(final(out)@ =~= old(out)@ + summary_tail_text(s));
}

impl BlackBoxRuntime {
    /// A snapshot of the current state.
    pub fn debug_snapshot(&self) -> (s: BlackBoxDebugSnapshot)
        ensures
            s == snapshot_of(self@),
    {
        let state = self.state();
        let resolved = state.components.resolve(state.surface.extent, state.behavior);
        let present = resolved.present_model();
        BlackBoxDebugSnapshot {
            behavior: state.behavior,
            host: state.host,
            surface: state.surface,
            root: resolved.root,
            present,
            presented_at_least_once: state.presented_at_least_once,
        }
    }

    /// The one-line text summary of the current state.
    pub fn debug_summary(&self) -> (s: String)
        ensures
            s@ == summary_text(snapshot_of(self@)),
    {
        let snapshot = self.debug_snapshot();
        let mut out = summary_head(snapshot);
        summary_tail(&mut out, snapshot);
        out
    }

    /// The JSON object of the current snapshot.
    pub fn debug_snapshot_json(&self) -> (s: String)
        ensures
            s@ == snapshot_json(snapshot_of(self@)),
    {
        self.debug_snapshot().to_json()
    }

    /// A document for the current snapshot, naming the black-box runtime and
    /// the declared host and surface.
    pub fn debug_document(&self, forced_behavior: Option<BehaviorPhase>) -> (d:
        BlackBoxDebugDocument<'_>)
        ensures
            d.runtime@ == "black-box"@,
            d.host_id@ == self.declared().host.id.0@,
            d.surface_id@ == self.declared().surface.id.0@,
            d.forced_behavior == forced_behavior,
            d.snapshot == snapshot_of(self@),
    {
        let declaration = self.declaration();
        BlackBoxDebugDocument {
            runtime: "black-box",
            host_id: declaration.host.id.0,
            surface_id: declaration.surface.id.0,
            forced_behavior,
            snapshot: self.debug_snapshot(),
        }
    }
}


// ---------------------------------------------------------------------------
// Laws of the renderings
// ---------------------------------------------------------------------------

/// Two equal texts that begin with the same frame around two `true`/
/// `false` fields hold the same flags in both.
proof fn lemma_bool_fields(
    l: Seq<char>,
    p: Seq<char>,
    a: bool,
    x: Seq<char>,
    b: bool,
    c: bool,
    d: bool,
)
    requires
        l.take((p + bool_text(a) + x + bool_text(b)).len() as int) == p + bool_text(a) + x
            + bool_text(b),
        l.take((p + bool_text(c) + x + bool_text(d)).len() as int) == p + bool_text(c) + x
            + bool_text(d),
        (p + bool_text(a) + x + bool_text(b)).len() <= l.len(),
        (p + bool_text(c) + x + bool_text(d)).len() <= l.len(),
    ensures
        a == c,
        b == d,
{
    reveal_strlit("true");
    reveal_strlit("false");
    let m1 = p + bool_text(a) + x + bool_text(b);
    let m2 = p + bool_text(c) + x + bool_text(d);
    let i = p.len() as int;
    assert(l[i] == l.take(m1.len() as int)[i]);
    assert(l[i] == l.take(m2.len() as int)[i]);
    assert(m1[i] == bool_text(a)[0]);
    assert(m2[i] == bool_text(c)[0]);
    if a == c {
        let k = (p.len() + bool_text(a).len() + x.len()) as int;
        assert(l[k] == l.take(m1.len() as int)[k]);
        assert(l[k] == l.take(m2.len() as int)[k]);
        assert(m1[k] == bool_text(b)[0]);
        assert(m2[k] == bool_text(d)[0]);
    }
}

/// The host part of the summary, `host(visible=<v> close_requested=<c>`,
/// after the phase.
spec fn summary_host_part(s: BlackBoxDebugSnapshot) -> Seq<char> {
    "behavior="@ + behavior_debug(s.behavior) + " host(visible="@ + bool_text(s.host.visible)
        + " close_requested="@ + bool_text(s.host.close_requested)
}

proof fn lemma_summary_begins(s: BlackBoxDebugSnapshot)
    ensures
        summary_host_part(s).len() < summary_text(s).len(),
        summary_text(s).take(summary_host_part(s).len() + 1int) == summary_host_part(s) + ")"@,
{
    reveal_strlit(")");
    reveal_strlit(") surface(extent=");
    let h = summary_host_part(s);
    let head = summary_head_text(s);
    let rest = ") surface(extent="@ + decimal(s.surface.extent.width as nat) + "x"@ + decimal(
        s.surface.extent.height as nat,
    ) + " visible="@ + bool_text(s.surface.visible);
    lemma_concat_chain(h, ") surface(extent="@, decimal(s.surface.extent.width as nat), "x"@,
        decimal(s.surface.extent.height as nat), " visible="@, bool_text(s.surface.visible));
    assert(head == h + rest);
    assert(summary_text(s) == head + summary_tail_text(s));
    assert(rest[0] == ')');
    assert(summary_text(s).take(h.len() + 1int) =~= h + ")"@);
}

proof fn lemma_concat_chain(
    a: Seq<char>,
    b: Seq<char>,
    c: Seq<char>,
    d: Seq<char>,
    e: Seq<char>,
    f: Seq<char>,
    g: Seq<char>,
)
    ensures
        a + b + c + d + e + f + g == a + (b + c + d + e + f + g),
{
    assert(a + b + c + d + e + f + g =~= a + (b + c + d + e + f + g));
}

/// The one-line summary reports the host right after the phase, as
/// `host(visible=<visible> close_requested=<close_requested>)`, each flag
/// from the snapshot's own host state; so two snapshots that differ only
/// in their host state never have the same summary.
pub proof fn lemma_summary_reports_host(s: BlackBoxDebugSnapshot, host: HostState)
    ensures
        ({
            let head = "behavior="@ + behavior_debug(s.behavior) + " host(visible="@ + bool_text(
                s.host.visible,
            ) + " close_requested="@ + bool_text(s.host.close_requested) + ")"@;
            summary_text(s).take(head.len() as int) == head
        }),
        summary_text(s) == summary_text(BlackBoxDebugSnapshot { host, ..s }) ==> s.host == host,
{
    let s2 = BlackBoxDebugSnapshot { host, ..s };
    lemma_summary_begins(s);
    lemma_summary_begins(s2);
    let p = "behavior="@ + behavior_debug(s.behavior) + " host(visible="@;
    let x = " close_requested="@;
    let l = summary_text(s);
    assert(summary_host_part(s) == p + bool_text(s.host.visible) + x + bool_text(
        s.host.close_requested,
    ));
    assert(summary_host_part(s2) == p + bool_text(host.visible) + x + bool_text(host.close_requested));
    assert(l.take(summary_host_part(s).len() as int) =~= summary_host_part(s)) by {
        assert(l.take(summary_host_part(s).len() as int) =~= l.take(summary_host_part(s).len() + 1int).take(
            summary_host_part(s).len() as int,
        ));
    }
    if l == summary_text(s2) {
        assert(l.take(summary_host_part(s2).len() as int) =~= summary_host_part(s2)) by {
            assert(l.take(summary_host_part(s2).len() as int) =~= l.take(summary_host_part(s2).len() + 1int).take(summary_host_part(s2).len() as int));
        }
        lemma_bool_fields(
            l,
            p,
            s.host.visible,
            x,
            s.host.close_requested,
            host.visible,
            host.close_requested,
        );
    }
}

/// The host object of a snapshot's JSON, after the phase.
spec fn json_host_part(s: BlackBoxDebugSnapshot) -> Seq<char> {
    "{\"behavior\":\""@ + behavior_text(s.behavior) + "\""@ + ",\"host\":{\"visible\":"@ + bool_text(
        s.host.visible,
    ) + ",\"close_requested\":"@ + bool_text(s.host.close_requested)
}

proof fn lemma_json_begins(s: BlackBoxDebugSnapshot)
    ensures
        json_host_part(s).len() < snapshot_json(s).len(),
        snapshot_json(s).take(json_host_part(s).len() + 1int) == json_host_part(s) + "}"@,
{
    reveal_strlit("}");
    let front = "{\"behavior\":\""@ + behavior_text(s.behavior) + "\""@;
    let h = json_host_part(s);
    let rest = surface_json(s.surface) + root_json(s.root) + present_json(s.present.layer, s.root)
        + ",\"presented_at_least_once\":"@ + bool_text(s.presented_at_least_once) + "}"@;
    assert(front + host_json(s.host) =~= h + "}"@);
    assert(snapshot_json(s) == front + host_json(s.host) + surface_json(s.surface) + root_json(s.root)
        + present_json(s.present.layer, s.root) + ",\"presented_at_least_once\":"@ + bool_text(
        s.presented_at_least_once,
    ) + "}"@);
    lemma_concat_chain(front + host_json(s.host), surface_json(s.surface), root_json(s.root),
        present_json(s.present.layer, s.root), ",\"presented_at_least_once\":"@, bool_text(
        s.presented_at_least_once,
    ), "}"@);
    assert(snapshot_json(s) == (h + "}"@) + rest);
    assert(snapshot_json(s).take(h.len() + 1int) =~= h + "}"@);
}

/// The JSON of a snapshot holds, right after the phase, the host object
/// `{"visible":<visible>,"close_requested":<close_requested>}` with each
/// flag from the snapshot's own host state; so two snapshots that differ
/// only in their host state never have the same JSON.
#[verifier::rlimit(60)]
pub proof fn lemma_snapshot_json_reports_host(s: BlackBoxDebugSnapshot, host: HostState)
    ensures
        ({
            let k = ("{\"behavior\":\""@ + behavior_text(s.behavior) + "\""@).len();
            let h = ",\"host\":{\"visible\":"@ + bool_text(s.host.visible) + ",\"close_requested\":"@
                + bool_text(s.host.close_requested) + "}"@;
            snapshot_json(s).subrange(k as int, (k + h.len()) as int) == h
        }),
        snapshot_json(s) == snapshot_json(BlackBoxDebugSnapshot { host, ..s }) ==> s.host == host,
{
    let s2 = BlackBoxDebugSnapshot { host, ..s };
    lemma_json_begins(s);
    lemma_json_begins(s2);
    let front = "{\"behavior\":\""@ + behavior_text(s.behavior) + "\""@;
    let p = front + ",\"host\":{\"visible\":"@;
    let x = ",\"close_requested\":"@;
    let l = snapshot_json(s);
    let h = ",\"host\":{\"visible\":"@ + bool_text(s.host.visible) + ",\"close_requested\":"@
        + bool_text(s.host.close_requested) + "}"@;
    assert(json_host_part(s) + "}"@ =~= front + h);
    assert(l.subrange(front.len() as int, (front.len() + h.len()) as int) =~= h) by {
        assert(l.subrange(front.len() as int, (front.len() + h.len()) as int) =~= l.take(json_host_part(s).len() + 1int).subrange(front.len() as int, (front.len() + h.len()) as int));
    }
    assert(json_host_part(s) =~= p + bool_text(s.host.visible) + x + bool_text(s.host.close_requested));
    assert(json_host_part(s2) =~= p + bool_text(host.visible) + x + bool_text(host.close_requested));
    assert(l.take(json_host_part(s).len() as int) =~= json_host_part(s)) by {
        assert(l.take(json_host_part(s).len() as int) =~= l.take(json_host_part(s).len() + 1int).take(
            json_host_part(s).len() as int,
        ));
    }
    if l == snapshot_json(s2) {
        assert(l.take(json_host_part(s2).len() as int) =~= json_host_part(s2)) by {
            assert(l.take(json_host_part(s2).len() as int) =~= l.take(json_host_part(s2).len() + 1int).take(
                json_host_part(s2).len() as int,
            ));
        }
        lemma_bool_fields(
            l,
            p,
            s.host.visible,
            x,
            s.host.close_requested,
            host.visible,
            host.close_requested,
        );
    }
}


proof fn lemma_ends_with(x: Seq<char>, y: Seq<char>, z: Seq<char>, w: Seq<char>)
    ensures
        (z + w).len() <= (x + y + z + w).len(),
        (x + y + z + w).skip((x + y + z + w).len() - (z + w).len()) == z + w,
        (x + (y + z + w)).skip((x + (y + z + w)).len() - (z + w).len()) == z + w,
{
    assert((x + y + z + w).skip((x + y + z + w).len() - (z + w).len()) =~= z + w);
    assert((x + (y + z + w)).skip((x + (y + z + w)).len() - (z + w).len()) =~= z + w);
}

/// The JSON of a snapshot ends with whether the runtime has presented:
/// `"presented_at_least_once":<flag>}`.
pub proof fn lemma_json_ends_with_presented(s: BlackBoxDebugSnapshot)
    ensures
        ({
            let j = ",\"presented_at_least_once\":"@ + bool_text(s.presented_at_least_once) + "}"@;
            j.len() <= snapshot_json(s).len() && snapshot_json(s).skip(snapshot_json(s).len() - j.len())
                == j
        }),
{
    let lit = ",\"presented_at_least_once\":"@;
    let jf = "{\"behavior\":\""@ + behavior_text(s.behavior) + "\""@ + host_json(s.host) + surface_json(
        s.surface,
    ) + root_json(s.root);
    let p = present_json(s.present.layer, s.root);
    assert(snapshot_json(s) == jf + p + lit + bool_text(s.presented_at_least_once) + "}"@);
    lemma_ends_with(jf + p, lit, bool_text(s.presented_at_least_once), "}"@);
    assert(lit + bool_text(s.presented_at_least_once) + "}"@ =~= lit + (bool_text(
        s.presented_at_least_once,
    ) + "}"@));
    assert(jf + p + lit + bool_text(s.presented_at_least_once) + "}"@ =~= (jf + p) + (lit + (
    bool_text(s.presented_at_least_once) + "}"@)));
    lemma_ends_with(jf + p, seq![], lit, bool_text(s.presented_at_least_once) + "}"@);
    assert(seq![] + lit + (bool_text(s.presented_at_least_once) + "}"@) =~= lit + (bool_text(
        s.presented_at_least_once,
    ) + "}"@));
}

/// The one-line summary ends with whether the runtime has presented:
/// ` presented_at_least_once=<flag>`.
pub proof fn lemma_summary_ends_with_presented(s: BlackBoxDebugSnapshot)
    ensures
        ({
            let t = " presented_at_least_once="@ + bool_text(s.presented_at_least_once);
            t.len() <= summary_text(s).len() && summary_text(s).skip(summary_text(s).len() - t.len())
                == t
        }),
{
    let lit = " presented_at_least_once="@;
    let tf = ") root(frame="@ + rgb_debug(s.root.frame_color) + " margin="@ + decimal(
        s.root.margin as nat,
    ) + ") fill(color="@ + rgb_debug(s.root.fill.color) + " layer="@ + layer_debug(
        s.root.fill.layer,
    ) + ") present="@ + present_debug(s.present);
    assert(summary_tail_text(s) == tf + lit + bool_text(s.presented_at_least_once));
    assert(summary_text(s) == summary_head_text(s) + summary_tail_text(s));
    lemma_ends_with(summary_head_text(s), tf, lit, bool_text(s.presented_at_least_once));
}

} // verus!
