use stui::inspect::{layer_role_as_str, rgb24_hex_string};
use stui::render::{LayerRole, Rgb24};
use stui::runtime::{BehaviorPhase, BlackBoxRuntime, RuntimeEvent};

const BOOTING_SNAPSHOT_JSON: &str = "{\"behavior\":\"booting\",\"host\":{\"visible\":false,\"close_requested\":false},\"surface\":{\"extent\":{\"width\":320,\"height\":240},\"visible\":false},\"root\":{\"frame_color\":{\"red\":20,\"green\":20,\"blue\":20,\"hex\":\"#141414\"},\"margin\":12,\"fill\":{\"color\":{\"red\":4,\"green\":4,\"blue\":4,\"hex\":\"#040404\"},\"layer\":\"overlay\"}},\"present\":{\"layer\":\"overlay\",\"intent\":{\"kind\":\"clear_inset\",\"background\":{\"red\":20,\"green\":20,\"blue\":20,\"hex\":\"#141414\"},\"inset\":{\"red\":4,\"green\":4,\"blue\":4,\"hex\":\"#040404\"},\"margin\":12}},\"presented_at_least_once\":false}";

#[test]
fn phase_and_layer_names() {
    assert_eq!(BehaviorPhase::Booting.as_str(), "booting");
    assert_eq!(BehaviorPhase::Idle.as_str(), "idle");
    assert_eq!(BehaviorPhase::Closing.as_str(), "closing");
    assert_eq!(layer_role_as_str(LayerRole::Background), "background");
    assert_eq!(layer_role_as_str(LayerRole::Foreground), "foreground");
    assert_eq!(layer_role_as_str(LayerRole::Overlay), "overlay");
}

#[test]
fn hex_strings_are_lower_case_with_two_digits_per_channel() {
    assert_eq!(rgb24_hex_string(Rgb24::new(255, 10, 0)), "#ff0a00");
    assert_eq!(rgb24_hex_string(Rgb24::new(0, 0, 0)), "#000000");
    assert_eq!(rgb24_hex_string(Rgb24::new(0xab, 0xcd, 0xef)), "#abcdef");
}

#[test]
fn fresh_runtime_summary_matches_debug_formatting() {
    let runtime = BlackBoxRuntime::new();
    assert_eq!(
        runtime.debug_summary(),
        "behavior=Booting host(visible=false close_requested=false) surface(extent=320x240 visible=false) root(frame=Rgb24 { red: 20, green: 20, blue: 20 } margin=12) fill(color=Rgb24 { red: 4, green: 4, blue: 4 } layer=Overlay) present=PresentModel { layer: Overlay, intent: ClearInset { background: Rgb24 { red: 20, green: 20, blue: 20 }, inset: Rgb24 { red: 4, green: 4, blue: 4 }, margin: 12 } } presented_at_least_once=false"
    );
}

#[test]
fn summary_agrees_with_derived_debug_of_the_snapshot() {
    let mut runtime = BlackBoxRuntime::new();
    runtime.handle_event(RuntimeEvent::HostResumed);
    runtime.handle_event(RuntimeEvent::SurfaceInvalidated);
    let snapshot = runtime.debug_snapshot();
    let expected = format!(
        "behavior={:?} host(visible={} close_requested={}) surface(extent={}x{} visible={}) root(frame={:?} margin={}) fill(color={:?} layer={:?}) present={:?} presented_at_least_once={}",
        snapshot.behavior,
        snapshot.host.visible,
        snapshot.host.close_requested,
        snapshot.surface.extent.width,
        snapshot.surface.extent.height,
        snapshot.surface.visible,
        snapshot.root.frame_color,
        snapshot.root.margin,
        snapshot.root.fill.color,
        snapshot.root.fill.layer,
        snapshot.present,
        snapshot.presented_at_least_once,
    );
    assert_eq!(runtime.debug_summary(), expected);
}

#[test]
fn fresh_runtime_snapshot_json() {
    let runtime = BlackBoxRuntime::new();
    assert_eq!(runtime.debug_snapshot_json(), BOOTING_SNAPSHOT_JSON);
    assert_eq!(runtime.debug_snapshot().to_json(), BOOTING_SNAPSHOT_JSON);
}

#[test]
fn documents_name_runtime_host_surface_and_forced_phase() {
    let runtime = BlackBoxRuntime::new();
    let document = runtime.debug_document(None);
    assert_eq!(document.runtime, "black-box");
    assert_eq!(document.host_id, "black-box.host");
    assert_eq!(document.surface_id, "black-box.surface");
    assert_eq!(
        document.to_json(),
        format!(
            "{{\"runtime\":\"black-box\",\"host_id\":\"black-box.host\",\"surface_id\":\"black-box.surface\",\"forced_behavior\":null,\"snapshot\":{}}}",
            BOOTING_SNAPSHOT_JSON
        )
    );

    let mut runtime = BlackBoxRuntime::new();
    runtime.handle_event(RuntimeEvent::DevelopmentSetBehavior(BehaviorPhase::Idle));
    let json = runtime.debug_document(Some(BehaviorPhase::Idle)).to_json();
    assert!(json.starts_with(
        "{\"runtime\":\"black-box\",\"host_id\":\"black-box.host\",\"surface_id\":\"black-box.surface\",\"forced_behavior\":\"idle\",\"snapshot\":{\"behavior\":\"idle\""
    ));
    assert!(json.contains(",\"margin\":10,"));
    assert!(json.contains("\"layer\":\"foreground\""));
    assert!(json.ends_with(",\"presented_at_least_once\":false}}"));
}
