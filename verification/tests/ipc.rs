use stui::ipc::{
    accept_failure_is_transient, connect_failure_is_unpublished, decode_frame_payload,
    encode_frame, error_response, escape_json_string, frame_payload_len, hex_encode,
    map_timeout_error, occupied_error, ok_response, registry_file_name, registry_read_error,
    sanitize_chars, sanitize_segment, unpublished_error, ChannelNamespace, EventQueueDropPolicy,
    IoErrorKind, IoFailure, IpcError, IpcEventCatalog, IpcPolicy, CHANNEL_PREFIX_ENV,
    DEFAULT_CHANNEL_PREFIX,
};

fn failure(kind: IoErrorKind, detail: &str) -> IoFailure {
    IoFailure { kind, detail: detail.to_string() }
}

#[test]
fn policy_defaults() {
    let policy = IpcPolicy::default();
    assert_eq!(policy.request_timeout_ms, 1500);
    assert_eq!(policy.poll_idle_sleep_ms, 15);
    assert_eq!(policy.event_queue_capacity, 32);
    assert_eq!(policy.event_queue_drop_policy(), EventQueueDropPolicy::DropOldest);
    assert_eq!(EventQueueDropPolicy::DropOldest.as_str(), "drop-oldest");
    assert_eq!(CHANNEL_PREFIX_ENV, "STUI_IPC_CHANNEL_PREFIX");
    assert_eq!(DEFAULT_CHANNEL_PREFIX, "stui.local");
}

#[test]
fn namespaces_trim_their_prefix_and_fall_back_to_the_default() {
    assert_eq!(ChannelNamespace::default().prefix(), "stui.local");
    assert_eq!(ChannelNamespace::from_prefix("  stim.dev \t").prefix(), "stim.dev");
    assert_eq!(ChannelNamespace::from_prefix("   ").prefix(), "stui.local");
    assert_eq!(ChannelNamespace::from_prefix("").prefix(), "stui.local");
    assert_eq!(ChannelNamespace::from_env_value(None).prefix(), "stui.local");
    assert_eq!(ChannelNamespace::from_env_value(Some(" x ")).prefix(), "x");
    assert_eq!(ChannelNamespace::from_env_value(Some("\n")).prefix(), "stui.local");
}

#[test]
fn channel_names_join_sanitized_segments() {
    let namespace = ChannelNamespace::from_prefix("stim.dev");
    assert_eq!(
        namespace.channel("black-box", "alpha beta", "debug").as_str(),
        "stim.dev.black-box.alpha_beta.debug"
    );
    assert_eq!(
        namespace.channel("black-box", "", "events").as_str(),
        "stim.dev.black-box.default.events"
    );
    assert_eq!(
        ChannelNamespace::default().channel("rt", "é/1", "c.d").as_str(),
        "stui.local.rt.__1.c.d"
    );
}

#[test]
fn segments_keep_letters_digits_dash_underscore_and_dot() {
    assert_eq!(sanitize_chars("Ab-9_.x y!"), "Ab-9_.x_y_");
    assert_eq!(sanitize_chars(""), "");
    assert_eq!(sanitize_segment(""), "default");
    assert_eq!(sanitize_segment("a:b"), "a_b");
}

#[test]
fn registry_file_names_are_hex_of_the_channel() {
    assert_eq!(hex_encode(b"AZ"), "415a");
    assert_eq!(hex_encode(&[0x00, 0x0f, 0xf0, 0xff]), "000ff0ff");
    assert_eq!(hex_encode(&[]), "");
    let channel = ChannelNamespace::from_prefix("a").channel("b", "c", "d");
    assert_eq!(channel.as_str(), "a.b.c.d");
    assert_eq!(registry_file_name(&channel), "612e622e632e64.addr");
}

#[test]
fn json_escaping_handles_backslash_and_quote() {
    assert_eq!(escape_json_string("a\"b\\c"), "a\\\"b\\\\c");
    assert_eq!(escape_json_string("plain"), "plain");
    assert_eq!(escape_json_string(""), "");
}

#[test]
fn envelopes() {
    assert_eq!(ok_response("inspect", "{}"), "{\"ok\":true,\"kind\":\"inspect\",\"data\":{}}");
    assert_eq!(ok_response("k\"", "[1]"), "{\"ok\":true,\"kind\":\"k\\\"\",\"data\":[1]}");
    assert_eq!(
        error_response("bad", "x\"y"),
        "{\"ok\":false,\"error\":{\"code\":\"bad\",\"detail\":\"x\\\"y\"}}"
    );
}

#[test]
fn event_catalog_json() {
    let emits = ["a", "b\"c"];
    let catalog = IpcEventCatalog {
        runtime: "rt",
        instance: "i",
        transport: "t",
        events_channel: "e",
        control_channel: "c",
        mode: "m",
        emits: &emits,
    };
    assert_eq!(
        catalog.to_json(),
        "{\"runtime\":\"rt\",\"instance\":\"i\",\"transport\":\"t\",\"events_channel\":\"e\",\"control_channel\":\"c\",\"mode\":\"m\",\"emits\":[\"a\",\"b\\\"c\"]}"
    );
    let empty = IpcEventCatalog { emits: &[], ..catalog };
    assert!(empty.to_json().ends_with(",\"emits\":[]}"));
}

#[test]
fn ipc_error_messages() {
    let channel = "stui.local.black-box.default.debug".to_string();
    assert_eq!(
        IpcError::ChannelNotPublished { channel: channel.clone() }.message(),
        "channel not published: stui.local.black-box.default.debug"
    );
    assert_eq!(
        IpcError::ChannelOccupied { channel: channel.clone() }.message(),
        "channel already occupied: stui.local.black-box.default.debug"
    );
    assert_eq!(
        IpcError::RequestTimedOut { channel }.message(),
        "request timed out: stui.local.black-box.default.debug"
    );
    assert_eq!(IpcError::Io(failure(IoErrorKind::Other, "boom")).message(), "boom");
    assert_eq!(IpcError::InvalidPayload("bad bytes".to_string()).message(), "invalid payload: bad bytes");
}

#[test]
fn connect_and_accept_failure_classes() {
    for kind in [
        IoErrorKind::ConnectionRefused,
        IoErrorKind::ConnectionAborted,
        IoErrorKind::TimedOut,
        IoErrorKind::NotFound,
        IoErrorKind::AddrNotAvailable,
    ] {
        assert!(connect_failure_is_unpublished(kind));
    }
    for kind in [IoErrorKind::ConnectionReset, IoErrorKind::WouldBlock, IoErrorKind::Other] {
        assert!(!connect_failure_is_unpublished(kind));
    }
    for kind in [
        IoErrorKind::WouldBlock,
        IoErrorKind::Interrupted,
        IoErrorKind::ConnectionAborted,
        IoErrorKind::ConnectionReset,
    ] {
        assert!(accept_failure_is_transient(kind));
    }
    for kind in [IoErrorKind::TimedOut, IoErrorKind::NotFound, IoErrorKind::Other] {
        assert!(!accept_failure_is_transient(kind));
    }
}

#[test]
fn registry_and_connection_errors_name_the_channel() {
    let channel = ChannelNamespace::default().channel("black-box", "alpha", "debug");
    match registry_read_error(&channel, failure(IoErrorKind::NotFound, "missing")) {
        IpcError::ChannelNotPublished { channel: c } => assert_eq!(c, channel.as_str()),
        other => panic!("unexpected {:?}", other),
    }
    match registry_read_error(&channel, failure(IoErrorKind::Other, "denied")) {
        IpcError::Io(f) => assert_eq!(f, failure(IoErrorKind::Other, "denied")),
        other => panic!("unexpected {:?}", other),
    }
    assert!(matches!(unpublished_error(&channel), IpcError::ChannelNotPublished { channel: c } if c == "stui.local.black-box.alpha.debug"));
    assert!(matches!(occupied_error(&channel), IpcError::ChannelOccupied { channel: c } if c == "stui.local.black-box.alpha.debug"));
}

#[test]
fn timeouts_become_timed_out_requests() {
    let channel = ChannelNamespace::default().channel("rt", "i", "c");
    assert!(matches!(
        map_timeout_error(IpcError::Io(failure(IoErrorKind::TimedOut, "t")), &channel),
        IpcError::RequestTimedOut { channel: c } if c == "stui.local.rt.i.c"
    ));
    assert!(matches!(
        map_timeout_error(IpcError::Io(failure(IoErrorKind::WouldBlock, "w")), &channel),
        IpcError::RequestTimedOut { .. }
    ));
    assert!(matches!(
        map_timeout_error(IpcError::Io(failure(IoErrorKind::ConnectionReset, "r")), &channel),
        IpcError::Io(f) if f.kind == IoErrorKind::ConnectionReset && f.detail == "r"
    ));
    assert!(matches!(
        map_timeout_error(IpcError::InvalidPayload("p".to_string()), &channel),
        IpcError::InvalidPayload(d) if d == "p"
    ));
}

#[test]
fn frames_are_a_little_endian_length_then_utf8() {
    let frame = encode_frame("hé").unwrap();
    assert_eq!(frame, vec![3, 0, 0, 0, b'h', 0xc3, 0xa9]);
    assert_eq!(encode_frame("").unwrap(), vec![0, 0, 0, 0]);
    assert_eq!(frame_payload_len(&[3, 0, 0, 0]), 3);
    assert_eq!(frame_payload_len(&[0, 1, 0, 0]), 256);
    assert_eq!(frame_payload_len(&[0x01, 0x02, 0x03, 0x04]), 0x0403_0201);
    assert_eq!(frame_payload_len(&[0xff, 0xff, 0xff, 0xff]), u32::MAX as usize);
}

#[test]
fn frame_round_trip() {
    let payload = "{\"ok\":true} ünïcödé ✓";
    let frame = encode_frame(payload).unwrap();
    let len = frame_payload_len(&frame[..4]);
    assert_eq!(len, frame.len() - 4);
    let decoded = decode_frame_payload(frame[4..].to_vec()).unwrap();
    assert_eq!(decoded, payload);
}

#[test]
fn invalid_utf8_is_an_invalid_payload() {
    assert!(matches!(decode_frame_payload(vec![0xff, 0xfe]), Err(IpcError::InvalidPayload(_))));
    assert_eq!(decode_frame_payload(b"inspect".to_vec()).unwrap(), "inspect");
}
