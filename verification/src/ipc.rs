//! The local IPC convention: namespaced channel names, the JSON response
//! envelopes, length-prefixed frames and the classification of transport
//! failures. The sockets and files themselves belong to the program.
use vstd::prelude::*;
use vstd::utf8::{decode_utf8, encode_utf8, valid_utf8};
use crate::text::{hex_byte, push_decimal, push_hex_byte, trim, trimmed};

verus! {

/// The environment variable that names the channel prefix.
pub const CHANNEL_PREFIX_ENV: &'static str = "STUI_IPC_CHANNEL_PREFIX";

/// The channel prefix when none is given.
pub const DEFAULT_CHANNEL_PREFIX: &'static str = "stui.local";

pub const DEFAULT_REQUEST_TIMEOUT_MS: u64 = 1500;

pub const DEFAULT_POLL_IDLE_SLEEP_MS: u64 = 15;

pub const DEFAULT_EVENT_QUEUE_CAPACITY: usize = 32;

// ---------------------------------------------------------------------------
// Policy
// ---------------------------------------------------------------------------

/// Timeouts and queue limits of the IPC surfaces.
#[derive(Debug, Clone, Copy, PartialEq, Eq, Structural)]
pub struct IpcPolicy {
    pub request_timeout_ms: u64,
    pub poll_idle_sleep_ms: u64,
    pub event_queue_capacity: usize,
}

/// What a full event queue does with a new event.
#[derive(Debug, Clone, Copy, PartialEq, Eq, Structural)]
pub enum EventQueueDropPolicy {
    DropOldest,
}

impl Default for IpcPolicy {
    /// 1500 ms requests, 15 ms idle sleep, 32 queued events.
    fn default() -> (p: Self)
        ensures
            p == (IpcPolicy {
                request_timeout_ms: 1500,
                poll_idle_sleep_ms: 15,
                event_queue_capacity: 32,
            }),
    {
        Self {
            request_timeout_ms: DEFAULT_REQUEST_TIMEOUT_MS,
            poll_idle_sleep_ms: DEFAULT_POLL_IDLE_SLEEP_MS,
            event_queue_capacity: DEFAULT_EVENT_QUEUE_CAPACITY,
        }
    }
}

impl IpcPolicy {
    /// Every policy drops the oldest event when its queue is full.
    pub fn event_queue_drop_policy(self) -> (p: EventQueueDropPolicy)
        ensures
            p == EventQueueDropPolicy::DropOldest,
    {
        EventQueueDropPolicy::DropOldest
    }
}

impl EventQueueDropPolicy {
    pub fn as_str(self) -> (s: &'static str)
        ensures
            s@ == "drop-oldest"@,
    {
        match self {
            EventQueueDropPolicy::DropOldest => "drop-oldest",
        }
    }
}

// ---------------------------------------------------------------------------
// Channel names
// ---------------------------------------------------------------------------

/// The characters a channel segment keeps; every other becomes `_`.
pub open spec fn is_segment_char(c: char) -> bool {
    ('a' <= c && c <= 'z') || ('A' <= c && c <= 'Z') || ('0' <= c && c <= '9') || c == '-' || c
        == '_' || c == '.'
}

/// `s` with every character outside `is_segment_char` replaced by `_`.
pub open spec fn sanitized(s: Seq<char>) -> Seq<char> {
    Seq::new(s.len(), |i: int| if is_segment_char(s[i]) { s[i] } else { '_' })
}

/// A channel segment: the sanitized text, or `default` for empty text.
pub open spec fn segment(s: Seq<char>) -> Seq<char> {
    if s.len() == 0 {
        "default"@
    } else {
        sanitized(s)
    }
}

fn char_is_segment(c: char) -> (r: bool)
    ensures
        r == is_segment_char(c),
{
    ('a' <= c && c <= 'z') || ('A' <= c && c <= 'Z') || ('0' <= c && c <= '9') || c == '-' || c
        == '_' || c == '.'
}

/// `value` with every character outside letters, digits, `-`, `_` and `.`
/// replaced by `_`.
pub fn sanitize_chars(value: &str) -> (s: String)
    ensures
        s@ == sanitized(value@),
{
    let n = value.unicode_len();
    let mut out = String::new();
    let mut i: usize = 0;
    while i < n
        invariant
            i <= n,
            n == value@.len(),
            out@ =~= sanitized(value@.take(i as int)),
        decreases n - i,
    {
        let c = value.get_char(i);
        if char_is_segment(c) {
            out.push(c);
        } else {
            out.push('_');
        }
        assert(out@ =~= sanitized(value@.take(i + 1)));
        i = i + 1;
    }
    assert(value@.take(n as int) =~= value@);
    out
}

/// The channel segment for `segment`.
pub fn sanitize_segment(value: &str) -> (s: String)
    ensures
        s@ == segment(value@),
{
    let sanitized = sanitize_chars(value);
    if sanitized.as_str().unicode_len() == 0 {
        DEFAULT_SEGMENT.to_owned()
    } else {
        sanitized
    }
}

const DEFAULT_SEGMENT: &'static str = "default";

/// The prefix a namespace made from `prefix` carries: the trimmed prefix,
/// or the default prefix when that is empty.
pub open spec fn namespace_prefix(prefix: Seq<char>) -> Seq<char> {
    if trimmed(prefix).len() == 0 {
        "stui.local"@
    } else {
        trimmed(prefix)
    }
}

/// The prefix under which channels are named.
#[derive(Debug, Clone, PartialEq, Eq)]
pub struct ChannelNamespace {
    prefix: String,
}

impl View for ChannelNamespace {
    type V = Seq<char>;

    closed spec fn view(&self) -> Seq<char> {
        self.prefix@
    }
}

/// A full channel name.
#[derive(Debug, Clone, PartialEq, Eq)]
pub struct ChannelName(String);

impl View for ChannelName {
    type V = Seq<char>;

    closed spec fn view(&self) -> Seq<char> {
        self.0@
    }
}

/// The name of a channel: the prefix and the three segments, joined by dots.
pub open spec fn channel_name(
    prefix: Seq<char>,
    runtime: Seq<char>,
    instance: Seq<char>,
    capability: Seq<char>,
) -> Seq<char> {
    prefix + "."@ + segment(runtime) + "."@ + segment(instance) + "."@ + segment(capability)
}

impl Default for ChannelNamespace {
    fn default() -> (n: Self)
        ensures
            n@ == "stui.local"@,
    {
        Self { prefix: DEFAULT_CHANNEL_PREFIX.to_owned() }
    }
}

impl ChannelNamespace {
    /// A namespace with the trimmed prefix, or the default one when the
    /// prefix is blank.
    pub fn from_prefix(prefix: &str) -> (n: Self)
        ensures
            n@ == namespace_prefix(prefix@),
    {
        let t = trim(prefix);
        if t.unicode_len() == 0 {
            Self::default()
        } else {
            Self { prefix: t.to_owned() }
        }
    }

    /// The namespace for the value of the prefix variable, if it is set.
    pub fn from_env_value(value: Option<&str>) -> (n: Self)
        ensures
            n@ == (match value {
                Some(v) => namespace_prefix(v@),
                None => "stui.local"@,
            }),
    {
        match value {
            Some(prefix) => Self::from_prefix(prefix),
            None => Self::default(),
        }
    }

    pub fn prefix(&self) -> (p: &str)
        ensures
            p@ == self@,
    {
        self.prefix.as_str()
    }

    /// The channel of a capability of a runtime instance.
    pub fn channel(&self, runtime: &str, instance: &str, capability: &str) -> (c: ChannelName)
        ensures
            c@ == channel_name(self@, runtime@, instance@, capability@),
    {
        let mut name = self.prefix.clone();
        name.append(".");
        let r = sanitize_segment(runtime);
        name.append(r.as_str());
        name.append(".");
        let i = sanitize_segment(instance);
        name.append(i.as_str());
        name.append(".");
        let c = sanitize_segment(capability);
        name.append(c.as_str());
        assert(name@ =~= channel_name(self@, runtime@, instance@, capability@));
        ChannelName(name)
    }
}

impl ChannelName {
    pub fn as_str(&self) -> (s: &str)
        ensures
            s@ == self@,
    {
        self.0.as_str()
    }
}

/// The bytes of `bytes` as lower-case hexadecimal, two digits per byte.
pub open spec fn hex_text(bytes: Seq<u8>) -> Seq<char>
    decreases bytes.len(),
{
    if bytes.len() == 0 {
        seq![]
    } else {
        hex_text(bytes.drop_last()) + hex_byte(bytes.last())
    }
}

/// Lower-case hexadecimal of a byte string.
pub fn hex_encode(bytes: &[u8]) -> (s: String)
    ensures
        s@ == hex_text(bytes@),
{
    let mut out = String::new();
    let n = bytes.len();
    let mut i: usize = 0;
    while i < n
        invariant
            i <= n,
            n == bytes@.len(),
            out@ == hex_text(bytes@.take(i as int)),
        decreases n - i,
    {
        push_hex_byte(&mut out, bytes[i]);
        assert(bytes@.take(i + 1).drop_last() =~= bytes@.take(i as int));
        i = i + 1;
    }
    assert(bytes@.take(n as int) =~= bytes@);
    out
}

/// The file name under which a channel's address is published: the hex
/// of its UTF-8 name, then `.addr`.
pub open spec fn registry_file_name_of(channel: Seq<char>) -> Seq<char> {
    hex_text(encode_utf8(channel)) + ".addr"@
}

/// The registry file name of a channel.
pub fn registry_file_name(channel: &ChannelName) -> (s: String)
    ensures
        s@ == registry_file_name_of(channel@),
{
    let mut s = hex_encode(channel.as_str().as_bytes());
    s.append(".addr");
    s
}

// ---------------------------------------------------------------------------
// JSON envelopes
// ---------------------------------------------------------------------------

/// How one character is written inside a JSON string: backslash and
/// double quote get a backslash in front.
pub open spec fn json_escape_char(c: char) -> Seq<char> {
    if c == '\\' {
        seq!['\\', '\\']
    } else if c == '"' {
        seq!['\\', '"']
    } else {
        seq![c]
    }
}

/// `s` with backslashes and double quotes escaped.
pub open spec fn json_escaped(s: Seq<char>) -> Seq<char>
    decreases s.len(),
{
    if s.len() == 0 {
        seq![]
    } else {
        json_escaped(s.drop_last()) + json_escape_char(s.last())
    }
}

/// Escapes backslashes and double quotes for a JSON string.
pub fn escape_json_string(value: &str) -> (s: String)
    ensures
        s@ == json_escaped(value@),
{
    let n = value.unicode_len();
    let mut out = String::new();
    let mut i: usize = 0;
    while i < n
        invariant
            i <= n,
            n == value@.len(),
            out@ == json_escaped(value@.take(i as int)),
        decreases n - i,
    {
        let c = value.get_char(i);
        if c == '\\' {
            out.push('\\');
            out.push('\\');
        } else if c == '"' {
            out.push('\\');
            out.push('"');
        } else {
            out.push(c);
        }
        assert(value@.take(i + 1).drop_last() =~= value@.take(i as int));
        assert(out@ =~= json_escaped(value@.take(i + 1)));
        i = i + 1;
    }
    assert(value@.take(n as int) =~= value@);
    out
}

/// A success envelope: `{"ok":true,"kind":"<kind>","data":<data>}`.
pub open spec fn ok_envelope(kind: Seq<char>, data_json: Seq<char>) -> Seq<char> {
    "{\"ok\":true,\"kind\":\""@ + json_escaped(kind) + "\",\"data\":"@ + data_json + "}"@
}

/// An error envelope:
/// `{"ok":false,"error":{"code":"<code>","detail":"<detail>"}}`.
pub open spec fn error_envelope(code: Seq<char>, detail: Seq<char>) -> Seq<char> {
    "{\"ok\":false,\"error\":{\"code\":\""@ + json_escaped(code) + "\",\"detail\":\""@
        + json_escaped(detail) + "\"}}"@
}

/// The success envelope around `data_json`, which is written as it is.
pub fn ok_response(kind: &str, data_json: &str) -> (s: String)
    ensures
        s@ == ok_envelope(kind@, data_json@),
{
    let mut out = String::new();
    out.append("{\"ok\":true,\"kind\":\"");
    let k = escape_json_string(kind);
    out.append(k.as_str());
    out.append("\",\"data\":");
    out.append(data_json);
    out.append("}");
    assert(out@ =~= ok_envelope(kind@, data_json@));
    out
}

/// The error envelope for `code` and `detail`.
pub fn error_response(code: &str, detail: &str) -> (s: String)
    ensures
        s@ == error_envelope(code@, detail@),
{
    let mut out = String::new();
    out.append("{\"ok\":false,\"error\":{\"code\":\"");
    let c = escape_json_string(code);
    out.append(c.as_str());
    out.append("\",\"detail\":\"");
    let d = escape_json_string(detail);
    out.append(d.as_str());
    out.append("\"}}");
    assert(out@ =~= error_envelope(code@, detail@));
    out
}

/// What an events surface announces about itself.
#[derive(Debug, Clone, PartialEq, Eq)]
pub struct IpcEventCatalog<'a> {
    pub runtime: &'a str,
    pub instance: &'a str,
    pub transport: &'a str,
    pub events_channel: &'a str,
    pub control_channel: &'a str,
    pub mode: &'a str,
    pub emits: &'a [&'a str],
}

/// A JSON string literal.
pub open spec fn json_quoted(s: Seq<char>) -> Seq<char> {
    "\""@ + json_escaped(s) + "\""@
}

/// JSON string literals joined by commas.
pub open spec fn json_quoted_list(items: Seq<Seq<char>>) -> Seq<char>
    decreases items.len(),
{
    if items.len() == 0 {
        seq![]
    } else if items.len() == 1 {
        json_quoted(items[0])
    } else {
        json_quoted_list(items.drop_last()) + ","@ + json_quoted(items.last())
    }
}

/// The views of a slice of strings.
pub open spec fn str_views(items: Seq<&str>) -> Seq<Seq<char>> {
    Seq::new(items.len(), |i: int| items[i]@)
}

/// The JSON object of a catalog.
pub open spec fn catalog_json(
    runtime: Seq<char>,
    instance: Seq<char>,
    transport: Seq<char>,
    events_channel: Seq<char>,
    control_channel: Seq<char>,
    mode: Seq<char>,
    emits: Seq<Seq<char>>,
) -> Seq<char> {
    "{\"runtime\":\""@ + json_escaped(runtime) + "\",\"instance\":\""@ + json_escaped(instance)
        + "\",\"transport\":\""@ + json_escaped(transport) + "\",\"events_channel\":\""@
        + json_escaped(events_channel) + "\",\"control_channel\":\""@ + json_escaped(
        control_channel,
    ) + "\",\"mode\":\""@ + json_escaped(mode) + "\",\"emits\":["@ + json_quoted_list(emits)
        + "]}"@
}

fn push_escaped(out: &mut String, value: &str)
    ensures
        final(out)@ == old(out)@ + json_escaped(value@),
{
    let e = escape_json_string(value);
    out.append(e.as_str());
}

fn quoted_list(items: &[&str]) -> (s: String)
    ensures
        s@ == json_quoted_list(str_views(items@)),
{
    let mut out = String::new();
    let n = items.len();
    let mut i: usize = 0;
    while i < n
        invariant
            i <= n,
            n == items@.len(),
            out@ == json_quoted_list(str_views(items@.take(i as int))),
        decreases n - i,
    {
        let ghost before = out@;
        if i > 0 {
            out.append(",");
        }
        out.append("\"");
        push_escaped(&mut out, items[i]);
        out.append("\"");
        proof {
            let prev = str_views(items@.take(i as int));
            let next = str_views(items@.take(i + 1));
            assert(next.drop_last() =~= prev);
            assert(next.last() == items@[i as int]@);
            if i == 0 {
                assert(out@ =~= json_quoted(items@[0]@));
            } else {
                assert(out@ =~= before + ","@ + json_quoted(items@[i as int]@));
            }
        }
        i = i + 1;
    }
    assert(items@.take(n as int) =~= items@);
    out
}

impl<'a> IpcEventCatalog<'a> {
    /// The catalog as a JSON object, every text escaped.
    pub fn to_json(&self) -> (s: String)
        ensures
            s@ == catalog_json(
                self.runtime@,
                self.instance@,
                self.transport@,
                self.events_channel@,
                self.control_channel@,
                self.mode@,
                str_views(self.emits@),
            ),
    {
        let emits = quoted_list(self.emits);
        let mut out = String::new();
        out.append("{\"runtime\":\"");
        push_escaped(&mut out, self.runtime);
        out.append("\",\"instance\":\"");
        push_escaped(&mut out, self.instance);
        out.append("\",\"transport\":\"");
        push_escaped(&mut out, self.transport);
        out.append("\",\"events_channel\":\"");
        push_escaped(&mut out, self.events_channel);
        out.append("\",\"control_channel\":\"");
        push_escaped(&mut out, self.control_channel);
        out.append("\",\"mode\":\"");
        push_escaped(&mut out, self.mode);
        out.append("\",\"emits\":[");
        out.append(emits.as_str());
        out.append("]}");
        assert(out@ =~= catalog_json(
            self.runtime@,
            self.instance@,
            self.transport@,
            self.events_channel@,
            self.control_channel@,
            self.mode@,
            str_views(self.emits@),
        ));
        out
    }
}

// ---------------------------------------------------------------------------
// Failures
// ---------------------------------------------------------------------------

/// The kinds of I/O failure the transport tells apart.
#[derive(Debug, Clone, Copy, PartialEq, Eq, Structural)]
pub enum IoErrorKind {
    NotFound,
    ConnectionRefused,
    ConnectionAborted,
    ConnectionReset,
    TimedOut,
    WouldBlock,
    Interrupted,
    AddrNotAvailable,
    InvalidInput,
    Other,
}

/// An I/O failure: its kind and its message.
#[derive(Debug, Clone, PartialEq, Eq)]
pub struct IoFailure {
    pub kind: IoErrorKind,
    pub detail: String,
}

/// The failures of an IPC request.
#[derive(Debug)]
pub enum IpcError {
    ChannelNotPublished { channel: String },
    ChannelOccupied { channel: String },
    RequestTimedOut { channel: String },
    Io(IoFailure),
    InvalidPayload(String),
}

/// The message of an IPC failure.
pub open spec fn ipc_error_text(e: IpcError) -> Seq<char> {
    match e {
        IpcError::ChannelNotPublished { channel } => "channel not published: "@ + channel@,
        IpcError::ChannelOccupied { channel } => "channel already occupied: "@ + channel@,
        IpcError::RequestTimedOut { channel } => "request timed out: "@ + channel@,
        IpcError::Io(f) => f.detail@,
        IpcError::InvalidPayload(detail) => "invalid payload: "@ + detail@,
    }
}

impl IpcError {
    /// The failure as one line of text.
    pub fn message(&self) -> (s: String)
        ensures
            s@ == ipc_error_text(*self),
    {
        match self {
            IpcError::ChannelNotPublished { channel } => {
                let mut s = String::new();
                s.append("channel not published: ");
                s.append(channel.as_str());
                s
            },
            IpcError::ChannelOccupied { channel } => {
                let mut s = String::new();
                s.append("channel already occupied: ");
                s.append(channel.as_str());
                s
            },
            IpcError::RequestTimedOut { channel } => {
                let mut s = String::new();
                s.append("request timed out: ");
                s.append(channel.as_str());
                s
            },
            IpcError::Io(f) => f.detail.clone(),
            IpcError::InvalidPayload(detail) => {
                let mut s = String::new();
                s.append("invalid payload: ");
                s.append(detail.as_str());
                s
            },
        }
    }
}

/// Whether a failed connection means that nobody serves the channel any
/// more (its registry entry is stale).
pub open spec fn is_unpublished_kind(kind: IoErrorKind) -> bool {
    kind == IoErrorKind::ConnectionRefused || kind == IoErrorKind::ConnectionAborted || kind
        == IoErrorKind::TimedOut || kind == IoErrorKind::NotFound || kind
        == IoErrorKind::AddrNotAvailable
}

/// Decides `is_unpublished_kind`.
pub fn connect_failure_is_unpublished(kind: IoErrorKind) -> (r: bool)
    ensures
        r == is_unpublished_kind(kind),
{
    match kind {
        IoErrorKind::ConnectionRefused | IoErrorKind::ConnectionAborted | IoErrorKind::TimedOut
        | IoErrorKind::NotFound | IoErrorKind::AddrNotAvailable => true,
        _ => false,
    }
}

/// Whether a failed accept is no failure of the server: nobody was
/// waiting, or the waiting client went away.
pub open spec fn is_transient_accept_kind(kind: IoErrorKind) -> bool {
    kind == IoErrorKind::WouldBlock || kind == IoErrorKind::Interrupted || kind
        == IoErrorKind::ConnectionAborted || kind == IoErrorKind::ConnectionReset
}

/// Decides `is_transient_accept_kind`.
pub fn accept_failure_is_transient(kind: IoErrorKind) -> (r: bool)
    ensures
        r == is_transient_accept_kind(kind),
{
    match kind {
        IoErrorKind::WouldBlock | IoErrorKind::Interrupted | IoErrorKind::ConnectionAborted
        | IoErrorKind::ConnectionReset => true,
        _ => false,
    }
}

/// The error for a registry file that could not be read: a missing file
/// means the channel is not published.
pub fn registry_read_error(channel: &ChannelName, failure: IoFailure) -> (e: IpcError)
    ensures
        failure.kind == IoErrorKind::NotFound ==> (e matches IpcError::ChannelNotPublished {
            channel: c,
        } && c@ == channel@),
        failure.kind != IoErrorKind::NotFound ==> (e matches IpcError::Io(f) && f == failure),
{
    match failure.kind {
        IoErrorKind::NotFound => IpcError::ChannelNotPublished {
            channel: channel.as_str().to_owned(),
        },
        _ => IpcError::Io(failure),
    }
}

/// The error for a channel whose published address refused the
/// connection in the way `is_unpublished_kind` names.
pub fn unpublished_error(channel: &ChannelName) -> (e: IpcError)
    ensures
        e matches IpcError::ChannelNotPublished { channel: c } && c@ == channel@,
{
    IpcError::ChannelNotPublished { channel: channel.as_str().to_owned() }
}

/// The error for a channel whose published address still answers.
pub fn occupied_error(channel: &ChannelName) -> (e: IpcError)
    ensures
        e matches IpcError::ChannelOccupied { channel: c } && c@ == channel@,
{
    IpcError::ChannelOccupied { channel: channel.as_str().to_owned() }
}

/// A read that timed out (or would have blocked) becomes a timed-out
/// request on the channel; every other error stays as it is.
pub fn map_timeout_error(error: IpcError, channel: &ChannelName) -> (e: IpcError)
    ensures
        (error matches IpcError::Io(f) && (f.kind == IoErrorKind::TimedOut || f.kind
            == IoErrorKind::WouldBlock)) ==> (e matches IpcError::RequestTimedOut { channel: c }
            && c@ == channel@),
        !(error matches IpcError::Io(f) && (f.kind == IoErrorKind::TimedOut || f.kind
            == IoErrorKind::WouldBlock)) ==> e == error,
{
    match error {
        IpcError::Io(failure) => {
            if failure.kind == IoErrorKind::TimedOut || failure.kind == IoErrorKind::WouldBlock {
                IpcError::RequestTimedOut { channel: channel.as_str().to_owned() }
            } else {
                IpcError::Io(failure)
            }
        },
        other => other,
    }
}

// ---------------------------------------------------------------------------
// Frames
// ---------------------------------------------------------------------------

/// The little-endian bytes of a 32-bit value.
pub open spec fn le32_bytes(n: u32) -> Seq<u8> {
    seq![
        (n & 0xff) as u8,
        ((n >> 8u32) & 0xff) as u8,
        ((n >> 16u32) & 0xff) as u8,
        ((n >> 24u32) & 0xff) as u8,
    ]
}

/// The value of four little-endian bytes.
pub open spec fn le32_value(b: Seq<u8>) -> nat {
    b[0] as nat + b[1] as nat * 256 + b[2] as nat * 65536 + b[3] as nat * 16777216
}

/// A frame: the payload's UTF-8 length as four little-endian bytes, then
/// the payload's UTF-8 bytes.
pub open spec fn frame_bytes(payload: Seq<char>) -> Seq<u8> {
    le32_bytes(encode_utf8(payload).len() as u32) + encode_utf8(payload)
}

/// The failure of a payload too long for a frame.
pub open spec fn payload_too_large(f: IoFailure) -> bool {
    f.kind == IoErrorKind::InvalidInput && f.detail@ == "payload too large"@
}

/// Frames a payload; one whose UTF-8 form is longer than `u32::MAX` bytes
/// is refused.
pub fn encode_frame(payload: &str) -> (r: Result<Vec<u8>, IoFailure>)
    ensures
        encode_utf8(payload@).len() <= u32::MAX ==> (r matches Ok(v) && v@ == frame_bytes(
            payload@,
        )),
        encode_utf8(payload@).len() > u32::MAX ==> (r matches Err(f) && payload_too_large(f)),
{
    let bytes = payload.as_bytes();
    if bytes.len() > 0xffff_ffffusize {
        return Err(IoFailure { kind: IoErrorKind::InvalidInput, detail: "payload too large".to_owned() });
    }
    let len = bytes.len() as u32;
    let mut out: Vec<u8> = Vec::new();
    out.push((len & 0xff) as u8);
    out.push(((len >> 8u32) & 0xff) as u8);
    out.push(((len >> 16u32) & 0xff) as u8);
    out.push(((len >> 24u32) & 0xff) as u8);
    let n = bytes.len();
    let mut i: usize = 0;
    while i < n
        invariant
            i <= n,
            n == bytes@.len(),
            bytes@ == encode_utf8(payload@),
            len == n,
            out@ =~= le32_bytes(len) + bytes@.take(i as int),
        decreases n - i,
    {
        out.push(bytes[i]);
        assert(bytes@.take(i + 1) =~= bytes@.take(i as int).push(bytes@[i as int]));
        i = i + 1;
    }
    assert(bytes@.take(n as int) =~= bytes@);
    Ok(out)
}

/// The payload length a frame header announces.
pub fn frame_payload_len(header: &[u8]) -> (n: usize)
    requires
        header@.len() == 4,
    ensures
        n as nat == le32_value(header@),
{
    let b0 = header[0] as u32;
    let b1 = header[1] as u32;
    let b2 = header[2] as u32;
    let b3 = header[3] as u32;
    assert(b0 + b1 * 256 + b2 * 65536 + b3 * 16777216 <= u32::MAX) by (nonlinear_arith)
        requires
            b0 < 256,
            b1 < 256,
            b2 < 256,
            b3 < 256,
    ;
    let v = b0 + b1 * 256 + b2 * 65536 + b3 * 16777216;
    v as usize
}

/// `String::from_utf8` from std: it succeeds exactly when the bytes are
/// valid UTF-8, and then gives the text they encode. Nothing is said of the
/// error's contents.
#[verifier::external_body]
fn string_from_utf8(bytes: Vec<u8>) -> (r: Result<String, std::string::FromUtf8Error>)
    ensures
        r is Ok <==> valid_utf8(bytes@),
        r matches Ok(s) ==> s@ == decode_utf8(bytes@),
{
    String::from_utf8(bytes)
}

/// `std::string::FromUtf8Error`, the failure of `String::from_utf8`, carried
/// from the decoder to its message and never looked into.
#[verifier::external_type_specification]
#[verifier::external_body]
pub struct ExFromUtf8Error(std::string::FromUtf8Error);

/// The `Display` text of a `FromUtf8Error`, through `ToString::to_string`.
/// Its wording is not stated: std's documentation does not give it.
#[verifier::external_body]
fn utf8_error_message(error: &std::string::FromUtf8Error) -> String {
    error.to_string()
}

/// The text of a frame payload; bytes that are not UTF-8 are an invalid
/// payload.
pub fn decode_frame_payload(payload: Vec<u8>) -> (r: Result<String, IpcError>)
    ensures
        valid_utf8(payload@) ==> (r matches Ok(s) && s@ == decode_utf8(payload@)),
        !valid_utf8(payload@) ==> (r matches Err(IpcError::InvalidPayload(_))),
{
    match string_from_utf8(payload) {
        Ok(s) => Ok(s),
        Err(error) => Err(IpcError::InvalidPayload(utf8_error_message(&error))),
    }
}

/// A frame read back gives the payload that was framed: the header
/// announces the payload's length, and the bytes after it decode to the
/// payload.
pub proof fn lemma_frame_roundtrip(payload: Seq<char>)
    requires
        encode_utf8(payload).len() <= u32::MAX,
    ensures
        frame_bytes(payload).len() == 4 + encode_utf8(payload).len(),
        le32_value(frame_bytes(payload).take(4)) == encode_utf8(payload).len(),
        frame_bytes(payload).skip(4) == encode_utf8(payload),
        valid_utf8(frame_bytes(payload).skip(4)),
        decode_utf8(frame_bytes(payload).skip(4)) == payload,
{
    broadcast use vstd::utf8::encode_utf8_decode_utf8, vstd::utf8::encode_utf8_valid_utf8;

    let n = encode_utf8(payload).len() as u32;
    let f = frame_bytes(payload);
    assert(f.skip(4) =~= encode_utf8(payload));
    assert(f.take(4) =~= le32_bytes(n));
    assert((n & 0xff) as u8 as nat + ((n >> 8u32) & 0xff) as u8 as nat * 256 + ((n >> 16u32)
        & 0xff) as u8 as nat * 65536 + ((n >> 24u32) & 0xff) as u8 as nat * 16777216 == n)
        by (bit_vector);
}

/// Channel names follow the namespace: a channel's name starts with the
/// namespace prefix and a dot, and its segments never hold anything but
/// letters, digits, `-`, `_` and `.`.
pub proof fn lemma_channel_name_shape(
    prefix: Seq<char>,
    runtime: Seq<char>,
    instance: Seq<char>,
    capability: Seq<char>,
)
    ensures
        channel_name(prefix, runtime, instance, capability).take(prefix.len() as int + 1) == prefix
            + "."@,
        forall|i: int|
            0 <= i < segment(runtime).len() ==> is_segment_char(#[trigger] segment(runtime)[i]),
        segment(runtime).len() > 0,
{
    reveal_strlit("default");
    reveal_strlit(".");
    let name = channel_name(prefix, runtime, instance, capability);
    assert(name.take(prefix.len() as int + 1) =~= prefix + "."@);
    assert forall|i: int|
        0 <= i < segment(runtime).len() implies is_segment_char(#[trigger] segment(runtime)[i]) by {
        if runtime.len() == 0 {
            assert("default"@[i] == "default"@.index(i));
        }
    }
}

} // verus!
