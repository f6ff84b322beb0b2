//! The bookkeeping of the development supervisor: playground names, the
//! session state files it writes and reads back, status classification,
//! log tails, and the command lines and report lines it produces.
//! Processes, files, clocks and the environment belong to the program.
use vstd::prelude::*;
use crate::ipc::{is_segment_char, sanitized, sanitize_chars};
use crate::text::{
    decimal, decimal_string, first_index_of, join_items, joined, lemma_first_index_of,
    lemma_parse_decimal, lemma_decimal_digits, lines, all_digits, parse_unsigned, parse_unsigned_u128, push_decimal, split_lines,
    str_equal, strip_cr, trim, trimmed,
};

verus! {

// ---------------------------------------------------------------------------
// Names
// ---------------------------------------------------------------------------

/// The playgrounds the supervisor knows.
#[derive(Debug, Clone, Copy, PartialEq, Eq, Structural)]
pub enum PlaygroundName {
    BlackBox,
}

/// A phase to start a playground in.
#[derive(Debug, Clone, Copy, PartialEq, Eq, Structural)]
pub enum BehaviorArg {
    Booting,
    Idle,
    Closing,
}

/// What the supervisor knows of a recorded session.
#[derive(Debug, Clone, Copy, PartialEq, Eq, Structural)]
pub enum RuntimeStatus {
    Running,
    Stopped,
    Stale,
}

/// Failures of the supervisor's own logic.
#[derive(Debug, Clone, PartialEq, Eq)]
pub enum DevError {
    /// A state file names a playground the supervisor does not know.
    UnsupportedPlayground(String),
    /// No session is recorded for the instance.
    MissingState { playground: PlaygroundName, instance: String },
}

/// The name of a playground in state files, paths and output.
pub open spec fn playground_text(p: PlaygroundName) -> Seq<char> {
    match p {
        PlaygroundName::BlackBox => "black-box"@,
    }
}

/// The message of a supervisor failure.
pub open spec fn dev_error_text(e: DevError) -> Seq<char> {
    match e {
        DevError::UnsupportedPlayground(name) => "unsupported playground in state: "@ + name@,
        DevError::MissingState { playground, instance } => "no recorded "@ + playground_text(
            playground,
        ) + " instance named "@ + instance@ + "; start it first"@,
    }
}

impl DevError {
    pub fn message(&self) -> (s: String)
        ensures
            s@ == dev_error_text(*self),
    {
        let mut s = String::new();
        match self {
            DevError::UnsupportedPlayground(name) => {
                s.append("unsupported playground in state: ");
                s.append(name.as_str());
            },
            DevError::MissingState { playground, instance } => {
                s.append("no recorded ");
                s.append(playground.as_str());
                s.append(" instance named ");
                s.append(instance.as_str());
                s.append("; start it first");
                assert(s@ =~= dev_error_text(*self));
            },
        }
        s
    }
}

impl PlaygroundName {
    /// Every playground, in listing order.
    pub fn all() -> (v: Vec<PlaygroundName>)
        ensures
            v@ == seq![PlaygroundName::BlackBox],
    {
        let mut v = Vec::new();
        v.push(PlaygroundName::BlackBox);
        assert(v@ =~= seq![PlaygroundName::BlackBox]);
        v
    }

    pub fn as_str(self) -> (s: &'static str)
        ensures
            s@ == playground_text(self),
    {
        match self {
            PlaygroundName::BlackBox => "black-box",
        }
    }

    /// The cargo package that builds the playground.
    pub fn package_name(self) -> (s: &'static str)
        ensures
            s@ == "stui-playground-black-box"@,
    {
        match self {
            PlaygroundName::BlackBox => "stui-playground-black-box",
        }
    }

    /// The binary the package builds.
    pub fn binary_name(self) -> (s: &'static str)
        ensures
            s@ == "stui-playground-black-box"@,
    {
        match self {
            PlaygroundName::BlackBox => "stui-playground-black-box",
        }
    }

    /// The playground a state file names.
    pub fn from_str(value: &str) -> (r: Result<PlaygroundName, DevError>)
        ensures
            value@ == "black-box"@ ==> r == Ok::<PlaygroundName, DevError>(PlaygroundName::BlackBox),
            value@ != "black-box"@ ==> (r matches Err(DevError::UnsupportedPlayground(n)) && n@
                == value@),
    {
        if str_equal(value, "black-box") {
            Ok(PlaygroundName::BlackBox)
        } else {
            Err(DevError::UnsupportedPlayground(value.to_owned()))
        }
    }
}

/// The name of a phase on the playground's command line.
pub open spec fn behavior_arg_text(b: BehaviorArg) -> Seq<char> {
    match b {
        BehaviorArg::Booting => "booting"@,
        BehaviorArg::Idle => "idle"@,
        BehaviorArg::Closing => "closing"@,
    }
}

impl BehaviorArg {
    pub fn as_str(self) -> (s: &'static str)
        ensures
            s@ == behavior_arg_text(self),
    {
        match self {
            BehaviorArg::Booting => "booting",
            BehaviorArg::Idle => "idle",
            BehaviorArg::Closing => "closing",
        }
    }
}

/// The name of a status in output.
pub open spec fn status_text(s: RuntimeStatus) -> Seq<char> {
    match s {
        RuntimeStatus::Running => "running"@,
        RuntimeStatus::Stopped => "stopped"@,
        RuntimeStatus::Stale => "stale"@,
    }
}

impl RuntimeStatus {
    pub fn as_str(self) -> (s: &'static str)
        ensures
            s@ == status_text(self),
    {
        match self {
            RuntimeStatus::Running => "running",
            RuntimeStatus::Stopped => "stopped",
            RuntimeStatus::Stale => "stale",
        }
    }
}

// ---------------------------------------------------------------------------
// Session records
// ---------------------------------------------------------------------------

/// A recorded session of a playground instance.
#[derive(Debug, Clone, PartialEq, Eq)]
pub struct StateRecord {
    pub playground: PlaygroundName,
    pub instance: String,
    pub namespace_prefix: Option<String>,
    pub log_path: String,
    pub session_id: String,
    pub pid: u32,
    pub started_at_ms: u128,
    pub binary_path: String,
}

/// A session record as text fields and numbers.
pub struct StateView {
    pub playground: PlaygroundName,
    pub instance: Seq<char>,
    pub namespace_prefix: Option<Seq<char>>,
    pub log_path: Seq<char>,
    pub session_id: Seq<char>,
    pub pid: u32,
    pub started_at_ms: u128,
    pub binary_path: Seq<char>,
}

impl View for StateRecord {
    type V = StateView;

    open spec fn view(&self) -> StateView {
        StateView {
            playground: self.playground,
            instance: self.instance@,
            namespace_prefix: match self.namespace_prefix {
                Some(p) => Some(p@),
                None => None,
            },
            log_path: self.log_path@,
            session_id: self.session_id@,
            pid: self.pid,
            started_at_ms: self.started_at_ms,
            binary_path: self.binary_path@,
        }
    }
}

/// The key and value of a `key=value` line (split at the first `=`).
pub open spec fn key_value(line: Seq<char>) -> Option<(Seq<char>, Seq<char>)> {
    match first_index_of(line, '=') {
        Some(k) => Some((line.take(k), line.skip(k + 1))),
        None => None,
    }
}

/// The value of the last line with the key.
pub open spec fn last_value(lines: Seq<Seq<char>>, key: Seq<char>) -> Option<Seq<char>>
    decreases lines.len(),
{
    if lines.len() == 0 {
        None
    } else {
        match key_value(lines.last()) {
            Some((k, v)) => if k == key {
                Some(v)
            } else {
                last_value(lines.drop_last(), key)
            },
            None => last_value(lines.drop_last(), key),
        }
    }
}

/// Whether a line names a playground other than `black-box`.
pub open spec fn names_unknown_playground(line: Seq<char>) -> bool {
    match key_value(line) {
        Some((k, v)) => k == "playground"@ && v != "black-box"@,
        None => false,
    }
}

/// The value of the first line that names an unknown playground.
pub open spec fn first_unknown_playground(lines: Seq<Seq<char>>) -> Option<Seq<char>>
    decreases lines.len(),
{
    if lines.len() == 0 {
        None
    } else {
        match first_unknown_playground(lines.drop_last()) {
            Some(v) => Some(v),
            None => if names_unknown_playground(lines.last()) {
                Some((key_value(lines.last())->0).1)
            } else {
                None
            },
        }
    }
}

/// A value or the empty text.
pub open spec fn or_empty(v: Option<Seq<char>>) -> Seq<char> {
    match v {
        Some(s) => s,
        None => seq![],
    }
}

/// A parsed number, or zero when the text is no number of the type.
pub open spec fn number_or_zero(v: Option<Seq<char>>, max: nat) -> nat {
    match v {
        Some(s) => match parse_unsigned(s, max) {
            Some(n) => n,
            None => 0,
        },
        None => 0,
    }
}

/// The record a state file holds. A line names its key before the first
/// `=`; the last line of each key counts; a file without a playground or
/// an instance holds no record; an empty namespace prefix means none; an
/// unparsable number reads as zero; a missing or empty binary path is the
/// default one. A line naming an unknown playground makes the file
/// unreadable, and the first such line is reported.
pub open spec fn parsed_state(source: Seq<char>, default_binary_path: Seq<char>) -> Result<
    Option<StateView>,
    Seq<char>,
> {
    let ls = lines(source);
    match first_unknown_playground(ls) {
        Some(name) => Err(name),
        None => if last_value(ls, "playground"@) is Some && last_value(ls, "instance"@) is Some {
            let binary = or_empty(last_value(ls, "binary_path"@));
            Ok(
                Some(
                    StateView {
                        playground: PlaygroundName::BlackBox,
                        instance: last_value(ls, "instance"@)->0,
                        namespace_prefix: match last_value(ls, "namespace_prefix"@) {
                            Some(v) => if v.len() == 0 {
                                None
                            } else {
                                Some(v)
                            },
                            None => None,
                        },
                        log_path: or_empty(last_value(ls, "log_path"@)),
                        session_id: or_empty(last_value(ls, "session_id"@)),
                        pid: number_or_zero(last_value(ls, "pid"@), u32::MAX as nat) as u32,
                        started_at_ms: number_or_zero(
                            last_value(ls, "started_at_ms"@),
                            u128::MAX as nat,
                        ) as u128,
                        binary_path: if binary.len() == 0 {
                            default_binary_path
                        } else {
                            binary
                        },
                    },
                ),
            )
        } else {
            Ok(None)
        },
    }
}

fn split_key_value(line: &str) -> (r: Option<(&str, &str)>)
    ensures
        r matches Some((k, v)) ==> key_value(line@) == Some((k@, v@)),
        r is None ==> key_value(line@) is None,
{
    let n = line.unicode_len();
    let mut i: usize = 0;
    while i < n
        invariant
            i <= n,
            n == line@.len(),
            forall|j: int| 0 <= j < i ==> line@[j] != '=',
        decreases n - i,
    {
        if line.get_char(i) == '=' {
            proof {
                lemma_first_index_of(line@, '=', i as int);
            }
            let k = line.substring_char(0, i);
            let v = line.substring_char(i + 1, n);
            assert(k@ =~= line@.take(i as int));
            assert(v@ =~= line@.skip(i + 1));
            return Some((k, v));
        }
        i = i + 1;
    }
    proof {
        lemma_first_index_of(line@, '=', n as int);
    }
    None
}

/// The fields of a state file as they are read so far.
struct StateFields {
    playground: bool,
    instance: Option<String>,
    namespace_prefix: Option<String>,
    log_path: Option<String>,
    session_id: Option<String>,
    pid: Option<String>,
    started_at_ms: Option<String>,
    binary_path: Option<String>,
}

spec fn opt_view(v: Option<String>) -> Option<Seq<char>> {
    match v {
        Some(s) => Some(s@),
        None => None,
    }
}

spec fn fields_match(f: StateFields, ls: Seq<Seq<char>>) -> bool {
    &&& f.playground == last_value(ls, "playground"@) is Some
    &&& opt_view(f.instance) == last_value(ls, "instance"@)
    &&& opt_view(f.namespace_prefix) == last_value(ls, "namespace_prefix"@)
    &&& opt_view(f.log_path) == last_value(ls, "log_path"@)
    &&& opt_view(f.session_id) == last_value(ls, "session_id"@)
    &&& opt_view(f.pid) == last_value(ls, "pid"@)
    &&& opt_view(f.started_at_ms) == last_value(ls, "started_at_ms"@)
    &&& opt_view(f.binary_path) == last_value(ls, "binary_path"@)
}

fn some_string(s: &str) -> (r: Option<String>)
    ensures
        opt_view(r) == Some(s@),
{
    Some(s.to_owned())
}

fn read_field(f: &mut StateFields, key: &str, value: &str)
    ensures
        key@ == "playground"@ ==> final(f).playground,
        key@ != "playground"@ ==> final(f).playground == old(f).playground,
        opt_view(final(f).instance) == if key@ == "instance"@ {
            Some(value@)
        } else {
            opt_view(old(f).instance)
        },
        opt_view(final(f).namespace_prefix) == if key@ == "namespace_prefix"@ {
            Some(value@)
        } else {
            opt_view(old(f).namespace_prefix)
        },
        opt_view(final(f).log_path) == if key@ == "log_path"@ {
            Some(value@)
        } else {
            opt_view(old(f).log_path)
        },
        opt_view(final(f).session_id) == if key@ == "session_id"@ {
            Some(value@)
        } else {
            opt_view(old(f).session_id)
        },
        opt_view(final(f).pid) == if key@ == "pid"@ {
            Some(value@)
        } else {
            opt_view(old(f).pid)
        },
        opt_view(final(f).started_at_ms) == if key@ == "started_at_ms"@ {
            Some(value@)
        } else {
            opt_view(old(f).started_at_ms)
        },
        opt_view(final(f).binary_path) == if key@ == "binary_path"@ {
            Some(value@)
        } else {
            opt_view(old(f).binary_path)
        },
{
    if str_equal(key, "playground") {
        f.playground = true;
    }
    if str_equal(key, "instance") {
        f.instance = some_string(value);
    }
    if str_equal(key, "namespace_prefix") {
        f.namespace_prefix = some_string(value);
    }
    if str_equal(key, "log_path") {
        f.log_path = some_string(value);
    }
    if str_equal(key, "session_id") {
        f.session_id = some_string(value);
    }
    if str_equal(key, "pid") {
        f.pid = some_string(value);
    }
    if str_equal(key, "started_at_ms") {
        f.started_at_ms = some_string(value);
    }
    if str_equal(key, "binary_path") {
        f.binary_path = some_string(value);
    }
}

fn text_or_empty(v: Option<String>) -> (s: String)
    ensures
        s@ == or_empty(opt_view(v)),
{
    match v {
        Some(s) => s,
        None => String::new(),
    }
}

fn number_field(v: &Option<String>, max: u128) -> (n: u128)
    ensures
        n as nat == number_or_zero(opt_view(*v), max as nat),
{
    match v {
        Some(s) => match parse_unsigned_u128(s.as_str(), max) {
            Some(n) => n,
            None => 0,
        },
        None => 0,
    }
}

/// Reads a session record back from the text of its state file.
/// `default_binary_path` is the path of the playground's binary, used when
/// the file names none.
pub fn parse_state_source(source: &str, default_binary_path: &str) -> (r: Result<
    Option<StateRecord>,
    DevError,
>)
    ensures
        match parsed_state(source@, default_binary_path@) {
            Ok(Some(v)) => r matches Ok(Some(rec)) && rec@ == v,
            Ok(None) => r matches Ok(None),
            Err(name) => r matches Err(DevError::UnsupportedPlayground(n)) && n@ == name,
        },
{
    let all = split_lines(source);
    let ghost ls = lines(source@);
    let mut fields = StateFields {
        playground: false,
        instance: None,
        namespace_prefix: None,
        log_path: None,
        session_id: None,
        pid: None,
        started_at_ms: None,
        binary_path: None,
    };
    let n = all.len();
    let mut i: usize = 0;
    assert(ls.take(0) =~= Seq::<Seq<char>>::empty());
    while i < n
        invariant
            i <= n,
            n == all@.len(),
            n == ls.len(),
            ls == lines(source@),
            forall|k: int| 0 <= k < n ==> #[trigger] all@[k]@ == ls[k],
            fields_match(fields, ls.take(i as int)),
            first_unknown_playground(ls.take(i as int)) is None,
        decreases n - i,
    {
        let line = all[i].as_str();
        let ghost prefix = ls.take(i as int);
        let ghost next = ls.take(i + 1);
        assert(next.drop_last() =~= prefix);
        assert(next.last() == line@);
        match split_key_value(line) {
            Some((key, value)) => {
                if str_equal(key, "playground") {
                    match PlaygroundName::from_str(value) {
                        Ok(_) => {},
                        Err(e) => {
                            assert(names_unknown_playground(line@));
                            assert(first_unknown_playground(next) == Some(value@));
                            proof {
                                lemma_first_unknown_prefix(ls, i + 1);
                            }
                            return Err(e);
                        },
                    }
                }
                read_field(&mut fields, key, value);
                assert(!names_unknown_playground(line@));
            },
            None => {},
        }
        assert(fields_match(fields, next));
        i = i + 1;
    }
    assert(ls.take(n as int) =~= ls);
    if !fields.playground {
        return Ok(None);
    }
    let instance = match fields.instance {
        Some(v) => v,
        None => {
            return Ok(None);
        },
    };
    let namespace_prefix = match fields.namespace_prefix {
        Some(v) => if v.as_str().unicode_len() == 0 {
            None
        } else {
            Some(v)
        },
        None => None,
    };
    let pid = number_field(&fields.pid, 0xffff_ffffu128) as u32;
    let started_at_ms = number_field(&fields.started_at_ms, u128::MAX);
    let log_path = text_or_empty(fields.log_path);
    let session_id = text_or_empty(fields.session_id);
    let binary = text_or_empty(fields.binary_path);
    let binary_path = if binary.as_str().unicode_len() == 0 {
        default_binary_path.to_owned()
    } else {
        binary
    };
    Ok(
        Some(
            StateRecord {
                playground: PlaygroundName::BlackBox,
                instance,
                namespace_prefix,
                log_path,
                session_id,
                pid,
                started_at_ms,
                binary_path,
            },
        ),
    )
}

proof fn lemma_first_unknown_prefix(ls: Seq<Seq<char>>, k: int)
    requires
        0 <= k <= ls.len(),
        first_unknown_playground(ls.take(k)) is Some,
    ensures
        first_unknown_playground(ls) == first_unknown_playground(ls.take(k)),
    decreases ls.len() - k,
{
    if k < ls.len() {
        assert(ls.take(k + 1).drop_last() =~= ls.take(k));
        lemma_first_unknown_prefix(ls, k + 1);
    } else {
        assert(ls.take(k) =~= ls);
    }
}

/// One `key=value` line without its line break.
pub open spec fn field_line(key: Seq<char>, value: Seq<char>) -> Seq<char> {
    key + "="@ + value
}

/// The eight lines of a state file, in order.
pub open spec fn state_lines(r: StateView) -> Seq<Seq<char>> {
    seq![
        field_line("playground"@, playground_text(r.playground)),
        field_line("instance"@, r.instance),
        field_line("namespace_prefix"@, or_empty(r.namespace_prefix)),
        field_line("log_path"@, r.log_path),
        field_line("session_id"@, r.session_id),
        field_line("pid"@, decimal(r.pid as nat)),
        field_line("started_at_ms"@, decimal(r.started_at_ms as nat)),
        field_line("binary_path"@, r.binary_path),
    ]
}

/// Lines, each followed by a line break.
pub open spec fn terminated(ls: Seq<Seq<char>>) -> Seq<char>
    decreases ls.len(),
{
    if ls.len() == 0 {
        seq![]
    } else {
        ls[0] + "\n"@ + terminated(ls.drop_first())
    }
}

/// The text of a state file: its lines, each followed by a line break.
pub open spec fn state_text(r: StateView) -> Seq<char> {
    terminated(state_lines(r))
}

proof fn lemma_terminated_push(ls: Seq<Seq<char>>, l: Seq<char>)
    ensures
        terminated(ls.push(l)) == terminated(ls) + l + "\n"@,
    decreases ls.len(),
{
    if ls.len() == 0 {
        assert(ls.push(l).drop_first() =~= Seq::<Seq<char>>::empty());
        assert(ls.push(l)[0] == l);
        assert(terminated(ls.push(l).drop_first()) == Seq::<char>::empty());
        assert(terminated(ls) == Seq::<char>::empty());
        assert(terminated(ls.push(l)) =~= terminated(ls) + l + "\n"@);
    } else {
        assert(ls.push(l).drop_first() =~= ls.drop_first().push(l));
        lemma_terminated_push(ls.drop_first(), l);
        assert(ls.push(l)[0] == ls[0]);
        assert(terminated(ls.push(l)) == ls[0] + "\n"@ + terminated(ls.drop_first().push(l)));
        assert(terminated(ls) == ls[0] + "\n"@ + terminated(ls.drop_first()));
        assert(terminated(ls.push(l)) =~= terminated(ls) + l + "\n"@);
    }
}

fn make_line(key: &str, value: &str) -> (s: String)
    ensures
        s@ == field_line(key@, value@),
{
    let mut s = String::new();
    s.append(key);
    s.append("=");
    s.append(value);
    s
}

fn terminated_text(ls: &Vec<String>) -> (s: String)
    ensures
        s@ == terminated(Seq::new(ls@.len(), |i: int| ls@[i]@)),
{
    let ghost views = Seq::new(ls@.len(), |i: int| ls@[i]@);
    let mut out = String::new();
    let n = ls.len();
    let mut i: usize = 0;
    assert(views.take(0) =~= Seq::<Seq<char>>::empty());
    while i < n
        invariant
            i <= n,
            n == ls@.len(),
            views == Seq::new(ls@.len(), |k: int| ls@[k]@),
            out@ == terminated(views.take(i as int)),
        decreases n - i,
    {
        out.append(ls[i].as_str());
        out.append("\n");
        proof {
            assert(views.take(i + 1) =~= views.take(i as int).push(views[i as int]));
            lemma_terminated_push(views.take(i as int), views[i as int]);
        }
        i = i + 1;
    }
    assert(views.take(n as int) =~= views);
    out
}

/// The text the supervisor writes to a session's state file.
pub fn state_source(record: &StateRecord) -> (s: String)
    ensures
        s@ == state_text(record@),
{
    let mut ls: Vec<String> = Vec::new();
    ls.push(make_line("playground", record.playground.as_str()));
    ls.push(make_line("instance", record.instance.as_str()));
    match &record.namespace_prefix {
        Some(p) => ls.push(make_line("namespace_prefix", p.as_str())),
        None => ls.push(make_line("namespace_prefix", "")),
    }
    ls.push(make_line("log_path", record.log_path.as_str()));
    ls.push(make_line("session_id", record.session_id.as_str()));
    let pid = decimal_string(record.pid as u128);
    ls.push(make_line("pid", pid.as_str()));
    let started = decimal_string(record.started_at_ms as u128);
    ls.push(make_line("started_at_ms", started.as_str()));
    ls.push(make_line("binary_path", record.binary_path.as_str()));
    proof {
        reveal_strlit("");
        assert(Seq::new(ls@.len(), |i: int| ls@[i]@) =~= state_lines(record@));
    }
    terminated_text(&ls)
}

/// The record a recorded session stands for, when it is the asked-for
/// playground instance.
pub fn matching_state(
    record: Option<StateRecord>,
    playground: PlaygroundName,
    instance: &str,
) -> (r: Option<StateRecord>)
    ensures
        match record {
            Some(rec) => if rec.playground == playground && rec.instance@ == instance@ {
                r == Some(rec)
            } else {
                r is None
            },
            None => r is None,
        },
{
    match record {
        Some(rec) => {
            if rec.playground == playground && str_equal(rec.instance.as_str(), instance) {
                Some(rec)
            } else {
                None
            }
        },
        None => None,
    }
}

/// The recorded session, or the failure that none is recorded.
pub fn require_state(
    playground: PlaygroundName,
    instance: &str,
    recorded: Option<StateRecord>,
) -> (r: Result<StateRecord, DevError>)
    ensures
        recorded matches Some(rec) ==> r == Ok::<StateRecord, DevError>(rec),
        recorded is None ==> (r matches Err(DevError::MissingState { playground: p, instance: i })
            && p == playground && i@ == instance@),
{
    match recorded {
        Some(rec) => Ok(rec),
        None => Err(DevError::MissingState { playground, instance: instance.to_owned() }),
    }
}

// ---------------------------------------------------------------------------
// Listing order
// ---------------------------------------------------------------------------

/// Whether text `a` comes before text `b`: compared character by character
/// by code point, a proper prefix first. This is the order of `str`, whose
/// UTF-8 bytes keep the code-point order.
pub open spec fn text_lt(a: Seq<char>, b: Seq<char>) -> bool
    decreases a.len(),
{
    if b.len() == 0 {
        false
    } else if a.len() == 0 {
        true
    } else if a[0] != b[0] {
        a[0] < b[0]
    } else {
        text_lt(a.drop_first(), b.drop_first())
    }
}

/// No text comes before itself.
pub proof fn lemma_text_lt_irreflexive(a: Seq<char>)
    ensures
        !text_lt(a, a),
    decreases a.len(),
{
    if a.len() > 0 {
        lemma_text_lt_irreflexive(a.drop_first());
    }
}

/// The order of texts is transitive.
pub proof fn lemma_text_lt_transitive(a: Seq<char>, b: Seq<char>, c: Seq<char>)
    requires
        text_lt(a, b),
        text_lt(b, c),
    ensures
        text_lt(a, c),
    decreases a.len(),
{
    if a.len() > 0 && b.len() > 0 && c.len() > 0 && a[0] == b[0] && b[0] == c[0] {
        lemma_text_lt_transitive(a.drop_first(), b.drop_first(), c.drop_first());
    }
}

/// Decides `text_lt`.
fn text_less(a: &str, b: &str) -> (r: bool)
    ensures
        r == text_lt(a@, b@),
{
    let na = a.unicode_len();
    let nb = b.unicode_len();
    let mut i: usize = 0;
    assert(a@.skip(0) =~= a@);
    assert(b@.skip(0) =~= b@);
    while i < na && i < nb
        invariant
            i <= na,
            i <= nb,
            na == a@.len(),
            nb == b@.len(),
            text_lt(a@, b@) == text_lt(a@.skip(i as int), b@.skip(i as int)),
        decreases na - i,
    {
        let ca = a.get_char(i);
        let cb = b.get_char(i);
        assert(a@.skip(i as int)[0] == ca);
        assert(b@.skip(i as int)[0] == cb);
        if ca != cb {
            return ca < cb;
        }
        assert(a@.skip(i as int).drop_first() =~= a@.skip(i + 1));
        assert(b@.skip(i as int).drop_first() =~= b@.skip(i + 1));
        i = i + 1;
    }
    i < nb
}

/// Whether records are listed by instance: no record comes after one
/// whose instance it precedes.
pub open spec fn listed_by_instance(s: Seq<StateRecord>) -> bool {
    forall|i: int, j: int|
        #![trigger s[i], s[j]]
        0 <= i < j < s.len() ==> !text_lt(s[j].instance@, s[i].instance@)
}

/// The records in listing order: the same records, ordered by instance;
/// records with the same instance keep their order.
pub fn sorted_records(records: Vec<StateRecord>) -> (r: Vec<StateRecord>)
    ensures
        r@.to_multiset() == records@.to_multiset(),
        listed_by_instance(r@),
{
    broadcast use vstd::seq_lib::group_to_multiset_ensures, vstd::multiset::group_multiset_axioms;

    let ghost input = records@;
    let mut rest = records;
    let mut out: Vec<StateRecord> = Vec::new();
    assert(out@.to_multiset() =~= vstd::multiset::Multiset::<StateRecord>::empty());
    assert(rest@.to_multiset().add(out@.to_multiset()) =~= input.to_multiset());
    while rest.len() > 0
        invariant
            rest@.to_multiset().add(out@.to_multiset()) == input.to_multiset(),
            listed_by_instance(out@),
        decreases rest.len(),
    {
        let ghost rest_before = rest@;
        let ghost out_before = out@;
        let x = rest.remove(0);
        let mut pos: usize = 0;
        while pos < out.len() && !text_less(x.instance.as_str(), out[pos].instance.as_str())
            invariant
                pos <= out@.len(),
                out@ == out_before,
                forall|j: int| 0 <= j < pos ==> !text_lt(x.instance@, #[trigger] out@[j].instance@),
            decreases out@.len() - pos,
        {
            pos = pos + 1;
        }
        let ghost key = x.instance@;
        out.insert(pos, x);
        proof {
            let s = out@;
            assert forall|i: int, j: int|
                #![trigger s[i], s[j]]
                0 <= i < j < s.len() implies !text_lt(s[j].instance@, s[i].instance@) by {
                if j < pos {
                    assert(s[i] == out_before[i] && s[j] == out_before[j]);
                } else if j == pos {
                    assert(s[i] == out_before[i]);
                } else if i < pos {
                    assert(s[i] == out_before[i] && s[j] == out_before[j - 1]);
                } else if i == pos {
                    assert(s[j] == out_before[j - 1]);
                    let next = out_before[pos as int].instance@;
                    if j - 1 > pos {
                        assert(!text_lt(out_before[j - 1].instance@, out_before[pos as int].instance@));
                    } else {
                        lemma_text_lt_irreflexive(next);
                    }
                    if text_lt(s[j].instance@, key) {
                        lemma_text_lt_transitive(s[j].instance@, key, next);
                    }
                } else {
                    assert(s[i] == out_before[i - 1] && s[j] == out_before[j - 1]);
                }
            }
            let x0 = rest_before[0];
            assert(rest_before.remove(0) =~= rest@);
            assert(out@ =~= out_before.insert(pos as int, x0));
            vstd::seq_lib::to_multiset_remove(rest_before, 0);
            vstd::seq_lib::to_multiset_insert(out_before, pos as int, x0);
            assert(rest@.to_multiset() == rest_before.to_multiset().remove(x0));
            assert(out@.to_multiset() == out_before.to_multiset().insert(x0));
            assert(rest_before.contains(x0));
            vstd::seq_lib::to_multiset_contains(rest_before, x0);
            assert(rest_before.to_multiset().count(x0) > 0);
            assert(rest_before.to_multiset().remove(rest_before[0]).add(
                out_before.to_multiset().insert(rest_before[0]),
            ) =~= rest_before.to_multiset().add(out_before.to_multiset()));
        }
    }
    assert(rest@.to_multiset() =~= vstd::multiset::Multiset::<StateRecord>::empty());
    assert(out@.to_multiset() =~= input.to_multiset());
    out
}

// ---------------------------------------------------------------------------
// Status
// ---------------------------------------------------------------------------

/// A status and, for a stale session, why.
#[derive(Debug, Clone, Copy, PartialEq, Eq)]
pub struct StatusFact {
    pub status: RuntimeStatus,
    pub stale_reason: Option<&'static str>,
}

/// A session is running when its playground answers an inspection; it is
/// stale when it does not, because its process no longer runs or because
/// the process cannot be reached; without a record it is stopped.
pub fn classify_status(state: Option<&StateRecord>, inspect_reachable: bool, pid_running: bool) -> (f:
    StatusFact)
    ensures
        state is None ==> f.status == RuntimeStatus::Stopped && f.stale_reason is None,
        state is Some && inspect_reachable ==> f.status == RuntimeStatus::Running
            && f.stale_reason is None,
        state is Some && !inspect_reachable && pid_running ==> (f.status == RuntimeStatus::Stale
            && (f.stale_reason matches Some(r) && r@ == "inspect-unreachable"@)),
        state is Some && !inspect_reachable && !pid_running ==> (f.status == RuntimeStatus::Stale
            && (f.stale_reason matches Some(r) && r@ == "pid-not-running"@)),
{
    match state {
        None => StatusFact { status: RuntimeStatus::Stopped, stale_reason: None },
        Some(_) => {
            if inspect_reachable {
                StatusFact { status: RuntimeStatus::Running, stale_reason: None }
            } else if pid_running {
                StatusFact { status: RuntimeStatus::Stale, stale_reason: Some("inspect-unreachable") }
            } else {
                StatusFact { status: RuntimeStatus::Stale, stale_reason: Some("pid-not-running") }
            }
        },
    }
}

// ---------------------------------------------------------------------------
// Log tails
// ---------------------------------------------------------------------------

/// The last `limit` lines of a text, joined by newlines, with a final
/// newline when the text ends with one and the tail is not empty.
pub open spec fn tail_text(contents: Seq<char>, limit: nat) -> Seq<char> {
    if limit == 0 {
        seq![]
    } else {
        let ls = lines(contents);
        let start = if ls.len() > limit {
            ls.len() - limit
        } else {
            0
        };
        let out = joined(ls.skip(start), "\n"@);
        if contents.len() > 0 && contents.last() == '\n' && out.len() > 0 {
            out.push('\n')
        } else {
            out
        }
    }
}

/// The tail of a log.
pub fn tail_lines(contents: &str, limit: usize) -> (s: String)
    ensures
        s@ == tail_text(contents@, limit as nat),
{
    if limit == 0 {
        return String::new();
    }
    let all = split_lines(contents);
    let ghost ls = lines(contents@);
    let n = all.len();
    let start = if n > limit {
        n - limit
    } else {
        0
    };
    let mut tail: Vec<String> = Vec::new();
    let mut i = start;
    while i < n
        invariant
            start <= i <= n,
            n == all@.len(),
            n == ls.len(),
            forall|k: int| 0 <= k < n ==> #[trigger] all@[k]@ == ls[k],
            tail@.len() == i - start,
            forall|k: int| 0 <= k < tail@.len() ==> #[trigger] tail@[k]@ == ls[start + k],
        decreases n - i,
    {
        tail.push(all[i].clone());
        i = i + 1;
    }
    let mut out = join_items(&tail, "\n");
    assert(Seq::new(tail@.len(), |k: int| tail@[k]@) =~= ls.skip(start as int));
    let len = contents.unicode_len();
    if len > 0 && contents.get_char(len - 1) == '\n' && out.as_str().unicode_len() > 0 {
        out.push('\n');
    }
    out
}


// ---------------------------------------------------------------------------
// Laws of the log tail
// ---------------------------------------------------------------------------

/// Whether a text holds no carriage return.
pub open spec fn no_cr(s: Seq<char>) -> bool {
    forall|i: int| 0 <= i < s.len() ==> s[i] != '\r'
}

/// Whether a text ends with a line feed.
pub open spec fn ends_with_newline(s: Seq<char>) -> bool {
    s.len() > 0 && s.last() == '\n'
}

/// Whether `t` is a suffix of `s`.
pub open spec fn is_suffix(t: Seq<char>, s: Seq<char>) -> bool {
    t.len() <= s.len() && s.subrange(s.len() - t.len(), s.len() as int) == t
}

proof fn lemma_first_index_facts(s: Seq<char>, c: char)
    ensures
        first_index_of(s, c) matches Some(k) ==> 0 <= k < s.len() && s[k] == c && forall|j: int|
            0 <= j < k ==> s[j] != c,
        first_index_of(s, c) is None ==> forall|j: int| 0 <= j < s.len() ==> s[j] != c,
    decreases s.len(),
{
    if s.len() > 0 && s[0] != c {
        lemma_first_index_facts(s.drop_first(), c);
        assert forall|j: int| 1 <= j < s.len() implies s[j] == s.drop_first()[j - 1] by {}
    }
}

proof fn lemma_joined_cons(a: Seq<char>, rest: Seq<Seq<char>>, sep: Seq<char>)
    ensures
        joined(seq![a] + rest, sep) == if rest.len() == 0 {
            a
        } else {
            a + sep + joined(rest, sep)
        },
    decreases rest.len(),
{
    let all = seq![a] + rest;
    if rest.len() == 1 {
        assert(all.drop_last() =~= seq![a]);
        assert(all.last() == rest[0]);
        assert(joined(rest, sep) == rest[0]);
        assert(joined(all.drop_last(), sep) == a);
        assert(joined(all, sep) == joined(all.drop_last(), sep) + sep + all.last());
    } else if rest.len() > 1 {
        lemma_joined_cons(a, rest.drop_last(), sep);
        assert(all.drop_last() =~= seq![a] + rest.drop_last());
        assert(all.last() == rest.last());
        assert(joined(all, sep) == joined(all.drop_last(), sep) + sep + all.last());
        assert(joined(rest, sep) == joined(rest.drop_last(), sep) + sep + rest.last());
        assert(joined(all, sep) =~= a + sep + joined(rest, sep));
    } else {
        assert(all =~= seq![a]);
    }
}

proof fn lemma_lines_nonempty(s: Seq<char>)
    ensures
        s.len() > 0 <==> lines(s).len() > 0,
{
    if s.len() > 0 {
        lemma_first_index_facts(s, '\n');
    }
}

/// The lines of a text without carriage returns, joined by line feeds,
/// give the text back without its final line feed.
proof fn lemma_joined_lines(s: Seq<char>)
    requires
        no_cr(s),
    ensures
        joined(lines(s), "\n"@) == if ends_with_newline(s) {
            s.drop_last()
        } else {
            s
        },
    decreases s.len(),
{
    reveal_strlit("\n");
    if s.len() > 0 {
        lemma_first_index_facts(s, '\n');
        match first_index_of(s, '\n') {
            Some(k) => {
                let line = s.take(k);
                let rest = s.skip(k + 1);
                assert(strip_cr(line) == line) by {
                    if line.len() > 0 {
                        assert(line.last() == s[k - 1]);
                    }
                }
                assert(lines(s) == seq![line] + lines(rest));
                lemma_joined_cons(line, lines(rest), "\n"@);
                lemma_lines_nonempty(rest);
                if rest.len() == 0 {
                    assert(s.drop_last() =~= line);
                } else {
                    assert(no_cr(rest)) by {
                        assert forall|i: int| 0 <= i < rest.len() implies rest[i] != '\r' by {
                            assert(rest[i] == s[i + k + 1]);
                        }
                    }
                    lemma_joined_lines(rest);
                    assert(rest.last() == s.last());
                    if ends_with_newline(s) {
                        assert(s.drop_last() =~= line + "\n"@ + rest.drop_last());
                    } else {
                        assert(s =~= line + "\n"@ + rest);
                    }
                }
            },
            None => {
                assert(lines(s) == seq![s]);
                assert(joined(seq![s], "\n"@) == s);
            },
        }
    }
}

/// What is left of a text once its first `j` lines are taken off.
pub open spec fn after_lines(s: Seq<char>, j: int) -> Seq<char>
    decreases j,
{
    if j <= 0 || s.len() == 0 {
        s
    } else {
        match first_index_of(s, '\n') {
            Some(k) => if 0 <= k < s.len() {
                after_lines(s.skip(k + 1), j - 1)
            } else {
                s
            },
            None => seq![],
        }
    }
}

proof fn lemma_after_lines(s: Seq<char>, j: int)
    requires
        no_cr(s),
        0 <= j <= lines(s).len(),
    ensures
        lines(after_lines(s, j)) == lines(s).skip(j),
        is_suffix(after_lines(s, j), s),
        no_cr(after_lines(s, j)),
        after_lines(s, j).len() > 0 ==> ends_with_newline(after_lines(s, j)) == ends_with_newline(s),
    decreases j,
{
    let t = after_lines(s, j);
    if j == 0 || s.len() == 0 {
        assert(lines(s).skip(0) =~= lines(s));
        assert(s.subrange(0, s.len() as int) =~= s);
    } else {
        lemma_first_index_facts(s, '\n');
        match first_index_of(s, '\n') {
            Some(k) => {
                let rest = s.skip(k + 1);
                assert(lines(s) == seq![strip_cr(s.take(k))] + lines(rest));
                assert(no_cr(rest)) by {
                    assert forall|i: int| 0 <= i < rest.len() implies rest[i] != '\r' by {
                        assert(rest[i] == s[i + k + 1]);
                    }
                }
                lemma_after_lines(rest, j - 1);
                assert(lines(s).skip(j) =~= lines(rest).skip(j - 1));
                assert(t == after_lines(rest, j - 1));
                assert(s.subrange(s.len() - t.len(), s.len() as int) =~= rest.subrange(
                    rest.len() - t.len(),
                    rest.len() as int,
                ));
                if t.len() > 0 {
                    assert(rest.last() == s.last());
                }
            },
            None => {
                assert(lines(s) == seq![s]);
                assert(lines(s).skip(j) =~= Seq::<Seq<char>>::empty());
                assert(t == Seq::<char>::empty());
                assert(lines(t) =~= Seq::<Seq<char>>::empty());
                assert(s.subrange(s.len() as int, s.len() as int) =~= t);
            },
        }
    }
}

/// The tail of a log without carriage returns is a suffix of the log;
/// unless it is empty, its lines are exactly the log's last `limit` lines
/// (all of them, when there are fewer), blank lines included; and with a
/// limit that covers every line, the tail is the whole log (but for a log
/// that is one bare line feed).
pub proof fn lemma_tail_is_last_lines(contents: Seq<char>, limit: nat)
    requires
        no_cr(contents),
    ensures
        is_suffix(tail_text(contents, limit), contents),
        tail_text(contents, limit).len() > 0 ==> lines(tail_text(contents, limit)) == lines(
            contents,
        ).skip(
            if lines(contents).len() > limit {
                lines(contents).len() - limit
            } else {
                0
            },
        ),
        limit > 0 && limit >= lines(contents).len() && contents != "\n"@ ==> tail_text(
            contents,
            limit,
        ) == contents,
{
    reveal_strlit("\n");
    if limit == 0 {
        assert(contents.subrange(contents.len() as int, contents.len() as int) =~= Seq::<char>::empty());
    } else {
        let ls = lines(contents);
        let start: int = if ls.len() > limit {
            ls.len() - limit
        } else {
            0
        };
        let t = after_lines(contents, start);
        lemma_after_lines(contents, start);
        lemma_joined_lines(t);
        let out = joined(ls.skip(start), "\n"@);
        assert(out == joined(lines(t), "\n"@));
        let tail = tail_text(contents, limit);
        if t.len() == 0 {
            assert(out =~= Seq::<char>::empty());
            assert(tail == out);
            assert(contents.subrange(contents.len() as int, contents.len() as int) =~= tail);
        } else if ends_with_newline(contents) {
            if out.len() > 0 {
                assert(tail == out.push('\n'));
                assert(tail =~= t);
            } else {
                assert(tail == out);
                assert(contents.subrange(contents.len() as int, contents.len() as int) =~= tail);
                assert(t =~= seq!['\n']);
            }
        } else {
            assert(tail == out);
            assert(tail == t);
        }
        if limit >= ls.len() {
            assert(start == 0);
            assert(t == contents);
            if ends_with_newline(contents) && out.len() == 0 {
                assert(contents =~= "\n"@);
            }
        }
    }
}

// ---------------------------------------------------------------------------
// File names, paths and identifiers
// ---------------------------------------------------------------------------

/// An instance name made safe for a file name: characters outside
/// letters, digits, `-`, `_` and `.` become `_`.
pub fn sanitize(value: &str) -> (s: String)
    ensures
        s@ == sanitized(value@),
{
    sanitize_chars(value)
}

/// `<playground>--<instance>.state`.
pub open spec fn state_file_text(playground: PlaygroundName, instance: Seq<char>) -> Seq<char> {
    playground_text(playground) + "--"@ + sanitized(instance) + ".state"@
}

/// `<playground>--<instance>--<session>.log`.
pub open spec fn log_file_text(
    playground: PlaygroundName,
    instance: Seq<char>,
    session_id: Seq<char>,
) -> Seq<char> {
    playground_text(playground) + "--"@ + sanitized(instance) + "--"@ + session_id + ".log"@
}

pub fn state_file_name(playground: PlaygroundName, instance: &str) -> (s: String)
    ensures
        s@ == state_file_text(playground, instance@),
{
    let mut s = String::new();
    s.append(playground.as_str());
    s.append("--");
    let i = sanitize(instance);
    s.append(i.as_str());
    s.append(".state");
    assert(s@ =~= state_file_text(playground, instance@));
    s
}

pub fn log_file_name(playground: PlaygroundName, instance: &str, session_id: &str) -> (s: String)
    ensures
        s@ == log_file_text(playground, instance@, session_id@),
{
    let mut s = String::new();
    s.append(playground.as_str());
    s.append("--");
    let i = sanitize(instance);
    s.append(i.as_str());
    s.append("--");
    s.append(session_id);
    s.append(".log");
    assert(s@ =~= log_file_text(playground, instance@, session_id@));
    s
}

/// A path below the repository root, as its components.
#[derive(Debug, Clone, PartialEq, Eq)]
pub struct DevPath {
    pub segments: Vec<String>,
}

/// The components of a path.
pub open spec fn path_view(p: DevPath) -> Seq<Seq<char>> {
    Seq::new(p.segments@.len(), |i: int| p.segments@[i]@)
}

fn path_of(segments: Vec<String>) -> (p: DevPath)
    ensures
        p.segments == segments,
{
    DevPath { segments }
}

/// `target/debug`.
pub fn target_debug_dir() -> (p: DevPath)
    ensures
        path_view(p) == seq!["target"@, "debug"@],
{
    let mut v = Vec::new();
    v.push("target".to_owned());
    v.push("debug".to_owned());
    let p = path_of(v);
    assert(path_view(p) =~= seq!["target"@, "debug"@]);
    p
}

/// `.tmp/stui-dev`.
pub fn dev_runtime_root() -> (p: DevPath)
    ensures
        path_view(p) == seq![".tmp"@, "stui-dev"@],
{
    let mut v = Vec::new();
    v.push(".tmp".to_owned());
    v.push("stui-dev".to_owned());
    let p = path_of(v);
    assert(path_view(p) =~= seq![".tmp"@, "stui-dev"@]);
    p
}

fn joined_path(base: DevPath, last: String) -> (p: DevPath)
    ensures
        path_view(p) == path_view(base).push(last@),
{
    let mut v = base.segments;
    v.push(last);
    let p = path_of(v);
    assert(path_view(p) =~= path_view(base).push(last@));
    p
}

/// `.tmp/stui-dev/state`.
pub fn state_dir() -> (p: DevPath)
    ensures
        path_view(p) == seq![".tmp"@, "stui-dev"@, "state"@],
{
    let p = joined_path(dev_runtime_root(), "state".to_owned());
    assert(path_view(p) =~= seq![".tmp"@, "stui-dev"@, "state"@]);
    p
}

/// `.tmp/stui-dev/logs`.
pub fn log_dir() -> (p: DevPath)
    ensures
        path_view(p) == seq![".tmp"@, "stui-dev"@, "logs"@],
{
    let p = joined_path(dev_runtime_root(), "logs".to_owned());
    assert(path_view(p) =~= seq![".tmp"@, "stui-dev"@, "logs"@]);
    p
}

/// The state file of a playground instance.
pub fn state_path(playground: PlaygroundName, instance: &str) -> (p: DevPath)
    ensures
        path_view(p) == seq![".tmp"@, "stui-dev"@, "state"@, state_file_text(playground, instance@)],
{
    let p = joined_path(state_dir(), state_file_name(playground, instance));
    assert(path_view(p) =~= seq![
        ".tmp"@,
        "stui-dev"@,
        "state"@,
        state_file_text(playground, instance@),
    ]);
    p
}

/// The log file of a session of a playground instance.
pub fn log_path(playground: PlaygroundName, instance: &str, session_id: &str) -> (p: DevPath)
    ensures
        path_view(p) == seq![
            ".tmp"@,
            "stui-dev"@,
            "logs"@,
            log_file_text(playground, instance@, session_id@),
        ],
{
    let p = joined_path(log_dir(), log_file_name(playground, instance, session_id));
    assert(path_view(p) =~= seq![
        ".tmp"@,
        "stui-dev"@,
        "logs"@,
        log_file_text(playground, instance@, session_id@),
    ]);
    p
}

/// The playground's binary in the debug build directory; `exe_suffix` is
/// the platform's executable suffix.
pub fn playground_binary_path(playground: PlaygroundName, exe_suffix: &str) -> (p: DevPath)
    ensures
        path_view(p) == seq!["target"@, "debug"@, "stui-playground-black-box"@ + exe_suffix@],
{
    let mut name = playground.binary_name().to_owned();
    name.append(exe_suffix);
    let p = joined_path(target_debug_dir(), name);
    assert(path_view(p) =~= seq!["target"@, "debug"@, "stui-playground-black-box"@ + exe_suffix@]);
    p
}

/// A session id: the start time in milliseconds, in decimal.
pub fn create_session_id(now_ms: u128) -> (s: String)
    ensures
        s@ == decimal(now_ms as nat),
{
    decimal_string(now_ms)
}

/// The supervisor's namespace prefix from the value of its variable:
/// trimmed, and none when blank.
pub fn dev_namespace_prefix(env_value: Option<&str>) -> (p: Option<String>)
    ensures
        match env_value {
            Some(v) => if trimmed(v@).len() == 0 {
                p is None
            } else {
                p matches Some(s) && s@ == trimmed(v@)
            },
            None => p is None,
        },
{
    match env_value {
        Some(v) => {
            let t = trim(v);
            if t.unicode_len() == 0 {
                None
            } else {
                Some(t.to_owned())
            }
        },
        None => None,
    }
}

// ---------------------------------------------------------------------------
// Command lines
// ---------------------------------------------------------------------------

/// The views of a list of strings.
pub open spec fn string_views(v: Seq<String>) -> Seq<Seq<char>> {
    Seq::new(v.len(), |i: int| v[i]@)
}

fn strings_of(items: &[&str]) -> (v: Vec<String>)
    ensures
        string_views(v@) == crate::ipc::str_views(items@),
{
    let mut v: Vec<String> = Vec::new();
    let n = items.len();
    let mut i: usize = 0;
    while i < n
        invariant
            i <= n,
            n == items@.len(),
            string_views(v@) =~= crate::ipc::str_views(items@.take(i as int)),
            v@.len() == i,
        decreases n - i,
    {
        let item = String::from_str(items[i]);
        let ghost before = v@;
        v.push(item);
        assert(v@[i as int]@ == items@[i as int]@);
        assert forall|k: int| 0 <= k < i + 1 implies #[trigger] string_views(v@)[k] == crate::ipc::str_views(items@.take(i + 1))[k] by {
            if k < i {
                assert(v@[k] == before[k]);
                assert(string_views(before)[k] == crate::ipc::str_views(items@.take(i as int))[k]);
            }
        }
        assert(string_views(v@) =~= crate::ipc::str_views(items@.take(i + 1)));
        i = i + 1;
    }
    assert(items@.take(n as int) =~= items@);
    v
}

/// `build -p <package> --bin <binary>`.
pub fn build_args(playground: PlaygroundName) -> (v: Vec<String>)
    ensures
        string_views(v@) == seq![
            "build"@,
            "-p"@,
            "stui-playground-black-box"@,
            "--bin"@,
            "stui-playground-black-box"@,
        ],
{
    let items = [
        "build",
        "-p",
        playground.package_name(),
        "--bin",
        playground.binary_name(),
    ];
    let v = strings_of(&items);
    assert(string_views(v@) =~= seq![
        "build"@,
        "-p"@,
        "stui-playground-black-box"@,
        "--bin"@,
        "stui-playground-black-box"@,
    ]);
    v
}

/// `--namespace-prefix <prefix>` when the supervisor has a namespace
/// prefix, and nothing otherwise.
pub open spec fn namespace_args(namespace_prefix: Option<Seq<char>>) -> Seq<Seq<char>> {
    match namespace_prefix {
        Some(p) => seq!["--namespace-prefix"@, p],
        None => seq![],
    }
}

/// The view of an optional text.
pub open spec fn opt_str_view(v: Option<&str>) -> Option<Seq<char>> {
    match v {
        Some(s) => Some(s@),
        None => None,
    }
}

fn push_namespace_args(v: &mut Vec<String>, namespace_prefix: Option<&str>)
    ensures
        string_views(final(v)@) == string_views(old(v)@) + namespace_args(opt_str_view(namespace_prefix)),
{
    let ghost before = string_views(v@);
    match namespace_prefix {
        Some(p) => {
            v.push("--namespace-prefix".to_owned());
            v.push(p.to_owned());
        },
        None => {},
    }
    assert(string_views(v@) =~= before + namespace_args(opt_str_view(namespace_prefix)));
}

/// `serve --instance <instance>`, then `--namespace-prefix <prefix>` when
/// the supervisor has a namespace prefix, then `--behavior <phase>` when a
/// phase is forced.
pub fn serve_args(instance: &str, behavior: Option<BehaviorArg>, namespace_prefix: Option<&str>) -> (v:
    Vec<String>)
    ensures
        string_views(v@) == seq!["serve"@, "--instance"@, instance@] + namespace_args(
            opt_str_view(namespace_prefix),
        ) + match behavior {
            Some(b) => seq!["--behavior"@, behavior_arg_text(b)],
            None => seq![],
        },
{
    let mut v: Vec<String> = Vec::new();
    v.push("serve".to_owned());
    v.push("--instance".to_owned());
    v.push(instance.to_owned());
    assert(string_views(v@) =~= seq!["serve"@, "--instance"@, instance@]);
    push_namespace_args(&mut v, namespace_prefix);
    let ghost mid = string_views(v@);
    match behavior {
        Some(b) => {
            v.push("--behavior".to_owned());
            v.push(b.as_str().to_owned());
        },
        None => {},
    }
    assert(string_views(v@) =~= mid + match behavior {
        Some(b) => seq!["--behavior"@, behavior_arg_text(b)],
        None => seq![],
    });
    v
}

/// `request --instance <instance>`, the namespace arguments, then `rest`.
fn request_args(instance: &str, namespace_prefix: Option<&str>, rest: &[&str]) -> (v: Vec<String>)
    ensures
        string_views(v@) == seq!["request"@, "--instance"@, instance@] + namespace_args(
            opt_str_view(namespace_prefix),
        ) + crate::ipc::str_views(rest@),
{
    let mut v: Vec<String> = Vec::new();
    v.push("request".to_owned());
    v.push("--instance".to_owned());
    v.push(instance.to_owned());
    assert(string_views(v@) =~= seq!["request"@, "--instance"@, instance@]);
    push_namespace_args(&mut v, namespace_prefix);
    let ghost base = string_views(v@);
    let n = rest.len();
    let mut i: usize = 0;
    assert(crate::ipc::str_views(rest@.take(0)) =~= Seq::<Seq<char>>::empty());
    assert(string_views(v@) =~= base + crate::ipc::str_views(rest@.take(0)));
    while i < n
        invariant
            i <= n,
            n == rest@.len(),
            string_views(v@) =~= base + crate::ipc::str_views(rest@.take(i as int)),
        decreases n - i,
    {
        let ghost b = v@;
        v.push(rest[i].to_owned());
        proof {
            assert(string_views(v@) =~= string_views(b).push(rest@[i as int]@));
            assert(crate::ipc::str_views(rest@.take(i + 1)) =~= crate::ipc::str_views(
                rest@.take(i as int),
            ).push(rest@[i as int]@));
        }
        i = i + 1;
    }
    assert(rest@.take(n as int) =~= rest@);
    v
}

/// `request --instance <instance> [--namespace-prefix <prefix>] inspect`.
pub fn inspect_request_args(instance: &str, namespace_prefix: Option<&str>) -> (v: Vec<String>)
    ensures
        string_views(v@) == seq!["request"@, "--instance"@, instance@] + namespace_args(
            opt_str_view(namespace_prefix),
        ) + seq!["inspect"@],
{
    control_request_args(instance, namespace_prefix, "inspect")
}

/// `request --instance <instance> [--namespace-prefix <prefix>] <request>`.
pub fn control_request_args(instance: &str, namespace_prefix: Option<&str>, request: &str) -> (v:
    Vec<String>)
    ensures
        string_views(v@) == seq!["request"@, "--instance"@, instance@] + namespace_args(
            opt_str_view(namespace_prefix),
        ) + seq![request@],
{
    let items = [request];
    let v = request_args(instance, namespace_prefix, &items);
    assert(crate::ipc::str_views(items@) =~= seq![request@]);
    v
}

/// `request --instance <instance> [--namespace-prefix <prefix>] --surface
/// events <request>`.
pub fn events_request_args(instance: &str, namespace_prefix: Option<&str>, request: &str) -> (v:
    Vec<String>)
    ensures
        string_views(v@) == seq!["request"@, "--instance"@, instance@] + namespace_args(
            opt_str_view(namespace_prefix),
        ) + seq!["--surface"@, "events"@, request@],
{
    let items = ["--surface", "events", request];
    let v = request_args(instance, namespace_prefix, &items);
    assert(crate::ipc::str_views(items@) =~= seq!["--surface"@, "events"@, request@]);
    v
}

/// The detail of a failed command: its output, trimmed, with ` | `
/// between them when `separate` holds.
pub open spec fn output_detail(stdout: Seq<char>, stderr: Seq<char>, separate: bool) -> Seq<char> {
    trimmed(stdout) + (if separate {
        " | "@
    } else {
        seq![]
    }) + trimmed(stderr)
}

fn detail_text(stdout: &str, stderr: &str, separate: bool) -> (s: String)
    ensures
        s@ == output_detail(stdout@, stderr@, separate),
{
    let mut s = trim(stdout).to_owned();
    if separate {
        s.append(" | ");
    }
    s.append(trim(stderr));
    assert(s@ =~= output_detail(stdout@, stderr@, separate));
    s
}

/// The message of a failed build: both outputs, separated when neither
/// is empty before trimming.
pub fn build_failure_message(stdout: &str, stderr: &str) -> (s: String)
    ensures
        s@ == "build failed: "@ + output_detail(
            stdout@,
            stderr@,
            stdout@.len() > 0 && stderr@.len() > 0,
        ),
{
    let separate = stdout.unicode_len() > 0 && stderr.unicode_len() > 0;
    let mut s = String::new();
    s.append("build failed: ");
    let d = detail_text(stdout, stderr, separate);
    s.append(d.as_str());
    s
}

/// The message of a failed playground request: both outputs, separated
/// when neither is empty after trimming.
pub fn request_failure_message(stdout: &str, stderr: &str) -> (s: String)
    ensures
        s@ == "playground command failed: "@ + output_detail(
            stdout@,
            stderr@,
            trimmed(stdout@).len() > 0 && trimmed(stderr@).len() > 0,
        ),
{
    let separate = trim(stdout).unicode_len() > 0 && trim(stderr).unicode_len() > 0;
    let mut s = String::new();
    s.append("playground command failed: ");
    let d = detail_text(stdout, stderr, separate);
    s.append(d.as_str());
    s
}

// ---------------------------------------------------------------------------
// Report lines
// ---------------------------------------------------------------------------

/// A namespace prefix in output, `<default>` when there is none.
pub open spec fn namespace_text(p: Option<Seq<char>>) -> Seq<char> {
    match p {
        Some(s) => s,
        None => "<default>"@,
    }
}

/// The status line of a recorded session.
pub open spec fn status_line_text(f: StatusFact, r: StateView) -> Seq<char> {
    "status="@ + status_text(f.status) + " playground="@ + playground_text(r.playground)
        + " instance="@ + r.instance + " session="@ + r.session_id + " namespace="@
        + namespace_text(r.namespace_prefix) + " pid="@ + decimal(r.pid as nat)
        + " started_at_ms="@ + decimal(r.started_at_ms as nat) + " log="@ + r.log_path + match f.stale_reason {
        Some(reason) => " stale_reason="@ + reason@,
        None => seq![],
    }
}

fn push_namespace(out: &mut String, p: &Option<String>)
    ensures
        final(out)@ == old(out)@ + namespace_text(
            match *p {
                Some(s) => Some(s@),
                None => None,
            },
        ),
{
    match p {
        Some(s) => out.append(s.as_str()),
        None => out.append("<default>"),
    }
}

/// The status line of a recorded session.
pub fn status_line(fact: StatusFact, record: &StateRecord) -> (s: String)
    ensures
        s@ == status_line_text(fact, record@),
{
    let mut out = String::new();
    out.append("status=");
    out.append(fact.status.as_str());
    out.append(" playground=");
    out.append(record.playground.as_str());
    out.append(" instance=");
    out.append(record.instance.as_str());
    out.append(" session=");
    out.append(record.session_id.as_str());
    out.append(" namespace=");
    push_namespace(&mut out, &record.namespace_prefix);
    out.append(" pid=");
    push_decimal(&mut out, record.pid as u128);
    out.append(" started_at_ms=");
    push_decimal(&mut out, record.started_at_ms as u128);
    out.append(" log=");
    out.append(record.log_path.as_str());
    let ghost mid = out@;
    match fact.stale_reason {
        Some(reason) => {
            out.append(" stale_reason=");
            out.append(reason);
        },
        None => {},
    }
    assert(out@ =~= status_line_text(fact, record@));
    out
}

/// The line for an instance with no recorded session.
pub fn stopped_line(playground: PlaygroundName, instance: &str) -> (s: String)
    ensures
        s@ == "status=stopped playground="@ + playground_text(playground) + " instance="@ + instance@,
{
    let mut out = String::new();
    out.append("status=stopped playground=");
    out.append(playground.as_str());
    out.append(" instance=");
    out.append(instance);
    out
}

/// How many sessions are running and how many are stale.
pub open spec fn count_status(facts: Seq<StatusFact>, status: RuntimeStatus) -> nat
    decreases facts.len(),
{
    if facts.len() == 0 {
        0
    } else {
        count_status(facts.drop_last(), status) + if facts.last().status == status {
            1nat
        } else {
            0nat
        }
    }
}

/// The report of `status-all`: one status line per session, then a
/// summary of running and stale sessions; `status=empty` without sessions.
pub open spec fn status_all_text(records: Seq<StateView>, facts: Seq<StatusFact>) -> Seq<Seq<char>> {
    if records.len() == 0 {
        seq!["status=empty"@]
    } else {
        let running = count_status(facts, RuntimeStatus::Running);
        let stale = count_status(facts, RuntimeStatus::Stale);
        Seq::new(records.len(), |i: int| status_line_text(facts[i], records[i])).push(
            "summary running="@ + decimal(running) + " stale="@ + decimal(stale) + " total="@
                + decimal(running + stale),
        )
    }
}

/// The lines `status-all` prints for the recorded sessions and their
/// statuses.
pub fn status_all_report(records: &Vec<StateRecord>, facts: &Vec<StatusFact>) -> (lines_out: Vec<String>)
    requires
        records@.len() == facts@.len(),
    ensures
        string_views(lines_out@) == status_all_text(
            Seq::new(records@.len(), |i: int| records@[i]@),
            facts@,
        ),
{
    let ghost recs = Seq::new(records@.len(), |i: int| records@[i]@);
    let mut out: Vec<String> = Vec::new();
    if records.len() == 0 {
        out.push("status=empty".to_owned());
        assert(string_views(out@) =~= seq!["status=empty"@]);
        return out;
    }
    let n = records.len();
    let mut running: u64 = 0;
    let mut stale: u64 = 0;
    let mut i: usize = 0;
    while i < n
        invariant
            i <= n,
            n == records@.len(),
            n == facts@.len(),
            recs == Seq::new(records@.len(), |k: int| records@[k]@),
            running as nat == count_status(facts@.take(i as int), RuntimeStatus::Running),
            stale as nat == count_status(facts@.take(i as int), RuntimeStatus::Stale),
            running + stale <= i,
            string_views(out@) =~= Seq::new(i as nat, |k: int| status_line_text(facts@[k], recs[k])),
            out@.len() == i,
        decreases n - i,
    {
        let fact = facts[i];
        assert(facts@.take(i + 1).drop_last() =~= facts@.take(i as int));
        match fact.status {
            RuntimeStatus::Running => {
                running = running + 1;
            },
            RuntimeStatus::Stale => {
                stale = stale + 1;
            },
            RuntimeStatus::Stopped => {},
        }
        let line = status_line(fact, &records[i]);
        let ghost before = out@;
        out.push(line);
        assert(recs[i as int] == records@[i as int]@);
        assert(out@[i as int]@ == status_line_text(facts@[i as int], recs[i as int]));
        assert forall|k: int| 0 <= k < i + 1 implies #[trigger] string_views(out@)[k] == status_line_text(facts@[k], recs[k]) by {
            if k < i {
                assert(out@[k] == before[k]);
                assert(string_views(before)[k] == Seq::new(i as nat, |k: int| status_line_text(facts@[k], recs[k]))[k]);
            }
        }
        assert(string_views(out@) =~= Seq::new((i + 1) as nat, |k: int| status_line_text(facts@[k], recs[k])));
        i = i + 1;
    }
    assert(facts@.take(n as int) =~= facts@);
    let mut summary = String::new();
    summary.append("summary running=");
    push_decimal(&mut summary, running as u128);
    summary.append(" stale=");
    push_decimal(&mut summary, stale as u128);
    summary.append(" total=");
    push_decimal(&mut summary, (running + stale) as u128);
    out.push(summary);
    assert(string_views(out@) =~= status_all_text(recs, facts@));
    out
}


// ---------------------------------------------------------------------------
// Pruning
// ---------------------------------------------------------------------------

/// The reason a pruned session gives: its stale reason, or `unknown`.
pub open spec fn reason_text(reason: Option<&'static str>) -> Seq<char> {
    match reason {
        Some(r) => r@,
        None => "unknown"@,
    }
}

/// The line for a session that `prune` removes.
pub open spec fn pruned_line_text(f: StatusFact, r: StateView) -> Seq<char> {
    "status=pruned playground="@ + playground_text(r.playground) + " instance="@ + r.instance
        + " session="@ + r.session_id + " stale_reason="@ + reason_text(f.stale_reason)
}

/// The pruned lines of the first `n` sessions: one per stale session, in
/// order.
pub open spec fn pruned_lines(records: Seq<StateView>, facts: Seq<StatusFact>, n: int) -> Seq<
    Seq<char>,
>
    decreases n,
{
    if n <= 0 {
        seq![]
    } else {
        pruned_lines(records, facts, n - 1) + if facts[n - 1].status == RuntimeStatus::Stale {
            seq![pruned_line_text(facts[n - 1], records[n - 1])]
        } else {
            seq![]
        }
    }
}

/// The report of `prune`: `status=empty removed=0` without sessions;
/// otherwise a line per stale session, then how many were removed and how
/// many kept.
pub open spec fn prune_text(records: Seq<StateView>, facts: Seq<StatusFact>) -> Seq<Seq<char>> {
    if records.len() == 0 {
        seq!["status=empty removed=0"@]
    } else {
        let removed = count_status(facts, RuntimeStatus::Stale);
        pruned_lines(records, facts, records.len() as int).push(
            "status=complete removed="@ + decimal(removed) + " kept="@ + decimal(
                (records.len() - removed) as nat,
            ),
        )
    }
}

fn pruned_line(fact: StatusFact, record: &StateRecord) -> (s: String)
    ensures
        s@ == pruned_line_text(fact, record@),
{
    let mut out = String::new();
    out.append("status=pruned playground=");
    out.append(record.playground.as_str());
    out.append(" instance=");
    out.append(record.instance.as_str());
    out.append(" session=");
    out.append(record.session_id.as_str());
    out.append(" stale_reason=");
    match fact.stale_reason {
        Some(reason) => out.append(reason),
        None => out.append("unknown"),
    }
    assert(out@ =~= pruned_line_text(fact, record@));
    out
}

/// Which sessions `prune` removes (exactly the stale ones) and the lines it
/// prints for the recorded sessions and their statuses.
pub fn prune_report(records: &Vec<StateRecord>, facts: &Vec<StatusFact>) -> (r: (Vec<bool>, Vec<String>))
    requires
        records@.len() == facts@.len(),
    ensures
        r.0@.len() == facts@.len(),
        forall|i: int| 0 <= i < facts@.len() ==> #[trigger] r.0@[i] == (facts@[i].status == RuntimeStatus::Stale),
        string_views(r.1@) == prune_text(Seq::new(records@.len(), |i: int| records@[i]@), facts@),
{
    let ghost recs = Seq::new(records@.len(), |i: int| records@[i]@);
    let mut remove: Vec<bool> = Vec::new();
    let mut out: Vec<String> = Vec::new();
    if records.len() == 0 {
        out.push("status=empty removed=0".to_owned());
        assert(string_views(out@) =~= seq!["status=empty removed=0"@]);
        return (remove, out);
    }
    let n = records.len();
    let mut removed: u64 = 0;
    let mut i: usize = 0;
    while i < n
        invariant
            i <= n,
            n == records@.len(),
            n == facts@.len(),
            recs == Seq::new(records@.len(), |k: int| records@[k]@),
            removed as nat == count_status(facts@.take(i as int), RuntimeStatus::Stale),
            removed <= i,
            remove@.len() == i,
            forall|k: int| 0 <= k < i ==> #[trigger] remove@[k] == (facts@[k].status == RuntimeStatus::Stale),
            string_views(out@) =~= pruned_lines(recs, facts@, i as int),
        decreases n - i,
    {
        let fact = facts[i];
        assert(facts@.take(i + 1).drop_last() =~= facts@.take(i as int));
        let stale = match fact.status {
            RuntimeStatus::Stale => true,
            _ => false,
        };
        remove.push(stale);
        let ghost before = out@;
        if stale {
            removed = removed + 1;
            let line = pruned_line(fact, &records[i]);
            out.push(line);
            assert(recs[i as int] == records@[i as int]@);
            assert(string_views(out@) =~= string_views(before).push(pruned_line_text(fact, recs[i as int])));
        }
        assert(pruned_lines(recs, facts@, i + 1) == pruned_lines(recs, facts@, i as int) + if facts@[i as int].status
            == RuntimeStatus::Stale {
            seq![pruned_line_text(facts@[i as int], recs[i as int])]
        } else {
            seq![]
        });
        i = i + 1;
    }
    assert(facts@.take(n as int) =~= facts@);
    let mut summary = String::new();
    summary.append("status=complete removed=");
    push_decimal(&mut summary, removed as u128);
    summary.append(" kept=");
    push_decimal(&mut summary, (n as u64 - removed) as u128);
    let ghost before = out@;
    out.push(summary);
    assert(string_views(out@) =~= string_views(before).push(string_views(out@).last()));
    assert(string_views(out@) =~= prune_text(recs, facts@));
    (remove, out)
}

// ---------------------------------------------------------------------------
// Stopping
// ---------------------------------------------------------------------------

/// The line `stop` prints: the playground's answer to the shutdown request,
/// or, when it gave none, why, and whether the process had to be killed.
pub open spec fn stop_text(response: Result<Seq<char>, Seq<char>>, graceful: bool) -> Seq<char> {
    match response {
        Ok(answer) => answer,
        Err(detail) => if graceful {
            "status=stopped detail="@ + detail
        } else {
            "status=stopped fallback=force-kill detail="@ + detail
        },
    }
}

/// What `stop` does once it has asked a recorded session to shut down and
/// waited for it: force-kill the process unless it stopped gracefully, and
/// the line to print. `response` is the answer to the shutdown request or
/// the failure's message.
pub fn stop_outcome(response: Result<String, String>, graceful: bool) -> (r: (bool, String))
    ensures
        r.0 == !graceful,
        r.1@ == stop_text(
            match response {
                Ok(a) => Ok(a@),
                Err(d) => Err(d@),
            },
            graceful,
        ),
{
    match response {
        Ok(answer) => (!graceful, answer),
        Err(detail) => {
            let mut line = String::new();
            if graceful {
                line.append("status=stopped detail=");
            } else {
                line.append("status=stopped fallback=force-kill detail=");
            }
            line.append(detail.as_str());
            (!graceful, line)
        },
    }
}

// ---------------------------------------------------------------------------
// Waiting
// ---------------------------------------------------------------------------

/// How long `start` waits for a launched playground to answer.
pub const START_TIMEOUT_MS: u64 = 15000;

/// How long `stop` waits for a playground to fall silent.
pub const STOP_TIMEOUT_MS: u64 = 5000;

/// The pause between two probes of a wait.
pub const POLL_INTERVAL_MS: u64 = 100;

/// What a wait waits for: a playground that answers an inspection, or one
/// that no longer does.
#[derive(Debug, Clone, Copy, PartialEq, Eq, Structural)]
pub enum WaitGoal {
    Answering,
    Silent,
}

/// What a wait does after a probe.
#[derive(Debug, Clone, Copy, PartialEq, Eq, Structural)]
pub enum WaitDecision {
    /// The goal is reached.
    Reached,
    /// The deadline has passed.
    GiveUp,
    /// Probe again after this many milliseconds.
    Sleep { ms: u64 },
}

/// The deadline of a wait, in milliseconds after it began.
pub open spec fn wait_timeout(goal: WaitGoal) -> u64 {
    match goal {
        WaitGoal::Answering => START_TIMEOUT_MS,
        WaitGoal::Silent => STOP_TIMEOUT_MS,
    }
}

/// The decision after a probe that got an answer or not, `elapsed_ms`
/// after the wait began.
pub open spec fn wait_choice(goal: WaitGoal, answered: bool, elapsed_ms: u128) -> WaitDecision {
    let reached = match goal {
        WaitGoal::Answering => answered,
        WaitGoal::Silent => !answered,
    };
    if reached {
        WaitDecision::Reached
    } else if elapsed_ms >= wait_timeout(goal) {
        WaitDecision::GiveUp
    } else {
        WaitDecision::Sleep { ms: POLL_INTERVAL_MS }
    }
}

/// Decides `wait_choice`.
pub fn wait_decision(goal: WaitGoal, answered: bool, elapsed_ms: u128) -> (d: WaitDecision)
    ensures
        d == wait_choice(goal, answered, elapsed_ms),
{
    let reached = match goal {
        WaitGoal::Answering => answered,
        WaitGoal::Silent => !answered,
    };
    let timeout = match goal {
        WaitGoal::Answering => START_TIMEOUT_MS,
        WaitGoal::Silent => STOP_TIMEOUT_MS,
    };
    if reached {
        WaitDecision::Reached
    } else if elapsed_ms >= timeout as u128 {
        WaitDecision::GiveUp
    } else {
        WaitDecision::Sleep { ms: POLL_INTERVAL_MS }
    }
}

/// A wait is bounded: once its probes come at least a poll interval apart,
/// the probe numbered `timeout / interval` (or any later one) no longer
/// sleeps, so a wait makes at most `timeout / interval + 1` probes.
pub proof fn lemma_wait_is_bounded(goal: WaitGoal, answered: bool, probe: nat, elapsed_ms: u128)
    requires
        elapsed_ms >= probe * POLL_INTERVAL_MS,
        probe >= wait_timeout(goal) / POLL_INTERVAL_MS,
    ensures
        !(wait_choice(goal, answered, elapsed_ms) is Sleep),
{
    assert(probe * 100 >= wait_timeout(goal)) by (nonlinear_arith)
        requires
            probe >= wait_timeout(goal) / 100,
            wait_timeout(goal) % 100 == 0,
    ;
}


// ---------------------------------------------------------------------------
// Starting a playground
// ---------------------------------------------------------------------------

/// How many times `start` launches a playground before it gives up.
pub const START_ATTEMPTS: u32 = 2;

/// Where a start stands.
#[derive(Debug)]
pub enum StartPhase {
    /// Waiting to hear of an earlier session of the instance.
    Checking,
    /// Cleaning up a stale earlier session.
    Cleaning,
    /// Building the playground.
    Building,
    /// An attempt's process is being launched.
    Launching { attempt: u32 },
    /// Waiting for the launched process to answer.
    Waiting { attempt: u32, record: StateRecord },
    /// Killing a process that did not answer and forgetting its session.
    Forgetting { attempt: u32, detail: String },
    /// The playground runs.
    Finished,
    /// The start failed.
    Failed,
}

/// A start of a playground instance: what to start, and where it stands.
#[derive(Debug)]
pub struct StartState {
    pub playground: PlaygroundName,
    pub instance: String,
    pub namespace_prefix: Option<String>,
    pub behavior: Option<BehaviorArg>,
    pub phase: StartPhase,
}

/// What the program reports to a start.
#[derive(Debug)]
pub enum StartEvent {
    /// The earlier session of the instance, if one is recorded, and whether
    /// it still answers.
    Begun { existing: Option<StateRecord>, existing_answers: bool },
    /// The stale session is cleaned up.
    Cleaned,
    /// The playground is built.
    Built,
    /// The attempt's process was launched.
    Launched {
        pid: u32,
        session_id: String,
        log_path: String,
        started_at_ms: u128,
        binary_path: String,
    },
    /// The launched process answered.
    Ready,
    /// The launched process did not answer in time.
    NotReady { detail: String },
    /// The unanswering process is killed and its session forgotten.
    Forgotten,
}

/// What a start asks the program to do.
#[derive(Debug)]
pub enum StartAction {
    /// Give up with this message.
    Fail(String),
    /// Kill the stale session's process and remove its state file.
    CleanStale(StateRecord),
    /// Build the playground.
    Build,
    /// Launch the playground's binary with these arguments, for this
    /// attempt.
    Launch { attempt: u32, args: Vec<String> },
    /// Record the session in its state file and wait for it to answer.
    WaitReady(StateRecord),
    /// Kill this process and remove the instance's state file.
    KillAndForget { pid: u32 },
    /// The playground runs.
    Done,
}

/// A start phase with its record and detail as views.
pub enum PhaseView {
    Checking,
    Cleaning,
    Building,
    Launching { attempt: u32 },
    Waiting { attempt: u32, record: StateView },
    Forgetting { attempt: u32, detail: Seq<char> },
    Finished,
    Failed,
}

/// A start as text fields.
pub struct StartView {
    pub playground: PlaygroundName,
    pub instance: Seq<char>,
    pub namespace_prefix: Option<Seq<char>>,
    pub behavior: Option<BehaviorArg>,
    pub phase: PhaseView,
}

/// A start event with its texts as views.
pub enum StartEventView {
    Begun { existing: Option<StateView>, existing_answers: bool },
    Cleaned,
    Built,
    Launched {
        pid: u32,
        session_id: Seq<char>,
        log_path: Seq<char>,
        started_at_ms: u128,
        binary_path: Seq<char>,
    },
    Ready,
    NotReady { detail: Seq<char> },
    Forgotten,
}

/// A start action with its texts as views.
pub enum StartActionView {
    Fail(Seq<char>),
    CleanStale(StateView),
    Build,
    Launch { attempt: u32, args: Seq<Seq<char>> },
    WaitReady(StateView),
    KillAndForget { pid: u32 },
    Done,
}

impl View for StartPhase {
    type V = PhaseView;

    open spec fn view(&self) -> PhaseView {
        match self {
            StartPhase::Checking => PhaseView::Checking,
            StartPhase::Cleaning => PhaseView::Cleaning,
            StartPhase::Building => PhaseView::Building,
            StartPhase::Launching { attempt } => PhaseView::Launching { attempt: *attempt },
            StartPhase::Waiting { attempt, record } => PhaseView::Waiting {
                attempt: *attempt,
                record: record@,
            },
            StartPhase::Forgetting { attempt, detail } => PhaseView::Forgetting {
                attempt: *attempt,
                detail: detail@,
            },
            StartPhase::Finished => PhaseView::Finished,
            StartPhase::Failed => PhaseView::Failed,
        }
    }
}

impl View for StartState {
    type V = StartView;

    open spec fn view(&self) -> StartView {
        StartView {
            playground: self.playground,
            instance: self.instance@,
            namespace_prefix: match self.namespace_prefix {
                Some(p) => Some(p@),
                None => None,
            },
            behavior: self.behavior,
            phase: self.phase@,
        }
    }
}

impl View for StartEvent {
    type V = StartEventView;

    open spec fn view(&self) -> StartEventView {
        match self {
            StartEvent::Begun { existing, existing_answers } => StartEventView::Begun {
                existing: match existing {
                    Some(r) => Some(r@),
                    None => None,
                },
                existing_answers: *existing_answers,
            },
            StartEvent::Cleaned => StartEventView::Cleaned,
            StartEvent::Built => StartEventView::Built,
            StartEvent::Launched { pid, session_id, log_path, started_at_ms, binary_path } =>
                StartEventView::Launched {
                pid: *pid,
                session_id: session_id@,
                log_path: log_path@,
                started_at_ms: *started_at_ms,
                binary_path: binary_path@,
            },
            StartEvent::Ready => StartEventView::Ready,
            StartEvent::NotReady { detail } => StartEventView::NotReady { detail: detail@ },
            StartEvent::Forgotten => StartEventView::Forgotten,
        }
    }
}

impl View for StartAction {
    type V = StartActionView;

    open spec fn view(&self) -> StartActionView {
        match self {
            StartAction::Fail(m) => StartActionView::Fail(m@),
            StartAction::CleanStale(r) => StartActionView::CleanStale(r@),
            StartAction::Build => StartActionView::Build,
            StartAction::Launch { attempt, args } => StartActionView::Launch {
                attempt: *attempt,
                args: string_views(args@),
            },
            StartAction::WaitReady(r) => StartActionView::WaitReady(r@),
            StartAction::KillAndForget { pid } => StartActionView::KillAndForget { pid: *pid },
            StartAction::Done => StartActionView::Done,
        }
    }
}

/// `<stage> playground=<p> instance=<i>`.
pub open spec fn stage_prefix(stage: Seq<char>, s: StartView) -> Seq<char> {
    stage + " playground="@ + playground_text(s.playground) + " instance="@ + s.instance
}

/// `stage=build playground=<p> instance=<i>`.
pub open spec fn build_line(s: StartView) -> Seq<char> {
    stage_prefix("stage=build"@, s)
}

/// `<p> <i> is already running`.
pub open spec fn already_running_text(s: StartView) -> Seq<char> {
    playground_text(s.playground) + " "@ + s.instance + " is already running"@
}

/// `stage=launch playground=<p> instance=<i> pid=<pid> attempt=<a>/<n>`.
pub open spec fn launch_line(s: StartView, pid: u32, attempt: u32) -> Seq<char> {
    stage_prefix("stage=launch"@, s) + " pid="@ + decimal(pid as nat) + " attempt="@ + decimal(attempt as nat) + "/"@ + decimal(
        START_ATTEMPTS as nat,
    )
}

/// `stage=retry playground=<p> instance=<i> attempt=<a>/<n> detail=<d>`.
pub open spec fn retry_line(s: StartView, attempt: u32, detail: Seq<char>) -> Seq<char> {
    stage_prefix("stage=retry"@, s) + " attempt="@ + decimal(attempt as nat) + "/"@ + decimal(START_ATTEMPTS as nat)
        + " detail="@ + detail
}

/// `stage=ready playground=<p> instance=<i> session=<s>`.
pub open spec fn ready_line(r: StateView) -> Seq<char> {
    "stage=ready playground="@ + playground_text(r.playground) + " instance="@ + r.instance
        + " session="@ + r.session_id
}

/// The `status=running` line of a started session.
pub open spec fn running_line(r: StateView) -> Seq<char> {
    "status=running playground="@ + playground_text(r.playground) + " instance="@ + r.instance
        + " pid="@ + decimal(r.pid as nat) + " session="@ + r.session_id + " namespace="@
        + namespace_text(r.namespace_prefix) + " log="@ + r.log_path
}

/// The arguments a start launches the playground's binary with.
pub open spec fn start_serve_args(s: StartView) -> Seq<Seq<char>> {
    seq!["serve"@, "--instance"@, s.instance] + namespace_args(s.namespace_prefix) + match s.behavior {
        Some(b) => seq!["--behavior"@, behavior_arg_text(b)],
        None => seq![],
    }
}

/// A start that gives up on an event that does not fit where it stands.
pub open spec fn start_out_of_order(s: StartView) -> (StartView, StartActionView, Seq<Seq<char>>) {
    (
        StartView { phase: PhaseView::Failed, ..s },
        StartActionView::Fail("start steps out of order"@),
        seq![],
    )
}

/// One step of a start: where it stands after `e`, what the program does,
/// and the lines it prints.
///
/// It reports the build stage and rejects an instance that still answers
/// (cleaning up one that does not); builds; launches; records the session
/// and waits for it; and when a launched process does not answer, kills
/// it, forgets its session and launches again, at most `START_ATTEMPTS`
/// times in all before it fails with the last detail.
pub open spec fn start_step_spec(s: StartView, e: StartEventView) -> (
    StartView,
    StartActionView,
    Seq<Seq<char>>,
) {
    match s.phase {
        PhaseView::Checking => match e {
            StartEventView::Begun { existing, existing_answers } => match existing {
                Some(rec) => if existing_answers {
                    (
                        StartView { phase: PhaseView::Failed, ..s },
                        StartActionView::Fail(already_running_text(s)),
                        seq![build_line(s)],
                    )
                } else {
                    (
                        StartView { phase: PhaseView::Cleaning, ..s },
                        StartActionView::CleanStale(rec),
                        seq![build_line(s)],
                    )
                },
                None => (
                    StartView { phase: PhaseView::Building, ..s },
                    StartActionView::Build,
                    seq![build_line(s)],
                ),
            },
            _ => start_out_of_order(s),
        },
        PhaseView::Cleaning => match e {
            StartEventView::Cleaned => (
                StartView { phase: PhaseView::Building, ..s },
                StartActionView::Build,
                seq![],
            ),
            _ => start_out_of_order(s),
        },
        PhaseView::Building => match e {
            StartEventView::Built => (
                StartView { phase: PhaseView::Launching { attempt: 1 }, ..s },
                StartActionView::Launch { attempt: 1, args: start_serve_args(s) },
                seq![],
            ),
            _ => start_out_of_order(s),
        },
        PhaseView::Launching { attempt } => match e {
            StartEventView::Launched { pid, session_id, log_path, started_at_ms, binary_path } => {
                let record = StateView {
                    playground: s.playground,
                    instance: s.instance,
                    namespace_prefix: s.namespace_prefix,
                    log_path,
                    session_id,
                    pid,
                    started_at_ms,
                    binary_path,
                };
                (
                    StartView { phase: PhaseView::Waiting { attempt, record }, ..s },
                    StartActionView::WaitReady(record),
                    seq![launch_line(s, pid, attempt)],
                )
            },
            _ => start_out_of_order(s),
        },
        PhaseView::Waiting { attempt, record } => match e {
            StartEventView::Ready => (
                StartView { phase: PhaseView::Finished, ..s },
                StartActionView::Done,
                seq![ready_line(record), running_line(record)],
            ),
            StartEventView::NotReady { detail } => (
                StartView { phase: PhaseView::Forgetting { attempt, detail }, ..s },
                StartActionView::KillAndForget { pid: record.pid },
                seq![retry_line(s, attempt, detail)],
            ),
            _ => start_out_of_order(s),
        },
        PhaseView::Forgetting { attempt, detail } => match e {
            StartEventView::Forgotten => if attempt < START_ATTEMPTS {
                (
                    StartView { phase: PhaseView::Launching { attempt: (attempt + 1) as u32 }, ..s },
                    StartActionView::Launch { attempt: (attempt + 1) as u32, args: start_serve_args(s) },
                    seq![],
                )
            } else {
                (StartView { phase: PhaseView::Failed, ..s }, StartActionView::Fail(detail), seq![])
            },
            _ => start_out_of_order(s),
        },
        PhaseView::Finished => start_out_of_order(s),
        PhaseView::Failed => start_out_of_order(s),
    }
}

fn copy_text(s: &String) -> (r: String)
    ensures
        r@ == s@,
{
    s.as_str().to_owned()
}

fn copy_option_text(s: &Option<String>) -> (r: Option<String>)
    ensures
        match (*s, r) {
            (Some(a), Some(b)) => a@ == b@,
            (None, None) => true,
            _ => false,
        },
{
    match s {
        Some(t) => Some(copy_text(t)),
        None => None,
    }
}

fn copy_record(r: &StateRecord) -> (c: StateRecord)
    ensures
        c@ == r@,
{
    StateRecord {
        playground: r.playground,
        instance: copy_text(&r.instance),
        namespace_prefix: copy_option_text(&r.namespace_prefix),
        log_path: copy_text(&r.log_path),
        session_id: copy_text(&r.session_id),
        pid: r.pid,
        started_at_ms: r.started_at_ms,
        binary_path: copy_text(&r.binary_path),
    }
}

impl StartState {
    /// A start of an instance, under the supervisor's namespace prefix and
    /// with a phase to force, if any.
    pub fn new(
        playground: PlaygroundName,
        instance: &str,
        namespace_prefix: Option<String>,
        behavior: Option<BehaviorArg>,
    ) -> (s: Self)
        ensures
            s@ == (StartView {
                playground,
                instance: instance@,
                namespace_prefix: match namespace_prefix {
                    Some(p) => Some(p@),
                    None => None,
                },
                behavior,
                phase: PhaseView::Checking,
            }),
    {
        StartState {
            playground,
            instance: instance.to_owned(),
            namespace_prefix,
            behavior,
            phase: StartPhase::Checking,
        }
    }

    fn with_phase(&self, phase: StartPhase) -> (s: Self)
        ensures
            s@ == (StartView { phase: phase@, ..self@ }),
    {
        StartState {
            playground: self.playground,
            instance: copy_text(&self.instance),
            namespace_prefix: copy_option_text(&self.namespace_prefix),
            behavior: self.behavior,
            phase,
        }
    }

    fn out_of_order(&self) -> (r: (StartState, StartAction, Vec<String>))
        ensures
            (r.0@, r.1@, string_views(r.2@)) == start_out_of_order(self@),
    {
        let v: Vec<String> = Vec::new();
        assert(string_views(v@) =~= Seq::<Seq<char>>::empty());
        (self.with_phase(StartPhase::Failed), StartAction::Fail("start steps out of order".to_owned()), v)
    }

    fn launch_args(&self) -> (v: Vec<String>)
        ensures
            string_views(v@) == start_serve_args(self@),
    {
        let prefix = match &self.namespace_prefix {
            Some(p) => Some(p.as_str()),
            None => None,
        };
        serve_args(self.instance.as_str(), self.behavior, prefix)
    }

    fn line_prefix(&self, stage: &str) -> (s: String)
        ensures
            s@ == stage_prefix(stage@, self@),
    {
        let mut out = stage.to_owned();
        out.append(" playground=");
        out.append(self.playground.as_str());
        out.append(" instance=");
        out.append(self.instance.as_str());
        out
    }
}

fn one_line(s: String) -> (v: Vec<String>)
    ensures
        string_views(v@) == seq![s@],
{
    let mut v = Vec::new();
    v.push(s);
    assert(string_views(v@) =~= seq![s@]);
    v
}

/// Takes one step of a start.
pub fn start_step(s: &StartState, e: StartEvent) -> (r: (StartState, StartAction, Vec<String>))
    ensures
        (r.0@, r.1@, string_views(r.2@)) == start_step_spec(s@, e@),
{
    match &s.phase {
        StartPhase::Checking => match e {
            StartEvent::Begun { existing, existing_answers } => {
                let line = s.line_prefix("stage=build");
                let lines = one_line(line);
                match existing {
                    Some(rec) => {
                        if existing_answers {
                            let mut message = s.playground.as_str().to_owned();
                            message.append(" ");
                            message.append(s.instance.as_str());
                            message.append(" is already running");
                            assert(message@ =~= already_running_text(s@));
                            (s.with_phase(StartPhase::Failed), StartAction::Fail(message), lines)
                        } else {
                            (s.with_phase(StartPhase::Cleaning), StartAction::CleanStale(rec), lines)
                        }
                    },
                    None => (s.with_phase(StartPhase::Building), StartAction::Build, lines),
                }
            },
            _ => s.out_of_order(),
        },
        StartPhase::Cleaning => match e {
            StartEvent::Cleaned => {
                let v: Vec<String> = Vec::new();
                assert(string_views(v@) =~= Seq::<Seq<char>>::empty());
                (s.with_phase(StartPhase::Building), StartAction::Build, v)
            },
            _ => s.out_of_order(),
        },
        StartPhase::Building => match e {
            StartEvent::Built => {
                let v: Vec<String> = Vec::new();
                assert(string_views(v@) =~= Seq::<Seq<char>>::empty());
                let args = s.launch_args();
                (
                    s.with_phase(StartPhase::Launching { attempt: 1 }),
                    StartAction::Launch { attempt: 1, args },
                    v,
                )
            },
            _ => s.out_of_order(),
        },
        StartPhase::Launching { attempt } => match e {
            StartEvent::Launched { pid, session_id, log_path, started_at_ms, binary_path } => {
                let attempt = *attempt;
                let record = StateRecord {
                    playground: s.playground,
                    instance: copy_text(&s.instance),
                    namespace_prefix: copy_option_text(&s.namespace_prefix),
                    log_path,
                    session_id,
                    pid,
                    started_at_ms,
                    binary_path,
                };
                let mut line = s.line_prefix("stage=launch");
                line.append(" pid=");
                push_decimal(&mut line, pid as u128);
                line.append(" attempt=");
                push_decimal(&mut line, attempt as u128);
                line.append("/");
                push_decimal(&mut line, START_ATTEMPTS as u128);
                assert(line@ =~= launch_line(s@, pid, attempt));
                let waiting = copy_record(&record);
                (
                    s.with_phase(StartPhase::Waiting { attempt, record: waiting }),
                    StartAction::WaitReady(record),
                    one_line(line),
                )
            },
            _ => s.out_of_order(),
        },
        StartPhase::Waiting { attempt, record } => match e {
            StartEvent::Ready => {
                let mut ready = String::new();
                ready.append("stage=ready playground=");
                ready.append(record.playground.as_str());
                ready.append(" instance=");
                ready.append(record.instance.as_str());
                ready.append(" session=");
                ready.append(record.session_id.as_str());
                assert(ready@ =~= ready_line(record@));
                let mut running = String::new();
                running.append("status=running playground=");
                running.append(record.playground.as_str());
                running.append(" instance=");
                running.append(record.instance.as_str());
                running.append(" pid=");
                push_decimal(&mut running, record.pid as u128);
                running.append(" session=");
                running.append(record.session_id.as_str());
                running.append(" namespace=");
                match &record.namespace_prefix {
                    Some(p) => running.append(p.as_str()),
                    None => running.append("<default>"),
                }
                running.append(" log=");
                running.append(record.log_path.as_str());
                assert(running@ =~= running_line(record@));
                let mut v = Vec::new();
                v.push(ready);
                v.push(running);
                assert(string_views(v@) =~= seq![ready_line(record@), running_line(record@)]);
                (s.with_phase(StartPhase::Finished), StartAction::Done, v)
            },
            StartEvent::NotReady { detail } => {
                let attempt = *attempt;
                let mut line = s.line_prefix("stage=retry");
                line.append(" attempt=");
                push_decimal(&mut line, attempt as u128);
                line.append("/");
                push_decimal(&mut line, START_ATTEMPTS as u128);
                line.append(" detail=");
                line.append(detail.as_str());
                assert(line@ =~= retry_line(s@, attempt, detail@));
                (
                    s.with_phase(StartPhase::Forgetting { attempt, detail }),
                    StartAction::KillAndForget { pid: record.pid },
                    one_line(line),
                )
            },
            _ => s.out_of_order(),
        },
        StartPhase::Forgetting { attempt, detail } => match e {
            StartEvent::Forgotten => {
                let v: Vec<String> = Vec::new();
                assert(string_views(v@) =~= Seq::<Seq<char>>::empty());
                if *attempt < START_ATTEMPTS {
                    let next = *attempt + 1;
                    let args = s.launch_args();
                    (
                        s.with_phase(StartPhase::Launching { attempt: next }),
                        StartAction::Launch { attempt: next, args },
                        v,
                    )
                } else {
                    (s.with_phase(StartPhase::Failed), StartAction::Fail(copy_text(detail)), v)
                }
            },
            _ => s.out_of_order(),
        },
        StartPhase::Finished => s.out_of_order(),
        StartPhase::Failed => s.out_of_order(),
    }
}

// ---------------------------------------------------------------------------
// Laws of a start
// ---------------------------------------------------------------------------

/// Where a start stands after the first `k` events of `events`.
pub open spec fn start_after(s: StartView, events: Seq<StartEventView>, k: int) -> StartView
    decreases k,
{
    if k <= 0 {
        s
    } else {
        start_step_spec(start_after(s, events, k - 1), events[k - 1]).0
    }
}

/// What a start asks for on the event numbered `k`.
pub open spec fn start_action(s: StartView, events: Seq<StartEventView>, k: int) -> StartActionView {
    start_step_spec(start_after(s, events, k), events[k]).1
}

/// How many launches a start asks for on its first `n` events.
pub open spec fn start_launches(s: StartView, events: Seq<StartEventView>, n: int) -> nat
    decreases n,
{
    if n <= 0 {
        0
    } else {
        start_launches(s, events, n - 1) + if start_action(s, events, n - 1) is Launch {
            1nat
        } else {
            0nat
        }
    }
}

/// How many launches a start can still ask for.
pub open spec fn launches_left(p: PhaseView) -> nat {
    match p {
        PhaseView::Checking | PhaseView::Cleaning | PhaseView::Building => START_ATTEMPTS as nat,
        PhaseView::Launching { attempt } | PhaseView::Waiting { attempt, .. }
        | PhaseView::Forgetting { attempt, .. } => if attempt >= START_ATTEMPTS {
            0
        } else {
            (START_ATTEMPTS - attempt) as nat
        },
        PhaseView::Finished | PhaseView::Failed => 0,
    }
}

proof fn lemma_start_step_launches(s: StartView, e: StartEventView)
    ensures
        launches_left(start_step_spec(s, e).0.phase) + (if start_step_spec(s, e).1 is Launch {
            1nat
        } else {
            0nat
        }) <= launches_left(s.phase),
{
}

proof fn lemma_start_launches_prefix(s: StartView, events: Seq<StartEventView>, n: int)
    requires
        0 <= n <= events.len(),
    ensures
        start_launches(s, events, n) + launches_left(start_after(s, events, n).phase)
            <= launches_left(s.phase),
    decreases n,
{
    if n > 0 {
        lemma_start_launches_prefix(s, events, n - 1);
        lemma_start_step_launches(start_after(s, events, n - 1), events[n - 1]);
    }
}

/// Over any run of events from a new start: it asks for at most
/// `START_ATTEMPTS` launches; a launched process that is reported not
/// ready is killed right away (the next action kills its pid and forgets
/// its session); and a start is done only when a launched process answered.
pub proof fn lemma_start_run(s: StartView, events: Seq<StartEventView>)
    requires
        s.phase is Checking,
    ensures
        start_launches(s, events, events.len() as int) <= START_ATTEMPTS,
        forall|k: int|
            0 <= k && k + 1 < events.len() && events[k + 1] is NotReady ==> (#[trigger] start_action(
                s,
                events,
                k,
            ) matches StartActionView::WaitReady(rec) ==> start_action(s, events, k + 1)
                == StartActionView::KillAndForget { pid: rec.pid }),
        forall|k: int|
            0 <= k < events.len() && #[trigger] start_action(s, events, k) is Done ==> events[k] is Ready,
{
    lemma_start_launches_prefix(s, events, events.len() as int);
    assert forall|k: int|
        0 <= k && k + 1 < events.len() && events[k + 1] is NotReady implies (
        #[trigger] start_action(s, events, k) matches StartActionView::WaitReady(rec)
            ==> start_action(s, events, k + 1) == StartActionView::KillAndForget { pid: rec.pid }) by {
        assert(start_after(s, events, k + 1) == start_step_spec(start_after(s, events, k), events[k]).0);
    }
}

// ---------------------------------------------------------------------------
// Laws of the state file
// ---------------------------------------------------------------------------

/// Whether a text can stand as a state-file value: no line break in it,
/// and no carriage return at its end.
pub open spec fn is_field_text(s: Seq<char>) -> bool {
    &&& forall|i: int| 0 <= i < s.len() ==> s[i] != '\n'
    &&& !(s.len() > 0 && s.last() == '\r')
}

/// Whether every text field of a record can be written and read back.
pub open spec fn is_writable_record(r: StateView) -> bool {
    &&& is_field_text(r.instance)
    &&& (match r.namespace_prefix {
        Some(p) => is_field_text(p) && p.len() > 0,
        None => true,
    })
    &&& is_field_text(r.log_path)
    &&& is_field_text(r.session_id)
    &&& is_field_text(r.binary_path)
    &&& r.binary_path.len() > 0
}

proof fn lemma_lines_cons(line: Seq<char>, rest: Seq<char>)
    requires
        forall|i: int| 0 <= i < line.len() ==> line[i] != '\n',
    ensures
        lines(line + "\n"@ + rest) == seq![strip_cr(line)] + lines(rest),
{
    reveal_strlit("\n");
    let s = line + "\n"@ + rest;
    lemma_first_index_of(s, '\n', line.len() as int);
    assert(s.take(line.len() as int) =~= line);
    assert(s.skip(line.len() as int + 1) =~= rest);
}

proof fn lemma_key_line(key: Seq<char>, value: Seq<char>)
    requires
        forall|i: int| 0 <= i < key.len() ==> key[i] != '=',
    ensures
        key_value(key + "="@ + value) == Some((key, value)),
{
    reveal_strlit("=");
    let s = key + "="@ + value;
    lemma_first_index_of(s, '=', key.len() as int);
    assert(s.take(key.len() as int) =~= key);
    assert(s.skip(key.len() as int + 1) =~= value);
}

proof fn lemma_last_value_at(ls: Seq<Seq<char>>, j: int, key: Seq<char>, value: Seq<char>)
    requires
        0 <= j < ls.len(),
        key_value(ls[j]) == Some((key, value)),
        forall|i: int| j < i < ls.len() ==> !(key_value(#[trigger] ls[i]) matches Some((k, _)) && k == key),
    ensures
        last_value(ls, key) == Some(value),
    decreases ls.len(),
{
    if j < ls.len() - 1 {
        let prev = ls.drop_last();
        assert forall|i: int| j < i < prev.len() implies !(key_value(#[trigger] prev[i]) matches Some((k, _)) && k == key) by {
            assert(prev[i] == ls[i]);
        }
        lemma_last_value_at(prev, j, key, value);
    }
}

proof fn lemma_no_unknown_playground(ls: Seq<Seq<char>>)
    requires
        forall|i: int| 0 <= i < ls.len() ==> !names_unknown_playground(#[trigger] ls[i]),
    ensures
        first_unknown_playground(ls) is None,
    decreases ls.len(),
{
    if ls.len() > 0 {
        let prev = ls.drop_last();
        assert forall|i: int| 0 <= i < prev.len() implies !names_unknown_playground(#[trigger] prev[i]) by {
            assert(prev[i] == ls[i]);
        }
        lemma_no_unknown_playground(prev);
    }
}

proof fn lemma_field_line(key: Seq<char>, value: Seq<char>)
    requires
        forall|i: int| 0 <= i < key.len() ==> key[i] != '=' && key[i] != '\n',
        key.len() > 0,
        is_field_text(value),
    ensures
        forall|i: int| 0 <= i < field_line(key, value).len() ==> field_line(key, value)[i] != '\n',
        strip_cr(field_line(key, value)) == field_line(key, value),
        key_value(field_line(key, value)) == Some((key, value)),
{
    reveal_strlit("=");
    lemma_key_line(key, value);
    let l = field_line(key, value);
    assert forall|i: int| 0 <= i < l.len() implies l[i] != '\n' by {
        if i < key.len() {
            assert(l[i] == key[i]);
        } else if i > key.len() {
            assert(l[i] == value[i - key.len() - 1]);
        }
    }
    if value.len() > 0 {
        assert(l.last() == value.last());
    }
}

proof fn lemma_digits_are_field_text(n: nat)
    ensures
        is_field_text(decimal(n)),
{
    lemma_decimal_digits(n);
    let d = decimal(n);
    assert forall|i: int| 0 <= i < d.len() implies d[i] != '\n' by {
        assert(crate::text::is_digit(d[i]));
    }
    assert(crate::text::is_digit(d.last()));
}

/// Whether a text can stand as a state-file key.
spec fn is_key_text(k: Seq<char>) -> bool {
    &&& k.len() > 0
    &&& forall|i: int| 0 <= i < k.len() ==> k[i] != '=' && k[i] != '\n'
}

proof fn lemma_state_keys()
    ensures
        is_key_text("playground"@),
        is_key_text("instance"@),
        is_key_text("namespace_prefix"@),
        is_key_text("log_path"@),
        is_key_text("session_id"@),
        is_key_text("pid"@),
        is_key_text("started_at_ms"@),
        is_key_text("binary_path"@),
        is_field_text("black-box"@),
        is_field_text(seq![]),
{
    reveal_strlit("playground");
    reveal_strlit("instance");
    reveal_strlit("namespace_prefix");
    reveal_strlit("log_path");
    reveal_strlit("session_id");
    reveal_strlit("pid");
    reveal_strlit("started_at_ms");
    reveal_strlit("binary_path");
    reveal_strlit("black-box");
}

proof fn lemma_state_keys_distinct()
    ensures
        "playground"@ != "instance"@,
        "playground"@ != "namespace_prefix"@,
        "playground"@ != "log_path"@,
        "playground"@ != "session_id"@,
        "playground"@ != "pid"@,
        "playground"@ != "started_at_ms"@,
        "playground"@ != "binary_path"@,
        "instance"@ != "namespace_prefix"@,
        "instance"@ != "log_path"@,
        "instance"@ != "session_id"@,
        "instance"@ != "pid"@,
        "instance"@ != "started_at_ms"@,
        "instance"@ != "binary_path"@,
        "namespace_prefix"@ != "log_path"@,
        "namespace_prefix"@ != "session_id"@,
        "namespace_prefix"@ != "pid"@,
        "namespace_prefix"@ != "started_at_ms"@,
        "namespace_prefix"@ != "binary_path"@,
        "log_path"@ != "session_id"@,
        "log_path"@ != "pid"@,
        "log_path"@ != "started_at_ms"@,
        "log_path"@ != "binary_path"@,
        "session_id"@ != "pid"@,
        "session_id"@ != "started_at_ms"@,
        "session_id"@ != "binary_path"@,
        "pid"@ != "started_at_ms"@,
        "pid"@ != "binary_path"@,
        "started_at_ms"@ != "binary_path"@,
{
    reveal_strlit("playground");
    reveal_strlit("instance");
    reveal_strlit("namespace_prefix");
    reveal_strlit("log_path");
    reveal_strlit("session_id");
    reveal_strlit("pid");
    reveal_strlit("started_at_ms");
    reveal_strlit("binary_path");
    assert("playground"@.len() == 10);
    assert("instance"@.len() == 8);
    assert("namespace_prefix"@.len() == 16);
    assert("log_path"@.len() == 8);
    assert("session_id"@.len() == 10);
    assert("pid"@.len() == 3);
    assert("started_at_ms"@.len() == 13);
    assert("binary_path"@.len() == 11);
    assert("instance"@[0] != "log_path"@[0]);
    assert("playground"@[0] != "session_id"@[0]);
}

proof fn lemma_lines_terminated(ls: Seq<Seq<char>>)
    requires
        forall|i: int|
            0 <= i < ls.len() ==> strip_cr(#[trigger] ls[i]) == ls[i] && forall|j: int|
                0 <= j < ls[i].len() ==> ls[i][j] != '\n',
    ensures
        lines(terminated(ls)) == ls,
    decreases ls.len(),
{
    if ls.len() > 0 {
        let rest = ls.drop_first();
        assert forall|i: int|
            0 <= i < rest.len() implies strip_cr(#[trigger] rest[i]) == rest[i] && forall|j: int|
                0 <= j < rest[i].len() ==> rest[i][j] != '\n' by {
            assert(rest[i] == ls[i + 1]);
        }
        lemma_lines_terminated(rest);
        assert(strip_cr(ls[0]) == ls[0]);
        lemma_lines_cons(ls[0], terminated(rest));
        assert(lines(terminated(ls)) =~= ls);
    } else {
        assert(lines(terminated(ls)) =~= ls);
    }
}

proof fn lemma_state_lines(r: StateView)
    requires
        is_writable_record(r),
    ensures
        lines(state_text(r)) == state_lines(r),
        key_value(state_lines(r)[0]) == Some(("playground"@, playground_text(r.playground))),
        key_value(state_lines(r)[1]) == Some(("instance"@, r.instance)),
        key_value(state_lines(r)[2]) == Some(("namespace_prefix"@, or_empty(r.namespace_prefix))),
        key_value(state_lines(r)[3]) == Some(("log_path"@, r.log_path)),
        key_value(state_lines(r)[4]) == Some(("session_id"@, r.session_id)),
        key_value(state_lines(r)[5]) == Some(("pid"@, decimal(r.pid as nat))),
        key_value(state_lines(r)[6]) == Some(("started_at_ms"@, decimal(r.started_at_ms as nat))),
        key_value(state_lines(r)[7]) == Some(("binary_path"@, r.binary_path)),
{
    lemma_state_keys();
    lemma_digits_are_field_text(r.pid as nat);
    lemma_digits_are_field_text(r.started_at_ms as nat);
    lemma_field_line("playground"@, playground_text(r.playground));
    lemma_field_line("instance"@, r.instance);
    lemma_field_line("namespace_prefix"@, or_empty(r.namespace_prefix));
    lemma_field_line("log_path"@, r.log_path);
    lemma_field_line("session_id"@, r.session_id);
    lemma_field_line("pid"@, decimal(r.pid as nat));
    lemma_field_line("started_at_ms"@, decimal(r.started_at_ms as nat));
    lemma_field_line("binary_path"@, r.binary_path);
    let ls = state_lines(r);
    assert forall|i: int|
        0 <= i < ls.len() implies strip_cr(#[trigger] ls[i]) == ls[i] && forall|j: int|
            0 <= j < ls[i].len() ==> ls[i][j] != '\n' by {
    }
    lemma_lines_terminated(ls);
}

/// A record written to a state file reads back as the same record, when
/// its text fields hold no line break, end in no carriage return, its
/// namespace prefix (if any) is not empty and its binary path is not empty.
pub proof fn lemma_state_roundtrip(r: StateView, default_binary_path: Seq<char>)
    requires
        is_writable_record(r),
    ensures
        parsed_state(state_text(r), default_binary_path) == Ok::<Option<StateView>, Seq<char>>(
            Some(r),
        ),
{
    lemma_state_lines(r);
    lemma_state_keys_distinct();
    let ls = state_lines(r);
    assert forall|i: int| 0 <= i < ls.len() implies !names_unknown_playground(#[trigger] ls[i]) by {
        assert(playground_text(r.playground) == "black-box"@);
    }
    lemma_no_unknown_playground(ls);
    lemma_last_value_at(ls, 0, "playground"@, playground_text(r.playground));
    lemma_last_value_at(ls, 1, "instance"@, r.instance);
    lemma_last_value_at(ls, 2, "namespace_prefix"@, or_empty(r.namespace_prefix));
    lemma_last_value_at(ls, 3, "log_path"@, r.log_path);
    lemma_last_value_at(ls, 4, "session_id"@, r.session_id);
    lemma_last_value_at(ls, 5, "pid"@, decimal(r.pid as nat));
    lemma_last_value_at(ls, 6, "started_at_ms"@, decimal(r.started_at_ms as nat));
    lemma_last_value_at(ls, 7, "binary_path"@, r.binary_path);
    lemma_parse_decimal(r.pid as nat, u32::MAX as nat);
    lemma_parse_decimal(r.started_at_ms as nat, u128::MAX as nat);
}


/// A launch is recorded as the program reports it: the session that a
/// `Launched` event leads to (and that the start then waits on) holds the
/// start's playground, instance and namespace prefix with the event's pid,
/// session id, log path, start time and binary path; and the state file
/// written for it, when its texts can stand in one, reads back the same.
pub proof fn lemma_launch_recorded(
    s: StartView,
    pid: u32,
    session_id: Seq<char>,
    log_path: Seq<char>,
    started_at_ms: u128,
    binary_path: Seq<char>,
    default_binary_path: Seq<char>,
)
    requires
        s.phase is Launching,
    ensures
        ({
            let e = StartEventView::Launched {
                pid,
                session_id,
                log_path,
                started_at_ms,
                binary_path,
            };
            let (next, action, _) = start_step_spec(s, e);
            &&& action matches StartActionView::WaitReady(r)
            &&& r.playground == s.playground
            &&& r.instance == s.instance
            &&& r.namespace_prefix == s.namespace_prefix
            &&& r.pid == pid
            &&& r.session_id == session_id
            &&& r.log_path == log_path
            &&& r.started_at_ms == started_at_ms
            &&& r.binary_path == binary_path
            &&& next.phase matches PhaseView::Waiting { record, .. }
            &&& record == r
            &&& is_writable_record(r) ==> parsed_state(state_text(r), default_binary_path) == Ok::<
                Option<StateView>,
                Seq<char>,
            >(Some(r))
        }),
{
    let e = StartEventView::Launched { pid, session_id, log_path, started_at_ms, binary_path };
    let (next, action, _) = start_step_spec(s, e);
    if let StartActionView::WaitReady(r) = action {
        if is_writable_record(r) {
            lemma_state_roundtrip(r, default_binary_path);
        }
    }
}

} // verus!
