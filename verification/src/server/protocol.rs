//! The control protocol between the command line and the daemon that runs the named servers:
//! what is said, how it is framed, and where the daemon's socket is.

use vstd::prelude::*;
use crate::failure;
use crate::failure::{Failure, FailureView};
use crate::paths;
use crate::paths::{file_name_of, join_path, parent_of, path_is_absolute};
use crate::serve::{RouteConfig, RouteConfigView};
use crate::text;
use crate::text::{has_char, pad_zeros, text_option, to_decimal};

verus! {

/// The control-protocol version, independent of the package version.
pub const PROTOCOL_VERSION: u32 = 2;

/// Environment variable used to override the control socket path.
pub const DAEMON_SOCKET_ENV: &'static str = "ACP_AGENT_DAEMON_SOCKET";

/// Maximum JSON payload accepted in one framed message.
pub const MAX_FRAME_SIZE: usize = 1048576;

/// The largest socket path that most Unix systems can represent, in bytes.
pub const MAX_SOCKET_PATH_BYTES: usize = 107;

/// The largest socket path that macOS can represent, in bytes.
pub const MAX_MACOS_SOCKET_PATH_BYTES: usize = 103;

/// One request is sent per connection.
#[derive(Debug, Clone)]
pub struct RequestEnvelope {
    pub version: u32,
    pub command: Request,
}

/// What the daemon can be asked for.
#[derive(Debug, Clone)]
pub enum Request {
    Health,
    CreateInstance(CreateInstanceRequest),
    StopInstance(StopInstanceRequest),
    Register(RegisterRequest),
    Unregister(UnregisterRequest),
    List,
    Status(StatusRequest),
    Registrations(RegistrationsRequest),
    Shutdown,
}

#[derive(Debug, Clone)]
pub struct CreateInstanceRequest {
    pub name: String,
    pub host: String,
    pub port: u16,
}

/// A [`CreateInstanceRequest`] over sequences.
#[verifier::ext_equal]
pub struct CreateView {
    pub name: Seq<char>,
    pub host: Seq<char>,
    pub port: u16,
}

impl View for CreateInstanceRequest {
    type V = CreateView;

    open spec fn view(&self) -> CreateView {
        CreateView { name: self.name@, host: self.host@, port: self.port }
    }
}

#[derive(Debug, Clone)]
pub struct StopInstanceRequest {
    pub name: String,
}

#[derive(Debug, Clone)]
pub struct RegisterRequest {
    pub name: String,
    pub id: String,
    pub route: String,
    pub config: RouteConfig,
    pub yolo: bool,
    pub args: Vec<String>,
}

/// A [`RegisterRequest`] over sequences.
#[verifier::ext_equal]
pub struct RegisterView {
    pub name: Seq<char>,
    pub id: Seq<char>,
    pub route: Seq<char>,
    pub config: RouteConfigView,
    pub yolo: bool,
    pub args: Seq<Seq<char>>,
}

impl View for RegisterRequest {
    type V = RegisterView;

    open spec fn view(&self) -> RegisterView {
        RegisterView {
            name: self.name@,
            id: self.id@,
            route: self.route@,
            config: self.config@,
            yolo: self.yolo,
            args: self.args.deep_view(),
        }
    }
}

#[derive(Debug, Clone)]
pub struct UnregisterRequest {
    pub name: String,
    pub id: String,
}

#[derive(Debug, Clone)]
pub struct StatusRequest {
    pub name: String,
}

#[derive(Debug, Clone)]
pub struct RegistrationsRequest {
    pub name: String,
}

/// One response is sent for each request.
#[derive(Debug, Clone)]
pub enum ResponseEnvelope {
    Success { version: u32, result: Response },
    Error { version: u32, error: ProtocolError },
}

/// What the daemon answers.
#[derive(Debug, Clone)]
pub enum Response {
    Health(HealthResult),
    CreateInstance(InstanceResult),
    StopInstance(StopInstanceResult),
    Register(RegistrationResult),
    Unregister(UnregisterResult),
    List(ListResult),
    Status(InstanceResult),
    Registrations(RegistrationsResult),
    Shutdown,
}

#[derive(Debug, Clone)]
pub struct HealthResult {
    pub protocol_version: u32,
}

#[derive(Debug, Clone)]
pub struct InstanceResult {
    pub name: String,
    pub host: String,
    pub port: u16,
    pub address: String,
    pub state: InstanceState,
}

/// An [`InstanceResult`] over sequences.
#[verifier::ext_equal]
pub struct InstanceResultView {
    pub name: Seq<char>,
    pub host: Seq<char>,
    pub port: u16,
    pub address: Seq<char>,
    pub state: InstanceState,
}

impl View for InstanceResult {
    type V = InstanceResultView;

    open spec fn view(&self) -> InstanceResultView {
        InstanceResultView {
            name: self.name@,
            host: self.host@,
            port: self.port,
            address: self.address@,
            state: self.state,
        }
    }
}

#[derive(Debug, Clone)]
pub struct StopInstanceResult {
    pub name: String,
}

#[derive(Debug, Clone)]
pub struct RegistrationResult {
    pub name: String,
    pub id: String,
    pub route: String,
    pub address: String,
    pub path: String,
    pub health_endpoint: bool,
    pub readyz_endpoint: bool,
    pub max_processes: usize,
    pub readiness: ReadinessResult,
}

/// A [`RegistrationResult`] over sequences.
#[verifier::ext_equal]
pub struct RegistrationResultView {
    pub name: Seq<char>,
    pub id: Seq<char>,
    pub route: Seq<char>,
    pub address: Seq<char>,
    pub path: Seq<char>,
    pub health_endpoint: bool,
    pub readyz_endpoint: bool,
    pub max_processes: usize,
    pub readiness: ReadinessResultView,
}

impl View for RegistrationResult {
    type V = RegistrationResultView;

    open spec fn view(&self) -> RegistrationResultView {
        RegistrationResultView {
            name: self.name@,
            id: self.id@,
            route: self.route@,
            address: self.address@,
            path: self.path@,
            health_endpoint: self.health_endpoint,
            readyz_endpoint: self.readyz_endpoint,
            max_processes: self.max_processes,
            readiness: self.readiness@,
        }
    }
}

#[derive(Debug, Clone)]
pub struct ReadinessResult {
    pub status: ReadinessStatus,
    pub attempts: u64,
    pub failures: u64,
    pub detail: Option<String>,
}

/// A [`ReadinessResult`] over sequences.
#[verifier::ext_equal]
pub struct ReadinessResultView {
    pub status: ReadinessStatus,
    pub attempts: u64,
    pub failures: u64,
    pub detail: Option<Seq<char>>,
}

impl View for ReadinessResult {
    type V = ReadinessResultView;

    open spec fn view(&self) -> ReadinessResultView {
        ReadinessResultView {
            status: self.status,
            attempts: self.attempts,
            failures: self.failures,
            detail: text::opt_text(self.detail),
        }
    }
}

#[derive(Debug, Clone, Copy, PartialEq, Eq, Structural)]
pub enum ReadinessStatus {
    Disabled,
    Ready,
    NotReady,
}

#[derive(Debug, Clone)]
pub struct UnregisterResult {
    pub name: String,
    pub id: String,
}

#[derive(Debug, Clone)]
pub struct ListResult {
    pub instances: Vec<InstanceResult>,
}

#[derive(Debug, Clone)]
pub struct RegistrationsResult {
    pub name: String,
    pub registrations: Vec<RegistrationResult>,
}

#[derive(Debug, Clone, Copy, PartialEq, Eq, Structural)]
pub enum InstanceState {
    Running,
    Stopping,
}

/// Stable error categories used by the control protocol.
#[derive(Debug, Clone, Copy, PartialEq, Eq, Structural)]
pub enum ErrorCode {
    Unavailable,
    InvalidInput,
    NotFound,
    Conflict,
    Operation,
}

#[derive(Debug, Clone)]
pub struct ProtocolError {
    pub code: ErrorCode,
    pub message: String,
}

/// A [`ProtocolError`] over sequences.
#[verifier::ext_equal]
pub struct ProtocolErrorView {
    pub code: ErrorCode,
    pub message: Seq<char>,
}

impl View for ProtocolError {
    type V = ProtocolErrorView;

    open spec fn view(&self) -> ProtocolErrorView {
        ProtocolErrorView { code: self.code, message: self.message@ }
    }
}

/// The number that four bytes stand for, the most significant first.
pub open spec fn big_endian(bytes: Seq<u8>) -> int {
    bytes[0] * 16777216 + bytes[1] * 65536 + bytes[2] * 256 + bytes[3]
}

/// The four bytes of a number, the most significant first.
pub open spec fn length_bytes(n: int) -> Seq<u8> {
    seq![
        (n / 16777216 % 256) as u8,
        (n / 65536 % 256) as u8,
        (n / 256 % 256) as u8,
        (n % 256) as u8,
    ]
}

/// A payload as it goes over the wire: its length in four bytes, and then itself.
pub open spec fn frame(payload: Seq<u8>) -> Seq<u8> {
    length_bytes(payload.len() as int) + payload
}

/// The refusal of a payload that is too large.
pub open spec fn oversized() -> FailureView {
    failure::failure("protocol frame payload exceeds 1048576 bytes"@)
}

/// Frames a payload.
pub fn write_frame(payload: &[u8]) -> (r: Result<Vec<u8>, Failure>)
    ensures
        match r {
            Ok(bytes) => payload@.len() <= MAX_FRAME_SIZE && bytes@ == frame(payload@),
            Err(e) => payload@.len() > MAX_FRAME_SIZE && e@ == oversized(),
        },
{
    if payload.len() > MAX_FRAME_SIZE {
        return Err(Failure::new("protocol frame payload exceeds 1048576 bytes".to_owned()));
    }
    let n: usize = payload.len();
    let mut bytes: Vec<u8> = Vec::new();
    bytes.push((n / 16777216 % 256) as u8);
    bytes.push((n / 65536 % 256) as u8);
    bytes.push((n / 256 % 256) as u8);
    bytes.push((n % 256) as u8);
    bytes.extend_from_slice(payload);
    assert(bytes@ =~= frame(payload@));
    Ok(bytes)
}

/// What is wrong with the length that a frame declares.
pub open spec fn length_fault(length: int) -> Option<FailureView> {
    if length == 0 {
        Some(failure::failure("protocol frame has an empty payload"@))
    } else if length > MAX_FRAME_SIZE {
        Some(oversized())
    } else {
        None
    }
}

/// Reads from the first four bytes of a frame how many follow.
pub fn payload_length(header: [u8; 4]) -> (r: Result<usize, Failure>)
    ensures
        match r {
            Ok(n) => length_fault(big_endian(header@)) is None && n == big_endian(header@),
            Err(e) => length_fault(big_endian(header@)) == Some(e@),
        },
{
    let n: u64 = (header[0] as u64) * 16777216 + (header[1] as u64) * 65536 + (header[2] as u64)
        * 256 + (header[3] as u64);
    if n == 0 {
        return Err(Failure::new("protocol frame has an empty payload".to_owned()));
    }
    if n > 1048576 {
        return Err(Failure::new("protocol frame payload exceeds 1048576 bytes".to_owned()));
    }
    Ok(n as usize)
}

/// The place where sending or receiving a frame failed.
#[derive(Debug, Clone, Copy, PartialEq, Eq, Structural)]
pub enum FramePart {
    ReadLength,
    ReadPayload,
    Decode,
    Encode,
    WriteLength,
    WritePayload,
    Flush,
}

impl FramePart {
    /// What failed, in words.
    pub open spec fn words(self) -> Seq<char> {
        match self {
            FramePart::ReadLength => "failed to read protocol frame length"@,
            FramePart::ReadPayload => "truncated protocol frame payload"@,
            FramePart::Decode => "invalid protocol JSON payload"@,
            FramePart::Encode => "failed to serialize protocol JSON payload"@,
            FramePart::WriteLength => "failed to write protocol frame length"@,
            FramePart::WritePayload => "failed to write protocol frame payload"@,
            FramePart::Flush => "failed to flush protocol frame"@,
        }
    }

    /// Reports a failure at this place.
    pub fn report(self, cause: Failure) -> (r: Failure)
        ensures
            r@ == cause@.within(self.words()),
    {
        let words = match self {
            FramePart::ReadLength => "failed to read protocol frame length",
            FramePart::ReadPayload => "truncated protocol frame payload",
            FramePart::Decode => "invalid protocol JSON payload",
            FramePart::Encode => "failed to serialize protocol JSON payload",
            FramePart::WriteLength => "failed to write protocol frame length",
            FramePart::WritePayload => "failed to write protocol frame payload",
            FramePart::Flush => "failed to flush protocol frame",
        };
        cause.within(words.to_owned())
    }
}

/// The next step in reading a frame.
#[derive(Debug)]
pub enum FrameStep {
    /// So many bytes are to be read; where the stream ends before, this is the part that failed.
    Read { part: FramePart, count: usize },
    /// The frame is there, with this payload.
    Payload(Vec<u8>),
}

/// A [`FrameStep`] over sequences.
#[verifier::ext_equal]
pub enum FrameStepView {
    Read { part: FramePart, count: int },
    Payload(Seq<u8>),
}

impl View for FrameStep {
    type V = FrameStepView;

    open spec fn view(&self) -> FrameStepView {
        match self {
            FrameStep::Read { part, count } => FrameStepView::Read {
                part: *part,
                count: *count as int,
            },
            FrameStep::Payload(payload) => FrameStepView::Payload(payload@),
        }
    }
}

/// What is to be done once `received` has been read: first the length is read, then as many bytes
/// as it declares, unless it may not declare that.
pub open spec fn frame_step(received: Seq<u8>) -> Result<FrameStepView, FailureView> {
    if received.len() < 4 {
        Ok(FrameStepView::Read { part: FramePart::ReadLength, count: 4 - received.len() })
    } else {
        let length = big_endian(received.take(4));
        match length_fault(length) {
            Some(e) => Err(e),
            None => if received.len() < 4 + length {
                Ok(
                    FrameStepView::Read {
                        part: FramePart::ReadPayload,
                        count: 4 + length - received.len(),
                    },
                )
            } else {
                Ok(FrameStepView::Payload(received.subrange(4, 4 + length)))
            },
        }
    }
}

/// Decides what is to be done once `received` has been read of a frame.
pub fn read_frame(received: &[u8]) -> (r: Result<FrameStep, Failure>)
    ensures
        match r {
            Ok(step) => frame_step(received@) == Ok::<FrameStepView, FailureView>(step@),
            Err(e) => frame_step(received@) == Err::<FrameStepView, FailureView>(e@),
        },
{
    if received.len() < 4 {
        return Ok(FrameStep::Read { part: FramePart::ReadLength, count: 4 - received.len() });
    }
    let header: [u8; 4] = [received[0], received[1], received[2], received[3]];
    assert(header@ =~= received@.take(4));
    let length: usize = match payload_length(header) {
        Err(e) => {
            return Err(e);
        },
        Ok(length) => length,
    };
    if received.len() - 4 < length {
        return Ok(
            FrameStep::Read { part: FramePart::ReadPayload, count: length - (received.len() - 4) },
        );
    }
    let mut payload: Vec<u8> = Vec::new();
    payload.extend_from_slice(vstd::slice::slice_subrange(received, 4, 4 + length));
    assert(payload@ =~= received@.subrange(4, 4 + length));
    Ok(FrameStep::Payload(payload))
}

proof fn lemma_length_is_read_back(payload: Seq<u8>)
    requires
        payload.len() <= MAX_FRAME_SIZE,
    ensures
        big_endian(frame(payload).take(4)) == payload.len(),
{
    let n = payload.len() as int;
    assert(frame(payload).take(4) =~= length_bytes(n));
    assert(n / 16777216 % 256 == n / 16777216);
    assert(n / 65536 % 256 == n / 65536 - 256 * (n / 16777216));
    assert(n / 256 % 256 == n / 256 - 256 * (n / 65536));
    assert(n % 256 == n - 256 * (n / 256));
}

/// What is written is read: a frame declares the length of its payload, and reading the whole
/// frame gives the payload back, whatever follows it.
pub proof fn law_frames_are_read_back(payload: Seq<u8>, rest: Seq<u8>)
    requires
        0 < payload.len() <= MAX_FRAME_SIZE,
    ensures
        frame(payload).len() == 4 + payload.len(),
        big_endian(frame(payload).take(4)) == payload.len(),
        frame_step(frame(payload) + rest) == Ok::<FrameStepView, FailureView>(
            FrameStepView::Payload(payload),
        ),
{
    let all = frame(payload) + rest;
    lemma_length_is_read_back(payload);
    assert(all.take(4) =~= frame(payload).take(4));
    assert(all.subrange(4, 4 + payload.len() as int) =~= payload);
}

/// A frame that breaks off is not taken for one: whatever is missing, reading asks for it, and for
/// no more than that.
pub proof fn law_truncated_frames_are_not_read(payload: Seq<u8>, at: int)
    requires
        0 < payload.len() <= MAX_FRAME_SIZE,
        0 <= at < frame(payload).len(),
    ensures
        frame_step(frame(payload).take(at)) == Ok::<FrameStepView, FailureView>(
            if at < 4 {
                FrameStepView::Read { part: FramePart::ReadLength, count: 4 - at }
            } else {
                FrameStepView::Read {
                    part: FramePart::ReadPayload,
                    count: frame(payload).len() - at,
                }
            },
        ),
{
    lemma_length_is_read_back(payload);
    if at >= 4 {
        assert(frame(payload).take(at).take(4) =~= frame(payload).take(4));
    }
}

/// A frame that declares no bytes or too many is refused as soon as its length is there.
pub proof fn law_bad_lengths_are_refused(received: Seq<u8>)
    requires
        received.len() >= 4,
    ensures
        frame_step(received) is Err <==> big_endian(received.take(4)) == 0 || big_endian(
            received.take(4),
        ) > MAX_FRAME_SIZE,
{
}

/// The directory in which the socket goes unless another is named: the first that is known.
pub open spec fn socket_base(
    runtime_dir: Option<Seq<char>>,
    cache_dir: Option<Seq<char>>,
    home_dir: Option<Seq<char>>,
) -> Option<Seq<char>> {
    if runtime_dir is Some {
        runtime_dir
    } else if cache_dir is Some {
        cache_dir
    } else {
        home_dir
    }
}

/// The socket's path beneath a base directory.
pub open spec fn socket_in(base: Seq<char>) -> Seq<char> {
    paths::join(paths::join(paths::join(base, "acp-agent"@), "daemon"@), "daemon.sock"@)
}

/// Finds the socket's path where none is named.
pub fn default_socket_path(
    runtime_dir: Option<&str>,
    cache_dir: Option<&str>,
    home_dir: Option<&str>,
) -> (r: Result<String, Failure>)
    ensures
        match socket_base(text_option(runtime_dir), text_option(cache_dir), text_option(home_dir)) {
            Some(base) => r is Ok && r->Ok_0@ == socket_in(base),
            None => r is Err && r->Err_0@ == failure::failure(
                "failed to locate a user-scoped runtime directory"@,
            ),
        },
{
    let base = match runtime_dir {
        Some(dir) => Some(dir),
        None => match cache_dir {
            Some(dir) => Some(dir),
            None => home_dir,
        },
    };
    match base {
        Some(dir) => Ok(
            join_path(
                join_path(join_path(dir, "acp-agent").as_str(), "daemon").as_str(),
                "daemon.sock",
            ),
        ),
        None => Err(
            Failure::new("failed to locate a user-scoped runtime directory".to_owned()),
        ),
    }
}

/// What is wrong with the path of a socket on a system that can represent `limit` bytes.
pub open spec fn socket_path_fault(path: Seq<char>, limit: usize) -> Option<Seq<char>> {
    if !paths::is_absolute(path) {
        Some("daemon socket path must be absolute: "@ + path)
    } else if paths::file_name(path) is None {
        Some("daemon socket path must name a socket file: "@ + path)
    } else if path.contains('\0') {
        Some("daemon socket path must not contain NUL"@)
    } else if vstd::utf8::encode_utf8(path).len() > limit {
        Some(
            "daemon socket path is too long (maximum is "@ + text::decimal(limit as nat)
                + " bytes): "@ + path,
        )
    } else {
        None
    }
}

/// Checks the path of a socket.
pub fn validate_socket_path(path: &str, limit: usize) -> (r: Result<(), Failure>)
    ensures
        match socket_path_fault(path@, limit) {
            None => r is Ok,
            Some(words) => r is Err && r->Err_0@ == failure::failure(words),
        },
{
    if !path_is_absolute(path) {
        return Err(Failure::new("daemon socket path must be absolute: ".to_owned().concat(path)));
    }
    if file_name_of(path).is_none() {
        return Err(
            Failure::new("daemon socket path must name a socket file: ".to_owned().concat(path)),
        );
    }
    if has_char(path, '\0') {
        return Err(Failure::new("daemon socket path must not contain NUL".to_owned()));
    }
    if path.as_bytes().len() > limit {
        return Err(
            Failure::new(
                "daemon socket path is too long (maximum is ".to_owned().concat(
                    to_decimal(limit as u128).as_str(),
                ).concat(" bytes): ").concat(path),
            ),
        );
    }
    Ok(())
}

/// Where the daemon's socket is, and the directory that must be private for it.
#[derive(Debug, Clone)]
pub struct SocketPlace {
    pub path: String,
    pub parent: String,
}

/// Decides where the socket is: at the path that was named, or at the one found by default.
pub fn socket_path_from(
    named: Option<&str>,
    found: Result<String, Failure>,
    limit: usize,
) -> (r: Result<SocketPlace, Failure>)
    ensures
        match (named, found) {
            (Some(path), _) => if path@.len() == 0 {
                r is Err && r->Err_0@ == failure::failure(
                    "ACP_AGENT_DAEMON_SOCKET must not be empty"@,
                )
            } else {
                placed(r, path@, limit)
            },
            (None, Ok(path)) => placed(r, path@, limit),
            (None, Err(e)) => r is Err && r->Err_0@ == e@,
        },
{
    let path: String = match named {
        Some(path) => {
            if path.is_empty() {
                return Err(
                    Failure::new("ACP_AGENT_DAEMON_SOCKET must not be empty".to_owned()),
                );
            }
            path.to_owned()
        },
        None => found?,
    };
    validate_socket_path(path.as_str(), limit)?;
    match parent_of(path.as_str()) {
        Some(parent) => {
            if parent.as_str().is_empty() {
                return Err(no_parent());
            }
            Ok(SocketPlace { path, parent })
        },
        None => Err(no_parent()),
    }
}

fn no_parent() -> (r: Failure)
    ensures
        r@ == failure::failure("daemon socket path has no parent directory"@),
{
    Failure::new("daemon socket path has no parent directory".to_owned())
}

/// Whether `r` is the place of a socket at `path`, or says what is wrong with that path.
pub open spec fn placed(r: Result<SocketPlace, Failure>, path: Seq<char>, limit: usize) -> bool {
    match socket_path_fault(path, limit) {
        Some(words) => r is Err && r->Err_0@ == failure::failure(words),
        None => match paths::parent(path) {
            Some(parent) => if parent.len() == 0 {
                r is Err && r->Err_0@ == failure::failure(
                    "daemon socket path has no parent directory"@,
                )
            } else {
                r is Ok && r->Ok_0.path@ == path && r->Ok_0.parent@ == parent
            },
            None => r is Err && r->Err_0@ == failure::failure(
                "daemon socket path has no parent directory"@,
            ),
        },
    }
}

/// A number in octal digits, without leading zeros.
pub open spec fn octal(n: nat) -> Seq<char>
    decreases n,
{
    if n < 8 {
        seq![text::digit_char(n)]
    } else {
        octal(n / 8).push(text::digit_char(n % 8))
    }
}

fn to_octal(n: u32) -> (r: String)
    ensures
        r@ == octal(n as nat),
    decreases n,
{
    let d: u8 = (n % 8) as u8;
    if n < 8 {
        let mut r = String::new();
        r.push((48 + d) as char);
        assert(r@ =~= octal(n as nat));
        r
    } else {
        let mut r = to_octal(n / 8);
        r.push((48 + d) as char);
        r
    }
}

/// Checks that only its owner can use the directory of the socket. Of `mode`, only the last nine
/// bits say who can.
pub fn check_parent_mode(mode: u32, parent: &str) -> (r: Result<(), Failure>)
    ensures
        if mode % 512 == 448 {
            r is Ok
        } else {
            r is Err && r->Err_0@ == failure::failure(
                "daemon socket parent must have mode 0700 (found "@ + text::zero_padded(
                    octal((mode % 512) as nat),
                    4,
                ) + "): "@ + parent@,
            )
        },
{
    let bits: u32 = mode % 512;
    if bits != 448 {
        let shown = pad_zeros(to_octal(bits), 4);
        return Err(
            Failure::new(
                "daemon socket parent must have mode 0700 (found ".to_owned().concat(
                    shown.as_str(),
                ).concat("): ").concat(parent),
            ),
        );
    }
    Ok(())
}

/// What was found in the place of the socket's directory.
#[derive(Debug)]
pub enum ParentFound {
    Directory,
    Other,
    Nothing,
    /// It could not be looked at.
    Unknown(Failure),
}

/// Judges what was found in the place of the socket's directory: tells whether the directory is to
/// be made.
pub fn must_make_parent(found: ParentFound, parent: &str) -> (r: Result<bool, Failure>)
    ensures
        match found {
            ParentFound::Directory => r == Ok::<bool, Failure>(false),
            ParentFound::Nothing => r == Ok::<bool, Failure>(true),
            ParentFound::Other => r is Err && r->Err_0@ == failure::failure(
                "daemon socket parent is not a directory: "@ + parent@,
            ),
            ParentFound::Unknown(e) => r is Err && r->Err_0@ == e@.within(
                "failed to inspect daemon socket directory "@ + parent@,
            ),
        },
{
    match found {
        ParentFound::Directory => Ok(false),
        ParentFound::Nothing => Ok(true),
        ParentFound::Other => Err(
            Failure::new("daemon socket parent is not a directory: ".to_owned().concat(parent)),
        ),
        ParentFound::Unknown(e) => Err(
            e.within("failed to inspect daemon socket directory ".to_owned().concat(parent)),
        ),
    }
}

/// A frame is the length of its payload in four bytes, the highest first, and then the payload.
pub proof fn law_frames_begin_with_their_length(payload: Seq<u8>)
    requires
        payload.len() <= 1_048_576,
    ensures
        frame(payload)[0] * 16_777_216 + frame(payload)[1] * 65_536 + frame(payload)[2] * 256
            + frame(payload)[3] == payload.len(),
        frame(payload).skip(4) == payload,
        frame(payload).len() == payload.len() + 4,
{
    assert(frame(payload).skip(4) =~= payload);
}

/// What was received is a whole frame exactly if it begins with a length above nothing and within a
/// mebibyte, and as many bytes follow; those are its payload, whatever comes behind them.
pub proof fn law_payloads_are_as_long_as_announced(received: Seq<u8>)
    requires
        received.len() >= 4,
    ensures
        ({
            let n = received[0] * 16_777_216 + received[1] * 65_536 + received[2] * 256
                + received[3];
            let step = frame_step(received);
            &&& step is Err <==> n == 0 || n > 1_048_576
            &&& step matches Ok(FrameStepView::Payload(payload)) ==> payload == received.subrange(
                4,
                4 + n,
            )
            &&& step is Ok ==> (step->Ok_0 is Payload <==> received.len() >= 4 + n)
            &&& step is Ok && received.len() < 4 + n ==> step->Ok_0 == (FrameStepView::Read {
                part: FramePart::ReadPayload,
                count: 4 + n - received.len(),
            })
        }),
{
    let head = received.take(4);
    assert(head[0] == received[0] && head[1] == received[1] && head[2] == received[2] && head[3]
        == received[3]);
}

/// The socket is looked for in the runtime directory, else in the cache directory, else at home.
pub proof fn law_sockets_prefer_the_runtime_directory(
    runtime: Seq<char>,
    cache: Option<Seq<char>>,
    home: Option<Seq<char>>,
)
    ensures
        socket_base(Some(runtime), cache, home) == Some(runtime),
        cache is Some ==> socket_base(None, cache, home) == cache,
        socket_base(None, None, home) == home,
{
}

/// A socket lies three names below its base: in the daemon's directory of the program's.
pub proof fn law_sockets_lie_in_the_daemons_directory(base: Seq<char>)
    requires
        base.len() > 0,
        base.last() != '/',
    ensures
        socket_in(base) == base + "/acp-agent/daemon/daemon.sock"@,
{
    reveal_strlit("acp-agent");
    reveal_strlit("daemon");
    reveal_strlit("daemon.sock");
    reveal_strlit("/acp-agent/daemon/daemon.sock");
    assert(socket_in(base) =~= base + "/acp-agent/daemon/daemon.sock"@);
}

/// A path may be that of a socket exactly if it is absolute, ends in a name, holds no NUL and is no
/// longer than sockets may be.
pub proof fn law_sockets_have_absolute_paths_that_fit(path: Seq<char>, limit: usize)
    ensures
        socket_path_fault(path, limit) is None <==> {
            &&& path.len() > 0
            &&& path[0] == '/'
            &&& paths::file_name(path) is Some
            &&& !path.contains('\0')
            &&& vstd::utf8::encode_utf8(path).len() <= limit
        },
{
}

/// The number that octal digits stand for.
pub open spec fn octal_number(digits: Seq<char>) -> int
    decreases digits.len(),
{
    if digits.len() == 0 {
        0
    } else {
        octal_number(digits.drop_last()) * 8 + (digits.last() as int - '0' as int)
    }
}

/// A mode is written in octal digits: they stand for the number.
pub proof fn law_modes_are_written_in_octal(n: nat)
    ensures
        octal_number(octal(n)) == n,
        octal(n).len() > 0,
    decreases n,
{
    if n < 8 {
        assert(octal(n).drop_last().len() == 0);
        reveal_with_fuel(octal_number, 2);
    } else {
        law_modes_are_written_in_octal(n / 8);
        assert(octal(n).drop_last() =~= octal(n / 8));
    }
}

/// Requests, replies and errors with the same view agree on everything.
pub proof fn law_protocol_views_hold_every_field(
    c: (CreateInstanceRequest, CreateInstanceRequest),
    r: (RegisterRequest, RegisterRequest),
    i: (InstanceResult, InstanceResult),
    g: (RegistrationResult, RegistrationResult),
    e: (ProtocolError, ProtocolError),
)
    ensures
        c.0@ == c.1@ ==> c.0.name@ == c.1.name@ && c.0.host@ == c.1.host@ && c.0.port == c.1.port,
        r.0@ == r.1@ ==> r.0.name@ == r.1.name@ && r.0.id@ == r.1.id@ && r.0.route@ == r.1.route@
            && r.0.config@ == r.1.config@ && r.0.yolo == r.1.yolo && r.0.args.deep_view()
            == r.1.args.deep_view(),
        i.0@ == i.1@ ==> i.0.name@ == i.1.name@ && i.0.host@ == i.1.host@ && i.0.port == i.1.port
            && i.0.address@ == i.1.address@ && i.0.state == i.1.state,
        g.0@ == g.1@ ==> g.0.name@ == g.1.name@ && g.0.id@ == g.1.id@ && g.0.route@ == g.1.route@
            && g.0.address@ == g.1.address@ && g.0.path@ == g.1.path@ && g.0.health_endpoint
            == g.1.health_endpoint && g.0.readyz_endpoint == g.1.readyz_endpoint
            && g.0.max_processes == g.1.max_processes && g.0.readiness.status
            == g.1.readiness.status && g.0.readiness.attempts == g.1.readiness.attempts
            && g.0.readiness.failures == g.1.readiness.failures && text::opt_text(
            g.0.readiness.detail,
        ) == text::opt_text(g.1.readiness.detail),
        e.0@ == e.1@ ==> e.0.code == e.1.code && e.0.message@ == e.1.message@,
{
}

/// A payload is framed exactly if it is within a mebibyte.
pub proof fn law_payloads_within_a_mebibyte_are_framed(
    payload: &[u8],
    r: Result<Vec<u8>, Failure>,
    header: [u8; 4],
    length: Result<usize, Failure>,
)
    requires
        call_ensures(write_frame, (payload,), r),
        call_ensures(payload_length, (header,), length),
    ensures
        r is Ok <==> payload@.len() <= 1_048_576,
        r is Ok ==> r->Ok_0@.skip(4) == payload@,
        length is Ok <==> 0 < header@[0] * 16_777_216 + header@[1] * 65_536 + header@[2] * 256
            + header@[3] <= 1_048_576,
        length is Ok ==> length->Ok_0 == header@[0] * 16_777_216 + header@[1] * 65_536 + header@[2]
            * 256 + header@[3],
{
    if r is Ok {
        law_frames_begin_with_their_length(payload@);
    }
}

/// A socket that is named is used, unless its name is empty; else the one that was found. Its
/// directory must be the user's alone.
pub proof fn law_named_sockets_are_used(
    named: Option<&str>,
    found: Result<String, Failure>,
    limit: usize,
    r: Result<SocketPlace, Failure>,
    mode: u32,
    parent: &str,
    private: Result<(), Failure>,
)
    requires
        call_ensures(socket_path_from, (named, found, limit), r),
        call_ensures(check_parent_mode, (mode, parent), private),
    ensures
        r is Ok && named is Some ==> r->Ok_0.path@ == named->Some_0@ && named->Some_0@.len() > 0,
        r is Ok && named is None ==> found is Ok && r->Ok_0.path@ == found->Ok_0@,
        r is Ok ==> socket_path_fault(r->Ok_0.path@, limit) is None && paths::parent(
            r->Ok_0.path@,
        ) == Some(r->Ok_0.parent@),
        named is None && found is Err ==> r is Err && r->Err_0@ == found->Err_0@,
        private is Ok <==> mode % 512 == 7 * 64,
{
}

/// A directory for the socket is made exactly if nothing is there, and used if it is one; anything
/// else is refused.
pub proof fn law_socket_directories_are_made_where_missing(
    found: ParentFound,
    parent: &str,
    r: Result<bool, Failure>,
)
    requires
        call_ensures(must_make_parent, (found, parent), r),
    ensures
        r is Ok && r->Ok_0 <==> found is Nothing,
        r is Ok && !r->Ok_0 <==> found is Directory,
        found is Unknown ==> r is Err && r->Err_0@.causes.first() == found->Unknown_0@.message,
        r is Err ==> parent@.is_suffix_of(r->Err_0@.message),
{
    if r is Err {
        let all = r->Err_0@.message;
        assert(all.skip(all.len() - parent@.len()) =~= parent@);
    }
}

} // verus!
