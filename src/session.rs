//! The messages between a session's caller and its actor, and the decisions
//! the actor takes on what its shell channel reports.
use vstd::prelude::*;
use vstd::string::StringSliceAdditionalSpecFns;
use crate::config::{AuthType, ConnectionConfig};
use crate::registry::ConnectError;
use crate::text::{contains, contains_bytes};
use vstd::string::StringExecFns;

verus! {

/// How many queued inputs an actor writes per tick, so that a flood of
/// input cannot starve its reads.
pub const MAX_WRITES_PER_TICK: usize = 10;

/// A request to a session's actor.
#[derive(Clone, Debug)]
pub enum SshMessage {
    /// Write this input to the channel.
    SendCommand(String),
    /// Read what the channel has.
    ReadOutput,
    /// Close the channel and stop.
    Disconnect,
    /// Report whether the channel is alive.
    CheckStatus,
}

/// An actor's answer.
#[derive(Debug)]
pub enum SshResponse {
    CommandResult(Result<(), String>),
    OutputData(String),
    ConnectionStatus(bool),
    Error(String),
}

/// Output of one session.
#[derive(Clone, Debug)]
pub struct SshData {
    pub data: String,
    pub connection_id: String,
}

/// The outcome of one command.
#[derive(Debug)]
pub struct CommandResult {
    pub command: String,
    pub output: Result<String, String>,
}

/// The kinds of I/O failure a channel reports.
#[derive(Clone, Copy, Debug, PartialEq, Eq, Structural)]
pub enum IoErrorKind {
    WouldBlock,
    TimedOut,
    Interrupted,
    BrokenPipe,
    UnexpectedEof,
    ConnectionReset,
    Other,
}

/// What one non-blocking read of the channel gave.
#[derive(Clone, Debug)]
pub enum ReadEvent {
    Data(Vec<u8>),
    /// Nothing to read yet.
    NoData,
    /// The peer closed the channel.
    PeerClosed,
    Failed(IoErrorKind),
}

/// A failure that only means "no data yet": would-block or a timeout.
pub open spec fn recoverable(k: IoErrorKind) -> bool {
    k == IoErrorKind::WouldBlock || k == IoErrorKind::TimedOut
}

pub fn is_recoverable(k: IoErrorKind) -> (b: bool)
    ensures
        b == recoverable(k),
{
    match k {
        IoErrorKind::WouldBlock | IoErrorKind::TimedOut => true,
        _ => false,
    }
}

/// A failure after which the channel cannot be used again: a broken pipe,
/// an end of file where data was due, or a reset connection.
pub open spec fn fatal(k: IoErrorKind) -> bool {
    k == IoErrorKind::BrokenPipe || k == IoErrorKind::UnexpectedEof || k == IoErrorKind::ConnectionReset
}

pub fn is_fatal(k: IoErrorKind) -> (b: bool)
    ensures
        b == fatal(k),
{
    match k {
        IoErrorKind::BrokenPipe | IoErrorKind::UnexpectedEof | IoErrorKind::ConnectionReset => true,
        _ => false,
    }
}

/// Whether a shell channel is still usable.
pub struct ChannelState {
    alive: bool,
}

impl ChannelState {
    pub closed spec fn spec_alive(&self) -> bool {
        self.alive
    }

    /// A freshly opened channel.
    pub fn new() -> (c: ChannelState)
        ensures
            c.spec_alive(),
    {
        ChannelState { alive: true }
    }

    pub fn is_alive(&self) -> (b: bool)
        ensures
            b == self.spec_alive(),
    {
        self.alive
    }

    /// What a read hands on: data as it came; nothing for "no data", a
    /// closed peer, a would-block or a timeout; the error for any other
    /// failure. A closed peer and a fatal failure mark the channel dead;
    /// other failures leave it as it was.
    pub fn on_read(&mut self, ev: ReadEvent) -> (r: Result<Vec<u8>, IoErrorKind>)
        ensures
            match ev {
                ReadEvent::Data(d) => r matches Ok(v) && v@ == d@ && final(self).spec_alive() == old(self).spec_alive(),
                ReadEvent::NoData => r matches Ok(v) && v@.len() == 0 && final(self).spec_alive() == old(self).spec_alive(),
                ReadEvent::PeerClosed => r matches Ok(v) && v@.len() == 0 && !final(self).spec_alive(),
                ReadEvent::Failed(k) => if recoverable(k) {
                    r matches Ok(v) && v@.len() == 0 && final(self).spec_alive() == old(self).spec_alive()
                } else {
                    r == Err::<Vec<u8>, IoErrorKind>(k) && final(self).spec_alive() == (old(self).spec_alive()
                        && !fatal(k))
                },
            },
    {
        match ev {
            ReadEvent::Data(d) => Ok(d),
            ReadEvent::NoData => Ok(Vec::new()),
            ReadEvent::PeerClosed => {
                self.alive = false;
                Ok(Vec::new())
            },
            ReadEvent::Failed(k) => {
                if is_recoverable(k) {
                    Ok(Vec::new())
                } else {
                    if is_fatal(k) {
                        self.alive = false;
                    }
                    Err(k)
                }
            },
        }
    }

    /// A failed write marks the channel dead at once.
    pub fn on_write(&mut self, ok: bool)
        ensures
            final(self).spec_alive() == (old(self).spec_alive() && ok),
    {
        if !ok {
            self.alive = false;
        }
    }
}

/// Whether an actor should sleep before its next tick: it neither wrote nor
/// read anything in this one.
pub fn should_idle(written: usize, read: usize) -> (b: bool)
    ensures
        b == (written == 0 && read == 0),
{
    written == 0 && read == 0
}

/// A byte with ASCII letters folded to lower case.
pub open spec fn ascii_lower(b: u8) -> u8 {
    if 0x41 <= b <= 0x5a { (b + 32) as u8 } else { b }
}

pub open spec fn password_word() -> Seq<u8> {
    seq![0x70u8, 0x61u8, 0x73u8, 0x73u8, 0x77u8, 0x6fu8, 0x72u8, 0x64u8]
}

/// Whether the output asks for a password: it holds "password" in any
/// ASCII case.
pub open spec fn asks_password(data: Seq<u8>) -> bool {
    contains(data.map_values(|b: u8| ascii_lower(b)), password_word())
}

fn lower_bytes(data: &[u8]) -> (v: Vec<u8>)
    ensures
        v@ == data@.map_values(|b: u8| ascii_lower(b)),
{
    let mut v: Vec<u8> = Vec::new();
    let mut i: usize = 0;
    while i < data.len()
        invariant
            i <= data@.len(),
            v@ == data@.subrange(0, i as int).map_values(|b: u8| ascii_lower(b)),
        decreases data@.len() - i,
    {
        let b = data[i];
        v.push(if 0x41 <= b && b <= 0x5a { b + 32 } else { b });
        i = i + 1;
        assert(v@ =~= data@.subrange(0, i as int).map_values(|b: u8| ascii_lower(b)));
    }
    assert(data@.subrange(0, i as int) =~= data@);
    v
}

/// Whether the output asks for a password.
pub fn is_password_prompt(data: &str) -> (b: bool)
    ensures
        b == asks_password(data.spec_bytes()),
{
    let lower = lower_bytes(data.as_bytes());
    let word = vec![0x70u8, 0x61u8, 0x73u8, 0x73u8, 0x77u8, 0x6fu8, 0x72u8, 0x64u8];
    assert(word@ =~= password_word());
    contains_bytes(lower.as_slice(), word.as_slice())
}

/// What to write when a session's output arrives: the password and CR LF,
/// once, when the session authenticates by password, has one, has not sent
/// it yet and the output asks for it; nothing otherwise.
pub fn password_reply(config: &ConnectionConfig, password_sent: bool, data: &str) -> (r: Option<String>)
    ensures
        r is Some == (!password_sent && config.auth_type == AuthType::Password && config.password is Some
            && asks_password(data.spec_bytes())),
        r matches Some(s) ==> s@ == config.password->Some_0@ + seq!['\r', '\n'],
{
    if password_sent || config.auth_type != AuthType::Password {
        return None;
    }
    match &config.password {
        None => None,
        Some(p) => {
            if is_password_prompt(data) {
                let mut s = String::new();
                s.append(p.as_str());
                let crlf = "\r\n";
                proof {
                    reveal_strlit("\r\n");
                }
                s.append(crlf);
                assert(s@ =~= p@ + seq!['\r', '\n']);
                Some(s)
            } else {
                None
            }
        },
    }
}

/// Which part of setting up a connection failed.
#[derive(Clone, Copy, Debug, PartialEq, Eq, Structural)]
pub enum FailureKind {
    Transport,
    Handshake,
    Auth,
}

/// "Permission denied"
pub open spec fn msg_auth_denied() -> Seq<u8> {
    seq![0x50u8, 0x65u8, 0x72u8, 0x6du8, 0x69u8, 0x73u8, 0x73u8, 0x69u8, 0x6fu8, 0x6eu8, 0x20u8, 0x64u8, 0x65u8, 0x6eu8, 0x69u8, 0x65u8, 0x64u8]
}

/// "Unable to negotiate"
pub open spec fn msg_negotiate() -> Seq<u8> {
    seq![0x55u8, 0x6eu8, 0x61u8, 0x62u8, 0x6cu8, 0x65u8, 0x20u8, 0x74u8, 0x6fu8, 0x20u8, 0x6eu8, 0x65u8, 0x67u8, 0x6fu8, 0x74u8, 0x69u8, 0x61u8, 0x74u8, 0x65u8]
}

/// "kex_exchange_identification"
pub open spec fn msg_kex() -> Seq<u8> {
    seq![0x6bu8, 0x65u8, 0x78u8, 0x5fu8, 0x65u8, 0x78u8, 0x63u8, 0x68u8, 0x61u8, 0x6eu8, 0x67u8, 0x65u8, 0x5fu8, 0x69u8, 0x64u8, 0x65u8, 0x6eu8, 0x74u8, 0x69u8, 0x66u8, 0x69u8, 0x63u8, 0x61u8, 0x74u8, 0x69u8, 0x6fu8, 0x6eu8]
}

/// "Could not resolve hostname"
pub open spec fn msg_resolve() -> Seq<u8> {
    seq![0x43u8, 0x6fu8, 0x75u8, 0x6cu8, 0x64u8, 0x20u8, 0x6eu8, 0x6fu8, 0x74u8, 0x20u8, 0x72u8, 0x65u8, 0x73u8, 0x6fu8, 0x6cu8, 0x76u8, 0x65u8, 0x20u8, 0x68u8, 0x6fu8, 0x73u8, 0x74u8, 0x6eu8, 0x61u8, 0x6du8, 0x65u8]
}

/// "Connection refused"
pub open spec fn msg_refused() -> Seq<u8> {
    seq![0x43u8, 0x6fu8, 0x6eu8, 0x6eu8, 0x65u8, 0x63u8, 0x74u8, 0x69u8, 0x6fu8, 0x6eu8, 0x20u8, 0x72u8, 0x65u8, 0x66u8, 0x75u8, 0x73u8, 0x65u8, 0x64u8]
}

/// "Connection timed out"
pub open spec fn msg_timed_out() -> Seq<u8> {
    seq![0x43u8, 0x6fu8, 0x6eu8, 0x6eu8, 0x65u8, 0x63u8, 0x74u8, 0x69u8, 0x6fu8, 0x6eu8, 0x20u8, 0x74u8, 0x69u8, 0x6du8, 0x65u8, 0x64u8, 0x20u8, 0x6fu8, 0x75u8, 0x74u8]
}

/// "No route to host"
pub open spec fn msg_no_route() -> Seq<u8> {
    seq![0x4eu8, 0x6fu8, 0x20u8, 0x72u8, 0x6fu8, 0x75u8, 0x74u8, 0x65u8, 0x20u8, 0x74u8, 0x6fu8, 0x20u8, 0x68u8, 0x6fu8, 0x73u8, 0x74u8]
}

/// What the ssh client's own messages say went wrong, if anything: a
/// rejected login, then a failed negotiation, then an unreachable host.
pub open spec fn ssh_failure(data: Seq<u8>) -> Option<FailureKind> {
    if contains(data, msg_auth_denied()) {
        Some(FailureKind::Auth)
    } else if contains(data, msg_negotiate()) || contains(data, msg_kex()) {
        Some(FailureKind::Handshake)
    } else if contains(data, msg_resolve()) || contains(data, msg_refused()) || contains(data, msg_timed_out())
        || contains(data, msg_no_route()) {
        Some(FailureKind::Transport)
    } else {
        None
    }
}

fn says_auth_denied(data: &[u8]) -> (b: bool)
    ensures
        b == contains(data@, msg_auth_denied()),
{
    let w = vec![0x50u8, 0x65u8, 0x72u8, 0x6du8, 0x69u8, 0x73u8, 0x73u8, 0x69u8, 0x6fu8, 0x6eu8, 0x20u8, 0x64u8, 0x65u8, 0x6eu8, 0x69u8, 0x65u8, 0x64u8];
    assert(w@ =~= msg_auth_denied());
    contains_bytes(data, w.as_slice())
}

fn says_negotiate(data: &[u8]) -> (b: bool)
    ensures
        b == contains(data@, msg_negotiate()),
{
    let w = vec![0x55u8, 0x6eu8, 0x61u8, 0x62u8, 0x6cu8, 0x65u8, 0x20u8, 0x74u8, 0x6fu8, 0x20u8, 0x6eu8, 0x65u8, 0x67u8, 0x6fu8, 0x74u8, 0x69u8, 0x61u8, 0x74u8, 0x65u8];
    assert(w@ =~= msg_negotiate());
    contains_bytes(data, w.as_slice())
}

fn says_kex(data: &[u8]) -> (b: bool)
    ensures
        b == contains(data@, msg_kex()),
{
    let w = vec![0x6bu8, 0x65u8, 0x78u8, 0x5fu8, 0x65u8, 0x78u8, 0x63u8, 0x68u8, 0x61u8, 0x6eu8, 0x67u8, 0x65u8, 0x5fu8, 0x69u8, 0x64u8, 0x65u8, 0x6eu8, 0x74u8, 0x69u8, 0x66u8, 0x69u8, 0x63u8, 0x61u8, 0x74u8, 0x69u8, 0x6fu8, 0x6eu8];
    assert(w@ =~= msg_kex());
    contains_bytes(data, w.as_slice())
}

fn says_resolve(data: &[u8]) -> (b: bool)
    ensures
        b == contains(data@, msg_resolve()),
{
    let w = vec![0x43u8, 0x6fu8, 0x75u8, 0x6cu8, 0x64u8, 0x20u8, 0x6eu8, 0x6fu8, 0x74u8, 0x20u8, 0x72u8, 0x65u8, 0x73u8, 0x6fu8, 0x6cu8, 0x76u8, 0x65u8, 0x20u8, 0x68u8, 0x6fu8, 0x73u8, 0x74u8, 0x6eu8, 0x61u8, 0x6du8, 0x65u8];
    assert(w@ =~= msg_resolve());
    contains_bytes(data, w.as_slice())
}

fn says_refused(data: &[u8]) -> (b: bool)
    ensures
        b == contains(data@, msg_refused()),
{
    let w = vec![0x43u8, 0x6fu8, 0x6eu8, 0x6eu8, 0x65u8, 0x63u8, 0x74u8, 0x69u8, 0x6fu8, 0x6eu8, 0x20u8, 0x72u8, 0x65u8, 0x66u8, 0x75u8, 0x73u8, 0x65u8, 0x64u8];
    assert(w@ =~= msg_refused());
    contains_bytes(data, w.as_slice())
}

fn says_timed_out(data: &[u8]) -> (b: bool)
    ensures
        b == contains(data@, msg_timed_out()),
{
    let w = vec![0x43u8, 0x6fu8, 0x6eu8, 0x6eu8, 0x65u8, 0x63u8, 0x74u8, 0x69u8, 0x6fu8, 0x6eu8, 0x20u8, 0x74u8, 0x69u8, 0x6du8, 0x65u8, 0x64u8, 0x20u8, 0x6fu8, 0x75u8, 0x74u8];
    assert(w@ =~= msg_timed_out());
    contains_bytes(data, w.as_slice())
}

fn says_no_route(data: &[u8]) -> (b: bool)
    ensures
        b == contains(data@, msg_no_route()),
{
    let w = vec![0x4eu8, 0x6fu8, 0x20u8, 0x72u8, 0x6fu8, 0x75u8, 0x74u8, 0x65u8, 0x20u8, 0x74u8, 0x6fu8, 0x20u8, 0x68u8, 0x6fu8, 0x73u8, 0x74u8];
    assert(w@ =~= msg_no_route());
    contains_bytes(data, w.as_slice())
}

/// Reads the ssh client's output for a failure to connect.
pub fn classify_ssh_output(data: &[u8]) -> (r: Option<FailureKind>)
    ensures
        r == ssh_failure(data@),
{
    if says_auth_denied(data) {
        Some(FailureKind::Auth)
    } else if says_negotiate(data) || says_kex(data) {
        Some(FailureKind::Handshake)
    } else if says_resolve(data) || says_refused(data) || says_timed_out(data) || says_no_route(data) {
        Some(FailureKind::Transport)
    } else {
        None
    }
}

/// The connect error of a kind, carrying `message`.
pub fn connect_error(kind: FailureKind, message: String) -> (e: ConnectError)
    ensures
        kind == FailureKind::Transport ==> e == ConnectError::Transport(message),
        kind == FailureKind::Handshake ==> e == ConnectError::Handshake(message),
        kind == FailureKind::Auth ==> e == ConnectError::Auth(message),
{
    match kind {
        FailureKind::Transport => ConnectError::Transport(message),
        FailureKind::Handshake => ConnectError::Handshake(message),
        FailureKind::Auth => ConnectError::Auth(message),
    }
}

} // verus!
