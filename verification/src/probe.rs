//! The liveness probe and the daemon's socket lifecycle decisions.
//!
//! On a connectionless transport a stale socket file left by a crashed
//! daemon looks exactly like a live one, so before binding the
//! well-known address the process probes it: send a Ping, wait briefly
//! for a Pong.  Only a Pong proves a live daemon; silence, a send
//! failure or garbage all mean the address is free to take over.

use vstd::prelude::*;
use crate::framing::{reassemble, spec_reassemble};
use crate::ipc::{spec_dec_internal, Message, UdsType};

verus! {

/// What the probe concluded about the well-known daemon address.
#[derive(Debug, PartialEq, Eq, Clone, Copy)]
pub enum AddressStatus {
    /// A live daemon answered: this process must not bind.
    InUse,
    /// No live daemon: stale files may be removed and the address
    /// bound.
    Free,
}

/// How the daemon should proceed with the socket path before binding.
#[derive(Debug, PartialEq, Eq, Clone, Copy)]
pub enum BindAction {
    /// A daemon is already running: abort instead of binding.
    AbortAlreadyRunning,
    /// The path exists but nothing answered: remove the stale file,
    /// then bind.
    RemoveStaleThenBind,
    /// Nothing in the way: bind directly.
    BindFresh,
}

/// The probe's verdict on what, if anything, came back before the
/// timeout: only a Pong proves a live daemon.
pub fn probe_verdict(reply: Option<Message>) -> (r: AddressStatus)
    ensures
        r == AddressStatus::InUse <==> reply == Some(Message::Pong),
{
    match reply {
        Some(Message::Pong) => AddressStatus::InUse,
        Some(Message::Ping) => AddressStatus::Free,
        None => AddressStatus::Free,
    }
}

/// The probe's verdict straight from the datagrams that arrived before
/// the timeout: reassemble them, decode the handshake message, judge.
pub fn probe_verdict_of_datagrams(datagrams: &Vec<Vec<u8>>) -> (r: AddressStatus)
    ensures
        r == AddressStatus::InUse <==> (match spec_reassemble(datagrams.deep_view()) {
            Some(bytes) => spec_dec_internal(bytes) == Some(Message::Pong),
            None => false,
        }),
{
    let reply = match reassemble(datagrams) {
        Some(bytes) => match Message::decode(&bytes) {
            Ok(m) => Some(m),
            Err(_) => None,
        },
        None => None,
    };
    probe_verdict(reply)
}

/// What to do with the server socket path, given the probe's verdict
/// and whether the path currently exists on disk.
pub fn server_bind_plan(status: AddressStatus, path_exists: bool) -> (r: BindAction)
    ensures
        r == BindAction::AbortAlreadyRunning <==> status == AddressStatus::InUse,
        r == BindAction::RemoveStaleThenBind <==> (status == AddressStatus::Free && path_exists),
        r == BindAction::BindFresh <==> (status == AddressStatus::Free && !path_exists),
{
    match status {
        AddressStatus::InUse => BindAction::AbortAlreadyRunning,
        AddressStatus::Free => if path_exists {
            BindAction::RemoveStaleThenBind
        } else {
            BindAction::BindFresh
        },
    }
}

/// The role-specific socket file name.
pub open spec fn spec_socket_name(t: UdsType) -> Seq<char> {
    match t {
        UdsType::Server => "rust-cli-pomodoro-server.sock"@,
        UdsType::Client => "rust-cli-pomodoro-client.sock"@,
    }
}

/// The well-known address of a role: a per-user directory under the
/// system scratch directory, then the role's socket file name.  The
/// caller supplies the scratch directory and user name; the transport
/// binds the returned path.
pub fn get_uds_address(t: UdsType, base_dir: &String, username: &String) -> (r: String)
    ensures
        r@ == base_dir@ + "/"@ + username@ + "/"@ + spec_socket_name(t),
{
    let mut out: String = base_dir.clone();
    out.append("/");
    out.append(username.as_str());
    out.append("/");
    match t {
        UdsType::Server => out.append("rust-cli-pomodoro-server.sock"),
        UdsType::Client => out.append("rust-cli-pomodoro-client.sock"),
    }
    out
}

/// A datagram is accepted only from the expected peer address.
pub fn sender_accepted(sender: &String, expected: &String) -> (r: bool)
    ensures
        r == (sender@ == expected@),
{
    sender.eq(expected)
}

} // verus!
