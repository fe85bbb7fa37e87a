//! The input multiplexer's command model and the dispatcher's work.
//!
//! Console lines and decoded remote requests meet in one queue as
//! structured commands, each tagged with its origin.  The dispatcher
//! executes commands against the store and the task registry, and its
//! output lines are routed back to the origin: printed for the
//! console, encoded as a response message for a remote client.
//! Internal handshake messages are answered directly by the receive
//! loop and never enter the queue.

use vstd::prelude::*;
use crate::error::{NotificationError, StoreError, UserInputHandlerError};
use crate::ipc::{
    spec_enc_internal, spec_enc_response, Message, MessageRequest, MessageResponse, UdsMessage,
};
use crate::notification::{
    get_new_notification_sled, spec_enc_record, NotificationSled, RecordView, MAX_PHASE_SECONDS,
};
use crate::registry::TaskRegistry;
use crate::store::{db_contents, stored_record, SledStore};
use crate::wire::spec_u128_le;

verus! {

/// Where one queued command came from.
#[derive(Debug, PartialEq, Eq, Clone, Copy)]
pub enum InputSource {
    StandardInput,
    UnixDomainSocket,
}

/// One unit of console input, as the line reader hands it over.
#[derive(Debug, PartialEq, Eq, Clone)]
pub struct UserInput {
    pub input: String,
    pub source: InputSource,
}

/// A structured command, shared by both origins: the remote request
/// decodes into it, the console parser produces it.
#[derive(Debug, PartialEq, Eq, Clone)]
pub enum Command {
    Create { work_time: Option<u16>, break_time: Option<u16>, description: Option<String> },
    Queue { work_time: Option<u16>, break_time: Option<u16>, description: Option<String> },
    Delete { id: u16, all: bool },
    List { show_percentage: bool },
    Test,
    History { should_clear: bool },
    Exit,
    Clear,
}

/// The command a remote request stands for.
pub open spec fn command_matches_request(c: Command, r: MessageRequest) -> bool {
    match (c, r) {
        (
            Command::Create { work_time: cw, break_time: cb, description: cd },
            MessageRequest::Create { work_time: rw, break_time: rb, description: rd },
        ) => cw == rw && cb == rb && cd.deep_view() == rd.deep_view(),
        (
            Command::Queue { work_time: cw, break_time: cb, description: cd },
            MessageRequest::Queue { work_time: rw, break_time: rb, description: rd },
        ) => cw == rw && cb == rb && cd.deep_view() == rd.deep_view(),
        (
            Command::Delete { id: ci, all: ca },
            MessageRequest::Delete { id: ri, all: ra },
        ) => ci == ri && ca == ra,
        (
            Command::List { show_percentage: cp },
            MessageRequest::List { show_percentage: rp },
        ) => cp == rp,
        (Command::Test, MessageRequest::Test) => true,
        (
            Command::History { should_clear: cc },
            MessageRequest::History { should_clear: rc },
        ) => cc == rc,
        _ => false,
    }
}

/// Turn a decoded remote request into the dispatcher's structured
/// command form.
pub fn request_to_command(request: MessageRequest) -> (r: Command)
    ensures
        command_matches_request(r, request),
{
    match request {
        MessageRequest::Create { work_time, break_time, description } => Command::Create {
            work_time,
            break_time,
            description,
        },
        MessageRequest::Queue { work_time, break_time, description } => Command::Queue {
            work_time,
            break_time,
            description,
        },
        MessageRequest::Delete { id, all } => Command::Delete { id, all },
        MessageRequest::List { show_percentage } => Command::List { show_percentage },
        MessageRequest::Test => Command::Test,
        MessageRequest::History { should_clear } => Command::History { should_clear },
    }
}

/// What the transport receive loop does with one decoded envelope.
#[derive(Debug, PartialEq, Eq, Clone)]
pub enum InboundRoute {
    /// A Ping: answer the sender directly with these encoded Pong
    /// bytes, without touching the command queue.
    ReplyPong(Vec<u8>),
    /// A stray Pong outside a probe: dropped.
    Ignore,
    /// A request: enqueue this command for the dispatcher.
    Enqueue(Command),
}

/// Route one decoded envelope: Pings are answered in place, requests
/// are enqueued, stray Pongs are dropped.
pub fn route_inbound(message: UdsMessage) -> (r: InboundRoute)
    ensures
        match r {
            InboundRoute::ReplyPong(bytes) => message == UdsMessage::Internal(Message::Ping)
                && bytes@ == spec_enc_internal(Message::Pong),
            InboundRoute::Ignore => message == UdsMessage::Internal(Message::Pong),
            InboundRoute::Enqueue(c) => match message {
                UdsMessage::Public(req) => command_matches_request(c, req),
                UdsMessage::Internal(_) => false,
            },
        },
{
    match message {
        UdsMessage::Public(request) => InboundRoute::Enqueue(request_to_command(request)),
        UdsMessage::Internal(Message::Ping) => InboundRoute::ReplyPong(Message::Pong.encode()),
        UdsMessage::Internal(Message::Pong) => InboundRoute::Ignore,
    }
}

/// Where one command's output lines must go.
#[derive(Debug, PartialEq, Eq, Clone)]
pub enum OutputRoute {
    /// Console origin: print the lines on standard output.
    Print(Vec<String>),
    /// Remote origin: send these encoded response bytes back to the
    /// client address.
    Send(Vec<u8>),
}

/// Route one command's output lines back to their origin.  A remote
/// origin always gets a reply: the lines travel as one encoded
/// response message.
pub fn route_output(source: InputSource, body: Vec<String>) -> (r: OutputRoute)
    ensures
        match r {
            OutputRoute::Print(lines) => source == InputSource::StandardInput && lines
                == body,
            OutputRoute::Send(bytes) => source == InputSource::UnixDomainSocket && bytes@
                == spec_enc_response(body.deep_view()),
        },
{
    match source {
        InputSource::StandardInput => OutputRoute::Print(body),
        InputSource::UnixDomainSocket => {
            let response = MessageResponse::new(body);
            OutputRoute::Send(response.encode())
        },
    }
}

/// The console-visible short form of a record identifier: its last
/// four decimal digits.
pub fn short_id_of(id: u128) -> (r: u64)
    ensures
        r == id % 10_000,
{
    (id % 10_000) as u64
}

/// Resolve a console-visible short id back to a full record
/// identifier: some listed record's identifier with those last four
/// digits, or nothing when no listed record matches.
pub fn find_by_short_id(records: &Vec<NotificationSled>, short: u64) -> (r: Option<u128>)
    ensures
        match r {
            Some(id) => exists|i: int|
                0 <= i < records@.len() && (#[trigger] records@[i])@.id == id && id % 10_000
                    == short,
            None => forall|i: int|
                0 <= i < records@.len() ==> (#[trigger] records@[i])@.id % 10_000 != short,
        },
{
    let mut i: usize = 0;
    while i < records.len()
        invariant
            i <= records@.len(),
            forall|j: int| 0 <= j < i ==> (#[trigger] records@[j])@.id % 10_000 != short,
        decreases records@.len() - i,
    {
        let id = records[i].get_id();
        if (id % 10_000) as u64 == short {
            return Some(id);
        }
        i = i + 1;
    }
    None
}

/// Execute a Create command: validate, persist, and hand the record
/// back so the caller can spawn its scheduler task.
pub fn handle_create(
    store: &mut SledStore,
    work_time: u16,
    break_time: u16,
    description: String,
    now: i64,
) -> (r: Result<NotificationSled, UserInputHandlerError>)
    requires
        now + MAX_PHASE_SECONDS <= i64::MAX,
    ensures
        work_time == 0 && break_time == 0 ==> r == Err::<NotificationSled, UserInputHandlerError>(
            UserInputHandlerError::NotificationError(NotificationError::EmptyTimeValues),
        ) && db_contents(final(store).db) == db_contents(old(store).db),
        match r {
            Ok(n) => {
                &&& n@.wf()
                &&& n@.work_time == work_time
                &&& n@.break_time == break_time
                &&& n@.description == description@
                &&& n@.created_at == now
                &&& db_contents(final(store).db) == db_contents(old(store).db).insert(
                    spec_u128_le(n@.id),
                    spec_enc_record(n@),
                )
            },
            Err(e) => match e {
                UserInputHandlerError::NotificationError(ne) => ne
                    == NotificationError::EmptyTimeValues && work_time == 0 && break_time == 0
                    && db_contents(final(store).db) == db_contents(old(store).db),
                UserInputHandlerError::SledError(se) => se == StoreError::Backend && (work_time > 0
                    || break_time > 0),
                _ => false,
            },
        },
{
    let notification = match get_new_notification_sled(work_time, break_time, description, now) {
        Ok(n) => n,
        Err(e) => {
            return Err(UserInputHandlerError::NotificationError(e));
        },
    };
    match store.create_notification(&notification) {
        Ok(_) => Ok(notification),
        Err(se) => Err(UserInputHandlerError::SledError(se)),
    }
}

/// Execute a Queue command: the new record starts when the last
/// pending notification ends (or now, with nothing pending), is
/// persisted, and is handed back for spawning.
pub fn handle_queue(
    store: &mut SledStore,
    work_time: u16,
    break_time: u16,
    description: String,
    now: i64,
) -> (r: Result<NotificationSled, UserInputHandlerError>)
    requires
        now + MAX_PHASE_SECONDS <= i64::MAX,
    ensures
        match r {
            Ok(n) => {
                &&& n@.wf()
                &&& n@.work_time == work_time
                &&& n@.break_time == break_time
                &&& n@.description == description@
                &&& n@.created_at >= now
                &&& forall|rv: RecordView|
                    #[trigger] stored_record(db_contents(old(store).db), rv) && rv.is_active(now)
                        ==> rv.break_expired_at <= n@.created_at
                &&& (n@.created_at == now || exists|rv: RecordView|
                    #[trigger] stored_record(db_contents(old(store).db), rv) && rv.is_active(now)
                        && rv.break_expired_at == n@.created_at)
                &&& db_contents(final(store).db) == db_contents(old(store).db).insert(
                    spec_u128_le(n@.id),
                    spec_enc_record(n@),
                )
            },
            Err(e) => match e {
                UserInputHandlerError::NotificationError(ne) => ne
                    == NotificationError::EmptyTimeValues && work_time == 0 && break_time == 0
                    && db_contents(final(store).db) == db_contents(old(store).db),
                UserInputHandlerError::SledError(se) => se == StoreError::Backend || se
                    == StoreError::Corrupt,
                UserInputHandlerError::ParseError(_) => (exists|rv: RecordView|
                    #[trigger] stored_record(db_contents(old(store).db), rv) && rv.is_active(now)
                        && rv.break_expired_at > i64::MAX - MAX_PHASE_SECONDS) && db_contents(
                    final(store).db,
                ) == db_contents(old(store).db),
                _ => false,
            },
        },
{
    let created_at = match store.get_time_for_queue_notification(now) {
        Ok(t) => t,
        Err(se) => {
            return Err(UserInputHandlerError::SledError(se));
        },
    };
    if created_at > i64::MAX - MAX_PHASE_SECONDS {
        let message = String::from_str("the queued start time is out of range");
        return Err(UserInputHandlerError::ParseError(crate::error::ParseError::new(message)));
    }
    let notification = match get_new_notification_sled(
        work_time,
        break_time,
        description,
        created_at,
    ) {
        Ok(n) => n,
        Err(e) => {
            return Err(UserInputHandlerError::NotificationError(e));
        },
    };
    match store.create_notification(&notification) {
        Ok(_) => Ok(notification),
        Err(se) => Err(UserInputHandlerError::SledError(se)),
    }
}

/// Execute a Delete command for one notification: cancel its task
/// registration and remove its store record.  The handle, if a task
/// was running, is handed back for the caller to cancel.
pub fn handle_delete<T>(
    store: &mut SledStore,
    registry: &mut TaskRegistry<T>,
    id: u128,
) -> (r: Result<Option<T>, UserInputHandlerError>)
    requires
        old(registry).wf(),
    ensures
        final(registry).wf(),
        match r {
            Ok(handle) => {
                &&& db_contents(final(store).db) == db_contents(old(store).db).remove(
                    spec_u128_le(id),
                )
                &&& final(registry)@ == old(registry)@.remove(id)
                &&& match handle {
                    Some(h) => old(registry)@.dom().contains(id) && old(registry)@[id] == h,
                    None => !old(registry)@.dom().contains(id),
                }
            },
            Err(e) => e == UserInputHandlerError::SledError(StoreError::Backend)
                && final(registry)@ == old(registry)@.remove(id),
        },
{
    let handle = registry.remove(id);
    match store.delete(id) {
        Ok(_) => Ok(handle),
        Err(se) => Err(UserInputHandlerError::SledError(se)),
    }
}

/// Execute a Delete-all command (also History-clear): every stored
/// record's entry is removed from the store, every registered task is
/// cancelled, and the cancelled handles are handed back.
pub fn handle_delete_all<T>(store: &mut SledStore, registry: &mut TaskRegistry<T>) -> (r: Result<
    Vec<T>,
    UserInputHandlerError,
>)
    requires
        old(registry).wf(),
    ensures
        final(registry).wf(),
        forall|id: u128|
            #[trigger] final(registry)@.dom().contains(id) ==> old(registry)@.dom().contains(id)
                && final(registry)@[id] == old(registry)@[id],
        forall|k: Seq<u8>|
            #[trigger] db_contents(final(store).db).dom().contains(k) ==> db_contents(
                old(store).db,
            ).contains_pair(k, db_contents(final(store).db)[k]),
        match r {
            Ok(_) => forall|rv: RecordView|
                #[trigger] stored_record(db_contents(old(store).db), rv) ==> !db_contents(
                    final(store).db,
                ).dom().contains(spec_u128_le(rv.id)),
            Err(e) => match e {
                UserInputHandlerError::SledError(se) => (se == StoreError::Backend || se
                    == StoreError::Corrupt) && (se == StoreError::Corrupt ==> db_contents(
                    final(store).db,
                ) == db_contents(old(store).db) && final(registry)@ == old(registry)@),
                _ => false,
            },
        },
{
    let records = match store.list_all_notifications() {
        Ok(v) => v,
        Err(se) => {
            proof {
                assert(forall|k: Seq<u8>|
                    #[trigger] db_contents(store.db).dom().contains(k) ==> db_contents(
                        store.db,
                    ).contains_pair(k, db_contents(store.db)[k]));
            }
            return Err(UserInputHandlerError::SledError(se));
        },
    };
    let ghost m0 = db_contents(store.db);
    let mut handles: Vec<T> = Vec::new();
    let mut i: usize = 0;
    while i < records.len()
        invariant
            i <= records@.len(),
            registry.wf(),
            m0 == db_contents(old(store).db),
            forall|j: int|
                0 <= j < records@.len() ==> stored_record(m0, (#[trigger] records@[j])@),
            forall|rv: RecordView|
                #[trigger] stored_record(m0, rv) ==> crate::store::listed(records@, rv),
            forall|j: int|
                0 <= j < i ==> !db_contents(store.db).dom().contains(
                    spec_u128_le((#[trigger] records@[j])@.id),
                ),
            forall|k: Seq<u8>|
                #[trigger] db_contents(store.db).dom().contains(k) ==> m0.contains_pair(
                    k,
                    db_contents(store.db)[k],
                ),
            forall|id: u128|
                #[trigger] registry@.dom().contains(id) ==> old(registry)@.dom().contains(id)
                    && registry@[id] == old(registry)@[id],
        decreases records@.len() - i,
    {
        let id = records[i].get_id();
        match registry.remove(id) {
            Some(h) => handles.push(h),
            None => {},
        }
        let ghost mc = db_contents(store.db);
        match store.delete(id) {
            Ok(_) => {},
            Err(se) => {
                proof {
                    let mfin = db_contents(store.db);
                    assert forall|k: Seq<u8>| #[trigger] mfin.dom().contains(k) implies m0.contains_pair(
                        k,
                        mfin[k],
                    ) by {
                        if mfin == mc.remove(spec_u128_le(id)) {
                            assert(mc.dom().contains(k));
                            assert(mfin[k] == mc[k]);
                        } else {
                            assert(mfin == mc);
                            assert(mc.dom().contains(k));
                        }
                    }
                }
                return Err(UserInputHandlerError::SledError(se));
            },
        }
        i = i + 1;
    }
    proof {
        assert forall|rv: RecordView|
            #[trigger] stored_record(m0, rv) implies !db_contents(store.db).dom().contains(
            spec_u128_le(rv.id),
        ) by {
            assert(crate::store::listed(records@, rv));
            let j = choose|j: int| 0 <= j < records@.len() && (#[trigger] records@[j])@ == rv;
        }
    }
    Ok(handles)
}

} // verus!
